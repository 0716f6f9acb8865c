[package]
name = "pub_socket"
version = "0.1.0"
edition = "2021"
publish = false

[dependencies]
async-trait = "0.1"
dashmap = "*"
futures = "0.3"
log = "0.4"
parking_lot = "*"
