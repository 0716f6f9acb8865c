//! The peer registry: one record per connected peer, kept in a `DashMap`.
//!
//! The map is reached through the functions of this module only. Each of
//! them makes one call on the map, and its contract states what that call
//! does to the subscription lists that the map holds. The functions that
//! change the map take it by exclusive reference, so no other thread can
//! touch it during the call.

use crate::message::{Message, PeerIdentity};
use dashmap::DashMap;
use futures::channel::mpsc;
use futures::channel::oneshot;
use vstd::prelude::*;

verus! {

/// `dashmap::DashMap`, a hash map in shards. Verus sees nothing inside it:
/// what it holds is named by `registry_view`.
#[verifier::external_type_specification]
#[verifier::external_body]
#[verifier::reject_recursive_types(K)]
#[verifier::reject_recursive_types(V)]
#[verifier::reject_recursive_types(S)]
pub struct ExDashMap<K, V, S>(DashMap<K, V, S>);

/// The model of a registry: the subscription list of each registered peer,
/// by peer identity.
pub type Registry = Map<Seq<u8>, Seq<Seq<u8>>>;

/// What the registry keeps for one connected peer.
///
/// Dropping a record closes the peer's outbound queue and completes the
/// stop signal of its receive loop, both at once.
pub struct Subscriber {
    pub(crate) subscriptions: Vec<Vec<u8>>,
    pub(crate) send_queue: mpsc::Sender<Message>,
    pub(crate) _subscription_coro_stop: oneshot::Sender<()>,
}

/// The subscription lists that a registry holds, by peer identity: the keys
/// of the map as byte strings, and for each key the `subscriptions` of its
/// value. The queue and the stop signal of a record are not part of it.
pub uninterp spec fn registry_view(map: DashMap<PeerIdentity, Subscriber>) -> Map<Seq<u8>, Seq<Seq<u8>>>;

/// The registry that holds no peer.
pub open spec fn no_peers() -> Registry {
    Map::empty()
}

/// `DashMap::new`: a map without entries.
#[verifier::external_body]
pub(crate) fn registry_new() -> (registry: DashMap<PeerIdentity, Subscriber>)
    ensures
        registry_view(registry) == no_peers(),
{
    DashMap::new()
}

/// `DashMap::contains_key`: whether the map has an entry for `key`.
#[verifier::external_body]
pub(crate) fn registry_contains(map: &DashMap<PeerIdentity, Subscriber>, key: &PeerIdentity) -> (found:
    bool)
    ensures
        found == registry_view(*map).contains_key(key@),
{
    map.contains_key(key)
}

/// `DashMap::get`: a copy of the subscription list in the entry of `key`, if
/// the map has one.
#[verifier::external_body]
pub(crate) fn registry_subscriptions(
    map: &DashMap<PeerIdentity, Subscriber>,
    key: &PeerIdentity,
) -> (found: Option<Vec<Vec<u8>>>)
    ensures
        found is Some <==> registry_view(*map).contains_key(key@),
        found matches Some(list) ==> list.deep_view() == registry_view(*map)[key@],
{
    map.get(key).map(|entry| entry.subscriptions.clone())
}

/// `DashMap::insert`: the entry of `key` becomes `value`, and the value that
/// the key had before comes back. Afterwards the map holds the subscription
/// list of `value` under `key` and every other entry as before.
#[verifier::external_body]
pub(crate) fn registry_insert(
    map: &mut DashMap<PeerIdentity, Subscriber>,
    key: PeerIdentity,
    value: Subscriber,
) -> (previous: Option<Subscriber>)
    ensures
        registry_view(*final(map)) == registry_view(*old(map)).insert(
            key@,
            value.subscriptions.deep_view(),
        ),
        previous is Some <==> registry_view(*old(map)).contains_key(key@),
        previous matches Some(p) ==> p.subscriptions.deep_view() == registry_view(*old(map))[key@],
{
    map.insert(key, value)
}

/// `DashMap::remove`: the entry of `key` leaves the map and its value comes
/// back, if there was one. Every other entry stays as it was.
#[verifier::external_body]
pub(crate) fn registry_remove(
    map: &mut DashMap<PeerIdentity, Subscriber>,
    key: &PeerIdentity,
) -> (removed: Option<Subscriber>)
    ensures
        registry_view(*final(map)) == registry_view(*old(map)).remove(key@),
        removed is Some <==> registry_view(*old(map)).contains_key(key@),
        removed matches Some(r) ==> r.subscriptions.deep_view() == registry_view(*old(map))[key@],
{
    map.remove(key).map(|entry| entry.1)
}

/// `DashMap::clear`: every entry leaves the map.
#[verifier::external_body]
pub(crate) fn registry_clear(map: &mut DashMap<PeerIdentity, Subscriber>)
    ensures
        registry_view(*final(map)) == no_peers(),
{
    map.clear()
}

/// `DashMap::iter`: a copy of each key of the map, each key once. The map
/// walks its shards in an order that depends on its hasher, so the order is
/// left open.
#[verifier::external_body]
pub(crate) fn registry_peers(map: &DashMap<PeerIdentity, Subscriber>) -> (peers: Vec<PeerIdentity>)
    ensures
        peers.deep_view().no_duplicates(),
        peers.deep_view().to_set() == registry_view(*map).dom(),
{
    map.iter().map(|entry| entry.key().clone()).collect()
}

} // verus!
