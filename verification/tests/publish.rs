use futures::channel::mpsc;
use pub_socket::backend::PubSocketBackend;
use pub_socket::fanout::Attempt;
use pub_socket::channel::Delivery;
use pub_socket::message::{Message, ZmqMessage};
use pub_socket::socket::PubSocket;

fn subscribe(topic: &[u8]) -> Message {
    let mut frame = vec![1u8];
    frame.extend_from_slice(topic);
    Message::Message(ZmqMessage::new(frame))
}

fn unsubscribe(topic: &[u8]) -> Message {
    let mut frame = vec![0u8];
    frame.extend_from_slice(topic);
    Message::Message(ZmqMessage::new(frame))
}

fn connect(backend: &mut PubSocketBackend, peer: &[u8], room: usize) -> mpsc::Receiver<Message> {
    let (sender, receiver) = mpsc::channel(room);
    assert!(backend.peer_connected(&peer.to_vec(), sender).is_ok());
    receiver
}

fn received(queue: &mut mpsc::Receiver<Message>) -> Vec<Vec<u8>> {
    let mut payloads = Vec::new();
    while let Ok(message) = queue.try_recv() {
        match message {
            Message::Message(m) => payloads.push(m.data),
            other => panic!("unexpected frame {:?}", other),
        }
    }
    payloads
}

fn sorted(mut report: Vec<Attempt>) -> Vec<(Vec<u8>, Delivery)> {
    report.sort_by(|a, b| a.peer.cmp(&b.peer));
    report.into_iter().map(|a| (a.peer, a.outcome)).collect()
}

#[test]
fn prefix_subscription_receives_matching_payload_only() {
    let mut socket = PubSocket::new();
    let mut a = connect(socket.backend(), b"A", 8);
    socket.backend().message_received(&b"A".to_vec(), subscribe(b"news"));

    assert!(socket.send(ZmqMessage::new(b"newsflash".to_vec())).is_ok());
    assert_eq!(received(&mut a), vec![b"newsflash".to_vec()]);

    assert!(socket.send(ZmqMessage::new(b"weather".to_vec())).is_ok());
    assert!(received(&mut a).is_empty());
}

#[test]
fn empty_subscription_receives_every_payload() {
    let mut socket = PubSocket::new();
    let mut a = connect(socket.backend(), b"A", 8);
    socket.backend().message_received(&b"A".to_vec(), subscribe(b""));

    assert!(socket.send(ZmqMessage::new(b"anything".to_vec())).is_ok());
    assert!(socket.send(ZmqMessage::new(Vec::new())).is_ok());
    assert!(socket.send(ZmqMessage::new(vec![0u8, 1u8, 2u8])).is_ok());
    assert_eq!(received(&mut a), vec![b"anything".to_vec(), Vec::new(), vec![0u8, 1u8, 2u8]]);
}

#[test]
fn one_of_two_equal_subscriptions_survives_one_unsubscribe() {
    let mut socket = PubSocket::new();
    let mut a = connect(socket.backend(), b"A", 8);
    let id = b"A".to_vec();
    socket.backend().message_received(&id, subscribe(b"x"));
    socket.backend().message_received(&id, subscribe(b"x"));
    socket.backend().message_received(&id, unsubscribe(b"x"));

    assert_eq!(socket.backend().subscriptions(&id), Some(vec![b"x".to_vec()]));
    assert!(socket.send(ZmqMessage::new(b"xyz".to_vec())).is_ok());
    assert_eq!(received(&mut a), vec![b"xyz".to_vec()]);

    socket.backend().message_received(&id, unsubscribe(b"x"));
    assert_eq!(socket.backend().subscriptions(&id), Some(Vec::new()));
    assert!(socket.send(ZmqMessage::new(b"xyz".to_vec())).is_ok());
    assert!(received(&mut a).is_empty());
}

#[test]
fn closed_peer_is_removed_and_the_other_still_receives() {
    let mut socket = PubSocket::new();
    let a = connect(socket.backend(), b"A", 8);
    let mut b = connect(socket.backend(), b"B", 8);
    socket.backend().message_received(&b"A".to_vec(), subscribe(b"t"));
    socket.backend().message_received(&b"B".to_vec(), subscribe(b"t"));
    drop(a);

    assert_eq!(socket.send(ZmqMessage::new(b"t1".to_vec())), Ok(()));

    assert_eq!(received(&mut b), vec![b"t1".to_vec()]);
    assert!(!socket.backend().is_connected(&b"A".to_vec()));
    assert!(socket.backend().is_connected(&b"B".to_vec()));
    assert_eq!(socket.backend().peers(), vec![b"B".to_vec()]);
}

#[test]
fn closed_peer_is_reported_as_disconnected() {
    let mut socket = PubSocket::new();
    let a = connect(socket.backend(), b"A", 8);
    let mut b = connect(socket.backend(), b"B", 8);
    socket.backend().message_received(&b"A".to_vec(), subscribe(b"t"));
    socket.backend().message_received(&b"B".to_vec(), subscribe(b"t"));
    drop(a);

    let report = socket.publish(&ZmqMessage::new(b"t1".to_vec()));
    assert_eq!(
        sorted(report),
        vec![(b"A".to_vec(), Delivery::Disconnected), (b"B".to_vec(), Delivery::Delivered)]
    );
    assert_eq!(received(&mut b), vec![b"t1".to_vec()]);

    let report = socket.publish(&ZmqMessage::new(b"t2".to_vec()));
    assert_eq!(sorted(report), vec![(b"B".to_vec(), Delivery::Delivered)]);
}

#[test]
fn publish_without_subscriptions_delivers_nothing() {
    let mut socket = PubSocket::new();
    let mut a = connect(socket.backend(), b"A", 8);
    let mut b = connect(socket.backend(), b"B", 8);

    assert_eq!(socket.send(ZmqMessage::new(b"anything".to_vec())), Ok(()));
    assert!(socket.publish(&ZmqMessage::new(Vec::new())).is_empty());

    assert!(received(&mut a).is_empty());
    assert!(received(&mut b).is_empty());
    assert!(socket.backend().is_connected(&b"A".to_vec()));
    assert!(socket.backend().is_connected(&b"B".to_vec()));
}

#[test]
fn publish_without_peers_succeeds() {
    let mut socket = PubSocket::new();
    assert_eq!(socket.send(ZmqMessage::new(b"anything".to_vec())), Ok(()));
    assert!(socket.publish(&ZmqMessage::new(b"anything".to_vec())).is_empty());
    assert!(socket.backend().peers().is_empty());
}

#[test]
fn two_matching_subscriptions_give_one_copy() {
    let mut socket = PubSocket::new();
    let mut a = connect(socket.backend(), b"A", 8);
    let id = b"A".to_vec();
    socket.backend().message_received(&id, subscribe(b"n"));
    socket.backend().message_received(&id, subscribe(b"news"));
    socket.backend().message_received(&id, subscribe(b""));

    let report = socket.publish(&ZmqMessage::new(b"newsflash".to_vec()));
    assert_eq!(report, vec![Attempt { peer: id.clone(), outcome: Delivery::Delivered }]);
    assert_eq!(received(&mut a), vec![b"newsflash".to_vec()]);
}

#[test]
fn subscription_longer_than_payload_does_not_match() {
    let mut socket = PubSocket::new();
    let mut a = connect(socket.backend(), b"A", 8);
    socket.backend().message_received(&b"A".to_vec(), subscribe(b"newsflash"));

    assert!(socket.publish(&ZmqMessage::new(b"news".to_vec())).is_empty());
    assert!(socket.publish(&ZmqMessage::new(Vec::new())).is_empty());
    assert!(received(&mut a).is_empty());
}

#[test]
fn peer_without_a_matching_prefix_is_not_tried() {
    let mut socket = PubSocket::new();
    let mut a = connect(socket.backend(), b"A", 8);
    let mut b = connect(socket.backend(), b"B", 8);
    socket.backend().message_received(&b"A".to_vec(), subscribe(b"sport"));
    socket.backend().message_received(&b"A".to_vec(), subscribe(b"weather"));
    socket.backend().message_received(&b"B".to_vec(), subscribe(b"news"));

    let report = socket.publish(&ZmqMessage::new(b"news: rain".to_vec()));
    assert_eq!(report, vec![Attempt { peer: b"B".to_vec(), outcome: Delivery::Delivered }]);
    assert!(received(&mut a).is_empty());
    assert_eq!(received(&mut b), vec![b"news: rain".to_vec()]);
}

#[test]
fn full_queue_loses_the_message_and_keeps_the_peer() {
    let mut socket = PubSocket::new();
    let mut slow = connect(socket.backend(), b"slow", 0);
    let mut fast = connect(socket.backend(), b"fast", 8);
    socket.backend().message_received(&b"slow".to_vec(), subscribe(b""));
    socket.backend().message_received(&b"fast".to_vec(), subscribe(b""));

    let first = socket.publish(&ZmqMessage::new(b"one".to_vec()));
    assert_eq!(
        sorted(first),
        vec![(b"fast".to_vec(), Delivery::Delivered), (b"slow".to_vec(), Delivery::Delivered)]
    );
    let second = socket.publish(&ZmqMessage::new(b"two".to_vec()));
    assert_eq!(
        sorted(second),
        vec![(b"fast".to_vec(), Delivery::Delivered), (b"slow".to_vec(), Delivery::Full)]
    );

    assert!(socket.backend().is_connected(&b"slow".to_vec()));
    assert_eq!(socket.backend().subscriptions(&b"slow".to_vec()), Some(vec![Vec::new()]));
    assert_eq!(received(&mut slow), vec![b"one".to_vec()]);
    assert_eq!(received(&mut fast), vec![b"one".to_vec(), b"two".to_vec()]);

    let third = socket.publish(&ZmqMessage::new(b"three".to_vec()));
    assert_eq!(
        sorted(third),
        vec![(b"fast".to_vec(), Delivery::Delivered), (b"slow".to_vec(), Delivery::Delivered)]
    );
    assert_eq!(received(&mut slow), vec![b"three".to_vec()]);
}

#[test]
fn every_accepting_peer_gets_its_own_copy() {
    let mut socket = PubSocket::new();
    let mut queues = Vec::new();
    for n in 0u8..20 {
        let id = vec![b'p', n];
        queues.push(connect(socket.backend(), &id, 4));
        let topic: &[u8] = if n % 2 == 0 { b"even" } else { b"odd" };
        socket.backend().message_received(&id, subscribe(topic));
    }

    let report = socket.publish(&ZmqMessage::new(b"even numbers".to_vec()));
    let tried = sorted(report);
    assert_eq!(tried.len(), 10);
    for (k, (peer, outcome)) in tried.iter().enumerate() {
        assert_eq!(peer, &vec![b'p', 2 * k as u8]);
        assert_eq!(*outcome, Delivery::Delivered);
    }
    for (n, queue) in queues.iter_mut().enumerate() {
        if n % 2 == 0 {
            assert_eq!(received(queue), vec![b"even numbers".to_vec()]);
        } else {
            assert!(received(queue).is_empty());
        }
    }
    assert_eq!(socket.backend().peers().len(), 20);
}

#[test]
fn delivery_is_fatal_only_when_disconnected() {
    assert!(Delivery::Disconnected.is_fatal());
    assert!(!Delivery::Delivered.is_fatal());
    assert!(!Delivery::Full.is_fatal());
}

#[test]
fn duplicate_keeps_the_bytes() {
    let message = ZmqMessage::new(vec![1u8, 2u8, 3u8]);
    let copy = message.duplicate();
    assert_eq!(copy.data, vec![1u8, 2u8, 3u8]);
    assert_eq!(message, copy);
    assert_eq!(ZmqMessage::new(Vec::new()).duplicate().data, Vec::<u8>::new());
}

#[test]
fn publication_is_a_single_payload_with_the_same_bytes() {
    let message = ZmqMessage::new(b"newsflash".to_vec());
    assert_eq!(
        Message::publication(&message),
        Message::Message(ZmqMessage::new(b"newsflash".to_vec()))
    );
    assert_eq!(
        Message::publication(&ZmqMessage::new(Vec::new())),
        Message::Message(ZmqMessage::new(Vec::new()))
    );
}
