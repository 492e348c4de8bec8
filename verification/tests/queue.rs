use iotedge::proto::{PacketIdentifier, PacketIdentifierDupQoS, Publication, QoS};
use iotedge::queue::{Queue, Storage, TakeError};

fn publication(topic: &str, qos: QoS, payload: &[u8]) -> Publication {
    Publication { topic_name: topic.to_string(), qos, retain: false, payload: payload.to_vec() }
}

#[test]
fn empty_queue_gives_nothing() {
    let mut q = Queue::new(5);
    assert_eq!(q.take().unwrap_err(), TakeError::Empty);
}

#[test]
fn first_in_first_out() {
    let mut q = Queue::new(5);
    q.push(publication("a", QoS::AtMostOnce, b"1"));
    q.push(publication("b", QoS::AtMostOnce, b"2"));
    q.push(publication("c", QoS::AtMostOnce, b"3"));
    let topics: Vec<String> = (0..3).map(|_| q.take().unwrap().topic_name).collect();
    assert_eq!(topics, vec!["a", "b", "c"]);
    assert_eq!(q.take().unwrap_err(), TakeError::Empty);
}

#[test]
fn at_most_once_has_no_identifier() {
    let mut q = Queue::new(5);
    let mut p = publication("t", QoS::AtMostOnce, b"x");
    p.retain = true;
    q.push(p);
    let publish = q.take().unwrap();
    assert_eq!(publish.packet_identifier_dup_qos, PacketIdentifierDupQoS::AtMostOnce);
    assert!(publish.retain);
    assert_eq!(publish.payload, b"x".to_vec());
}

#[test]
fn at_least_once_gets_identifiers_in_order() {
    let mut q = Queue::new(5);
    q.push(publication("a", QoS::AtLeastOnce, b""));
    q.push(publication("b", QoS::AtLeastOnce, b""));
    let first = q.take().unwrap();
    let second = q.take().unwrap();
    assert_eq!(
        first.packet_identifier_dup_qos,
        PacketIdentifierDupQoS::AtLeastOnce(PacketIdentifier::new(1).unwrap(), false)
    );
    assert_eq!(
        second.packet_identifier_dup_qos,
        PacketIdentifierDupQoS::AtLeastOnce(PacketIdentifier::new(2).unwrap(), false)
    );
}

#[test]
fn in_flight_limit_stops_takes_until_acknowledged() {
    let mut q = Queue::new(2);
    for topic in ["a", "b", "c"] {
        q.push(publication(topic, QoS::AtLeastOnce, b""));
    }
    q.take().unwrap();
    q.take().unwrap();
    assert_eq!(q.take().unwrap_err(), TakeError::MaxInFlightReached);
    assert!(q.remove(PacketIdentifier::new(1).unwrap()));
    let third = q.take().unwrap();
    assert_eq!(third.topic_name, "c");
    assert_eq!(
        third.packet_identifier_dup_qos,
        PacketIdentifierDupQoS::AtLeastOnce(PacketIdentifier::new(3).unwrap(), false)
    );
}

#[test]
fn at_most_once_does_not_count_in_flight() {
    let mut q = Queue::new(1);
    q.push(publication("a", QoS::AtLeastOnce, b""));
    q.push(publication("b", QoS::AtMostOnce, b""));
    q.take().unwrap();
    assert_eq!(q.take().unwrap_err(), TakeError::MaxInFlightReached);
    let mut q = Queue::new(1);
    q.push(publication("b", QoS::AtMostOnce, b""));
    q.push(publication("c", QoS::AtMostOnce, b""));
    q.take().unwrap();
    assert_eq!(q.take().unwrap().topic_name, "c");
}

#[test]
fn acknowledgement_is_acted_on_once() {
    let mut q = Queue::new(5);
    q.push(publication("a", QoS::AtLeastOnce, b""));
    q.take().unwrap();
    let one = PacketIdentifier::new(1).unwrap();
    assert!(q.remove(one));
    assert!(!q.remove(one));
    assert!(!q.remove(PacketIdentifier::new(9).unwrap()));
}

#[test]
fn zero_limit_never_takes() {
    let mut q = Queue::new(0);
    q.push(publication("a", QoS::AtMostOnce, b""));
    assert_eq!(q.take().unwrap_err(), TakeError::MaxInFlightReached);
}

#[test]
fn storage_queues_allow_five_in_flight() {
    let mut storage = Storage {};
    let mut q = storage.new_queue("to_remote");
    for _ in 0..6 {
        q.push(publication("t", QoS::AtLeastOnce, b""));
    }
    for _ in 0..5 {
        q.take().unwrap();
    }
    assert_eq!(q.take().unwrap_err(), TakeError::MaxInFlightReached);
}

#[test]
fn drain_checks_spot_exactly_once() {
    let mut q = Queue::new(5);
    assert!(q.drain_is_defined(None));
    q.push(publication("a", QoS::AtMostOnce, b""));
    let exactly = publication("e", QoS::ExactlyOnce, b"");
    assert!(!q.drain_is_defined(Some(&exactly)));
    q.push(publication("b", QoS::AtLeastOnce, b""));
    assert!(q.drain_is_defined(None));
    // behind a full in-flight window an exactly-once publication is never reached
    let mut full = Queue::new(1);
    full.push(publication("a", QoS::AtLeastOnce, b""));
    full.take().unwrap();
    assert!(full.drain_is_defined(Some(&exactly)));
}
