use iotedge::bridge::{process_is_defined, process_packet, Bridge, Connection, Direction, Outgoing, Side};
use iotedge::proto::{Packet, PacketIdentifier, PacketIdentifierDupQoS, PubAck, Publish, QoS};
use iotedge::queue::Queue;

fn publish(topic: &str, dup_qos: PacketIdentifierDupQoS) -> Publish {
    Publish { packet_identifier_dup_qos: dup_qos, retain: false, topic_name: topic.to_string(), payload: b"hello".to_vec() }
}

fn id(value: u16) -> PacketIdentifier {
    PacketIdentifier::new(value).unwrap()
}

fn connection(prefix: &str) -> Connection {
    Connection::new(prefix.to_string(), Queue::new(5))
}

fn as_publish(o: &Outgoing) -> &Publish {
    match &o.packet {
        Packet::Publish(p) => p,
        _ => panic!("not a PUBLISH"),
    }
}

#[test]
fn filter_prefixes_topic() {
    let c = connection("local");
    assert_eq!(c.filter("topic"), Some("local/topic".to_string()));
    assert_eq!(c.filter(""), Some("local/".to_string()));
}

#[test]
fn handle_publish_translates_and_acknowledges() {
    let mut c = connection("remote");
    let (publication, puback) = c.handle_publish(publish("a/b", PacketIdentifierDupQoS::AtLeastOnce(id(7), true)));
    let publication = publication.unwrap();
    assert_eq!(publication.topic_name, "remote/a/b");
    assert_eq!(publication.qos, QoS::AtLeastOnce);
    assert_eq!(publication.payload, b"hello".to_vec());
    assert_eq!(puback, Some(PubAck { packet_identifier: id(7) }));

    let (publication, puback) = c.handle_publish(publish("x", PacketIdentifierDupQoS::AtMostOnce));
    assert_eq!(publication.unwrap().qos, QoS::AtMostOnce);
    assert_eq!(puback, None);
}

#[test]
fn publish_is_acknowledged_then_forwarded() {
    let mut from = connection("local");
    let mut to = connection("remote");
    let packet = Packet::Publish(publish("topic", PacketIdentifierDupQoS::AtLeastOnce(id(42), false)));
    assert!(process_is_defined(&packet, &from, &to));
    let out = process_packet(packet, &mut from, &mut to);
    assert_eq!(out.len(), 2);
    assert_eq!(out[0].direction, Direction::Back);
    match &out[0].packet {
        Packet::PubAck(a) => assert_eq!(a.packet_identifier.get(), 42),
        _ => panic!("expected a PUBACK"),
    }
    assert_eq!(out[1].direction, Direction::Forward);
    let forwarded = as_publish(&out[1]);
    assert_eq!(forwarded.topic_name, "local/topic");
    assert_eq!(forwarded.packet_identifier_dup_qos, PacketIdentifierDupQoS::AtLeastOnce(id(1), false));
}

#[test]
fn at_most_once_publish_is_forwarded_without_ack() {
    let mut from = connection("local");
    let mut to = connection("remote");
    let out = process_packet(Packet::Publish(publish("t", PacketIdentifierDupQoS::AtMostOnce)), &mut from, &mut to);
    assert_eq!(out.len(), 1);
    assert_eq!(out[0].direction, Direction::Forward);
    assert_eq!(as_publish(&out[0]).packet_identifier_dup_qos, PacketIdentifierDupQoS::AtMostOnce);
}

#[test]
fn forwarding_stops_at_in_flight_limit() {
    let mut from = connection("local");
    let mut to = connection("remote");
    for n in 0..6u16 {
        let out = process_packet(
            Packet::Publish(publish("t", PacketIdentifierDupQoS::AtLeastOnce(id(n + 1), false))),
            &mut from,
            &mut to,
        );
        let forwarded = out.iter().filter(|o| o.direction == Direction::Forward).count();
        assert_eq!(forwarded, if n < 5 { 1 } else { 0 });
    }
    // the other broker acknowledges identifier 1: that frees a place in its
    // window, and the publication that waited for it goes to that broker
    let out = process_packet(Packet::PubAck(PubAck { packet_identifier: id(1) }), &mut to, &mut from);
    assert_eq!(out.len(), 1);
    assert_eq!(out[0].direction, Direction::Back);
    assert_eq!(as_publish(&out[0]).packet_identifier_dup_qos, PacketIdentifierDupQoS::AtLeastOnce(id(6), false));
    // the window is full again: the next publication waits
    let out = process_packet(
        Packet::Publish(publish("u", PacketIdentifierDupQoS::AtMostOnce)),
        &mut from,
        &mut to,
    );
    assert!(out.is_empty());
}

#[test]
fn ack_drains_the_acknowledging_side() {
    let mut a = Connection::new("a".to_string(), Queue::new(1));
    let mut b = connection("b");
    // two publications from b for a's broker: the second waits behind the window of one
    for n in 1..=2u16 {
        process_packet(Packet::Publish(publish("x", PacketIdentifierDupQoS::AtLeastOnce(id(n), false))), &mut b, &mut a);
    }
    // a PUBACK received on b, for nothing in flight there, sends nothing
    let out = process_packet(Packet::PubAck(PubAck { packet_identifier: id(9) }), &mut b, &mut a);
    assert!(out.is_empty());
    // a's broker acknowledges the first: the waiting one goes to a's broker
    let out = process_packet(Packet::PubAck(PubAck { packet_identifier: id(1) }), &mut a, &mut b);
    assert_eq!(out.len(), 1);
    assert_eq!(out[0].direction, Direction::Back);
    assert_eq!(as_publish(&out[0]).topic_name, "b/x");
    assert_eq!(as_publish(&out[0]).packet_identifier_dup_qos, PacketIdentifierDupQoS::AtLeastOnce(id(2), false));
    // an acknowledgement repeated finds nothing to free
    let out = process_packet(Packet::PubAck(PubAck { packet_identifier: id(1) }), &mut a, &mut b);
    assert!(out.is_empty());
}

#[test]
fn other_packets_are_ignored() {
    let mut from = connection("local");
    let mut to = connection("remote");
    assert!(process_packet(Packet::Other, &mut from, &mut to).is_empty());
}

#[test]
fn exactly_once_is_not_defined() {
    let from = connection("local");
    let to = connection("remote");
    let packet = Packet::Publish(publish("t", PacketIdentifierDupQoS::ExactlyOnce(id(1), false)));
    assert!(!process_is_defined(&packet, &from, &to));
}

#[test]
fn bridge_routes_by_side_and_stops_on_disconnect() {
    let mut storage = iotedge::queue::Storage {};
    let mut bridge = Bridge::new(&mut storage);
    let packet = Packet::Publish(publish("topic", PacketIdentifierDupQoS::AtMostOnce));
    assert!(bridge.is_defined(Side::Remote, &packet));
    let out = bridge.handle_received(Side::Remote, Some(packet)).unwrap();
    assert_eq!(out.len(), 1);
    assert_eq!(as_publish(&out[0]).topic_name, "local/topic");
    let out = bridge
        .handle_received(Side::Local, Some(Packet::Publish(publish("topic", PacketIdentifierDupQoS::AtMostOnce))))
        .unwrap();
    assert_eq!(as_publish(&out[0]).topic_name, "remote/topic");
    assert!(bridge.handle_received(Side::Local, None).is_none());
    assert!(bridge.handle_received(Side::Remote, None).is_none());
}

#[test]
fn subscription_asks_for_topic() {
    let s = Bridge::subscription();
    assert_eq!(s.packet_identifier.get(), 1);
    assert_eq!(s.subscribe_to.len(), 1);
    assert_eq!(s.subscribe_to[0].topic_filter, "topic");
    assert_eq!(s.subscribe_to[0].qos, QoS::AtLeastOnce);
}
