use iotedge::packet_ids::{PacketIdentifiers, ReserveError};
use iotedge::proto::PacketIdentifier;

fn id(value: u16) -> PacketIdentifier {
    PacketIdentifier::new(value).unwrap()
}

#[test]
fn identifier_zero_is_rejected() {
    assert!(PacketIdentifier::new(0).is_none());
    assert_eq!(PacketIdentifier::new(7).unwrap().get(), 7);
    assert_eq!(PacketIdentifier::max_value().get(), 65535);
}

#[test]
fn successor_wraps_to_one() {
    assert_eq!(id(1).successor().get(), 2);
    assert_eq!(id(65534).successor().get(), 65535);
    assert_eq!(PacketIdentifier::max_value().successor().get(), 1);
}

#[test]
fn reservations_come_in_order_from_one() {
    let mut ids = PacketIdentifiers::default();
    assert_eq!(ids.reserve().unwrap().get(), 1);
    assert_eq!(ids.reserve().unwrap().get(), 2);
    assert_eq!(ids.reserve().unwrap().get(), 3);
}

#[test]
fn entry_locates_block_and_bit() {
    assert_eq!(PacketIdentifiers::entry(id(1)), (0, 2));
    assert_eq!(PacketIdentifiers::entry(id(64)), (1, 1));
    assert_eq!(PacketIdentifiers::entry(id(65535)), (1023, 1u64 << 63));
}

#[test]
fn reserving_an_identifier_in_use_fails() {
    let mut ids = PacketIdentifiers::new();
    for expected in 1..=65535u32 {
        assert_eq!(ids.reserve().unwrap().get() as u32, expected);
    }
    // the next one would be 1 again, which is still in use
    assert_eq!(ids.reserve(), Err(ReserveError::PacketIdentifiersExhausted));
    assert_eq!(ids.reserve(), Err(ReserveError::PacketIdentifiersExhausted));
    ids.discard(id(1));
    assert_eq!(ids.reserve().unwrap().get(), 1);
    assert_eq!(ids.reserve(), Err(ReserveError::PacketIdentifiersExhausted));
}

#[test]
fn discarded_identifier_is_free_again_after_wrapping() {
    let mut ids = PacketIdentifiers::new();
    let first = ids.reserve().unwrap();
    ids.discard(first);
    for _ in 2..=65535u32 {
        let reserved = ids.reserve().unwrap();
        ids.discard(reserved);
    }
    assert_eq!(ids.reserve().unwrap().get(), 1);
}

#[test]
fn duplicate_keeps_state() {
    let mut ids = PacketIdentifiers::new();
    ids.reserve().unwrap();
    let mut copy = ids.duplicate();
    assert_eq!(copy.reserve().unwrap().get(), 2);
    assert_eq!(ids.reserve().unwrap().get(), 2);
}
