//! The MQTT packet data that the bridge reads and writes.
use vstd::prelude::*;

verus! {

/// Largest packet identifier value.
pub const MAX_PACKET_IDENTIFIER: u16 = 65535;

/// The identifier that follows `value`: one more, wrapping from the largest
/// identifier back to 1, since 0 is never a packet identifier.
pub open spec fn next_identifier(value: u16) -> u16 {
    if value == MAX_PACKET_IDENTIFIER {
        1
    } else {
        (value + 1) as u16
    }
}

/// A non-zero MQTT packet identifier.
#[derive(Clone, Copy, Debug, PartialEq, Eq, Structural)]
pub struct PacketIdentifier(u16);

impl PacketIdentifier {
    #[verifier::type_invariant]
    spec fn non_zero(self) -> bool {
        self.0 != 0
    }

    /// The identifier whose value is `value` (meaningful for `value != 0`).
    pub closed spec fn from_value(value: u16) -> PacketIdentifier {
        PacketIdentifier(value)
    }

    /// Makes an identifier; `None` for 0, which is no packet identifier.
    pub fn new(value: u16) -> (r: Option<PacketIdentifier>)
        ensures
            value == 0 ==> r is None,
            value != 0 ==> r == Some(PacketIdentifier::from_value(value)),
            r matches Some(id) ==> id@ == value,
    {
        if value == 0 {
            None
        } else {
            Some(PacketIdentifier(value))
        }
    }

    /// The largest identifier, 65535.
    pub fn max_value() -> (r: PacketIdentifier)
        ensures
            r@ == MAX_PACKET_IDENTIFIER,
            r == PacketIdentifier::from_value(MAX_PACKET_IDENTIFIER),
    {
        PacketIdentifier(MAX_PACKET_IDENTIFIER)
    }

    /// The identifier's value, never 0.
    pub fn get(&self) -> (r: u16)
        ensures
            r == self@,
            r != 0,
    {
        proof {
            use_type_invariant(self);
        }
        self.0
    }

    /// The identifier that follows this one, wrapping from 65535 to 1.
    pub fn successor(self) -> (r: PacketIdentifier)
        ensures
            r@ == next_identifier(self@),
            r == PacketIdentifier::from_value(next_identifier(self@)),
            r@ != 0,
    {
        if self.0 == MAX_PACKET_IDENTIFIER {
            PacketIdentifier(1)
        } else {
            PacketIdentifier(self.0 + 1)
        }
    }
}

impl View for PacketIdentifier {
    type V = u16;

    closed spec fn view(&self) -> u16 {
        self.0
    }
}

/// The value of an identifier made from a value is that value.
pub broadcast proof fn lemma_from_value_view(value: u16)
    ensures
        #[trigger] PacketIdentifier::from_value(value)@ == value,
{
}

/// An identifier is the one made from its own value.
pub broadcast proof fn lemma_view_from_value(id: PacketIdentifier)
    ensures
        #[trigger] PacketIdentifier::from_value(id@) == id,
{
}

/// Quality of service of a publication.
#[derive(Clone, Copy, Debug, PartialEq, Eq, Structural)]
pub enum QoS {
    AtMostOnce,
    AtLeastOnce,
    ExactlyOnce,
}

/// The packet identifier, duplicate flag and quality of service of a PUBLISH:
/// only the acknowledged levels carry an identifier.
#[derive(Clone, Copy, Debug, PartialEq, Eq, Structural)]
pub enum PacketIdentifierDupQoS {
    AtMostOnce,
    AtLeastOnce(PacketIdentifier, bool),
    ExactlyOnce(PacketIdentifier, bool),
}

/// A message to publish, before it has a packet identifier.
#[derive(Clone, Debug)]
pub struct Publication {
    pub topic_name: String,
    pub qos: QoS,
    pub retain: bool,
    pub payload: Vec<u8>,
}

/// The mathematical value of a [`Publication`].
pub struct PublicationView {
    pub topic_name: Seq<char>,
    pub qos: QoS,
    pub retain: bool,
    pub payload: Seq<u8>,
}

impl View for Publication {
    type V = PublicationView;

    open spec fn view(&self) -> PublicationView {
        PublicationView {
            topic_name: self.topic_name@,
            qos: self.qos,
            retain: self.retain,
            payload: self.payload@,
        }
    }
}

/// A PUBLISH packet.
#[derive(Clone, Debug)]
pub struct Publish {
    pub packet_identifier_dup_qos: PacketIdentifierDupQoS,
    pub retain: bool,
    pub topic_name: String,
    pub payload: Vec<u8>,
}

/// The mathematical value of a [`Publish`].
pub struct PublishView {
    pub packet_identifier_dup_qos: PacketIdentifierDupQoS,
    pub retain: bool,
    pub topic_name: Seq<char>,
    pub payload: Seq<u8>,
}

impl View for Publish {
    type V = PublishView;

    open spec fn view(&self) -> PublishView {
        PublishView {
            packet_identifier_dup_qos: self.packet_identifier_dup_qos,
            retain: self.retain,
            topic_name: self.topic_name@,
            payload: self.payload@,
        }
    }
}

impl Publish {
    /// A copy of this packet.
    pub fn duplicate(&self) -> (r: Publish)
        ensures
            r@ == self@,
    {
        let payload = self.payload.clone();
        assert(payload@ =~= self.payload@);
        Publish {
            packet_identifier_dup_qos: self.packet_identifier_dup_qos,
            retain: self.retain,
            topic_name: self.topic_name.clone(),
            payload,
        }
    }
}

/// A PUBACK packet: the acknowledgement of an at-least-once PUBLISH.
#[derive(Clone, Copy, Debug, PartialEq, Eq, Structural)]
pub struct PubAck {
    pub packet_identifier: PacketIdentifier,
}

/// One topic filter of a SUBSCRIBE.
#[derive(Clone, Debug)]
pub struct SubscribeTo {
    pub topic_filter: String,
    pub qos: QoS,
}

/// A SUBSCRIBE packet.
#[derive(Clone, Debug)]
pub struct Subscribe {
    pub packet_identifier: PacketIdentifier,
    pub subscribe_to: Vec<SubscribeTo>,
}

/// The packets that the bridge reads: PUBLISH, PUBACK, and the others, which it ignores.
#[derive(Clone, Debug)]
pub enum Packet {
    Publish(Publish),
    PubAck(PubAck),
    Other,
}

/// The mathematical value of a [`Packet`].
pub enum PacketView {
    Publish(PublishView),
    PubAck(PubAck),
    Other,
}

impl View for Packet {
    type V = PacketView;

    open spec fn view(&self) -> PacketView {
        match self {
            Packet::Publish(p) => PacketView::Publish(p@),
            Packet::PubAck(a) => PacketView::PubAck(*a),
            Packet::Other => PacketView::Other,
        }
    }
}

pub broadcast group group_packet_identifier {
    lemma_from_value_view,
    lemma_view_from_value,
}

} // verus!
