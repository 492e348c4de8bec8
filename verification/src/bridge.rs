//! The bridge between a local and a remote broker: what it does with each
//! packet that one of the two connections receives, and which packets it
//! sends in turn and to which broker.
use vstd::prelude::*;
use crate::proto::{
    next_identifier, Packet, PacketIdentifier, PacketIdentifierDupQoS, PacketView, PubAck, Publication,
    PublicationView, Publish, PublishView, QoS, Subscribe, SubscribeTo,
};
use crate::queue::{
    drain_defined, drain_outcome, push_outcome, remove_outcome, take_outcome, Queue, QueueView,
    Storage, empty_queue,
};

verus! {

broadcast use crate::proto::group_packet_identifier;

/// The topic under which a publication received on a connection with the given
/// prefix is forwarded: the prefix, a slash, and the original topic.
pub open spec fn translated_topic(prefix: Seq<char>, topic: Seq<char>) -> Seq<char> {
    prefix + seq!['/'] + topic
}

/// What a connection makes of a PUBLISH it receives: the publication to
/// forward, under the translated topic and with the same quality of service,
/// retain flag and payload, and the PUBACK to answer with for at-least-once.
/// (Exactly-once is a case that the bridge does not handle.)
pub open spec fn handle_publish_outcome(prefix: Seq<char>, publish: PublishView) -> (
    Option<PublicationView>,
    Option<PubAck>,
) {
    let forwarded = |qos: QoS|
        PublicationView {
            topic_name: translated_topic(prefix, publish.topic_name),
            qos,
            retain: publish.retain,
            payload: publish.payload,
        };
    match publish.packet_identifier_dup_qos {
        PacketIdentifierDupQoS::AtMostOnce => (Some(forwarded(QoS::AtMostOnce)), None),
        PacketIdentifierDupQoS::AtLeastOnce(packet_identifier, _) => (
            Some(forwarded(QoS::AtLeastOnce)),
            Some(PubAck { packet_identifier }),
        ),
        PacketIdentifierDupQoS::ExactlyOnce(_, _) => (None, None),
    }
}

/// Where a packet that the bridge sends goes, seen from the connection that
/// received the packet being processed.
#[derive(Clone, Copy, Debug, PartialEq, Eq, Structural)]
pub enum Direction {
    /// To the broker of the connection that received the packet.
    Back,
    /// To the broker of the other connection.
    Forward,
}

/// A packet to send, and where.
#[derive(Clone, Debug)]
pub struct Outgoing {
    pub direction: Direction,
    pub packet: Packet,
}

/// The mathematical value of an [`Outgoing`].
pub struct OutgoingView {
    pub direction: Direction,
    pub packet: PacketView,
}

impl View for Outgoing {
    type V = OutgoingView;

    open spec fn view(&self) -> OutgoingView {
        OutgoingView { direction: self.direction, packet: self.packet@ }
    }
}

/// The values of a sequence of outgoing packets.
pub open spec fn outgoing_views(s: Seq<Outgoing>) -> Seq<OutgoingView> {
    s.map_values(|o: Outgoing| o@)
}

/// PUBLISH packets, each to be sent in the given direction.
pub open spec fn publishes_to(direction: Direction, s: Seq<PublishView>) -> Seq<OutgoingView> {
    s.map_values(|p: PublishView| OutgoingView { direction, packet: PacketView::Publish(p) })
}

/// The mathematical state of a [`Connection`].
pub struct ConnectionView {
    pub prefix: Seq<char>,
    pub queue: QueueView,
}

/// One side of the bridge: the topic prefix that it gives to what it
/// receives, and the queue of publications bound for its broker.
pub struct Connection {
    prefix: String,
    queue: Queue,
}

impl View for Connection {
    type V = ConnectionView;

    closed spec fn view(&self) -> ConnectionView {
        ConnectionView { prefix: self.prefix@, queue: self.queue@ }
    }
}

/// Whether processing a packet is defined: a PUBLISH must not be
/// exactly-once, and every take from the queue that is drained afterwards
/// must be defined.
pub open spec fn process_defined(packet: PacketView, from: ConnectionView, to: ConnectionView) -> bool {
    match packet {
        PacketView::Publish(p) => {
            &&& !(p.packet_identifier_dup_qos is ExactlyOnce)
            &&& drain_defined(
                match handle_publish_outcome(from.prefix, p).0 {
                    Some(publication) => push_outcome(to.queue, publication),
                    None => to.queue,
                },
            )
        },
        PacketView::PubAck(a) => drain_defined(remove_outcome(from.queue, a.packet_identifier@).1),
        PacketView::Other => true,
    }
}

/// What processing a packet received on `from` sends, and the two connections
/// after it.
///
/// A PUBLISH is translated and queued for the other broker, acknowledged back
/// at once if it is at-least-once, and then the other broker's queue is
/// drained to it. A PUBACK ends the flight of the PUBLISH it acknowledges on
/// `from`, whose window thereby gains room, and then `from`'s own queue is
/// drained to `from`'s broker; the other connection is left as it is. Every
/// other packet is ignored.
pub open spec fn process_outcome(packet: PacketView, from: ConnectionView, to: ConnectionView) -> (
    Seq<OutgoingView>,
    ConnectionView,
    ConnectionView,
) {
    match packet {
        PacketView::Publish(p) => {
            let (publication, puback) = handle_publish_outcome(from.prefix, p);
            let queued = match publication {
                Some(publication) => push_outcome(to.queue, publication),
                None => to.queue,
            };
            let acks = match puback {
                Some(a) => seq![OutgoingView { direction: Direction::Back, packet: PacketView::PubAck(a) }],
                None => Seq::empty(),
            };
            let (sent, drained) = drain_outcome(queued);
            (
                acks + publishes_to(Direction::Forward, sent),
                from,
                ConnectionView { prefix: to.prefix, queue: drained },
            )
        },
        PacketView::PubAck(a) => {
            let (_, acknowledged) = remove_outcome(from.queue, a.packet_identifier@);
            let (sent, drained) = drain_outcome(acknowledged);
            (publishes_to(Direction::Back, sent), ConnectionView { prefix: from.prefix, queue: drained }, to)
        },
        PacketView::Other => (Seq::empty(), from, to),
    }
}

impl Connection {
    /// The connection is well formed: its queue is.
    pub closed spec fn wf(&self) -> bool {
        self.queue.wf()
    }

    /// A connection that prefixes what it receives with `prefix` and queues
    /// what it sends in `queue`.
    pub fn new(prefix: String, queue: Queue) -> (r: Connection)
        requires
            queue.wf(),
        ensures
            r.wf(),
            r@ == (ConnectionView { prefix: prefix@, queue: queue@ }),
    {
        Connection { prefix, queue }
    }

    /// The topic under which a publication received here is forwarded.
    pub fn filter(&self, topic: &str) -> (r: Option<String>)
        ensures
            r matches Some(t) && t@ == translated_topic(self@.prefix, topic@),
    {
        let mut translated = self.prefix.clone();
        translated.append("/");
        translated.append(topic);
        proof {
            reveal_strlit("/");
        }
        Some(translated)
    }

    /// Translates a received PUBLISH into the publication to forward, and the
    /// PUBACK to answer with for at-least-once.
    pub fn handle_publish(&mut self, publish: Publish) -> (r: (Option<Publication>, Option<PubAck>))
        requires
            !(publish.packet_identifier_dup_qos is ExactlyOnce),
        ensures
            *final(self) == *old(self),
            handle_publish_outcome(old(self)@.prefix, publish@) == (
                match r.0 {
                    Some(p) => Some(p@),
                    None => None::<PublicationView>,
                },
                r.1,
            ),
    {
        self.translate(publish)
    }

    fn translate(&self, publish: Publish) -> (r: (Option<Publication>, Option<PubAck>))
        requires
            !(publish.packet_identifier_dup_qos is ExactlyOnce),
        ensures
            handle_publish_outcome(self@.prefix, publish@) == (
                match r.0 {
                    Some(p) => Some(p@),
                    None => None::<PublicationView>,
                },
                r.1,
            ),
    {
        let topic = self.filter(publish.topic_name.as_str());
        match topic {
            Some(topic) => match publish.packet_identifier_dup_qos {
                PacketIdentifierDupQoS::AtMostOnce => {
                    let publication = Publication {
                        topic_name: topic,
                        qos: QoS::AtMostOnce,
                        retain: publish.retain,
                        payload: publish.payload,
                    };
                    (Some(publication), None)
                },
                PacketIdentifierDupQoS::AtLeastOnce(packet_identifier, _dup) => {
                    let publication = Publication {
                        topic_name: topic,
                        qos: QoS::AtLeastOnce,
                        retain: publish.retain,
                        payload: publish.payload,
                    };
                    let puback = PubAck { packet_identifier };
                    (Some(publication), Some(puback))
                },
                PacketIdentifierDupQoS::ExactlyOnce(_, _) => unreached(),
            },
            None => (None, None),
        }
    }
}

/// Takes publications from `queue` until a take fails, and appends each, as a
/// PUBLISH in `direction`, to `out`.
fn send_queued(queue: &mut Queue, direction: Direction, out: &mut Vec<Outgoing>)
    requires
        old(queue).wf(),
        drain_defined(old(queue)@),
    ensures
        final(queue).wf(),
        final(queue)@ == drain_outcome(old(queue)@).1,
        outgoing_views(final(out)@) == outgoing_views(old(out)@) + publishes_to(
            direction,
            drain_outcome(old(queue)@).0,
        ),
{
    let ghost q0 = queue@;
    let ghost out0 = outgoing_views(out@);
    let ghost mut done: Seq<PublishView> = Seq::empty();
    assert(outgoing_views(out@) =~= out0 + publishes_to(direction, done));
    loop
        invariant_except_break
            queue.wf(),
            drain_defined(queue@),
            done + drain_outcome(queue@).0 == drain_outcome(q0).0,
            drain_outcome(queue@).1 == drain_outcome(q0).1,
            outgoing_views(out@) == out0 + publishes_to(direction, done),
        ensures
            queue.wf(),
            done == drain_outcome(q0).0,
            queue@ == drain_outcome(q0).1,
            outgoing_views(out@) == out0 + publishes_to(direction, done),
        decreases queue@.items.len(),
    {
        let ghost q = queue@;
        match queue.take() {
            Ok(publish) => {
                let ghost p = publish@;
                let ghost before = out@;
                let o = Outgoing { direction, packet: Packet::Publish(publish) };
                assert(o@ == OutgoingView { direction, packet: PacketView::Publish(p) });
                out.push(o);
                proof {
                    assert(out@ == before.push(o));
                    assert(outgoing_views(out@) =~= outgoing_views(before).push(o@));
                    assert(publishes_to(direction, done.push(p)) =~= publishes_to(direction, done).push(o@));
                    assert(drain_outcome(q).0 == seq![p] + drain_outcome(queue@).0);
                    assert(done.push(p) + drain_outcome(queue@).0 =~= done + drain_outcome(q).0);
                    assert(outgoing_views(out@) =~= out0 + publishes_to(direction, done.push(p)));
                    done = done.push(p);
                }
            },
            Err(_) => {
                assert(done =~= done + Seq::<PublishView>::empty());
                break ;
            },
        }
    }
}

/// Processes a packet that the connection `from` received: queues, removes
/// and takes publications as [`process_outcome`] says, and returns the packets
/// to send, in order.
pub fn process_packet(packet: Packet, from: &mut Connection, to: &mut Connection) -> (r: Vec<Outgoing>)
    requires
        old(from).wf(),
        old(to).wf(),
        process_defined(packet@, old(from)@, old(to)@),
    ensures
        final(from).wf(),
        final(to).wf(),
        (outgoing_views(r@), final(from)@, final(to)@) == process_outcome(
            packet@,
            old(from)@,
            old(to)@,
        ),
{
    let mut out: Vec<Outgoing> = Vec::new();
    match packet {
        Packet::Publish(publish) => {
            let (publication, puback) = from.handle_publish(publish);
            if let Some(publication) = publication {
                to.queue.push(publication);
            }
            if let Some(puback) = puback {
                out.push(Outgoing { direction: Direction::Back, packet: Packet::PubAck(puback) });
            }
            send_queued(&mut to.queue, Direction::Forward, &mut out);
        },
        Packet::PubAck(puback) => {
            from.queue.remove(puback.packet_identifier);
            send_queued(&mut from.queue, Direction::Back, &mut out);
        },
        Packet::Other => {},
    }
    proof {
        assert(outgoing_views(Seq::<Outgoing>::empty()) =~= Seq::<OutgoingView>::empty());
    }
    out
}

/// Whether processing `packet`, received on `from`, is defined: tells, before
/// anything changes, whether [`process_packet`] may be called.
pub fn process_is_defined(packet: &Packet, from: &Connection, to: &Connection) -> (b: bool)
    requires
        from.wf(),
        to.wf(),
    ensures
        b == process_defined(packet@, from@, to@),
{
    match packet {
        Packet::Publish(publish) => {
            if let PacketIdentifierDupQoS::ExactlyOnce(_, _) = publish.packet_identifier_dup_qos {
                return false;
            }
            let (publication, _) = from.translate(publish.duplicate());
            match publication {
                Some(publication) => to.queue.drain_is_defined(Some(&publication)),
                None => to.queue.drain_is_defined(None),
            }
        },
        Packet::PubAck(puback) => from.queue.drain_after_ack_is_defined(puback.packet_identifier),
        Packet::Other => true,
    }
}

/// The broker that a connection of the bridge talks to.
#[derive(Clone, Copy, Debug, PartialEq, Eq, Structural)]
pub enum Side {
    Local,
    Remote,
}

/// The mathematical state of a [`Bridge`].
pub struct BridgeView {
    pub local: ConnectionView,
    pub remote: ConnectionView,
}

/// Whether processing `packet`, received from the broker on `side`, is defined.
pub open spec fn received_defined(b: BridgeView, side: Side, packet: PacketView) -> bool {
    match side {
        Side::Local => process_defined(packet, b.local, b.remote),
        Side::Remote => process_defined(packet, b.remote, b.local),
    }
}

/// What the bridge sends after receiving `packet` from the broker on `side`,
/// directions taken from that side, and the bridge after it.
pub open spec fn received_outcome(b: BridgeView, side: Side, packet: PacketView) -> (
    Seq<OutgoingView>,
    BridgeView,
) {
    match side {
        Side::Local => {
            let (out, local, remote) = process_outcome(packet, b.local, b.remote);
            (out, BridgeView { local, remote })
        },
        Side::Remote => {
            let (out, remote, local) = process_outcome(packet, b.remote, b.local);
            (out, BridgeView { local, remote })
        },
    }
}

/// A bridge between a local and a remote broker.
pub struct Bridge {
    remote: Connection,
    local: Connection,
}

impl View for Bridge {
    type V = BridgeView;

    closed spec fn view(&self) -> BridgeView {
        BridgeView { local: self.local@, remote: self.remote@ }
    }
}

impl Bridge {
    /// Both connections are well formed.
    pub closed spec fn wf(&self) -> bool {
        self.local.wf() && self.remote.wf()
    }

    /// A new bridge: what arrives from the remote broker is prefixed with
    /// `local`, what arrives from the local broker with `remote`, and each
    /// side gets a fresh queue from the storage.
    pub fn new(storage: &mut Storage) -> (b: Bridge)
        ensures
            *final(storage) == *old(storage),
            b.wf(),
            b@ == (BridgeView {
                local: ConnectionView { prefix: "remote"@, queue: empty_queue(5) },
                remote: ConnectionView { prefix: "local"@, queue: empty_queue(5) },
            }),
    {
        let remote = Connection::new(String::from_str("local"), storage.new_queue("to_remote"));
        let local = Connection::new(String::from_str("remote"), storage.new_queue("to_local"));
        Bridge { remote, local }
    }

    /// The SUBSCRIBE that the bridge sends to each broker once connected: the
    /// filter `topic` at least once, under packet identifier 1.
    pub fn subscription() -> (s: Subscribe)
        ensures
            s.packet_identifier@ == 1,
            s.subscribe_to@.len() == 1,
            s.subscribe_to@[0].topic_filter@ == "topic"@,
            s.subscribe_to@[0].qos == QoS::AtLeastOnce,
    {
        let packet_identifier = PacketIdentifier::new(1).unwrap();
        let mut subscribe_to: Vec<SubscribeTo> = Vec::new();
        subscribe_to.push(SubscribeTo { topic_filter: String::from_str("topic"), qos: QoS::AtLeastOnce });
        Subscribe { packet_identifier, subscribe_to }
    }

    /// Handles what the broker on `side` delivered: `None`, its disconnection,
    /// stops the bridge; a packet is processed as [`process_packet`] says, with
    /// that side's connection as the one that received it.
    pub fn handle_received(&mut self, side: Side, packet: Option<Packet>) -> (r: Option<Vec<Outgoing>>)
        requires
            old(self).wf(),
            packet matches Some(p) ==> received_defined(old(self)@, side, p@),
        ensures
            final(self).wf(),
            match packet {
                None => r is None && final(self)@ == old(self)@,
                Some(p) => r matches Some(out) && (outgoing_views(out@), final(self)@)
                    == received_outcome(old(self)@, side, p@),
            },
    {
        match packet {
            None => None,
            Some(packet) => match side {
                Side::Local => Some(process_packet(packet, &mut self.local, &mut self.remote)),
                Side::Remote => Some(process_packet(packet, &mut self.remote, &mut self.local)),
            },
        }
    }

    /// Whether handling `packet` from the broker on `side` is defined.
    pub fn is_defined(&self, side: Side, packet: &Packet) -> (b: bool)
        requires
            self.wf(),
        ensures
            b == received_defined(self@, side, packet@),
    {
        match side {
            Side::Local => process_is_defined(packet, &self.local, &self.remote),
            Side::Remote => process_is_defined(packet, &self.remote, &self.local),
        }
    }
}

/// An at-least-once PUBLISH is acknowledged back to its sender before any
/// packet is forwarded, with the identifier it came with, and the publication
/// waits in the other connection's queue under the translated topic.
pub proof fn lemma_acknowledged_before_forwarding(publish: PublishView, from: ConnectionView, to: ConnectionView)
    requires
        publish.packet_identifier_dup_qos matches PacketIdentifierDupQoS::AtLeastOnce(id, dup),
    ensures
        ({
            let (out, _, _) = process_outcome(PacketView::Publish(publish), from, to);
            &&& out.len() >= 1
            &&& out[0].direction == Direction::Back
            &&& out[0].packet == PacketView::PubAck(PubAck {
                packet_identifier: publish.packet_identifier_dup_qos->AtLeastOnce_0,
            })
        }),
{
}

/// A packet other than PUBLISH and PUBACK sends nothing and changes nothing.
pub proof fn lemma_other_packets_ignored(from: ConnectionView, to: ConnectionView)
    ensures
        process_outcome(PacketView::Other, from, to) == (Seq::<OutgoingView>::empty(), from, to),
{
}

/// A translated topic is the whole prefix, one slash, and the whole topic,
/// whatever their lengths.
pub proof fn lemma_translated_topic(prefix: Seq<char>, topic: Seq<char>)
    ensures
        translated_topic(prefix, topic).len() == prefix.len() + 1 + topic.len(),
        translated_topic(prefix, topic).subrange(0, prefix.len() as int) == prefix,
        translated_topic(prefix, topic)[prefix.len() as int] == '/',
        translated_topic(prefix, topic).subrange(
            prefix.len() + 1int,
            prefix.len() + 1int + topic.len(),
        ) == topic,
{
    let t = translated_topic(prefix, topic);
    assert(t.subrange(0, prefix.len() as int) =~= prefix);
    assert(t.subrange(prefix.len() + 1int, prefix.len() + 1int + topic.len()) =~= topic);
}

/// A received PUBLISH that is not exactly-once is always forwarded, under the
/// prefixed topic, with its own retain flag, payload and quality of service;
/// it is acknowledged exactly when it is at-least-once, with its identifier,
/// whether or not it is a redelivery.
pub proof fn lemma_forwarded_publication(prefix: Seq<char>, publish: PublishView)
    requires
        !(publish.packet_identifier_dup_qos is ExactlyOnce),
    ensures
        ({
            let (forwarded, puback) = handle_publish_outcome(prefix, publish);
            &&& forwarded is Some
            &&& ({
                let f = forwarded->Some_0;
                &&& f.retain == publish.retain
                &&& f.payload == publish.payload
                &&& f.topic_name.len() == prefix.len() + 1 + publish.topic_name.len()
                &&& f.topic_name.subrange(0, prefix.len() as int) == prefix
                &&& f.topic_name[prefix.len() as int] == '/'
                &&& f.topic_name.subrange(prefix.len() + 1int, f.topic_name.len() as int)
                    == publish.topic_name
                &&& (f.qos == QoS::AtMostOnce <==> publish.packet_identifier_dup_qos is AtMostOnce)
                &&& (f.qos == QoS::AtLeastOnce <==> publish.packet_identifier_dup_qos is AtLeastOnce)
            })
            &&& (puback is Some <==> publish.packet_identifier_dup_qos is AtLeastOnce)
            &&& (publish.packet_identifier_dup_qos is AtLeastOnce ==> puback == Some(
                PubAck { packet_identifier: publish.packet_identifier_dup_qos->AtLeastOnce_0 },
            ))
        }),
{
    lemma_translated_topic(prefix, publish.topic_name);
}

/// An at-least-once PUBLISH, redelivered or not, received while nothing waits
/// for the other broker and its window has room, is acknowledged back with its
/// identifier and then forwarded, translated, under the next identifier of
/// the other side, which records it in flight.
pub proof fn lemma_publish_acknowledged_and_forwarded(
    publish: PublishView,
    from: ConnectionView,
    to: ConnectionView,
)
    requires
        publish.packet_identifier_dup_qos is AtLeastOnce,
        to.queue.items.len() == 0,
        to.queue.in_flight.len() < to.queue.max_in_flight,
        process_defined(PacketView::Publish(publish), from, to),
    ensures
        ({
            let (out, from2, to2) = process_outcome(PacketView::Publish(publish), from, to);
            let id = next_identifier(to.queue.previous);
            &&& out.len() == 2
            &&& out[0] == OutgoingView {
                direction: Direction::Back,
                packet: PacketView::PubAck(
                    PubAck { packet_identifier: publish.packet_identifier_dup_qos->AtLeastOnce_0 },
                ),
            }
            &&& out[1].direction == Direction::Forward
            &&& out[1].packet is Publish
            &&& ({
                let pb = out[1].packet->Publish_0;
                &&& pb.retain == publish.retain
                &&& pb.payload == publish.payload
                &&& pb.topic_name.subrange(0, from.prefix.len() as int) == from.prefix
                &&& pb.topic_name.subrange(from.prefix.len() + 1int, pb.topic_name.len() as int)
                    == publish.topic_name
                &&& pb.packet_identifier_dup_qos == PacketIdentifierDupQoS::AtLeastOnce(
                    PacketIdentifier::from_value(id),
                    false,
                )
                &&& to2.queue.in_flight.contains_key(id)
                &&& to2.queue.in_flight[id] == pb
            })
            &&& to2.queue.items.len() == 0
            &&& from2 == from
        }),
{
    lemma_forwarded_publication(from.prefix, publish);
    let publication = handle_publish_outcome(from.prefix, publish).0->Some_0;
    let queued = push_outcome(to.queue, publication);
    assert(queued.items =~= seq![publication]);
    let (r, q2) = take_outcome(queued);
    assert(q2.items =~= Seq::<PublicationView>::empty());
    assert(drain_outcome(q2).0 =~= Seq::<PublishView>::empty());
    assert(drain_outcome(queued).0 =~= seq![r->Ok_0]);
}

/// A PUBLISH received while the other broker's window is full is acknowledged
/// (if at-least-once) and not forwarded: its translation waits behind the
/// publications already waiting, and nothing else changes.
pub proof fn lemma_publish_waits_when_window_full(
    publish: PublishView,
    from: ConnectionView,
    to: ConnectionView,
)
    requires
        !(publish.packet_identifier_dup_qos is ExactlyOnce),
        to.queue.in_flight.len() >= to.queue.max_in_flight,
    ensures
        ({
            let (out, from2, to2) = process_outcome(PacketView::Publish(publish), from, to);
            let waiting = to2.queue.items[0];
            &&& out.len() == (if publish.packet_identifier_dup_qos is AtLeastOnce { 1int } else { 0int })
            &&& to2.queue.items.len() == to.queue.items.len() + 1
            &&& to2.queue.items.subrange(1, to2.queue.items.len() as int) == to.queue.items
            &&& waiting.retain == publish.retain
            &&& waiting.payload == publish.payload
            &&& waiting.topic_name.subrange(from.prefix.len() + 1int, waiting.topic_name.len() as int)
                == publish.topic_name
            &&& to2.queue.in_flight == to.queue.in_flight
            &&& to2.prefix == to.prefix
            &&& from2 == from
        }),
{
    lemma_forwarded_publication(from.prefix, publish);
    let publication = handle_publish_outcome(from.prefix, publish).0->Some_0;
    let queued = push_outcome(to.queue, publication);
    assert(queued.items.subrange(1, queued.items.len() as int) =~= to.queue.items);
}

/// The connection of a bridge on a side.
pub open spec fn connection_on(b: BridgeView, side: Side) -> ConnectionView {
    match side {
        Side::Local => b.local,
        Side::Remote => b.remote,
    }
}

/// The other side.
pub open spec fn other_side(side: Side) -> Side {
    match side {
        Side::Local => Side::Remote,
        Side::Remote => Side::Local,
    }
}

/// Whatever arrives from the broker on a side is processed with that side's
/// connection as the receiving one and the other side's as the other.
pub proof fn lemma_received_on_its_side(b: BridgeView, side: Side, packet: PacketView)
    ensures
        ({
            let (out, after) = received_outcome(b, side, packet);
            let (out2, from2, to2) = process_outcome(
                packet,
                connection_on(b, side),
                connection_on(b, other_side(side)),
            );
            &&& out == out2
            &&& connection_on(after, side) == from2
            &&& connection_on(after, other_side(side)) == to2
            &&& received_defined(b, side, packet) == process_defined(
                packet,
                connection_on(b, side),
                connection_on(b, other_side(side)),
            )
        }),
{
}

/// A PUBACK from the broker on a side, when nothing waits on that side, ends
/// the flight of the PUBLISH it acknowledges on that side's queue, sends
/// nothing, and leaves the other side as it was.
pub proof fn lemma_puback_frees_its_side(b: BridgeView, side: Side, puback: PubAck)
    requires
        connection_on(b, side).queue.items.len() == 0,
    ensures
        ({
            let (out, after) = received_outcome(b, side, PacketView::PubAck(puback));
            let id = puback.packet_identifier@;
            &&& out.len() == 0
            &&& connection_on(after, side).queue.in_flight == connection_on(b, side).queue.in_flight.remove(id)
            &&& connection_on(after, side).queue.items.len() == 0
            &&& connection_on(after, side).prefix == connection_on(b, side).prefix
            &&& connection_on(after, other_side(side)) == connection_on(b, other_side(side))
        }),
{
    let q = connection_on(b, side).queue;
    let id = puback.packet_identifier@;
    let acknowledged = remove_outcome(q, id).1;
    assert(q.in_flight.remove(id) =~= q.in_flight.remove(id));
    if !q.in_flight.contains_key(id) {
        assert(q.in_flight.remove(id) =~= q.in_flight);
    }
    assert(drain_outcome(acknowledged).0 =~= Seq::<PublishView>::empty());
    assert(publishes_to(Direction::Back, Seq::<PublishView>::empty()) =~= Seq::<OutgoingView>::empty());
}

} // verus!
