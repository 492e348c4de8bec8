//! The queue of publications waiting to be forwarded to one broker, with the
//! at-least-once publications that have been sent and await their PUBACK.
use std::collections::HashMap;
use std::collections::VecDeque;
use vstd::prelude::*;
use crate::packet_ids::PacketIdentifiers;
use crate::proto::{
    next_identifier, PacketIdentifier, PacketIdentifierDupQoS, Publication, PublicationView,
    Publish, PublishView, QoS, MAX_PACKET_IDENTIFIER,
};

verus! {

broadcast use crate::proto::group_packet_identifier;

/// Why nothing was taken from a queue.
#[derive(Clone, Copy, Debug, PartialEq, Eq, Structural)]
pub enum TakeError {
    /// No publication waits.
    Empty,
    /// As many publications as allowed await their acknowledgement.
    MaxInFlightReached,
}

/// The mathematical state of a [`Queue`].
pub struct QueueView {
    /// How many acknowledged publications may await their PUBACK at once.
    pub max_in_flight: nat,
    /// Publications waiting, the newest first: the last one is taken next.
    pub items: Seq<PublicationView>,
    /// The packet identifier reserved last.
    pub previous: u16,
    /// The sent PUBLISH packets that await a PUBACK, by packet identifier.
    pub in_flight: Map<u16, PublishView>,
}

/// The PUBLISH packet that carries a publication.
pub open spec fn publish_of(p: PublicationView, dup_qos: PacketIdentifierDupQoS) -> PublishView {
    PublishView {
        packet_identifier_dup_qos: dup_qos,
        retain: p.retain,
        topic_name: p.topic_name,
        payload: p.payload,
    }
}

/// A new queue: nothing waits, nothing is in flight, and the first
/// identifier handed out will be 1.
pub open spec fn empty_queue(max_in_flight: nat) -> QueueView {
    QueueView {
        max_in_flight,
        items: Seq::empty(),
        previous: MAX_PACKET_IDENTIFIER,
        in_flight: Map::empty(),
    }
}

/// The queue after a publication is pushed: it waits behind all others.
pub open spec fn push_outcome(q: QueueView, p: PublicationView) -> QueueView {
    QueueView { max_in_flight: q.max_in_flight, items: seq![p] + q.items, previous: q.previous, in_flight: q.in_flight }
}

/// The answer and the queue after the acknowledgement of `id` is handled:
/// `true`, and the PUBLISH no longer in flight, when one with that identifier
/// was in flight; `false` and no change otherwise.
pub open spec fn remove_outcome(q: QueueView, id: u16) -> (bool, QueueView) {
    if q.in_flight.contains_key(id) {
        (true, QueueView {
            max_in_flight: q.max_in_flight,
            items: q.items,
            previous: q.previous,
            in_flight: q.in_flight.remove(id),
        })
    } else {
        (false, q)
    }
}

/// Whether taking from the queue is defined: it is not when the publication
/// next in line is exactly-once, which the bridge does not forward, or
/// at-least-once while the identifier that comes next is still in flight.
pub open spec fn take_defined(q: QueueView) -> bool {
    q.in_flight.len() >= q.max_in_flight || q.items.len() == 0 || match q.items.last().qos {
        QoS::AtMostOnce => true,
        QoS::AtLeastOnce => !q.in_flight.contains_key(next_identifier(q.previous)),
        QoS::ExactlyOnce => false,
    }
}

/// What a take gives and the queue after it. When the in-flight limit is
/// reached or nothing waits, an error and no change. Otherwise the oldest
/// publication leaves the queue as a PUBLISH: at-most-once without an
/// identifier, at-least-once with the next identifier, recorded as in flight.
/// (The exactly-once case is one that `take_defined` rules out.)
pub open spec fn take_outcome(q: QueueView) -> (Result<PublishView, TakeError>, QueueView) {
    if q.in_flight.len() >= q.max_in_flight {
        (Err(TakeError::MaxInFlightReached), q)
    } else if q.items.len() == 0 {
        (Err(TakeError::Empty), q)
    } else {
        let p = q.items.last();
        let rest = q.items.drop_last();
        match p.qos {
            QoS::AtMostOnce => (
                Ok(publish_of(p, PacketIdentifierDupQoS::AtMostOnce)),
                QueueView { max_in_flight: q.max_in_flight, items: rest, previous: q.previous, in_flight: q.in_flight },
            ),
            QoS::AtLeastOnce => {
                let id = next_identifier(q.previous);
                let publish = publish_of(
                    p,
                    PacketIdentifierDupQoS::AtLeastOnce(PacketIdentifier::from_value(id), false),
                );
                (
                    Ok(publish),
                    QueueView { max_in_flight: q.max_in_flight, items: rest, previous: id, in_flight: q.in_flight.insert(id, publish) },
                )
            },
            QoS::ExactlyOnce => (Err(TakeError::Empty), q),
        }
    }
}

/// The PUBLISH packets that repeated takes give until one fails, and the
/// queue after them.
pub open spec fn drain_outcome(q: QueueView) -> (Seq<PublishView>, QueueView)
    decreases q.items.len(),
{
    let (r, q2) = take_outcome(q);
    match r {
        Ok(p) => if q2.items.len() < q.items.len() {
            let (rest, q3) = drain_outcome(q2);
            (seq![p] + rest, q3)
        } else {
            (seq![p], q2)
        },
        Err(_) => (Seq::empty(), q),
    }
}

/// Whether every take in a drain of the queue is defined.
pub open spec fn drain_defined(q: QueueView) -> bool
    decreases q.items.len(),
{
    take_defined(q) && match take_outcome(q).0 {
        Ok(_) => take_outcome(q).1.items.len() < q.items.len() ==> drain_defined(take_outcome(q).1),
        Err(_) => true,
    }
}

/// The properties that every queue keeps: no more publications in flight
/// than allowed, each in flight under its own identifier as at-least-once.
pub open spec fn queue_invariant(q: QueueView) -> bool {
    &&& q.in_flight.dom().finite()
    &&& q.in_flight.len() <= q.max_in_flight
    &&& forall|id: u16| #[trigger] q.in_flight.contains_key(id)
        ==> q.in_flight[id].packet_identifier_dup_qos == PacketIdentifierDupQoS::AtLeastOnce(
            PacketIdentifier::from_value(id),
            false,
        )
}

/// A queue of publications bound for one broker.
pub struct Queue {
    max_in_flight: usize,
    items: VecDeque<Publication>,
    packet_identifiers: PacketIdentifiers,
    to_be_sent: HashMap<u16, Publish>,
}

impl View for Queue {
    type V = QueueView;

    closed spec fn view(&self) -> QueueView {
        QueueView {
            max_in_flight: self.max_in_flight as nat,
            items: self.items@.map_values(|p: Publication| p@),
            previous: self.packet_identifiers.previous(),
            in_flight: self.to_be_sent@.map_values(|p: Publish| p@),
        }
    }
}

impl Queue {
    /// The queue is well formed: its bit set of identifiers in use is the set
    /// of identifiers in flight, and its view keeps the queue invariant.
    pub closed spec fn wf(&self) -> bool {
        &&& self.packet_identifiers.wf()
        &&& self.packet_identifiers.in_use() == self.to_be_sent@.dom()
        &&& queue_invariant(self@)
    }

    /// A well-formed queue keeps the queue invariant: no more publications in
    /// flight than allowed, each under its own identifier as at-least-once.
    pub proof fn lemma_wf_invariant(&self)
        requires
            self.wf(),
        ensures
            queue_invariant(self@),
    {
    }

    proof fn lemma_in_flight_dom(&self)
        ensures
            self@.in_flight.dom() == self.to_be_sent@.dom(),
            self@.in_flight.len() == self.to_be_sent@.len(),
    {
        assert(self@.in_flight.dom() =~= self.to_be_sent@.dom());
    }

    /// A new, empty queue.
    pub fn new(max_in_flight: usize) -> (r: Queue)
        ensures
            r.wf(),
            r@ == empty_queue(max_in_flight as nat),
    {
        let r = Queue {
            max_in_flight,
            items: VecDeque::new(),
            packet_identifiers: PacketIdentifiers::new(),
            to_be_sent: HashMap::new(),
        };
        assert(r@.items =~= Seq::<PublicationView>::empty());
        assert(r@.in_flight =~= Map::<u16, PublishView>::empty());
        assert(r.to_be_sent@.dom() =~= Set::<u16>::empty());
        r
    }

    /// Whether draining the queue, after `extra` is pushed if it is given, is
    /// defined: found by following the takes on a copy of the identifiers in use.
    pub fn drain_is_defined(&self, extra: Option<&Publication>) -> (b: bool)
        requires
            self.wf(),
        ensures
            b == drain_defined(
                match extra {
                    Some(p) => push_outcome(self@, p@),
                    None => self@,
                },
            ),
    {
        proof {
            self.lemma_in_flight_dom();
        }
        let ghost start = match extra {
            Some(p) => push_outcome(self@, p@),
            None => self@,
        };
        let ids = self.packet_identifiers.duplicate();
        let in_flight = self.to_be_sent.len();
        self.follow_drain(ids, in_flight, extra, Ghost(start))
    }

    /// Whether draining the queue, once the acknowledgement of `id` has been
    /// handled, is defined.
    pub fn drain_after_ack_is_defined(&self, id: PacketIdentifier) -> (b: bool)
        requires
            self.wf(),
        ensures
            b == drain_defined(remove_outcome(self@, id@).1),
    {
        proof {
            self.lemma_in_flight_dom();
        }
        let ghost start = remove_outcome(self@, id@).1;
        let mut ids = self.packet_identifiers.duplicate();
        let mut in_flight = self.to_be_sent.len();
        if self.to_be_sent.contains_key(&id.get()) {
            ids.discard(id);
            in_flight = in_flight - 1;
            assert(start.in_flight.dom() =~= self@.in_flight.dom().remove(id@));
        } else {
            assert(start == self@);
        }
        self.follow_drain(ids, in_flight, None, Ghost(start))
    }

    /// Follows the takes of a drain of `start`, whose waiting publications are
    /// this queue's, behind `extra` if it is given, and whose identifiers in
    /// use and in-flight count are `ids` and `in_flight`; tells whether every
    /// take is defined.
    fn follow_drain(
        &self,
        ids: PacketIdentifiers,
        in_flight: usize,
        extra: Option<&Publication>,
        Ghost(start): Ghost<QueueView>,
    ) -> (b: bool)
        requires
            ids.wf(),
            ids.in_use() == start.in_flight.dom(),
            ids.previous() == start.previous,
            start.in_flight.dom().finite(),
            in_flight == start.in_flight.len(),
            start.max_in_flight == self.max_in_flight,
            start.items == match extra {
                Some(p) => seq![p@] + self@.items,
                None => self@.items,
            },
        ensures
            b == drain_defined(start),
    {
        let mut ids = ids;
        let mut in_flight = in_flight;
        let mut index: usize = self.items.len();
        let mut pending_extra: bool = extra.is_some();
        let ghost mut q = start;
        let ghost mut off: int = if pending_extra { 1int } else { 0int };
        loop
            invariant
                ids.wf(),
                ids.in_use() == q.in_flight.dom(),
                ids.previous() == q.previous,
                q.in_flight.dom().finite(),
                in_flight == q.in_flight.len(),
                q.max_in_flight == self.max_in_flight,
                index <= self.items@.len(),
                pending_extra ==> extra is Some,
                q.items.len() == index + if pending_extra { 1nat } else { 0nat },
                off == if pending_extra { 1int } else { 0int },
                forall|k: int| 0 <= k < index ==> #[trigger] q.items[k + off] == self.items@[k]@,
                pending_extra ==> q.items[0] == extra.unwrap()@,
                drain_defined(q) == drain_defined(start),
            decreases index + off,
        {
            if in_flight >= self.max_in_flight || (index == 0 && !pending_extra) {
                assert(take_outcome(q).0 is Err);
                assert(drain_defined(q));
                return true;
            }
            let qos = if index > 0 {
                assert(q.items[(index - 1) + off] == self.items@[index - 1]@);
                self.items[index - 1].qos
            } else {
                match extra {
                    Some(p) => p.qos,
                    None => unreached(),
                }
            };
            assert(qos == q.items.last().qos);
            let ghost q2 = take_outcome(q).1;
            assert(drain_defined(q) == (take_defined(q) && drain_defined(q2)));
            match qos {
                QoS::AtMostOnce => {},
                QoS::AtLeastOnce => {
                    match ids.reserve() {
                        Ok(_) => {
                            assert(ids.in_use() =~= q2.in_flight.dom());
                            in_flight = in_flight + 1;
                        },
                        Err(_) => {
                            assert(!take_defined(q));
                            return false;
                        },
                    }
                },
                QoS::ExactlyOnce => {
                    assert(!take_defined(q));
                    return false;
                },
            }
            assert(q2.items =~= q.items.drop_last());
            if index > 0 {
                index = index - 1;
            } else {
                pending_extra = false;
            }
            proof {
                q = q2;
                off = if pending_extra { 1int } else { 0int };
            }
        }
    }

    /// Puts a publication at the end of the line.
    pub fn push(&mut self, publication: Publication)
        requires
            old(self).wf(),
        ensures
            final(self).wf(),
            final(self)@ == push_outcome(old(self)@, publication@),
    {
        let ghost p = publication@;
        self.items.push_front(publication);
        assert(self@.items =~= seq![p] + old(self)@.items);
    }

    /// Handles the acknowledgement of `id`: the PUBLISH in flight under it, if
    /// any, is done with, and its identifier free again.
    pub fn remove(&mut self, id: PacketIdentifier) -> (r: bool)
        requires
            old(self).wf(),
        ensures
            final(self).wf(),
            (r, final(self)@) == remove_outcome(old(self)@, id@),
    {
        match self.to_be_sent.remove(&id.get()) {
            Some(_) => {
                self.packet_identifiers.discard(id);
                assert(self@.in_flight =~= old(self)@.in_flight.remove(id@));
                assert(self.to_be_sent@.dom() =~= old(self).to_be_sent@.dom().remove(id@));
                proof {
                    self.lemma_in_flight_dom();
                    old(self).lemma_in_flight_dom();
                }
                true
            },
            None => {
                assert(self.to_be_sent@ =~= old(self).to_be_sent@);
                assert(self@.in_flight =~= old(self)@.in_flight);
                false
            },
        }
    }

    /// Takes the oldest publication as a PUBLISH packet, unless the in-flight
    /// limit is reached or nothing waits.
    pub fn take(&mut self) -> (r: Result<Publish, TakeError>)
        requires
            old(self).wf(),
            take_defined(old(self)@),
        ensures
            final(self).wf(),
            final(self)@ == take_outcome(old(self)@).1,
            match r {
                Ok(p) => take_outcome(old(self)@).0 == Ok::<PublishView, TakeError>(p@),
                Err(e) => take_outcome(old(self)@).0 == Err::<PublishView, TakeError>(e),
            },
    {
        proof {
            self.lemma_in_flight_dom();
        }
        if self.to_be_sent.len() >= self.max_in_flight {
            return Err(TakeError::MaxInFlightReached);
        }
        match self.items.pop_back() {
            None => Err(TakeError::Empty),
            Some(publication) => {
                assert(self@.items =~= old(self)@.items.drop_last());
                match publication.qos {
                    QoS::AtMostOnce => Ok(
                        Publish {
                            packet_identifier_dup_qos: PacketIdentifierDupQoS::AtMostOnce,
                            retain: publication.retain,
                            topic_name: publication.topic_name,
                            payload: publication.payload,
                        },
                    ),
                    QoS::AtLeastOnce => {
                        let id = self.packet_identifiers.reserve().unwrap();
                        let publish = Publish {
                            packet_identifier_dup_qos: PacketIdentifierDupQoS::AtLeastOnce(id, false),
                            retain: publication.retain,
                            topic_name: publication.topic_name,
                            payload: publication.payload,
                        };
                        let ghost before = self.to_be_sent@;
                        self.to_be_sent.insert(id.get(), publish.duplicate());
                        assert(self@.in_flight =~= old(self)@.in_flight.insert(id@, publish@));
                        assert(self.to_be_sent@.dom() =~= before.dom().insert(id@));
                        proof {
                            self.lemma_in_flight_dom();
                        }
                        Ok(publish)
                    },
                    QoS::ExactlyOnce => unreached(),
                }
            },
        }
    }
}

/// A queue, once created, keeps its invariant under every operation; this is
/// the part of it that stands on the view alone: a take never brings more
/// publications in flight than the limit allows.
pub proof fn lemma_take_keeps_invariant(q: QueueView)
    requires
        queue_invariant(q),
        take_defined(q),
    ensures
        queue_invariant(take_outcome(q).1),
{
    let q2 = take_outcome(q).1;
    if q.in_flight.len() < q.max_in_flight && q.items.len() > 0 && q.items.last().qos == QoS::AtLeastOnce {
        let id = next_identifier(q.previous);
        assert(q2.in_flight.dom() =~= q.in_flight.dom().insert(id));
    }
}

/// Removing an acknowledged identifier keeps the queue invariant.
pub proof fn lemma_remove_keeps_invariant(q: QueueView, id: u16)
    requires
        queue_invariant(q),
    ensures
        queue_invariant(remove_outcome(q, id).1),
{
    if q.in_flight.contains_key(id) {
        assert(q.in_flight.remove(id).dom() =~= q.in_flight.dom().remove(id));
    }
}

/// Pushing never changes what the next take gives while publications wait:
/// the new one waits behind them, first in first out.
pub proof fn lemma_push_waits_behind(q: QueueView, p: PublicationView)
    requires
        q.items.len() > 0,
    ensures
        take_outcome(push_outcome(q, p)).0 == take_outcome(q).0,
        take_outcome(push_outcome(q, p)).1 == push_outcome(take_outcome(q).1, p),
{
    let pushed = push_outcome(q, p);
    assert(pushed.items.last() == q.items.last());
    assert(pushed.items.drop_last() =~= seq![p] + q.items.drop_last());
}

/// The queue after the publications are pushed, in order.
pub open spec fn push_all(q: QueueView, ps: Seq<PublicationView>) -> QueueView
    decreases ps.len(),
{
    if ps.len() == 0 {
        q
    } else {
        push_outcome(push_all(q, ps.drop_last()), ps.last())
    }
}

/// How many of the publications are at-least-once.
pub open spec fn at_least_once_count(ps: Seq<PublicationView>) -> nat
    decreases ps.len(),
{
    if ps.len() == 0 {
        0
    } else {
        (if ps[0].qos == QoS::AtLeastOnce { 1nat } else { 0nat }) + at_least_once_count(ps.drop_first())
    }
}

/// Whether a PUBLISH carries the publication: same topic, retain flag and
/// payload, and the same quality of service.
pub open spec fn carries(publish: PublishView, p: PublicationView) -> bool {
    &&& publish.topic_name == p.topic_name
    &&& publish.retain == p.retain
    &&& publish.payload == p.payload
    &&& match p.qos {
        QoS::AtMostOnce => publish.packet_identifier_dup_qos is AtMostOnce,
        QoS::AtLeastOnce => publish.packet_identifier_dup_qos is AtLeastOnce,
        QoS::ExactlyOnce => false,
    }
}

proof fn lemma_push_all_items(q: QueueView, ps: Seq<PublicationView>)
    ensures
        push_all(q, ps).items.len() == ps.len() + q.items.len(),
        forall|k: int| 0 <= k < ps.len() ==> #[trigger] push_all(q, ps).items[k] == ps[ps.len() - 1 - k],
        push_all(q, ps).max_in_flight == q.max_in_flight,
        push_all(q, ps).previous == q.previous,
        push_all(q, ps).in_flight == q.in_flight,
    decreases ps.len(),
{
    if ps.len() > 0 {
        lemma_push_all_items(q, ps.drop_last());
        let inner = push_all(q, ps.drop_last());
        assert forall|k: int| 0 <= k < ps.len() implies #[trigger] push_all(q, ps).items[k] == ps[ps.len() - 1 - k] by {
            if k > 0 {
                assert(push_all(q, ps).items[k] == inner.items[k - 1]);
                assert(ps.drop_last()[ps.len() - 1 - 1 - (k - 1)] == ps[ps.len() - 1 - k]);
            }
        }
    }
}

/// A queue whose waiting publications are `ps`, the first of them next in
/// line, gives them all back in that order when there is room for each.
proof fn lemma_drain_in_order(q: QueueView, ps: Seq<PublicationView>)
    requires
        q.in_flight.dom().finite(),
        q.items.len() == ps.len(),
        forall|k: int| 0 <= k < ps.len() ==> #[trigger] q.items[k] == ps[ps.len() - 1 - k],
        forall|i: int| 0 <= i < ps.len() ==> #[trigger] ps[i].qos != QoS::ExactlyOnce,
        forall|i: int| 0 <= i < ps.len() ==> q.in_flight.len() + #[trigger] at_least_once_count(ps.take(i)) < q.max_in_flight,
        drain_defined(q),
    ensures
        drain_outcome(q).0.len() == ps.len(),
        forall|i: int| 0 <= i < ps.len() ==> carries(#[trigger] drain_outcome(q).0[i], ps[i]),
        drain_outcome(q).1.items.len() == 0,
    decreases ps.len(),
{
    if ps.len() == 0 {
        return;
    }
    let n = ps.len();
    assert(ps.take(0) =~= Seq::<PublicationView>::empty());
    assert(q.in_flight.len() + at_least_once_count(ps.take(0)) < q.max_in_flight);
    assert(q.items.last() == ps[0]);
    assert(ps[0].qos != QoS::ExactlyOnce);
    let (r, q2) = take_outcome(q);
    let rest = ps.drop_first();
    assert(q2.items =~= q.items.drop_last());
    assert forall|k: int| 0 <= k < rest.len() implies #[trigger] q2.items[k] == rest[rest.len() - 1 - k] by {
        assert(q2.items[k] == q.items[k]);
    }
    assert forall|i: int| 0 <= i < rest.len() implies #[trigger] rest[i].qos != QoS::ExactlyOnce by {
        assert(rest[i] == ps[i + 1]);
    }
    let first = if ps[0].qos == QoS::AtLeastOnce { 1nat } else { 0nat };
    if ps[0].qos == QoS::AtLeastOnce {
        let id = next_identifier(q.previous);
        assert(q2.in_flight.dom() =~= q.in_flight.dom().insert(id));
    }
    assert(q2.in_flight.len() == q.in_flight.len() + first);
    assert forall|i: int| 0 <= i < rest.len() implies q2.in_flight.len() + #[trigger] at_least_once_count(rest.take(i)) < q2.max_in_flight by {
        assert(ps.take(i + 1).drop_first() =~= rest.take(i));
        assert(ps.take(i + 1)[0] == ps[0]);
        assert(q.in_flight.len() + at_least_once_count(ps.take(i + 1)) < q.max_in_flight);
    }
    lemma_drain_in_order(q2, rest);
    let out = drain_outcome(q).0;
    assert(out == seq![r->Ok_0] + drain_outcome(q2).0);
    assert forall|i: int| 0 <= i < ps.len() implies carries(#[trigger] out[i], ps[i]) by {
        if i > 0 {
            assert(out[i] == drain_outcome(q2).0[i - 1]);
            assert(rest[i - 1] == ps[i]);
        }
    }
}

/// First in, first out: publications pushed, in order, onto a queue where
/// nothing waits come out of it, in the same order, one per take, when
/// each in turn finds room in the window; the take after them fails.
pub proof fn lemma_first_in_first_out(q: QueueView, ps: Seq<PublicationView>)
    requires
        queue_invariant(q),
        q.items.len() == 0,
        forall|i: int| 0 <= i < ps.len() ==> #[trigger] ps[i].qos != QoS::ExactlyOnce,
        forall|i: int| 0 <= i < ps.len() ==> q.in_flight.len() + #[trigger] at_least_once_count(ps.take(i)) < q.max_in_flight,
        drain_defined(push_all(q, ps)),
    ensures
        drain_outcome(push_all(q, ps)).0.len() == ps.len(),
        forall|i: int| 0 <= i < ps.len() ==> carries(#[trigger] drain_outcome(push_all(q, ps)).0[i], ps[i]),
        drain_outcome(push_all(q, ps)).1.items.len() == 0,
        take_outcome(drain_outcome(push_all(q, ps)).1).0 is Err,
{
    lemma_push_all_items(q, ps);
    lemma_drain_in_order(push_all(q, ps), ps);
}

/// Once the PUBACK of an at-least-once PUBLISH that a take gave comes back,
/// the PUBLISH is no longer in flight, and the same publications are in
/// flight as before the take.
pub proof fn lemma_take_then_acknowledge(q: QueueView)
    requires
        take_defined(q),
        take_outcome(q).0 matches Ok(p) && p.packet_identifier_dup_qos is AtLeastOnce,
    ensures
        ({
            let taken = take_outcome(q).1;
            let id = next_identifier(q.previous);
            &&& remove_outcome(taken, id).0
            &&& remove_outcome(taken, id).1.in_flight == q.in_flight
        }),
{
    let id = next_identifier(q.previous);
    assert(q.in_flight.insert(id, take_outcome(q).1.in_flight[id]).remove(id) =~= q.in_flight);
}

/// What a take gives is the oldest waiting publication, and an at-least-once
/// PUBLISH goes out under the identifier that follows the previous one, not
/// redelivered, and is recorded in flight under that same identifier, which
/// was free before; its acknowledgement then frees exactly that record.
pub proof fn lemma_taken_publish_recorded(q: QueueView)
    requires
        queue_invariant(q),
        take_defined(q),
        take_outcome(q).0 is Ok,
    ensures
        ({
            let p = take_outcome(q).0->Ok_0;
            let taken = take_outcome(q).1;
            let oldest = q.items[q.items.len() - 1];
            &&& q.items.len() > 0
            &&& q.in_flight.len() < q.max_in_flight
            &&& taken.items == q.items.subrange(0, q.items.len() - 1)
            &&& p.topic_name == oldest.topic_name
            &&& p.retain == oldest.retain
            &&& p.payload == oldest.payload
            &&& oldest.qos == QoS::AtMostOnce ==> {
                &&& p.packet_identifier_dup_qos == PacketIdentifierDupQoS::AtMostOnce
                &&& taken.in_flight == q.in_flight
                &&& taken.previous == q.previous
            }
            &&& oldest.qos == QoS::AtLeastOnce ==> {
                &&& p.packet_identifier_dup_qos is AtLeastOnce
                &&& !p.packet_identifier_dup_qos->AtLeastOnce_1
                &&& ({
                    let id = p.packet_identifier_dup_qos->AtLeastOnce_0@;
                    &&& id == next_identifier(q.previous)
                    &&& id != 0
                    &&& taken.previous == id
                    &&& !q.in_flight.contains_key(id)
                    &&& taken.in_flight.contains_key(id)
                    &&& taken.in_flight[id] == p
                    &&& taken.in_flight.remove(id) == q.in_flight
                    &&& remove_outcome(taken, id).0
                    &&& remove_outcome(taken, id).1.in_flight == q.in_flight
                })
            }
        }),
{
    let p = take_outcome(q).0->Ok_0;
    let taken = take_outcome(q).1;
    assert(q.items.len() > 0);
    let oldest = q.items[q.items.len() - 1];
    assert(q.items.drop_last() =~= q.items.subrange(0, q.items.len() - 1));
    if oldest.qos == QoS::AtLeastOnce {
        let id = next_identifier(q.previous);
        assert(p.packet_identifier_dup_qos->AtLeastOnce_0@ == id);
        assert(taken.in_flight.remove(id) =~= q.in_flight);
    }
}

/// An acknowledgement handled twice is acted on once: the second finds
/// nothing in flight under its identifier and changes nothing.
pub proof fn lemma_acknowledge_twice(q: QueueView, id: u16)
    ensures
        !remove_outcome(remove_outcome(q, id).1, id).0,
        remove_outcome(remove_outcome(q, id).1, id).1 == remove_outcome(q, id).1,
{
}

/// A drain stops only when nothing waits or the in-flight limit is reached.
pub proof fn lemma_drain_stops_at_limit_or_empty(q: QueueView)
    requires
        drain_defined(q),
    ensures
        drain_outcome(q).1.items.len() == 0 || drain_outcome(q).1.in_flight.len()
            >= drain_outcome(q).1.max_in_flight,
    decreases q.items.len(),
{
    let (r, q2) = take_outcome(q);
    if r is Ok {
        assert(q2.items.len() < q.items.len());
        lemma_drain_stops_at_limit_or_empty(q2);
    }
}

/// Storage from which the bridge gets its queues.
pub struct Storage {}

impl Storage {
    /// A new queue that allows five publications in flight; the name is not used.
    pub fn new_queue(&mut self, name: &str) -> (q: Queue)
        ensures
            *final(self) == *old(self),
            q.wf(),
            q@ == empty_queue(5),
    {
        Queue::new(5)
    }
}

} // verus!
