//! Allocation of packet identifiers for in-flight publications: a bit set
//! with one bit for every 16-bit identifier value, handed out in order after
//! the previously reserved one.
use vstd::prelude::*;
use crate::proto::{PacketIdentifier, next_identifier, MAX_PACKET_IDENTIFIER};

verus! {

broadcast use crate::proto::group_packet_identifier;

/// Number of 64-bit blocks in the bit set: 65536 bits.
pub const BLOCKS: usize = 1024;

/// Whether bit `offset` of `word` is set.
pub open spec fn bit_is_set(word: u64, offset: u64) -> bool {
    (word >> offset) & 1u64 == 1u64
}

proof fn lemma_set_bit(word: u64, offset: u64, j: u64)
    by (bit_vector)
    requires
        offset < 64,
        j < 64,
    ensures
        ((word | (1u64 << offset)) >> j) & 1u64 == 1u64 <==> (((word >> j) & 1u64 == 1u64) || j
            == offset),
{
}

proof fn lemma_clear_bit(word: u64, offset: u64, j: u64)
    by (bit_vector)
    requires
        offset < 64,
        j < 64,
    ensures
        ((word & !(1u64 << offset)) >> j) & 1u64 == 1u64 <==> (((word >> j) & 1u64 == 1u64) && j
            != offset),
{
}

proof fn lemma_test_bit(word: u64, offset: u64)
    by (bit_vector)
    requires
        offset < 64,
    ensures
        (word & (1u64 << offset)) != 0u64 <==> (word >> offset) & 1u64 == 1u64,
{
}

proof fn lemma_empty_word(j: u64)
    by (bit_vector)
    requires
        j < 64,
    ensures
        (0u64 >> j) & 1u64 != 1u64,
{
}

/// Two identifier values that share a block and an offset are the same value.
proof fn lemma_block_offset_determine(a: u16, b: u16)
    requires
        a / 64 == b / 64,
        a % 64 == b % 64,
    ensures
        a == b,
{
}

/// The error of a reservation when the identifier that comes next is still in use.
#[derive(Clone, Copy, Debug, PartialEq, Eq, Structural)]
pub enum ReserveError {
    PacketIdentifiersExhausted,
}

/// What a reservation gives on a set of identifiers in use and the previously
/// reserved one: the next identifier and the new set and previous, or `None`
/// with nothing changed when the next identifier is in use.
pub open spec fn reserve_outcome(in_use: Set<u16>, previous: u16) -> (Option<u16>, Set<u16>, u16) {
    let next = next_identifier(previous);
    if in_use.contains(next) {
        (None, in_use, previous)
    } else {
        (Some(next), in_use.insert(next), next)
    }
}

/// The set of packet identifiers in use, with the one reserved last.
pub struct PacketIdentifiers {
    in_use: Vec<u64>,
    previous: PacketIdentifier,
}

impl PacketIdentifiers {
    /// The bit set has its 1024 blocks.
    pub closed spec fn wf(self) -> bool {
        self.in_use@.len() == BLOCKS
    }

    /// Whether the identifier value `value` is marked in use.
    closed spec fn bit_of(self, value: u16) -> bool {
        bit_is_set(self.in_use@[(value / 64) as int], (value % 64) as u64)
    }

    /// The identifier values in use.
    pub closed spec fn in_use(self) -> Set<u16> {
        Set::new(|value: u16| self.bit_of(value))
    }

    /// The value of the identifier reserved last.
    pub closed spec fn previous(self) -> u16 {
        self.previous@
    }

    /// A fresh set: nothing in use, and 65535 as the previous identifier, so
    /// that the first reservation gives 1.
    pub fn new() -> (r: PacketIdentifiers)
        ensures
            r.wf(),
            r.in_use() == Set::<u16>::empty(),
            r.previous() == MAX_PACKET_IDENTIFIER,
    {
        let mut in_use: Vec<u64> = Vec::new();
        let mut i: usize = 0;
        while i < BLOCKS
            invariant
                i <= BLOCKS,
                in_use@.len() == i,
                forall|j: int| 0 <= j < i ==> in_use@[j] == 0u64,
            decreases BLOCKS - i,
        {
            in_use.push(0u64);
            i = i + 1;
        }
        let r = PacketIdentifiers { in_use, previous: PacketIdentifier::max_value() };
        assert forall|value: u16| !r.in_use().contains(value) by {
            lemma_empty_word((value % 64) as u64);
        }
        assert(r.in_use() =~= Set::<u16>::empty());
        r
    }

    /// A copy of the set, with the same identifiers in use and the same previous one.
    pub fn duplicate(&self) -> (r: PacketIdentifiers)
        requires
            self.wf(),
        ensures
            r.wf(),
            r.in_use() == self.in_use(),
            r.previous() == self.previous(),
    {
        let in_use = self.in_use.clone();
        assert(in_use@ =~= self.in_use@);
        let r = PacketIdentifiers { in_use, previous: self.previous };
        assert(r.in_use() =~= self.in_use());
        r
    }

    /// The block that holds an identifier's bit, and the mask that selects it.
    pub fn entry(packet_identifier: PacketIdentifier) -> (r: (usize, u64))
        ensures
            r.0 == packet_identifier@ / 64,
            r.0 < BLOCKS,
            r.1 == 1u64 << (packet_identifier@ % 64) as u64,
    {
        let value = packet_identifier.get();
        let block = (value / 64) as usize;
        let offset = (value % 64) as u64;
        (block, 1u64 << offset)
    }

    /// Reserves the identifier that follows the previous one, if it is free.
    pub fn reserve(&mut self) -> (r: Result<PacketIdentifier, ReserveError>)
        requires
            old(self).wf(),
        ensures
            final(self).wf(),
            ({
                let (next, in_use, previous) = reserve_outcome(old(self).in_use(), old(self).previous());
                &&& final(self).in_use() == in_use
                &&& final(self).previous() == previous
                &&& match next {
                    Some(v) => r == Ok::<PacketIdentifier, ReserveError>(PacketIdentifier::from_value(v)),
                    None => r == Err::<PacketIdentifier, ReserveError>(ReserveError::PacketIdentifiersExhausted),
                }
            }),
    {
        let start = self.previous;
        let current = start.successor();
        let (block, mask) = Self::entry(current);
        let word = self.in_use[block];
        let ghost next = current@;
        proof {
            lemma_test_bit(word, (next % 64) as u64);
        }
        if word & mask != 0 {
            assert(old(self).in_use().contains(next));
            return Err(ReserveError::PacketIdentifiersExhausted);
        }
        assert(!old(self).in_use().contains(next));
        self.in_use.set(block, word | mask);
        self.previous = current;
        assert forall|value: u16| #[trigger]
            self.in_use().contains(value) == old(self).in_use().insert(next).contains(value) by {
            if value / 64 == next / 64 {
                lemma_set_bit(word, (next % 64) as u64, (value % 64) as u64);
                if value % 64 == next % 64 {
                    lemma_block_offset_determine(value, next);
                }
            }
        }
        assert(self.in_use() =~= old(self).in_use().insert(next));
        Ok(current)
    }

    /// Marks an identifier free again.
    pub fn discard(&mut self, packet_identifier: PacketIdentifier)
        requires
            old(self).wf(),
        ensures
            final(self).wf(),
            final(self).in_use() == old(self).in_use().remove(packet_identifier@),
            final(self).previous() == old(self).previous(),
    {
        let (block, mask) = Self::entry(packet_identifier);
        let word = self.in_use[block];
        self.in_use.set(block, word & !mask);
        let ghost id = packet_identifier@;
        assert forall|value: u16| #[trigger]
            self.in_use().contains(value) == old(self).in_use().remove(id).contains(value) by {
            if value / 64 == id / 64 {
                lemma_clear_bit(word, (id % 64) as u64, (value % 64) as u64);
                if value % 64 == id % 64 {
                    lemma_block_offset_determine(value, id);
                }
            }
        }
        assert(self.in_use() =~= old(self).in_use().remove(id));
    }
}

impl Default for PacketIdentifiers {
    fn default() -> (r: PacketIdentifiers)
        ensures
            r.wf(),
            r.in_use() == Set::<u16>::empty(),
            r.previous() == MAX_PACKET_IDENTIFIER,
    {
        PacketIdentifiers::new()
    }
}

/// Identifiers are handed out in order, 65535 followed by 1, and 0 never.
pub proof fn lemma_next_identifier(value: u16)
    ensures
        next_identifier(value) != 0,
        value < MAX_PACKET_IDENTIFIER ==> next_identifier(value) == value + 1,
        value == MAX_PACKET_IDENTIFIER ==> next_identifier(value) == 1,
{
}

/// A reservation hands out an identifier that was free and is now in use;
/// discarding it afterwards leaves the same identifiers in use as before.
pub proof fn lemma_reserve_then_discard(in_use: Set<u16>, previous: u16)
    requires
        !in_use.contains(next_identifier(previous)),
    ensures
        ({
            let (id, after, _) = reserve_outcome(in_use, previous);
            &&& id == Some(next_identifier(previous))
            &&& after.contains(next_identifier(previous))
            &&& after.remove(next_identifier(previous)) == in_use
        }),
{
    let next = next_identifier(previous);
    assert(in_use.insert(next).remove(next) =~= in_use);
}

} // verus!
