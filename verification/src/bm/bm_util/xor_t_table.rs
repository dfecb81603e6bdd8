use vstd::prelude::*;

use crate::bm::bm_util::eval::Evaluation;
use crate::bm::bm_util::t_table::{
    raw_age, raw_depth, raw_entry, raw_move, raw_score, spec_age_of, spec_pack_move,
    spec_unpack_move, TTMove,
};
use crate::bm::chess_types::Move;

verus! {

/// Entry kinds of the lock-free table, where a missing entry is its own variant.
#[derive(Clone, Copy, Debug, PartialEq, Eq, Structural)]
pub enum EntryType {
    Missing,
    LowerBound,
    Exact,
    UpperBound,
}

pub open spec fn spec_to_u16(e: EntryType) -> u16 {
    match e {
        EntryType::Missing => 0,
        EntryType::LowerBound => 1,
        EntryType::Exact => 2,
        EntryType::UpperBound => 3,
    }
}

pub open spec fn spec_from_u16(val: u16) -> EntryType {
    if val == 1 {
        EntryType::LowerBound
    } else if val == 2 {
        EntryType::Exact
    } else if val == 3 {
        EntryType::UpperBound
    } else {
        EntryType::Missing
    }
}

impl EntryType {
    pub fn to_u16(self) -> (r: u16)
        ensures
            r == spec_to_u16(self),
    {
        match self {
            EntryType::Missing => 0,
            EntryType::LowerBound => 1,
            EntryType::Exact => 2,
            EntryType::UpperBound => 3,
        }
    }

    pub fn from_u16(val: u16) -> (r: EntryType)
        ensures
            r == spec_from_u16(val),
    {
        if val == 1 {
            EntryType::LowerBound
        } else if val == 2 {
            EntryType::Exact
        } else if val == 3 {
            EntryType::UpperBound
        } else {
            EntryType::Missing
        }
    }

    pub fn missing(self) -> (b: bool)
        ensures
            b == (self == EntryType::Missing),
    {
        match self {
            EntryType::Missing => true,
            _ => false,
        }
    }
}

/// Encoding an entry kind and decoding it gives it back.
pub proof fn lemma_entry_type_roundtrip(e: EntryType)
    ensures
        spec_from_u16(spec_to_u16(e)) == e,
{
}

/// A stored analysis: the move is kept packed.
#[derive(Clone, Copy, Debug, PartialEq, Eq)]
pub struct Analysis {
    depth: u8,
    entry_type: EntryType,
    score: Evaluation,
    table_move: TTMove,
    age: u8,
}

pub open spec fn spec_raw(depth: u8, entry_type: EntryType, score: i16, mv: u16, age: u8) -> u64 {
    (depth as u64) | ((spec_to_u16(entry_type) as u64) << 8u64) | (((score as u16) as u64) << 24u64)
        | ((mv as u64) << 40u64) | ((age as u64) << 56u64)
}

impl Analysis {
    pub closed spec fn spec_depth(&self) -> u8 {
        self.depth
    }

    pub closed spec fn spec_entry_type(&self) -> EntryType {
        self.entry_type
    }

    pub closed spec fn spec_score(&self) -> i16 {
        self.score@
    }

    pub closed spec fn spec_move_bits(&self) -> u16 {
        self.table_move.0
    }

    pub closed spec fn spec_age(&self) -> u8 {
        self.age
    }

    pub open spec fn spec_to_raw(&self) -> u64 {
        spec_raw(self.spec_depth(), self.spec_entry_type(), self.spec_score(), self.spec_move_bits(), self.spec_age())
    }

    pub fn from_raw(bits: u64) -> (r: Self)
        ensures
            r.spec_depth() == raw_depth(bits),
            r.spec_entry_type() == spec_from_u16(raw_entry(bits)),
            r.spec_score() == raw_score(bits),
            r.spec_move_bits() == raw_move(bits),
            r.spec_age() == raw_age(bits),
    {
        Self {
            depth: (bits & 0xffu64) as u8,
            entry_type: EntryType::from_u16(((bits >> 8u64) & 0xffffu64) as u16),
            score: Evaluation::new((((bits >> 24u64) & 0xffffu64) as u16) as i16),
            table_move: TTMove(((bits >> 40u64) & 0xffffu64) as u16),
            age: (bits >> 56u64) as u8,
        }
    }

    pub fn to_raw(self) -> (r: u64)
        ensures
            r == self.spec_to_raw(),
    {
        (self.depth as u64) | ((self.entry_type.to_u16() as u64) << 8u64) | (((self.score.raw()
            as u16) as u64) << 24u64) | ((self.table_move.0 as u64) << 40u64) | ((self.age as u64)
            << 56u64)
    }

    /// Depth is stored in 8 bits and truncated to them.
    pub fn new(depth: u32, entry_type: EntryType, score: Evaluation, table_move: Move, age: u8) -> (r: Self)
        requires
            table_move.wf(),
        ensures
            r.spec_depth() == depth as u8,
            r.spec_entry_type() == entry_type,
            r.spec_score() == score@,
            r.spec_move_bits() == spec_pack_move(table_move),
            r.spec_age() == age,
    {
        Self { depth: depth as u8, entry_type, score, table_move: TTMove::new(table_move), age }
    }

    pub fn depth(&self) -> (r: u32)
        ensures
            r == self.spec_depth(),
    {
        self.depth as u32
    }

    pub fn entry_type(&self) -> (r: EntryType)
        ensures
            r == self.spec_entry_type(),
    {
        self.entry_type
    }

    pub fn score(&self) -> (r: Evaluation)
        ensures
            r@ == self.spec_score(),
    {
        self.score
    }

    pub fn table_move(&self) -> (r: Move)
        ensures
            r == spec_unpack_move(self.spec_move_bits()),
    {
        self.table_move.to_move()
    }
}

/// Packing the fields of an analysis and reading them back gives the same fields.
pub proof fn lemma_raw_roundtrip(depth: u8, entry_type: EntryType, score: i16, mv: u16, age: u8)
    ensures
        raw_depth(spec_raw(depth, entry_type, score, mv, age)) == depth,
        spec_from_u16(raw_entry(spec_raw(depth, entry_type, score, mv, age))) == entry_type,
        raw_score(spec_raw(depth, entry_type, score, mv, age)) == score,
        raw_move(spec_raw(depth, entry_type, score, mv, age)) == mv,
        raw_age(spec_raw(depth, entry_type, score, mv, age)) == age,
{
    let d = depth as u64;
    let e = spec_to_u16(entry_type) as u64;
    let s16 = score as u16;
    let s = s16 as u64;
    let m = mv as u64;
    let g = age as u64;
    let bits = spec_raw(depth, entry_type, score, mv, age);
    assert(bits == d | (e << 8u64) | (s << 24u64) | (m << 40u64) | (g << 56u64));
    assert((bits & 0xffu64) == d && ((bits >> 8u64) & 0xffffu64) == e && ((bits >> 24u64)
        & 0xffffu64) == s && ((bits >> 40u64) & 0xffffu64) == m && (bits >> 56u64) == g)
        by (bit_vector)
        requires
            bits == d | (e << 8u64) | (s << 24u64) | (m << 40u64) | (g << 56u64),
            d < 256,
            e < 65536,
            s < 65536,
            m < 65536,
            g < 256,
    ;
    assert((s16 as i16) == score) by (bit_vector)
        requires
            s16 == score as u16,
    ;
    lemma_entry_type_roundtrip(entry_type);
}

/// A word whose entry field names a kind is exactly the packing of its decoded fields.
pub proof fn lemma_raw_split(b: u64)
    requires
        spec_from_u16(raw_entry(b)) != EntryType::Missing,
    ensures
        spec_raw(raw_depth(b), spec_from_u16(raw_entry(b)), raw_score(b), raw_move(b), raw_age(b)) == b,
{
    let d = b & 0xffu64;
    let e = (b >> 8u64) & 0xffffu64;
    let s = (b >> 24u64) & 0xffffu64;
    let m = (b >> 40u64) & 0xffffu64;
    let g = b >> 56u64;
    assert(((d as u8) as u64) == d && ((e as u16) as u64) == e && ((((s as u16) as i16) as u16) as u64) == s
        && ((m as u16) as u64) == m && ((g as u8) as u64) == g) by (bit_vector)
        requires
            d == b & 0xffu64,
            e == (b >> 8u64) & 0xffffu64,
            s == (b >> 24u64) & 0xffffu64,
            m == (b >> 40u64) & 0xffffu64,
            g == b >> 56u64,
    ;
    assert(b == d | (e << 8u64) | (s << 24u64) | (m << 40u64) | (g << 56u64)) by (bit_vector)
        requires
            d == b & 0xffu64,
            e == (b >> 8u64) & 0xffffu64,
            s == (b >> 24u64) & 0xffffu64,
            m == (b >> 40u64) & 0xffffu64,
            g == b >> 56u64,
    ;
    assert(spec_to_u16(spec_from_u16(raw_entry(b))) as u64 == e);
}

pub open spec fn spec_extra_depth(e: EntryType) -> int {
    match e {
        EntryType::Exact | EntryType::LowerBound => 1,
        _ => 0,
    }
}

/// Replacement rule: the new depth plus half the stored entry's age must reach half the
/// stored depth (depths count one more for exact scores and lower bounds, and saturate at 255).
pub open spec fn spec_replace(table_age: u8, new_depth: u8, new_type: EntryType, prev_bits: u64) -> bool {
    let nd = new_depth + spec_extra_depth(new_type);
    let pd = raw_depth(prev_bits) + spec_extra_depth(spec_from_u16(raw_entry(prev_bits)));
    let lhs = nd + spec_age_of(table_age, raw_age(prev_bits)) / 2;
    (if lhs > 255 { 255 } else { lhs }) >= pd / 2
}

/// The smallest power of two that is at least `n` (1 for 0).
pub open spec fn is_next_power_of_two(n: nat, p: nat) -> bool {
    &&& exists|k: nat| p == vstd::arithmetic::power2::pow2(k)
    &&& p >= n
    &&& p >= 1
    &&& (p == 1 || p / 2 < n)
}

/// A table where each slot stores `hash ^ entry` next to `entry`, so that torn writes
/// from concurrent searchers are detected on read.
pub struct TranspositionTable {
    hashes: Vec<u64>,
    entries: Vec<u64>,
    mask: usize,
    age: u8,
}

impl TranspositionTable {
    pub closed spec fn wf(&self) -> bool {
        &&& self.hashes.len() == self.entries.len()
        &&& self.entries.len() > 0
        &&& self.mask + 1 == self.entries.len()
        &&& exists|k: nat| self.entries.len() == vstd::arithmetic::power2::pow2(k)
    }

    pub closed spec fn spec_len(&self) -> nat {
        self.entries.len() as nat
    }

    pub closed spec fn spec_mask(&self) -> usize {
        self.mask
    }

    pub closed spec fn spec_hashes(&self) -> Seq<u64> {
        self.hashes@
    }

    pub closed spec fn spec_entries(&self) -> Seq<u64> {
        self.entries@
    }

    pub closed spec fn spec_age(&self) -> u8 {
        self.age
    }

    pub open spec fn spec_index(&self, hash: u64) -> int {
        (hash as usize & self.spec_mask()) as int
    }

    /// The packed entry a lookup of `hash` finds: the slot's check word must equal
    /// `entry ^ hash` and the entry must not be missing.
    pub open spec fn spec_lookup(&self, hash: u64) -> Option<u64> {
        let i = self.spec_index(hash);
        let bits = self.spec_entries()[i];
        if bits ^ hash == self.spec_hashes()[i] && spec_from_u16(raw_entry(bits)) != EntryType::Missing {
            Some(bits)
        } else {
            None
        }
    }

    /// The table gets `size` rounded up to a power of two slots, all empty.
    pub fn new(size: usize) -> (r: Self)
        requires
            size <= 0x8000_0000,
        ensures
            r.wf(),
            is_next_power_of_two(size as nat, r.spec_len()),
            r.spec_age() == 0,
            forall|i: int| 0 <= i < r.spec_len() ==> r.spec_hashes()[i] == 0 && r.spec_entries()[i] == 0,
    {
        let size = next_power_of_two(size);
        let mut hashes: Vec<u64> = Vec::new();
        let mut entries: Vec<u64> = Vec::new();
        let mut i: usize = 0;
        while i < size
            invariant
                i <= size,
                hashes.len() == i,
                entries.len() == i,
                forall|j: int| 0 <= j < i ==> hashes@[j] == 0 && entries@[j] == 0,
            decreases size - i,
        {
            hashes.push(0);
            entries.push(0);
            i += 1;
        }
        Self { hashes, entries, mask: size - 1, age: 0 }
    }

    fn index(&self, hash: u64) -> (r: usize)
        requires
            self.wf(),
        ensures
            r == self.spec_index(hash),
            r < self.spec_len(),
    {
        let r = (hash as usize) & self.mask;
        let m = self.mask;
        let h = hash as usize;
        assert((h & m) <= m) by (bit_vector);
        r
    }

    pub fn get(&self, hash: u64) -> (r: Option<Analysis>)
        requires
            self.wf(),
        ensures
            match self.spec_lookup(hash) {
                Some(bits) => r matches Some(a) && a.spec_to_raw() == bits && a.spec_depth() == raw_depth(bits)
                    && a.spec_entry_type() == spec_from_u16(raw_entry(bits)) && a.spec_score() == raw_score(
                    bits,
                ) && a.spec_move_bits() == raw_move(bits) && a.spec_age() == raw_age(bits),
                None => r is None,
            },
    {
        let index = self.index(hash);
        let hash_u64 = self.hashes[index];
        let entry_u64 = self.entries[index];
        if entry_u64 ^ hash == hash_u64 {
            let analysis = Analysis::from_raw(entry_u64);
            if !analysis.entry_type.missing() {
                proof {
                    lemma_raw_split(entry_u64);
                }
                return Some(analysis);
            }
        }
        None
    }

    fn age_of(&self, analysis: &Analysis) -> (r: u8)
        ensures
            r == spec_age_of(self.age, analysis.age),
    {
        self.age.wrapping_sub(analysis.age)
    }

    fn replace(&self, new: &Analysis, prev: &Analysis) -> (r: bool)
        requires
            new.spec_depth() < 255,
        ensures
            r == spec_replace(self.age, new.spec_depth(), new.spec_entry_type(), prev.spec_to_raw()),
    {
        proof {
            lemma_raw_roundtrip(prev.depth, prev.entry_type, prev.score@, prev.table_move.0, prev.age);
        }
        let new_extra: u8 = match new.entry_type {
            EntryType::Exact | EntryType::LowerBound => 1,
            _ => 0,
        };
        let prev_extra: u8 = match prev.entry_type {
            EntryType::Exact | EntryType::LowerBound => 1,
            _ => 0,
        };
        let new_depth = new.depth + new_extra;
        let prev_depth = prev.depth as u16 + prev_extra as u16;
        let half_age = self.age_of(prev) / 2;
        let lhs: u8 = if new_depth as u16 + half_age as u16 > 255 {
            255
        } else {
            new_depth + half_age
        };
        lhs as u16 >= prev_depth / 2
    }

    /// Stores an analysis for `hash` when the slot is empty or the replacement rule allows it.
    pub fn set(&mut self, hash: u64, depth: u32, entry_type: EntryType, score: Evaluation, table_move: Move)
        requires
            old(self).wf(),
            table_move.wf(),
            (depth as u8) < 255,
        ensures
            final(self).wf(),
            final(self).spec_len() == old(self).spec_len(),
            final(self).spec_mask() == old(self).spec_mask(),
            final(self).spec_age() == old(self).spec_age(),
            ({
                let i = old(self).spec_index(hash);
                let prev = old(self).spec_entries()[i];
                let bits = spec_raw(depth as u8, entry_type, score@, spec_pack_move(table_move), old(self).spec_age());
                if spec_from_u16(raw_entry(prev)) == EntryType::Missing || spec_replace(
                    old(self).spec_age(),
                    depth as u8,
                    entry_type,
                    prev,
                ) {
                    &&& final(self).spec_entries() == old(self).spec_entries().update(i, bits)
                    &&& final(self).spec_hashes() == old(self).spec_hashes().update(i, hash ^ bits)
                } else {
                    &&& final(self).spec_entries() == old(self).spec_entries()
                    &&& final(self).spec_hashes() == old(self).spec_hashes()
                }
            }),
    {
        let new = Analysis::new(depth, entry_type, score, table_move, self.age);
        let index = self.index(hash);
        let previous = Analysis::from_raw(self.entries[index]);
        proof {
            let b = self.entries@[index as int];
            if spec_from_u16(raw_entry(b)) != EntryType::Missing {
                lemma_raw_split(b);
            }
        }
        if previous.entry_type.missing() || self.replace(&new, &previous) {
            let analysis_u64 = new.to_raw();
            self.hashes.set(index, hash ^ analysis_u64);
            self.entries.set(index, analysis_u64);
        }
    }

    pub fn clean(&mut self)
        requires
            old(self).wf(),
        ensures
            final(self).wf(),
            final(self).spec_len() == old(self).spec_len(),
            final(self).spec_mask() == old(self).spec_mask(),
            final(self).spec_age() == 0,
            forall|i: int|
                0 <= i < final(self).spec_len() ==> final(self).spec_hashes()[i] == 0
                    && final(self).spec_entries()[i] == 0,
    {
        self.age = 0;
        let n = self.entries.len();
        let mut i: usize = 0;
        while i < n
            invariant
                i <= n,
                self.entries.len() == n,
                self.hashes.len() == n,
                self.mask + 1 == n,
                exists|k: nat| n == vstd::arithmetic::power2::pow2(k),
                n > 0,
                self.age == 0,
                forall|j: int| 0 <= j < i ==> self.hashes@[j] == 0 && self.entries@[j] == 0,
            decreases n - i,
        {
            self.hashes.set(i, 0);
            self.entries.set(i, 0);
            i += 1;
        }
    }

    pub fn age(&mut self)
        requires
            old(self).wf(),
        ensures
            final(self).wf(),
            final(self).spec_age() == ((old(self).spec_age() + 1) % 256) as u8,
            final(self).spec_entries() == old(self).spec_entries(),
            final(self).spec_hashes() == old(self).spec_hashes(),
            final(self).spec_mask() == old(self).spec_mask(),
    {
        self.age = self.age.wrapping_add(1);
    }
}

/// `n.next_power_of_two()`.
pub fn next_power_of_two(n: usize) -> (p: usize)
    requires
        n <= 0x8000_0000,
    ensures
        is_next_power_of_two(n as nat, p as nat),
        p <= 0x1_0000_0000,
{
    let mut p: usize = 1;
    let ghost mut k: nat = 0;
    proof {
        vstd::arithmetic::power2::lemma2_to64();
    }
    while p < n
        invariant
            p as nat == vstd::arithmetic::power2::pow2(k),
            1 <= p <= 0x8000_0000,
            p == 1 || p / 2 < n,
            n <= 0x8000_0000,
        decreases 0x8000_0000 - p,
    {
        proof {
            vstd::arithmetic::power2::lemma_pow2_unfold(k + 1);
            vstd::arithmetic::power2::lemma2_to64();
            if k >= 31 {
                if k > 31 {
                    vstd::arithmetic::power2::lemma_pow2_strictly_increases(31, k);
                }
                assert(false);
            }
            if k < 30 {
                vstd::arithmetic::power2::lemma_pow2_strictly_increases(k, 30);
            }
        }
        p = p * 2;
        proof {
            k = k + 1;
        }
    }
    p
}

/// A read gives back what a write stored: once a store for `hash` overwrote its slot with a
/// non-missing entry, a lookup of `hash` finds exactly that entry, whose fields decode to the
/// depth (mod 256), kind, score, packed move and age that were stored.
pub proof fn lemma_read_after_write(
    before: TranspositionTable,
    after: TranspositionTable,
    hash: u64,
    depth: u32,
    entry_type: EntryType,
    score: Evaluation,
    table_move: Move,
)
    requires
        before.wf(),
        entry_type != EntryType::Missing,
        after.spec_mask() == before.spec_mask(),
        after.spec_entries() == before.spec_entries().update(
            before.spec_index(hash),
            spec_raw(depth as u8, entry_type, score@, spec_pack_move(table_move), before.spec_age()),
        ),
        after.spec_hashes() == before.spec_hashes().update(
            before.spec_index(hash),
            hash ^ spec_raw(depth as u8, entry_type, score@, spec_pack_move(table_move), before.spec_age()),
        ),
    ensures
        after.spec_lookup(hash) == Some(
            spec_raw(depth as u8, entry_type, score@, spec_pack_move(table_move), before.spec_age()),
        ),
{
    let bits = spec_raw(depth as u8, entry_type, score@, spec_pack_move(table_move), before.spec_age());
    lemma_raw_roundtrip(depth as u8, entry_type, score@, spec_pack_move(table_move), before.spec_age());
    let m = before.spec_mask();
    let h = hash as usize;
    assert((h & m) <= m) by (bit_vector);
    assert(bits ^ hash == hash ^ bits) by (bit_vector);
}

} // verus!
