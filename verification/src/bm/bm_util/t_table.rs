use vstd::prelude::*;

use crate::bm::bm_util::eval::Evaluation;
use crate::bm::chess_types::{Move, Piece};

verus! {

/// A move packed into 16 bits: from (6 bits), to (6 bits), promotion (4 bits, 15 = none).
#[derive(Clone, Copy, Debug, PartialEq, Eq, Structural)]
pub struct TTMove(pub u16);

pub open spec fn spec_promotion_code(promotion: Option<Piece>) -> u16 {
    match promotion {
        Some(p) => p as u16,
        None => 15,
    }
}

pub open spec fn spec_pack_move(m: Move) -> u16 {
    (m.from as u16) | ((m.to as u16) << 6u16) | (spec_promotion_code(m.promotion) << 12u16)
}

pub open spec fn spec_unpack_move(bits: u16) -> Move {
    let promotion = (bits >> 12u16) & 15u16;
    Move {
        from: (bits & 63u16) as u8,
        to: ((bits >> 6u16) & 63u16) as u8,
        promotion: if promotion < 6 {
            Some(promotion as u8)
        } else {
            None
        },
    }
}

impl TTMove {
    pub fn new(make_move: Move) -> (r: Self)
        requires
            make_move.wf(),
        ensures
            r.0 == spec_pack_move(make_move),
    {
        let mut bits: u16 = 0;
        bits = bits | (make_move.from as u16);
        bits = bits | ((make_move.to as u16) << 6u16);
        let promo: u16 = match make_move.promotion {
            Some(p) => p as u16,
            None => 15,
        };
        bits = bits | (promo << 12u16);
        assert(bits == spec_pack_move(make_move)) by {
            let f = make_move.from as u16;
            let t = make_move.to as u16;
            assert((0u16 | f) == f) by (bit_vector);
        }
        Self(bits)
    }

    pub fn to_move(self) -> (r: Move)
        ensures
            r == spec_unpack_move(self.0),
            r.wf(),
    {
        let bits = self.0;
        let promotion = (bits >> 12u16) & 15u16;
        let promotion = if promotion == 15 {
            None
        } else if promotion < 6 {
            Some(promotion as u8)
        } else {
            None
        };
        assert((bits & 63u16) < 64) by (bit_vector);
        assert(((bits >> 6u16) & 63u16) < 64) by (bit_vector);
        Move { from: (bits & 63u16) as u8, to: ((bits >> 6u16) & 63u16) as u8, promotion }
    }
}

/// Packing a legal-shaped move into 16 bits and unpacking it gives the same move back.
pub proof fn lemma_tt_move_roundtrip(m: Move)
    requires
        m.wf(),
    ensures
        spec_unpack_move(spec_pack_move(m)) == m,
{
    let f = m.from as u16;
    let t = m.to as u16;
    let p = spec_promotion_code(m.promotion);
    assert(p <= 15);
    let bits = spec_pack_move(m);
    assert(bits == f | (t << 6u16) | (p << 12u16));
    assert((bits & 63u16) == f && ((bits >> 6u16) & 63u16) == t && ((bits >> 12u16) & 15u16) == p)
        by (bit_vector)
        requires
            f < 64,
            t < 64,
            p <= 15,
            bits == f | (t << 6u16) | (p << 12u16),
    ;
}

#[derive(Clone, Copy, Debug, PartialEq, Eq, Structural)]
pub enum Bounds {
    LowerBound,
    Exact,
    UpperBound,
}

#[derive(Clone, Copy, Debug, PartialEq, Eq, Structural)]
pub enum EntryType {
    Missing,
    Entry { bounds: Bounds },
}

pub open spec fn spec_entry_type_to_u16(e: EntryType) -> u16 {
    match e {
        EntryType::Missing => 0,
        EntryType::Entry { bounds } => match bounds {
            Bounds::LowerBound => 1,
            Bounds::Exact => 2,
            Bounds::UpperBound => 3,
        },
    }
}

pub open spec fn spec_entry_type_from_u16(val: u16) -> EntryType {
    if val == 1 {
        EntryType::Entry { bounds: Bounds::LowerBound }
    } else if val == 2 {
        EntryType::Entry { bounds: Bounds::Exact }
    } else if val == 3 {
        EntryType::Entry { bounds: Bounds::UpperBound }
    } else {
        EntryType::Missing
    }
}

impl EntryType {
    pub fn to_u16(self) -> (r: u16)
        ensures
            r == spec_entry_type_to_u16(self),
    {
        match self {
            EntryType::Missing => 0,
            EntryType::Entry { bounds } => match bounds {
                Bounds::LowerBound => 1,
                Bounds::Exact => 2,
                Bounds::UpperBound => 3,
            },
        }
    }

    pub fn from_u16(val: u16) -> (r: EntryType)
        ensures
            r == spec_entry_type_from_u16(val),
    {
        if 1 <= val && val <= 3 {
            let val = val - 1;
            let bounds = if val == 0 {
                Bounds::LowerBound
            } else if val == 1 {
                Bounds::Exact
            } else {
                Bounds::UpperBound
            };
            EntryType::Entry { bounds }
        } else {
            EntryType::Missing
        }
    }
}

/// Encoding an entry type and decoding it gives it back.
pub proof fn lemma_entry_type_roundtrip(e: EntryType)
    ensures
        spec_entry_type_from_u16(spec_entry_type_to_u16(e)) == e,
{
}

/// What the transposition table stores about a searched position.
#[derive(Clone, Copy, Debug, PartialEq, Eq)]
pub struct Analysis {
    pub depth: u32,
    pub bounds: Bounds,
    pub score: Evaluation,
    pub table_move: Move,
    pub age: u8,
}

/// The 64-bit layout of an entry: depth (8 bits), entry type (16), score (16),
/// packed move (16), age (8), from the low bits up.
pub open spec fn spec_to_raw(a: Analysis) -> u64 {
    let depth = (a.depth as u8) as u64;
    let entry = spec_entry_type_to_u16(EntryType::Entry { bounds: a.bounds }) as u64;
    let score = (a.score@ as u16) as u64;
    let mv = spec_pack_move(a.table_move) as u64;
    let age = a.age as u64;
    depth | (entry << 8u64) | (score << 24u64) | (mv << 40u64) | (age << 56u64)
}

pub open spec fn raw_depth(bits: u64) -> u8 {
    (bits & 0xffu64) as u8
}

pub open spec fn raw_entry(bits: u64) -> u16 {
    ((bits >> 8u64) & 0xffffu64) as u16
}

pub open spec fn raw_score(bits: u64) -> i16 {
    (((bits >> 24u64) & 0xffffu64) as u16) as i16
}

pub open spec fn raw_move(bits: u64) -> u16 {
    ((bits >> 40u64) & 0xffffu64) as u16
}

pub open spec fn raw_age(bits: u64) -> u8 {
    (bits >> 56u64) as u8
}

/// `None` when the entry type field reads as missing; otherwise the decoded fields.
pub open spec fn spec_from_raw_matches(bits: u64, r: Option<Analysis>) -> bool {
    match spec_entry_type_from_u16(raw_entry(bits)) {
        EntryType::Missing => r is None,
        EntryType::Entry { bounds } => r matches Some(a) && {
            &&& a.depth == raw_depth(bits) as u32
            &&& a.bounds == bounds
            &&& a.score@ == raw_score(bits)
            &&& a.table_move == spec_unpack_move(raw_move(bits))
            &&& a.age == raw_age(bits)
        },
    }
}

impl Analysis {
    pub fn from_raw(bits: u64) -> (r: Option<Self>)
        ensures
            spec_from_raw_matches(bits, r),
    {
        let depth = (bits & 0xffu64) as u8;
        let entry_type = ((bits >> 8u64) & 0xffffu64) as u16;
        let score = (((bits >> 24u64) & 0xffffu64) as u16) as i16;
        let table_move = ((bits >> 40u64) & 0xffffu64) as u16;
        let age = (bits >> 56u64) as u8;
        let entry = EntryType::from_u16(entry_type);
        match entry {
            EntryType::Missing => None,
            EntryType::Entry { bounds } => Some(
                Self {
                    depth: depth as u32,
                    bounds,
                    score: Evaluation::new(score),
                    table_move: TTMove(table_move).to_move(),
                    age,
                },
            ),
        }
    }

    pub fn to_raw(self) -> (r: u64)
        requires
            self.table_move.wf(),
        ensures
            r == spec_to_raw(self),
    {
        let entry = EntryType::Entry { bounds: self.bounds };
        let depth = (self.depth as u8) as u64;
        let e = entry.to_u16() as u64;
        let score = (self.score.raw() as u16) as u64;
        let mv = TTMove::new(self.table_move).0 as u64;
        let age = self.age as u64;
        depth | (e << 8u64) | (score << 24u64) | (mv << 40u64) | (age << 56u64)
    }

    pub fn new(depth: u32, bounds: Bounds, score: Evaluation, table_move: Move, age: u8) -> (r: Self)
        ensures
            r == (Analysis { depth, bounds, score, table_move, age }),
    {
        Self { depth, bounds, score, table_move, age }
    }
}

/// Storing an analysis in 64 bits and reading it back gives the same analysis,
/// as long as its depth fits the 8-bit depth field.
pub proof fn lemma_analysis_roundtrip(a: Analysis)
    requires
        a.depth < 256,
        a.table_move.wf(),
    ensures
        spec_from_raw_matches(spec_to_raw(a), Some(a)),
{
    let d = (a.depth as u8) as u64;
    let e = spec_entry_type_to_u16(EntryType::Entry { bounds: a.bounds }) as u64;
    let s16 = a.score@ as u16;
    let s = s16 as u64;
    let m16 = spec_pack_move(a.table_move);
    let m = m16 as u64;
    let g = a.age as u64;
    let bits = spec_to_raw(a);
    assert(bits == d | (e << 8u64) | (s << 24u64) | (m << 40u64) | (g << 56u64));
    assert(d < 256 && e < 65536 && s < 65536 && m < 65536 && g < 256);
    assert((bits & 0xffu64) == d && ((bits >> 8u64) & 0xffffu64) == e && ((bits >> 24u64)
        & 0xffffu64) == s && ((bits >> 40u64) & 0xffffu64) == m && (bits >> 56u64) == g)
        by (bit_vector)
        requires
            bits == d | (e << 8u64) | (s << 24u64) | (m << 40u64) | (g << 56u64),
            d < 256,
            e < 65536,
            s < 65536,
            m < 65536,
            g < 256,
    ;
    let sc: i16 = a.score@;
    assert((s16 as i16) == sc) by (bit_vector)
        requires
            s16 == sc as u16,
    ;
    lemma_tt_move_roundtrip(a.table_move);
    lemma_entry_type_roundtrip(EntryType::Entry { bounds: a.bounds });
}

pub open spec fn spec_extra_depth(bounds: Bounds) -> int {
    match bounds {
        Bounds::Exact | Bounds::LowerBound => 1,
        Bounds::UpperBound => 0,
    }
}

/// Age difference between the table's current age and an entry's age, wrapping in `u8`.
pub open spec fn spec_age_of(table_age: u8, entry_age: u8) -> int {
    ((table_age - entry_age) % 256) as int
}

/// A new analysis replaces a stored one unless the stored one is much deeper and recent:
/// entries that are exact or lower bounds count one ply deeper.
pub open spec fn spec_replace(
    table_age: u8,
    new_depth: u32,
    new_bounds: Bounds,
    prev_depth: u32,
    prev_bounds: Bounds,
    prev_age: u8,
) -> bool {
    (new_depth + spec_extra_depth(new_bounds)) * 2 + spec_age_of(table_age, prev_age) + 1 >= prev_depth
        + spec_extra_depth(prev_bounds)
}

/// Whether storing into a slot that currently holds `bits` overwrites it.
pub open spec fn spec_overwrites(table_age: u8, new_depth: u32, new_bounds: Bounds, bits: u64) -> bool {
    match spec_entry_type_from_u16(raw_entry(bits)) {
        EntryType::Missing => true,
        EntryType::Entry { bounds } => spec_replace(
            table_age,
            new_depth,
            new_bounds,
            raw_depth(bits) as u32,
            bounds,
            raw_age(bits),
        ),
    }
}

/// Slot of a hash in a table of `len` slots: the high bits of `hash * len`.
pub open spec fn spec_tt_index(hash: u64, len: nat) -> int {
    (hash as int * len as int) / 0x1_0000_0000_0000_0000int
}

/// Every hash maps to a slot of the table.
pub proof fn lemma_tt_index_bound(hash: u64, len: nat)
    requires
        len > 0,
    ensures
        0 <= spec_tt_index(hash, len) < len,
{
    let h = hash as int;
    let l = len as int;
    assert(0 <= (h * l) / 0x1_0000_0000_0000_0000int < l) by (nonlinear_arith)
        requires
            0 <= h < 0x1_0000_0000_0000_0000int,
            l > 0,
    ;
}

/// The packed entry an analysis with the table's age becomes.
pub open spec fn spec_new_entry(depth: u32, bounds: Bounds, score: Evaluation, table_move: Move, age: u8) -> u64 {
    spec_to_raw(Analysis { depth, bounds, score, table_move, age })
}

/// A fixed-size table of analyses, indexed by position hash.
pub struct TranspositionTable {
    hashes: Vec<u32>,
    entries: Vec<u64>,
    age: u8,
}

impl TranspositionTable {
    /// Both columns have one slot per entry, and there is at least one slot.
    pub closed spec fn wf(&self) -> bool {
        &&& self.hashes.len() == self.entries.len()
        &&& self.entries.len() > 0
    }

    pub closed spec fn spec_len(&self) -> nat {
        self.entries.len() as nat
    }

    /// The 32-bit check hash stored in each slot.
    pub closed spec fn spec_hashes(&self) -> Seq<u32> {
        self.hashes@
    }

    /// The packed analysis stored in each slot.
    pub closed spec fn spec_entries(&self) -> Seq<u64> {
        self.entries@
    }

    pub closed spec fn spec_age(&self) -> u8 {
        self.age
    }

    /// The packed entry a lookup of `hash` finds, if the slot's check hash matches.
    pub open spec fn spec_lookup(&self, hash: u64) -> Option<u64> {
        let i = spec_tt_index(hash, self.spec_len());
        if self.spec_hashes()[i] == hash as u32 {
            Some(self.spec_entries()[i])
        } else {
            None
        }
    }

    pub fn new(size: usize) -> (r: Self)
        requires
            size > 0,
        ensures
            r.wf(),
            r.spec_len() == size,
            r.spec_age() == 0,
            forall|i: int| 0 <= i < size ==> r.spec_hashes()[i] == 0 && r.spec_entries()[i] == 0,
    {
        let mut hashes: Vec<u32> = Vec::new();
        let mut entries: Vec<u64> = Vec::new();
        let mut i: usize = 0;
        while i < size
            invariant
                i <= size,
                hashes.len() == i,
                entries.len() == i,
                forall|j: int| 0 <= j < i ==> hashes@[j] == 0 && entries@[j] == 0,
            decreases size - i,
        {
            hashes.push(0);
            entries.push(0);
            i += 1;
        }
        Self { hashes, entries, age: 0 }
    }

    pub fn len(&self) -> (r: usize)
        ensures
            r == self.spec_len(),
    {
        self.entries.len()
    }

    fn tt_index(&self, hash: u64) -> (r: usize)
        requires
            self.wf(),
        ensures
            r == spec_tt_index(hash, self.spec_len()),
            r < self.spec_len(),
    {
        let key = hash as u128;
        let len = self.entries.len() as u128;
        assert(key * len < 0x1_0000_0000_0000_0000u128 * len) by (nonlinear_arith)
            requires
                key < 0x1_0000_0000_0000_0000u128,
                len > 0,
        ;
        assert(len <= 0xffff_ffff_ffff_ffffu128);
        assert(0x1_0000_0000_0000_0000u128 * len <= 0x1_0000_0000_0000_0000u128 * 0xffff_ffff_ffff_ffffu128)
            by (nonlinear_arith)
            requires
                len <= 0xffff_ffff_ffff_ffffu128,
        ;
        let prod = key * len;
        let idx = prod / 0x1_0000_0000_0000_0000u128;
        assert(idx < len) by (nonlinear_arith)
            requires
                prod < 0x1_0000_0000_0000_0000u128 * len,
                idx == prod / 0x1_0000_0000_0000_0000u128,
        ;
        idx as usize
    }

    fn tt_hash(&self, hash: u64) -> (r: u32)
        ensures
            r == hash as u32,
    {
        hash as u32
    }

    pub fn get(&self, hash: u64) -> (r: Option<Analysis>)
        requires
            self.wf(),
        ensures
            match self.spec_lookup(hash) {
                Some(bits) => spec_from_raw_matches(bits, r),
                None => r is None,
            },
    {
        let tt_hash = self.tt_hash(hash);
        let tt_index = self.tt_index(hash);
        let entry_hash = self.hashes[tt_index];
        let entry_u64 = self.entries[tt_index];
        if tt_hash == entry_hash {
            return Analysis::from_raw(entry_u64);
        }
        None
    }

    fn age_of(&self, analysis: &Analysis) -> (r: u8)
        ensures
            r == spec_age_of(self.age, analysis.age),
    {
        self.age.wrapping_sub(analysis.age)
    }

    fn replace(&self, new: &Analysis, prev: &Analysis) -> (r: bool)
        ensures
            r == spec_replace(self.age, new.depth, new.bounds, prev.depth, prev.bounds, prev.age),
    {
        let new_extra: u64 = match new.bounds {
            Bounds::Exact | Bounds::LowerBound => 1,
            Bounds::UpperBound => 0,
        };
        let prev_extra: u64 = match prev.bounds {
            Bounds::Exact | Bounds::LowerBound => 1,
            Bounds::UpperBound => 0,
        };
        let new_depth = new.depth as u64 + new_extra;
        let prev_depth = prev.depth as u64 + prev_extra;
        new_depth * 2 + self.age_of(prev) as u64 + 1 >= prev_depth
    }

    /// Stores an analysis for `hash` unless the slot holds a deeper, recent entry.
    pub fn set(&mut self, hash: u64, depth: u32, entry_type: Bounds, score: Evaluation, table_move: Move)
        requires
            old(self).wf(),
            table_move.wf(),
        ensures
            final(self).wf(),
            final(self).spec_len() == old(self).spec_len(),
            final(self).spec_age() == old(self).spec_age(),
            ({
                let i = spec_tt_index(hash, old(self).spec_len());
                if spec_overwrites(old(self).spec_age(), depth, entry_type, old(self).spec_entries()[i]) {
                    &&& final(self).spec_entries() == old(self).spec_entries().update(
                        i,
                        spec_new_entry(depth, entry_type, score, table_move, old(self).spec_age()),
                    )
                    &&& final(self).spec_hashes() == old(self).spec_hashes().update(i, hash as u32)
                } else {
                    &&& final(self).spec_entries() == old(self).spec_entries()
                    &&& final(self).spec_hashes() == old(self).spec_hashes()
                }
            }),
    {
        let new = Analysis::new(depth, entry_type, score, table_move, self.age);
        let tt_hash = self.tt_hash(hash);
        let tt_index = self.tt_index(hash);
        let entry_u64 = self.entries[tt_index];
        let previous = Analysis::from_raw(entry_u64);
        let store = match previous {
            None => true,
            Some(previous) => self.replace(&new, &previous),
        };
        if store {
            let analysis_u64 = new.to_raw();
            self.hashes.set(tt_index, tt_hash);
            self.entries.set(tt_index, analysis_u64);
        }
    }

    /// Empties every slot and resets the age.
    pub fn clean(&mut self)
        requires
            old(self).wf(),
        ensures
            final(self).wf(),
            final(self).spec_len() == old(self).spec_len(),
            final(self).spec_age() == 0,
            forall|i: int|
                0 <= i < final(self).spec_len() ==> final(self).spec_hashes()[i] == 0
                    && final(self).spec_entries()[i] == 0,
    {
        self.age = 0;
        let n = self.entries.len();
        let mut i: usize = 0;
        while i < n
            invariant
                i <= n,
                self.entries.len() == n,
                self.hashes.len() == n,
                n > 0,
                self.age == 0,
                forall|j: int| 0 <= j < i ==> self.hashes@[j] == 0 && self.entries@[j] == 0,
            decreases n - i,
        {
            self.hashes.set(i, 0);
            self.entries.set(i, 0);
            i += 1;
        }
    }

    /// Starts a new search generation; the age wraps around after 255.
    pub fn age(&mut self)
        requires
            old(self).wf(),
        ensures
            final(self).wf(),
            final(self).spec_age() == ((old(self).spec_age() + 1) % 256) as u8,
            final(self).spec_entries() == old(self).spec_entries(),
            final(self).spec_hashes() == old(self).spec_hashes(),
    {
        self.age = self.age.wrapping_add(1);
    }
}

/// A read gives back what a write stored: after a store for `hash` that overwrote its slot,
/// looking `hash` up finds exactly the stored analysis (depth, bound, score, move and the
/// table's age), provided the depth fits the 8-bit field. An empty slot is always overwritten.
pub proof fn lemma_read_after_write(
    before: TranspositionTable,
    after: TranspositionTable,
    hash: u64,
    depth: u32,
    bounds: Bounds,
    score: Evaluation,
    table_move: Move,
)
    requires
        before.wf(),
        table_move.wf(),
        depth < 256,
        after.spec_len() == before.spec_len(),
        after.spec_entries() == before.spec_entries().update(
            spec_tt_index(hash, before.spec_len()),
            spec_new_entry(depth, bounds, score, table_move, before.spec_age()),
        ),
        after.spec_hashes() == before.spec_hashes().update(spec_tt_index(hash, before.spec_len()), hash as u32),
    ensures
        after.spec_lookup(hash) == Some(spec_new_entry(depth, bounds, score, table_move, before.spec_age())),
        spec_from_raw_matches(
            spec_new_entry(depth, bounds, score, table_move, before.spec_age()),
            Some(Analysis { depth, bounds, score, table_move, age: before.spec_age() }),
        ),
        spec_entry_type_from_u16(raw_entry(0)) is Missing,
{
    lemma_analysis_roundtrip(Analysis { depth, bounds, score, table_move, age: before.spec_age() });
    lemma_tt_index_bound(hash, before.spec_len());
    assert(((0u64 >> 8u64) & 0xffffu64) == 0u64) by (bit_vector);
    assert(raw_entry(0) == 0);
}

} // verus!
