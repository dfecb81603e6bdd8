use vstd::prelude::*;

use crate::bm::chess_types::{bb_has, has, BitBoard};

verus! {

/// A 16-bit xorshift generator.
pub struct XorShift16 {
    state: u16,
}

pub open spec fn spec_xorshift_step(s: u16) -> u16 {
    let a = s ^ (s << 7u16);
    let b = a ^ (a >> 9u16);
    b ^ (b << 8u16)
}

impl XorShift16 {
    pub closed spec fn spec_state(&self) -> u16 {
        self.state
    }

    pub fn new() -> (r: Self)
        ensures
            r.spec_state() == 1,
    {
        Self { state: 1 }
    }

    pub fn next(&mut self) -> (r: u16)
        ensures
            r == spec_xorshift_step(old(self).spec_state()),
            final(self).spec_state() == r,
    {
        self.state = self.state ^ (self.state << 7u16);
        self.state = self.state ^ (self.state >> 9u16);
        self.state = self.state ^ (self.state << 8u16);
        self.state
    }
}

/// XOR of the keys `keys[off + sq]` of the squares `sq < n` in `bb`.
pub open spec fn spec_xor_bits(keys: Seq<u16>, off: int, bb: u64, n: int) -> u16
    decreases n,
{
    if n <= 0 {
        0
    } else {
        let r = spec_xor_bits(keys, off, bb, n - 1);
        if bb_has(bb, n - 1) {
            r ^ keys[off + n - 1]
        } else {
            r
        }
    }
}

/// The hash of a set of white squares and a set of black squares.
pub open spec fn spec_full_hash(keys: Seq<u16>, w: u64, b: u64) -> u16 {
    spec_xor_bits(keys, 0, w, 64) ^ spec_xor_bits(keys, 64, b, 64)
}

/// A small incremental hash of two square sets (used for threats), with a stack to undo moves.
#[derive(Debug, Clone)]
pub struct Zobrist {
    stack: Vec<u16>,
    current: u16,
    hashes: Vec<u16>,
}

fn xor_bits(keys: &Vec<u16>, off: usize, bb: BitBoard, init: u16) -> (r: u16)
    requires
        off + 64 <= keys.len(),
    ensures
        r == init ^ spec_xor_bits(keys@, off as int, bb, 64),
{
    let mut cur = init;
    let mut sq: u8 = 0;
    assert(init ^ 0u16 == init) by (bit_vector);
    while sq < 64
        invariant
            sq <= 64,
            off + 64 <= keys.len(),
            cur == init ^ spec_xor_bits(keys@, off as int, bb, sq as int),
        decreases 64 - sq,
    {
        if has(bb, sq) {
            let k = keys[off + sq as usize];
            let ghost x = spec_xor_bits(keys@, off as int, bb, sq as int);
            assert((init ^ x) ^ k == init ^ (x ^ k)) by (bit_vector);
            cur = cur ^ k;
        }
        sq += 1;
    }
    cur
}

impl Zobrist {
    pub closed spec fn spec_current(&self) -> u16 {
        self.current
    }

    pub closed spec fn spec_stack(&self) -> Seq<u16> {
        self.stack@
    }

    pub closed spec fn spec_keys(&self) -> Seq<u16> {
        self.hashes@
    }

    pub closed spec fn wf(&self) -> bool {
        self.hashes.len() == 128
    }

    /// Keys come from the xorshift generator, white squares first; the hash starts as the hash of `w` and `b`.
    pub fn new(w: BitBoard, b: BitBoard) -> (r: Self)
        ensures
            r.wf(),
            r.spec_current() == spec_full_hash(r.spec_keys(), w, b),
            r.spec_stack().len() == 0,
    {
        let mut xor_shift = XorShift16::new();
        let mut hashes: Vec<u16> = Vec::new();
        let mut i: usize = 0;
        while i < 128
            invariant
                i <= 128,
                hashes.len() == i,
            decreases 128 - i,
        {
            hashes.push(xor_shift.next());
            i += 1;
        }
        let mut zobrist = Self { stack: Vec::new(), current: 0, hashes };
        zobrist.clear(w, b);
        zobrist
    }

    pub fn hash(&self) -> (r: u16)
        ensures
            r == self.spec_current(),
    {
        self.current
    }

    pub fn null_move(&mut self)
        ensures
            final(self).spec_stack() == old(self).spec_stack().push(old(self).spec_current()),
            final(self).spec_current() == old(self).spec_current(),
            final(self).spec_keys() == old(self).spec_keys(),
    {
        self.stack.push(self.current)
    }

    /// Toggles the keys of the white squares in `w_diff` and the black squares in `b_diff`.
    pub fn make_move(&mut self, w_diff: BitBoard, b_diff: BitBoard)
        requires
            old(self).wf(),
        ensures
            final(self).wf(),
            final(self).spec_stack() == old(self).spec_stack().push(old(self).spec_current()),
            final(self).spec_current() == (old(self).spec_current() ^ spec_xor_bits(old(self).spec_keys(), 0, w_diff, 64))
                ^ spec_xor_bits(old(self).spec_keys(), 64, b_diff, 64),
            final(self).spec_keys() == old(self).spec_keys(),
    {
        self.stack.push(self.current);
        let c = xor_bits(&self.hashes, 0, w_diff, self.current);
        self.current = xor_bits(&self.hashes, 64, b_diff, c);
    }

    pub fn unmake_move(&mut self)
        requires
            old(self).spec_stack().len() > 0,
        ensures
            final(self).spec_current() == old(self).spec_stack().last(),
            final(self).spec_stack() == old(self).spec_stack().drop_last(),
            final(self).spec_keys() == old(self).spec_keys(),
    {
        self.current = self.stack.pop().unwrap();
    }

    /// Forgets the move stack and recomputes the hash of `w` and `b`.
    pub fn clear(&mut self, w: BitBoard, b: BitBoard)
        requires
            old(self).wf(),
        ensures
            final(self).wf(),
            final(self).spec_stack().len() == 0,
            final(self).spec_current() == spec_full_hash(old(self).spec_keys(), w, b),
            final(self).spec_keys() == old(self).spec_keys(),
    {
        self.stack.clear();
        let c = xor_bits(&self.hashes, 0, w, 0);
        let ghost x = spec_xor_bits(self.hashes@, 0, w, 64);
        assert(0u16 ^ x == x) by (bit_vector);
        self.current = xor_bits(&self.hashes, 64, b, c);
    }
}

/// Hashing is linear in the square set: toggling `d` toggles exactly the keys of `d`.
pub proof fn lemma_xor_bits_linear(keys: Seq<u16>, off: int, w: u64, d: u64, n: int)
    ensures
        spec_xor_bits(keys, off, w ^ d, n) == spec_xor_bits(keys, off, w, n) ^ spec_xor_bits(keys, off, d, n),
    decreases n,
{
    if n <= 0 {
        assert(0u16 ^ 0u16 == 0u16) by (bit_vector);
    } else {
        lemma_xor_bits_linear(keys, off, w, d, n - 1);
        let k = (n - 1) as u64;
        assert(k < 64 || k >= 64);
        let bw = (w >> k) & 1 == 1;
        let bd = (d >> k) & 1 == 1;
        assert((((w ^ d) >> k) & 1 == 1) == (bw != bd)) by (bit_vector)
            requires
                bw == ((w >> k) & 1 == 1),
                bd == ((d >> k) & 1 == 1),
        ;
        let a = spec_xor_bits(keys, off, w, n - 1);
        let c = spec_xor_bits(keys, off, d, n - 1);
        let key = keys[off + n - 1];
        assert((a ^ key) ^ c == (a ^ c) ^ key) by (bit_vector);
        assert(a ^ (c ^ key) == (a ^ c) ^ key) by (bit_vector);
        assert((a ^ key) ^ (c ^ key) == a ^ c) by (bit_vector);
    }
}

/// Updating the hash incrementally with a move's square differences gives the same hash as
/// recomputing it from the new square sets.
pub proof fn lemma_incremental_matches_full(keys: Seq<u16>, w: u64, b: u64, w_diff: u64, b_diff: u64)
    ensures
        (spec_full_hash(keys, w, b) ^ spec_xor_bits(keys, 0, w_diff, 64)) ^ spec_xor_bits(keys, 64, b_diff, 64)
            == spec_full_hash(keys, w ^ w_diff, b ^ b_diff),
{
    lemma_xor_bits_linear(keys, 0, w, w_diff, 64);
    lemma_xor_bits_linear(keys, 64, b, b_diff, 64);
    let a = spec_xor_bits(keys, 0, w, 64);
    let c = spec_xor_bits(keys, 64, b, 64);
    let x = spec_xor_bits(keys, 0, w_diff, 64);
    let y = spec_xor_bits(keys, 64, b_diff, 64);
    assert(((a ^ c) ^ x) ^ y == (a ^ x) ^ (c ^ y)) by (bit_vector);
}

/// Making a move and unmaking it restores the hash.
pub proof fn lemma_make_unmake(z0: Zobrist, z1: Zobrist, z2: Zobrist)
    requires
        z1.spec_stack() == z0.spec_stack().push(z0.spec_current()),
        z2.spec_current() == z1.spec_stack().last(),
        z2.spec_stack() == z1.spec_stack().drop_last(),
    ensures
        z2.spec_current() == z0.spec_current(),
        z2.spec_stack() == z0.spec_stack(),
{
}

} // verus!
