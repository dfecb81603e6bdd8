use vstd::prelude::*;

use crate::bm::chess_types::MoveData;

verus! {

/// A move packed in 16 bits: from (6 bits), to (6 bits), capture (1 bit), piece (3 bits).
pub open spec fn spec_pack_move_data(m: MoveData) -> u16 {
    (m.from as u16) | ((m.to as u16) << 6u16) | ((if m.capture { 1u16 } else { 0u16 }) << 12u16) | ((m.piece
        as u16) << 13u16)
}

pub fn pack_move_data(move_data: MoveData) -> (r: u16)
    requires
        move_data.wf(),
    ensures
        r == spec_pack_move_data(move_data),
{
    let mut data: u16 = 0;
    data = data | (move_data.from as u16);
    data = data | ((move_data.to as u16) << 6u16);
    data = data | ((if move_data.capture { 1u16 } else { 0u16 }) << 12u16);
    data = data | ((move_data.piece as u16) << 13u16);
    let f = move_data.from as u16;
    assert((0u16 | f) == f) by (bit_vector);
    data
}

/// Packing keeps from, to, the capture flag and the piece apart: different moves get
/// different codes.
pub proof fn lemma_pack_injective(a: MoveData, b: MoveData)
    requires
        a.wf(),
        b.wf(),
        spec_pack_move_data(a) == spec_pack_move_data(b),
    ensures
        a.from == b.from,
        a.to == b.to,
        a.capture == b.capture,
        a.piece == b.piece,
{
    let (af, at, ac, ap) = (a.from as u16, a.to as u16, (if a.capture { 1u16 } else { 0u16 }), a.piece as u16);
    let (bf, bt, bc, bp) = (b.from as u16, b.to as u16, (if b.capture { 1u16 } else { 0u16 }), b.piece as u16);
    assert(af == bf && at == bt && ac == bc && ap == bp) by (bit_vector)
        requires
            af < 64,
            at < 64,
            ac < 2,
            ap < 6,
            bf < 64,
            bt < 64,
            bc < 2,
            bp < 6,
            af | (at << 6u16) | (ac << 12u16) | (ap << 13u16) == bf | (bt << 6u16) | (bc << 12u16) | (bp << 13u16),
    ;
}

/// For each of 65536 slots (the top 16 bits of the position hash), the last move that failed.
#[derive(Debug, Clone)]
pub struct FailCache {
    cache: Vec<u16>,
}

impl FailCache {
    pub closed spec fn spec_cache(&self) -> Seq<u16> {
        self.cache@
    }

    pub closed spec fn wf(&self) -> bool {
        self.cache.len() == 65536
    }

    pub fn new() -> (r: Self)
        ensures
            r.wf(),
            forall|i: int| 0 <= i < 65536 ==> r.spec_cache()[i] == 0,
    {
        let mut cache: Vec<u16> = Vec::new();
        let mut i: usize = 0;
        while i < 65536
            invariant
                i <= 65536,
                cache.len() == i,
                forall|j: int| 0 <= j < i ==> cache@[j] == 0,
            decreases 65536 - i,
        {
            cache.push(0);
            i += 1;
        }
        Self { cache }
    }

    pub fn get(&self, hash: u64, mv: MoveData) -> (r: bool)
        requires
            self.wf(),
            mv.wf(),
        ensures
            r == (self.spec_cache()[(hash >> 48u64) as int] == spec_pack_move_data(mv)),
    {
        let index = (hash >> 48u64) as usize;
        assert(hash >> 48u64 < 65536) by (bit_vector);
        self.cache[index] == pack_move_data(mv)
    }

    pub fn add(&mut self, hash: u64, mv: MoveData)
        requires
            old(self).wf(),
            mv.wf(),
        ensures
            final(self).wf(),
            final(self).spec_cache() == old(self).spec_cache().update((hash >> 48u64) as int, spec_pack_move_data(mv)),
    {
        let index = (hash >> 48u64) as usize;
        assert(hash >> 48u64 < 65536) by (bit_vector);
        self.cache.set(index, pack_move_data(mv));
    }
}

} // verus!
