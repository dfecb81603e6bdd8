use vstd::prelude::*;

use crate::bm::bm_search::fail_cache::{pack_move_data, spec_pack_move_data};
use crate::bm::chess_types::MoveData;

verus! {

/// A set of (position, move) pairs keyed by the top 16 bits of the hash XOR the packed move.
#[derive(Debug, Clone)]
pub struct XorSet {
    cache: Vec<u16>,
}

pub open spec fn spec_xor_index(hash: u64, mv: MoveData) -> int {
    (((hash >> 48u64) as u16) ^ spec_pack_move_data(mv)) as int
}

impl XorSet {
    pub closed spec fn spec_cache(&self) -> Seq<u16> {
        self.cache@
    }

    pub closed spec fn wf(&self) -> bool {
        self.cache.len() == 65536
    }

    pub fn new() -> (r: Self)
        ensures
            r.wf(),
            forall|i: int| 0 <= i < 65536 ==> r.spec_cache()[i] == 0,
    {
        let mut cache: Vec<u16> = Vec::new();
        let mut i: usize = 0;
        while i < 65536
            invariant
                i <= 65536,
                cache.len() == i,
                forall|j: int| 0 <= j < i ==> cache@[j] == 0,
            decreases 65536 - i,
        {
            cache.push(0);
            i += 1;
        }
        Self { cache }
    }

    pub fn insert(&mut self, hash: u64, mv: MoveData)
        requires
            old(self).wf(),
            mv.wf(),
        ensures
            final(self).wf(),
            final(self).spec_cache() == old(self).spec_cache().update(spec_xor_index(hash, mv), spec_pack_move_data(mv)),
    {
        let h = (hash >> 48u64) as u16;
        let value = pack_move_data(mv);
        let index = (h ^ value) as usize;
        self.cache.set(index, value);
    }

    pub fn has(&self, hash: u64, mv: MoveData) -> (r: bool)
        requires
            self.wf(),
            mv.wf(),
        ensures
            r == (self.spec_cache()[spec_xor_index(hash, mv)] == spec_pack_move_data(mv)),
    {
        let h = (hash >> 48u64) as u16;
        let value = pack_move_data(mv);
        let index = (h ^ value) as usize;
        self.cache[index] == value
    }
}

/// A pair just inserted is found.
pub proof fn lemma_insert_then_has(before: XorSet, after: XorSet, hash: u64, mv: MoveData)
    requires
        before.wf(),
        after.spec_cache() == before.spec_cache().update(spec_xor_index(hash, mv), spec_pack_move_data(mv)),
    ensures
        after.spec_cache()[spec_xor_index(hash, mv)] == spec_pack_move_data(mv),
{
}

} // verus!
