use vstd::prelude::*;

use crate::bm::chess_types::{Move, MoveData};

verus! {

/// For each (piece, destination) of a previous move, the move that refuted it.
#[derive(Debug, Clone)]
pub struct MoveTable {
    table: Vec<Option<Move>>,
}

impl MoveTable {
    pub closed spec fn spec_table(&self) -> Seq<Option<Move>> {
        self.table@
    }

    pub closed spec fn wf(&self) -> bool {
        self.table.len() == 384
    }

    pub fn new() -> (r: Self)
        ensures
            r.wf(),
            forall|i: int| 0 <= i < 384 ==> r.spec_table()[i] is None,
    {
        let mut table: Vec<Option<Move>> = Vec::new();
        let mut i: usize = 0;
        while i < 384
            invariant
                i <= 384,
                table.len() == i,
                forall|j: int| 0 <= j < i ==> table@[j] is None,
            decreases 384 - i,
        {
            table.push(None);
            i += 1;
        }
        Self { table }
    }

    pub fn update(&mut self, prev_move: MoveData, refutation: Move)
        requires
            old(self).wf(),
            prev_move.wf(),
        ensures
            final(self).wf(),
            final(self).spec_table() == old(self).spec_table().update(
                prev_move.piece * 64 + prev_move.to,
                Some(refutation),
            ),
    {
        self.table.set(prev_move.piece as usize * 64 + prev_move.to as usize, Some(refutation));
    }

    pub fn get(&self, prev_move: MoveData) -> (r: Option<Move>)
        requires
            self.wf(),
            prev_move.wf(),
        ensures
            r == self.spec_table()[prev_move.piece * 64 + prev_move.to],
    {
        self.table[prev_move.piece as usize * 64 + prev_move.to as usize]
    }
}

} // verus!
