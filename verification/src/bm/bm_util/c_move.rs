use vstd::prelude::*;

use crate::bm::bm_util::c_hist::spec_piece_index;
use crate::bm::chess_types::{Color, Move, Piece, Square};

verus! {

/// For each side, piece and destination of the previous move, the last move that refuted it.
#[derive(Debug)]
pub struct CounterMoveTable {
    table: Vec<Option<Move>>,
}

impl CounterMoveTable {
    pub closed spec fn spec_table(&self) -> Seq<Option<Move>> {
        self.table@
    }

    pub open spec fn wf(&self) -> bool {
        self.spec_table().len() == 768
    }

    pub fn new() -> (r: Self)
        ensures
            r.wf(),
            forall|i: int| 0 <= i < 768 ==> r.spec_table()[i] is None,
    {
        let mut table: Vec<Option<Move>> = Vec::new();
        let mut i: usize = 0;
        while i < 768
            invariant
                i <= 768,
                table.len() == i,
                forall|j: int| 0 <= j < i ==> table@[j] is None,
            decreases 768 - i,
        {
            table.push(None);
            i += 1;
        }
        Self { table }
    }

    pub fn get(&self, color: Color, piece: Piece, to: Square) -> (r: Option<Move>)
        requires
            self.wf(),
            piece < 6,
            to < 64,
        ensures
            r == self.spec_table()[spec_piece_index(color, piece as int) * 64 + to],
    {
        let pi: usize = match color {
            Color::White => 0,
            Color::Black => 6,
        } + piece as usize;
        self.table[pi * 64 + to as usize]
    }

    pub fn add(&mut self, color: Color, piece: Piece, to: Square, make_move: Move)
        requires
            old(self).wf(),
            piece < 6,
            to < 64,
        ensures
            final(self).wf(),
            final(self).spec_table() == old(self).spec_table().update(
                spec_piece_index(color, piece as int) * 64 + to,
                Some(make_move),
            ),
    {
        let pi: usize = match color {
            Color::White => 0,
            Color::Black => 6,
        } + piece as usize;
        self.table.set(pi * 64 + to as usize, Some(make_move));
    }

    pub fn clear(&mut self)
        requires
            old(self).wf(),
        ensures
            final(self).wf(),
            forall|i: int| 0 <= i < 768 ==> final(self).spec_table()[i] is None,
    {
        let mut i: usize = 0;
        while i < 768
            invariant
                i <= 768,
                self.table.len() == 768,
                forall|j: int| 0 <= j < i ==> self.table@[j] is None,
            decreases 768 - i,
        {
            self.table.set(i, None);
            i += 1;
        }
    }
}

} // verus!
