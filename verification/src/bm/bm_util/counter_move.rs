use vstd::prelude::*;

use crate::bm::chess_types::{Color, Move, MoveData, Piece, Square};

verus! {

/// A counter move and the depth at which it refuted.
#[derive(Debug, Copy, Clone)]
pub struct Entry {
    pub make_move: Move,
    pub depth: u8,
}

/// For each side to move and (piece, destination) of the previous move, a refuting move.
#[derive(Debug, Clone)]
pub struct CounterMoveTable {
    table: Vec<Option<Entry>>,
}

pub open spec fn spec_cm_index(color: Color, piece: int, to: int) -> int {
    (color.spec_index() * 6 + piece) * 64 + to
}

impl CounterMoveTable {
    pub closed spec fn spec_table(&self) -> Seq<Option<Entry>> {
        self.table@
    }

    pub closed spec fn wf(&self) -> bool {
        self.table.len() == 768
    }

    pub fn new() -> (r: Self)
        ensures
            r.wf(),
            forall|i: int| 0 <= i < 768 ==> r.spec_table()[i] is None,
    {
        let mut table: Vec<Option<Entry>> = Vec::new();
        let mut i: usize = 0;
        while i < 768
            invariant
                i <= 768,
                table.len() == i,
                forall|j: int| 0 <= j < i ==> table@[j] is None,
            decreases 768 - i,
        {
            table.push(None);
            i += 1;
        }
        Self { table }
    }

    pub fn get(&self, color: Color, piece: Piece, to: Square) -> (r: Option<Move>)
        requires
            self.wf(),
            piece < 6,
            to < 64,
        ensures
            r == match self.spec_table()[spec_cm_index(color, piece as int, to as int)] {
                Some(e) => Some(e.make_move),
                None => None,
            },
    {
        match self.table[(color.index() * 6 + piece as usize) * 64 + to as usize] {
            Some(e) => Some(e.make_move),
            None => None,
        }
    }

    /// Records `cutoff_move` as the counter to the previous move; an existing entry is kept
    /// unless three times the new depth (as `u8`) reaches its depth.
    pub fn set(&mut self, side_to_move: Color, prev_move: MoveData, cutoff_move: Move, depth: u32)
        requires
            old(self).wf(),
            prev_move.wf(),
            old(self).spec_table()[spec_cm_index(side_to_move, prev_move.piece as int, prev_move.to as int)] is Some
                ==> (depth as u8) * 3 <= 255,
        ensures
            final(self).wf(),
            ({
                let i = spec_cm_index(side_to_move, prev_move.piece as int, prev_move.to as int);
                let e = Entry { make_move: cutoff_move, depth: depth as u8 };
                final(self).spec_table() == match old(self).spec_table()[i] {
                    Some(o) => if (depth as u8) * 3 >= o.depth {
                        old(self).spec_table().update(i, Some(e))
                    } else {
                        old(self).spec_table()
                    },
                    None => old(self).spec_table().update(i, Some(e)),
                }
            }),
    {
        let entry = Entry { make_move: cutoff_move, depth: depth as u8 };
        let i = (side_to_move.index() * 6 + prev_move.piece as usize) * 64 + prev_move.to as usize;
        match self.table[i] {
            Some(old_entry) => {
                if entry.depth * 3 >= old_entry.depth {
                    self.table.set(i, Some(entry));
                }
            },
            None => {
                self.table.set(i, Some(entry));
            },
        }
    }
}

} // verus!
