use vstd::prelude::*;

use crate::bm::chess_types::{Color, Piece, Square};

verus! {

/// Running average of evaluation changes with weight 1/10 for each new sample.
pub open spec fn spec_avg_add(sum: i16, rhs: i16) -> i16 {
    let n = sum * 9 + rhs;
    (if n >= 0 { n / 10 } else { -((-n) / 10) }) as i16
}

/// For each color, piece and destination square, the average evaluation change of moves there.
#[derive(Debug, Clone)]
pub struct EvalTable {
    table: Vec<i16>,
}

pub open spec fn spec_eval_table_index(color: Color, piece: int, to: int) -> int {
    (color.spec_index() * 6 + piece) * 64 + to
}

impl EvalTable {
    pub closed spec fn spec_table(&self) -> Seq<i16> {
        self.table@
    }

    pub closed spec fn wf(&self) -> bool {
        self.table.len() == 768
    }

    pub fn new() -> (r: Self)
        ensures
            r.wf(),
            forall|i: int| 0 <= i < 768 ==> r.spec_table()[i] == 0,
    {
        let mut table: Vec<i16> = Vec::new();
        let mut i: usize = 0;
        while i < 768
            invariant
                i <= 768,
                table.len() == i,
                forall|j: int| 0 <= j < i ==> table@[j] == 0,
            decreases 768 - i,
        {
            table.push(0);
            i += 1;
        }
        Self { table }
    }

    pub fn add(&mut self, color: Color, piece: Piece, to: Square, eval_diff: i16)
        requires
            old(self).wf(),
            piece < 6,
            to < 64,
        ensures
            final(self).wf(),
            final(self).spec_table() == old(self).spec_table().update(
                spec_eval_table_index(color, piece as int, to as int),
                spec_avg_add(old(self).spec_table()[spec_eval_table_index(color, piece as int, to as int)], eval_diff),
            ),
    {
        let i = (color.index() * 6 + piece as usize) * 64 + to as usize;
        let sum = self.table[i];
        let n: i32 = sum as i32 * 9 + eval_diff as i32;
        let q: i32 = n / 10;
        assert(i16::MIN <= q <= i16::MAX);
        self.table.set(i, q as i16);
    }

    pub fn get(&self, color: Color, piece: Piece, to: Square) -> (r: i16)
        requires
            self.wf(),
            piece < 6,
            to < 64,
        ensures
            r == self.spec_table()[spec_eval_table_index(color, piece as int, to as int)],
    {
        self.table[(color.index() * 6 + piece as usize) * 64 + to as usize]
    }
}

/// The running average stays between the old average and the new sample.
pub proof fn lemma_avg_between(sum: i16, rhs: i16)
    ensures
        (if sum <= rhs { sum } else { rhs }) <= spec_avg_add(sum, rhs) <= (if sum <= rhs { rhs } else { sum }),
{
}

} // verus!
