use vstd::prelude::*;

use crate::bm::bm_util::c_hist::{for_all_u32, spec_piece_index, wrapping_add_u32};
use crate::bm::chess_types::{Color, Piece, Square};

verus! {

pub const TABLE_SIZE: usize = 9216;

pub open spec fn spec_ch_index(color: Color, piece: int, to: int, captured: int) -> int {
    (spec_piece_index(color, piece) * 64 + to) * 12 + captured
}

/// Capture history: for each capturing piece, destination and captured piece, a count.
#[derive(Debug)]
pub struct CaptureHistoryTable {
    table: Vec<u32>,
}

impl CaptureHistoryTable {
    pub closed spec fn spec_table(&self) -> Seq<u32> {
        self.table@
    }

    pub open spec fn wf(&self) -> bool {
        self.spec_table().len() == TABLE_SIZE
    }

    pub fn new() -> (r: Self)
        ensures
            r.wf(),
            forall|i: int| 0 <= i < TABLE_SIZE ==> r.spec_table()[i] == 0,
    {
        let mut table: Vec<u32> = Vec::new();
        let mut i: usize = 0;
        while i < TABLE_SIZE
            invariant
                i <= TABLE_SIZE,
                table.len() == i,
                forall|j: int| 0 <= j < i ==> table@[j] == 0,
            decreases TABLE_SIZE - i,
        {
            table.push(0);
            i += 1;
        }
        Self { table }
    }

    pub fn get(&self, color: Color, piece: Piece, to: Square, captured: Piece) -> (r: u32)
        requires
            self.wf(),
            piece < 6,
            to < 64,
            captured < 6,
        ensures
            r == self.spec_table()[spec_ch_index(color, piece as int, to as int, captured as int)],
    {
        let pi: usize = match color {
            Color::White => 0,
            Color::Black => 6,
        } + piece as usize;
        self.table[(pi * 64 + to as usize) * 12 + captured as usize]
    }

    /// Adds `amt`, wrapping around `u32`.
    pub fn add(&mut self, color: Color, piece: Piece, to: Square, captured: Piece, amt: u32)
        requires
            old(self).wf(),
            piece < 6,
            to < 64,
            captured < 6,
        ensures
            final(self).wf(),
            ({
                let i = spec_ch_index(color, piece as int, to as int, captured as int);
                final(self).spec_table() == old(self).spec_table().update(i, wrapping_add_u32(old(self).spec_table()[i], amt))
            }),
    {
        let pi: usize = match color {
            Color::White => 0,
            Color::Black => 6,
        } + piece as usize;
        let i = (pi * 64 + to as usize) * 12 + captured as usize;
        let v = self.table[i].wrapping_add(amt);
        self.table.set(i, v);
    }

    /// Replaces every count `x` by `func(x)`.
    pub fn for_all<F: Fn(u32) -> u32>(&mut self, func: F)
        requires
            old(self).wf(),
            forall|x: u32| call_requires(func, (x,)),
        ensures
            final(self).wf(),
            forall|i: int| 0 <= i < TABLE_SIZE ==> call_ensures(func, (old(self).spec_table()[i],), #[trigger] final(self).spec_table()[i]),
    {
        for_all_u32(&mut self.table, func);
    }
}

} // verus!
