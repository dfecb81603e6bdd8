use vstd::prelude::*;

use crate::bm::chess_types::{Color, Piece, Square};

verus! {

pub const PIECE_COUNT: usize = 12;
pub const MAX: u32 = 32768;
pub const TABLE_SIZE: usize = 589824;

/// A piece and the square it moves to.
#[derive(Debug, Copy, Clone)]
pub struct PieceTo {
    pub piece: Piece,
    pub to: Square,
}

pub open spec fn spec_piece_index(color: Color, piece: int) -> int {
    (if color == Color::White { 0int } else { 6int }) + piece
}

pub open spec fn spec_cmh_index(color: Color, piece: int, to: int, c_piece: int, c_to: int) -> int {
    ((spec_piece_index(color, piece) * 64 + to) * 12 + spec_piece_index(color, c_piece)) * 64 + c_to
}

/// `a + b` wrapping around `u32`, as an atomic `fetch_add` does.
pub open spec fn wrapping_add_u32(a: u32, b: u32) -> u32 {
    ((a + b) % 0x1_0000_0000) as u32
}

fn piece_index(color: Color, piece: Piece) -> (r: usize)
    requires
        piece < 6,
    ensures
        r == spec_piece_index(color, piece as int),
        r < 12,
{
    let color_offset: usize = match color {
        Color::White => 0,
        Color::Black => PIECE_COUNT / 2,
    };
    color_offset + piece as usize
}

/// Continuation history: for a move and the move before it (by the same side), a count of
/// how often the pair caused a cutoff, saturating at `MAX`.
#[derive(Debug)]
pub struct CMoveHistoryTable {
    table: Vec<u32>,
}

impl CMoveHistoryTable {
    pub closed spec fn spec_table(&self) -> Seq<u32> {
        self.table@
    }

    pub open spec fn wf(&self) -> bool {
        self.spec_table().len() == TABLE_SIZE
    }

    pub fn new() -> (r: Self)
        ensures
            r.wf(),
            forall|i: int| 0 <= i < TABLE_SIZE ==> r.spec_table()[i] == 0,
    {
        let mut table: Vec<u32> = Vec::new();
        let mut i: usize = 0;
        while i < TABLE_SIZE
            invariant
                i <= TABLE_SIZE,
                table.len() == i,
                forall|j: int| 0 <= j < i ==> table@[j] == 0,
            decreases TABLE_SIZE - i,
        {
            table.push(0);
            i += 1;
        }
        Self { table }
    }

    pub fn get(&self, color: Color, piece: Piece, to: Square, c_piece: Piece, c_to: Square) -> (r: u32)
        requires
            self.wf(),
            piece < 6,
            to < 64,
            c_piece < 6,
            c_to < 64,
        ensures
            r == self.spec_table()[spec_cmh_index(color, piece as int, to as int, c_piece as int, c_to as int)],
    {
        let i = ((piece_index(color, piece) * 64 + to as usize) * 12 + piece_index(color, c_piece)) * 64 + c_to as usize;
        self.table[i]
    }

    /// Adds `amt` (wrapping) and caps the count at `MAX`.
    pub fn add(&mut self, color: Color, piece: Piece, to: Square, c_piece: Piece, c_to: Square, amt: u32)
        requires
            old(self).wf(),
            piece < 6,
            to < 64,
            c_piece < 6,
            c_to < 64,
        ensures
            final(self).wf(),
            ({
                let i = spec_cmh_index(color, piece as int, to as int, c_piece as int, c_to as int);
                let v = wrapping_add_u32(old(self).spec_table()[i], amt);
                final(self).spec_table() == old(self).spec_table().update(i, if v < MAX { v } else { MAX })
            }),
    {
        let i = ((piece_index(color, piece) * 64 + to as usize) * 12 + piece_index(color, c_piece)) * 64 + c_to as usize;
        let v = self.table[i].wrapping_add(amt);
        self.table.set(i, if v < MAX { v } else { MAX });
    }

    /// Replaces every count `x` by `func(x)`.
    pub fn for_all<F: Fn(u32) -> u32>(&mut self, func: F)
        requires
            old(self).wf(),
            forall|x: u32| call_requires(func, (x,)),
        ensures
            final(self).wf(),
            forall|i: int| 0 <= i < TABLE_SIZE ==> call_ensures(func, (old(self).spec_table()[i],), #[trigger] final(self).spec_table()[i]),
    {
        for_all_u32(&mut self.table, func);
    }
}

pub fn for_all_u32<F: Fn(u32) -> u32>(table: &mut Vec<u32>, func: F)
    requires
        forall|x: u32| call_requires(func, (x,)),
    ensures
        final(table).len() == old(table).len(),
        forall|i: int| 0 <= i < old(table).len() ==> call_ensures(func, (old(table)@[i],), #[trigger] final(table)@[i]),
{
    let ghost t0 = table@;
    let n = table.len();
    let mut i: usize = 0;
    while i < n
        invariant
            i <= n,
            n == t0.len(),
            table.len() == n,
            forall|x: u32| call_requires(func, (x,)),
            forall|j: int| 0 <= j < i ==> call_ensures(func, (t0[j],), #[trigger] table@[j]),
            forall|j: int| i <= j < n ==> table@[j] == t0[j],
        decreases n - i,
    {
        let v = func(table[i]);
        table.set(i, v);
        i += 1;
    }
}

} // verus!
