use vstd::prelude::*;

use crate::bm::chess_types::Move;

verus! {

/// The two killer moves of a ply, most recent first.
#[derive(Debug, Copy, Clone)]
pub struct MoveEntry {
    moves: [Option<Move>; 2],
}

pub fn opt_move_eq(a: Option<Move>, b: Move) -> (r: bool)
    ensures
        r == (a == Some(b)),
{
    match a {
        Some(m) => m.from == b.from && m.to == b.to && match (m.promotion, b.promotion) {
            (Some(x), Some(y)) => x == y,
            (None, None) => true,
            _ => false,
        },
        None => false,
    }
}

impl MoveEntry {
    pub closed spec fn spec_moves(&self) -> Seq<Option<Move>> {
        self.moves@
    }

    /// There are always two slots.
    pub proof fn lemma_two_slots(&self)
        ensures
            self.spec_moves().len() == 2,
    {
    }

    /// The two killers are never the same move.
    pub open spec fn distinct(&self) -> bool {
        self.spec_moves()[0] is Some ==> self.spec_moves()[0] != self.spec_moves()[1]
    }

    pub fn new() -> (r: Self)
        ensures
            r.spec_moves() == seq![None::<Move>, None::<Move>],
    {
        Self { moves: [None, None] }
    }

    pub fn clear(&mut self)
        ensures
            final(self).spec_moves() == seq![None::<Move>, None::<Move>],
    {
        *self = Self::new();
    }

    /// The index of the move in the killer list, or `None` if it is not a killer.
    pub fn index_of(&self, mv: Move) -> (r: Option<usize>)
        ensures
            r == (if self.spec_moves()[0] == Some(mv) {
                Some(0usize)
            } else if self.spec_moves()[1] == Some(mv) {
                Some(1usize)
            } else {
                None
            }),
    {
        if opt_move_eq(self.moves[0], mv) {
            Some(0)
        } else if opt_move_eq(self.moves[1], mv) {
            Some(1)
        } else {
            None
        }
    }

    pub fn get(&self, index: usize) -> (r: Option<Move>)
        requires
            index < 2,
        ensures
            r == self.spec_moves()[index as int],
    {
        self.moves[index]
    }

    pub fn remove(&mut self, index: usize) -> (r: Option<Move>)
        requires
            index < 2,
        ensures
            r == old(self).spec_moves()[index as int],
            final(self).spec_moves() == old(self).spec_moves().update(index as int, None),
    {
        let m = self.moves[index];
        self.moves[index] = None;
        m
    }

    /// Makes `mv` the most recent killer, dropping the least recent one; a move that is already
    /// the most recent killer is not pushed again.
    pub fn push(&mut self, mv: Move)
        ensures
            old(self).spec_moves()[0] == Some(mv) ==> final(self).spec_moves() == old(self).spec_moves(),
            old(self).spec_moves()[0] != Some(mv) ==> final(self).spec_moves() == seq![
                Some(mv),
                old(self).spec_moves()[0],
            ],
    {
        if opt_move_eq(self.moves[0], mv) {
            return;
        }
        self.moves[1] = self.moves[0];
        self.moves[0] = Some(mv);
        proof {
            assert(self.moves@ =~= seq![Some(mv), old(self).moves@[0]]);
        }
    }

    /// Whether `mv` is one of the killers.
    pub fn contains(&self, mv: Move) -> (r: bool)
        ensures
            r == (self.spec_moves()[0] == Some(mv) || self.spec_moves()[1] == Some(mv)),
    {
        opt_move_eq(self.moves[0], mv) || opt_move_eq(self.moves[1], mv)
    }
}

/// After pushing a move it is a killer, and two distinct killers stay distinct.
pub proof fn lemma_push_keeps_distinct(before: MoveEntry, after: MoveEntry, mv: Move)
    requires
        before.spec_moves().len() == 2,
        before.distinct(),
        before.spec_moves()[0] == Some(mv) ==> after.spec_moves() == before.spec_moves(),
        before.spec_moves()[0] != Some(mv) ==> after.spec_moves() == seq![Some(mv), before.spec_moves()[0]],
    ensures
        after.spec_moves()[0] == Some(mv),
        after.distinct(),
{
}

} // verus!
