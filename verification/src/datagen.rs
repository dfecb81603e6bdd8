use crate::bm::bm_util::eval::Evaluation;
use crate::bm::chess_types::Color;
use vstd::prelude::*;

verus! {

/// The state of a self-play game, as the position says it.
#[derive(Debug, Clone, Copy, PartialEq, Eq)]
pub enum GameStatus {
    /// The side to move is checkmated.
    Won,
    Drawn,
    Ongoing,
}

/// The result of a finished game, from white's side.
#[derive(Debug, Clone, Copy, PartialEq, Eq)]
pub enum GameResult {
    /// Black won (recorded as 0).
    Loss,
    /// Recorded as 0.5.
    Draw,
    /// White won (recorded as 1).
    Win,
}

/// The bookkeeping of one self-play game.
#[derive(Debug, Clone, Copy, PartialEq, Eq)]
pub struct GameProgress {
    /// Plies played so far.
    pub ply: usize,
    /// Consecutive searched plies, from ply 80 on, whose score was exactly 0.
    pub draw_cnt: u32,
}

/// What happens at the start of a ply.
#[derive(Debug, Clone, Copy, PartialEq, Eq)]
pub enum PlyAction {
    /// The game is over with this result.
    Finish(GameResult),
    /// Play a random legal move (the opening is randomised).
    RandomMove,
    /// Search the position (or, by chance, play a random move).
    Search,
}

/// The plies at which the score counts toward a draw adjudication.
pub const ADJUDICATION_PLY: usize = 80;

/// The number of zero scores in a row that adjudicates a draw.
pub const ADJUDICATION_COUNT: u32 = 8;

impl GameProgress {
    pub fn new() -> (r: Self)
        ensures
            r.ply == 0,
            r.draw_cnt == 0,
    {
        GameProgress { ply: 0, draw_cnt: 0 }
    }

    /// The action at the current ply: a checkmate ends the game with a win for the side
    /// that just moved (white when the ply is odd), a draw ends it drawn, and otherwise the
    /// first `random_plies` plies are random.
    pub fn next_action(&self, status: GameStatus, random_plies: usize) -> (r: PlyAction)
        ensures
            status == GameStatus::Won ==> r == PlyAction::Finish(
                if self.ply % 2 == 1 { GameResult::Win } else { GameResult::Loss },
            ),
            status == GameStatus::Drawn ==> r == PlyAction::Finish(GameResult::Draw),
            status == GameStatus::Ongoing ==> r == (if self.ply < random_plies {
                PlyAction::RandomMove
            } else {
                PlyAction::Search
            }),
    {
        match status {
            GameStatus::Won => PlyAction::Finish(
                if self.ply % 2 == 1 {
                    GameResult::Win
                } else {
                    GameResult::Loss
                },
            ),
            GameStatus::Drawn => PlyAction::Finish(GameResult::Draw),
            GameStatus::Ongoing => if self.ply < random_plies {
                PlyAction::RandomMove
            } else {
                PlyAction::Search
            },
        }
    }

    /// Counts a searched score: a zero score from ply 80 on extends the run of zeros,
    /// any other score ends it.
    pub fn record_search(&mut self, eval: Evaluation)
        requires
            old(self).draw_cnt < u32::MAX,
        ensures
            final(self).ply == old(self).ply,
            final(self).draw_cnt == (if eval@ == 0 && old(self).ply >= ADJUDICATION_PLY {
                old(self).draw_cnt + 1
            } else {
                0
            }),
    {
        if eval.raw() == 0 && self.ply >= ADJUDICATION_PLY {
            self.draw_cnt = self.draw_cnt + 1;
        } else {
            self.draw_cnt = 0;
        }
    }

    /// After a move is played: the game is a draw when the position is a forced draw, or
    /// when adjudication is on and eight zero scores came in a row.
    pub fn play(&mut self, forced_draw: bool, draw_adj: bool) -> (r: bool)
        requires
            old(self).ply < usize::MAX,
        ensures
            final(self).ply == old(self).ply + 1,
            final(self).draw_cnt == old(self).draw_cnt,
            r == (forced_draw || (draw_adj && old(self).draw_cnt >= ADJUDICATION_COUNT)),
    {
        self.ply = self.ply + 1;
        forced_draw || (draw_adj && self.draw_cnt >= ADJUDICATION_COUNT)
    }
}

/// The score that is recorded for a searched position: the engine's score, which is from
/// the side to move, turned to white's side.
pub fn white_relative(eval: Evaluation, side_to_move: Color) -> (r: Evaluation)
    requires
        side_to_move == Color::Black ==> eval@ != i16::MIN,
    ensures
        r@ == (match side_to_move {
            Color::White => eval@ as int,
            Color::Black => -eval@,
        }),
{
    match side_to_move {
        Color::White => eval.mul_i16(1),
        Color::Black => eval.mul_i16(-1),
    }
}

} // verus!
