use crate::bm::cecp::cecp_adapter::{parse_i16, parse_usize, spec_parse_i16, spec_parse_usize};
use crate::bm::chess_types::{bb_has, has, Board, Color, Move};
use vstd::prelude::*;

verus! {

/// The filters of the dataset filter that do not depend on chance.
#[derive(Debug, Clone, Copy)]
pub struct FilterRules {
    /// Positions before this ply are dropped.
    pub min_ply: usize,
    /// Positions after this ply are dropped.
    pub max_ply: Option<usize>,
    /// Positions whose score is larger than this in magnitude are dropped.
    pub max_eval: i16,
    /// Drop positions whose best move captures.
    pub filter_cap: bool,
    /// Drop positions where the side to move is in check.
    pub filter_in_check: bool,
    /// Drop positions whose best move promotes.
    pub filter_promo: bool,
    /// Drop positions whose best move gives check.
    pub filter_gives_check: bool,
}

/// The best move lands on a piece of the side not to move.
pub open spec fn spec_is_capture(board: Board, mv: Move) -> bool {
    bb_has(board.colors[board.side_to_move.spec_opp().spec_index()], mv.to as int)
}

/// Whether a position passes every filter that does not depend on chance.
pub open spec fn spec_keep(rules: FilterRules, board: Board, mv: Move, eval: i16, ply: usize, gives_check: bool) -> bool {
    let max_ply = match rules.max_ply {
        Some(m) => m as int,
        None => usize::MAX as int,
    };
    let magnitude = if eval < 0 { -eval } else { eval as int };
    &&& rules.min_ply <= ply <= max_ply
    &&& magnitude <= rules.max_eval
    &&& !(rules.filter_promo && mv.promotion.is_some())
    &&& !(rules.filter_in_check && board.checkers != 0)
    &&& !(rules.filter_gives_check && gives_check)
    &&& !(rules.filter_cap && spec_is_capture(board, mv))
}

/// Switching on one more filter never keeps a position that was dropped: every position
/// kept under the stricter rules is kept under the looser ones.
pub proof fn lemma_more_filters_keep_less(
    loose: FilterRules,
    strict: FilterRules,
    board: Board,
    mv: Move,
    eval: i16,
    ply: usize,
    gives_check: bool,
)
    requires
        strict.min_ply >= loose.min_ply,
        loose.max_ply is None || (strict.max_ply matches Some(m) && m <= loose.max_ply->0),
        strict.max_eval <= loose.max_eval,
        loose.filter_cap ==> strict.filter_cap,
        loose.filter_in_check ==> strict.filter_in_check,
        loose.filter_promo ==> strict.filter_promo,
        loose.filter_gives_check ==> strict.filter_gives_check,
    ensures
        spec_keep(strict, board, mv, eval, ply, gives_check) ==> spec_keep(loose, board, mv, eval, ply, gives_check),
{
}

/// The score filter looks only at the size of the score: a score and its negation are
/// kept or dropped alike, every position whose score is larger than `max_eval` in size is
/// dropped, and so is every position outside the ply window, a promoting best move under
/// the promotion filter, a position in check under the in-check filter, a checking best
/// move under the gives-check filter and a capturing best move under the capture filter.
pub proof fn lemma_keep_drops(rules: FilterRules, board: Board, mv: Move, eval: i16, ply: usize, gives_check: bool)
    requires
        eval != i16::MIN,
    ensures
        spec_keep(rules, board, mv, eval, ply, gives_check) == spec_keep(rules, board, mv, (-eval) as i16, ply, gives_check),
        (eval > rules.max_eval || eval < -rules.max_eval) ==> !spec_keep(rules, board, mv, eval, ply, gives_check),
        ply < rules.min_ply ==> !spec_keep(rules, board, mv, eval, ply, gives_check),
        (rules.max_ply matches Some(m) && ply > m) ==> !spec_keep(rules, board, mv, eval, ply, gives_check),
        (rules.filter_promo && mv.promotion is Some) ==> !spec_keep(rules, board, mv, eval, ply, gives_check),
        (rules.filter_in_check && board.checkers != 0) ==> !spec_keep(rules, board, mv, eval, ply, gives_check),
        (rules.filter_gives_check && gives_check) ==> !spec_keep(rules, board, mv, eval, ply, gives_check),
        (rules.filter_cap && bb_has(board.colors[board.side_to_move.spec_opp().spec_index()], mv.to as int))
            ==> !spec_keep(rules, board, mv, eval, ply, gives_check),
{
}

/// With every switch off and the ply window open, a position is kept exactly when its
/// score is at most `max_eval` in size.
pub proof fn lemma_keep_open_rules(max_eval: i16, board: Board, mv: Move, eval: i16, ply: usize, gives_check: bool)
    requires
        eval != i16::MIN,
    ensures
        spec_keep(
            FilterRules {
                min_ply: 0,
                max_ply: None,
                max_eval,
                filter_cap: false,
                filter_in_check: false,
                filter_promo: false,
                filter_gives_check: false,
            },
            board,
            mv,
            eval,
            ply,
            gives_check,
        ) == (-max_eval <= eval <= max_eval),
{
}

impl FilterRules {
    /// Decides whether a dataset position is kept: `board` is the position, `mv` the best
    /// move found, `eval` its score, `ply` its ply in the game, and `gives_check` whether
    /// `mv` gives check.
    pub fn keep(&self, board: &Board, mv: &Move, eval: i16, ply: usize, gives_check: bool) -> (r: bool)
        requires
            eval != i16::MIN,
            mv.to < 64,
        ensures
            r == spec_keep(*self, *board, *mv, eval, ply, gives_check),
    {
        let max_ply = match self.max_ply {
            Some(m) => m,
            None => usize::MAX,
        };
        if ply < self.min_ply || ply > max_ply {
            return false;
        }
        let magnitude: i16 = if eval < 0 {
            -eval
        } else {
            eval
        };
        if magnitude > self.max_eval {
            return false;
        }
        if self.filter_promo && mv.promotion.is_some() {
            return false;
        }
        if self.filter_in_check && board.checkers != 0 {
            return false;
        }
        if self.filter_gives_check && gives_check {
            return false;
        }
        if self.filter_cap && has(board.colors(board.side_to_move.opp()), mv.to) {
            return false;
        }
        true
    }
}

/// The separator ` | ` of the dataset's fields starts at `j`.
pub open spec fn delim_at(s: Seq<u8>, j: int) -> bool {
    0 <= j && j + 3 <= s.len() && s[j] == 32 && s[j + 1] == 124 && s[j + 2] == 32
}

/// The first separator from `i` on, or the length.
pub open spec fn next_delim(s: Seq<u8>, i: int) -> int
    decreases s.len() - i,
{
    if i >= s.len() {
        s.len() as int
    } else if delim_at(s, i) {
        i
    } else {
        next_delim(s, i + 1)
    }
}

/// The start and end of field `k` of a line split at ` | `, if the line has that many.
pub open spec fn field(s: Seq<u8>, k: nat) -> Option<(int, int)>
    decreases k,
{
    if k == 0 {
        Some((0, next_delim(s, 0)))
    } else {
        match field(s, (k - 1) as nat) {
            Some((_, e)) => if e < s.len() {
                Some((e + 3, next_delim(s, e + 3)))
            } else {
                None
            },
            None => None,
        }
    }
}

pub open spec fn field_text(s: Seq<u8>, k: nat) -> Seq<u8> {
    match field(s, k) {
        Some((a, e)) => s.subrange(a, e),
        None => Seq::empty(),
    }
}

/// One line of the dataset, `fen | eval | wdl | move | ply`, as text and numbers.
#[derive(Debug, Clone, PartialEq, Eq)]
pub struct DataLine {
    pub fen: Vec<u8>,
    pub eval: i16,
    pub wdl: Vec<u8>,
    pub mv: Vec<u8>,
    pub ply: usize,
}

/// A line is read when it has five fields and the score and ply are numbers (an `i16` and
/// a `usize`); fields after the fifth are ignored.
pub open spec fn line_ok(s: Seq<u8>) -> bool {
    &&& field(s, 4) is Some
    &&& spec_parse_i16(field_text(s, 1)) is Some
    &&& spec_parse_usize(field_text(s, 4)) is Some
}

proof fn lemma_next_delim_bound(s: Seq<u8>, i: int)
    requires
        0 <= i <= s.len(),
    ensures
        i <= next_delim(s, i) <= s.len(),
        next_delim(s, i) < s.len() ==> delim_at(s, next_delim(s, i)),
    decreases s.len() - i,
{
    if i < s.len() && !delim_at(s, i) {
        lemma_next_delim_bound(s, i + 1);
    }
}

proof fn lemma_field_bounds(s: Seq<u8>, k: nat)
    ensures
        field(s, k) matches Some((a, e)) ==> 0 <= a <= e <= s.len() && (e < s.len() ==> delim_at(s, e)),
    decreases k,
{
    lemma_next_delim_bound(s, 0);
    if k > 0 {
        lemma_field_bounds(s, (k - 1) as nat);
        if let Some((_, e)) = field(s, (k - 1) as nat) {
            if e < s.len() {
                lemma_next_delim_bound(s, e + 3);
            }
        }
    }
}

fn find_delim(s: &[u8], i: usize) -> (r: usize)
    requires
        i <= s@.len(),
    ensures
        r == next_delim(s@, i as int),
{
    let mut j = i;
    while j < s.len() && !(s.len() - j >= 3 && s[j] == 32 && s[j + 1] == 124 && s[j + 2] == 32)
        invariant
            i <= j <= s@.len(),
            next_delim(s@, i as int) == next_delim(s@, j as int),
        decreases s@.len() - j,
    {
        j += 1;
    }
    j
}

fn copy_range(s: &[u8], a: usize, e: usize) -> (r: Vec<u8>)
    requires
        a <= e <= s@.len(),
    ensures
        r@ == s@.subrange(a as int, e as int),
{
    let mut out: Vec<u8> = Vec::new();
    let mut k = a;
    while k < e
        invariant
            a <= k <= e <= s@.len(),
            out@ == s@.subrange(a as int, k as int),
        decreases e - k,
    {
        out.push(s[k]);
        k += 1;
    }
    out
}

/// Reads a line of the dataset; `None` when it is not `fen | eval | wdl | move | ply` with
/// the score and ply as numbers.
pub fn parse_data_line(line: &[u8]) -> (r: Option<DataLine>)
    ensures
        r is Some <==> line_ok(line@),
        r matches Some(d) ==> {
            &&& d.fen@ == field_text(line@, 0)
            &&& spec_parse_i16(field_text(line@, 1)) == Some(d.eval)
            &&& d.wdl@ == field_text(line@, 2)
            &&& d.mv@ == field_text(line@, 3)
            &&& spec_parse_usize(field_text(line@, 4)) == Some(d.ply)
        },
{
    let ghost s = line@;
    proof {
        lemma_field_bounds(s, 0);
        lemma_field_bounds(s, 1);
        lemma_field_bounds(s, 2);
        lemma_field_bounds(s, 3);
        lemma_field_bounds(s, 4);
    }
    let n = line.len();
    let e0 = find_delim(line, 0);
    assert(field(s, 0) == Some((0int, e0 as int)));
    if e0 >= n {
        return None;
    }
    let a1 = e0 + 3;
    let e1 = find_delim(line, a1);
    assert(field(s, 1) == Some((a1 as int, e1 as int)));
    if e1 >= n {
        return None;
    }
    let a2 = e1 + 3;
    let e2 = find_delim(line, a2);
    assert(field(s, 2) == Some((a2 as int, e2 as int)));
    if e2 >= n {
        return None;
    }
    let a3 = e2 + 3;
    let e3 = find_delim(line, a3);
    assert(field(s, 3) == Some((a3 as int, e3 as int)));
    if e3 >= n {
        return None;
    }
    let a4 = e3 + 3;
    let e4 = find_delim(line, a4);
    assert(field(s, 4) == Some((a4 as int, e4 as int)));
    let eval = match parse_i16(line, a1, e1) {
        Some(v) => v,
        None => {
            return None;
        },
    };
    let ply = match parse_usize(line, a4, e4) {
        Some(v) => v,
        None => {
            return None;
        },
    };
    Some(DataLine {
        fen: copy_range(line, 0, e0),
        eval,
        wdl: copy_range(line, a2, e2),
        mv: copy_range(line, a3, e3),
        ply,
    })
}

/// Names the board that `cozy_chess::Board::from_str` reads from a FEN text (`None` for a
/// text it refuses).
pub uninterp spec fn cozy_fen_board(fen: Seq<u8>) -> Option<Board>;

/// Names the move that `cozy_chess::Move::from_str` reads from a text in coordinate
/// notation (`None` for a text it refuses).
pub uninterp spec fn cozy_move(text: Seq<u8>) -> Option<Move>;

/// Names whether the move gives check, as `cozy_chess::Board::try_play` plays it on the
/// board that `cozy_chess::Board::from_str` reads from the FEN text (`None` for a text it
/// refuses or a move that is illegal there).
pub uninterp spec fn cozy_gives_check(fen: Seq<u8>, mv: Move) -> Option<bool>;

/// Calls `cozy_chess::Board::from_str` on the FEN text (taken as UTF-8; a text that is not
/// UTF-8 gives `None`) and converts the board it reads: pieces, colors, side to move, the
/// crate's hash, the checkers and the halfmove clock. The contract only names the result:
/// which texts the parser accepts and which board each gives is left to the outside crate.
#[verifier::external_body]
fn cozy_board_from_fen(fen: &[u8]) -> (r: Option<Board>)
    ensures
        r == cozy_fen_board(fen@),
{
    let b: cozy_chess::Board = std::str::from_utf8(fen).ok()?.parse().ok()?;
    let side_to_move = match b.side_to_move() {
        cozy_chess::Color::White => Color::White,
        cozy_chess::Color::Black => Color::Black,
    };
    Some(Board {
        pieces: cozy_chess::Piece::ALL.map(|k| b.pieces(k).0),
        colors: cozy_chess::Color::ALL.map(|k| b.colors(k).0),
        side_to_move,
        hash: b.hash(),
        checkers: b.checkers().0,
        halfmove_clock: b.halfmove_clock(),
    })
}

/// Calls `cozy_chess::Move::from_str` on the text (taken as UTF-8) and converts the move:
/// squares as indices, a promotion piece as its index. The contract names the result and
/// states that a move it reads is well formed (its squares and piece are enum values).
#[verifier::external_body]
fn cozy_parse_move(text: &[u8]) -> (r: Option<Move>)
    ensures
        r == cozy_move(text@),
        r matches Some(m) ==> m.wf(),
{
    let m: cozy_chess::Move = std::str::from_utf8(text).ok()?.parse().ok()?;
    Some(Move { from: m.from as u8, to: m.to as u8, promotion: m.promotion.map(|p| p as u8) })
}

/// Reads the FEN text with `cozy_chess::Board::from_str`, plays the move with
/// `cozy_chess::Board::try_play` and tells whether the side to move is then in check
/// (`checkers` not empty). The position is read again from the text because the library's
/// board does not hold castling rights or the en-passant file, which the move's legality
/// and effect depend on. The contract only names the result.
#[verifier::external_body]
fn check_after_move(fen: &[u8], mv: &Move) -> (r: Option<bool>)
    requires
        mv.wf(),
    ensures
        r == cozy_gives_check(fen@, *mv),
{
    let mut b: cozy_chess::Board = std::str::from_utf8(fen).ok()?.parse().ok()?;
    let promotion = mv.promotion.map(|p| cozy_chess::Piece::index(p as usize));
    let from = cozy_chess::Square::index(mv.from as usize);
    let to = cozy_chess::Square::index(mv.to as usize);
    b.try_play(cozy_chess::Move { from, to, promotion }).ok()?;
    Some(!b.checkers().is_empty())
}

/// The rules with the gives-check and capture filters switched off: the filters that the
/// dataset filter applies before it plays the move.
pub open spec fn early_rules(rules: FilterRules) -> FilterRules {
    FilterRules { filter_gives_check: false, filter_cap: false, ..rules }
}

/// What the dataset filter decides of one line: `None` where it stops (a line that does
/// not read as `fen | eval | wdl | move | ply`, a FEN or move that does not parse, a score
/// whose magnitude does not fit, or a move that is illegal where it has to be played to
/// see whether it gives check); else whether the position is kept. The move is played
/// only when the gives-check filter is on and the position passed the earlier filters.
pub open spec fn spec_filter_line(line: Seq<u8>, rules: FilterRules) -> Option<bool> {
    let fen = field_text(line, 0);
    if !line_ok(line) {
        None
    } else {
        let eval = spec_parse_i16(field_text(line, 1))->0;
        let ply = spec_parse_usize(field_text(line, 4))->0;
        match (cozy_fen_board(fen), cozy_move(field_text(line, 3))) {
            (Some(board), Some(mv)) => if eval == i16::MIN {
                None
            } else if !spec_keep(early_rules(rules), board, mv, eval, ply, false) {
                Some(false)
            } else if rules.filter_gives_check {
                match cozy_gives_check(fen, mv) {
                    Some(g) => Some(spec_keep(rules, board, mv, eval, ply, g)),
                    None => None,
                }
            } else {
                Some(spec_keep(rules, board, mv, eval, ply, false))
            },
            _ => None,
        }
    }
}

/// Reads one dataset line and applies the filters that do not depend on chance: the line's
/// fields and whether the position is kept, or `None` where the filter stops (see
/// [spec_filter_line]).
pub fn filter_line(line: &[u8], rules: &FilterRules) -> (r: Option<(DataLine, bool)>)
    ensures
        r is Some <==> spec_filter_line(line@, *rules) is Some,
        r matches Some((d, keep)) ==> {
            &&& spec_filter_line(line@, *rules) == Some(keep)
            &&& d.fen@ == field_text(line@, 0)
            &&& spec_parse_i16(field_text(line@, 1)) == Some(d.eval)
            &&& d.wdl@ == field_text(line@, 2)
            &&& d.mv@ == field_text(line@, 3)
            &&& spec_parse_usize(field_text(line@, 4)) == Some(d.ply)
        },
{
    let data = match parse_data_line(line) {
        Some(d) => d,
        None => {
            return None;
        },
    };
    let board = match cozy_board_from_fen(data.fen.as_slice()) {
        Some(b) => b,
        None => {
            return None;
        },
    };
    let mv = match cozy_parse_move(data.mv.as_slice()) {
        Some(m) => m,
        None => {
            return None;
        },
    };
    if data.eval == i16::MIN {
        return None;
    }
    let early = FilterRules { filter_gives_check: false, filter_cap: false, ..*rules };
    if !early.keep(&board, &mv, data.eval, data.ply, false) {
        return Some((data, false));
    }
    let gives_check = if rules.filter_gives_check {
        match check_after_move(data.fen.as_slice(), &mv) {
            Some(g) => g,
            None => {
                return None;
            },
        }
    } else {
        false
    };
    let keep = rules.keep(&board, &mv, data.eval, data.ply, gives_check);
    Some((data, keep))
}

} // verus!
