use crate::bm::bitboard::group_bb;
use crate::bm::bm_eval::eval_parts::{has_kings, king_of, king_sq};
use crate::bm::chess_types::{bb_has, has, BitBoard, Board, Color, Move, Piece, Square, KING, PAWN, ROOK};
use vstd::prelude::*;

verus! {

broadcast use group_bb;

/// The accumulated first-layer values of both perspectives.
#[derive(Debug, Clone)]
pub struct Accumulator {
    pub w_acc: Vec<i16>,
    pub b_acc: Vec<i16>,
}

pub open spec fn spec_flip_rank(sq: int) -> int {
    (7 - sq / 8) * 8 + sq % 8
}

pub open spec fn spec_flip_file(sq: int) -> int {
    (sq / 8) * 8 + (7 - sq % 8)
}

/// Kings are indexed by file first: `file * 8 + rank`.
pub open spec fn spec_king_to_index(sq: int) -> int {
    (sq % 8) * 8 + sq / 8
}

/// King and square seen from `perspective` (black mirrors the ranks), then mirrored across
/// the files when the king stands on the E to H files.
pub open spec fn oriented(perspective: Color, king: int, square: int) -> (int, int) {
    let (k, s) = match perspective {
        Color::White => (king, square),
        Color::Black => (spec_flip_rank(king), spec_flip_rank(square)),
    };
    if k % 8 > 3 {
        (spec_flip_file(k), spec_flip_file(s))
    } else {
        (k, s)
    }
}

/// The input feature of a piece (kinds 0 to 5) or of a threat (kind 6) of `color` on
/// `square`, seen from `perspective` with its king on `king`.
#[verifier::opaque]
pub open spec fn spec_feature(perspective: Color, king: int, color: Color, kind: int, square: int) -> int {
    let (k, s) = oriented(perspective, king, square);
    let c = match perspective {
        Color::White => color.spec_index(),
        Color::Black => color.spec_opp().spec_index(),
    };
    ((spec_king_to_index(k) * 2 + c) * 7 + kind) * 64 + s
}

fn king_to_index(sq: Square) -> (r: usize)
    requires
        sq < 64,
    ensures
        r == spec_king_to_index(sq as int),
        r < 64,
{
    ((sq % 8) as usize) * 8 + (sq / 8) as usize
}

fn flip_rank(sq: Square) -> (r: Square)
    requires
        sq < 64,
    ensures
        r == spec_flip_rank(sq as int),
        r < 64,
{
    (7 - sq / 8) * 8 + sq % 8
}

fn flip_file(sq: Square) -> (r: Square)
    requires
        sq < 64,
    ensures
        r == spec_flip_file(sq as int),
        r < 64,
        r % 8 == 7 - sq % 8,
{
    (sq / 8) * 8 + (7 - sq % 8)
}

fn orient(perspective: Color, king: Square, square: Square) -> (r: (Square, Square))
    requires
        king < 64,
        square < 64,
    ensures
        (r.0 as int, r.1 as int) == oriented(perspective, king as int, square as int),
        r.0 < 64,
        r.1 < 64,
        r.0 % 8 <= 3,
{
    let (king, square) = match perspective {
        Color::White => (king, square),
        Color::Black => (flip_rank(king), flip_rank(square)),
    };
    if king % 8 > 3 {
        (flip_file(king), flip_file(square))
    } else {
        (king, square)
    }
}

fn feature(perspective: Color, king: Square, color: Color, kind: u8, square: Square) -> (r: usize)
    requires
        king < 64,
        square < 64,
        kind <= 6,
    ensures
        r == spec_feature(perspective, king as int, color, kind as int, square as int),
        r < 32 * 2 * 7 * 64,
{
    proof {
        reveal(spec_feature);
    }
    let (king, square) = orient(perspective, king, square);
    let color = match perspective {
        Color::White => color,
        Color::Black => color.opp(),
    };
    let ki = king_to_index(king);
    assert(ki < 32);
    let mut index: usize = 0;
    index = index * 64 / 2 + ki;
    index = index * 2 + color.index();
    index = index * 7 + kind as usize;
    index = index * 64 + square as usize;
    index
}

/// The feature of a piece of kind `piece` and color `color` on `square`.
pub fn halfka_feature(perspective: Color, king: Square, color: Color, piece: Piece, square: Square) -> (r: usize)
    requires
        king < 64,
        square < 64,
        piece < 6,
    ensures
        r == spec_feature(perspective, king as int, color, piece as int, square as int),
{
    feature(perspective, king, color, piece, square)
}

/// The feature of a threat against the pieces of `color` on `square`.
pub fn threat_feature(perspective: Color, king: Square, color: Color, square: Square) -> (r: usize)
    requires
        king < 64,
        square < 64,
    ensures
        r == spec_feature(perspective, king as int, color, 6, square as int),
{
    feature(perspective, king, color, 6, square)
}

/// The features to add and to remove for each perspective.
#[derive(Debug, Clone)]
pub struct FeatureUpdates {
    pub w_add: Vec<usize>,
    pub b_add: Vec<usize>,
    pub w_rm: Vec<usize>,
    pub b_rm: Vec<usize>,
}

impl FeatureUpdates {
    pub fn new() -> (r: Self)
        ensures
            r.w_add@ == Seq::<usize>::empty(),
            r.b_add@ == Seq::<usize>::empty(),
            r.w_rm@ == Seq::<usize>::empty(),
            r.b_rm@ == Seq::<usize>::empty(),
    {
        FeatureUpdates { w_add: Vec::new(), b_add: Vec::new(), w_rm: Vec::new(), b_rm: Vec::new() }
    }

    pub open spec fn adds(&self, perspective: Color) -> Seq<usize> {
        match perspective {
            Color::White => self.w_add@,
            Color::Black => self.b_add@,
        }
    }

    pub open spec fn rms(&self, perspective: Color) -> Seq<usize> {
        match perspective {
            Color::White => self.w_rm@,
            Color::Black => self.b_rm@,
        }
    }

    /// Queues the feature `index` of `perspective` to be added (`incr`) or removed.
    pub fn update(&mut self, incr: bool, index: usize, perspective: Color)
        ensures
            final(self).adds(perspective) == if incr {
                old(self).adds(perspective).push(index)
            } else {
                old(self).adds(perspective)
            },
            final(self).rms(perspective) == if !incr {
                old(self).rms(perspective).push(index)
            } else {
                old(self).rms(perspective)
            },
            final(self).adds(perspective.spec_opp()) == old(self).adds(perspective.spec_opp()),
            final(self).rms(perspective.spec_opp()) == old(self).rms(perspective.spec_opp()),
    {
        match (incr, perspective) {
            (true, Color::White) => self.w_add.push(index),
            (true, Color::Black) => self.b_add.push(index),
            (false, Color::White) => self.w_rm.push(index),
            (false, Color::Black) => self.b_rm.push(index),
        }
    }

    pub fn clear(&mut self)
        ensures
            final(self).w_add@ == Seq::<usize>::empty(),
            final(self).b_add@ == Seq::<usize>::empty(),
            final(self).w_rm@ == Seq::<usize>::empty(),
            final(self).b_rm@ == Seq::<usize>::empty(),
    {
        self.w_add.clear();
        self.b_add.clear();
        self.w_rm.clear();
        self.b_rm.clear();
    }
}

/// The threat features of the squares `sq < n` of `bb`, in square order, for threats
/// against `color`.
pub open spec fn threat_seq(perspective: Color, king: int, bb: u64, color: Color, n: int) -> Seq<usize>
    decreases n,
{
    if n <= 0 {
        Seq::empty()
    } else {
        let prev = threat_seq(perspective, king, bb, color, n - 1);
        if bb_has(bb, n - 1) {
            prev.push(spec_feature(perspective, king, color, 6, n - 1) as usize)
        } else {
            prev
        }
    }
}

/// Queues, for `perspective`, the threat features that appear (`new` but not `old`) and
/// those that go (`old` but not `new`), in square order.
fn threat_updates(
    updates: &mut FeatureUpdates,
    perspective: Color,
    king: Square,
    new_bb: u64,
    old_bb: u64,
    color: Color,
)
    requires
        king < 64,
    ensures
        final(updates).adds(perspective) == old(updates).adds(perspective) + threat_seq(
            perspective,
            king as int,
            new_bb & !old_bb,
            color,
            64,
        ),
        final(updates).rms(perspective) == old(updates).rms(perspective) + threat_seq(
            perspective,
            king as int,
            old_bb & !new_bb,
            color,
            64,
        ),
        final(updates).adds(perspective.spec_opp()) == old(updates).adds(perspective.spec_opp()),
        final(updates).rms(perspective.spec_opp()) == old(updates).rms(perspective.spec_opp()),
{
    let changed = new_bb ^ old_bb;
    let ghost adds0 = updates.adds(perspective);
    let ghost rms0 = updates.rms(perspective);
    let ghost other_adds = updates.adds(perspective.spec_opp());
    let ghost other_rms = updates.rms(perspective.spec_opp());
    let mut sq: u8 = 0;
    while sq < 64
        invariant
            sq <= 64,
            king < 64,
            changed == new_bb ^ old_bb,
            updates.adds(perspective) == adds0 + threat_seq(perspective, king as int, new_bb & !old_bb, color, sq as int),
            updates.rms(perspective) == rms0 + threat_seq(perspective, king as int, old_bb & !new_bb, color, sq as int),
            updates.adds(perspective.spec_opp()) == other_adds,
            updates.rms(perspective.spec_opp()) == other_rms,
        decreases 64 - sq,
    {
        let x = changed;
        let n = new_bb;
        let o = old_bb;
        let t = sq as u64;
        assert(((x >> t) & 1 == 1) == (((n & !o) >> t) & 1 == 1 || ((o & !n) >> t) & 1 == 1)
            && !(((n & !o) >> t) & 1 == 1 && ((o & !n) >> t) & 1 == 1) && (((n & !o) >> t) & 1 == 1 ==> (n >> t) & 1
            == 1) && (((o & !n) >> t) & 1 == 1 ==> !((n >> t) & 1 == 1))) by (bit_vector)
            requires
                x == n ^ o,
                t < 64,
        ;
        if has(changed, sq) {
            let index = feature(perspective, king, color, 6, sq);
            let incr = has(new_bb, sq);
            updates.update(incr, index, perspective);
            proof {
                assert(adds0 + threat_seq(perspective, king as int, new_bb & !old_bb, color, sq as int + 1) =~= if incr {
                    (adds0 + threat_seq(perspective, king as int, new_bb & !old_bb, color, sq as int)).push(index)
                } else {
                    adds0 + threat_seq(perspective, king as int, new_bb & !old_bb, color, sq as int)
                });
                assert(rms0 + threat_seq(perspective, king as int, old_bb & !new_bb, color, sq as int + 1) =~= if !incr {
                    (rms0 + threat_seq(perspective, king as int, old_bb & !new_bb, color, sq as int)).push(index)
                } else {
                    rms0 + threat_seq(perspective, king as int, old_bb & !new_bb, color, sq as int)
                });
            }
        }
        sq += 1;
    }
}


/// The color of the piece on `sq`, if any.
pub open spec fn spec_color_on(board: Board, sq: int) -> Option<Color> {
    if bb_has(board.colors[0], sq) {
        Some(Color::White)
    } else if bb_has(board.colors[1], sq) {
        Some(Color::Black)
    } else {
        None
    }
}

/// The piece features that `make_move` removes, seen from `perspective` (whose king is on
/// `king`): the moved piece, a captured piece, a pawn taken en passant.
pub open spec fn piece_rms(board: Board, make_move: Move, en_passant: Option<u8>, perspective: Color, king: int) -> Seq<usize> {
    let stm = board.side_to_move;
    let from = make_move.from as int;
    let to = make_move.to as int;
    let from_type = board.spec_piece_on(from)->0;
    let moved = seq![spec_feature(perspective, king, stm, from_type as int, from) as usize];
    let captured = match (board.spec_piece_on(to), spec_color_on(board, to)) {
        (Some(p), Some(c)) => seq![spec_feature(perspective, king, c, p as int, to) as usize],
        _ => Seq::empty(),
    };
    let (fifth, sixth) = match stm {
        Color::White => (4int, 5int),
        Color::Black => (3int, 2int),
    };
    let ep = match en_passant {
        Some(f) => if from_type == PAWN && to == sixth * 8 + f {
            seq![spec_feature(perspective, king, stm.spec_opp(), PAWN as int, fifth * 8 + f) as usize]
        } else {
            Seq::empty()
        },
        None => Seq::empty(),
    };
    moved + captured + ep
}

/// The piece features that `make_move` adds, seen from `perspective`: king and rook on
/// their castled squares when the king lands on its own rook, else the moved (or promoted)
/// piece on its destination.
pub open spec fn piece_adds(board: Board, make_move: Move, perspective: Color, king: int) -> Seq<usize> {
    let stm = board.side_to_move;
    let from = make_move.from as int;
    let to = make_move.to as int;
    let from_type = board.spec_piece_on(from)->0;
    let first: int = match stm {
        Color::White => 0,
        Color::Black => 56,
    };
    if spec_color_on(board, to) == Some(stm) {
        if to % 8 > from % 8 {
            seq![
                spec_feature(perspective, king, stm, KING as int, first + 6) as usize,
                spec_feature(perspective, king, stm, ROOK as int, first + 5) as usize,
            ]
        } else {
            seq![
                spec_feature(perspective, king, stm, KING as int, first + 2) as usize,
                spec_feature(perspective, king, stm, ROOK as int, first + 3) as usize,
            ]
        }
    } else {
        let piece = match make_move.promotion {
            Some(p) => p,
            None => from_type,
        };
        seq![spec_feature(perspective, king, stm, piece as int, to) as usize]
    }
}

fn color_on(board: &Board, sq: Square) -> (r: Option<Color>)
    requires
        sq < 64,
    ensures
        r == spec_color_on(*board, sq as int),
{
    if has(board.colors[0], sq) {
        Some(Color::White)
    } else if has(board.colors[1], sq) {
        Some(Color::Black)
    } else {
        None
    }
}

fn piece_rm_updates(
    updates: &mut FeatureUpdates,
    board: &Board,
    make_move: Move,
    en_passant: Option<u8>,
    perspective: Color,
    king: Square,
)
    requires
        king < 64,
        make_move.wf(),
        board.spec_piece_on(make_move.from as int) is Some,
        en_passant matches Some(f) ==> f < 8,
    ensures
        final(updates).adds(perspective) == old(updates).adds(perspective),
        final(updates).rms(perspective) == old(updates).rms(perspective) + piece_rms(
            *board,
            make_move,
            en_passant,
            perspective,
            king as int,
        ),
        final(updates).adds(perspective.spec_opp()) == old(updates).adds(perspective.spec_opp()),
        final(updates).rms(perspective.spec_opp()) == old(updates).rms(perspective.spec_opp()),
{
    let ghost rms0 = updates.rms(perspective);
    let stm = board.side_to_move;
    let from_sq = make_move.from;
    let to_sq = make_move.to;
    let from_type = board.piece_on(from_sq).unwrap();
    updates.update(false, feature(perspective, king, stm, from_type, from_sq), perspective);
    if let Some(captured) = board.piece_on(to_sq) {
        if let Some(color) = color_on(board, to_sq) {
            updates.update(false, feature(perspective, king, color, captured, to_sq), perspective);
        }
    }
    if let Some(ep) = en_passant {
        let (stm_fifth, stm_sixth): (u8, u8) = match stm {
            Color::White => (4, 5),
            Color::Black => (3, 2),
        };
        if from_type == PAWN && to_sq == stm_sixth * 8 + ep {
            updates.update(false, feature(perspective, king, stm.opp(), PAWN, stm_fifth * 8 + ep), perspective);
        }
    }
    proof {
        assert(updates.rms(perspective) =~= rms0 + piece_rms(*board, make_move, en_passant, perspective, king as int));
    }
}

fn piece_add_updates(updates: &mut FeatureUpdates, board: &Board, make_move: Move, perspective: Color, king: Square)
    requires
        king < 64,
        make_move.wf(),
        board.spec_piece_on(make_move.from as int) is Some,
    ensures
        final(updates).adds(perspective) == old(updates).adds(perspective) + piece_adds(
            *board,
            make_move,
            perspective,
            king as int,
        ),
        final(updates).rms(perspective) == old(updates).rms(perspective),
        final(updates).adds(perspective.spec_opp()) == old(updates).adds(perspective.spec_opp()),
        final(updates).rms(perspective.spec_opp()) == old(updates).rms(perspective.spec_opp()),
{
    let ghost adds0 = updates.adds(perspective);
    let stm = board.side_to_move;
    let from_sq = make_move.from;
    let to_sq = make_move.to;
    let from_type = board.piece_on(from_sq).unwrap();
    let stm_first: u8 = match stm {
        Color::White => 0,
        Color::Black => 56,
    };
    if color_on(board, to_sq) == Some(stm) {
        if to_sq % 8 > from_sq % 8 {
            updates.update(true, feature(perspective, king, stm, KING, stm_first + 6), perspective);
            updates.update(true, feature(perspective, king, stm, ROOK, stm_first + 5), perspective);
        } else {
            updates.update(true, feature(perspective, king, stm, KING, stm_first + 2), perspective);
            updates.update(true, feature(perspective, king, stm, ROOK, stm_first + 3), perspective);
        }
    } else {
        let piece = match make_move.promotion {
            Some(p) => p,
            None => from_type,
        };
        updates.update(true, feature(perspective, king, stm, piece, to_sq), perspective);
    }
    proof {
        assert(updates.adds(perspective) =~= adds0 + piece_adds(*board, make_move, perspective, king as int));
    }
}

/// All the updates of `make_move` for `perspective`, whose king stands on `king`.
pub open spec fn spec_perspective_adds(
    board: Board,
    make_move: Move,
    perspective: Color,
    king: int,
    w_threats: u64,
    b_threats: u64,
    old_w_threats: u64,
    old_b_threats: u64,
) -> Seq<usize> {
    threat_seq(perspective, king, w_threats & !old_w_threats, Color::Black, 64) + threat_seq(
        perspective,
        king,
        b_threats & !old_b_threats,
        Color::White,
        64,
    ) + piece_adds(board, make_move, perspective, king)
}

pub open spec fn spec_perspective_rms(
    board: Board,
    make_move: Move,
    en_passant: Option<u8>,
    perspective: Color,
    king: int,
    w_threats: u64,
    b_threats: u64,
    old_w_threats: u64,
    old_b_threats: u64,
) -> Seq<usize> {
    threat_seq(perspective, king, old_w_threats & !w_threats, Color::Black, 64) + threat_seq(
        perspective,
        king,
        old_b_threats & !b_threats,
        Color::White,
        64,
    ) + piece_rms(board, make_move, en_passant, perspective, king)
}

/// The input features that `make_move` changes, for each perspective, from the position
/// before the move (`en_passant` is its en passant file), the threats after the move
/// (`w_threats`, `b_threats`: the pieces each side threatens) and before it. When the king
/// moves, the mover's perspective is left out (second result `true`): it is rebuilt from
/// the new position.
pub fn move_updates(
    board: &Board,
    make_move: Move,
    en_passant: Option<u8>,
    w_threats: BitBoard,
    b_threats: BitBoard,
    old_w_threats: BitBoard,
    old_b_threats: BitBoard,
) -> (r: (FeatureUpdates, bool))
    requires
        make_move.wf(),
        has_kings(*board),
        board.spec_piece_on(make_move.from as int) is Some,
        en_passant matches Some(f) ==> f < 8,
    ensures
        r.1 == (board.spec_piece_on(make_move.from as int) == Some(KING)),
        forall|p: Color|
            #![auto]
            r.0.adds(p) == if r.1 && p == board.side_to_move {
                Seq::<usize>::empty()
            } else {
                spec_perspective_adds(
                    *board,
                    make_move,
                    p,
                    king_sq(*board, p),
                    w_threats,
                    b_threats,
                    old_w_threats,
                    old_b_threats,
                )
            },
        forall|p: Color|
            #![auto]
            r.0.rms(p) == if r.1 && p == board.side_to_move {
                Seq::<usize>::empty()
            } else {
                spec_perspective_rms(
                    *board,
                    make_move,
                    en_passant,
                    p,
                    king_sq(*board, p),
                    w_threats,
                    b_threats,
                    old_w_threats,
                    old_b_threats,
                )
            },
{
    let mut updates = FeatureUpdates::new();
    let stm = board.side_to_move;
    let king_move = board.piece_on(make_move.from) == Some(KING);
    let mut p: u8 = 0;
    while p < 2
        invariant
            p <= 2,
            make_move.wf(),
            has_kings(*board),
            board.spec_piece_on(make_move.from as int) is Some,
            en_passant matches Some(f) ==> f < 8,
            stm == board.side_to_move,
            king_move == (board.spec_piece_on(make_move.from as int) == Some(KING)),
            forall|q: Color|
                #![auto]
                updates.adds(q) == if q.spec_index() >= p || (king_move && q == stm) {
                    Seq::<usize>::empty()
                } else {
                    spec_perspective_adds(
                        *board,
                        make_move,
                        q,
                        king_sq(*board, q),
                        w_threats,
                        b_threats,
                        old_w_threats,
                        old_b_threats,
                    )
                },
            forall|q: Color|
                #![auto]
                updates.rms(q) == if q.spec_index() >= p || (king_move && q == stm) {
                    Seq::<usize>::empty()
                } else {
                    spec_perspective_rms(
                        *board,
                        make_move,
                        en_passant,
                        q,
                        king_sq(*board, q),
                        w_threats,
                        b_threats,
                        old_w_threats,
                        old_b_threats,
                    )
                },
        decreases 2 - p,
    {
        let perspective = if p == 0 {
            Color::White
        } else {
            Color::Black
        };
        if !(king_move && perspective == stm) {
            let king = king_of(board, perspective);
            let ghost a0 = updates.adds(perspective);
            let ghost r0 = updates.rms(perspective);
            threat_updates(&mut updates, perspective, king, w_threats, old_w_threats, Color::Black);
            threat_updates(&mut updates, perspective, king, b_threats, old_b_threats, Color::White);
            piece_rm_updates(&mut updates, board, make_move, en_passant, perspective, king);
            piece_add_updates(&mut updates, board, make_move, perspective, king);
            proof {
                assert(updates.adds(perspective) =~= a0 + spec_perspective_adds(
                    *board,
                    make_move,
                    perspective,
                    king as int,
                    w_threats,
                    b_threats,
                    old_w_threats,
                    old_b_threats,
                ));
                assert(updates.rms(perspective) =~= r0 + spec_perspective_rms(
                    *board,
                    make_move,
                    en_passant,
                    perspective,
                    king as int,
                    w_threats,
                    b_threats,
                    old_w_threats,
                    old_b_threats,
                ));
            }
        }
        p += 1;
    }
    (updates, king_move)
}


/// The piece features of the occupied squares `sq < n`, in square order.
pub open spec fn piece_seq(perspective: Color, king: int, board: Board, n: int) -> Seq<usize>
    decreases n,
{
    if n <= 0 {
        Seq::empty()
    } else {
        let prev = piece_seq(perspective, king, board, n - 1);
        match (board.spec_piece_on(n - 1), spec_color_on(board, n - 1)) {
            (Some(p), Some(c)) => prev.push(spec_feature(perspective, king, c, p as int, n - 1) as usize),
            _ => prev,
        }
    }
}

/// The features of a whole position for `perspective`: every piece, then the threats
/// against black's pieces (`w_threats`) and against white's (`b_threats`).
pub fn reset_updates(perspective: Color, board: &Board, w_threats: BitBoard, b_threats: BitBoard) -> (r: Vec<usize>)
    requires
        king_sq(*board, perspective) < 64,
    ensures
        r@ == piece_seq(perspective, king_sq(*board, perspective), *board, 64) + threat_seq(
            perspective,
            king_sq(*board, perspective),
            w_threats,
            Color::Black,
            64,
        ) + threat_seq(perspective, king_sq(*board, perspective), b_threats, Color::White, 64),
{
    let king = king_of(board, perspective);
    let mut updates = FeatureUpdates::new();
    let mut sq: u8 = 0;
    while sq < 64
        invariant
            sq <= 64,
            king < 64,
            king == king_sq(*board, perspective),
            updates.adds(perspective) == piece_seq(perspective, king as int, *board, sq as int),
        decreases 64 - sq,
    {
        match (board.piece_on(sq), color_on(board, sq)) {
            (Some(p), Some(c)) => {
                updates.update(true, feature(perspective, king, c, p, sq), perspective);
            },
            _ => {},
        }
        sq += 1;
    }
    threat_updates(&mut updates, perspective, king, w_threats, 0, Color::Black);
    threat_updates(&mut updates, perspective, king, b_threats, 0, Color::White);
    proof {
        assert(w_threats & !0u64 == w_threats) by (bit_vector);
        assert(b_threats & !0u64 == b_threats) by (bit_vector);
    }
    match perspective {
        Color::White => updates.w_add,
        Color::Black => updates.b_add,
    }
}

} // verus!
