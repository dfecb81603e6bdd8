use crate::bm::attacks::{bishop_moves, bishop_step, king_moves, knight_moves, pawn_attacks, piece_step, rook_moves, rook_step};
use crate::bm::bitboard::{bits, first_from, group_bb, lemma_first_from, lsb};
use crate::bm::chess_types::{bb_has, has, BitBoard, Board, Color, Move, Piece, Square, BISHOP, KING, KNIGHT, PAWN, QUEEN};
use vstd::prelude::*;

verus! {

broadcast use group_bb;

/// Whether the move gives a discovered check: the opponent king does not stand next to the
/// destination, and after the move (`checkers_after` are the checking pieces then) some
/// piece other than the moved one gives check.
pub fn is_discovery(board: &Board, make_move: Move, opp_king: Square, checkers_after: BitBoard) -> (r: bool)
    requires
        make_move.wf(),
        opp_king < 64,
    ensures
        r == (!crate::bm::attacks::king_step(opp_king as int, make_move.to as int) && exists|sq: int|
            0 <= sq < 64 && sq != make_move.to && #[trigger] bb_has(checkers_after, sq)),
{
    let opp_king_attacks = king_moves(opp_king);
    if has(opp_king_attacks, make_move.to) {
        return false;
    }
    if checkers_after == 0 {
        assert forall|sq: int| 0 <= sq < 64 implies !#[trigger] bb_has(checkers_after, sq) by {}
        return false;
    }
    let mut sq: u8 = 0;
    while sq < 64
        invariant
            sq <= 64,
            make_move.wf(),
            opp_king < 64,
            !crate::bm::attacks::king_step(opp_king as int, make_move.to as int),
            forall|s: int| 0 <= s < sq && s != make_move.to ==> !#[trigger] bb_has(checkers_after, s),
        decreases 64 - sq,
    {
        if has(checkers_after, sq) && sq != make_move.to {
            assert(bb_has(checkers_after, sq as int));
            return true;
        }
        sq += 1;
    }
    false
}

/// The squares threatened by a piece on `sq`: a pawn threatens minor and major pieces, a
/// knight major pieces, a bishop the squares it reaches with only the major pieces blocking;
/// other pieces threaten nothing.
pub open spec fn threat_step(piece: Piece, color: Color, s: int, t: int, opp_minors: u64, opp_majors: u64) -> bool {
    if piece == 0 {
        crate::bm::attacks::pawn_step(color, s, t) && bb_has(opp_minors | opp_majors, t)
    } else if piece == 1 {
        crate::bm::attacks::knight_step(s, t) && bb_has(opp_majors, t)
    } else if piece == 2 {
        bishop_step(s, t, opp_majors)
    } else {
        false
    }
}

fn get_piece_attacks(piece: Piece, color: Color, sq: Square, opp_minors: BitBoard, opp_majors: BitBoard) -> (r: BitBoard)
    requires
        sq < 64,
    ensures
        forall|t: int|
            0 <= t < 64 ==> (#[trigger] bb_has(r, t) <==> threat_step(piece, color, sq as int, t, opp_minors, opp_majors)),
{
    if piece == PAWN {
        pawn_attacks(sq, color) & (opp_minors | opp_majors)
    } else if piece == KNIGHT {
        knight_moves(sq) & opp_majors
    } else if piece == BISHOP {
        bishop_moves(sq, opp_majors)
    } else {
        0
    }
}

/// The opponent's knights and bishops.
pub open spec fn spec_opp_minors(board: Board) -> u64 {
    board.colors[board.side_to_move.spec_opp().spec_index()] & (board.pieces[1] | board.pieces[2])
}

/// The opponent's rooks and queens.
pub open spec fn spec_opp_majors(board: Board) -> u64 {
    board.colors[board.side_to_move.spec_opp().spec_index()] & (board.pieces[3] | board.pieces[4])
}

/// Whether the moved piece threatens, from its destination, a square it did not threaten
/// from its origin.
pub fn threatens(board: &Board, make_move: Move) -> (r: bool)
    requires
        make_move.wf(),
        board.spec_piece_on(make_move.from as int) is Some,
    ensures
        ({
            let piece = board.spec_piece_on(make_move.from as int)->0;
            let stm = board.side_to_move;
            let mi = spec_opp_minors(*board);
            let ma = spec_opp_majors(*board);
            r == exists|t: int|
                0 <= t < 64 && #[trigger] threat_step(piece, stm, make_move.to as int, t, mi, ma) && !threat_step(
                    piece,
                    stm,
                    make_move.from as int,
                    t,
                    mi,
                    ma,
                )
        }),
{
    let piece = board.piece_on(make_move.from).unwrap();
    let stm = board.side_to_move;
    let opp = board.colors(stm.opp());
    let opp_minors = opp & (board.pieces(KNIGHT) | board.pieces(BISHOP));
    let opp_majors = opp & (board.pieces(crate::bm::chess_types::ROOK) | board.pieces(QUEEN));
    let from_attacks = get_piece_attacks(piece, stm, make_move.from, opp_minors, opp_majors);
    let to_attacks = get_piece_attacks(piece, stm, make_move.to, opp_minors, opp_majors);
    let new_attacks = to_attacks & !from_attacks;
    assert(opp_minors == spec_opp_minors(*board));
    assert(opp_majors == spec_opp_majors(*board));
    match lsb(new_attacks) {
        Some(sq) => {
            proof {
                lemma_first_from(bits(new_attacks), 0);
            }
            assert(bits(new_attacks)(sq as int));
            assert(threat_step(piece, stm, make_move.to as int, sq as int, opp_minors, opp_majors));
            assert(!threat_step(piece, stm, make_move.from as int, sq as int, opp_minors, opp_majors));
            true
        },
        None => {
            proof {
                lemma_first_from(bits(new_attacks), 0);
            }
            assert forall|t: int| 0 <= t < 64 implies !(#[trigger] threat_step(piece, stm, make_move.to as int, t, opp_minors, opp_majors)
                && !threat_step(piece, stm, make_move.from as int, t, opp_minors, opp_majors)) by {
                assert(!bits(new_attacks)(t));
            }
            false
        },
    }
}

/// The exchange value of a piece kind.
pub open spec fn spec_see_pts(piece: Piece) -> int {
    if piece == 0 {
        100
    } else if piece == 1 || piece == 2 {
        300
    } else if piece == 3 {
        500
    } else if piece == 4 {
        900
    } else {
        20000
    }
}

fn see_pts(piece: Piece) -> (r: i64)
    ensures
        r == spec_see_pts(piece),
{
    match piece {
        0 => 100,
        1 => 300,
        2 => 300,
        3 => 500,
        4 => 900,
        _ => 20000,
    }
}

/// A piece of kind `k` on `s` counts as attacking `t` in the swap list: as in
/// [piece_step], except that a queen must reach `t` both as a rook and as a bishop.
/// The engine forms the queen's recapture set as the intersection of the rook and bishop
/// sets (not their union), so a queen that reaches `t` along a file, rank or diagonal only
/// is not counted; the exchange value keeps that behaviour.
pub open spec fn swap_step(k: Piece, color: Color, s: int, t: int, blockers: u64) -> bool {
    if k == 4 {
        bishop_step(s, t, blockers) && rook_step(s, t, blockers)
    } else {
        piece_step(k, color, s, t, blockers)
    }
}

pub open spec fn swap_candidates(board: Board, target: int, color: Color, blockers: u64, k: Piece) -> spec_fn(int) -> bool {
    |s: int|
        0 <= s < 64 && bb_has(board.pieces[k as int] & board.colors[color.spec_index()] & blockers, s)
            && swap_step(k, color.spec_opp(), target, s, blockers)
}

/// The first piece kind of `color` from `k` on with a piece that recaptures on `target`,
/// and the lowest such square.
pub open spec fn swap_attacker_from(board: Board, target: int, color: Color, blockers: u64, k: Piece) -> Option<(Piece, int)>
    decreases 6 - k,
{
    if k >= 6 {
        None
    } else if first_from(swap_candidates(board, target, color, blockers, k), 0) < 64 {
        Some((k, first_from(swap_candidates(board, target, color, blockers, k), 0)))
    } else {
        swap_attacker_from(board, target, color, blockers, (k + 1) as Piece)
    }
}

proof fn lemma_swap_attacker_from_least(board: Board, target: int, color: Color, blockers: u64, k: Piece)
    requires
        k <= 6,
    ensures
        match swap_attacker_from(board, target, color, blockers, k) {
            Some((a, sq)) => {
                &&& k <= a < 6
                &&& 0 <= sq < 64
                &&& bb_has(board.pieces[a as int] & board.colors[color.spec_index()] & blockers, sq)
                &&& swap_step(a, color.spec_opp(), target, sq, blockers)
                &&& forall|j: Piece, s: int|
                    k <= j < a && 0 <= s < 64 && #[trigger] bb_has(board.pieces[j as int] & board.colors[color.spec_index()] & blockers, s)
                        ==> !swap_step(j, color.spec_opp(), target, s, blockers)
                &&& forall|s: int|
                    0 <= s < sq && #[trigger] bb_has(board.pieces[a as int] & board.colors[color.spec_index()] & blockers, s)
                        ==> !swap_step(a, color.spec_opp(), target, s, blockers)
            },
            None => forall|j: Piece, s: int|
                k <= j < 6 && 0 <= s < 64 && #[trigger] bb_has(board.pieces[j as int] & board.colors[color.spec_index()] & blockers, s)
                    ==> !swap_step(j, color.spec_opp(), target, s, blockers),
        },
    decreases 6 - k,
{
    if k < 6 {
        let p = swap_candidates(board, target, color, blockers, k);
        lemma_first_from(p, 0);
        if first_from(p, 0) >= 64 {
            lemma_swap_attacker_from_least(board, target, color, blockers, (k + 1) as Piece);
            assert forall|s: int| 0 <= s < 64 && bb_has(board.pieces[k as int] & board.colors[color.spec_index()] & blockers, s)
                implies !swap_step(k, color.spec_opp(), target, s, blockers) by {
                assert(!p(s));
            }
        } else {
            let sq = first_from(p, 0);
            assert forall|s: int| 0 <= s < sq && bb_has(board.pieces[k as int] & board.colors[color.spec_index()] & blockers, s)
                implies !swap_step(k, color.spec_opp(), target, s, blockers) by {
                assert(!p(s));
            }
        }
    }
}

/// The swap list always recaptures with a least valuable piece: the chosen recapturer of
/// `color` is still on the board and reaches `target`, no piece of a kind listed before
/// it (pawn, knight, bishop, rook, queen, king) does, and among its kind it stands on the
/// lowest square; when none is chosen, no piece of `color` reaches `target`.
pub proof fn lemma_swap_attacker_least_valuable(board: Board, target: int, color: Color, blockers: u64)
    ensures
        match swap_attacker_from(board, target, color, blockers, 0) {
            Some((a, sq)) => {
                &&& a < 6
                &&& 0 <= sq < 64
                &&& bb_has(board.pieces[a as int] & board.colors[color.spec_index()] & blockers, sq)
                &&& swap_step(a, color.spec_opp(), target, sq, blockers)
                &&& forall|j: Piece, s: int|
                    0 <= j < 6 && 0 <= s < 64 && #[trigger] bb_has(board.pieces[j as int] & board.colors[color.spec_index()] & blockers, s)
                        && swap_step(j, color.spec_opp(), target, s, blockers) ==> a <= j && spec_see_pts(a) <= spec_see_pts(j)
                &&& forall|s: int|
                    0 <= s < sq && #[trigger] bb_has(board.pieces[a as int] & board.colors[color.spec_index()] & blockers, s)
                        ==> !swap_step(a, color.spec_opp(), target, s, blockers)
            },
            None => forall|j: Piece, s: int|
                0 <= j < 6 && 0 <= s < 64 && #[trigger] bb_has(board.pieces[j as int] & board.colors[color.spec_index()] & blockers, s)
                    ==> !swap_step(j, color.spec_opp(), target, s, blockers),
        },
{
    lemma_swap_attacker_from_least(board, target, color, blockers, 0);
}

fn swap_attacks(k: Piece, color: Color, target: Square, blockers: BitBoard) -> (r: BitBoard)
    requires
        k < 6,
        target < 64,
    ensures
        forall|s: int| 0 <= s < 64 ==> (#[trigger] bb_has(r, s) <==> swap_step(k, color, target as int, s, blockers)),
{
    if k == PAWN {
        pawn_attacks(target, color)
    } else if k == KNIGHT {
        knight_moves(target)
    } else if k == BISHOP {
        bishop_moves(target, blockers)
    } else if k == crate::bm::chess_types::ROOK {
        rook_moves(target, blockers)
    } else if k == QUEEN {
        rook_moves(target, blockers) & bishop_moves(target, blockers)
    } else {
        king_moves(target)
    }
}

pub(crate) fn swap_attacker(board: &Board, target: Square, color: Color, blockers: BitBoard) -> (r: Option<(Piece, Square)>)
    requires
        target < 64,
    ensures
        match r {
            Some((a, sq)) => a < 6 && sq < 64 && swap_attacker_from(*board, target as int, color, blockers, 0) == Some(
                (a, sq as int),
            ),
            None => swap_attacker_from(*board, target as int, color, blockers, 0) is None,
        },
{
    let opp = color.opp();
    let mut k: u8 = 0;
    while k < 6
        invariant
            k <= 6,
            target < 64,
            opp == color.spec_opp(),
            swap_attacker_from(*board, target as int, color, blockers, 0) == swap_attacker_from(
                *board,
                target as int,
                color,
                blockers,
                k,
            ),
        decreases 6 - k,
    {
        let potential = swap_attacks(k, opp, target, blockers) & board.pieces(k) & board.colors(color) & blockers;
        assert(bits(potential) =~= swap_candidates(*board, target as int, color, blockers, k));
        if let Some(sq) = lsb(potential) {
            return Some((k, sq));
        }
        k += 1;
    }
    None
}

/// The swap list from step `i` on: `gains` holds the first `i` entries, `last` is the
/// value of the piece standing on `target`, `color` is to recapture. Gives the whole list
/// and the step at which no recapture was left (0 when the list reached length `n`).
pub open spec fn swap_list(
    board: Board,
    target: int,
    n: int,
    i: int,
    gains: Seq<int>,
    last: int,
    color: Color,
    blockers: u64,
) -> (Seq<int>, int)
    decreases n - i,
{
    if i >= n || i < 1 {
        (gains, 0)
    } else {
        let g = gains.push(last - gains[i - 1]);
        match swap_attacker_from(board, target, color, blockers, 0) {
            Some((k, sq)) => swap_list(
                board,
                target,
                n,
                i + 1,
                g,
                spec_see_pts(k),
                color.spec_opp(),
                blockers & !(1u64 << (sq as u64)),
            ),
            None => (g, i),
        }
    }
}

/// The backward pass over a swap list: each side may stand pat instead of recapturing.
pub open spec fn swap_back(gains: Seq<int>, i: int) -> Seq<int>
    decreases i,
{
    if i < 1 {
        gains
    } else {
        let v = if gains[i - 1] <= -gains[i] {
            gains[i - 1]
        } else {
            -gains[i]
        };
        swap_back(gains.update(i - 1, v), i - 1)
    }
}

/// The static exchange value of `make_move`, with at most `n` entries in the swap list.
pub open spec fn spec_see(board: Board, make_move: Move, n: int) -> int {
    let target = make_move.to as int;
    let mover = board.spec_piece_on(make_move.from as int)->0;
    let g0 = match board.spec_piece_on(target) {
        Some(p) => spec_see_pts(p),
        None => 0,
    };
    if board.spec_piece_on(target) is None && mover == KING {
        0
    } else {
        let (gains, index) = swap_list(
            board,
            target,
            n,
            1,
            seq![g0],
            spec_see_pts(mover),
            board.side_to_move.spec_opp(),
            board.spec_occupied() & !(1u64 << (make_move.from as u64)),
        );
        swap_back(gains, index - 1)[0]
    }
}

pub(crate) proof fn lemma_swap_back(gains: Seq<int>, i: int)
    requires
        i < gains.len(),
    ensures
        swap_back(gains, i).len() == gains.len(),
        forall|j: int| 0 <= j < gains.len() ==> #[trigger] swap_back(gains, i)[j] <= gains[j],
        i >= 1 ==> swap_back(gains, i)[0] >= gains[0] || swap_back(gains, i)[0] >= -gains[1],
        i < 1 ==> swap_back(gains, i) == gains,
    decreases i,
{
    if i >= 1 {
        let v = if gains[i - 1] <= -gains[i] {
            gains[i - 1]
        } else {
            -gains[i]
        };
        let g2 = gains.update(i - 1, v);
        lemma_swap_back(g2, i - 1);
    }
}

proof fn lemma_swap_list(
    board: Board,
    target: int,
    n: int,
    i: int,
    gains: Seq<int>,
    last: int,
    color: Color,
    blockers: u64,
)
    requires
        1 <= i,
        gains.len() == i,
    ensures
        ({
            let (g, index) = swap_list(board, target, n, i, gains, last, color, blockers);
            &&& g.len() >= i
            &&& forall|j: int| 0 <= j < i ==> #[trigger] g[j] == gains[j]
            &&& (i < n ==> g[i] == last - gains[i - 1])
            &&& (index == 0 || (index >= i && index < g.len()))
        }),
    decreases n - i,
{
    if i < n {
        let g = gains.push(last - gains[i - 1]);
        match swap_attacker_from(board, target, color, blockers, 0) {
            Some((k, sq)) => {
                lemma_swap_list(
                    board,
                    target,
                    n,
                    i + 1,
                    g,
                    spec_see_pts(k),
                    color.spec_opp(),
                    blockers & !(1u64 << (sq as u64)),
                );
            },
            None => {},
        }
    }
}

/// The static exchange value of `make_move`: the material the side to move wins when both
/// sides recapture on the target square with their least valuable piece, each free to stop
/// (swap list of at most `N` entries; a queen counts as a recapturer only where it reaches
/// the square both as a rook and as a bishop).
pub fn see<const N: usize>(board: &Board, make_move: Move) -> (r: i16)
    requires
        make_move.wf(),
        board.spec_piece_on(make_move.from as int) is Some,
        1 <= N < 0x1_0000_0000,
    ensures
        r == spec_see(*board, make_move, N as int),
{
    let target = make_move.to;
    let move_piece = board.piece_on(make_move.from).unwrap();
    let g0: i64 = match board.piece_on(target) {
        Some(p) => see_pts(p),
        None => {
            if move_piece == KING {
                return 0;
            }
            0
        },
    };
    let mut gains: Vec<i64> = Vec::new();
    gains.push(g0);
    let ghost sg: Seq<int> = seq![g0 as int];
    let mut color = board.side_to_move.opp();
    let mut blockers = board.occupied() & !(1u64 << (make_move.from as u64));
    let mut last: i64 = see_pts(move_piece);
    let ghost full = swap_list(*board, target as int, N as int, 1, sg, last as int, color, blockers);
    proof {
        lemma_swap_list(*board, target as int, N as int, 1, sg, last as int, color, blockers);
    }
    let mut index: usize = 0;
    let mut i: usize = 1;
    while i < N && index == 0
        invariant
            1 <= i <= N,
            N < 0x1_0000_0000,
            target < 64,
            index == 0 ==> gains.len() == i,
            index != 0 ==> gains.len() == index + 1 && index >= 1,
            index == 0 ==> full == swap_list(*board, target as int, N as int, i as int, sg, last as int, color, blockers),
            index != 0 ==> full == (sg, index as int),
            gains.len() == sg.len(),
            gains.len() <= N,
            forall|j: int| 0 <= j < gains.len() ==> #[trigger] gains[j] as int == sg[j],
            forall|j: int| 0 <= j < gains.len() ==> -20000 * (j + 1) <= #[trigger] sg[j] <= 20000 * (j + 1),
            0 <= last <= 20000,
        decreases (N - i) * 2 + (if index == 0 {
            1int
        } else {
            0int
        }),
    {
        let g = last - gains[i - 1];
        gains.push(g);
        proof {
            sg = sg.push(g as int);
        }
        match swap_attacker(board, target, color, blockers) {
            Some((k, sq)) => {
                last = see_pts(k);
                blockers = blockers & !(1u64 << (sq as u64));
                color = color.opp();
                i += 1;
            },
            None => {
                index = i;
            },
        }
    }
    proof {
        if index == 0 {
            assert(full == (sg, 0int));
        }
    }
    let ghost fwd = sg;
    let mut j: usize = index;
    while j > 1
        invariant
            j <= index,
            index > 1 ==> j >= 1,
            index == 0 || index < gains.len(),
            gains.len() == sg.len(),
            forall|k: int| 0 <= k < gains.len() ==> #[trigger] gains[k] as int == sg[k],
            forall|k: int| 0 <= k < gains.len() ==> -20000 * (N + 1) <= #[trigger] sg[k] <= 20000 * (N + 1),
            gains.len() <= N,
            N < 0x1_0000_0000,
            index <= 1 ==> sg == fwd,
            index > 1 ==> swap_back(fwd, index - 1) == swap_back(sg, j - 1),
        decreases j,
    {
        j -= 1;
        let a = gains[j - 1];
        let b = -gains[j];
        let v = if a <= b {
            a
        } else {
            b
        };
        gains.set(j - 1, v);
        proof {
            sg = sg.update(j - 1, v as int);
        }
    }
    proof {
        lemma_swap_back(fwd, index - 1);
        assert(swap_back(fwd, index - 1)[0] == sg[0]);
        assert(-20000 <= sg[0] <= 20000);
    }
    gains[0] as i16
}

} // verus!
