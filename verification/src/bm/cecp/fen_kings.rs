use vstd::prelude::*;

verus! {

/// Where the placement reader stands: rank, file, and the byte of the piece letter on
/// each of the 64 squares (0 for an empty one). Square `rank * 8 + file`.
pub struct PlacementState {
    pub rank: int,
    pub file: int,
    pub squares: Seq<u8>,
}

/// A piece letter of FEN text.
pub open spec fn is_piece_letter(c: u8) -> bool {
    c == 114 || c == 82 || c == 110 || c == 78 || c == 98 || c == 66 || c == 112 || c == 80
        || c == 113 || c == 81 || c == 107 || c == 75
}

/// The reader before any byte: eighth rank, first file, an empty board.
pub open spec fn placement_start() -> PlacementState {
    PlacementState { rank: 7, file: 0, squares: Seq::new(64, |i: int| 0u8) }
}

/// One byte of the placement field: `/` goes one rank down (wrapping), a digit `1`..`8`
/// skips that many files (wrapping), a piece letter is put on the current square and the
/// file moves one right (wrapping); any other byte makes the text invalid.
pub open spec fn placement_step(st: PlacementState, c: u8) -> Option<PlacementState> {
    if c == 47 {
        Some(PlacementState { rank: (st.rank + 7) % 8, file: 0, squares: st.squares })
    } else if 49 <= c <= 56 {
        Some(PlacementState { file: (st.file + (c - 48)) % 8, ..st })
    } else if is_piece_letter(c) {
        Some(
            PlacementState {
                file: (st.file + 1) % 8,
                squares: st.squares.update(st.rank * 8 + st.file, c),
                ..st
            },
        )
    } else {
        None
    }
}

/// The reader after the bytes of `p`; `None` once a byte is invalid.
pub open spec fn placement(p: Seq<u8>) -> Option<PlacementState>
    decreases p.len(),
{
    if p.len() == 0 {
        Some(placement_start())
    } else {
        match placement(p.drop_last()) {
            Some(st) => placement_step(st, p.last()),
            None => None,
        }
    }
}

/// The index of the first space of `s` at or after `i` (`s.len()` when there is none).
pub open spec fn space_from(s: Seq<u8>, i: int) -> int
    decreases s.len() - i,
{
    if i >= s.len() || i < 0 {
        s.len() as int
    } else if s[i] == 32 {
        i
    } else {
        space_from(s, i + 1)
    }
}

/// How many spaces `s` holds.
pub open spec fn space_count(s: Seq<u8>) -> nat
    decreases s.len(),
{
    if s.len() == 0 {
        0
    } else {
        space_count(s.drop_last()) + if s.last() == 32 {
            1nat
        } else {
            0nat
        }
    }
}

/// The side-to-move field of a FEN text: the bytes between its first and second space.
pub open spec fn side_field(fen: Seq<u8>) -> Seq<u8> {
    let e0 = space_from(fen, 0);
    fen.subrange(e0 + 1, space_from(fen, e0 + 1))
}

/// The king letter of the side that a side-to-move field names (`K` for `w` or `W`, `k`
/// for `b` or `B`), if it names one.
pub open spec fn king_letter(side: Seq<u8>) -> Option<u8> {
    if side.len() == 1 && (side[0] == 119 || side[0] == 87) {
        Some(75u8)
    } else if side.len() == 1 && (side[0] == 98 || side[0] == 66) {
        Some(107u8)
    } else {
        None
    }
}

/// Whether a FEN text, split at single spaces into at least four fields, with a valid
/// placement field and a valid side to move, puts a king of the side to move on the
/// board; a text that is refused before any board is built (fewer than four fields, an
/// invalid byte in the placement field or an invalid side to move) passes too.
pub open spec fn fen_king_ok(fen: Seq<u8>) -> bool {
    space_count(fen) < 3 || match placement(fen.subrange(0, space_from(fen, 0))) {
        None => true,
        Some(st) => match king_letter(side_field(fen)) {
            None => true,
            Some(k) => exists|i: int| 0 <= i < 64 && st.squares[i] == k,
        },
    }
}

proof fn lemma_space_from_bounds(s: Seq<u8>, i: int)
    requires
        0 <= i,
    ensures
        i <= space_from(s, i) <= s.len() || (i > s.len() && space_from(s, i) == s.len()),
        space_from(s, i) < s.len() ==> s[space_from(s, i)] == 32,
        forall|j: int| i <= j < space_from(s, i) ==> s[j] != 32,
    decreases s.len() - i,
{
    if i < s.len() && s[i] != 32 {
        lemma_space_from_bounds(s, i + 1);
    }
}

proof fn lemma_placement_none(p: Seq<u8>, i: int)
    requires
        0 <= i <= p.len(),
        placement(p.subrange(0, i)) is None,
    ensures
        placement(p) is None,
    decreases p.len() - i,
{
    if i < p.len() {
        assert(p.subrange(0, i + 1).drop_last() =~= p.subrange(0, i));
        lemma_placement_none(p, i + 1);
    } else {
        assert(p.subrange(0, i) =~= p);
    }
}

proof fn lemma_no_space_count(s: Seq<u8>)
    requires
        forall|j: int| 0 <= j < s.len() ==> s[j] != 32,
    ensures
        space_count(s) == 0,
    decreases s.len(),
{
    if s.len() > 0 {
        lemma_no_space_count(s.drop_last());
    }
}

/// The first space at or after `i`.
fn find_space(s: &[u8], i: usize) -> (r: usize)
    requires
        i <= s@.len(),
    ensures
        r as int == space_from(s@, i as int),
        i <= r <= s@.len(),
{
    let mut j: usize = i;
    while j < s.len() && s[j] != 32
        invariant
            i <= j <= s@.len(),
            space_from(s@, j as int) == space_from(s@, i as int),
        decreases s@.len() - j,
    {
        j += 1;
    }
    j
}

/// How many spaces `s` holds.
fn count_spaces(s: &[u8]) -> (r: usize)
    ensures
        r as int == space_count(s@),
{
    let mut n: usize = 0;
    let mut i: usize = 0;
    while i < s.len()
        invariant
            i <= s@.len(),
            n <= i,
            n as int == space_count(s@.subrange(0, i as int)),
        decreases s@.len() - i,
    {
        assert(s@.subrange(0, i + 1).drop_last() =~= s@.subrange(0, i as int));
        if s[i] == 32 {
            n += 1;
        }
        i += 1;
    }
    assert(s@.subrange(0, i as int) =~= s@);
    n
}

/// Whether the FEN text `fen` passes [fen_king_ok].
#[verifier::loop_isolation(false)]
pub fn check_fen_kings(fen: &[u8]) -> (r: bool)
    ensures
        r == fen_king_ok(fen@),
{
    if count_spaces(fen) < 3 {
        return true;
    }
    let e0 = find_space(fen, 0);
    let mut rank: usize = 7;
    let mut file: usize = 0;
    let mut squares: Vec<u8> = Vec::new();
    while squares.len() < 64
        invariant
            squares@.len() <= 64,
            forall|k: int| 0 <= k < squares@.len() ==> squares@[k] == 0,
        decreases 64 - squares@.len(),
    {
        squares.push(0);
    }
    assert(squares@ =~= placement_start().squares);
    let mut i: usize = 0;
    while i < e0
        invariant
            e0 <= fen@.len(),
            i <= e0,
            rank < 8,
            file < 8,
            squares@.len() == 64,
            placement(fen@.subrange(0, i as int)) == Some(
                PlacementState { rank: rank as int, file: file as int, squares: squares@ },
            ),
        decreases e0 - i,
    {
        let c = fen[i];
        assert(fen@.subrange(0, i + 1).drop_last() =~= fen@.subrange(0, i as int));
        assert(fen@.subrange(0, i + 1).last() == c);
        if c == 47 {
            rank = (rank + 7) % 8;
            file = 0;
        } else if 49 <= c && c <= 56 {
            file = (file + (c - 48) as usize) % 8;
        } else if c == 114 || c == 82 || c == 110 || c == 78 || c == 98 || c == 66 || c == 112
            || c == 80 || c == 113 || c == 81 || c == 107 || c == 75 {
            squares.set(rank * 8 + file, c);
            file = (file + 1) % 8;
        } else {
            assert(placement(fen@.subrange(0, i + 1)) is None);
            proof {
                assert(fen@.subrange(0, e0 as int).subrange(0, i + 1) =~= fen@.subrange(0, i + 1));
                lemma_placement_none(fen@.subrange(0, e0 as int), i as int + 1);
                assert(fen@.subrange(0, e0 as int).subrange(0, e0 as int) =~= fen@.subrange(0, e0 as int));
                lemma_space_from_bounds(fen@, 0);
            }
            return true;
        }
        i += 1;
    }
    assert(fen@.subrange(0, space_from(fen@, 0)) =~= fen@.subrange(0, i as int));
    proof {
        lemma_space_from_bounds(fen@, 0);
    }
    proof {
        if e0 as int == fen@.len() {
            lemma_no_space_count(fen@);
        }
    }
    assert(e0 < fen.len());
    let e1 = find_space(fen, e0 + 1);
    let ghost side = fen@.subrange(e0 + 1, e1 as int);
    assert(side == side_field(fen@));
    let king: u8 = if e1 - e0 == 2 && (fen[e0 + 1] == 119 || fen[e0 + 1] == 87) {
        assert(side =~= seq![fen@[e0 + 1]]);
        75
    } else if e1 - e0 == 2 && (fen[e0 + 1] == 98 || fen[e0 + 1] == 66) {
        assert(side =~= seq![fen@[e0 + 1]]);
        107
    } else {
        if e1 - e0 == 2 {
            assert(side =~= seq![fen@[e0 + 1]]);
        } else {
            assert(side.len() != 1);
        }
        0
    };
    assert(king_letter(side) == if king == 0 { None } else { Some(king) });
    if king == 0 {
        return true;
    }
    let mut k: usize = 0;
    while k < 64
        invariant
            k <= 64,
            squares@.len() == 64,
            forall|j: int| 0 <= j < k ==> squares@[j] != king,
        decreases 64 - k,
    {
        if squares[k] == king {
            let ghost st = placement(fen@.subrange(0, e0 as int))->0;
            assert(st.squares[k as int] == king);
            return true;
        }
        k += 1;
    }
    false
}

} // verus!
