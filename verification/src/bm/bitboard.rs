use crate::bm::chess_types::{bb_has, BitBoard, Square};
use vstd::prelude::*;

verus! {

/// Bit `sq` of `a | b` is set when it is set in `a` or in `b`.
pub broadcast proof fn lemma_bb_or(a: u64, b: u64, sq: int)
    requires
        0 <= sq < 64,
    ensures
        #[trigger] bb_has(a | b, sq) == (bb_has(a, sq) || bb_has(b, sq)),
{
    let t = sq as u64;
    assert(((a | b) >> t) & 1 == 1 <==> ((a >> t) & 1 == 1 || (b >> t) & 1 == 1)) by (bit_vector);
}

/// Bit `sq` of `a & b` is set when it is set in both.
pub broadcast proof fn lemma_bb_and(a: u64, b: u64, sq: int)
    requires
        0 <= sq < 64,
    ensures
        #[trigger] bb_has(a & b, sq) == (bb_has(a, sq) && bb_has(b, sq)),
{
    let t = sq as u64;
    assert(((a & b) >> t) & 1 == 1 <==> ((a >> t) & 1 == 1 && (b >> t) & 1 == 1)) by (bit_vector);
}

/// Bit `sq` of `!a` is set when it is clear in `a`.
pub broadcast proof fn lemma_bb_not(a: u64, sq: int)
    requires
        0 <= sq < 64,
    ensures
        #[trigger] bb_has(!a, sq) == !bb_has(a, sq),
{
    let t = sq as u64;
    assert(((!a) >> t) & 1 == 1 <==> !((a >> t) & 1 == 1)) by (bit_vector)
        requires
            t < 64,
    ;
}

/// The empty bitboard holds no square; the full one holds them all.
pub broadcast proof fn lemma_bb_const(sq: int)
    requires
        0 <= sq < 64,
    ensures
        !#[trigger] bb_has(0u64, sq),
        bb_has(0xFFFF_FFFF_FFFF_FFFFu64, sq),
{
    let t = sq as u64;
    assert(!((0u64 >> t) & 1 == 1) && (0xFFFF_FFFF_FFFF_FFFFu64 >> t) & 1 == 1) by (bit_vector)
        requires
            t < 64,
    ;
}

/// The bitboard `1 << s` holds exactly the square `s`.
pub broadcast proof fn lemma_bb_single(s: u64, sq: int)
    requires
        s < 64,
        0 <= sq < 64,
    ensures
        #[trigger] bb_has(1u64 << s, sq) == (sq == s),
{
    let t = sq as u64;
    assert(((1u64 << s) >> t) & 1 == 1 <==> t == s) by (bit_vector)
        requires
            s < 64,
            t < 64,
    ;
}

/// Shifting left by `k` moves every square up by `k`.
pub broadcast proof fn lemma_bb_shl(a: u64, k: u64, sq: int)
    requires
        k < 64,
        0 <= sq < 64,
    ensures
        #[trigger] bb_has(a << k, sq) == (sq >= k && bb_has(a, sq - k)),
{
    let t = sq as u64;
    assert(((a << k) >> t) & 1 == 1 <==> (t >= k && (a >> ((t - k) as u64)) & 1 == 1)) by (bit_vector)
        requires
            k < 64,
            t < 64,
    ;
}

/// Shifting right by `k` moves every square down by `k`.
pub broadcast proof fn lemma_bb_shr(a: u64, k: u64, sq: int)
    requires
        k < 64,
        0 <= sq < 64,
    ensures
        #[trigger] bb_has(a >> k, sq) == (sq + k < 64 && bb_has(a, sq + k)),
{
    let t = sq as u64;
    assert(((a >> k) >> t) & 1 == 1 <==> (t + k < 64 && (a >> ((t + k) as u64)) & 1 == 1)) by (bit_vector)
        requires
            k < 64,
            t < 64,
    ;
}

/// The squares of the A file.
pub const FILE_A: u64 = 0x0101_0101_0101_0101;

/// The squares of the H file.
pub const FILE_H: u64 = 0x8080_8080_8080_8080;

/// `FILE_A` holds the squares of file 0.
pub broadcast proof fn lemma_bb_file_a(sq: int)
    requires
        0 <= sq < 64,
    ensures
        #[trigger] bb_has(FILE_A, sq) == (sq % 8 == 0),
{
    let t = sq as u64;
    assert((0x0101_0101_0101_0101u64 >> t) & 1 == 1 <==> t % 8 == 0) by (bit_vector)
        requires
            t < 64,
    ;
}

/// `FILE_H` holds the squares of file 7.
pub broadcast proof fn lemma_bb_file_h(sq: int)
    requires
        0 <= sq < 64,
    ensures
        #[trigger] bb_has(FILE_H, sq) == (sq % 8 == 7),
{
    let t = sq as u64;
    assert((0x8080_8080_8080_8080u64 >> t) & 1 == 1 <==> t % 8 == 7) by (bit_vector)
        requires
            t < 64,
    ;
}

/// The square with the same file on the mirrored rank.
pub open spec fn mirror(t: int) -> int {
    (7 - t / 8) * 8 + t % 8
}

/// The bitboard with its ranks mirrored (rank 1 swapped with rank 8 and so on).
pub open spec fn spec_reverse_colors(bb: u64) -> u64 {
    let b1 = ((bb >> 8u64) & 0x00FF00FF00FF00FFu64) | ((bb & 0x00FF00FF00FF00FFu64) << 8u64);
    let b2 = ((b1 >> 16u64) & 0x0000FFFF0000FFFFu64) | ((b1 & 0x0000FFFF0000FFFFu64) << 16u64);
    (b2 >> 32u64) | (b2 << 32u64)
}

/// A square is in the mirrored bitboard when its mirror square is in the original.
pub broadcast proof fn lemma_reverse_colors_bits(bb: u64, sq: int)
    requires
        0 <= sq < 64,
    ensures
        #[trigger] bb_has(spec_reverse_colors(bb), sq) == bb_has(bb, mirror(sq)),
        0 <= mirror(sq) < 64,
{
    let t = sq as u64;
    assert(((spec_reverse_colors(bb) >> t) & 1 == 1 <==> (bb >> (t ^ 56u64)) & 1 == 1) && (t ^ 56u64) == (7 - t
        / 8) * 8 + t % 8) by (bit_vector)
        requires
            t < 64,
    ;
}

/// Mirroring the ranks twice gives back the bitboard.
pub proof fn lemma_reverse_colors_involution(bb: u64)
    ensures
        spec_reverse_colors(spec_reverse_colors(bb)) == bb,
{
    assert(spec_reverse_colors(spec_reverse_colors(bb)) == bb) by (bit_vector);
}

/// The squares of one file.
pub open spec fn spec_file_bb(file: int) -> u64 {
    0x0101_0101_0101_0101u64 << (file as u64)
}

pub broadcast proof fn lemma_file_bb(file: int, sq: int)
    requires
        0 <= file < 8,
        0 <= sq < 64,
    ensures
        #[trigger] bb_has(spec_file_bb(file), sq) == (sq % 8 == file),
{
    let t = sq as u64;
    let f = file as u64;
    assert(((0x0101_0101_0101_0101u64 << f) >> t) & 1 == 1 <==> t % 8 == f) by (bit_vector)
        requires
            t < 64,
            f < 8,
    ;
}

pub broadcast group group_bb {
    lemma_reverse_colors_bits,
    lemma_file_bb,
    lemma_bb_file_a,
    lemma_bb_file_h,
    lemma_bb_or,
    lemma_bb_and,
    lemma_bb_not,
    lemma_bb_const,
    lemma_bb_single,
    lemma_bb_shl,
    lemma_bb_shr,
}

/// The squares of a bitboard, as a predicate on square numbers.
pub open spec fn bits(bb: u64) -> spec_fn(int) -> bool {
    |s: int| 0 <= s < 64 && bb_has(bb, s)
}

/// The first square `s >= i` that satisfies `p`, or 64 when there is none.
pub open spec fn first_from(p: spec_fn(int) -> bool, i: int) -> int
    decreases 64 - i,
{
    if i >= 64 {
        64
    } else if p(i) {
        i
    } else {
        first_from(p, i + 1)
    }
}

/// `first_from` finds a square that satisfies `p`, and no smaller one from `i` on does.
pub proof fn lemma_first_from(p: spec_fn(int) -> bool, i: int)
    requires
        0 <= i <= 64,
    ensures
        i <= first_from(p, i) <= 64,
        first_from(p, i) < 64 ==> p(first_from(p, i)),
        forall|j: int| i <= j < first_from(p, i) ==> !#[trigger] p(j),
    decreases 64 - i,
{
    if i < 64 && !p(i) {
        lemma_first_from(p, i + 1);
    }
}

/// A bitboard is non-empty exactly when it holds some square.
pub proof fn lemma_bb_nonzero(x: u64)
    ensures
        x != 0 <==> exists|t: int| 0 <= t < 64 && #[trigger] bb_has(x, t),
{
    broadcast use vstd::std_specs::bits::axiom_u64_trailing_zeros;

    if x != 0 {
        let tz = vstd::std_specs::bits::u64_trailing_zeros(x);
        assert(bb_has(x, tz as int));
    } else {
        assert forall|t: int| 0 <= t < 64 implies !#[trigger] bb_has(x, t) by {
            lemma_bb_const(t);
        }
    }
}

/// Number of integers `t < n` (from 0) that satisfy `p`.
pub open spec fn count_upto(p: spec_fn(int) -> bool, n: int) -> int
    decreases n,
{
    if n <= 0 {
        0
    } else {
        count_upto(p, n - 1) + (if p(n - 1) { 1int } else { 0 })
    }
}

/// Counting the squares of a bitboard is counting the predicate that describes it.
pub proof fn lemma_count_ext(bb: u64, p: spec_fn(int) -> bool, n: int)
    requires
        0 <= n <= 64,
        forall|t: int| 0 <= t < n ==> (#[trigger] bb_has(bb, t) <==> p(t)),
    ensures
        spec_count(bb, n) == count_upto(p, n),
    decreases n,
{
    if n > 0 {
        lemma_count_ext(bb, p, n - 1);
        assert(bb_has(bb, n - 1) <==> p(n - 1));
    }
}

/// The sum of `f` over the squares `sq < n` of `bb`.
pub open spec fn sum_over(bb: u64, f: spec_fn(int) -> int, n: int) -> int
    decreases n,
{
    if n <= 0 {
        0
    } else {
        sum_over(bb, f, n - 1) + (if bb_has(bb, n - 1) { f(n - 1) } else { 0 })
    }
}

/// The sum of `f` over the integers `t < n` (from 0) that satisfy `p`.
pub open spec fn sum_pred(p: spec_fn(int) -> bool, f: spec_fn(int) -> int, n: int) -> int
    decreases n,
{
    if n <= 0 {
        0
    } else {
        sum_pred(p, f, n - 1) + (if p(n - 1) { f(n - 1) } else { 0 })
    }
}

/// Summing over the squares of a bitboard is summing over the predicate that describes it.
pub proof fn lemma_sum_ext(bb: u64, p: spec_fn(int) -> bool, f: spec_fn(int) -> int, n: int)
    requires
        0 <= n <= 64,
        forall|t: int| 0 <= t < n ==> (#[trigger] bb_has(bb, t) <==> p(t)),
    ensures
        sum_over(bb, f, n) == sum_pred(p, f, n),
    decreases n,
{
    if n > 0 {
        lemma_sum_ext(bb, p, f, n - 1);
        assert(bb_has(bb, n - 1) <==> p(n - 1));
    }
}

/// Sums of functions that agree on the squares agree.
pub proof fn lemma_sum_congr(bb: u64, f: spec_fn(int) -> int, g: spec_fn(int) -> int, n: int)
    requires
        forall|t: int| 0 <= t < n ==> #[trigger] f(t) == g(t),
    ensures
        sum_over(bb, f, n) == sum_over(bb, g, n),
    decreases n,
{
    if n > 0 {
        lemma_sum_congr(bb, f, g, n - 1);
        assert(f(n - 1) == g(n - 1));
    }
}

/// Number of squares `sq < n` in `bb`.
pub open spec fn spec_count(bb: u64, n: int) -> int
    decreases n,
{
    if n <= 0 {
        0
    } else {
        spec_count(bb, n - 1) + (if bb_has(bb, n - 1) { 1int } else { 0 })
    }
}

/// A count of squares below `n` is between 0 and `n`.
pub proof fn lemma_count_bounds(bb: u64, n: int)
    requires
        0 <= n,
    ensures
        0 <= spec_count(bb, n) <= n,
    decreases n,
{
    if n > 0 {
        lemma_count_bounds(bb, n - 1);
    }
}

/// The lowest square of a bitboard, `None` for the empty one.
pub fn lsb(bb: BitBoard) -> (r: Option<Square>)
    ensures
        match r {
            Some(sq) => sq < 64 && sq == first_from(bits(bb), 0),
            None => first_from(bits(bb), 0) == 64,
        },
{
    let mut i: u8 = 0;
    while i < 64
        invariant
            i <= 64,
            first_from(bits(bb), 0) == first_from(bits(bb), i as int),
        decreases 64 - i,
    {
        if (bb >> (i as u64)) & 1 == 1 {
            return Some(i);
        }
        i += 1;
    }
    None
}

/// Number of squares in a bitboard.
pub fn popcnt(bb: BitBoard) -> (r: u32)
    ensures
        r == spec_count(bb, 64),
        r <= 64,
{
    let mut n: u32 = 0;
    let mut i: u64 = 0;
    while i < 64
        invariant
            i <= 64,
            n == spec_count(bb, i as int),
            n <= i,
        decreases 64 - i,
    {
        if (bb >> i) & 1 == 1 {
            n += 1;
        }
        i += 1;
    }
    n
}

} // verus!
