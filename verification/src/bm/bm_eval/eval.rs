use vstd::prelude::*;

verus! {

/// Distance below the checkmate score that still counts as a mate score.
pub const CHECKMATE: i32 = 64;
/// Score of being able to deliver mate.
pub const CHECKMATE_EVAL: i32 = i32::MAX;
/// Largest score that is not a mate score.
pub const MAX_EVAL: i32 = CHECKMATE_EVAL - CHECKMATE;

/// Marker for "one ply deeper" used by [`Evaluation::shl_next`] and [`Evaluation::shr_next`].
pub enum Depth {
    Next,
}

/// A 32-bit search score, or a mate score close to `±CHECKMATE_EVAL`.
#[derive(Clone, Copy, Debug, Eq, PartialEq, PartialOrd, Ord)]
pub struct Evaluation {
    score: i32,
}

/// Clamps a mathematical integer into the `i32` range (what saturating `i32` arithmetic yields).
pub open spec fn sat_i32(x: int) -> i32 {
    if x > i32::MAX {
        i32::MAX
    } else if x < i32::MIN {
        i32::MIN
    } else {
        x as i32
    }
}

pub open spec fn sign_of(x: int) -> int {
    if x > 0 {
        1
    } else if x < 0 {
        -1
    } else {
        0
    }
}

/// A score is a mate score when its magnitude (saturated) exceeds `MAX_EVAL`.
pub open spec fn score_is_mate(s: i32) -> bool {
    s > MAX_EVAL || s < -MAX_EVAL
}

pub open spec fn checkmate_score(mate_in: i32) -> i32 {
    if mate_in < 0 {
        (-CHECKMATE_EVAL - mate_in - 1) as i32
    } else {
        (CHECKMATE_EVAL - mate_in + 1) as i32
    }
}

pub open spec fn score_mate_in(s: i32) -> Option<i32> {
    if score_is_mate(s) {
        Some((sign_of(s as int) * (MAX_EVAL - (if s < 0 { -s } else { s as int }))) as i32)
    } else {
        None
    }
}

pub open spec fn mate_sign(s: i32) -> int {
    if score_is_mate(s) { sign_of(s as int) } else { 0 }
}

/// `eval << Next`: negate (saturating), then step one ply toward the mating side.
pub open spec fn score_shl_next(s: i32) -> i32 {
    sat_i32(sat_i32(-s) + mate_sign(s))
}

/// `eval >> Next`: step one ply, then negate (saturating).
pub open spec fn score_shr_next(s: i32) -> i32 {
    sat_i32(-sat_i32(s + mate_sign(s)))
}

/// Division rounding toward zero, as Rust's integer `/` does.
pub open spec fn trunc_div(a: int, b: int) -> int {
    let q = (if a < 0 { -a } else { a }) / (if b < 0 { -b } else { b });
    if (a < 0) != (b < 0) {
        -q
    } else {
        q
    }
}

fn saturating_neg_i32(x: i32) -> (r: i32)
    ensures
        r == sat_i32(-x),
{
    if x == i32::MIN {
        i32::MAX
    } else {
        -x
    }
}

fn saturating_add_i32(x: i32, y: i32) -> (r: i32)
    ensures
        r == sat_i32(x + y),
{
    let s: i64 = x as i64 + y as i64;
    if s > i32::MAX as i64 {
        i32::MAX
    } else if s < i32::MIN as i64 {
        i32::MIN
    } else {
        s as i32
    }
}

impl View for Evaluation {
    type V = i32;

    closed spec fn view(&self) -> i32 {
        self.score
    }
}

impl Evaluation {
    pub fn new(score: i32) -> (r: Self)
        ensures
            r@ == score,
    {
        Self { score }
    }

    /// Mate in `mate_in` plies (`mate_in == 0` overflows the score and is not accepted).
    pub fn new_checkmate(mate_in: i32) -> (r: Self)
        requires
            mate_in != 0,
        ensures
            r@ == checkmate_score(mate_in),
    {
        Self {
            score: if mate_in < 0 {
                -CHECKMATE_EVAL - mate_in - 1
            } else {
                CHECKMATE_EVAL - mate_in + 1
            },
        }
    }

    pub fn is_mate(&self) -> (b: bool)
        ensures
            b == score_is_mate(self@),
    {
        self.score > MAX_EVAL || self.score < -MAX_EVAL
    }

    pub fn mate_in(&self) -> (r: Option<i32>)
        requires
            self@ != i32::MIN,
        ensures
            r == score_mate_in(self@),
    {
        if self.is_mate() {
            let sign: i32 = if self.score > 0 {
                1
            } else if self.score < 0 {
                -1
            } else {
                0
            };
            let abs: i32 = if self.score < 0 { -self.score } else { self.score };
            let dist: i32 = MAX_EVAL - abs;
            assert(-64 <= dist < 0);
            Some(sign * dist)
        } else {
            None
        }
    }

    pub fn raw(&self) -> (r: i32)
        ensures
            r == self@,
    {
        self.score
    }

    pub fn min() -> (r: Self)
        ensures
            r@ == -CHECKMATE_EVAL,
    {
        Self { score: -CHECKMATE_EVAL }
    }

    pub fn max() -> (r: Self)
        ensures
            r@ == CHECKMATE_EVAL,
    {
        Self { score: CHECKMATE_EVAL }
    }

    pub fn neg(self) -> (r: Self)
        requires
            self@ != i32::MIN,
        ensures
            r@ == -self@,
    {
        Self { score: -self.score }
    }

    fn mate_step(&self) -> (r: i32)
        ensures
            r == mate_sign(self@),
    {
        if self.is_mate() {
            if self.score > 0 {
                1
            } else {
                -1
            }
        } else {
            0
        }
    }

    /// The parent's view of a child's score (`eval << Next`).
    pub fn shl_next(self, _d: Depth) -> (r: Self)
        ensures
            r@ == score_shl_next(self@),
    {
        let sign = self.mate_step();
        Self { score: saturating_add_i32(saturating_neg_i32(self.score), sign) }
    }

    /// The child's view of a parent's bound (`eval >> Next`).
    pub fn shr_next(self, _d: Depth) -> (r: Self)
        ensures
            r@ == score_shr_next(self@),
    {
        let sign = self.mate_step();
        Self { score: saturating_neg_i32(saturating_add_i32(self.score, sign)) }
    }

    pub fn add_i32(self, rhs: i32) -> (r: Self)
        requires
            i32::MIN <= self@ + rhs <= i32::MAX,
        ensures
            r@ == self@ + rhs,
    {
        Self { score: self.score + rhs }
    }

    pub fn sub_i32(self, rhs: i32) -> (r: Self)
        requires
            i32::MIN <= self@ - rhs <= i32::MAX,
        ensures
            r@ == self@ - rhs,
    {
        Self { score: self.score - rhs }
    }

    pub fn mul_i32(self, rhs: i32) -> (r: Self)
        requires
            i32::MIN <= self@ * rhs <= i32::MAX,
        ensures
            r@ == self@ * rhs,
    {
        Self { score: self.score * rhs }
    }

    /// Division by a positive divisor, truncating toward zero as `i32 /` does.
    pub fn div_i32(self, rhs: i32) -> (r: Self)
        requires
            rhs > 0,
        ensures
            r@ == trunc_div(self@ as int, rhs as int),
    {
        Self { score: self.score / rhs }
    }

    pub fn add_eval(self, rhs: Evaluation) -> (r: Self)
        requires
            i32::MIN <= self@ + rhs@ <= i32::MAX,
        ensures
            r@ == self@ + rhs@,
    {
        Self { score: self.score + rhs.score }
    }

    pub fn sub_eval(self, rhs: Evaluation) -> (r: Self)
        requires
            i32::MIN <= self@ - rhs@ <= i32::MAX,
        ensures
            r@ == self@ - rhs@,
    {
        Self { score: self.score - rhs.score }
    }
}

/// Shorter mates score higher, being mated later scores higher than being mated sooner,
/// and any mate for the side to move outranks any mate against it.
pub proof fn lemma_mate_ordering(a: i32, b: i32)
    requires
        a != 0,
        b != 0,
    ensures
        0 < a < b ==> checkmate_score(a) > checkmate_score(b),
        a < b < 0 ==> checkmate_score(a) > checkmate_score(b),
        a < 0 < b ==> checkmate_score(a) < checkmate_score(b),
{
}

/// A mate for the side to move within `CHECKMATE` plies beats every non-mate score,
/// and a mate against it loses to all of them.
pub proof fn lemma_mate_beats_eval(n: i32, s: i32)
    requires
        -CHECKMATE < n < CHECKMATE,
        n != 0,
        !score_is_mate(s),
    ensures
        score_is_mate(checkmate_score(n)),
        n > 0 ==> checkmate_score(n) > s,
        n < 0 ==> checkmate_score(n) < s,
{
}

/// Ordinary scores are simply negated when passed between plies, in either direction.
pub proof fn lemma_next_of_eval(s: i32)
    requires
        !score_is_mate(s),
    ensures
        score_shl_next(s) == -s,
        score_shr_next(s) == -s,
{
}

} // verus!
