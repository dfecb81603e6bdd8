use vstd::prelude::*;

verus! {

/// Distance (in plies) below the checkmate score that still counts as a mate score.
pub const CHECKMATE: i16 = 128;
/// Score of being able to deliver mate right now.
pub const CHECKMATE_EVAL: i16 = i16::MAX - 1024;
/// Largest score that is not a mate score.
pub const MAX_EVAL: i16 = CHECKMATE_EVAL - CHECKMATE;

/// Marker for "one ply deeper" used by [`Evaluation::shl_next`] and [`Evaluation::shr_next`].
pub enum Depth {
    Next,
}

/// A search score in centipawns, or a mate score close to `±CHECKMATE_EVAL`.
#[derive(Clone, Copy, Debug, Eq, PartialEq, PartialOrd, Ord)]
pub struct Evaluation {
    score: i16,
}

/// Clamps a mathematical integer into the `i16` range (what saturating `i16` arithmetic yields).
pub open spec fn sat_i16(x: int) -> i16 {
    if x > i16::MAX {
        i16::MAX
    } else if x < i16::MIN {
        i16::MIN
    } else {
        x as i16
    }
}

/// Division rounding toward zero, as Rust's integer `/` does.
pub open spec fn trunc_div(a: int, b: int) -> int {
    let q = (if a < 0 { -a } else { a }) / (if b < 0 { -b } else { b });
    if (a < 0) != (b < 0) {
        -q
    } else {
        q
    }
}

pub open spec fn sign_of(x: int) -> int {
    if x > 0 {
        1
    } else if x < 0 {
        -1
    } else {
        0
    }
}

/// A score is a mate score when its magnitude exceeds `MAX_EVAL`.
pub open spec fn score_is_mate(s: i16) -> bool {
    s > MAX_EVAL || s < -MAX_EVAL
}

pub open spec fn checkmate_score(mate_in: i16) -> i16 {
    if mate_in < 0 {
        (-CHECKMATE_EVAL - mate_in) as i16
    } else {
        (CHECKMATE_EVAL - mate_in) as i16
    }
}

/// Number of plies to mate (positive: the side to move mates, negative: it is mated).
pub open spec fn score_mate_in(s: i16) -> Option<i16> {
    if score_is_mate(s) {
        Some((sign_of(s as int) * (CHECKMATE_EVAL - (if s < 0 { -s } else { s as int }))) as i16)
    } else {
        None
    }
}

/// The score of a child node seen from its parent: negated, and one ply further from mate.
pub open spec fn score_next(s: i16) -> i16 {
    let sign = if score_is_mate(s) { sign_of(s as int) } else { 0 };
    sat_i16(sat_i16(-s) + sign)
}

/// `x.saturating_neg()` for `i16`.
pub fn saturating_neg_i16(x: i16) -> (r: i16)
    ensures
        r == sat_i16(-x),
{
    if x == i16::MIN {
        i16::MAX
    } else {
        -x
    }
}

/// `x.saturating_add(y)` for `i16`.
pub fn saturating_add_i16(x: i16, y: i16) -> (r: i16)
    ensures
        r == sat_i16(x + y),
{
    let s: i32 = x as i32 + y as i32;
    if s > i16::MAX as i32 {
        i16::MAX
    } else if s < i16::MIN as i32 {
        i16::MIN
    } else {
        s as i16
    }
}

impl View for Evaluation {
    type V = i16;

    closed spec fn view(&self) -> i16 {
        self.score
    }
}

impl Evaluation {
    pub fn new(score: i16) -> (r: Self)
        ensures
            r@ == score,
    {
        Self { score }
    }

    pub fn new_checkmate(mate_in: i16) -> (r: Self)
        ensures
            r@ == checkmate_score(mate_in),
    {
        Self {
            score: if mate_in < 0 {
                -CHECKMATE_EVAL - mate_in
            } else {
                CHECKMATE_EVAL - mate_in
            },
        }
    }

    pub fn is_mate(&self) -> (b: bool)
        ensures
            b == score_is_mate(self@),
    {
        self.score > MAX_EVAL || self.score < -MAX_EVAL
    }

    pub fn mate_in(&self) -> (r: Option<i16>)
        requires
            self@ != i16::MIN,
        ensures
            r == score_mate_in(self@),
    {
        if self.is_mate() {
            let abs: i16 = if self.score < 0 { -self.score } else { self.score };
            let d: i16 = CHECKMATE_EVAL - abs;
            if self.score > 0 {
                Some(d)
            } else {
                Some(-d)
            }
        } else {
            None
        }
    }

    pub fn raw(&self) -> (r: i16)
        ensures
            r == self@,
    {
        self.score
    }

    pub fn min() -> (r: Self)
        ensures
            r@ == -CHECKMATE_EVAL,
    {
        Self { score: -CHECKMATE_EVAL }
    }

    pub fn max() -> (r: Self)
        ensures
            r@ == CHECKMATE_EVAL,
    {
        Self { score: CHECKMATE_EVAL }
    }

    pub fn neg(self) -> (r: Self)
        requires
            self@ != i16::MIN,
        ensures
            r@ == -self@,
    {
        Self { score: -self.score }
    }

    /// The parent's view of a child's score (`eval << Next`).
    pub fn shl_next(self, _d: Depth) -> (r: Self)
        ensures
            r@ == score_next(self@),
    {
        let sign: i16 = if self.is_mate() {
            if self.score > 0 {
                1
            } else {
                -1
            }
        } else {
            0
        };
        Self { score: saturating_add_i16(saturating_neg_i16(self.score), sign) }
    }

    /// The child's view of a parent's bound (`eval >> Next`).
    pub fn shr_next(self, _d: Depth) -> (r: Self)
        ensures
            r@ == score_next(self@),
    {
        let sign: i16 = if self.is_mate() {
            if self.score > 0 {
                1
            } else {
                -1
            }
        } else {
            0
        };
        Self { score: saturating_add_i16(saturating_neg_i16(self.score), sign) }
    }

    pub fn add_i16(self, rhs: i16) -> (r: Self)
        requires
            i16::MIN <= self@ + rhs <= i16::MAX,
        ensures
            r@ == self@ + rhs,
    {
        Self { score: self.score + rhs }
    }

    pub fn sub_i16(self, rhs: i16) -> (r: Self)
        requires
            i16::MIN <= self@ - rhs <= i16::MAX,
        ensures
            r@ == self@ - rhs,
    {
        Self { score: self.score - rhs }
    }

    pub fn mul_i16(self, rhs: i16) -> (r: Self)
        requires
            i16::MIN <= self@ * rhs <= i16::MAX,
        ensures
            r@ == self@ * rhs,
    {
        Self { score: self.score * rhs }
    }

    /// Division by a positive divisor, truncating toward zero as `i16 /` does.
    pub fn div_i16(self, rhs: i16) -> (r: Self)
        requires
            rhs > 0,
        ensures
            r@ == trunc_div(self@ as int, rhs as int),
    {
        Self { score: self.score / rhs }
    }

    pub fn add_eval(self, rhs: Evaluation) -> (r: Self)
        requires
            i16::MIN <= self@ + rhs@ <= i16::MAX,
        ensures
            r@ == self@ + rhs@,
    {
        Self { score: self.score + rhs.score }
    }

    pub fn sub_eval(self, rhs: Evaluation) -> (r: Self)
        requires
            i16::MIN <= self@ - rhs@ <= i16::MAX,
        ensures
            r@ == self@ - rhs@,
    {
        Self { score: self.score - rhs.score }
    }

    /// `self < rhs` by score.
    pub fn lt(&self, rhs: &Evaluation) -> (b: bool)
        ensures
            b == (self@ < rhs@),
    {
        self.score < rhs.score
    }

    /// `self <= rhs` by score.
    pub fn le(&self, rhs: &Evaluation) -> (b: bool)
        ensures
            b == (self@ <= rhs@),
    {
        self.score <= rhs.score
    }
}

/// A mate score built from a distance in plies reports that same distance back.
pub proof fn lemma_mate_in_roundtrip(n: i16)
    requires
        -CHECKMATE < n < CHECKMATE,
    ensures
        score_is_mate(checkmate_score(n)),
        score_mate_in(checkmate_score(n)) == Some(n),
{
}

/// Shorter mates score higher, being mated later scores higher than being mated sooner,
/// and any mate for the side to move outranks any mate against it.
pub proof fn lemma_mate_ordering(a: i16, b: i16)
    requires
        -CHECKMATE < a < CHECKMATE,
        -CHECKMATE < b < CHECKMATE,
    ensures
        0 <= a < b ==> checkmate_score(a) > checkmate_score(b),
        a < b < 0 ==> checkmate_score(a) > checkmate_score(b),
        a < 0 <= b ==> checkmate_score(a) < checkmate_score(b),
{
}

/// A mate for the side to move beats every non-mate score; a mate against it loses to all of them.
pub proof fn lemma_mate_beats_eval(n: i16, s: i16)
    requires
        -CHECKMATE < n < CHECKMATE,
        !score_is_mate(s),
    ensures
        n >= 0 ==> checkmate_score(n) > s,
        n < 0 ==> checkmate_score(n) < s,
{
}

/// Seen from the parent, a mate in `n` plies is a mate against in one more ply.
pub proof fn lemma_next_of_mate(n: i16)
    requires
        -CHECKMATE < n < CHECKMATE,
    ensures
        score_next(checkmate_score(n)) == checkmate_score(
            if n >= 0 {
                (-(n + 1)) as i16
            } else {
                (1 - n) as i16
            },
        ),
{
}

/// Seen from the parent, an ordinary score is simply negated.
pub proof fn lemma_next_of_eval(s: i16)
    requires
        !score_is_mate(s),
    ensures
        score_next(s) == -s,
{
}

} // verus!
