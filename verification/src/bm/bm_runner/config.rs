use crate::bm::bm_eval::eval::{score_is_mate, score_mate_in, sign_of, Evaluation, MAX_EVAL};
use vstd::prelude::*;

verus! {

/// Search reports that are not shown at all.
#[derive(Debug, Clone)]
pub struct NoInfo;

/// Search reports in the CECP (xboard) "thinking output" format.
#[derive(Debug, Clone)]
pub struct XBoardInfo;

/// Search reports in the UCI `info` format.
#[derive(Debug, Clone)]
pub struct UciInfo;

/// The score field of a UCI `info` line.
#[derive(Debug, Clone, Copy, PartialEq, Eq)]
pub enum UciScore {
    /// `score mate <n>`
    Mate(i32),
    /// `score cp <n>`
    Cp(i32),
}

/// The fields of one line of CECP thinking output, before the principal variation.
#[derive(Debug, Clone, Copy, PartialEq, Eq)]
pub struct XBoardLine {
    pub depth: u32,
    pub score: i32,
    pub centiseconds: u64,
    pub nodes: u32,
}

/// The score that CECP is shown: `100000 * signum(m) + m` for a mate in `m`, else the raw score.
pub open spec fn spec_cecp_score(s: i32) -> int {
    if score_is_mate(s) {
        let m = score_mate_in(s).unwrap() as int;
        100000 * sign_of(m) + m
    } else {
        s as int
    }
}

/// Pads `string` with spaces to `len` bytes (a longer one is left as it is).
pub fn extend(string: &mut Vec<u8>, len: usize)
    ensures
        old(string)@.len() < len ==> final(string)@ == old(string)@ + Seq::new(
            (len - old(string)@.len()) as nat,
            |i: int| 32u8,
        ),
        old(string)@.len() >= len ==> final(string)@ == old(string)@,
{
    let ghost start = string@;
    let shorter = string.len() < len;
    while string.len() < len
        invariant
            string@.len() >= start.len(),
            shorter ==> string@.len() <= len,
            !shorter ==> string@ == start,
            shorter == (start.len() < len),
            string@.subrange(0, start.len() as int) == start,
            forall|i: int| start.len() <= i < string@.len() ==> string@[i] == 32u8,
        decreases len - string.len(),
    {
        string.push(32);
    }
    if shorter {
        assert(string@ =~= start + Seq::new((len - start.len()) as nat, |i: int| 32u8));
    }
}

impl NoInfo {
    pub fn new() -> (r: Self) {
        NoInfo
    }
}

impl XBoardInfo {
    pub fn new() -> (r: Self) {
        XBoardInfo
    }

    /// The score as a CECP engine reports it.
    pub fn cecp_score(eval: Evaluation) -> (r: i32)
        requires
            eval@ != i32::MIN,
        ensures
            r == spec_cecp_score(eval@),
    {
        if eval.is_mate() {
            let m = match eval.mate_in() {
                Some(m) => m,
                None => 0,
            };
            let sign: i32 = if m > 0 {
                1
            } else if m < 0 {
                -1
            } else {
                0
            };
            proof {
                let s = eval@;
                assert(score_mate_in(s) == Some(m));
                let a: int = if s < 0 { -s } else { s as int };
                assert(MAX_EVAL < a <= i32::MAX);
                let d: int = MAX_EVAL - a;
                assert(-64 <= d < 0);
                if s > 0 {
                    assert(sign_of(s as int) * d == d);
                } else {
                    assert(sign_of(s as int) * d == -d);
                }
                assert(m as int == sign_of(s as int) * d);
            }
            assert(-64 <= m <= 64);
            100000 * sign + m
        } else {
            eval.raw()
        }
    }

    /// The fields of the line that is printed for a finished iteration
    /// (the elapsed time is given in milliseconds and shown in centiseconds).
    pub fn info_line(&self, depth: u32, eval: Evaluation, elapsed_ms: u64, node_cnt: u32) -> (r:
        XBoardLine)
        requires
            eval@ != i32::MIN,
        ensures
            r.depth == depth,
            r.score == spec_cecp_score(eval@),
            r.centiseconds == elapsed_ms / 10,
            r.nodes == node_cnt,
    {
        XBoardLine {
            depth,
            score: Self::cecp_score(eval),
            centiseconds: elapsed_ms / 10,
            nodes: node_cnt,
        }
    }
}

impl UciInfo {
    pub fn new() -> (r: Self) {
        UciInfo
    }

    /// The score field of a UCI `info` line: `mate` with the mate distance, else `cp`.
    pub fn score(eval: Evaluation) -> (r: UciScore)
        requires
            eval@ != i32::MIN,
        ensures
            score_is_mate(eval@) ==> r == UciScore::Mate(score_mate_in(eval@).unwrap()),
            !score_is_mate(eval@) ==> r == UciScore::Cp(eval@),
    {
        if eval.is_mate() {
            match eval.mate_in() {
                Some(m) => UciScore::Mate(m),
                None => UciScore::Cp(eval.raw()),
            }
        } else {
            UciScore::Cp(eval.raw())
        }
    }
}

} // verus!
