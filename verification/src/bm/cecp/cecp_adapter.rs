use crate::bm::cecp::fen_kings::{check_fen_kings, fen_king_ok};
use crate::bm::chess_types::{Board, Color, Move};
use vstd::prelude::*;
use vstd::string::StringSliceAdditionalSpecFns;

verus! {

/// A command of the Chess Engine Communication Protocol.
#[derive(Debug, Clone, PartialEq, Eq)]
pub enum CecpCommand {
    XBoard,
    Move(Move),
    /// The ping's argument (empty when there is none).
    Ping(Vec<u8>),
    /// The position read from the FEN text.
    SetBoard(Board),
    Level(i64, i64, i64),
    /// The time left, in centiseconds.
    Time(i64),
    /// The time per move, in seconds, as written.
    SetTime(Vec<u8>),
    Cores(u8),
    Eval,
    Go,
    New,
    MoveNow,
    Force,
    Quit,
    Bench,
    Perf,
    Empty,
}

/// The meaning of a command, with its text arguments as byte sequences.
pub enum CecpView {
    XBoard,
    Move(Move),
    Ping(Seq<u8>),
    SetBoard(Board),
    Level(i64, i64, i64),
    Time(i64),
    SetTime(Seq<u8>),
    Cores(u8),
    Eval,
    Go,
    New,
    MoveNow,
    Force,
    Quit,
    Bench,
    Perf,
    Empty,
}

pub open spec fn view_cmd(c: CecpCommand) -> CecpView {
    match c {
        CecpCommand::XBoard => CecpView::XBoard,
        CecpCommand::Move(m) => CecpView::Move(m),
        CecpCommand::Ping(v) => CecpView::Ping(v@),
        CecpCommand::SetBoard(b) => CecpView::SetBoard(b),
        CecpCommand::Level(a, b, c) => CecpView::Level(a, b, c),
        CecpCommand::Time(t) => CecpView::Time(t),
        CecpCommand::SetTime(v) => CecpView::SetTime(v@),
        CecpCommand::Cores(n) => CecpView::Cores(n),
        CecpCommand::Eval => CecpView::Eval,
        CecpCommand::Go => CecpView::Go,
        CecpCommand::New => CecpView::New,
        CecpCommand::MoveNow => CecpView::MoveNow,
        CecpCommand::Force => CecpView::Force,
        CecpCommand::Quit => CecpView::Quit,
        CecpCommand::Bench => CecpView::Bench,
        CecpCommand::Perf => CecpView::Perf,
        CecpCommand::Empty => CecpView::Empty,
    }
}

/// `b` is one of the ASCII whitespace bytes (space, tab, line feed, form feed, return).
pub open spec fn is_ws(b: u8) -> bool {
    b == 32 || b == 9 || b == 10 || b == 12 || b == 13
}

/// The whitespace-separated tokens of `s` from `i` on, as `(start, end)` ranges; `start`
/// is where the token being read began, if one is.
pub open spec fn tokens_from(s: Seq<u8>, i: int, start: Option<int>) -> Seq<(int, int)>
    decreases s.len() - i,
{
    if i >= s.len() {
        match start {
            Some(a) => seq![(a, s.len() as int)],
            None => Seq::empty(),
        }
    } else if is_ws(s[i]) {
        match start {
            Some(a) => seq![(a, i)] + tokens_from(s, i + 1, None),
            None => tokens_from(s, i + 1, None),
        }
    } else {
        match start {
            Some(a) => tokens_from(s, i + 1, Some(a)),
            None => tokens_from(s, i + 1, Some(i)),
        }
    }
}

pub open spec fn tokens(s: Seq<u8>) -> Seq<(int, int)> {
    tokens_from(s, 0, None)
}

/// The `k`-th token of `s`.
pub open spec fn token(s: Seq<u8>, k: int) -> Seq<u8> {
    s.subrange(tokens(s)[k].0, tokens(s)[k].1)
}

pub open spec fn is_digit(b: u8) -> bool {
    48 <= b <= 57
}

/// The number written by the decimal digits `d`.
pub open spec fn digits_value(d: Seq<u8>) -> int
    decreases d.len(),
{
    if d.len() == 0 {
        0
    } else {
        digits_value(d.drop_last()) * 10 + (d.last() - 48)
    }
}

/// A non-empty run of decimal digits.
pub open spec fn all_digits(d: Seq<u8>) -> bool {
    d.len() > 0 && forall|i: int| 0 <= i < d.len() ==> #[trigger] is_digit(d[i])
}

/// What `str::parse::<i64>` gives: an optional `+` or `-`, decimal digits, in range.
pub open spec fn spec_parse_i64(s: Seq<u8>) -> Option<i64> {
    let neg = s.len() > 0 && s[0] == 45;
    let d = if s.len() > 0 && (s[0] == 45 || s[0] == 43) {
        s.drop_first()
    } else {
        s
    };
    let v = if neg {
        -digits_value(d)
    } else {
        digits_value(d)
    };
    if all_digits(d) && i64::MIN <= v <= i64::MAX {
        Some(v as i64)
    } else {
        None
    }
}

/// What `str::parse::<u8>` gives: an optional `+`, decimal digits, at most 255.
pub open spec fn spec_parse_u8(s: Seq<u8>) -> Option<u8> {
    let d = if s.len() > 0 && s[0] == 43 {
        s.drop_first()
    } else {
        s
    };
    if all_digits(d) && digits_value(d) <= 255 {
        Some(digits_value(d) as u8)
    } else {
        None
    }
}

/// A file letter `a` to `h`, a rank digit `1` to `8`.
pub open spec fn is_file(b: u8) -> bool {
    97 <= b <= 104
}

pub open spec fn is_rank(b: u8) -> bool {
    49 <= b <= 56
}

/// What `chess::ChessMove::from_str` reads: two squares in coordinate notation and, for a
/// text of exactly five bytes, a promotion letter `q`, `r`, `n` or `b`; longer texts are
/// read for their first four bytes.
pub open spec fn spec_uci_move(s: Seq<u8>) -> Option<Move> {
    if s.len() < 4 || !is_file(s[0]) || !is_rank(s[1]) || !is_file(s[2]) || !is_rank(s[3]) {
        None
    } else {
        let from = ((s[1] - 49) * 8 + (s[0] - 97)) as u8;
        let to = ((s[3] - 49) * 8 + (s[2] - 97)) as u8;
        if s.len() == 5 {
            if s[4] == 113 {
                Some(Move { from, to, promotion: Some(4u8) })
            } else if s[4] == 114 {
                Some(Move { from, to, promotion: Some(3u8) })
            } else if s[4] == 110 {
                Some(Move { from, to, promotion: Some(1u8) })
            } else if s[4] == 98 {
                Some(Move { from, to, promotion: Some(2u8) })
            } else {
                None
            }
        } else {
            Some(Move { from, to, promotion: None })
        }
    }
}

/// Calls `chess::ChessMove::from_str` on the whole input and gives the move it reads, as
/// [spec_uci_move] states.
#[verifier::external_body]
fn parse_uci_move(input: &str) -> (r: Option<Move>)
    ensures
        r == spec_uci_move(input.spec_bytes()),
{
    match <chess::ChessMove as std::str::FromStr>::from_str(input) {
        Ok(m) => Some(Move {
            from: m.get_source().to_index() as u8,
            to: m.get_dest().to_index() as u8,
            promotion: match m.get_promotion() {
                Some(p) => Some(p.to_index() as u8),
                None => None,
            },
        }),
        Err(_) => None,
    }
}


/// The tokens of `s`, as `(start, end)` ranges.
pub fn tokenize(s: &[u8]) -> (r: Vec<(usize, usize)>)
    ensures
        r@.len() == tokens(s@).len(),
        forall|k: int|
            0 <= k < r@.len() ==> #[trigger] r@[k].0 as int == tokens(s@)[k].0 && r@[k].1 as int == tokens(
                s@,
            )[k].1,
        forall|k: int| 0 <= k < r@.len() ==> #[trigger] r@[k].0 < r@[k].1 <= s@.len(),
{
    let mut acc: Vec<(usize, usize)> = Vec::new();
    let ghost mut gacc: Seq<(int, int)> = Seq::empty();
    let mut start: Option<usize> = None;
    let mut i: usize = 0;
    while i < s.len()
        invariant
            i <= s@.len(),
            gacc + tokens_from(s@, i as int, match start {
                Some(a) => Some(a as int),
                None => None,
            }) == tokens(s@),
            acc@.len() == gacc.len(),
            forall|k: int| 0 <= k < acc@.len() ==> #[trigger] acc@[k].0 as int == gacc[k].0 && acc@[k].1 as int == gacc[k].1,
            forall|k: int| 0 <= k < acc@.len() ==> #[trigger] acc@[k].0 < acc@[k].1 <= i,
            start matches Some(a) ==> a < i,
        decreases s@.len() - i,
    {
        let b = s[i];
        let ws = b == 32 || b == 9 || b == 10 || b == 12 || b == 13;
        if ws {
            if let Some(a) = start {
                acc.push((a, i));
                proof {
                    gacc = gacc.push((a as int, i as int));
                    assert(seq![(a as int, i as int)] + tokens_from(s@, i + 1, None) == tokens_from(s@, i as int, Some(a as int)));
                    assert(gacc + tokens_from(s@, i + 1, None) =~= gacc.drop_last() + (seq![(a as int, i as int)] + tokens_from(s@, i + 1, None)));
                }
            }
            start = None;
        } else if start.is_none() {
            start = Some(i);
        }
        i += 1;
    }
    if let Some(a) = start {
        acc.push((a, s.len()));
        proof {
            gacc = gacc.push((a as int, s@.len() as int));
        }
    }
    proof {
        assert(gacc =~= tokens(s@));
    }
    acc
}

proof fn lemma_digits_value_monotone(d: Seq<u8>, k: int)
    requires
        0 <= k <= d.len(),
        forall|i: int| 0 <= i < d.len() ==> #[trigger] is_digit(d[i]),
    ensures
        digits_value(d.subrange(0, k)) <= digits_value(d),
        digits_value(d) >= 0,
    decreases d.len() - k,
{
    if k < d.len() {
        lemma_digits_value_monotone(d, k + 1);
        let a = d.subrange(0, k);
        let b = d.subrange(0, k + 1);
        assert(b.drop_last() =~= a);
        assert forall|i: int| 0 <= i < a.len() implies #[trigger] is_digit(a[i]) by {
            assert(is_digit(d[i]));
        }
        lemma_digits_value_nonneg(a);
        assert(is_digit(d[k]));
        assert(b.last() == d[k]);
        assert(digits_value(b) == digits_value(a) * 10 + (d[k] - 48));
    } else {
        assert(d.subrange(0, k) =~= d);
        lemma_digits_value_nonneg(d);
    }
}

proof fn lemma_digits_value_nonneg(d: Seq<u8>)
    requires
        forall|i: int| 0 <= i < d.len() ==> #[trigger] is_digit(d[i]),
    ensures
        digits_value(d) >= 0,
    decreases d.len(),
{
    if d.len() > 0 {
        lemma_digits_value_nonneg(d.drop_last());
        assert(is_digit(d[d.len() - 1]));
    }
}

/// The digits of `s[start..end]` as a number, `None` when they are not all digits or the
/// number is above `bound`.
fn digits_upto(s: &[u8], start: usize, end: usize, bound: u64) -> (r: Option<u64>)
    requires
        start <= end <= s@.len(),
        bound < 0x1000_0000_0000_0000_0,
    ensures
        match r {
            Some(v) => all_digits(s@.subrange(start as int, end as int)) && v == digits_value(
                s@.subrange(start as int, end as int),
            ) && v <= bound,
            None => !all_digits(s@.subrange(start as int, end as int)) || digits_value(
                s@.subrange(start as int, end as int),
            ) > bound,
        },
{
    if start == end {
        return None;
    }
    let ghost d = s@.subrange(start as int, end as int);
    let mut v: u64 = 0;
    let mut i: usize = start;
    while i < end
        invariant
            start <= i <= end <= s@.len(),
            d == s@.subrange(start as int, end as int),
            bound < 0x1000_0000_0000_0000_0,
            forall|j: int| 0 <= j < i - start ==> #[trigger] is_digit(d[j]),
            v == digits_value(d.subrange(0, i - start)),
            v <= bound,
        decreases end - i,
    {
        let b = s[i];
        if !(48 <= b && b <= 57) {
            assert(!is_digit(d[i - start]));
            return None;
        }
        assert(d.subrange(0, i - start + 1).drop_last() =~= d.subrange(0, i - start));
        let nv: u128 = v as u128 * 10 + (b - 48) as u128;
        if nv > bound as u128 {
            proof {
                assert forall|j: int| 0 <= j < i - start + 1 implies #[trigger] is_digit(d.subrange(0, i - start + 1)[j]) by {
                    if j < i - start {
                        assert(is_digit(d[j]));
                    }
                }
                if all_digits(d) {
                    lemma_digits_value_monotone(d, i - start + 1);
                }
            }
            return None;
        }
        v = nv as u64;
        i += 1;
    }
    assert(d.subrange(0, end - start) =~= d);
    Some(v)
}

/// `str::parse::<i64>` on `s[start..end]`.
pub fn parse_i64(s: &[u8], start: usize, end: usize) -> (r: Option<i64>)
    requires
        start <= end <= s@.len(),
    ensures
        r == spec_parse_i64(s@.subrange(start as int, end as int)),
{
    let ghost t = s@.subrange(start as int, end as int);
    if start < end && (s[start] == 45 || s[start] == 43) {
        let neg = s[start] == 45;
        assert(t.drop_first() =~= s@.subrange(start + 1, end as int));
        let bound: u64 = if neg {
            0x8000_0000_0000_0000
        } else {
            0x7FFF_FFFF_FFFF_FFFF
        };
        match digits_upto(s, start + 1, end, bound) {
            Some(v) => {
                if neg {
                    if v == 0x8000_0000_0000_0000 {
                        Some(i64::MIN)
                    } else {
                        Some(-(v as i64))
                    }
                } else {
                    Some(v as i64)
                }
            },
            None => None,
        }
    } else {
        match digits_upto(s, start, end, 0x7FFF_FFFF_FFFF_FFFF) {
            Some(v) => Some(v as i64),
            None => None,
        }
    }
}

/// `str::parse::<u8>` on `s[start..end]`.
pub fn parse_u8(s: &[u8], start: usize, end: usize) -> (r: Option<u8>)
    requires
        start <= end <= s@.len(),
    ensures
        r == spec_parse_u8(s@.subrange(start as int, end as int)),
{
    let ghost t = s@.subrange(start as int, end as int);
    let begin = if start < end && s[start] == 43 {
        assert(t.drop_first() =~= s@.subrange(start + 1, end as int));
        start + 1
    } else {
        start
    };
    match digits_upto(s, begin, end, 255) {
        Some(v) => Some(v as u8),
        None => None,
    }
}

/// What `str::parse::<u32>` gives: an optional `+`, decimal digits, at most `u32::MAX`.
pub open spec fn spec_parse_u32(s: Seq<u8>) -> Option<u32> {
    let d = if s.len() > 0 && s[0] == 43 {
        s.drop_first()
    } else {
        s
    };
    if all_digits(d) && digits_value(d) <= u32::MAX {
        Some(digits_value(d) as u32)
    } else {
        None
    }
}

/// `str::parse::<u32>` on `s[start..end]`.
pub fn parse_u32(s: &[u8], start: usize, end: usize) -> (r: Option<u32>)
    requires
        start <= end <= s@.len(),
    ensures
        r == spec_parse_u32(s@.subrange(start as int, end as int)),
{
    let ghost t = s@.subrange(start as int, end as int);
    let begin = if start < end && s[start] == 43 {
        assert(t.drop_first() =~= s@.subrange(start + 1, end as int));
        start + 1
    } else {
        start
    };
    match digits_upto(s, begin, end, 0xFFFF_FFFF) {
        Some(v) => Some(v as u32),
        None => None,
    }
}


/// What `str::parse::<i16>` gives: an optional sign, decimal digits, within `i16`.
pub open spec fn spec_parse_i16(s: Seq<u8>) -> Option<i16> {
    match spec_parse_i64(s) {
        Some(v) => if i16::MIN <= v <= i16::MAX {
            Some(v as i16)
        } else {
            None
        },
        None => None,
    }
}

/// `str::parse::<i16>` on `s[start..end]`.
pub fn parse_i16(s: &[u8], start: usize, end: usize) -> (r: Option<i16>)
    requires
        start <= end <= s@.len(),
    ensures
        r == spec_parse_i16(s@.subrange(start as int, end as int)),
{
    match parse_i64(s, start, end) {
        Some(v) => if i16::MIN as i64 <= v && v <= i16::MAX as i64 {
            Some(v as i16)
        } else {
            None
        },
        None => None,
    }
}

/// What `str::parse::<usize>` gives: an optional `+`, decimal digits, at most `usize::MAX`.
pub open spec fn spec_parse_usize(s: Seq<u8>) -> Option<usize> {
    let d = if s.len() > 0 && s[0] == 43 {
        s.drop_first()
    } else {
        s
    };
    if all_digits(d) && digits_value(d) <= usize::MAX {
        Some(digits_value(d) as usize)
    } else {
        None
    }
}

/// `str::parse::<usize>` on `s[start..end]`.
pub fn parse_usize(s: &[u8], start: usize, end: usize) -> (r: Option<usize>)
    requires
        start <= end <= s@.len(),
    ensures
        r == spec_parse_usize(s@.subrange(start as int, end as int)),
{
    let ghost t = s@.subrange(start as int, end as int);
    let begin = if start < end && s[start] == 43 {
        assert(t.drop_first() =~= s@.subrange(start + 1, end as int));
        start + 1
    } else {
        start
    };
    match digits_upto(s, begin, end, usize::MAX as u64) {
        Some(v) => Some(v as usize),
        None => None,
    }
}

/// `xboard`
pub const KW_XBOARD: [u8; 6] = [120, 98, 111, 97, 114, 100];
/// `level`
pub const KW_LEVEL: [u8; 5] = [108, 101, 118, 101, 108];
/// `ping`
pub const KW_PING: [u8; 4] = [112, 105, 110, 103];
/// `time`
pub const KW_TIME: [u8; 4] = [116, 105, 109, 101];
/// `st`
pub const KW_ST: [u8; 2] = [115, 116];
/// `cores`
pub const KW_CORES: [u8; 5] = [99, 111, 114, 101, 115];
/// `setboard`
pub const KW_SETBOARD: [u8; 8] = [115, 101, 116, 98, 111, 97, 114, 100];
/// `new`
pub const KW_NEW: [u8; 3] = [110, 101, 119];
/// `force`
pub const KW_FORCE: [u8; 5] = [102, 111, 114, 99, 101];
/// `go`
pub const KW_GO: [u8; 2] = [103, 111];
/// `?`
pub const KW_MOVE_NOW: [u8; 1] = [63];
/// `quit`
pub const KW_QUIT: [u8; 4] = [113, 117, 105, 116];
/// `eval`
pub const KW_EVAL: [u8; 4] = [101, 118, 97, 108];
/// `bench`
pub const KW_BENCH: [u8; 5] = [98, 101, 110, 99, 104];
/// `perf`
pub const KW_PERF: [u8; 4] = [112, 101, 114, 102];

/// The first index from `i` on where `t` holds `c`, or its length.
pub open spec fn find_byte(t: Seq<u8>, c: u8, i: int) -> int
    decreases t.len() - i,
{
    if i >= t.len() {
        t.len() as int
    } else if t[i] == c {
        i
    } else {
        find_byte(t, c, i + 1)
    }
}

pub open spec fn parse_or_zero(t: Seq<u8>) -> int {
    match spec_parse_i64(t) {
        Some(v) => v as int,
        None => 0,
    }
}

/// The seconds of a `minutes:seconds` time control (a lone number is minutes).
pub open spec fn level_seconds(t: Seq<u8>) -> int {
    let c1 = find_byte(t, 58, 0);
    let p0 = parse_or_zero(t.subrange(0, c1));
    let p1 = if c1 < t.len() {
        parse_or_zero(t.subrange(c1 + 1, find_byte(t, 58, c1 + 1)))
    } else {
        0
    };
    60 * p0 + p1
}

/// A `level` command's time control stays within `i64`.
pub open spec fn level_fits(t: Seq<u8>) -> bool {
    let c1 = find_byte(t, 58, 0);
    let p0 = parse_or_zero(t.subrange(0, c1));
    i64::MIN <= 60 * p0 <= i64::MAX && i64::MIN <= level_seconds(t) <= i64::MAX
}

/// The tokens `k` and on, each followed by a space.
pub open spec fn joined_from(b: Seq<u8>, k: int) -> Seq<u8>
    decreases tokens(b).len() - k,
{
    if k >= tokens(b).len() {
        Seq::empty()
    } else {
        token(b, k).push(32) + joined_from(b, k + 1)
    }
}

pub open spec fn arg_or_zero(b: Seq<u8>, k: int) -> i64 {
    if tokens(b).len() > k {
        parse_or_zero(token(b, k)) as i64
    } else {
        0
    }
}

/// The command a line holds, read from its tokens.
pub open spec fn spec_cecp_tokens(b: Seq<u8>) -> CecpView {
    let n = tokens(b).len();
    if n == 0 {
        CecpView::Empty
    } else {
        let t0 = token(b, 0);
        if t0 == KW_XBOARD@ {
            CecpView::XBoard
        } else if t0 == KW_LEVEL@ {
            CecpView::Level(
                arg_or_zero(b, 1),
                if n > 2 {
                    level_seconds(token(b, 2)) as i64
                } else {
                    0
                },
                arg_or_zero(b, 3),
            )
        } else if t0 == KW_PING@ {
            CecpView::Ping(
                if n > 1 {
                    token(b, 1)
                } else {
                    Seq::empty()
                },
            )
        } else if t0 == KW_TIME@ {
            if n > 1 && spec_parse_i64(token(b, 1)) is Some {
                CecpView::Time(spec_parse_i64(token(b, 1))->0)
            } else {
                CecpView::Empty
            }
        } else if t0 == KW_ST@ {
            if n > 1 && float_text(token(b, 1)) {
                CecpView::SetTime(token(b, 1))
            } else {
                CecpView::Empty
            }
        } else if t0 == KW_CORES@ {
            if n > 1 && spec_parse_u8(token(b, 1)) is Some {
                CecpView::Cores(spec_parse_u8(token(b, 1))->0)
            } else {
                CecpView::Empty
            }
        } else if t0 == KW_SETBOARD@ {
            if fen_king_ok(joined_from(b, 1)) {
                match fen_board(joined_from(b, 1)) {
                    Some(board) => CecpView::SetBoard(board),
                    None => CecpView::Empty,
                }
            } else {
                CecpView::Empty
            }
        } else if t0 == KW_NEW@ {
            CecpView::New
        } else if t0 == KW_FORCE@ {
            CecpView::Force
        } else if t0 == KW_GO@ {
            CecpView::Go
        } else if t0 == KW_MOVE_NOW@ {
            CecpView::MoveNow
        } else if t0 == KW_QUIT@ {
            CecpView::Quit
        } else if t0 == KW_EVAL@ {
            CecpView::Eval
        } else if t0 == KW_BENCH@ {
            CecpView::Bench
        } else if t0 == KW_PERF@ {
            CecpView::Perf
        } else {
            CecpView::Empty
        }
    }
}

/// The command a line holds: a move in coordinate notation, else a command read from
/// its tokens.
pub open spec fn spec_cecp(b: Seq<u8>) -> CecpView {
    match spec_uci_move(b) {
        Some(m) => CecpView::Move(m),
        None => spec_cecp_tokens(b),
    }
}

/// A `level` command's time control stays within `i64`.
pub open spec fn level_ok(b: Seq<u8>) -> bool {
    (tokens(b).len() > 2 && token(b, 0) == KW_LEVEL@) ==> level_fits(token(b, 2))
}

/// Whether `s[start..end]` is the keyword `kw`.
fn is_keyword(s: &[u8], start: usize, end: usize, kw: &[u8]) -> (r: bool)
    requires
        start <= end <= s@.len(),
    ensures
        r == (s@.subrange(start as int, end as int) == kw@),
{
    if end - start != kw.len() {
        return false;
    }
    let mut i: usize = 0;
    while i < kw.len()
        invariant
            start <= end <= s@.len(),
            end - start == kw@.len(),
            i <= kw@.len(),
            forall|j: int| 0 <= j < i ==> s@[start + j] == kw@[j],
        decreases kw@.len() - i,
    {
        if s[start + i] != kw[i] {
            assert(s@.subrange(start as int, end as int)[i as int] != kw@[i as int]);
            return false;
        }
        i += 1;
    }
    assert(s@.subrange(start as int, end as int) =~= kw@);
    true
}

/// The first index from `i` up to `end` where `s` holds `c`, or `end`.
fn find(s: &[u8], c: u8, i: usize, end: usize) -> (r: usize)
    requires
        i <= end <= s@.len(),
    ensures
        i <= r <= end,
        r - i == find_byte(s@.subrange(i as int, end as int), c, 0),
{
    let ghost t = s@.subrange(i as int, end as int);
    let mut j = i;
    while j < end
        invariant
            i <= j <= end <= s@.len(),
            t == s@.subrange(i as int, end as int),
            find_byte(t, c, 0) == find_byte(t, c, j - i),
        decreases end - j,
    {
        if s[j] == c {
            return j;
        }
        j += 1;
    }
    j
}

proof fn lemma_find_shift(t: Seq<u8>, c: u8, a: int, i: int)
    requires
        0 <= a <= i <= t.len(),
    ensures
        find_byte(t, c, i) - a == find_byte(t.subrange(a, t.len() as int), c, i - a),
    decreases t.len() - i,
{
    if i < t.len() {
        lemma_find_shift(t, c, a, i + 1);
    }
}


/// The seconds of the time control `s[a..e]`.
fn level_time(s: &[u8], a: usize, e: usize) -> (r: i64)
    requires
        a <= e <= s@.len(),
        level_fits(s@.subrange(a as int, e as int)),
    ensures
        r == level_seconds(s@.subrange(a as int, e as int)),
{
    let ghost t = s@.subrange(a as int, e as int);
    let c1 = find(s, 58, a, e);
    assert(t.subrange(0, c1 - a) =~= s@.subrange(a as int, c1 as int));
    let p0: i64 = match parse_i64(s, a, c1) {
        Some(v) => v,
        None => 0,
    };
    let mut time_left: i64 = 60 * p0;
    if c1 < e {
        let c2 = find(s, 58, c1 + 1, e);
        proof {
            lemma_find_shift(t, 58, c1 - a + 1, c1 - a + 1);
            assert(t.subrange(c1 - a + 1, t.len() as int) =~= s@.subrange(c1 + 1, e as int));
            assert(t.subrange(c1 - a + 1, find_byte(t, 58, c1 - a + 1)) =~= s@.subrange(c1 + 1, c2 as int));
        }
        let p1: i64 = match parse_i64(s, c1 + 1, c2) {
            Some(v) => v,
            None => 0,
        };
        time_left = time_left + p1;
    }
    time_left
}

/// Appends the bytes of `s[a..e]`.
fn push_range(out: &mut Vec<u8>, s: &[u8], a: usize, e: usize)
    requires
        a <= e <= s@.len(),
    ensures
        final(out)@ == old(out)@ + s@.subrange(a as int, e as int),
{
    let mut j = a;
    while j < e
        invariant
            a <= j <= e <= s@.len(),
            out@ == old(out)@ + s@.subrange(a as int, j as int),
        decreases e - j,
    {
        out.push(s[j]);
        assert(s@.subrange(a as int, j + 1) =~= s@.subrange(a as int, j as int).push(s@[j as int]));
        j += 1;
    }
}

fn arg_i64(s: &[u8], toks: &Vec<(usize, usize)>, k: usize) -> (r: i64)
    requires
        toks@.len() == tokens(s@).len(),
        forall|i: int|
            0 <= i < toks@.len() ==> #[trigger] toks@[i].0 as int == tokens(s@)[i].0 && toks@[i].1 as int == tokens(
                s@,
            )[i].1,
        forall|i: int| 0 <= i < toks@.len() ==> #[trigger] toks@[i].0 < toks@[i].1 <= s@.len(),
    ensures
        r == arg_or_zero(s@, k as int),
{
    if k < toks.len() {
        let (a, e) = toks[k];
        match parse_i64(s, a, e) {
            Some(v) => v,
            None => 0,
        }
    } else {
        0
    }
}


/// An ASCII letter in lower case.
pub open spec fn lower(b: u8) -> u8 {
    if 65 <= b <= 90 {
        (b + 32) as u8
    } else {
        b
    }
}

pub open spec fn lowered(t: Seq<u8>) -> Seq<u8> {
    Seq::new(t.len(), |i: int| lower(t[i]))
}

/// Every byte of `t[a..e]` is a decimal digit.
pub open spec fn digits_in(t: Seq<u8>, a: int, e: int) -> bool {
    forall|k: int| a <= k < e ==> #[trigger] is_digit(t[k])
}

/// The first index from `i` on that holds an exponent letter `e` or `E`, or the length.
pub open spec fn exp_at(t: Seq<u8>, i: int) -> int
    decreases t.len() - i,
{
    if i >= t.len() {
        t.len() as int
    } else if lower(t[i]) == 101 {
        i
    } else {
        exp_at(t, i + 1)
    }
}

/// A decimal number as `str::parse::<f32>` documents it: digits with at most one point and
/// at least one digit, then optionally `e`, an optional sign and at least one digit.
pub open spec fn number_text(t: Seq<u8>) -> bool {
    let e = exp_at(t, 0);
    let dot = find_byte(t, 46, 0);
    let d = if dot < e { dot } else { e };
    let mantissa_digits = if d < e { e - 1 } else { e };
    let f = if e + 1 < t.len() && (t[e + 1] == 43 || t[e + 1] == 45) { e + 2 } else { e + 1 };
    &&& digits_in(t, 0, d)
    &&& digits_in(t, d + 1, e)
    &&& mantissa_digits > 0
    &&& (e < t.len() ==> f < t.len() && digits_in(t, f, t.len() as int))
}

/// `inf`
pub const WORD_INF: [u8; 3] = [105, 110, 102];
/// `infinity`
pub const WORD_INFINITY: [u8; 8] = [105, 110, 102, 105, 110, 105, 116, 121];
/// `nan`
pub const WORD_NAN: [u8; 3] = [110, 97, 110];

/// What `str::parse::<f32>` accepts: an optional sign, then `inf`, `infinity` or `nan`
/// (in any case) or a decimal number.
pub open spec fn float_text(s: Seq<u8>) -> bool {
    let t = if s.len() > 0 && (s[0] == 43 || s[0] == 45) { s.drop_first() } else { s };
    ||| lowered(t) == WORD_INF@
    ||| lowered(t) == WORD_INFINITY@
    ||| lowered(t) == WORD_NAN@
    ||| number_text(t)
}

fn lower_byte(b: u8) -> (r: u8)
    ensures
        r == lower(b),
{
    if 65 <= b && b <= 90 {
        b + 32
    } else {
        b
    }
}

fn lowered_is(t: &Vec<u8>, a: usize, word: &[u8]) -> (r: bool)
    requires
        a <= t@.len(),
    ensures
        r == (lowered(t@.skip(a as int)) == word@),
{
    let ghost u = t@.skip(a as int);
    if t.len() - a != word.len() {
        return false;
    }
    let mut i: usize = 0;
    while i < word.len()
        invariant
            i <= word@.len(),
            word@.len() + a == t@.len(),
            t@.len() <= usize::MAX,
            u == t@.skip(a as int),
            forall|j: int| 0 <= j < i ==> lowered(u)[j] == word@[j],
        decreases word@.len() - i,
    {
        assert(a + i < t@.len());
        if lower_byte(t[a + i]) != word[i] {
            assert(lowered(u)[i as int] != word@[i as int]);
            return false;
        }
        i += 1;
    }
    assert(lowered(u) =~= word@);
    true
}

fn digits_between(t: &Vec<u8>, a: usize, e: usize) -> (r: bool)
    requires
        e <= t@.len(),
    ensures
        r == digits_in(t@, a as int, e as int),
{
    let mut k = a;
    while k < e
        invariant
            a <= k,
            e <= t@.len(),
            forall|j: int| a <= j < k ==> #[trigger] is_digit(t@[j]),
        decreases e - k,
    {
        if !(48 <= t[k] && t[k] <= 57) {
            assert(!is_digit(t@[k as int]));
            return false;
        }
        k += 1;
    }
    true
}

fn number_ok(t: &Vec<u8>, a: usize) -> (r: bool)
    requires
        a <= t@.len(),
    ensures
        r == number_text(t@.skip(a as int)),
{
    let ghost u = t@.skip(a as int);
    let mut e = a;
    while e < t.len() && lower_byte(t[e]) != 101
        invariant
            a <= e <= t@.len(),
            u == t@.skip(a as int),
            exp_at(u, 0) == exp_at(u, e - a),
        decreases t@.len() - e,
    {
        e += 1;
    }
    assert(exp_at(u, 0) == e - a);
    let mut dot = a;
    while dot < t.len() && t[dot] != 46
        invariant
            a <= dot <= t@.len(),
            u == t@.skip(a as int),
            find_byte(u, 46, 0) == find_byte(u, 46, dot - a),
        decreases t@.len() - dot,
    {
        dot += 1;
    }
    assert(find_byte(u, 46, 0) == dot - a);
    let d = if dot < e { dot } else { e };
    let mantissa_digits = if d < e { e - a - 1 } else { e - a };
    let n = t.len();
    let ok_int = digits_between(t, a, d);
    let ok_frac = if d < e { digits_between(t, d + 1, e) } else { true };
    proof {
        assert(digits_in(t@, a as int, d as int) == digits_in(u, 0, d - a)) by {
            assert forall|k: int| 0 <= k < d - a implies #[trigger] u[k] == t@[k + a] by {}
            if digits_in(u, 0, d - a) {
                assert forall|k: int| a <= k < d implies #[trigger] is_digit(t@[k]) by {
                    assert(u[k - a] == t@[k]);
                }
            }
            if digits_in(t@, a as int, d as int) {
                assert forall|k: int| 0 <= k < d - a implies #[trigger] is_digit(u[k]) by {
                    assert(u[k] == t@[k + a]);
                }
            }
        }
        assert(digits_in(t@, d + 1, e as int) == digits_in(u, d + 1 - a, e - a)) by {
            if digits_in(u, d + 1 - a, e - a) {
                assert forall|k: int| d + 1 <= k < e implies #[trigger] is_digit(t@[k]) by {
                    assert(u[k - a] == t@[k]);
                }
            }
            if digits_in(t@, d + 1, e as int) {
                assert forall|k: int| d + 1 - a <= k < e - a implies #[trigger] is_digit(u[k]) by {
                    assert(u[k] == t@[k + a]);
                }
            }
        }
    }
    if !(ok_int && ok_frac && mantissa_digits > 0) {
        return false;
    }
    if e < n {
        let f = if e + 1 < n && (t[e + 1] == 43 || t[e + 1] == 45) { e + 2 } else { e + 1 };
        if f >= n {
            return false;
        }
        let ok_exp = digits_between(t, f, n);
        proof {
            assert(digits_in(t@, f as int, n as int) == digits_in(u, f - a, u.len() as int)) by {
                if digits_in(u, f - a, u.len() as int) {
                    assert forall|k: int| f <= k < n implies #[trigger] is_digit(t@[k]) by {
                        assert(u[k - a] == t@[k]);
                    }
                }
                if digits_in(t@, f as int, n as int) {
                    assert forall|k: int| f - a <= k < u.len() implies #[trigger] is_digit(u[k]) by {
                        assert(u[k] == t@[k + a]);
                    }
                }
            }
        }
        ok_exp
    } else {
        true
    }
}

/// Whether `str::parse::<f32>` accepts `t`.
pub fn is_float_text(t: &Vec<u8>) -> (r: bool)
    ensures
        r == float_text(t@),
{
    let a: usize = if t.len() > 0 && (t[0] == 43 || t[0] == 45) { 1 } else { 0 };
    proof {
        if a == 1 {
            assert(t@.skip(1) =~= t@.drop_first());
        } else {
            assert(t@.skip(0) =~= t@);
        }
    }
    lowered_is(t, a, WORD_INF.as_slice()) || lowered_is(t, a, WORD_INFINITY.as_slice()) || lowered_is(
        t,
        a,
        WORD_NAN.as_slice(),
    ) || number_ok(t, a)
}

/// Names the board that `chess::Board::from_str` reads from a FEN text (`None` for a
/// text it refuses).
pub uninterp spec fn fen_board(fen: Seq<u8>) -> Option<Board>;

/// Calls `chess::Board::from_str` on the FEN text (taken as UTF-8; a text that is not
/// UTF-8 gives `None`) and converts the board it reads: pieces, colors, side to move, the
/// crate's hash and the checkers. The contract only names the result: what FEN texts the
/// parser accepts and which board each gives is left to the outside crate. The parser does
/// not keep a halfmove clock, so the converted board's clock is 0. The parser looks for
/// the king of the side to move before it checks the board, so a text that would build a
/// board without that king is not handed to it.
#[verifier::external_body]
fn parse_fen(fen: &[u8]) -> (r: Option<Board>)
    requires
        fen_king_ok(fen@),
    ensures
        r == fen_board(fen@),
{
    let b: chess::Board = std::str::from_utf8(fen).ok()?.parse().ok()?;
    let side_to_move = match b.side_to_move() {
        chess::Color::White => Color::White,
        chess::Color::Black => Color::Black,
    };
    Some(Board {
        pieces: chess::ALL_PIECES.map(|k| b.pieces(k).0),
        colors: chess::ALL_COLORS.map(|k| b.color_combined(k).0),
        side_to_move,
        hash: b.get_hash(),
        checkers: b.checkers().0,
        halfmove_clock: 0,
    })
}

/// The FEN text `fen` gives a board with a king of the side to move.
pub open spec fn fen_accepted(fen: Seq<u8>) -> bool {
    fen_king_ok(fen) && fen_board(fen) is Some
}

/// A `setboard` line holds a FEN text that gives a board (see [fen_accepted]).
pub open spec fn setboard_ok(b: Seq<u8>) -> bool {
    (spec_uci_move(b) is None && tokens(b).len() > 0 && token(b, 0) == KW_SETBOARD@) ==> fen_accepted(joined_from(b, 1))
}

/// The tokens of `s` after the first, each followed by one space.
#[verifier::loop_isolation(false)]
fn join_tokens(s: &[u8], toks: &Vec<(usize, usize)>) -> (r: Vec<u8>)
    requires
        toks@.len() == tokens(s@).len(),
        toks@.len() > 0,
        forall|i: int|
            0 <= i < toks@.len() ==> #[trigger] toks@[i].0 as int == tokens(s@)[i].0 && toks@[i].1 as int == tokens(s@)[i].1,
        forall|i: int| 0 <= i < toks@.len() ==> #[trigger] toks@[i].0 < toks@[i].1 <= s@.len(),
    ensures
        r@ == joined_from(s@, 1),
{
    let n = toks.len();
    let mut fen: Vec<u8> = Vec::new();
    let mut k: usize = 1;
    while k < n
        invariant
            1 <= k <= n,
            n == toks@.len(),
            fen@ + joined_from(s@, k as int) == joined_from(s@, 1),
        decreases n - k,
    {
        let (a, e) = toks[k];
        let ghost before = fen@;
        push_range(&mut fen, s, a, e);
        fen.push(32);
        assert(fen@ + joined_from(s@, k + 1) =~= before + joined_from(s@, k as int));
        k += 1;
    }
    assert(fen@ =~= joined_from(s@, 1));
    fen
}

/// Whether `s` is a `setboard` line whose FEN text gives no board.
fn refused_setboard(s: &[u8]) -> (r: bool)
    ensures
        r == (tokens(s@).len() > 0 && token(s@, 0) == KW_SETBOARD@ && !fen_accepted(joined_from(s@, 1))),
{
    let toks = tokenize(s);
    if toks.len() == 0 {
        return false;
    }
    let (a0, e0) = toks[0];
    if !is_keyword(s, a0, e0, KW_SETBOARD.as_slice()) {
        return false;
    }
    let fen = join_tokens(s, &toks);
    !check_fen_kings(fen.as_slice()) || parse_fen(fen.as_slice()).is_none()
}

/// The command held by the tokens of `s`.
fn parse_tokens(s: &[u8]) -> (r: CecpCommand)
    requires
        level_ok(s@),
    ensures
        view_cmd(r) == spec_cecp_tokens(s@),
{
    let toks = tokenize(s);
    let n = toks.len();
    if n == 0 {
        return CecpCommand::Empty;
    }
    let (a0, e0) = toks[0];
    if is_keyword(s, a0, e0, KW_XBOARD.as_slice()) {
        CecpCommand::XBoard
    } else if is_keyword(s, a0, e0, KW_LEVEL.as_slice()) {
        let moves = arg_i64(s, &toks, 1);
        let time_left = if n > 2 {
            let (a, e) = toks[2];
            level_time(s, a, e)
        } else {
            0
        };
        let increment = arg_i64(s, &toks, 3);
        CecpCommand::Level(moves, time_left, increment)
    } else if is_keyword(s, a0, e0, KW_PING.as_slice()) {
        let mut number: Vec<u8> = Vec::new();
        if n > 1 {
            let (a, e) = toks[1];
            push_range(&mut number, s, a, e);
            assert(number@ =~= token(s@, 1));
        }
        CecpCommand::Ping(number)
    } else if is_keyword(s, a0, e0, KW_TIME.as_slice()) {
        if n > 1 {
            let (a, e) = toks[1];
            if let Some(v) = parse_i64(s, a, e) {
                return CecpCommand::Time(v);
            }
        }
        CecpCommand::Empty
    } else if is_keyword(s, a0, e0, KW_ST.as_slice()) {
        if n > 1 {
            let (a, e) = toks[1];
            let mut seconds: Vec<u8> = Vec::new();
            push_range(&mut seconds, s, a, e);
            assert(seconds@ =~= token(s@, 1));
            if is_float_text(&seconds) {
                return CecpCommand::SetTime(seconds);
            }
        }
        CecpCommand::Empty
    } else if is_keyword(s, a0, e0, KW_CORES.as_slice()) {
        if n > 1 {
            let (a, e) = toks[1];
            if let Some(v) = parse_u8(s, a, e) {
                return CecpCommand::Cores(v);
            }
        }
        CecpCommand::Empty
    } else if is_keyword(s, a0, e0, KW_SETBOARD.as_slice()) {
        let fen = join_tokens(s, &toks);
        if !check_fen_kings(fen.as_slice()) {
            return CecpCommand::Empty;
        }
        match parse_fen(fen.as_slice()) {
            Some(board) => CecpCommand::SetBoard(board),
            None => CecpCommand::Empty,
        }
    } else if is_keyword(s, a0, e0, KW_NEW.as_slice()) {
        CecpCommand::New
    } else if is_keyword(s, a0, e0, KW_FORCE.as_slice()) {
        CecpCommand::Force
    } else if is_keyword(s, a0, e0, KW_GO.as_slice()) {
        CecpCommand::Go
    } else if is_keyword(s, a0, e0, KW_MOVE_NOW.as_slice()) {
        CecpCommand::MoveNow
    } else if is_keyword(s, a0, e0, KW_QUIT.as_slice()) {
        CecpCommand::Quit
    } else if is_keyword(s, a0, e0, KW_EVAL.as_slice()) {
        CecpCommand::Eval
    } else if is_keyword(s, a0, e0, KW_BENCH.as_slice()) {
        CecpCommand::Bench
    } else if is_keyword(s, a0, e0, KW_PERF.as_slice()) {
        CecpCommand::Perf
    } else {
        CecpCommand::Empty
    }
}

/// Whether the line `input` passes [setboard_ok].
fn setboard_accepted(input: &str) -> (r: bool)
    ensures
        r == setboard_ok(input.spec_bytes()),
{
    if parse_uci_move(input).is_some() {
        return true;
    }
    !refused_setboard(input.as_bytes())
}

impl CecpCommand {
    /// Reads one line of input (a `setboard` line must hold a FEN text the parser accepts).
    pub fn new(input: &str) -> (r: Self)
        requires
            level_ok(input.spec_bytes()),
            setboard_ok(input.spec_bytes()),
        ensures
            view_cmd(r) == spec_cecp(input.spec_bytes()),
    {
        if let Some(m) = parse_uci_move(input) {
            return CecpCommand::Move(m);
        }
        let bytes = input.as_bytes();
        parse_tokens(bytes)
    }

    /// Reads one line of input; `None` for a `setboard` line whose FEN text the parser
    /// refuses.
    pub fn try_new(input: &str) -> (r: Option<Self>)
        requires
            level_ok(input.spec_bytes()),
        ensures
            r is None <==> !setboard_ok(input.spec_bytes()),
            r matches Some(c) ==> view_cmd(c) == spec_cecp(input.spec_bytes()),
    {
        if setboard_accepted(input) {
            Some(Self::new(input))
        } else {
            None
        }
    }
}

/// Which of the time managers governs the next search.
#[derive(Debug, Copy, Clone, PartialEq, Eq)]
pub enum TimeManagerType {
    ConstDepth,
    ConstTime,
    Normal,
}

/// The time left on the engine's clock, as the last `level` or `time` command gave it.
#[derive(Debug, Copy, Clone, PartialEq, Eq)]
pub enum TimeLeft {
    /// The base time of a `level` command, taken as seconds.
    Seconds(i64),
    /// The time of a `time` command, in centiseconds.
    Centiseconds(i64),
}

/// What the engine front end does for a command, in order.
#[derive(Debug, Clone, PartialEq, Eq)]
pub enum CecpAction {
    /// Print the feature line and `done=1`.
    Features,
    /// Play a move on the engine's board.
    MakeMove(Move),
    /// Search the position with the time left and the number of threads, play the best move
    /// and print it.
    Search(TimeLeft, u8),
    /// Print `pong` with the ping's argument.
    Pong(Vec<u8>),
    /// Set up the position.
    SetBoard(Board),
    /// Set up the starting position.
    NewGame,
    /// Print the static evaluation.
    PrintEval,
    /// Switch the time manager.
    SetMode(TimeManagerType),
    /// Give the constant-time manager this many seconds (as written).
    SetConstTime(Vec<u8>),
    /// Give the constant-time manager whole seconds.
    SetConstTimeSecs(u64),
    /// Give the constant-depth manager a depth.
    SetConstDepth(u32),
    /// Search every benchmark position and print the speed.
    Bench,
}

/// The state of the CECP front end between commands.
#[derive(Debug, Copy, Clone, PartialEq, Eq)]
pub struct CecpAdapter {
    pub current_time_manager: TimeManagerType,
    pub forced: bool,
    pub time_left: TimeLeft,
    pub threads: u8,
}

/// The state after a command, whether input goes on, and the actions, in order.
pub open spec fn spec_handle(s: CecpAdapter, c: CecpCommand) -> (CecpAdapter, bool, Seq<CecpAction>) {
    match c {
        CecpCommand::XBoard => (s, true, seq![CecpAction::Features]),
        CecpCommand::Move(m) => if s.forced {
            (s, true, seq![CecpAction::MakeMove(m)])
        } else {
            (
                CecpAdapter { forced: false, ..s },
                true,
                seq![CecpAction::MakeMove(m), CecpAction::Search(s.time_left, s.threads)],
            )
        },
        CecpCommand::Ping(n) => (s, true, seq![CecpAction::Pong(n)]),
        CecpCommand::SetBoard(b) => (s, true, seq![CecpAction::SetBoard(b)]),
        CecpCommand::Level(_, t, _) => (
            CecpAdapter { time_left: TimeLeft::Seconds(t), current_time_manager: TimeManagerType::Normal, ..s },
            true,
            seq![CecpAction::SetMode(TimeManagerType::Normal)],
        ),
        CecpCommand::Time(t) => (
            CecpAdapter { time_left: TimeLeft::Centiseconds(t), current_time_manager: TimeManagerType::Normal, ..s },
            true,
            seq![CecpAction::SetMode(TimeManagerType::Normal)],
        ),
        CecpCommand::SetTime(t) => (
            CecpAdapter { current_time_manager: TimeManagerType::ConstTime, ..s },
            true,
            seq![CecpAction::SetMode(TimeManagerType::ConstTime), CecpAction::SetConstTime(t)],
        ),
        CecpCommand::Go => (
            CecpAdapter { forced: false, ..s },
            true,
            seq![CecpAction::Search(s.time_left, s.threads)],
        ),
        CecpCommand::New => (s, true, seq![CecpAction::NewGame]),
        CecpCommand::Eval => (s, true, seq![CecpAction::PrintEval]),
        CecpCommand::Cores(n) => (CecpAdapter { threads: n, ..s }, true, Seq::empty()),
        CecpCommand::Force => (CecpAdapter { forced: true, ..s }, true, Seq::empty()),
        CecpCommand::Quit => (s, false, Seq::empty()),
        CecpCommand::Bench => (
            s,
            true,
            seq![
                CecpAction::SetMode(TimeManagerType::ConstDepth),
                CecpAction::SetConstDepth(8),
                CecpAction::Bench,
            ],
        ),
        CecpCommand::Perf => (
            s,
            true,
            seq![
                CecpAction::SetMode(TimeManagerType::ConstTime),
                CecpAction::SetConstTimeSecs(1),
                CecpAction::Bench,
            ],
        ),
        CecpCommand::Empty => (s, true, Seq::empty()),
        CecpCommand::MoveNow => (s, true, Seq::empty()),
    }
}

/// In force mode the engine plays the moves it is sent and does not answer them; `go`
/// leaves force mode and searches.
pub proof fn lemma_force_mode(s: CecpAdapter, m: Move)
    ensures
        ({
            let forced = spec_handle(s, CecpCommand::Force).0;
            &&& forced.forced
            &&& spec_handle(forced, CecpCommand::Move(m)).2 == seq![CecpAction::MakeMove(m)]
            &&& spec_handle(forced, CecpCommand::Move(m)).0 == forced
            &&& !spec_handle(forced, CecpCommand::Go).0.forced
            &&& spec_handle(forced, CecpCommand::Go).2 == seq![CecpAction::Search(s.time_left, s.threads)]
        }),
{
}

/// The feature line the engine announces: `feature ping=1 setboard=1 analyze=0 time=1 smp=1`.
pub const FEATURES: [u8; 48] = [
    102, 101, 97, 116, 117, 114, 101, 32, 112, 105, 110, 103, 61, 49, 32, 115, 101, 116, 98, 111,
    97, 114, 100, 61, 49, 32, 97, 110, 97, 108, 121, 122, 101, 61, 48, 32, 116, 105, 109, 101, 61,
    49, 32, 115, 109, 112, 61, 49,
];

impl CecpAdapter {
    pub fn new() -> (r: Self)
        ensures
            r.current_time_manager == TimeManagerType::Normal,
            !r.forced,
            r.time_left == TimeLeft::Centiseconds(0),
            r.threads == 1,
    {
        CecpAdapter {
            current_time_manager: TimeManagerType::Normal,
            forced: false,
            time_left: TimeLeft::Centiseconds(0),
            threads: 1,
        }
    }

    /// The feature line sent in answer to `xboard`.
    pub fn features(&self) -> (r: Vec<u8>)
        ensures
            r@ == FEATURES@,
    {
        let mut out: Vec<u8> = Vec::new();
        let mut i: usize = 0;
        while i < 48
            invariant
                i <= 48,
                out@ == FEATURES@.take(i as int),
            decreases 48 - i,
        {
            out.push(FEATURES[i]);
            i += 1;
        }
        assert(FEATURES@.take(48) =~= FEATURES@);
        out
    }

    /// Decides what a command does: the new state, whether to read more input (`false`
    /// after `quit`), and the actions for the front end to carry out in order. A move is
    /// answered by a search unless the engine is in force mode; `go` leaves force mode.
    pub fn handle(&mut self, command: CecpCommand) -> (r: (bool, Vec<CecpAction>))
        ensures
            ({
                let (s, go_on, actions) = spec_handle(*old(self), command);
                &&& *final(self) == s
                &&& r.0 == go_on
                &&& r.1@ == actions
            }),
    {
        let mut actions: Vec<CecpAction> = Vec::new();
        let go_on = match command {
            CecpCommand::XBoard => {
                actions.push(CecpAction::Features);
                true
            },
            CecpCommand::Move(m) => {
                actions.push(CecpAction::MakeMove(m));
                if !self.forced {
                    self.forced = false;
                    actions.push(CecpAction::Search(self.time_left, self.threads));
                }
                true
            },
            CecpCommand::Ping(n) => {
                actions.push(CecpAction::Pong(n));
                true
            },
            CecpCommand::SetBoard(b) => {
                actions.push(CecpAction::SetBoard(b));
                true
            },
            CecpCommand::Level(_, t, _) => {
                self.time_left = TimeLeft::Seconds(t);
                self.current_time_manager = TimeManagerType::Normal;
                actions.push(CecpAction::SetMode(TimeManagerType::Normal));
                true
            },
            CecpCommand::Time(t) => {
                self.time_left = TimeLeft::Centiseconds(t);
                self.current_time_manager = TimeManagerType::Normal;
                actions.push(CecpAction::SetMode(TimeManagerType::Normal));
                true
            },
            CecpCommand::SetTime(t) => {
                self.current_time_manager = TimeManagerType::ConstTime;
                actions.push(CecpAction::SetMode(TimeManagerType::ConstTime));
                actions.push(CecpAction::SetConstTime(t));
                true
            },
            CecpCommand::Go => {
                self.forced = false;
                actions.push(CecpAction::Search(self.time_left, self.threads));
                true
            },
            CecpCommand::New => {
                actions.push(CecpAction::NewGame);
                true
            },
            CecpCommand::Eval => {
                actions.push(CecpAction::PrintEval);
                true
            },
            CecpCommand::Cores(n) => {
                self.threads = n;
                true
            },
            CecpCommand::Force => {
                self.forced = true;
                true
            },
            CecpCommand::Quit => false,
            CecpCommand::Bench => {
                actions.push(CecpAction::SetMode(TimeManagerType::ConstDepth));
                actions.push(CecpAction::SetConstDepth(8));
                actions.push(CecpAction::Bench);
                true
            },
            CecpCommand::Perf => {
                actions.push(CecpAction::SetMode(TimeManagerType::ConstTime));
                actions.push(CecpAction::SetConstTimeSecs(1));
                actions.push(CecpAction::Bench);
                true
            },
            CecpCommand::Empty => true,
            CecpCommand::MoveNow => true,
        };
        (go_on, actions)
    }

    /// Reads one line of input and decides what it does (see [CecpAdapter::handle]).
    pub fn input(&mut self, input: &str) -> (r: (bool, Vec<CecpAction>))
        requires
            level_ok(input.spec_bytes()),
            setboard_ok(input.spec_bytes()),
        ensures
            exists|c: CecpCommand|
                #![trigger view_cmd(c)]
                view_cmd(c) == spec_cecp(input.spec_bytes()) && ({
                    let (s, go_on, actions) = spec_handle(*old(self), c);
                    &&& *final(self) == s
                    &&& r.0 == go_on
                    &&& r.1@ == actions
                }),
    {
        let command = CecpCommand::new(input);
        self.handle(command)
    }

    /// Like [CecpAdapter::input], but a `setboard` line whose FEN text the parser refuses
    /// changes nothing and gives `None`.
    pub fn try_input(&mut self, input: &str) -> (r: Option<(bool, Vec<CecpAction>)>)
        requires
            level_ok(input.spec_bytes()),
        ensures
            r is None <==> !setboard_ok(input.spec_bytes()),
            r is None ==> *final(self) == *old(self),
            r matches Some(x) ==> exists|c: CecpCommand|
                #![trigger view_cmd(c)]
                view_cmd(c) == spec_cecp(input.spec_bytes()) && ({
                    let (s, go_on, actions) = spec_handle(*old(self), c);
                    &&& *final(self) == s
                    &&& x.0 == go_on
                    &&& x.1@ == actions
                }),
    {
        if setboard_accepted(input) {
            Some(self.input(input))
        } else {
            None
        }
    }
}

} // verus!
