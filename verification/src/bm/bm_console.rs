pub mod search_tuner;

use crate::bm::cecp::cecp_adapter::{parse_u32, spec_parse_u32};
use vstd::prelude::*;

verus! {

/// What the console does with a line of input.
#[derive(Debug, Clone, PartialEq, Eq)]
pub enum ConsoleInput {
    /// An empty line: nothing is done and the console reports `false`.
    Ignored,
    /// A line starting with `!`: a console tool command with its `-option value` pairs.
    Tool(Vec<u8>, Vec<(Vec<u8>, Vec<u8>)>),
    /// Any other line goes to the UCI front end.
    Uci,
}

/// The engine's console: it runs its own tool commands and hands the rest to UCI.
pub struct BmConsole {}

/// Whitespace that `trim` removes: tab, line feed, vertical tab, form feed, return, space.
pub open spec fn is_trim_ws(b: u8) -> bool {
    b == 9 || b == 10 || b == 11 || b == 12 || b == 13 || b == 32
}

/// The pieces of `s` between its spaces, as `split(' ')` yields them (`n` spaces give
/// `n + 1` pieces, empty ones included).
pub open spec fn pieces(s: Seq<u8>) -> Seq<Seq<u8>>
    decreases s.len(),
{
    if s.len() == 0 {
        seq![Seq::empty()]
    } else {
        let p = pieces(s.drop_last());
        if s.last() == 32 {
            p.push(Seq::empty())
        } else {
            p.update(p.len() - 1, p.last().push(s.last()))
        }
    }
}

/// The first index from `i` on that holds no whitespace (or the length).
pub open spec fn lead(s: Seq<u8>, i: int) -> int
    decreases s.len() - i,
{
    if i >= s.len() {
        s.len() as int
    } else if is_trim_ws(s[i]) {
        lead(s, i + 1)
    } else {
        i
    }
}

/// One past the last index below `j` that holds no whitespace (or 0).
pub open spec fn trail(s: Seq<u8>, j: int) -> int
    decreases j,
{
    if j <= 0 {
        0
    } else if is_trim_ws(s[j - 1]) {
        trail(s, j - 1)
    } else {
        j
    }
}

/// `s` without its leading and trailing whitespace.
pub open spec fn trim(s: Seq<u8>) -> Seq<u8> {
    let a = lead(s, 0);
    let e = trail(s, s.len() as int);
    if a < e {
        s.subrange(a, e)
    } else {
        Seq::empty()
    }
}

/// The parser's state: the option being read, its words so far (each followed by a
/// space), and the finished `(option, value)` pairs.
pub struct ParseState {
    pub option: Seq<u8>,
    pub param: Seq<u8>,
    pub options: Seq<(Seq<u8>, Seq<u8>)>,
}

/// The pairs with the option being read added, if it has a name and some text.
pub open spec fn flush(st: ParseState) -> Seq<(Seq<u8>, Seq<u8>)> {
    if st.option.len() > 0 && st.param.len() > 0 {
        st.options.push((st.option, trim(st.param)))
    } else {
        st.options
    }
}

/// Reads one piece: `-name` starts a new option, anything else is added to its value.
pub open spec fn step(st: ParseState, tok: Seq<u8>) -> ParseState {
    if tok.len() > 0 && tok[0] == 45 {
        ParseState { option: tok.drop_first(), param: Seq::empty(), options: flush(st) }
    } else {
        ParseState { option: st.option, param: st.param + tok.push(32), options: st.options }
    }
}

/// The state after reading the first `n` pieces.
pub open spec fn run(ps: Seq<Seq<u8>>, n: int) -> ParseState
    decreases n,
{
    if n <= 0 {
        ParseState { option: Seq::empty(), param: Seq::empty(), options: Seq::empty() }
    } else {
        step(run(ps, n - 1), ps[n - 1])
    }
}

/// The `(option, value)` pairs of a tool command.
pub open spec fn spec_options(s: Seq<u8>) -> Seq<(Seq<u8>, Seq<u8>)> {
    let ps = pieces(s);
    flush(run(ps, ps.len() as int))
}

pub open spec fn pair_views(v: Seq<(Vec<u8>, Vec<u8>)>) -> Seq<(Seq<u8>, Seq<u8>)> {
    Seq::new(v.len(), |i: int| (v[i].0@, v[i].1@))
}

pub open spec fn piece_views(v: Seq<Vec<u8>>) -> Seq<Seq<u8>> {
    Seq::new(v.len(), |i: int| v[i]@)
}

proof fn lemma_pieces_nonempty(s: Seq<u8>)
    ensures
        pieces(s).len() >= 1,
    decreases s.len(),
{
    if s.len() > 0 {
        lemma_pieces_nonempty(s.drop_last());
    }
}

/// The pieces of `s` between its spaces.
fn split_spaces(s: &[u8]) -> (r: Vec<Vec<u8>>)
    ensures
        piece_views(r@) == pieces(s@),
{
    let mut done: Vec<Vec<u8>> = Vec::new();
    let mut cur: Vec<u8> = Vec::new();
    let mut i: usize = 0;
    while i < s.len()
        invariant
            i <= s.len(),
            piece_views(done@).push(cur@) == pieces(s@.take(i as int)),
        decreases s.len() - i,
    {
        proof {
            assert(s@.take(i as int + 1).drop_last() == s@.take(i as int));
            lemma_pieces_nonempty(s@.take(i as int));
        }
        let ghost before = piece_views(done@);
        if s[i] == 32 {
            done.push(cur);
            cur = Vec::new();
            assert(piece_views(done@) == before.push(pieces(s@.take(i as int)).last()));
        } else {
            cur.push(s[i]);
        }
        i += 1;
        assert(piece_views(done@).push(cur@) == pieces(s@.take(i as int)));
    }
    let ghost before = piece_views(done@);
    done.push(cur);
    assert(s@.take(s@.len() as int) == s@);
    assert(piece_views(done@) == before.push(cur@));
    done
}

/// The first index from `i` on that holds no whitespace.
fn lead_at(s: &Vec<u8>, i: usize) -> (r: usize)
    requires
        i <= s.len(),
    ensures
        r == lead(s@, i as int),
    decreases s.len() - i,
{
    if i >= s.len() {
        s.len()
    } else if s[i] == 9 || s[i] == 10 || s[i] == 11 || s[i] == 12 || s[i] == 13 || s[i] == 32 {
        lead_at(s, i + 1)
    } else {
        i
    }
}

/// One past the last index below `j` that holds no whitespace.
fn trail_at(s: &Vec<u8>, j: usize) -> (r: usize)
    requires
        j <= s.len(),
    ensures
        r == trail(s@, j as int),
    decreases j,
{
    if j == 0 {
        0
    } else if s[j - 1] == 9 || s[j - 1] == 10 || s[j - 1] == 11 || s[j - 1] == 12 || s[j - 1]
        == 13 || s[j - 1] == 32 {
        trail_at(s, j - 1)
    } else {
        j
    }
}

proof fn lemma_trail_bound(s: Seq<u8>, j: int)
    requires
        0 <= j <= s.len(),
    ensures
        0 <= trail(s, j) <= j,
    decreases j,
{
    if j > 0 && is_trim_ws(s[j - 1]) {
        lemma_trail_bound(s, j - 1);
    }
}

proof fn lemma_lead_bound(s: Seq<u8>, i: int)
    requires
        0 <= i <= s.len(),
    ensures
        i <= lead(s, i) <= s.len(),
    decreases s.len() - i,
{
    if i < s.len() && is_trim_ws(s[i]) {
        lemma_lead_bound(s, i + 1);
    }
}

/// `s` without leading and trailing whitespace.
fn trim_bytes(s: &Vec<u8>) -> (r: Vec<u8>)
    ensures
        r@ == trim(s@),
{
    let a = lead_at(s, 0);
    let e = trail_at(s, s.len());
    proof {
        lemma_lead_bound(s@, 0);
        lemma_trail_bound(s@, s@.len() as int);
    }
    let mut out: Vec<u8> = Vec::new();
    if a < e {
        let mut k = a;
        while k < e
            invariant
                a <= k <= e <= s.len(),
                out@ == s@.subrange(a as int, k as int),
            decreases e - k,
        {
            out.push(s[k]);
            k += 1;
        }
    }
    out
}

fn copy_bytes(s: &Vec<u8>) -> (r: Vec<u8>)
    ensures
        r@ == s@,
{
    let mut out: Vec<u8> = Vec::new();
    let mut k: usize = 0;
    while k < s.len()
        invariant
            k <= s.len(),
            out@ == s@.take(k as int),
        decreases s.len() - k,
    {
        out.push(s[k]);
        k += 1;
    }
    assert(s@.take(s@.len() as int) == s@);
    out
}

/// `depth`
pub const KEY_DEPTH: [u8; 5] = [100, 101, 112, 116, 104];
/// `threads`
pub const KEY_THREADS: [u8; 7] = [116, 104, 114, 101, 97, 100, 115];
/// `path`
pub const KEY_PATH: [u8; 4] = [112, 97, 116, 104];
/// `input`
pub const KEY_INPUT: [u8; 5] = [105, 110, 112, 117, 116];

/// The arguments of the data generation tool.
#[derive(Debug, Clone, PartialEq, Eq)]
pub struct DataRequest {
    pub depth: u32,
    pub threads: u32,
    pub path: Vec<u8>,
}

/// The value of the last pair named `key` (the one a map built from the pairs keeps).
pub open spec fn last_value(opts: Seq<(Seq<u8>, Seq<u8>)>, key: Seq<u8>) -> Option<Seq<u8>>
    decreases opts.len(),
{
    if opts.len() == 0 {
        None
    } else if opts.last().0 == key {
        Some(opts.last().1)
    } else {
        last_value(opts.drop_last(), key)
    }
}

/// The value of the first pair named `key`.
pub open spec fn first_value(opts: Seq<(Seq<u8>, Seq<u8>)>, key: Seq<u8>) -> Option<Seq<u8>>
    decreases opts.len(),
{
    if opts.len() == 0 {
        None
    } else if opts[0].0 == key {
        Some(opts[0].1)
    } else {
        first_value(opts.drop_first(), key)
    }
}

/// The data generation tool can run: depth and threads are given as numbers, and a path is given.
pub open spec fn data_ok(opts: Seq<(Seq<u8>, Seq<u8>)>) -> bool {
    &&& last_value(opts, KEY_DEPTH@) matches Some(d) && spec_parse_u32(d) is Some
    &&& last_value(opts, KEY_THREADS@) matches Some(t) && spec_parse_u32(t) is Some
    &&& last_value(opts, KEY_PATH@) is Some
}

fn bytes_eq(a: &Vec<u8>, b: &[u8]) -> (r: bool)
    ensures
        r == (a@ == b@),
{
    if a.len() != b.len() {
        return false;
    }
    let mut i: usize = 0;
    while i < a.len()
        invariant
            i <= a.len() == b@.len(),
            forall|j: int| 0 <= j < i ==> a@[j] == b@[j],
        decreases a.len() - i,
    {
        if a[i] != b[i] {
            return false;
        }
        i += 1;
    }
    assert(a@ =~= b@);
    true
}

/// The index of the last pair named `key`.
fn find_last(opts: &Vec<(Vec<u8>, Vec<u8>)>, key: &[u8]) -> (r: Option<usize>)
    ensures
        match r {
            Some(i) => i < opts@.len() && last_value(pair_views(opts@), key@) == Some(opts@[i as int].1@),
            None => last_value(pair_views(opts@), key@) is None,
        },
{
    let mut n: usize = opts.len();
    assert(pair_views(opts@).take(n as int) =~= pair_views(opts@));
    while n > 0
        invariant
            n <= opts@.len(),
            last_value(pair_views(opts@), key@) == last_value(pair_views(opts@).take(n as int), key@),
        decreases n,
    {
        let ghost v = pair_views(opts@).take(n as int);
        assert(v.drop_last() =~= pair_views(opts@).take(n - 1));
        if bytes_eq(&opts[n - 1].0, key) {
            return Some(n - 1);
        }
        n -= 1;
    }
    None
}

/// The index of the first pair named `key`.
fn find_first(opts: &Vec<(Vec<u8>, Vec<u8>)>, key: &[u8]) -> (r: Option<usize>)
    ensures
        match r {
            Some(i) => i < opts@.len() && first_value(pair_views(opts@), key@) == Some(opts@[i as int].1@),
            None => first_value(pair_views(opts@), key@) is None,
        },
{
    let mut i: usize = 0;
    assert(pair_views(opts@).skip(0) =~= pair_views(opts@));
    while i < opts.len()
        invariant
            i <= opts@.len(),
            first_value(pair_views(opts@), key@) == first_value(pair_views(opts@).skip(i as int), key@),
        decreases opts.len() - i,
    {
        let ghost v = pair_views(opts@).skip(i as int);
        assert(v.drop_first() =~= pair_views(opts@).skip(i + 1));
        if bytes_eq(&opts[i].0, key) {
            return Some(i);
        }
        i += 1;
    }
    None
}

impl BmConsole {
    pub fn new() -> (r: Self) {
        BmConsole {}
    }

    /// The arguments of the `data` tool command: `-depth` and `-threads` as numbers and
    /// `-path`, where a later pair overrides an earlier one of the same name.
    pub fn data(options: &Vec<(Vec<u8>, Vec<u8>)>) -> (r: DataRequest)
        requires
            data_ok(pair_views(options@)),
        ensures
            spec_parse_u32(last_value(pair_views(options@), KEY_DEPTH@).unwrap()) == Some(r.depth),
            spec_parse_u32(last_value(pair_views(options@), KEY_THREADS@).unwrap()) == Some(r.threads),
            last_value(pair_views(options@), KEY_PATH@) == Some(r.path@),
    {
        let d = find_last(options, &KEY_DEPTH).unwrap();
        let t = find_last(options, &KEY_THREADS).unwrap();
        let p = find_last(options, &KEY_PATH).unwrap();
        let dv = &options[d].1;
        let tv = &options[t].1;
        assert(dv@.subrange(0, dv@.len() as int) =~= dv@);
        assert(tv@.subrange(0, tv@.len() as int) =~= tv@);
        let depth = parse_u32(dv.as_slice(), 0, dv.len()).unwrap();
        let threads = parse_u32(tv.as_slice(), 0, tv.len()).unwrap();
        DataRequest { depth, threads, path: copy_bytes(&options[p].1) }
    }

    /// Whether the `data` tool command has the arguments it needs.
    pub fn has_data_args(options: &Vec<(Vec<u8>, Vec<u8>)>) -> (r: bool)
        ensures
            r == data_ok(pair_views(options@)),
    {
        let d = find_last(options, &KEY_DEPTH);
        let t = find_last(options, &KEY_THREADS);
        let p = find_last(options, &KEY_PATH);
        match (d, t, p) {
            (Some(d), Some(t), Some(_)) => {
                let dv = &options[d].1;
                let tv = &options[t].1;
                assert(dv@.subrange(0, dv@.len() as int) =~= dv@);
                assert(tv@.subrange(0, tv@.len() as int) =~= tv@);
                parse_u32(dv.as_slice(), 0, dv.len()).is_some() && parse_u32(tv.as_slice(), 0, tv.len()).is_some()
            },
            _ => false,
        }
    }

    /// The input file of the `tune` tool command: the value of its first `-input` pair
    /// (`None` makes the tool report an error).
    pub fn tune_input(options: &Vec<(Vec<u8>, Vec<u8>)>) -> (r: Option<Vec<u8>>)
        ensures
            match r {
                Some(v) => first_value(pair_views(options@), KEY_INPUT@) == Some(v@),
                None => first_value(pair_views(options@), KEY_INPUT@) is None,
            },
    {
        match find_first(options, &KEY_INPUT) {
            Some(i) => Some(copy_bytes(&options[i].1)),
            None => None,
        }
    }

    /// Splits a tool command into its name (the text before the first space) and its
    /// `-option value` pairs; a value is the words after its option, trimmed, and an
    /// option without text is dropped.
    pub fn parse(command: &[u8]) -> (r: (Vec<u8>, Vec<(Vec<u8>, Vec<u8>)>))
        ensures
            r.0@ == pieces(command@)[0],
            pair_views(r.1@) == spec_options(command@),
    {
        let ps = split_spaces(command);
        proof {
            lemma_pieces_nonempty(command@);
        }
        let main = copy_bytes(&ps[0]);
        let mut option: Vec<u8> = Vec::new();
        let mut param: Vec<u8> = Vec::new();
        let mut options: Vec<(Vec<u8>, Vec<u8>)> = Vec::new();
        let mut k: usize = 0;
        assert(pair_views(options@) == Seq::<(Seq<u8>, Seq<u8>)>::empty());
        assert(option@ == Seq::<u8>::empty());
        assert(param@ == Seq::<u8>::empty());
        while k < ps.len()
            invariant
                k <= ps.len(),
                piece_views(ps@) == pieces(command@),
                run(pieces(command@), k as int) == (ParseState {
                    option: option@,
                    param: param@,
                    options: pair_views(options@),
                }),
            decreases ps.len() - k,
        {
            let tok = &ps[k];
            assert(tok@ == pieces(command@)[k as int]);
            if tok.len() > 0 && tok[0] == 45 {
                let ghost before = pair_views(options@);
                if option.len() > 0 && param.len() > 0 {
                    let t = trim_bytes(&param);
                    options.push((option, t));
                    assert(pair_views(options@) == before.push((option@, t@)));
                }
                let mut name: Vec<u8> = Vec::new();
                let mut j: usize = 1;
                while j < tok.len()
                    invariant
                        1 <= j <= tok.len(),
                        name@ == tok@.subrange(1, j as int),
                    decreases tok.len() - j,
                {
                    name.push(tok[j]);
                    j += 1;
                }
                assert(name@ == tok@.drop_first());
                option = name;
                param = Vec::new();
            } else {
                let mut j: usize = 0;
                let ghost p0 = param@;
                while j < tok.len()
                    invariant
                        j <= tok.len(),
                        param@ == p0 + tok@.take(j as int),
                    decreases tok.len() - j,
                {
                    param.push(tok[j]);
                    j += 1;
                }
                param.push(32);
                assert(tok@.take(tok@.len() as int) == tok@);
                assert(param@ == p0 + tok@.push(32));
            }
            k += 1;
        }
        let ghost before = pair_views(options@);
        if option.len() > 0 && param.len() > 0 {
            let t = trim_bytes(&param);
            options.push((option, t));
            assert(pair_views(options@) == before.push((option@, t@)));
        }
        (main, options)
    }

    /// Decides what happens to a line of input: an empty line is ignored, a line that
    /// starts with `!` is a tool command (parsed after the `!`), anything else goes to UCI.
    pub fn input(&mut self, command: &[u8]) -> (r: ConsoleInput)
        ensures
            command@.len() == 0 ==> r == ConsoleInput::Ignored,
            command@.len() > 0 && command@[0] != 33 ==> r == ConsoleInput::Uci,
            command@.len() > 0 && command@[0] == 33 ==> (r matches ConsoleInput::Tool(name, opts)
                && name@ == pieces(command@.drop_first())[0]
                && pair_views(opts@) == spec_options(command@.drop_first())),
    {
        if command.len() == 0 {
            ConsoleInput::Ignored
        } else if command[0] == 33 {
            let mut rest: Vec<u8> = Vec::new();
            let mut j: usize = 1;
            while j < command.len()
                invariant
                    1 <= j <= command.len(),
                    rest@ == command@.subrange(1, j as int),
                decreases command.len() - j,
            {
                rest.push(command[j]);
                j += 1;
            }
            assert(rest@ == command@.drop_first());
            let (name, opts) = Self::parse(rest.as_slice());
            ConsoleInput::Tool(name, opts)
        } else {
            ConsoleInput::Uci
        }
    }
}

} // verus!
