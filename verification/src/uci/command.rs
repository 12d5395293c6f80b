//! Reading the UCI commands that the engine understands.

use vstd::prelude::*;
use crate::text::{str_eq, string_push, trim, trimmed};

verus! {

/// The pieces of `s` between single spaces (empty pieces included), as
/// `str::split(" ")` gives them.
pub open spec fn split_spaces(s: Seq<char>) -> Seq<Seq<char>>
    decreases s.len(),
{
    if s.len() == 0 {
        seq![Seq::empty()]
    } else {
        let prev = split_spaces(s.drop_last());
        if s.last() == ' ' {
            prev.push(Seq::empty())
        } else {
            prev.update(prev.len() - 1, prev.last().push(s.last()))
        }
    }
}

proof fn lemma_split_nonempty(s: Seq<char>)
    ensures
        split_spaces(s).len() >= 1,
    decreases s.len(),
{
    if s.len() > 0 {
        lemma_split_nonempty(s.drop_last());
    }
}

/// Splits a text at every space.
pub fn split(s: &str) -> (r: Vec<String>)
    ensures
        r@.len() == split_spaces(s@).len(),
        forall|i: int| 0 <= i < r@.len() ==> #[trigger] r@[i]@ == split_spaces(s@)[i],
{
    let n = s.unicode_len();
    let mut parts: Vec<String> = Vec::new();
    let mut cur = String::new();
    let mut i: usize = 0;
    while i < n
        invariant
            n == s@.len(),
            i <= n,
            parts@.len() + 1 == split_spaces(s@.subrange(0, i as int)).len(),
            forall|k: int| 0 <= k < parts@.len() ==> #[trigger] parts@[k]@ == split_spaces(
                s@.subrange(0, i as int),
            )[k],
            cur@ == split_spaces(s@.subrange(0, i as int)).last(),
        decreases n - i,
    {
        let c = s.get_char(i);
        let ghost pre = s@.subrange(0, i as int);
        proof {
            lemma_split_nonempty(pre);
            assert(s@.subrange(0, i as int + 1).drop_last() =~= pre);
            assert(s@.subrange(0, i as int + 1).last() == c);
        }
        if c == ' ' {
            parts.push(cur);
            cur = String::new();
        } else {
            string_push(&mut cur, c);
        }
        i = i + 1;
    }
    parts.push(cur);
    assert(s@.subrange(0, n as int) =~= s@);
    proof {
        lemma_split_nonempty(s@);
    }
    parts
}

pub open spec fn is_digit(c: char) -> bool {
    '0' <= c <= '9'
}

pub open spec fn digits_value(s: Seq<char>) -> int
    decreases s.len(),
{
    if s.len() == 0 {
        0
    } else {
        digits_value(s.drop_last()) * 10 + (s.last() as int - 48)
    }
}

pub open spec fn all_digits(s: Seq<char>) -> bool {
    forall|i: int| 0 <= i < s.len() ==> is_digit(#[trigger] s[i])
}

/// The text carries a leading sign.
pub open spec fn has_sign(s: Seq<char>) -> bool {
    s.len() > 0 && (s[0] == '-' || s[0] == '+')
}

/// The digits after the sign, if any.
pub open spec fn int_body(s: Seq<char>) -> Seq<char> {
    if has_sign(s) {
        s.drop_first()
    } else {
        s
    }
}

/// A decimal integer in `[lo, hi]` with an optional sign, as `str::parse`
/// reads one.
pub open spec fn parse_int_spec(s: Seq<char>, lo: int, hi: int) -> Option<int> {
    let body = int_body(s);
    let v = if has_sign(s) && s[0] == '-' {
        -digits_value(body)
    } else {
        digits_value(body)
    };
    if body.len() == 0 || !all_digits(body) {
        None
    } else if lo <= v <= hi {
        Some(v)
    } else {
        None
    }
}

proof fn lemma_digits_nonneg(s: Seq<char>)
    requires
        forall|i: int| 0 <= i < s.len() ==> is_digit(#[trigger] s[i]),
    ensures
        digits_value(s) >= 0,
    decreases s.len(),
{
    if s.len() > 0 {
        assert(is_digit(s[s.len() - 1]));
        lemma_digits_nonneg(s.drop_last());
    }
}

/// Parses a decimal integer within `[i64::MIN, i64::MAX]`.
pub fn parse_i64(s: &str) -> (r: Option<i64>)
    ensures
        r matches Some(v) ==> parse_int_spec(s@, i64::MIN as int, i64::MAX as int) == Some(v as int),
        r is None ==> parse_int_spec(s@, i64::MIN as int, i64::MAX as int) is None,
{
    let n = s.unicode_len();
    if n == 0 {
        return None;
    }
    let first = s.get_char(0);
    let signed = first == '-' || first == '+';
    let start: usize = if signed {
        1
    } else {
        0
    };
    let ghost body = if signed {
        s@.drop_first()
    } else {
        s@
    };
    if start == n {
        assert(body.len() == 0);
        return None;
    }
    let cap: u128 = 100_000_000_000_000_000_000;
    let mut acc: u128 = 0;
    let mut i: usize = start;
    while i < n
        invariant
            start <= i <= n,
            n == s@.len(),
            start == 1 <==> signed,
            n > 0,
            first == s@[0],
            signed == (first == '-' || first == '+'),
            body == (if signed {
                s@.drop_first()
            } else {
                s@
            }),
            body =~= s@.subrange(start as int, n as int),
            forall|k: int| 0 <= k < i - start ==> is_digit(#[trigger] body[k]),
            acc as int == if digits_value(body.subrange(0, i - start)) < cap {
                digits_value(body.subrange(0, i - start))
            } else {
                cap as int
            },
            digits_value(body.subrange(0, i - start)) >= 0,
            acc <= cap,
            cap == 100_000_000_000_000_000_000u128,
        decreases n - i,
    {
        let c = s.get_char(i);
        assert(body[i - start] == c);
        if !('0' <= c && c <= '9') {
            assert(!is_digit(body[i - start]));
            assert(body == int_body(s@));
            assert(!all_digits(body));
            return None;
        }
        let d = (c as u32 - 48) as u128;
        let ghost pre = body.subrange(0, i - start);
        assert(body.subrange(0, i - start + 1).drop_last() =~= pre);
        assert(body.subrange(0, i - start + 1).last() == c);
        acc = acc * 10 + d;
        if acc > cap {
            acc = cap;
        }
        i = i + 1;
    }
    assert(body.subrange(0, n - start) =~= body);
    proof {
        lemma_digits_nonneg(body);
    }
    let negative = first == '-';
    if negative {
        if acc <= 9223372036854775808 {
            let v = acc as i128;
            Some((-v) as i64)
        } else {
            None
        }
    } else {
        if acc <= 9223372036854775807 {
            Some(acc as i64)
        } else {
            None
        }
    }
}

/// Parses a decimal integer within `[i32::MIN, i32::MAX]`.
pub fn parse_i32(s: &str) -> (r: Option<i32>)
    ensures
        r matches Some(v) ==> parse_int_spec(s@, i32::MIN as int, i32::MAX as int) == Some(v as int),
        r is None ==> parse_int_spec(s@, i32::MIN as int, i32::MAX as int) is None,
{
    match parse_i64(s) {
        Some(v) => {
            if i32::MIN as i64 <= v && v <= i32::MAX as i64 {
                Some(v as i32)
            } else {
                None
            }
        },
        None => None,
    }
}

/// The time and depth limits of a `go` command.
#[derive(Clone, Copy, Debug, PartialEq, Eq, Structural)]
pub struct GoParams {
    pub depth: i32,
    pub wtime: i64,
    pub btime: i64,
    pub winc: i64,
    pub binc: i64,
    pub movestogo: i64,
}

/// No limits: the depth and clocks at their maximum, no increments.
pub open spec fn default_go() -> GoParams {
    GoParams {
        depth: i32::MAX,
        wtime: i64::MAX,
        btime: i64::MAX,
        winc: 0,
        binc: 0,
        movestogo: i64::MAX,
    }
}

pub open spec fn i64_arg(tokens: Seq<Seq<char>>, i: int) -> Option<i64> {
    if i + 1 < tokens.len() {
        match parse_int_spec(tokens[i + 1], i64::MIN as int, i64::MAX as int) {
            Some(v) => Some(v as i64),
            None => None,
        }
    } else {
        None
    }
}

/// The `go` parameters read from token `i` on: each keyword takes the next
/// token as its number; `movetime` sets both clocks. `None` where a keyword
/// lacks a number.
pub open spec fn go_from(tokens: Seq<Seq<char>>, i: int, p: GoParams) -> Option<GoParams>
    decreases tokens.len() - i,
{
    if i >= tokens.len() {
        Some(p)
    } else {
        let t = tokens[i];
        if t == "depth"@ {
            let d = if i + 1 < tokens.len() {
                parse_int_spec(tokens[i + 1], i32::MIN as int, i32::MAX as int)
            } else {
                None
            };
            match d {
                Some(v) => go_from(tokens, i + 1, GoParams { depth: v as i32, ..p }),
                None => None,
            }
        } else if t == "movetime"@ {
            match i64_arg(tokens, i) {
                Some(v) => go_from(tokens, i + 1, GoParams { wtime: v, btime: v, ..p }),
                None => None,
            }
        } else if t == "wtime"@ {
            match i64_arg(tokens, i) {
                Some(v) => go_from(tokens, i + 1, GoParams { wtime: v, ..p }),
                None => None,
            }
        } else if t == "btime"@ {
            match i64_arg(tokens, i) {
                Some(v) => go_from(tokens, i + 1, GoParams { btime: v, ..p }),
                None => None,
            }
        } else if t == "winc"@ {
            match i64_arg(tokens, i) {
                Some(v) => go_from(tokens, i + 1, GoParams { winc: v, ..p }),
                None => None,
            }
        } else if t == "binc"@ {
            match i64_arg(tokens, i) {
                Some(v) => go_from(tokens, i + 1, GoParams { binc: v, ..p }),
                None => None,
            }
        } else if t == "movestogo"@ {
            match i64_arg(tokens, i) {
                Some(v) => go_from(tokens, i + 1, GoParams { movestogo: v, ..p }),
                None => None,
            }
        } else {
            go_from(tokens, i + 1, p)
        }
    }
}

fn arg_i64(tokens: &Vec<String>, i: usize) -> (r: Option<i64>)
    requires
        i < tokens.len(),
    ensures
        r == i64_arg(tokens@.map_values(|t: String| t@), i as int),
{
    let ghost ts = tokens@.map_values(|t: String| t@);
    if i + 1 < tokens.len() {
        assert(ts[i + 1] == tokens@[i + 1]@);
        match parse_i64(tokens[i + 1].as_str()) {
            Some(v) => Some(v),
            None => None,
        }
    } else {
        None
    }
}

/// Reads the parameters of a `go` command from its tokens.
pub fn parse_go(tokens: &Vec<String>) -> (r: Option<GoParams>)
    ensures
        r == go_from(tokens@.map_values(|t: String| t@), 1, default_go()),
{
    let ghost ts = tokens@.map_values(|t: String| t@);
    let mut p = GoParams {
        depth: i32::MAX,
        wtime: i64::MAX,
        btime: i64::MAX,
        winc: 0,
        binc: 0,
        movestogo: i64::MAX,
    };
    let n = tokens.len();
    let mut i: usize = 1;
    if n <= 1 {
        return Some(p);
    }
    while i < n
        invariant
            1 <= i <= n,
            n == tokens@.len(),
            ts == tokens@.map_values(|t: String| t@),
            go_from(ts, 1, default_go()) == go_from(ts, i as int, p),
        decreases n - i,
    {
        let t = tokens[i].as_str();
        assert(ts[i as int] == t@);
        if str_eq(t, "depth") {
            let d = if i + 1 < n {
                assert(ts[i + 1] == tokens@[i + 1]@);
                parse_i32(tokens[i + 1].as_str())
            } else {
                None
            };
            match d {
                Some(v) => {
                    p = GoParams { depth: v, ..p };
                },
                None => {
                    return None;
                },
            }
        } else if str_eq(t, "movetime") {
            match arg_i64(tokens, i) {
                Some(v) => {
                    p = GoParams { wtime: v, btime: v, ..p };
                },
                None => {
                    return None;
                },
            }
        } else if str_eq(t, "wtime") {
            match arg_i64(tokens, i) {
                Some(v) => {
                    p = GoParams { wtime: v, ..p };
                },
                None => {
                    return None;
                },
            }
        } else if str_eq(t, "btime") {
            match arg_i64(tokens, i) {
                Some(v) => {
                    p = GoParams { btime: v, ..p };
                },
                None => {
                    return None;
                },
            }
        } else if str_eq(t, "winc") {
            match arg_i64(tokens, i) {
                Some(v) => {
                    p = GoParams { winc: v, ..p };
                },
                None => {
                    return None;
                },
            }
        } else if str_eq(t, "binc") {
            match arg_i64(tokens, i) {
                Some(v) => {
                    p = GoParams { binc: v, ..p };
                },
                None => {
                    return None;
                },
            }
        } else if str_eq(t, "movestogo") {
            match arg_i64(tokens, i) {
                Some(v) => {
                    p = GoParams { movestogo: v, ..p };
                },
                None => {
                    return None;
                },
            }
        }
        i = i + 1;
    }
    Some(p)
}

} // verus!

verus! {

/// A command of the UCI protocol, as the engine reads it.
#[derive(Debug, PartialEq, Eq)]
pub enum UciCommand {
    Uci,
    UciNewGame,
    IsReady,
    Go(GoParams),
    /// `position startpos moves ...`: the moves to play from the start.
    StartPos(Vec<String>),
    /// `position fen ...`: the position text (each of its fields followed by
    /// a space) and the moves after `moves`, if that word came.
    FenPos(String, Option<Vec<String>>),
    /// `position` with nothing after it.
    PositionMissing,
    /// `position` followed by a word it does not know.
    Ignored,
    Stop,
    Quit,
    Unknown,
}

/// A UCI command with its texts as character sequences.
pub enum CommandModel {
    Uci,
    UciNewGame,
    IsReady,
    Go(GoParams),
    StartPos(Seq<Seq<char>>),
    FenPos(Seq<char>, Option<Seq<Seq<char>>>),
    PositionMissing,
    Ignored,
    Stop,
    Quit,
    Unknown,
}

pub open spec fn texts(v: Seq<String>) -> Seq<Seq<char>> {
    v.map_values(|t: String| t@)
}

impl View for UciCommand {
    type V = CommandModel;

    open spec fn view(&self) -> CommandModel {
        match self {
            UciCommand::Uci => CommandModel::Uci,
            UciCommand::UciNewGame => CommandModel::UciNewGame,
            UciCommand::IsReady => CommandModel::IsReady,
            UciCommand::Go(p) => CommandModel::Go(*p),
            UciCommand::StartPos(m) => CommandModel::StartPos(texts(m@)),
            UciCommand::FenPos(f, m) => CommandModel::FenPos(
                f@,
                match m {
                    Some(v) => Some(texts(v@)),
                    None => None,
                },
            ),
            UciCommand::PositionMissing => CommandModel::PositionMissing,
            UciCommand::Ignored => CommandModel::Ignored,
            UciCommand::Stop => CommandModel::Stop,
            UciCommand::Quit => CommandModel::Quit,
            UciCommand::Unknown => CommandModel::Unknown,
        }
    }
}

/// The first index from `i` on whose token is `moves`, or the number of
/// tokens where none is.
pub open spec fn moves_index(t: Seq<Seq<char>>, i: int) -> int
    decreases t.len() - i,
{
    if i >= t.len() {
        t.len() as int
    } else if t[i] == "moves"@ {
        i
    } else {
        moves_index(t, i + 1)
    }
}

/// The tokens from `lo` up to `hi`, each followed by one space.
pub open spec fn joined(t: Seq<Seq<char>>, lo: int, hi: int) -> Seq<char>
    decreases hi - lo,
{
    if hi <= lo {
        Seq::empty()
    } else {
        joined(t, lo, hi - 1) + t[hi - 1] + " "@
    }
}

/// The `position` command read from its tokens.
pub open spec fn position_from(t: Seq<Seq<char>>) -> CommandModel {
    if t.len() <= 1 {
        CommandModel::PositionMissing
    } else if t[1] == "startpos"@ {
        if t.len() == 2 {
            CommandModel::UciNewGame
        } else {
            CommandModel::StartPos(t.subrange(3, t.len() as int))
        }
    } else if t[1] == "fen"@ {
        let k = moves_index(t, 2);
        CommandModel::FenPos(
            joined(t, 2, k),
            if k < t.len() {
                Some(t.subrange(k + 1, t.len() as int))
            } else {
                None
            },
        )
    } else {
        CommandModel::Ignored
    }
}

/// The command that a line holds: its trimmed text split at each space, the
/// first piece naming the command. `None` where a `go` keyword lacks its
/// number.
pub open spec fn command_of(line: Seq<char>) -> Option<CommandModel> {
    let t = split_spaces(trimmed(line));
    let head = t[0];
    if head == "uci"@ {
        Some(CommandModel::Uci)
    } else if head == "ucinewgame"@ {
        Some(CommandModel::UciNewGame)
    } else if head == "isready"@ {
        Some(CommandModel::IsReady)
    } else if head == "go"@ {
        match go_from(t, 1, default_go()) {
            Some(p) => Some(CommandModel::Go(p)),
            None => None,
        }
    } else if head == "position"@ {
        Some(position_from(t))
    } else if head == "stop"@ {
        Some(CommandModel::Stop)
    } else if head == "quit"@ {
        Some(CommandModel::Quit)
    } else {
        Some(CommandModel::Unknown)
    }
}

/// The tokens from `lo` to the end, copied.
fn tail_from(tokens: &Vec<String>, lo: usize) -> (r: Vec<String>)
    requires
        lo <= tokens.len(),
    ensures
        texts(r@) == texts(tokens@).subrange(lo as int, tokens@.len() as int),
{
    let mut r: Vec<String> = Vec::new();
    let mut i = lo;
    while i < tokens.len()
        invariant
            lo <= i <= tokens.len(),
            texts(r@) == texts(tokens@).subrange(lo as int, i as int),
        decreases tokens.len() - i,
    {
        let s = tokens[i].clone();
        let ghost before = r@;
        r.push(s);
        assert(r@ == before.push(tokens@[i as int]));
        assert(texts(r@) =~= texts(before).push(tokens@[i as int]@));
        assert(texts(r@) =~= texts(tokens@).subrange(lo as int, i + 1));
        i = i + 1;
    }
    r
}

fn read_position(tokens: &Vec<String>) -> (r: UciCommand)
    requires
        tokens.len() >= 1,
    ensures
        r@ == position_from(texts(tokens@)),
{
    let ghost t = texts(tokens@);
    let n = tokens.len();
    if n <= 1 {
        return UciCommand::PositionMissing;
    }
    let sub = tokens[1].as_str();
    assert(t[1] == sub@);
    if str_eq(sub, "startpos") {
        if n == 2 {
            UciCommand::UciNewGame
        } else {
            UciCommand::StartPos(tail_from(tokens, 3))
        }
    } else if str_eq(sub, "fen") {
        let mut fen = String::new();
        let mut i: usize = 2;
        let mut found = false;
        while i < n
            invariant_except_break
                2 <= i <= n,
                n == tokens.len(),
                t == texts(tokens@),
                !found,
                moves_index(t, 2) == moves_index(t, i as int),
                fen@ == joined(t, 2, i as int),
            ensures
                2 <= i <= n,
                n == tokens.len(),
                t == texts(tokens@),
                found ==> i < n && moves_index(t, 2) == i,
                !found ==> i == n && moves_index(t, 2) == n,
                fen@ == joined(t, 2, i as int),
            decreases n - i,
        {
            let w = tokens[i].as_str();
            assert(t[i as int] == w@);
            if str_eq(w, "moves") {
                found = true;
                break;
            }
            fen.append(w);
            fen.append(" ");
            proof {
                reveal_strlit(" ");
            }
            assert(fen@ =~= joined(t, 2, i + 1));
            i = i + 1;
        }
        if found {
            UciCommand::FenPos(fen, Some(tail_from(tokens, i + 1)))
        } else {
            UciCommand::FenPos(fen, None)
        }
    } else {
        UciCommand::Ignored
    }
}

/// Reads one line of UCI input. `None` where the engine could not read the
/// line: a `go` keyword without a number after it.
pub fn parse_command(line: &str) -> (r: Option<UciCommand>)
    ensures
        match r {
            Some(c) => command_of(line@) == Some(c@),
            None => command_of(line@) is None,
        },
{
    let tokens = split(trim(line));
    let ghost t = split_spaces(trimmed(line@));
    assert(texts(tokens@) =~= t);
    proof {
        lemma_split_nonempty(trimmed(line@));
    }
    let head = tokens[0].as_str();
    if str_eq(head, "uci") {
        Some(UciCommand::Uci)
    } else if str_eq(head, "ucinewgame") {
        Some(UciCommand::UciNewGame)
    } else if str_eq(head, "isready") {
        Some(UciCommand::IsReady)
    } else if str_eq(head, "go") {
        match parse_go(&tokens) {
            Some(p) => Some(UciCommand::Go(p)),
            None => None,
        }
    } else if str_eq(head, "position") {
        Some(read_position(&tokens))
    } else if str_eq(head, "stop") {
        Some(UciCommand::Stop)
    } else if str_eq(head, "quit") {
        Some(UciCommand::Quit)
    } else {
        Some(UciCommand::Unknown)
    }
}

} // verus!
