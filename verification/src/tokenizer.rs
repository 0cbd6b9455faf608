//! The command-line tokenizer: one line of input becomes the ordered sequence
//! of its arguments, with single quotes, double quotes and backslash escapes
//! taken into account.
//!
//! The tokenizer is a scanner with three modes. `step` is its transition
//! function, `scan` folds it over a line, and `tokenize` is what the line means.
use crate::text::{is_blank, to_chars};
use vstd::prelude::*;

verus! {

/// Where the scanner stands with respect to quotes.
#[derive(Clone, Copy, Debug, PartialEq, Eq, Structural)]
pub enum Mode {
    /// Outside any quotes.
    Normal,
    /// Between single quotes: everything is literal.
    InSingle,
    /// Between double quotes: white space is literal, backslash still escapes.
    InDouble,
}

/// The scanner between two characters of the line.
pub struct Scan {
    /// The quoting mode.
    pub mode: Mode,
    /// The token that is being built.
    pub cur: Seq<char>,
    /// The tokens that are complete.
    pub out: Seq<Seq<char>>,
}

/// The characters that a backslash makes literal in the given mode.
pub open spec fn escapable(mode: Mode, c: char) -> bool {
    match mode {
        Mode::Normal => c == ' ' || c == '"' || c == '\\' || c == '\'',
        Mode::InDouble => c == '"' || c == '\\' || c == ' ',
        Mode::InSingle => false,
    }
}

/// The scanner before the first character.
pub open spec fn start() -> Scan {
    Scan { mode: Mode::Normal, cur: Seq::empty(), out: Seq::empty() }
}

/// `st` with `c` added to the token in progress.
pub open spec fn keep(st: Scan, c: char) -> Scan {
    Scan { cur: st.cur.push(c), ..st }
}

/// `st` in another mode.
pub open spec fn enter(st: Scan, mode: Mode) -> Scan {
    Scan { mode, ..st }
}

/// `st` with the token in progress closed: it joins the output unless it is
/// empty.
pub open spec fn cut(st: Scan) -> Scan {
    Scan { mode: st.mode, cur: Seq::empty(), out: finish(st) }
}

/// The tokens of a scanner that has reached the end of the line. A quote that
/// is still open counts as closed.
pub open spec fn finish(st: Scan) -> Seq<Seq<char>> {
    if st.cur.len() > 0 {
        st.out.push(st.cur)
    } else {
        st.out
    }
}

/// One transition: the scanner after it has read `c`, where `next` is the
/// character behind `c` if there is one, and the number of characters that
/// were used up (two for an escape, else one).
pub open spec fn step(st: Scan, c: char, next: Option<char>) -> (Scan, int) {
    if st.mode == Mode::InSingle {
        if c == '\'' {
            (enter(st, Mode::Normal), 1)
        } else {
            (keep(st, c), 1)
        }
    } else if c == '\\' {
        match next {
            Some(n) if escapable(st.mode, n) => (keep(st, n), 2),
            _ => (keep(st, '\\'), 1),
        }
    } else if c == '"' {
        if st.mode == Mode::Normal {
            (enter(st, Mode::InDouble), 1)
        } else {
            (enter(st, Mode::Normal), 1)
        }
    } else if st.mode == Mode::InDouble {
        (keep(st, c), 1)
    } else if c == '\'' {
        (enter(st, Mode::InSingle), 1)
    } else if is_blank(c) {
        (cut(st), 1)
    } else {
        (keep(st, c), 1)
    }
}

/// The character behind the first one of `s`.
pub open spec fn lookahead(s: Seq<char>) -> Option<char> {
    if s.len() > 1 {
        Some(s[1])
    } else {
        None
    }
}

/// The scanner after it has read all of `s`, starting from `st`.
pub open spec fn scan(s: Seq<char>, st: Scan) -> Scan
    decreases s.len(),
{
    if s.len() == 0 {
        st
    } else {
        let (after, used) = step(st, s[0], lookahead(s));
        scan(s.skip(used), after)
    }
}

/// The arguments that a line of input stands for.
pub open spec fn tokenize(line: Seq<char>) -> Seq<Seq<char>> {
    finish(scan(line, start()))
}

/// Splits a line of input into its arguments. Never fails: a quote that is not
/// closed runs to the end of the line.
pub fn parse_input(s: &str) -> (out: Vec<String>)
    ensures
        out.deep_view() == tokenize(s@),
        forall|i: int| 0 <= i < out.len() ==> (#[trigger] out[i])@.len() > 0,
{
    let chars = to_chars(s);
    let n = chars.len();
    let mut out: Vec<String> = Vec::new();
    let mut cur = String::new();
    let mut mode = Mode::Normal;
    let mut i: usize = 0;
    assert(chars@.skip(0) =~= s@);
    assert(out.deep_view() =~= Seq::<Seq<char>>::empty());
    while i < n
        invariant
            i <= n,
            n == chars.len(),
            chars@ == s@,
            scan(chars@.skip(i as int), Scan { mode, cur: cur@, out: out.deep_view() }) == scan(
                s@,
                start(),
            ),
        decreases n - i,
    {
        let c = chars[i];
        let ghost rest = chars@.skip(i as int);
        let ghost st = Scan { mode, cur: cur@, out: out.deep_view() };
        let ghost (after, used) = step(st, c, lookahead(rest));
        proof {
            assert(rest[0] == c);
            assert(rest.len() > 1 ==> rest[1] == chars@[i + 1]);
            assert(rest.skip(used) =~= chars@.skip(i + used));
        }
        let mut used_two = false;
        if mode == Mode::InSingle {
            if c == '\'' {
                mode = Mode::Normal;
            } else {
                cur.push(c);
            }
        } else if c == '\\' {
            if i + 1 < n && is_escapable(mode, chars[i + 1]) {
                cur.push(chars[i + 1]);
                used_two = true;
            } else {
                cur.push('\\');
            }
        } else if c == '"' {
            if mode == Mode::Normal {
                mode = Mode::InDouble;
            } else {
                mode = Mode::Normal;
            }
        } else if mode == Mode::InDouble {
            cur.push(c);
        } else if c == '\'' {
            mode = Mode::InSingle;
        } else if c.is_whitespace() {
            if !cur.as_str().is_empty() {
                let ghost before = out.deep_view();
                out.push(cur);
                assert(out.deep_view() =~= before.push(st.cur));
                cur = String::new();
            }
        } else {
            cur.push(c);
        }
        if used_two {
            i = i + 2;
        } else {
            i = i + 1;
        }
        assert(cur@ =~= after.cur);
        assert(out.deep_view() =~= after.out);
    }
    assert(chars@.skip(n as int).len() == 0);
    if !cur.as_str().is_empty() {
        let ghost before = out.deep_view();
        let ghost last = cur@;
        out.push(cur);
        assert(out.deep_view() =~= before.push(last));
    }
    proof {
        lemma_tokens_nonempty(s@);
        assert forall|i: int| 0 <= i < out.len() implies (#[trigger] out[i])@.len() > 0 by {
            assert(out.deep_view()[i] == out[i]@);
        }
    }
    out
}

fn is_escapable(mode: Mode, c: char) -> (r: bool)
    ensures
        r == escapable(mode, c),
{
    match mode {
        Mode::Normal => c == ' ' || c == '"' || c == '\\' || c == '\'',
        Mode::InDouble => c == '"' || c == '\\' || c == ' ',
        Mode::InSingle => false,
    }
}

/// Every token on record is non-empty.
pub open spec fn all_nonempty(tokens: Seq<Seq<char>>) -> bool {
    forall|i: int| 0 <= i < tokens.len() ==> (#[trigger] tokens[i]).len() > 0
}

proof fn lemma_scan_keeps_nonempty(s: Seq<char>, st: Scan)
    requires
        all_nonempty(st.out),
    ensures
        all_nonempty(scan(s, st).out),
    decreases s.len(),
{
    if s.len() > 0 {
        let (after, used) = step(st, s[0], lookahead(s));
        lemma_scan_keeps_nonempty(s.skip(used), after);
    }
}

/// No argument is ever the empty string.
pub proof fn lemma_tokens_nonempty(line: Seq<char>)
    ensures
        all_nonempty(tokenize(line)),
{
    lemma_scan_keeps_nonempty(line, start());
}

proof fn lemma_scan_over_blanks(s: Seq<char>, out: Seq<Seq<char>>)
    requires
        forall|i: int| 0 <= i < s.len() ==> is_blank(#[trigger] s[i]),
    ensures
        scan(s, Scan { mode: Mode::Normal, cur: Seq::empty(), out }) == (Scan {
            mode: Mode::Normal,
            cur: Seq::empty(),
            out,
        }),
    decreases s.len(),
{
    if s.len() > 0 {
        let st = Scan { mode: Mode::Normal, cur: Seq::empty(), out };
        assert(is_blank(s[0]));
        assert(step(st, s[0], lookahead(s)) == (st, 1int));
        lemma_scan_over_blanks(s.skip(1), out);
    }
}

/// A line that is empty or holds nothing but white space has no arguments.
pub proof fn lemma_blank_line(line: Seq<char>)
    requires
        forall|i: int| 0 <= i < line.len() ==> is_blank(#[trigger] line[i]),
    ensures
        tokenize(line) == Seq::<Seq<char>>::empty(),
{
    lemma_scan_over_blanks(line, Seq::empty());
}

/// A token that double quotes can carry unchanged: not empty, and free of the
/// two characters that mean something between double quotes.
pub open spec fn plain(token: Seq<char>) -> bool {
    &&& token.len() > 0
    &&& forall|i: int| 0 <= i < token.len() ==> #[trigger] token[i] != '"' && token[i] != '\\'
}

/// `token` between double quotes.
pub open spec fn quoted(token: Seq<char>) -> Seq<char> {
    seq!['"'] + token + seq!['"']
}

/// The tokens, each between double quotes, with one space between neighbours.
pub open spec fn join_quoted(tokens: Seq<Seq<char>>) -> Seq<char>
    decreases tokens.len(),
{
    if tokens.len() == 0 {
        Seq::empty()
    } else if tokens.len() == 1 {
        quoted(tokens[0])
    } else {
        quoted(tokens[0]) + seq![' '] + join_quoted(tokens.skip(1))
    }
}

proof fn lemma_scan_inside_quotes(body: Seq<char>, rest: Seq<char>, cur: Seq<char>, out: Seq<Seq<char>>)
    requires
        forall|i: int| 0 <= i < body.len() ==> #[trigger] body[i] != '"' && body[i] != '\\',
    ensures
        scan(body + seq!['"'] + rest, Scan { mode: Mode::InDouble, cur, out }) == scan(
            rest,
            Scan { mode: Mode::Normal, cur: cur + body, out },
        ),
    decreases body.len(),
{
    let s = body + seq!['"'] + rest;
    let st = Scan { mode: Mode::InDouble, cur, out };
    if body.len() == 0 {
        assert(s[0] == '"');
        assert(s.skip(1) =~= rest);
        assert(cur + body =~= cur);
    } else {
        let c = body[0];
        assert(s[0] == c);
        assert(s.skip(1) =~= body.skip(1) + seq!['"'] + rest);
        assert(step(st, c, lookahead(s)) == (keep(st, c), 1int));
        lemma_scan_inside_quotes(body.skip(1), rest, cur.push(c), out);
        assert(cur.push(c) + body.skip(1) =~= cur + body);
    }
}

proof fn lemma_scan_quoted(token: Seq<char>, rest: Seq<char>, out: Seq<Seq<char>>)
    requires
        plain(token),
    ensures
        scan(quoted(token) + rest, Scan { mode: Mode::Normal, cur: Seq::empty(), out }) == scan(
            rest,
            Scan { mode: Mode::Normal, cur: token, out },
        ),
{
    let s = quoted(token) + rest;
    assert(s[0] == '"');
    assert(s.skip(1) =~= token + seq!['"'] + rest);
    lemma_scan_inside_quotes(token, rest, Seq::empty(), out);
    assert(Seq::<char>::empty() + token =~= token);
}

proof fn lemma_scan_join_quoted(tokens: Seq<Seq<char>>, out: Seq<Seq<char>>)
    requires
        forall|i: int| 0 <= i < tokens.len() ==> plain(#[trigger] tokens[i]),
    ensures
        finish(scan(join_quoted(tokens), Scan { mode: Mode::Normal, cur: Seq::empty(), out }))
            == out + tokens,
    decreases tokens.len(),
{
    if tokens.len() == 0 {
        assert(out + tokens =~= out);
    } else {
        let first = tokens[0];
        assert(plain(first));
        if tokens.len() == 1 {
            assert(join_quoted(tokens) =~= quoted(first) + Seq::<char>::empty());
            lemma_scan_quoted(first, Seq::empty(), out);
            assert(out + tokens =~= out.push(first));
        } else {
            let tail = tokens.skip(1);
            let rest = seq![' '] + join_quoted(tail);
            assert(join_quoted(tokens) =~= quoted(first) + rest);
            lemma_scan_quoted(first, rest, out);
            let st = Scan { mode: Mode::Normal, cur: first, out };
            assert(rest[0] == ' ');
            assert(rest.skip(1) =~= join_quoted(tail));
            assert(step(st, ' ', lookahead(rest)) == (cut(st), 1int));
            assert forall|i: int| 0 <= i < tail.len() implies plain(#[trigger] tail[i]) by {
                assert(tail[i] == tokens[i + 1]);
            }
            lemma_scan_join_quoted(tail, out.push(first));
            assert(out.push(first) + tail =~= out + tokens);
        }
    }
}

/// Quoting survives tokenizing: put each token between double quotes, join
/// them with single spaces, and the tokenizer gives the tokens back. This
/// holds of tokens that are `plain`; white space and single quotes inside a
/// token do no harm.
pub proof fn lemma_quoted_round_trip(tokens: Seq<Seq<char>>)
    requires
        forall|i: int| 0 <= i < tokens.len() ==> plain(#[trigger] tokens[i]),
    ensures
        tokenize(join_quoted(tokens)) == tokens,
{
    lemma_scan_join_quoted(tokens, Seq::empty());
    assert(Seq::<Seq<char>>::empty() + tokens =~= tokens);
}

proof fn lemma_scan_closing_quote(s: Seq<char>, st: Scan, quote: char)
    requires
        quote == '\'' || quote == '"',
        quote == '\'' ==> scan(s, st).mode == Mode::InSingle,
        quote == '"' ==> scan(s, st).mode == Mode::InDouble && (s.len() == 0 || s.last() != '\\'),
    ensures
        scan(s.push(quote), st) == enter(scan(s, st), Mode::Normal),
    decreases s.len(),
{
    let longer = s.push(quote);
    if s.len() == 0 {
        assert(longer.skip(1).len() == 0);
        assert(scan(longer.skip(1), enter(st, Mode::Normal)) == enter(st, Mode::Normal));
    } else {
        let (after, used) = step(st, s[0], lookahead(s));
        assert(longer[0] == s[0]);
        if s.len() == 1 {
            // the one character is no backslash that was waiting for a partner
            assert(scan(s.skip(used), after) == after);
            assert(st.mode == Mode::InSingle || s[0] != '\\');
            assert(step(st, s[0], lookahead(longer)) == (after, 1int));
            assert(longer.skip(1) =~= Seq::<char>::empty().push(quote));
            lemma_scan_closing_quote(Seq::empty(), after, quote);
        } else {
            assert(longer[1] == s[1]);
            assert(step(st, s[0], lookahead(longer)) == (after, used));
            assert(longer.skip(used) =~= s.skip(used).push(quote));
            if s.skip(used).len() > 0 {
                assert(s.skip(used).last() == s.last());
            }
            lemma_scan_closing_quote(s.skip(used), after, quote);
        }
    }
}

/// A single quote that is left open counts as closed at the end of the line:
/// adding the closing quote changes nothing.
pub proof fn lemma_open_single_quote(line: Seq<char>)
    requires
        scan(line, start()).mode == Mode::InSingle,
    ensures
        tokenize(line.push('\'')) == tokenize(line),
{
    lemma_scan_closing_quote(line, start(), '\'');
}

/// A double quote that is left open counts as closed at the end of the line:
/// adding the closing quote changes nothing, provided the line does not end
/// in a backslash, which would take the added quote for itself.
pub proof fn lemma_open_double_quote(line: Seq<char>)
    requires
        scan(line, start()).mode == Mode::InDouble,
        line.len() == 0 || line.last() != '\\',
    ensures
        tokenize(line.push('"')) == tokenize(line),
{
    lemma_scan_closing_quote(line, start(), '"');
}

} // verus!
