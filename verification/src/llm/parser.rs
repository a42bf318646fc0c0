//! Turns raw LLM response text into an argv.
//!
//! The pipeline strips an optional markdown code fence, takes the first
//! non-empty line and splits it with POSIX-style shell quoting: ASCII
//! whitespace (space, tab, line feed, form feed, carriage return) separates
//! tokens, single quotes are literal, double quotes allow
//! backslash escapes, and a backslash outside quotes takes the next
//! character literally.

use vstd::prelude::*;
use crate::text::{
    chars_of, find_char, is_ws, lemma_find_char, lemma_find_char_bound, lemma_rfind, occurs_at,
    occurs_at_exec, rfind, starts_with, string_of, string_of_range, string_views, trim,
    trim_bounds, trim_left, trim_right,
};
use super::error::LlmError;

verus! {

/// The markdown code-fence marker.
pub open spec fn fence() -> Seq<char> {
    seq!['`', '`', '`']
}

/// Removes a leading fence (with its optional language tag, up to the first
/// newline) and the last trailing fence, trimming the result.
pub open spec fn strip_fence(text: Seq<char>) -> Seq<char> {
    let t = trim(text);
    if starts_with(t, fence()) {
        let rest = t.skip(3);
        let after = match find_char(rest, '\n') {
            Some(k) => rest.skip(k + 1),
            None => rest,
        };
        match rfind(after, fence()) {
            Some(e) => trim(after.take(e)),
            None => trim(after),
        }
    } else {
        t
    }
}

/// The first line of `s` that is non-empty after trimming, trimmed; empty
/// when there is none.
pub open spec fn first_line(s: Seq<char>) -> Seq<char>
    decreases s.len(),
{
    match find_char(s, '\n') {
        None => trim(s),
        Some(k) => if trim(s.take(k)).len() > 0 {
            trim(s.take(k))
        } else if 0 <= k < s.len() {
            first_line(s.skip(k + 1))
        } else {
            seq![]
        },
    }
}

/// Where the lexer is: outside quotes, inside single or double quotes,
/// right after a backslash inside double quotes, or right after a backslash
/// outside quotes.
#[derive(Debug, Clone, Copy, PartialEq, Eq, Structural)]
pub enum QuoteMode {
    Plain,
    Single,
    Double,
    DoubleEscape,
    Escape,
}

/// Lexer state: finished tokens, the token being built, whether a token is
/// open, and the quoting mode.
pub struct LexState {
    pub tokens: Seq<Seq<char>>,
    pub current: Seq<char>,
    pub in_token: bool,
    pub mode: QuoteMode,
}

/// The ASCII whitespace characters that separate unquoted tokens: space,
/// tab, line feed, form feed and carriage return.
pub open spec fn is_separator(c: char) -> bool {
    c == ' ' || c == '\t' || c == '\n' || c == '\x0C' || c == '\r'
}

/// Whether `c` separates unquoted tokens.
fn separator(c: char) -> (b: bool)
    ensures
        b == is_separator(c),
{
    c == ' ' || c == '\t' || c == '\n' || c == '\x0C' || c == '\r'
}

/// One lexer step on character `c`.
pub open spec fn lex_step(st: LexState, c: char) -> LexState {
    match st.mode {
        QuoteMode::Plain => if is_separator(c) {
            if st.in_token {
                LexState {
                    tokens: st.tokens.push(st.current),
                    current: seq![],
                    in_token: false,
                    mode: QuoteMode::Plain,
                }
            } else {
                st
            }
        } else if c == '\'' {
            LexState { tokens: st.tokens, current: st.current, in_token: true, mode: QuoteMode::Single }
        } else if c == '"' {
            LexState { tokens: st.tokens, current: st.current, in_token: true, mode: QuoteMode::Double }
        } else if c == '\\' {
            LexState { tokens: st.tokens, current: st.current, in_token: true, mode: QuoteMode::Escape }
        } else {
            LexState {
                tokens: st.tokens,
                current: st.current.push(c),
                in_token: true,
                mode: QuoteMode::Plain,
            }
        },
        QuoteMode::Single => if c == '\'' {
            LexState { tokens: st.tokens, current: st.current, in_token: st.in_token, mode: QuoteMode::Plain }
        } else {
            LexState {
                tokens: st.tokens,
                current: st.current.push(c),
                in_token: st.in_token,
                mode: QuoteMode::Single,
            }
        },
        QuoteMode::Double => if c == '"' {
            LexState { tokens: st.tokens, current: st.current, in_token: st.in_token, mode: QuoteMode::Plain }
        } else if c == '\\' {
            LexState {
                tokens: st.tokens,
                current: st.current,
                in_token: st.in_token,
                mode: QuoteMode::DoubleEscape,
            }
        } else {
            LexState {
                tokens: st.tokens,
                current: st.current.push(c),
                in_token: st.in_token,
                mode: QuoteMode::Double,
            }
        },
        QuoteMode::DoubleEscape => LexState {
            tokens: st.tokens,
            current: st.current.push(c),
            in_token: st.in_token,
            mode: QuoteMode::Double,
        },
        QuoteMode::Escape => LexState {
            tokens: st.tokens,
            current: st.current.push(c),
            in_token: st.in_token,
            mode: QuoteMode::Plain,
        },
    }
}

/// The lexer state after reading all of `s`.
pub open spec fn lex(s: Seq<char>) -> LexState
    decreases s.len(),
{
    if s.len() == 0 {
        LexState { tokens: seq![], current: seq![], in_token: false, mode: QuoteMode::Plain }
    } else {
        lex_step(lex(s.drop_last()), s.last())
    }
}

/// Message for input ending inside single quotes.
pub open spec fn unterminated_single() -> Seq<char> {
    "unterminated single-quote in LLM response"@
}

/// Message for input ending inside double quotes.
pub open spec fn unterminated_double() -> Seq<char> {
    "unterminated double-quote in LLM response"@
}

/// Message for input ending right after a backslash inside double quotes.
pub open spec fn unterminated_escape() -> Seq<char> {
    "unterminated escape in double-quoted string"@
}

/// Message for input without any token.
pub open spec fn empty_argv() -> Seq<char> {
    "LLM response tokenized to empty argv"@
}

/// Message for a response without a non-empty line.
pub open spec fn no_command() -> Seq<char> {
    "LLM response contained no parseable command"@
}

/// The tokens of `s`, or the parse error message.
pub open spec fn spec_tokenize(s: Seq<char>) -> Result<Seq<Seq<char>>, Seq<char>> {
    let st = lex(s);
    match st.mode {
        QuoteMode::Single => Err(unterminated_single()),
        QuoteMode::Double => Err(unterminated_double()),
        QuoteMode::DoubleEscape => Err(unterminated_escape()),
        _ => {
            let toks = if st.in_token {
                st.tokens.push(st.current)
            } else {
                st.tokens
            };
            if toks.len() == 0 {
                Err(empty_argv())
            } else {
                Ok(toks)
            }
        },
    }
}

/// The argv of a raw response, or the parse error message.
pub open spec fn spec_parse_response(text: Seq<char>) -> Result<Seq<Seq<char>>, Seq<char>> {
    let line = first_line(strip_fence(text));
    if line.len() == 0 {
        Err(no_command())
    } else {
        spec_tokenize(line)
    }
}

/// The result relates to the specified outcome: the same tokens, or a parse
/// error with the same message.
pub open spec fn parse_outcome(
    res: Result<Vec<String>, LlmError>,
    spec: Result<Seq<Seq<char>>, Seq<char>>,
) -> bool {
    match spec {
        Ok(t) => res matches Ok(v) && string_views(v@) == t,
        Err(m) => res matches Err(e) && e matches LlmError::Parse(msg) && msg@ == m,
    }
}

/// Tokenizes the sub-range `v[from..to]`.
fn tokenize_range(v: &Vec<char>, from: usize, to: usize) -> (res: Result<Vec<String>, LlmError>)
    requires
        from <= to <= v@.len(),
    ensures
        parse_outcome(res, spec_tokenize(v@.subrange(from as int, to as int))),
{
    let mut tokens: Vec<String> = Vec::new();
    let mut current: Vec<char> = Vec::new();
    let mut in_token = false;
    let mut mode = QuoteMode::Plain;
    let mut i = from;
    assert(v@.subrange(from as int, from as int) =~= seq![]);
    while i < to
        invariant
            from <= i <= to <= v@.len(),
            lex(v@.subrange(from as int, i as int)).tokens == string_views(tokens@),
            lex(v@.subrange(from as int, i as int)).current == current@,
            lex(v@.subrange(from as int, i as int)).in_token == in_token,
            lex(v@.subrange(from as int, i as int)).mode == mode,
        decreases to - i,
    {
        let c = v[i];
        let ghost prev = v@.subrange(from as int, i as int);
        assert(v@.subrange(from as int, i + 1).drop_last() =~= prev);
        assert(v@.subrange(from as int, i + 1).last() == c);
        let ghost toks0 = tokens@;
        let ghost cur0 = current@;
        match mode {
            QuoteMode::Plain => {
                if separator(c) {
                    if in_token {
                        tokens.push(string_of(&current));
                        assert(string_views(tokens@) =~= string_views(toks0).push(cur0));
                        current = Vec::new();
                        assert(current@ =~= seq![]);
                        in_token = false;
                    }
                } else if c == '\'' {
                    in_token = true;
                    mode = QuoteMode::Single;
                } else if c == '"' {
                    in_token = true;
                    mode = QuoteMode::Double;
                } else if c == '\\' {
                    in_token = true;
                    mode = QuoteMode::Escape;
                } else {
                    in_token = true;
                    current.push(c);
                }
            },
            QuoteMode::Single => {
                if c == '\'' {
                    mode = QuoteMode::Plain;
                } else {
                    current.push(c);
                }
            },
            QuoteMode::Double => {
                if c == '"' {
                    mode = QuoteMode::Plain;
                } else if c == '\\' {
                    mode = QuoteMode::DoubleEscape;
                } else {
                    current.push(c);
                }
            },
            QuoteMode::DoubleEscape => {
                current.push(c);
                mode = QuoteMode::Double;
            },
            QuoteMode::Escape => {
                current.push(c);
                mode = QuoteMode::Plain;
            },
        }
        i += 1;
    }
    match mode {
        QuoteMode::Single => {
            return Err(LlmError::Parse(crate::text::owned("unterminated single-quote in LLM response")));
        },
        QuoteMode::Double => {
            return Err(LlmError::Parse(crate::text::owned("unterminated double-quote in LLM response")));
        },
        QuoteMode::DoubleEscape => {
            return Err(
                LlmError::Parse(crate::text::owned("unterminated escape in double-quoted string")),
            );
        },
        _ => {},
    }
    if in_token {
        let ghost toks0 = tokens@;
        tokens.push(string_of(&current));
        assert(string_views(tokens@) =~= string_views(toks0).push(current@));
    }
    if tokens.len() == 0 {
        return Err(LlmError::Parse(crate::text::owned("LLM response tokenized to empty argv")));
    }
    Ok(tokens)
}

/// Splits one command line into an argv with POSIX-style quoting.
///
/// Fails with a parse error on an unterminated quote or escape inside
/// double quotes, and when no token results.
pub fn tokenize(s: &str) -> (res: Result<Vec<String>, LlmError>)
    ensures
        parse_outcome(res, spec_tokenize(s@)),
{
    let v = chars_of(s);
    assert(v@.subrange(0, v@.len() as int) =~= v@);
    tokenize_range(&v, 0, v.len())
}


/// Index of the first `'\n'` in `v[from..to]`, or `to`.
fn find_newline(v: &Vec<char>, from: usize, to: usize) -> (k: usize)
    requires
        from <= to <= v@.len(),
    ensures
        from <= k <= to,
        k < to ==> find_char(v@.subrange(from as int, to as int), '\n') == Some(k - from),
        k == to ==> find_char(v@.subrange(from as int, to as int), '\n') is None,
{
    let ghost s = v@.subrange(from as int, to as int);
    let mut k = from;
    while k < to && v[k] != '\n'
        invariant
            from <= k <= to <= v@.len(),
            s == v@.subrange(from as int, to as int),
            forall|j: int| 0 <= j < k - from ==> s[j] != '\n',
        decreases to - k,
    {
        k += 1;
    }
    proof {
        lemma_find_char(s, '\n', k - from);
    }
    k
}

/// Bounds of `strip_fence(v)`.
fn strip_fence_bounds(v: &Vec<char>) -> (r: (usize, usize))
    ensures
        r.0 <= r.1 <= v@.len(),
        v@.subrange(r.0 as int, r.1 as int) == strip_fence(v@),
{
    let (a, b) = trim_bounds(v, 0, v.len());
    assert(v@.subrange(0, v@.len() as int) =~= v@);
    let ghost t = v@.subrange(a as int, b as int);
    let fence_chars = vec!['`', '`', '`'];
    assert(fence_chars@ =~= fence());
    if b - a < 3 || !occurs_at_exec(v, &fence_chars, a) {
        if b - a >= 3 {
            assert(t.subrange(0, 3) =~= v@.subrange(a as int, a + 3));
        }
        return (a, b);
    }
    assert(t.subrange(0, 3) =~= v@.subrange(a as int, a + 3));
    let r0 = a + 3;
    let ghost rest = t.skip(3);
    assert(rest =~= v@.subrange(r0 as int, b as int));
    let k = find_newline(v, r0, b);
    let c = if k < b { k + 1 } else { r0 };
    let ghost after = v@.subrange(c as int, b as int);
    if k < b {
        assert(rest.skip(k - r0 + 1) =~= after);
    }
    assert(strip_fence(v@) == match rfind(after, fence()) {
        Some(e) => trim(after.take(e)),
        None => trim(after),
    });
    // Search backwards for the last fence in `after`.
    if b - c >= 3 {
        let mut j = b - 3;
        loop
            invariant
                c <= j <= b - 3,
                b <= v@.len(),
                after == v@.subrange(c as int, b as int),
                fence_chars@ == fence(),
                strip_fence(v@) == match rfind(after, fence()) {
                    Some(e) => trim(after.take(e)),
                    None => trim(after),
                },
                forall|x: int| j - c < x <= after.len() - 3 ==> !occurs_at(after, fence(), x),
            decreases j - c,
        {
            assert(after.subrange(j - c, j - c + 3) =~= v@.subrange(j as int, j + 3));
            if occurs_at_exec(v, &fence_chars, j) {
                proof {
                    lemma_rfind(after, fence(), j - c);
                }
                assert(after.take(j - c) =~= v@.subrange(c as int, j as int));
                return trim_bounds(v, c, j);
            }
            if j == c {
                proof {
                    lemma_rfind(after, fence(), -1);
                }
                return trim_bounds(v, c, b);
            }
            j -= 1;
        }
    } else {
        assert(rfind(after, fence()) is None);
        trim_bounds(v, c, b)
    }
}

/// The markdown code fence removed from `text`: trimmed, then a leading
/// fence (and language tag line) and the last trailing fence removed, and
/// trimmed again. Text without a leading fence is returned trimmed.
pub fn strip_code_fence(text: &str) -> (s: String)
    ensures
        s@ == strip_fence(text@),
{
    let v = chars_of(text);
    let (a, b) = strip_fence_bounds(&v);
    string_of_range(&v, a, b)
}

/// Bounds of `first_line(v[from..to])`.
fn first_line_bounds(v: &Vec<char>, from: usize, to: usize) -> (r: (usize, usize))
    requires
        from <= to <= v@.len(),
    ensures
        from <= r.0 <= r.1 <= to,
        v@.subrange(r.0 as int, r.1 as int) == first_line(v@.subrange(from as int, to as int)),
{
    let mut pos = from;
    loop
        invariant
            from <= pos <= to <= v@.len(),
            first_line(v@.subrange(from as int, to as int)) == first_line(
                v@.subrange(pos as int, to as int),
            ),
        decreases to - pos,
    {
        let ghost s = v@.subrange(pos as int, to as int);
        let k = find_newline(v, pos, to);
        assert(s.take(k - pos) =~= v@.subrange(pos as int, k as int));
        let (la, lb) = trim_bounds(v, pos, k);
        if k == to {
            assert(s =~= v@.subrange(pos as int, k as int));
            return (la, lb);
        }
        if la < lb {
            return (la, lb);
        }
        assert(s.skip(k - pos + 1) =~= v@.subrange(k + 1, to as int));
        pos = k + 1;
    }
}

/// `find_char` on `t` with `c` appended: `t`'s first match, else the new
/// last position when `c` matches.
proof fn lemma_find_char_push(t: Seq<char>, c: char, x: char)
    ensures
        find_char(t.push(c), x) == match find_char(t, x) {
            Some(k) => Some(k),
            None => if c == x {
                Some(t.len() as int)
            } else {
                None
            },
        },
    decreases t.len(),
{
    let s = t.push(c);
    if t.len() == 0 {
        assert(s.drop_first() =~= Seq::<char>::empty());
    } else if t[0] != x {
        assert(s.drop_first() =~= t.drop_first().push(c));
        lemma_find_char_push(t.drop_first(), c, x);
    }
}

/// Appending a whitespace character to a text whose leading whitespace has
/// been dropped appends it after the rest, or leaves nothing.
proof fn lemma_trim_left_push(t: Seq<char>, c: char)
    requires
        is_ws(c),
    ensures
        trim_left(t.push(c)) == if trim_left(t).len() == 0 {
            Seq::<char>::empty()
        } else {
            trim_left(t).push(c)
        },
    decreases t.len(),
{
    let s = t.push(c);
    if t.len() == 0 {
        assert(s.drop_first() =~= Seq::<char>::empty());
        assert(trim_left(s.drop_first()) =~= Seq::<char>::empty());
    } else if is_ws(t[0]) {
        assert(s.drop_first() =~= t.drop_first().push(c));
        lemma_trim_left_push(t.drop_first(), c);
    } else {
        assert(s[0] == t[0]);
    }
}

/// Trailing whitespace does not change the trimmed text.
proof fn lemma_trim_push_ws(t: Seq<char>, c: char)
    requires
        is_ws(c),
    ensures
        trim(t.push(c)) == trim(t),
{
    lemma_trim_left_push(t, c);
    let l = trim_left(t);
    if l.len() > 0 {
        assert(l.push(c).drop_last() =~= l);
    } else {
        assert(l =~= Seq::<char>::empty());
    }
}

/// A leading whitespace character does not change the first non-blank line.
proof fn lemma_first_line_drop_first(s: Seq<char>)
    requires
        s.len() > 0,
        is_ws(s[0]),
    ensures
        first_line(s) == first_line(s.drop_first()),
{
    let t = s.drop_first();
    if s[0] == '\n' {
        assert(s.take(0) =~= Seq::<char>::empty());
        assert(s.skip(1) =~= t);
    } else {
        lemma_find_char_bound(t, '\n');
        match find_char(t, '\n') {
            None => {},
            Some(k) => {
                assert(s.take(k + 1).drop_first() =~= t.take(k));
                assert(s.skip(k + 2) =~= t.skip(k + 1));
            },
        }
    }
}

/// A trailing whitespace character does not change the first non-blank line.
proof fn lemma_first_line_drop_last(s: Seq<char>)
    requires
        s.len() > 0,
        is_ws(s.last()),
    ensures
        first_line(s) == first_line(s.drop_last()),
    decreases s.len(),
{
    let t = s.drop_last();
    let c = s.last();
    assert(t.push(c) =~= s);
    lemma_find_char_push(t, c, '\n');
    lemma_find_char_bound(t, '\n');
    match find_char(t, '\n') {
        Some(k) => {
            assert(s.take(k) =~= t.take(k));
            if trim(t.take(k)).len() == 0 {
                let r = s.skip(k + 1);
                assert(r.drop_last() =~= t.skip(k + 1));
                assert(r.last() == c);
                lemma_first_line_drop_last(r);
            }
        },
        None => {
            if c == '\n' {
                assert(s.take(t.len() as int) =~= t);
                let e = s.skip(t.len() as int + 1);
                assert(e =~= Seq::<char>::empty());
                assert(trim_left(e) =~= e);
                assert(first_line(e) =~= Seq::<char>::empty());
                if trim(t).len() == 0 {
                    assert(trim(t) =~= Seq::<char>::empty());
                }
            } else {
                lemma_trim_push_ws(t, c);
            }
        },
    }
}

/// Leading whitespace does not change the first non-blank line.
proof fn lemma_first_line_trim_left(s: Seq<char>)
    ensures
        first_line(trim_left(s)) == first_line(s),
    decreases s.len(),
{
    if s.len() > 0 && is_ws(s[0]) {
        lemma_first_line_trim_left(s.drop_first());
        lemma_first_line_drop_first(s);
    }
}

/// Trailing whitespace does not change the first non-blank line.
proof fn lemma_first_line_trim_right(s: Seq<char>)
    ensures
        first_line(trim_right(s)) == first_line(s),
    decreases s.len(),
{
    if s.len() > 0 && is_ws(s.last()) {
        lemma_first_line_trim_right(s.drop_last());
        lemma_first_line_drop_last(s);
    }
}

/// A response that does not start with a code fence is parsed from its
/// first non-blank line: the argv is that line, trimmed, tokenized; a
/// response without a non-blank line is a parse error.
pub proof fn law_unfenced_response_is_its_first_line(text: Seq<char>)
    requires
        !starts_with(trim(text), fence()),
    ensures
        spec_parse_response(text) == if first_line(text).len() == 0 {
            Err(no_command())
        } else {
            spec_tokenize(first_line(text))
        },
{
    lemma_first_line_trim_right(trim_left(text));
    lemma_first_line_trim_left(text);
}

/// Whether `s` holds no quote or backslash.
pub open spec fn unquoted(s: Seq<char>) -> bool {
    forall|i: int| 0 <= i < s.len() ==> s[i] != '\'' && s[i] != '"' && s[i] != '\\'
}

/// Lexing `s` followed by `c` is one more step after lexing `s`.
proof fn lemma_lex_push(s: Seq<char>, c: char)
    ensures
        lex(s.push(c)) == lex_step(lex(s), c),
{
    assert(s.push(c).drop_last() =~= s);
}

/// Outside quotes no token is open unless one was started, and inside
/// quotes or after a backslash one always is.
proof fn lemma_lex_open_token(s: Seq<char>)
    ensures
        !lex(s).in_token ==> lex(s).current == Seq::<char>::empty(),
        lex(s).mode != QuoteMode::Plain ==> lex(s).in_token,
    decreases s.len(),
{
    if s.len() > 0 {
        lemma_lex_open_token(s.drop_last());
    }
}

/// A text without quotes or backslashes is read entirely outside quotes.
proof fn lemma_unquoted_plain(s: Seq<char>)
    requires
        unquoted(s),
    ensures
        lex(s).mode == QuoteMode::Plain,
    decreases s.len(),
{
    if s.len() > 0 {
        assert(unquoted(s.drop_last())) by {
            assert forall|i: int| 0 <= i < s.drop_last().len() implies s.drop_last()[i] != '\''
                && s.drop_last()[i] != '"' && s.drop_last()[i] != '\\' by {
                assert(s.drop_last()[i] == s[i]);
            }
        }
        lemma_unquoted_plain(s.drop_last());
        assert(s.last() == s[s.len() - 1]);
    }
}

/// The tokens of a text, none when it has none.
pub open spec fn tokens_or_none(s: Seq<char>) -> Seq<Seq<char>> {
    match spec_tokenize(s) {
        Ok(t) => t,
        Err(_) => seq![],
    }
}

/// An empty pair of quotes is an argument: after a line without quotes or
/// backslashes, a separate `''` or `""` adds one empty token at the end,
/// so `a ''` gives `a` and the empty string.
pub proof fn law_empty_quotes_are_an_argument(s: Seq<char>)
    requires
        unquoted(s),
    ensures
        (spec_tokenize(s + seq![' ', '\'', '\'']) matches Ok(t) && t == tokens_or_none(s).push(
            Seq::<char>::empty(),
        )),
        (spec_tokenize(s + seq![' ', '"', '"']) matches Ok(t) && t == tokens_or_none(s).push(
            Seq::<char>::empty(),
        )),
{
    lemma_unquoted_plain(s);
    lemma_lex_open_token(s);
    let s1 = s.push(' ');
    lemma_lex_push(s, ' ');
    let a = s1.push('\'');
    lemma_lex_push(s1, '\'');
    lemma_lex_push(a, '\'');
    assert(s + seq![' ', '\'', '\''] =~= a.push('\''));
    let b = s1.push('"');
    lemma_lex_push(s1, '"');
    lemma_lex_push(b, '"');
    assert(s + seq![' ', '"', '"'] =~= b.push('"'));
}

/// Parses a raw LLM response into an argv: strips a code fence, takes the
/// first non-empty line and tokenizes it.
///
/// Fails with a parse error when no non-empty line remains, on an
/// unterminated quote, and when the line yields no token.
pub fn parse_command_response(text: &str) -> (res: Result<Vec<String>, LlmError>)
    ensures
        parse_outcome(res, spec_parse_response(text@)),
{
    let v = chars_of(text);
    let (a, b) = strip_fence_bounds(&v);
    let (la, lb) = first_line_bounds(&v, a, b);
    if la == lb {
        return Err(LlmError::Parse(crate::text::owned("LLM response contained no parseable command")));
    }
    tokenize_range(&v, la, lb)
}

} // verus!
