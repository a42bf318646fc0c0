//! Character-sequence helpers shared by the whole library: conversions
//! between `&str`, `String` and `Vec<char>`, prefix and substring tests,
//! joining, trimming, literal replacement and decimal rendering.

use vstd::prelude::*;
use vstd::std_specs::iter::IteratorSpec;
use vstd::string::StringExecFns;

verus! {

/// The characters of `s`, in order.
pub fn chars_of(s: &str) -> (v: Vec<char>)
    ensures
        v@ == s@,
{
    let mut v: Vec<char> = Vec::new();
    for c in it: s.chars()
        invariant
            v@ == it.seq().take(it.index() as int),
    {
        v.push(c);
    }
    v
}

/// `String::push`: appends one character.
#[verifier::external_body]
fn string_push(s: &mut String, c: char)
    ensures
        final(s)@ == old(s)@.push(c),
{
    s.push(c);
}

/// A `String` holding exactly the characters of `v`.
pub fn string_of(v: &Vec<char>) -> (s: String)
    ensures
        s@ == v@,
{
    let mut s = String::new();
    let mut i: usize = 0;
    while i < v.len()
        invariant
            i <= v.len(),
            s@ == v@.take(i as int),
        decreases v.len() - i,
    {
        string_push(&mut s, v[i]);
        assert(v@.take(i + 1) == v@.take(i as int).push(v@[i as int]));
        i += 1;
    }
    assert(v@.take(v.len() as int) == v@);
    s
}

/// A `String` holding exactly the characters of the sub-range `v[from..to]`.
pub fn string_of_range(v: &Vec<char>, from: usize, to: usize) -> (s: String)
    requires
        from <= to <= v.len(),
    ensures
        s@ == v@.subrange(from as int, to as int),
{
    let mut s = String::new();
    let mut i: usize = from;
    while i < to
        invariant
            from <= i <= to <= v.len(),
            s@ == v@.subrange(from as int, i as int),
        decreases to - i,
    {
        string_push(&mut s, v[i]);
        assert(v@.subrange(from as int, i + 1) == v@.subrange(from as int, i as int).push(
            v@[i as int],
        ));
        i += 1;
    }
    s
}

/// An owned copy of a string slice.
pub fn owned(s: &str) -> (r: String)
    ensures
        r@ == s@,
{
    String::from_str(s)
}

/// Appends `t` to `s`.
pub fn append(s: &mut String, t: &str)
    ensures
        final(s)@ == old(s)@ + t@,
{
    s.append(t);
}

/// `t` is a prefix of `s`.
pub open spec fn starts_with(s: Seq<char>, t: Seq<char>) -> bool {
    t.len() <= s.len() && s.subrange(0, t.len() as int) == t
}

/// `t` occurs in `s` at position `i`.
pub open spec fn occurs_at(s: Seq<char>, t: Seq<char>, i: int) -> bool {
    0 <= i && i + t.len() <= s.len() && s.subrange(i, i + t.len()) == t
}

/// `t` occurs somewhere in `s`.
pub open spec fn contains(s: Seq<char>, t: Seq<char>) -> bool {
    exists|i: int| occurs_at(s, t, i)
}

/// Whether `t` occurs in `s` at position `i` (the executable test).
pub fn occurs_at_exec(s: &Vec<char>, t: &Vec<char>, i: usize) -> (b: bool)
    ensures
        b == occurs_at(s@, t@, i as int),
{
    if t.len() > s.len() || i > s.len() - t.len() {
        return false;
    }
    let mut j: usize = 0;
    while j < t.len()
        invariant
            i + t.len() <= s.len(),
            j <= t.len(),
            forall|k: int| 0 <= k < j ==> s@[i + k] == t@[k],
        decreases t.len() - j,
    {
        if s[i + j] != t[j] {
            assert(s@.subrange(i as int, i + t.len())[j as int] != t@[j as int]);
            return false;
        }
        j += 1;
    }
    assert(s@.subrange(i as int, i + t.len()) =~= t@);
    true
}

/// Whether `t` is a prefix of `s`.
pub fn starts_with_exec(s: &Vec<char>, t: &Vec<char>) -> (b: bool)
    ensures
        b == starts_with(s@, t@),
{
    occurs_at_exec(s, t, 0)
}

/// Whether `t` occurs anywhere in `s`.
pub fn contains_exec(s: &Vec<char>, t: &Vec<char>) -> (b: bool)
    ensures
        b == contains(s@, t@),
{
    if t.len() > s.len() {
        assert(!contains(s@, t@));
        return false;
    }
    let limit: usize = s.len() - t.len();
    let mut i: usize = 0;
    loop
        invariant
            t.len() <= s.len(),
            limit == s.len() - t.len(),
            i <= limit,
            forall|k: int| 0 <= k < i ==> !occurs_at(s@, t@, k),
        ensures
            forall|k: int| 0 <= k <= limit ==> !occurs_at(s@, t@, k),
        decreases limit - i,
    {
        if occurs_at_exec(s, t, i) {
            return true;
        }
        if i == limit {
            break;
        }
        i += 1;
    }
    assert forall|k: int| !occurs_at(s@, t@, k) by {
        if 0 <= k && k + t@.len() <= s@.len() {
            assert(k <= limit);
        }
    }
    false
}

/// Whether the string slice `t` occurs in `s`.
pub fn str_contains(s: &str, t: &str) -> (b: bool)
    ensures
        b == contains(s@, t@),
{
    contains_exec(&chars_of(s), &chars_of(t))
}

/// The decimal digit character for `d < 10`.
pub open spec fn digit_char(d: int) -> char {
    if d == 0 { '0' }
    else if d == 1 { '1' }
    else if d == 2 { '2' }
    else if d == 3 { '3' }
    else if d == 4 { '4' }
    else if d == 5 { '5' }
    else if d == 6 { '6' }
    else if d == 7 { '7' }
    else if d == 8 { '8' }
    else { '9' }
}

/// The decimal rendering of a natural number, most significant digit first,
/// without leading zeros.
pub open spec fn decimal(n: nat) -> Seq<char>
    decreases n,
{
    if n < 10 {
        seq![digit_char(n as int)]
    } else {
        decimal(n / 10).push(digit_char((n % 10) as int))
    }
}

fn digit_exec(d: u64) -> (c: char)
    requires
        d < 10,
    ensures
        c == digit_char(d as int),
{
    if d == 0 { '0' }
    else if d == 1 { '1' }
    else if d == 2 { '2' }
    else if d == 3 { '3' }
    else if d == 4 { '4' }
    else if d == 5 { '5' }
    else if d == 6 { '6' }
    else if d == 7 { '7' }
    else if d == 8 { '8' }
    else { '9' }
}

/// Appends the decimal rendering of `n` to `s`.
pub fn push_decimal(s: &mut String, n: u64)
    ensures
        final(s)@ == old(s)@ + decimal(n as nat),
    decreases n,
{
    if n >= 10 {
        push_decimal(s, n / 10);
        string_push(s, digit_exec(n % 10));
        assert(decimal(n as nat) == decimal((n / 10) as nat).push(digit_char((n % 10) as int)));
    } else {
        string_push(s, digit_exec(n));
    }
}

/// A decimal rendering of a signed integer.
pub open spec fn signed_decimal(n: int) -> Seq<char> {
    if n < 0 {
        "-"@ + decimal((-n) as nat)
    } else {
        decimal(n as nat)
    }
}

/// Appends the decimal rendering of a signed integer.
pub fn push_signed(s: &mut String, n: i32)
    ensures
        final(s)@ == old(s)@ + signed_decimal(n as int),
{
    if n < 0 {
        append(s, "-");
        let m: i64 = -(n as i64);
        push_decimal(s, m as u64);
    } else {
        push_decimal(s, n as u64);
    }
}

/// The parts joined by single spaces.
pub open spec fn join_spaced(parts: Seq<Seq<char>>) -> Seq<char>
    decreases parts.len(),
{
    if parts.len() == 0 {
        seq![]
    } else if parts.len() == 1 {
        parts[0]
    } else {
        join_spaced(parts.drop_last()) + seq![' '] + parts.last()
    }
}

/// The views of a sequence of string slices.
pub open spec fn str_views(v: Seq<&str>) -> Seq<Seq<char>> {
    v.map_values(|s: &str| s@)
}

/// The views of a sequence of strings.
pub open spec fn string_views(v: Seq<String>) -> Seq<Seq<char>> {
    v.map_values(|s: String| s@)
}

/// Joins the arguments with single spaces (`argv.join(" ")`).
pub fn join_args(argv: &[&str]) -> (s: String)
    ensures
        s@ == join_spaced(str_views(argv@)),
{
    let mut s = String::new();
    let mut i: usize = 0;
    while i < argv.len()
        invariant
            i <= argv@.len(),
            s@ == join_spaced(str_views(argv@.take(i as int))),
        decreases argv.len() - i,
    {
        assert(str_views(argv@.take(i + 1)).drop_last() =~= str_views(argv@.take(i as int)));
        if i > 0 {
            string_push(&mut s, ' ');
        }
        append(&mut s, argv[i]);
        i += 1;
    }
    assert(argv@.take(argv.len() as int) =~= argv@);
    s
}

} // verus!

verus! {

/// The string slices of a vector of strings.
pub fn as_strs(v: &Vec<String>) -> (r: Vec<&str>)
    ensures
        str_views(r@) == string_views(v@),
{
    let mut r: Vec<&str> = Vec::new();
    let mut i: usize = 0;
    while i < v.len()
        invariant
            i <= v@.len(),
            r@.len() == i,
            forall|k: int| 0 <= k < i ==> r@[k]@ == v@[k]@,
        decreases v.len() - i,
    {
        r.push(v[i].as_str());
        i += 1;
    }
    assert(str_views(r@) =~= string_views(v@));
    r
}

/// An element-wise copy of a vector of strings.
pub fn clone_strings(v: &Vec<String>) -> (r: Vec<String>)
    ensures
        string_views(r@) == string_views(v@),
        r@.len() == v@.len(),
{
    let mut r: Vec<String> = Vec::new();
    let mut i: usize = 0;
    while i < v.len()
        invariant
            i <= v.len(),
            r@.len() == i,
            forall|k: int| 0 <= k < i ==> r@[k]@ == v@[k]@,
        decreases v.len() - i,
    {
        r.push(v[i].clone());
        i += 1;
    }
    assert(string_views(r@) =~= string_views(v@));
    r
}

} // verus!

verus! {

/// Unicode `White_Space` characters, as `char::is_whitespace` classifies them.
pub open spec fn is_ws(c: char) -> bool {
    ||| c == '\t'
    ||| c == '\n'
    ||| c == '\u{0B}'
    ||| c == '\u{0C}'
    ||| c == '\r'
    ||| c == ' '
    ||| c == '\u{85}'
    ||| c == '\u{A0}'
    ||| c == '\u{1680}'
    ||| ('\u{2000}' <= c && c <= '\u{200A}')
    ||| c == '\u{2028}'
    ||| c == '\u{2029}'
    ||| c == '\u{202F}'
    ||| c == '\u{205F}'
    ||| c == '\u{3000}'
}

/// Whether `c` is whitespace (`char::is_whitespace`).
pub fn is_ws_exec(c: char) -> (b: bool)
    ensures
        b == is_ws(c),
{
    c == '\t' || c == '\n' || c == '\u{0B}' || c == '\u{0C}' || c == '\r' || c == ' ' || c
        == '\u{85}' || c == '\u{A0}' || c == '\u{1680}' || ('\u{2000}' <= c && c <= '\u{200A}')
        || c == '\u{2028}' || c == '\u{2029}' || c == '\u{202F}' || c == '\u{205F}' || c
        == '\u{3000}'
}

/// `s` without leading whitespace.
pub open spec fn trim_left(s: Seq<char>) -> Seq<char>
    decreases s.len(),
{
    if s.len() > 0 && is_ws(s[0]) {
        trim_left(s.drop_first())
    } else {
        s
    }
}

/// `s` without trailing whitespace.
pub open spec fn trim_right(s: Seq<char>) -> Seq<char>
    decreases s.len(),
{
    if s.len() > 0 && is_ws(s.last()) {
        trim_right(s.drop_last())
    } else {
        s
    }
}

/// `s` without leading and trailing whitespace (`str::trim`).
pub open spec fn trim(s: Seq<char>) -> Seq<char> {
    trim_right(trim_left(s))
}

/// Bounds of the trimmed sub-range `v[from..to]`.
pub fn trim_bounds(v: &Vec<char>, from: usize, to: usize) -> (r: (usize, usize))
    requires
        from <= to <= v@.len(),
    ensures
        from <= r.0 <= r.1 <= to,
        v@.subrange(r.0 as int, r.1 as int) == trim(v@.subrange(from as int, to as int)),
{
    let mut a = from;
    while a < to && is_ws_exec(v[a])
        invariant
            from <= a <= to <= v@.len(),
            trim_left(v@.subrange(from as int, to as int)) == trim_left(
                v@.subrange(a as int, to as int),
            ),
        decreases to - a,
    {
        assert(v@.subrange(a as int, to as int).drop_first() =~= v@.subrange(a + 1, to as int));
        a += 1;
    }
    let mut b = to;
    while b > a && is_ws_exec(v[b - 1])
        invariant
            a <= b <= to <= v@.len(),
            trim_right(v@.subrange(a as int, to as int)) == trim_right(
                v@.subrange(a as int, b as int),
            ),
        decreases b - a,
    {
        assert(v@.subrange(a as int, b as int).drop_last() =~= v@.subrange(a as int, b - 1));
        b -= 1;
    }
    (a, b)
}

/// Index of the first `c` in `s`.
pub open spec fn find_char(s: Seq<char>, c: char) -> Option<int>
    decreases s.len(),
{
    if s.len() == 0 {
        None
    } else if s[0] == c {
        Some(0)
    } else {
        match find_char(s.drop_first(), c) {
            Some(k) => Some(k + 1),
            None => None,
        }
    }
}

/// `find_char` names the first occurrence.
pub proof fn lemma_find_char(s: Seq<char>, c: char, k: int)
    requires
        0 <= k <= s.len(),
        forall|j: int| 0 <= j < k ==> s[j] != c,
    ensures
        k < s.len() && s[k] == c ==> find_char(s, c) == Some(k),
        k == s.len() ==> find_char(s, c) is None,
    decreases k,
{
    if k > 0 {
        assert forall|j: int| 0 <= j < k - 1 implies s.drop_first()[j] != c by {
            assert(s.drop_first()[j] == s[j + 1]);
        }
        lemma_find_char(s.drop_first(), c, k - 1);
    }
}

/// A found index lies inside the sequence and holds `c`.
pub proof fn lemma_find_char_bound(s: Seq<char>, c: char)
    ensures
        find_char(s, c) matches Some(k) ==> 0 <= k < s.len() && s[k] == c,
    decreases s.len(),
{
    if s.len() > 0 && s[0] != c {
        lemma_find_char_bound(s.drop_first(), c);
    }
}

/// Index of the last occurrence of `t` in `s` (`str::rfind`).
pub open spec fn rfind(s: Seq<char>, t: Seq<char>) -> Option<int>
    decreases s.len(),
{
    if s.len() < t.len() {
        None
    } else if s.subrange(s.len() - t.len(), s.len() as int) == t {
        Some(s.len() - t.len())
    } else if s.len() == 0 {
        None
    } else {
        rfind(s.drop_last(), t)
    }
}

/// `rfind` names the last occurrence.
pub proof fn lemma_rfind(s: Seq<char>, t: Seq<char>, k: int)
    requires
        -1 <= k <= s.len() - t.len(),
        t.len() > 0,
        forall|j: int| k < j <= s.len() - t.len() ==> !occurs_at(s, t, j),
    ensures
        k >= 0 && occurs_at(s, t, k) ==> rfind(s, t) == Some(k),
        k == -1 ==> rfind(s, t) is None,
    decreases s.len(),
{
    if s.len() >= t.len() {
        if k < s.len() - t.len() {
            assert(!occurs_at(s, t, s.len() - t.len()));
            assert forall|j: int|
                k < j <= s.drop_last().len() - t.len() implies !occurs_at(s.drop_last(), t, j) by {
                assert(s.drop_last().subrange(j, j + t.len()) =~= s.subrange(j, j + t.len()));
                assert(!occurs_at(s, t, j));
            }
            if k >= 0 && occurs_at(s, t, k) {
                assert(s.drop_last().subrange(k, k + t.len()) =~= s.subrange(k, k + t.len()));
            }
            lemma_rfind(s.drop_last(), t, k);
        }
    }
}

} // verus!

verus! {

/// `s` with every non-overlapping occurrence of `pat` replaced by `rep`,
/// scanning left to right (`str::replace` for a non-empty pattern).
pub open spec fn replace_all(s: Seq<char>, pat: Seq<char>, rep: Seq<char>) -> Seq<char>
    decreases s.len(),
{
    if pat.len() == 0 || s.len() < pat.len() {
        s
    } else if s.take(pat.len() as int) == pat {
        rep + replace_all(s.skip(pat.len() as int), pat, rep)
    } else {
        seq![s[0]] + replace_all(s.drop_first(), pat, rep)
    }
}

/// Replaces every non-overlapping occurrence of the non-empty `pat` in `s`
/// by `rep`.
pub fn replace_all_exec(s: &str, pat: &str, rep: &str) -> (r: String)
    requires
        pat@.len() > 0,
    ensures
        r@ == replace_all(s@, pat@, rep@),
{
    let v = chars_of(s);
    let p = chars_of(pat);
    let mut out = String::new();
    let mut i: usize = 0;
    assert(v@.skip(0) =~= v@);
    assert(out@ + v@ =~= v@);
    while i < v.len()
        invariant
            i <= v@.len(),
            v@ == s@,
            p@ == pat@,
            p@.len() > 0,
            out@ + replace_all(v@.skip(i as int), p@, rep@) == replace_all(v@, p@, rep@),
        decreases v.len() - i,
    {
        let ghost rest = v@.skip(i as int);
        if occurs_at_exec(&v, &p, i) {
            assert(rest.take(p@.len() as int) =~= v@.subrange(i as int, i + p@.len()));
            assert(rest.skip(p@.len() as int) =~= v@.skip(i + p@.len()));
            let ghost before = out@;
            append(&mut out, rep);
            assert(out@ + replace_all(v@.skip(i + p@.len()), p@, rep@) =~= before + replace_all(
                rest,
                p@,
                rep@,
            ));
            i = i + p.len();
        } else {
            proof {
                if rest.len() >= p@.len() {
                    assert(rest.take(p@.len() as int) =~= v@.subrange(i as int, i + p@.len()));
                }
            }
            assert(rest.drop_first() =~= v@.skip(i + 1));
            let ghost before = out@;
            string_push(&mut out, v[i]);
            proof {
                if rest.len() < p@.len() {
                    assert(replace_all(rest, p@, rep@) == rest);
                    assert(replace_all(rest.drop_first(), p@, rep@) == rest.drop_first());
                }
            }
            assert(out@ + replace_all(v@.skip(i + 1), p@, rep@) =~= before + replace_all(
                rest,
                p@,
                rep@,
            ));
            i = i + 1;
        }
    }
    assert(v@.skip(i as int) =~= seq![]);
    assert(replace_all(v@.skip(i as int), p@, rep@) == v@.skip(i as int));
    assert(out@ =~= replace_all(v@, p@, rep@));
    out
}

/// The parts joined by `sep`.
pub open spec fn join_with(parts: Seq<Seq<char>>, sep: char) -> Seq<char>
    decreases parts.len(),
{
    if parts.len() == 0 {
        seq![]
    } else if parts.len() == 1 {
        parts[0]
    } else {
        join_with(parts.drop_last(), sep) + seq![sep] + parts.last()
    }
}

/// Joins owned strings with the separator character `sep`.
pub fn join_strings_with(parts: &Vec<String>, sep: char) -> (s: String)
    ensures
        s@ == join_with(string_views(parts@), sep),
{
    let mut s = String::new();
    let mut i: usize = 0;
    while i < parts.len()
        invariant
            i <= parts@.len(),
            s@ == join_with(string_views(parts@.take(i as int)), sep),
        decreases parts.len() - i,
    {
        assert(string_views(parts@.take(i + 1)).drop_last() =~= string_views(parts@.take(i as int)));
        if i > 0 {
            string_push(&mut s, sep);
        }
        append(&mut s, parts[i].as_str());
        i += 1;
    }
    assert(parts@.take(parts.len() as int) =~= parts@);
    s
}

} // verus!

verus! {

/// Word-splitting state: finished words, the word being read, whether a
/// word is open.
pub struct WordState {
    pub words: Seq<Seq<char>>,
    pub current: Seq<char>,
    pub in_word: bool,
}

/// The word-splitting state after reading `s`.
pub open spec fn word_scan(s: Seq<char>) -> WordState
    decreases s.len(),
{
    if s.len() == 0 {
        WordState { words: seq![], current: seq![], in_word: false }
    } else {
        let st = word_scan(s.drop_last());
        let c = s.last();
        if is_ws(c) {
            if st.in_word {
                WordState { words: st.words.push(st.current), current: seq![], in_word: false }
            } else {
                st
            }
        } else {
            WordState { words: st.words, current: st.current.push(c), in_word: true }
        }
    }
}

/// The maximal runs of non-whitespace characters of `s` (`str::split_whitespace`).
pub open spec fn words(s: Seq<char>) -> Seq<Seq<char>> {
    let st = word_scan(s);
    if st.in_word {
        st.words.push(st.current)
    } else {
        st.words
    }
}

/// Splits `s` into its whitespace-separated words.
pub fn split_words(s: &str) -> (v: Vec<String>)
    ensures
        string_views(v@) == words(s@),
{
    let c = chars_of(s);
    let mut out: Vec<String> = Vec::new();
    let mut cur: Vec<char> = Vec::new();
    let mut in_word = false;
    let mut i: usize = 0;
    while i < c.len()
        invariant
            i <= c@.len(),
            c@ == s@,
            word_scan(c@.take(i as int)).words == string_views(out@),
            word_scan(c@.take(i as int)).current == cur@,
            word_scan(c@.take(i as int)).in_word == in_word,
        decreases c.len() - i,
    {
        assert(c@.take(i + 1).drop_last() =~= c@.take(i as int));
        assert(c@.take(i + 1).last() == c@[i as int]);
        let ch = c[i];
        if is_ws_exec(ch) {
            if in_word {
                let ghost before = out@;
                out.push(string_of(&cur));
                assert(string_views(out@) =~= string_views(before).push(cur@));
                cur = Vec::new();
                assert(cur@ =~= seq![]);
                in_word = false;
            }
        } else {
            cur.push(ch);
            in_word = true;
        }
        i += 1;
    }
    assert(c@.take(c.len() as int) =~= c@);
    if in_word {
        let ghost before = out@;
        out.push(string_of(&cur));
        assert(string_views(out@) =~= string_views(before).push(cur@));
    }
    out
}

/// The parts joined by the separator `sep`.
pub open spec fn join_sep(parts: Seq<Seq<char>>, sep: Seq<char>) -> Seq<char>
    decreases parts.len(),
{
    if parts.len() == 0 {
        seq![]
    } else if parts.len() == 1 {
        parts[0]
    } else {
        join_sep(parts.drop_last(), sep) + sep + parts.last()
    }
}

/// Joins owned strings with the separator `sep` (`parts.join(sep)`).
pub fn join_strings_sep(parts: &Vec<String>, sep: &str) -> (s: String)
    ensures
        s@ == join_sep(string_views(parts@), sep@),
{
    let mut s = String::new();
    let mut i: usize = 0;
    while i < parts.len()
        invariant
            i <= parts@.len(),
            s@ == join_sep(string_views(parts@.take(i as int)), sep@),
        decreases parts.len() - i,
    {
        assert(string_views(parts@.take(i + 1)).drop_last() =~= string_views(parts@.take(i as int)));
        if i > 0 {
            append(&mut s, sep);
        }
        append(&mut s, parts[i].as_str());
        i += 1;
    }
    assert(parts@.take(parts.len() as int) =~= parts@);
    s
}

} // verus!
