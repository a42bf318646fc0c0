//! A parsed TOML document as the configuration decoder reads it, and typed
//! access to the keys of its tables.
//!
//! The TOML syntax itself is parsed by the `toml` crate; everything the
//! configuration schema does with the parsed values is decided here and in
//! the decoder.

use vstd::prelude::*;
use crate::text::{append, owned, str_views, string_views};

verus! {

/// A TOML value.
#[derive(Debug)]
pub enum TomlValue {
    Str(String),
    Int(i64),
    Bool(bool),
    /// A floating-point number (no configuration key takes one).
    Float,
    /// An offset or local date-time, date or time (no configuration key takes one).
    Datetime,
    Array(Vec<TomlValue>),
    /// A table: its keys with their values.
    Table(Vec<(String, TomlValue)>),
}

#[verifier::external_type_specification]
#[verifier::external_body]
pub struct ExTomlValue(::toml::Value);

/// The root table of the TOML document `text`, its entries (and those of
/// every nested table) in document order, or the parser's error message
/// when `text` is not a valid TOML document.
pub uninterp spec fn toml_document(text: Seq<char>) -> Result<Seq<(String, TomlValue)>, Seq<char>>;

/// `toml::Value` as a [`TomlValue`], variant for variant.
#[verifier::external_body]
fn value_of_toml(v: ::toml::Value) -> TomlValue {
    match v {
        ::toml::Value::String(s) => TomlValue::Str(s),
        ::toml::Value::Integer(i) => TomlValue::Int(i),
        ::toml::Value::Boolean(b) => TomlValue::Bool(b),
        ::toml::Value::Float(_) => TomlValue::Float,
        ::toml::Value::Datetime(_) => TomlValue::Datetime,
        ::toml::Value::Array(a) => TomlValue::Array(a.into_iter().map(value_of_toml).collect()),
        ::toml::Value::Table(t) => TomlValue::Table(
            t.into_iter().map(|(k, x)| (k, value_of_toml(x))).collect(),
        ),
    }
}

/// `toml::from_str::<toml::Table>`: parses a TOML document into the keys
/// and values of its root table (with `toml`'s `preserve_order` feature the
/// tables keep the document's order). The contract claims that the result,
/// the table or the parser's error message (its `Display` text, which gives
/// the position and the offending line), is a function of the text alone;
/// what the table holds and what the message says are the parser's own and
/// are left unstated.
#[verifier::external_body]
pub(crate) fn parse_toml(text: &str) -> (r: Result<Vec<(String, TomlValue)>, String>)
    ensures
        r matches Ok(t) ==> (toml_document(text@) matches Ok(w) && w == t@),
        r matches Err(m) ==> (toml_document(text@) matches Err(w) && w == m@),
{
    match ::toml::from_str::<::toml::Table>(text) {
        Ok(t) => Ok(t.into_iter().map(|(k, x)| (k, value_of_toml(x))).collect()),
        Err(e) => Err(e.to_string()),
    }
}

/// The value of the entry named `key`. A table holds each key at most
/// once, so this is the last and only such entry.
pub open spec fn value_of(t: Seq<(String, TomlValue)>, key: Seq<char>) -> Option<TomlValue>
    decreases t.len(),
{
    if t.len() == 0 {
        None
    } else if t.last().0@ == key {
        Some(t.last().1)
    } else {
        value_of(t.drop_last(), key)
    }
}

/// The message that `check` gives for the first entry of `t`, in order,
/// that it rejects.
pub open spec fn first_failure(
    t: Seq<(String, TomlValue)>,
    check: spec_fn(Seq<char>, TomlValue) -> Option<Seq<char>>,
) -> Option<Seq<char>>
    decreases t.len(),
{
    if t.len() == 0 {
        None
    } else {
        match first_failure(t.drop_last(), check) {
            Some(m) => Some(m),
            None => check(t.last().0@, t.last().1),
        }
    }
}

/// `what` followed by the key in back-quotes: the decoder's error message.
pub open spec fn key_msg(what: Seq<char>, key: Seq<char>) -> Seq<char> {
    what + " `"@ + key + "`"@
}

/// The complaint about a value of `key` that must be a boolean.
pub open spec fn bool_error(key: Seq<char>, v: TomlValue) -> Option<Seq<char>> {
    match v {
        TomlValue::Bool(_) => None,
        _ => Some(key_msg("expected a boolean for key"@, key)),
    }
}

/// The complaint about a value of `key` that must be an integer in `0..=max`.
pub open spec fn int_error(key: Seq<char>, v: TomlValue, max: int) -> Option<Seq<char>> {
    match v {
        TomlValue::Int(i) => if 0 <= i && i <= max {
            None
        } else {
            Some(key_msg("integer out of range for key"@, key))
        },
        _ => Some(key_msg("expected an integer for key"@, key)),
    }
}

/// The complaint about a value of `key` that must be a string.
pub open spec fn str_error(key: Seq<char>, v: TomlValue) -> Option<Seq<char>> {
    match v {
        TomlValue::Str(_) => None,
        _ => Some(key_msg("expected a string for key"@, key)),
    }
}

/// The strings of an array whose items are all strings.
pub open spec fn str_items(items: Seq<TomlValue>) -> Option<Seq<Seq<char>>>
    decreases items.len(),
{
    if items.len() == 0 {
        Some(seq![])
    } else {
        match (str_items(items.drop_last()), items.last()) {
            (Some(r), TomlValue::Str(s)) => Some(r.push(s@)),
            _ => None,
        }
    }
}

/// The complaint about a value of `key` that must be an array of strings.
pub open spec fn str_list_error(key: Seq<char>, v: TomlValue) -> Option<Seq<char>> {
    match v {
        TomlValue::Array(a) => if str_items(a@) is Some {
            None
        } else {
            Some(key_msg("expected an array of strings for key"@, key))
        },
        _ => Some(key_msg("expected an array of strings for key"@, key)),
    }
}

/// A boolean key, `default` when absent.
pub open spec fn bool_or(t: Seq<(String, TomlValue)>, key: Seq<char>, default: bool) -> bool {
    match value_of(t, key) {
        Some(TomlValue::Bool(b)) => b,
        _ => default,
    }
}

/// An integer key, `default` when absent.
pub open spec fn int_or(t: Seq<(String, TomlValue)>, key: Seq<char>, default: int) -> int {
    match value_of(t, key) {
        Some(TomlValue::Int(i)) => i as int,
        _ => default,
    }
}

/// A string key, `default` when absent.
pub open spec fn str_or(t: Seq<(String, TomlValue)>, key: Seq<char>, default: Seq<char>) -> Seq<char> {
    match value_of(t, key) {
        Some(TomlValue::Str(s)) => s@,
        _ => default,
    }
}

/// An optional string key.
pub open spec fn opt_str_of(t: Seq<(String, TomlValue)>, key: Seq<char>) -> Option<Seq<char>> {
    match value_of(t, key) {
        Some(TomlValue::Str(s)) => Some(s@),
        _ => None,
    }
}

/// An array-of-strings key, `default` when absent.
pub open spec fn str_list_or(t: Seq<(String, TomlValue)>, key: Seq<char>, default: Seq<Seq<char>>) -> Seq<Seq<char>> {
    match value_of(t, key) {
        Some(TomlValue::Array(a)) => match str_items(a@) {
            Some(r) => r,
            None => default,
        },
        _ => default,
    }
}

/// A sub-table key, empty when absent.
pub open spec fn table_of(t: Seq<(String, TomlValue)>, key: Seq<char>) -> Seq<(String, TomlValue)> {
    match value_of(t, key) {
        Some(TomlValue::Table(e)) => e@,
        _ => seq![],
    }
}

/// The prefix of `t` one entry longer than `t.take(i)` ends with `t[i]`.
pub proof fn lemma_take_next<A>(t: Seq<A>, i: int)
    requires
        0 <= i < t.len(),
    ensures
        t.take(i + 1).drop_last() == t.take(i),
        t.take(i + 1).last() == t[i],
{
    assert(t.take(i + 1).drop_last() =~= t.take(i));
}

/// The value of `key` after one more entry of `t`.
pub proof fn lemma_value_of_next(t: Seq<(String, TomlValue)>, i: int, key: Seq<char>)
    requires
        0 <= i < t.len(),
    ensures
        value_of(t.take(i + 1), key) == if t[i].0@ == key {
            Some(t[i].1)
        } else {
            value_of(t.take(i), key)
        },
{
    lemma_take_next(t, i);
}

/// The first failure after one more entry of `t`.
pub proof fn lemma_first_failure_next(
    t: Seq<(String, TomlValue)>,
    i: int,
    check: spec_fn(Seq<char>, TomlValue) -> Option<Seq<char>>,
)
    requires
        0 <= i < t.len(),
    ensures
        first_failure(t.take(i + 1), check) == match first_failure(t.take(i), check) {
            Some(m) => Some(m),
            None => check(t[i].0@, t[i].1),
        },
{
    lemma_take_next(t, i);
}

/// A failure in a prefix of the entries is the first failure of all of them.
pub proof fn lemma_first_failure_prefix(
    t: Seq<(String, TomlValue)>,
    check: spec_fn(Seq<char>, TomlValue) -> Option<Seq<char>>,
    n: int,
    m: Seq<char>,
)
    requires
        0 <= n <= t.len(),
        first_failure(t.take(n), check) == Some(m),
    ensures
        first_failure(t, check) == Some(m),
    decreases t.len() - n,
{
    if n < t.len() {
        assert(t.take(n + 1).drop_last() =~= t.take(n));
        lemma_first_failure_prefix(t, check, n + 1, m);
    } else {
        assert(t.take(n) =~= t);
    }
}

/// An entry that `check` rejects makes the entries fail; when every earlier
/// entry passes, its message is the one reported.
pub proof fn lemma_first_failure_at(
    t: Seq<(String, TomlValue)>,
    check: spec_fn(Seq<char>, TomlValue) -> Option<Seq<char>>,
    i: int,
)
    requires
        0 <= i < t.len(),
        check(t[i].0@, t[i].1) is Some,
    ensures
        first_failure(t, check) is Some,
        (forall|j: int| 0 <= j < i ==> (#[trigger] check(t[j].0@, t[j].1)) is None) ==> first_failure(t, check)
            == check(t[i].0@, t[i].1),
    decreases t.len(),
{
    if i < t.len() - 1 {
        let u = t.drop_last();
        assert(u[i] == t[i]);
        assert forall|j: int| 0 <= j < i implies u[j] == t[j] by {}
        lemma_first_failure_at(u, check, i);
    } else {
        lemma_first_failure_clean(t.drop_last(), check);
        if forall|j: int| 0 <= j < i ==> (#[trigger] check(t[j].0@, t[j].1)) is None {
            assert forall|j: int| 0 <= j < t.drop_last().len() implies (#[trigger] check(
                t.drop_last()[j].0@,
                t.drop_last()[j].1,
            )) is None by {
                assert(t.drop_last()[j] == t[j]);
            }
        }
    }
}

/// Entries that all pass have no failure; entries with no failure all pass.
pub proof fn lemma_first_failure_clean(
    t: Seq<(String, TomlValue)>,
    check: spec_fn(Seq<char>, TomlValue) -> Option<Seq<char>>,
)
    ensures
        first_failure(t, check) is None <==> forall|j: int|
            0 <= j < t.len() ==> (#[trigger] check(t[j].0@, t[j].1)) is None,
    decreases t.len(),
{
    if t.len() > 0 {
        let u = t.drop_last();
        lemma_first_failure_clean(u, check);
        assert forall|j: int| 0 <= j < u.len() implies u[j] == t[j] by {}
        if first_failure(t, check) is None {
            assert forall|j: int| 0 <= j < t.len() implies (#[trigger] check(t[j].0@, t[j].1)) is None by {
                if j < u.len() {
                    assert(u[j] == t[j]);
                }
            }
        }
        if forall|j: int| 0 <= j < t.len() ==> (#[trigger] check(t[j].0@, t[j].1)) is None {
            assert forall|j: int| 0 <= j < u.len() implies (#[trigger] check(u[j].0@, u[j].1)) is None by {
                assert(u[j] == t[j]);
            }
            assert(check(t[t.len() - 1].0@, t[t.len() - 1].1) is None);
        }
    }
}

/// `what` followed by the key in back-quotes.
pub fn key_message(what: &str, key: &str) -> (s: String)
    ensures
        s@ == key_msg(what@, key@),
{
    let mut s = owned(what);
    append(&mut s, " `");
    append(&mut s, key);
    append(&mut s, "`");
    s
}

/// Whether the string `k` equals `name`.
pub fn key_is(k: &String, name: &str) -> (b: bool)
    ensures
        b == (k@ == name@),
{
    let n = owned(name);
    *k == n
}

/// A boolean value of `key` (see [`bool_error`]).
pub fn bool_value(v: &TomlValue, key: &str) -> (r: Result<bool, String>)
    ensures
        r matches Ok(b) ==> bool_error(key@, *v) is None && *v == TomlValue::Bool(b),
        r matches Err(e) ==> bool_error(key@, *v) == Some(e@),
{
    match v {
        TomlValue::Bool(b) => Ok(*b),
        _ => Err(key_message("expected a boolean for key", key)),
    }
}

/// An integer value of `key` in `0..=max` (see [`int_error`]).
pub fn int_value(v: &TomlValue, key: &str, max: u64) -> (r: Result<u64, String>)
    ensures
        r matches Ok(n) ==> int_error(key@, *v, max as int) is None && (*v matches TomlValue::Int(
            i,
        ) && i == n),
        r matches Err(e) ==> int_error(key@, *v, max as int) == Some(e@),
{
    match v {
        TomlValue::Int(i) => {
            if 0 <= *i && (*i as u64) <= max {
                Ok(*i as u64)
            } else {
                Err(key_message("integer out of range for key", key))
            }
        },
        _ => Err(key_message("expected an integer for key", key)),
    }
}

/// A string value of `key` (see [`str_error`]).
pub fn str_value(v: &TomlValue, key: &str) -> (r: Result<String, String>)
    ensures
        r matches Ok(s) ==> str_error(key@, *v) is None && (*v matches TomlValue::Str(x) && x@
            == s@),
        r matches Err(e) ==> str_error(key@, *v) == Some(e@),
{
    match v {
        TomlValue::Str(s) => Ok(owned(s.as_str())),
        _ => Err(key_message("expected a string for key", key)),
    }
}

/// An array-of-strings value of `key` (see [`str_list_error`]).
pub fn str_list_value(v: &TomlValue, key: &str) -> (r: Result<Vec<String>, String>)
    ensures
        r matches Ok(l) ==> str_list_error(key@, *v) is None && (*v matches TomlValue::Array(a)
            && str_items(a@) == Some(string_views(l@))),
        r matches Err(e) ==> str_list_error(key@, *v) == Some(e@),
{
    match v {
        TomlValue::Array(a) => get_str_items(a, key),
        _ => Err(key_message("expected an array of strings for key", key)),
    }
}

/// A sub-table value of `key`.
pub fn table_value<'a>(v: &'a TomlValue, key: &str) -> (r: Result<&'a Vec<(String, TomlValue)>, String>)
    ensures
        r matches Ok(e) ==> (*v matches TomlValue::Table(x) && x@ == e@),
        r matches Err(m) ==> !(*v is Table) && m@ == key_msg("expected a table for key"@, key@),
{
    match v {
        TomlValue::Table(e) => Ok(e),
        _ => Err(key_message("expected a table for key", key)),
    }
}

/// The strings of an array (see [`str_items`]); the error names the key.
pub fn get_str_items(items: &Vec<TomlValue>, key: &str) -> (r: Result<Vec<String>, String>)
    ensures
        r matches Ok(v) ==> str_items(items@) == Some(string_views(v@)),
        r matches Err(e) ==> str_items(items@) is None && e@ == key_msg(
            "expected an array of strings for key"@,
            key@,
        ),
{
    let mut out: Vec<String> = Vec::new();
    let mut i: usize = 0;
    while i < items.len()
        invariant
            i <= items@.len(),
            str_items(items@.take(i as int)) == Some(string_views(out@)),
        decreases items.len() - i,
    {
        assert(items@.take(i + 1).drop_last() =~= items@.take(i as int));
        assert(items@.take(i + 1).last() == items@[i as int]);
        match &items[i] {
            TomlValue::Str(s) => {
                let ghost before = out@;
                out.push(owned(s.as_str()));
                assert(string_views(out@) =~= string_views(before).push(s@));
            },
            _ => {
                proof {
                    lemma_str_items_prefix(items@, i as int + 1);
                }
                return Err(key_message("expected an array of strings for key", key));
            },
        }
        i += 1;
    }
    assert(items@.take(items.len() as int) =~= items@);
    Ok(out)
}

/// An array whose prefix holds a non-string holds one.
pub proof fn lemma_str_items_prefix(items: Seq<TomlValue>, n: int)
    requires
        0 <= n <= items.len(),
        str_items(items.take(n)) is None,
    ensures
        str_items(items) is None,
    decreases items.len() - n,
{
    if n < items.len() {
        assert(items.take(n + 1).drop_last() =~= items.take(n));
        lemma_str_items_prefix(items, n + 1);
    } else {
        assert(items.take(n) =~= items);
    }
}

} // verus!
