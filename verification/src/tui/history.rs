//! Command history: a capped ring buffer with arrow-key navigation and a
//! line-per-entry text form for persistence.
//!
//! Entries are stored oldest first. Navigation walks from the newest entry
//! towards the oldest and back, restoring the live input when it moves past
//! the newest entry.

use vstd::prelude::*;
use std::collections::VecDeque;
use crate::text::{
    chars_of, find_char, join_with, lemma_find_char, owned, string_of_range, string_views, trim,
    trim_bounds,
};

verus! {

broadcast use vstd::std_specs::vecdeque::group_vec_dequeue_axioms;

/// Default number of entries kept.
pub const DEFAULT_CAP: usize = 1_000;

/// Persistent command history with navigation.
#[derive(Debug, Clone)]
pub struct HistoryStore {
    entries: VecDeque<String>,
    cap: usize,
    path: String,
    /// `None` while editing live input; `Some(i)` while showing `entries[i]`.
    pub nav_index: Option<usize>,
    /// The live input saved when navigation started.
    pub saved_input: String,
}

/// The navigation-relevant state of a history.
pub struct NavView {
    pub entries: Seq<Seq<char>>,
    pub nav: Option<usize>,
    pub saved: Seq<char>,
}

/// Up arrow: from live input, save it and show the newest entry; from an
/// entry, show the next older one; at the oldest entry, or with no
/// entries, nothing changes.
pub open spec fn spec_prev(st: NavView, input: Seq<char>) -> (NavView, Option<Seq<char>>) {
    if st.entries.len() == 0 {
        (st, None)
    } else {
        match st.nav {
            None => (
                NavView {
                    entries: st.entries,
                    nav: Some((st.entries.len() - 1) as usize),
                    saved: input,
                },
                Some(st.entries.last()),
            ),
            Some(i) => if i == 0 {
                (st, None)
            } else {
                (
                    NavView { entries: st.entries, nav: Some((i - 1) as usize), saved: st.saved },
                    Some(st.entries[i - 1]),
                )
            },
        }
    }
}

/// Down arrow: from an entry, show the next newer one; past the newest,
/// restore the saved live input; while editing live input, nothing changes.
pub open spec fn spec_next(st: NavView) -> (NavView, Option<Seq<char>>) {
    match st.nav {
        None => (st, None),
        Some(i) => if i + 1 < st.entries.len() {
            (
                NavView { entries: st.entries, nav: Some((i + 1) as usize), saved: st.saved },
                Some(st.entries[i + 1]),
            )
        } else {
            (NavView { entries: st.entries, nav: None, saved: seq![] }, Some(st.saved))
        },
    }
}

/// The entries after pushing `entry`: empty input and a repeat of the
/// newest entry change nothing; otherwise the entry is appended and the
/// oldest entries are dropped down to the cap.
pub open spec fn spec_pushed(entries: Seq<Seq<char>>, cap: nat, entry: Seq<char>) -> Seq<Seq<char>> {
    if entry.len() == 0 || (entries.len() > 0 && entries.last() == entry) {
        entries
    } else {
        let e = entries.push(entry);
        if e.len() > cap {
            e.skip(e.len() - cap)
        } else {
            e
        }
    }
}

/// The non-empty trimmed lines of a text, in order.
pub open spec fn text_lines(s: Seq<char>) -> Seq<Seq<char>>
    decreases s.len(),
{
    match find_char(s, '\n') {
        None => if trim(s).len() > 0 {
            seq![trim(s)]
        } else {
            seq![]
        },
        Some(k) => if 0 <= k < s.len() {
            (if trim(s.take(k)).len() > 0 {
                seq![trim(s.take(k))]
            } else {
                seq![]
            }) + text_lines(s.skip(k + 1))
        } else {
            seq![]
        },
    }
}

/// The newest `cap` entries of `e`.
pub open spec fn keep_newest(e: Seq<Seq<char>>, cap: nat) -> Seq<Seq<char>> {
    if e.len() > cap {
        e.skip(e.len() - cap)
    } else {
        e
    }
}

impl HistoryStore {
    /// The entries, oldest first.
    pub closed spec fn entries_view(&self) -> Seq<Seq<char>> {
        string_views(self.entries@)
    }

    /// The entry cap.
    pub closed spec fn cap_view(&self) -> usize {
        self.cap
    }

    /// The persistence path.
    pub closed spec fn path_view(&self) -> Seq<char> {
        self.path@
    }

    /// The navigation index.
    pub closed spec fn nav(&self) -> Option<usize> {
        self.nav_index
    }

    /// The saved live input.
    pub closed spec fn saved(&self) -> Seq<char> {
        self.saved_input@
    }

    /// The navigation state.
    pub open spec fn nav_view(&self) -> NavView {
        NavView { entries: self.entries_view(), nav: self.nav(), saved: self.saved() }
    }

    /// The navigation index, if any, names an entry.
    pub open spec fn nav_ok(&self) -> bool {
        self.nav() matches Some(i) ==> i < self.entries_view().len()
    }

    /// The navigation index, if any, names an entry or the place just after
    /// the newest one, and can be stepped forward without overflow.
    pub open spec fn nav_in_range(&self) -> bool {
        self.nav() matches Some(i) ==> i <= self.entries_view().len() && i < usize::MAX
    }

    /// An empty store persisting to `path` with the default cap of 1 000.
    pub fn new(path: &str) -> (h: Self)
        ensures
            h.entries_view() == Seq::<Seq<char>>::empty(),
            h.cap_view() == DEFAULT_CAP,
            h.path_view() == path@,
            h.nav() is None,
            h.saved() == Seq::<char>::empty(),
    {
        Self::with_cap(path, DEFAULT_CAP)
    }

    /// An empty store with a custom cap.
    pub fn with_cap(path: &str, cap: usize) -> (h: Self)
        ensures
            h.entries_view() == Seq::<Seq<char>>::empty(),
            h.cap_view() == cap,
            h.path_view() == path@,
            h.nav() is None,
            h.saved() == Seq::<char>::empty(),
    {
        let h = HistoryStore {
            entries: VecDeque::new(),
            cap,
            path: owned(path),
            nav_index: None,
            saved_input: String::new(),
        };
        assert(h.entries_view() =~= Seq::<Seq<char>>::empty());
        h
    }

    /// Number of entries.
    pub fn len(&self) -> (n: usize)
        ensures
            n == self.entries_view().len(),
    {
        self.entries.len()
    }

    /// Whether there is no entry.
    pub fn is_empty(&self) -> (b: bool)
        ensures
            b == (self.entries_view().len() == 0),
    {
        self.entries.len() == 0
    }

    /// The entries, oldest first.
    pub fn entries(&self) -> (e: &VecDeque<String>)
        ensures
            string_views(e@) == self.entries_view(),
    {
        &self.entries
    }

    /// The entry cap.
    pub fn cap(&self) -> (c: usize)
        ensures
            c == self.cap_view(),
    {
        self.cap
    }

    /// The persistence path.
    pub fn path(&self) -> (p: &str)
        ensures
            p@ == self.path_view(),
    {
        self.path.as_str()
    }

    /// Appends `entry`: empty input is ignored entirely; a repeat of the
    /// newest entry only resets navigation; otherwise the entry is added,
    /// the oldest entries are dropped down to the cap, and navigation resets.
    pub fn push(&mut self, entry: String)
        ensures
            final(self).entries_view() == spec_pushed(
                old(self).entries_view(),
                old(self).cap_view() as nat,
                entry@,
            ),
            final(self).cap_view() == old(self).cap_view(),
            final(self).path_view() == old(self).path_view(),
            entry@.len() == 0 ==> final(self).nav() == old(self).nav() && final(self).saved()
                == old(self).saved(),
            entry@.len() > 0 ==> final(self).nav() is None && final(self).saved()
                == Seq::<char>::empty(),
    {
        if entry.as_str().is_empty() {
            return;
        }
        let n = self.entries.len();
        if n > 0 && self.entries[n - 1] == entry {
            self.reset_navigation();
            return;
        }
        let ghost before = self.entries@;
        self.entries.push_back(entry);
        assert(string_views(self.entries@) =~= string_views(before).push(entry@));
        while self.entries.len() > self.cap
            invariant
                self.cap == old(self).cap,
                self.path == old(self).path,
                keep_newest(string_views(self.entries@), self.cap as nat) == keep_newest(
                    string_views(before).push(entry@),
                    self.cap as nat,
                ),
            decreases self.entries@.len(),
        {
            let ghost cur = self.entries@;
            let _ = self.entries.pop_front();
            assert(string_views(self.entries@) =~= string_views(cur).drop_first());
            assert(keep_newest(string_views(cur).drop_first(), self.cap as nat) =~= keep_newest(
                string_views(cur),
                self.cap as nat,
            ));
        }
        assert(keep_newest(string_views(self.entries@), self.cap as nat) == string_views(
            self.entries@,
        ));
        self.reset_navigation();
    }

    /// Leaves navigation: back to live input, saved input cleared.
    pub fn reset_navigation(&mut self)
        ensures
            final(self).entries_view() == old(self).entries_view(),
            final(self).cap_view() == old(self).cap_view(),
            final(self).path_view() == old(self).path_view(),
            final(self).nav() is None,
            final(self).saved() == Seq::<char>::empty(),
    {
        self.nav_index = None;
        self.saved_input = String::new();
    }

    /// Moves to the previous (older) entry; see [`spec_prev`]. A navigation
    /// index past the entry after the newest one names no entry to step to.
    pub fn navigate_prev(&mut self, current_input: &str) -> (r: Option<String>)
        requires
            old(self).nav() matches Some(i) ==> i <= old(self).entries_view().len(),
        ensures
            final(self).nav_view() == spec_prev(old(self).nav_view(), current_input@).0,
            r matches Some(s) ==> spec_prev(old(self).nav_view(), current_input@).1 == Some(s@),
            r is None ==> spec_prev(old(self).nav_view(), current_input@).1 is None,
            final(self).cap_view() == old(self).cap_view(),
            final(self).path_view() == old(self).path_view(),
            old(self).nav_ok() ==> final(self).nav_ok(),
            old(self).nav_in_range() ==> final(self).nav_in_range(),
    {
        let n = self.entries.len();
        if n == 0 {
            return None;
        }
        match self.nav_index {
            None => {
                self.saved_input = owned(current_input);
                let idx = n - 1;
                self.nav_index = Some(idx);
                Some(self.entries[idx].clone())
            },
            Some(i) => {
                if i == 0 {
                    None
                } else {
                    let idx = i - 1;
                    self.nav_index = Some(idx);
                    Some(self.entries[idx].clone())
                }
            },
        }
    }

    /// Moves to the next (newer) entry; see [`spec_next`].
    pub fn navigate_next(&mut self) -> (r: Option<String>)
        requires
            old(self).nav() != Some(usize::MAX),
        ensures
            final(self).nav_view() == spec_next(old(self).nav_view()).0,
            r matches Some(s) ==> spec_next(old(self).nav_view()).1 == Some(s@),
            r is None ==> spec_next(old(self).nav_view()).1 is None,
            final(self).cap_view() == old(self).cap_view(),
            final(self).path_view() == old(self).path_view(),
            final(self).nav_ok(),
            final(self).nav_in_range(),
    {
        proof {
            lemma_entries_fit(self);
        }
        match self.nav_index {
            None => None,
            Some(i) => {
                let n = self.entries.len();
                if i + 1 < n {
                    let idx = i + 1;
                    self.nav_index = Some(idx);
                    Some(self.entries[idx].clone())
                } else {
                    let restored = self.saved_input.clone();
                    self.nav_index = None;
                    self.saved_input = String::new();
                    Some(restored)
                }
            },
        }
    }

    /// The persisted form: entries oldest first, one per line.
    pub fn to_text(&self) -> (s: String)
        ensures
            s@ == join_with(self.entries_view(), '\n'),
    {
        let mut s = String::new();
        let mut i: usize = 0;
        let n = self.entries.len();
        while i < n
            invariant
                i <= n == self.entries@.len(),
                s@ == join_with(string_views(self.entries@).take(i as int), '\n'),
            decreases n - i,
        {
            assert(string_views(self.entries@).take(i + 1).drop_last() =~= string_views(
                self.entries@,
            ).take(i as int));
            if i > 0 {
                crate::text::append(&mut s, "\n");
                proof {
                    reveal_strlit("\n");
                }
            }
            crate::text::append(&mut s, self.entries[i].as_str());
            i += 1;
        }
        assert(string_views(self.entries@).take(n as int) =~= self.entries_view());
        s
    }
}


impl HistoryStore {
    /// A store persisting to `path` whose entries are the non-empty trimmed
    /// lines of `content`, keeping only the newest `cap` of them.
    pub fn from_text(path: &str, cap: usize, content: &str) -> (h: Self)
        ensures
            h.entries_view() == keep_newest(text_lines(content@), cap as nat),
            h.cap_view() == cap,
            h.path_view() == path@,
            h.nav() is None,
            h.saved() == Seq::<char>::empty(),
    {
        let c = chars_of(content);
        let n = c.len();
        let mut entries: VecDeque<String> = VecDeque::new();
        let mut pos: usize = 0;
        assert(c@.subrange(0, n as int) =~= c@);
        assert(string_views(entries@) =~= seq![]);
        while pos < n
            invariant
                pos <= n == c@.len(),
                c@ == content@,
                string_views(entries@) + text_lines(c@.subrange(pos as int, n as int))
                    == text_lines(c@),
            decreases n - pos,
        {
            let ghost s = c@.subrange(pos as int, n as int);
            let mut k = pos;
            while k < n && c[k] != '\n'
                invariant
                    pos <= k <= n == c@.len(),
                    s == c@.subrange(pos as int, n as int),
                    forall|j: int| 0 <= j < k - pos ==> s[j] != '\n',
                decreases n - k,
            {
                k += 1;
            }
            proof {
                lemma_find_char(s, '\n', k - pos);
            }
            let (a, b) = trim_bounds(&c, pos, k);
            let ghost before = string_views(entries@);
            if a < b {
                entries.push_back(string_of_range(&c, a, b));
                assert(string_views(entries@) =~= before.push(c@.subrange(a as int, b as int)));
            }
            if k == n {
                assert(s =~= c@.subrange(pos as int, k as int));
                assert(c@.subrange(n as int, n as int) =~= seq![]);
                assert(text_lines(c@.subrange(n as int, n as int)) == Seq::<Seq<char>>::empty());
                assert(string_views(entries@) + text_lines(c@.subrange(n as int, n as int))
                    =~= before + text_lines(s));
                pos = n;
            } else {
                assert(s.take(k - pos) =~= c@.subrange(pos as int, k as int));
                assert(s.skip(k - pos + 1) =~= c@.subrange(k + 1, n as int));
                assert(string_views(entries@) + text_lines(c@.subrange(k + 1, n as int))
                    =~= before + text_lines(s));
                pos = k + 1;
            }
        }
        assert(c@.subrange(n as int, n as int) =~= seq![]);
        assert(text_lines(c@.subrange(n as int, n as int)) == Seq::<Seq<char>>::empty());
        assert(string_views(entries@) =~= text_lines(c@));
        let ghost all = string_views(entries@);
        while entries.len() > cap
            invariant
                keep_newest(string_views(entries@), cap as nat) == keep_newest(all, cap as nat),
            decreases entries@.len(),
        {
            let ghost cur = entries@;
            let _ = entries.pop_front();
            assert(string_views(entries@) =~= string_views(cur).drop_first());
            assert(keep_newest(string_views(cur).drop_first(), cap as nat) =~= keep_newest(
                string_views(cur),
                cap as nat,
            ));
        }
        HistoryStore {
            entries,
            cap,
            path: owned(path),
            nav_index: None,
            saved_input: String::new(),
        }
    }
}

/// A history holds at most `usize::MAX` entries.
pub proof fn lemma_entries_fit(h: &HistoryStore)
    ensures
        h.entries_view().len() <= usize::MAX,
{
    assert(vstd::std_specs::vecdeque::spec_vec_dequeue_len(&h.entries) == h.entries@.len());
}

/// Up then Down from live input shows the newest entry and then restores
/// exactly the live input, leaving navigation.
pub proof fn law_prev_then_next_restores_input(st: NavView, input: Seq<char>)
    requires
        st.nav is None,
        0 < st.entries.len() <= usize::MAX,
    ensures
        spec_prev(st, input).1 == Some(st.entries.last()),
        spec_next(spec_prev(st, input).0).1 == Some(input),
        spec_next(spec_prev(st, input).0).0.nav is None,
        spec_next(spec_prev(st, input).0).0.entries == st.entries,
{
}

/// The navigation state after `k` presses of Up, starting at `st` with
/// live input `input`.
pub open spec fn prevs(st: NavView, input: Seq<char>, k: nat) -> NavView
    decreases k,
{
    if k == 0 {
        st
    } else {
        spec_prev(prevs(st, input, (k - 1) as nat), input).0
    }
}

/// The navigation state after `k` presses of Down, starting at `st`.
pub open spec fn nexts(st: NavView, k: nat) -> NavView
    decreases k,
{
    if k == 0 {
        st
    } else {
        spec_next(nexts(st, (k - 1) as nat)).0
    }
}

proof fn lemma_prevs(st: NavView, input: Seq<char>, j: nat)
    requires
        st.nav is None,
        1 <= j <= st.entries.len() <= usize::MAX,
    ensures
        prevs(st, input, j) == (NavView {
            entries: st.entries,
            nav: Some((st.entries.len() - j) as usize),
            saved: input,
        }),
        spec_prev(prevs(st, input, (j - 1) as nat), input).1 == Some(
            st.entries[st.entries.len() - j],
        ),
    decreases j,
{
    if j > 1 {
        lemma_prevs(st, input, (j - 1) as nat);
    }
}

proof fn lemma_nexts(st: NavView, input: Seq<char>, m: nat, j: nat)
    requires
        st.nav is None,
        1 <= m <= st.entries.len() <= usize::MAX,
        j < m,
    ensures
        nexts(prevs(st, input, m), j) == (NavView {
            entries: st.entries,
            nav: Some((st.entries.len() - m + j) as usize),
            saved: input,
        }),
    decreases j,
{
    lemma_prevs(st, input, m);
    if j > 0 {
        lemma_nexts(st, input, m, (j - 1) as nat);
    }
}

/// A walk back and forth through the history: from live input `input`, `m`
/// presses of Up show the newest entry, then each older one in turn, down
/// to the `m`-th newest; then `m - 1` presses of Down show the newer ones
/// again in order, the `m`-th restores `input` and leaves navigation, and a
/// further Down shows nothing. The entries never change.
pub proof fn law_navigation_cycle(st: NavView, input: Seq<char>, m: nat)
    requires
        st.nav is None,
        1 <= m <= st.entries.len() <= usize::MAX,
    ensures
        forall|j: nat|
            1 <= j <= m ==> #[trigger] spec_prev(prevs(st, input, (j - 1) as nat), input).1 == Some(
                st.entries[st.entries.len() - j],
            ),
        prevs(st, input, m).nav == Some((st.entries.len() - m) as usize),
        forall|j: nat|
            1 <= j < m ==> #[trigger] spec_next(nexts(prevs(st, input, m), (j - 1) as nat)).1
                == Some(st.entries[st.entries.len() - m + j]),
        spec_next(nexts(prevs(st, input, m), (m - 1) as nat)).1 == Some(input),
        nexts(prevs(st, input, m), m).nav is None,
        nexts(prevs(st, input, m), m).entries == st.entries,
        spec_next(nexts(prevs(st, input, m), m)).1 is None,
{
    assert forall|j: nat| 1 <= j <= m implies #[trigger] spec_prev(
        prevs(st, input, (j - 1) as nat),
        input,
    ).1 == Some(st.entries[st.entries.len() - j]) by {
        lemma_prevs(st, input, j);
    }
    lemma_prevs(st, input, m);
    assert forall|j: nat| 1 <= j < m implies #[trigger] spec_next(
        nexts(prevs(st, input, m), (j - 1) as nat),
    ).1 == Some(st.entries[st.entries.len() - m + j]) by {
        lemma_nexts(st, input, m, (j - 1) as nat);
    }
    lemma_nexts(st, input, m, (m - 1) as nat);
}

/// Navigation never changes the entries.
pub proof fn law_navigation_keeps_entries(st: NavView, input: Seq<char>)
    ensures
        spec_prev(st, input).0.entries == st.entries,
        spec_next(st).0.entries == st.entries,
{
}

/// Pushing keeps at most `cap` entries and makes a new non-empty entry the newest.
pub proof fn law_push_keeps_cap(entries: Seq<Seq<char>>, cap: nat, entry: Seq<char>)
    requires
        entries.len() <= cap,
    ensures
        spec_pushed(entries, cap, entry).len() <= cap,
        entry.len() > 0 && cap > 0 ==> spec_pushed(entries, cap, entry).last() == entry,
{
}

/// A line that a stored entry may be: non-empty, already trimmed, and
/// without a line break.
pub open spec fn storable(e: Seq<char>) -> bool {
    e.len() > 0 && trim(e) == e && !e.contains('\n')
}

proof fn lemma_join_front(es: Seq<Seq<char>>)
    requires
        es.len() >= 2,
    ensures
        join_with(es, '\n') == es[0] + seq!['\n'] + join_with(es.drop_first(), '\n'),
    decreases es.len(),
{
    if es.len() == 2 {
        assert(es.drop_last() =~= seq![es[0]]);
        assert(es.drop_first() =~= seq![es[1]]);
        assert(join_with(es.drop_last(), '\n') == es[0]);
        assert(join_with(es.drop_first(), '\n') == es[1]);
        assert(es.last() == es[1]);
        assert(join_with(es, '\n') =~= es[0] + seq!['\n'] + join_with(es.drop_first(), '\n'));
    } else {
        lemma_join_front(es.drop_last());
        assert(es.drop_last().drop_first() =~= es.drop_first().drop_last());
        assert(es.drop_last()[0] == es[0]);
        assert(es.drop_first().last() == es.last());
        assert(join_with(es, '\n') =~= es[0] + seq!['\n'] + join_with(es.drop_first(), '\n'));
    }
}

proof fn lemma_no_newline_find(e: Seq<char>)
    requires
        !e.contains('\n'),
    ensures
        find_char(e, '\n') is None,
{
    assert forall|j: int| 0 <= j < e.len() implies e[j] != '\n' by {
        if e[j] == '\n' {
            assert(e.contains('\n'));
        }
    }
    lemma_find_char(e, '\n', e.len() as int);
}

/// Saving and loading gives back the entries: the text form of storable
/// entries reads back as the same entries.
pub proof fn law_text_round_trip(entries: Seq<Seq<char>>)
    requires
        forall|i: int| 0 <= i < entries.len() ==> storable(#[trigger] entries[i]),
    ensures
        text_lines(join_with(entries, '\n')) == entries,
    decreases entries.len(),
{
    if entries.len() == 0 {
        assert(find_char(Seq::<char>::empty(), '\n') is None);
        assert(trim(Seq::<char>::empty()) =~= Seq::<char>::empty());
    } else if entries.len() == 1 {
        assert(storable(entries[0]));
        lemma_no_newline_find(entries[0]);
        assert(text_lines(entries[0]) =~= seq![entries[0]]);
        assert(seq![entries[0]] =~= entries);
    } else {
        let e0 = entries[0];
        let rest = entries.drop_first();
        assert(storable(e0));
        assert forall|i: int| 0 <= i < rest.len() implies storable(#[trigger] rest[i]) by {
            assert(rest[i] == entries[i + 1]);
        }
        law_text_round_trip(rest);
        lemma_join_front(entries);
        let s = e0 + seq!['\n'] + join_with(rest, '\n');
        assert forall|j: int| 0 <= j < e0.len() implies s[j] != '\n' by {
            assert(s[j] == e0[j]);
            if e0[j] == '\n' {
                assert(e0.contains('\n'));
            }
        }
        lemma_find_char(s, '\n', e0.len() as int);
        assert(s.take(e0.len() as int) =~= e0);
        assert(s.skip(e0.len() as int + 1) =~= join_with(rest, '\n'));
        assert(text_lines(s) =~= seq![e0] + rest);
        assert(seq![e0] + rest =~= entries);
    }
}

} // verus!
