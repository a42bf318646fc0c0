//! Scrollable output panel backed by a ring buffer of lines.
//!
//! New lines go to the back; when the cap is exceeded the oldest line is
//! evicted. The scroll position is an offset from the bottom: 0 is the live
//! tail.

use vstd::prelude::*;
use std::collections::VecDeque;
use crate::text::{owned, string_views};

verus! {

broadcast use vstd::std_specs::vecdeque::group_vec_dequeue_axioms;

/// Default line cap of an output panel.
pub const DEFAULT_LINE_CAP: usize = 500;

/// Scrollable output panel.
#[derive(Debug, Clone)]
pub struct OutputPanel {
    lines: VecDeque<String>,
    cap: usize,
    scroll_offset: usize,
}

/// First and one-past-last index of the lines visible in a window of
/// `height` rows, for `len` lines scrolled up by `offset`.
pub open spec fn visible_range(len: int, offset: int, height: int) -> (int, int) {
    let end0 = if len > offset { len - offset } else { 0 };
    let end = if end0 < 1 { 1 } else { end0 };
    let start = if end > height { end - height } else { 0 };
    (start, end)
}

/// The lines visible in a window of `height` rows.
pub open spec fn visible(lines: Seq<Seq<char>>, offset: int, height: int) -> Seq<Seq<char>> {
    if lines.len() == 0 || height == 0 {
        seq![]
    } else {
        lines.subrange(visible_range(lines.len() as int, offset, height).0, visible_range(lines.len() as int, offset, height).1)
    }
}

impl OutputPanel {
    /// The lines, oldest first.
    pub closed spec fn lines_view(&self) -> Seq<Seq<char>> {
        string_views(self.lines@)
    }

    /// The line cap.
    pub closed spec fn cap_view(&self) -> usize {
        self.cap
    }

    /// The scroll offset from the bottom.
    pub closed spec fn offset(&self) -> usize {
        self.scroll_offset
    }

    /// An empty panel with the given cap.
    pub fn new(cap: usize) -> (p: Self)
        ensures
            p.lines_view() == Seq::<Seq<char>>::empty(),
            p.cap_view() == cap,
            p.offset() == 0,
    {
        let p = OutputPanel { lines: VecDeque::new(), cap, scroll_offset: 0 };
        assert(p.lines_view() =~= Seq::<Seq<char>>::empty());
        p
    }

    /// An empty panel with the default cap of 500 lines.
    pub fn with_default_cap() -> (p: Self)
        ensures
            p.lines_view() == Seq::<Seq<char>>::empty(),
            p.cap_view() == DEFAULT_LINE_CAP,
            p.offset() == 0,
    {
        Self::new(DEFAULT_LINE_CAP)
    }

    /// Number of lines held.
    pub fn len(&self) -> (n: usize)
        ensures
            n == self.lines_view().len(),
    {
        self.lines.len()
    }

    /// Whether no line is held.
    pub fn is_empty(&self) -> (b: bool)
        ensures
            b == (self.lines_view().len() == 0),
    {
        self.lines.len() == 0
    }

    /// The line cap.
    pub fn cap(&self) -> (c: usize)
        ensures
            c == self.cap_view(),
    {
        self.cap
    }

    /// The scroll offset from the bottom.
    pub fn scroll_offset(&self) -> (o: usize)
        ensures
            o == self.offset(),
    {
        self.scroll_offset
    }

    /// The lines, oldest first.
    pub fn lines(&self) -> (l: &VecDeque<String>)
        ensures
            string_views(l@) == self.lines_view(),
    {
        &self.lines
    }

    /// `after` is this panel with `line` pushed: the line is appended; when
    /// the cap is then exceeded the oldest line is evicted and the offset
    /// moves down by one (not below 0).
    pub open spec fn is_push(&self, after: &OutputPanel, line: Seq<char>) -> bool {
        &&& after.cap_view() == self.cap_view()
        &&& self.lines_view().len() + 1 > self.cap_view() ==> {
            &&& after.lines_view() == self.lines_view().push(line).drop_first()
            &&& after.offset() == if self.offset() > 0 {
                (self.offset() - 1) as usize
            } else {
                0
            }
        }
        &&& self.lines_view().len() + 1 <= self.cap_view() ==> {
            &&& after.lines_view() == self.lines_view().push(line)
            &&& after.offset() == self.offset()
        }
    }

    /// `after` is this panel scrolled up by one line (towards older content).
    pub open spec fn is_scroll_up(&self, after: &OutputPanel) -> bool {
        &&& after.lines_view() == self.lines_view()
        &&& after.cap_view() == self.cap_view()
        &&& after.offset() == if self.offset() < Self::max_scroll_of(self.lines_view().len()) {
            self.offset() + 1
        } else {
            Self::max_scroll_of(self.lines_view().len()) as int
        }
    }

    /// `after` is this panel scrolled down by one line (towards the live tail).
    pub open spec fn is_scroll_down(&self, after: &OutputPanel) -> bool {
        &&& after.lines_view() == self.lines_view()
        &&& after.cap_view() == self.cap_view()
        &&& after.offset() == if self.offset() > 0 {
            (self.offset() - 1) as usize
        } else {
            0
        }
    }

    /// Appends a line; when the cap is exceeded the oldest line is evicted
    /// and the offset moves down by one (not below 0).
    pub fn push_line(&mut self, line: &str)
        ensures
            old(self).is_push(&*final(self), line@),
    {
        let ghost before = self.lines@;
        self.lines.push_back(owned(line));
        assert(string_views(self.lines@) =~= string_views(before).push(line@));
        if self.lines.len() > self.cap {
            let ghost pushed = self.lines@;
            let _ = self.lines.pop_front();
            assert(string_views(self.lines@) =~= string_views(pushed).drop_first());
            if self.scroll_offset > 0 {
                self.scroll_offset = self.scroll_offset - 1;
            }
        }
    }

    /// Erases all lines and resets the scroll position.
    pub fn clear(&mut self)
        ensures
            final(self).lines_view() == Seq::<Seq<char>>::empty(),
            final(self).offset() == 0,
            final(self).cap_view() == old(self).cap_view(),
    {
        self.lines.clear();
        self.scroll_offset = 0;
        assert(self.lines_view() =~= Seq::<Seq<char>>::empty());
    }

    /// The largest useful offset: one less than the number of lines (0 when empty).
    pub open spec fn max_scroll_of(len: nat) -> nat {
        if len > 0 { (len - 1) as nat } else { 0 }
    }

    /// Shows older content: the offset grows by one, up to the largest useful offset.
    pub fn scroll_up(&mut self)
        ensures
            old(self).is_scroll_up(&*final(self)),
    {
        let max = self.max_scroll();
        self.scroll_offset = if self.scroll_offset < max {
            self.scroll_offset + 1
        } else {
            max
        };
    }

    /// Shows newer content: the offset shrinks by one, not below 0.
    pub fn scroll_down(&mut self)
        ensures
            old(self).is_scroll_down(&*final(self)),
    {
        if self.scroll_offset > 0 {
            self.scroll_offset = self.scroll_offset - 1;
        }
    }

    /// Jumps to the live tail.
    pub fn scroll_to_bottom(&mut self)
        ensures
            final(self).lines_view() == old(self).lines_view(),
            final(self).cap_view() == old(self).cap_view(),
            final(self).offset() == 0,
    {
        self.scroll_offset = 0;
    }

    /// The largest useful offset.
    fn max_scroll(&self) -> (m: usize)
        ensures
            m == Self::max_scroll_of(self.lines_view().len()),
    {
        if self.lines.len() > 0 {
            self.lines.len() - 1
        } else {
            0
        }
    }

    /// The lines that fit in a window of `height` rows at the current
    /// offset, oldest first; at least one line is shown when any exist.
    pub fn visible_lines(&self, height: usize) -> (v: Vec<&str>)
        ensures
            v@.map_values(|s: &str| s@) == visible(
                self.lines_view(),
                self.offset() as int,
                height as int,
            ),
    {
        let len = self.lines.len();
        if len == 0 || height == 0 {
            let v: Vec<&str> = Vec::new();
            assert(v@.map_values(|s: &str| s@) =~= seq![]);
            return v;
        }
        let end0 = if len > self.scroll_offset { len - self.scroll_offset } else { 0 };
        let end = if end0 < 1 { 1 } else { end0 };
        let start = if end > height { end - height } else { 0 };
        let mut v: Vec<&str> = Vec::new();
        let mut i = start;
        while i < end
            invariant
                start <= i <= end <= len,
                len == self.lines@.len(),
                v@.len() == i - start,
                forall|k: int| 0 <= k < v@.len() ==> v@[k]@ == self.lines@[start + k]@,
            decreases end - i,
        {
            v.push(self.lines[i].as_str());
            i += 1;
        }
        assert(v@.map_values(|s: &str| s@) =~= self.lines_view().subrange(start as int, end as int));
        v
    }
}

impl Default for OutputPanel {
    fn default() -> (p: Self)
        ensures
            p.lines_view() == Seq::<Seq<char>>::empty(),
            p.cap_view() == DEFAULT_LINE_CAP,
            p.offset() == 0,
    {
        Self::with_default_cap()
    }
}

/// A panel that holds at most its cap keeps doing so after a push, and the
/// pushed line is the newest one.
pub proof fn law_push_keeps_cap(lines: Seq<Seq<char>>, cap: nat, line: Seq<char>)
    requires
        lines.len() <= cap,
    ensures
        ({
            let pushed = lines.push(line);
            let after = if pushed.len() > cap { pushed.drop_first() } else { pushed };
            after.len() <= cap && (after.len() > 0 ==> after.last() == line)
        }),
{
}

} // verus!
