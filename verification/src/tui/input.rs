//! Input line with cursor tracking and readline-like editing.
//!
//! The cursor is a character index; `0` is before the first character and
//! the buffer length is after the last one.

use vstd::prelude::*;
use crate::text::{chars_of, string_of, string_of_range};

verus! {

/// Input line with cursor tracking.
#[derive(Debug, Clone, PartialEq, Eq)]
pub struct InputWidget {
    /// The characters of the line.
    pub buffer: Vec<char>,
    /// Cursor position as a character index.
    pub cursor: usize,
}

impl InputWidget {
    /// The characters of the buffer.
    pub open spec fn chars(&self) -> Seq<char> {
        self.buffer@
    }

    /// The cursor lies within `0..=len`.
    pub open spec fn wf(&self) -> bool {
        self.cursor <= self.chars().len()
    }

    /// An empty widget with the cursor at 0.
    pub fn new() -> (w: Self)
        ensures
            w.chars() == Seq::<char>::empty(),
            w.cursor == 0,
    {
        InputWidget { buffer: Vec::new(), cursor: 0 }
    }

    /// The buffer as a string.
    pub fn value(&self) -> (s: String)
        ensures
            s@ == self.chars(),
    {
        string_of(&self.buffer)
    }

    /// The cursor position.
    pub fn cursor_pos(&self) -> (c: usize)
        ensures
            c == self.cursor,
    {
        self.cursor
    }

    /// Whether the buffer is empty.
    pub fn is_empty(&self) -> (b: bool)
        ensures
            b == (self.chars().len() == 0),
    {
        self.buffer.len() == 0
    }

    /// Number of characters in the buffer.
    pub fn len(&self) -> (n: usize)
        ensures
            n == self.chars().len(),
    {
        self.buffer.len()
    }

    /// Replaces the buffer with `s`, placing the cursor at the end.
    pub fn set_value(&mut self, s: &str)
        ensures
            final(self).chars() == s@,
            final(self).cursor == s@.len(),
    {
        self.buffer = chars_of(s);
        self.cursor = self.buffer.len();
    }

    /// Erases all content and resets the cursor to 0.
    pub fn clear(&mut self)
        ensures
            final(self).chars() == Seq::<char>::empty(),
            final(self).cursor == 0,
    {
        self.buffer = Vec::new();
        self.cursor = 0;
    }

    /// Inserts `c` at the cursor and advances the cursor by one.
    pub fn insert(&mut self, c: char)
        requires
            old(self).wf(),
        ensures
            final(self).chars() == old(self).chars().insert(old(self).cursor as int, c),
            final(self).cursor == old(self).cursor + 1,
            final(self).wf(),
    {
        self.buffer.insert(self.cursor, c);
        let len = self.buffer.len();
        assert(self.cursor < len);
        self.cursor = self.cursor + 1;
    }

    /// Deletes the character before the cursor (Backspace); no-op at 0.
    pub fn delete_before_cursor(&mut self)
        requires
            old(self).wf(),
        ensures
            old(self).cursor > 0 ==> final(self).chars() == old(self).chars().remove(
                old(self).cursor - 1,
            ) && final(self).cursor == old(self).cursor - 1,
            old(self).cursor == 0 ==> *final(self) == *old(self),
            final(self).wf(),
    {
        if self.cursor > 0 {
            self.cursor = self.cursor - 1;
            self.buffer.remove(self.cursor);
        }
    }

    /// Deletes the character at the cursor (Delete); no-op at the end.
    pub fn delete_after_cursor(&mut self)
        ensures
            old(self).cursor < old(self).chars().len() ==> final(self).chars() == old(
                self,
            ).chars().remove(old(self).cursor as int),
            old(self).cursor >= old(self).chars().len() ==> *final(self) == *old(self),
            final(self).cursor == old(self).cursor,
            old(self).wf() ==> final(self).wf(),
    {
        if self.cursor < self.buffer.len() {
            self.buffer.remove(self.cursor);
        }
    }

    /// Removes everything from the cursor to the end (Ctrl-K).
    pub fn kill_to_end(&mut self)
        ensures
            old(self).cursor < old(self).chars().len() ==> final(self).chars() == old(
                self,
            ).chars().take(old(self).cursor as int),
            old(self).cursor >= old(self).chars().len() ==> final(self).chars() == old(
                self,
            ).chars(),
            final(self).cursor == old(self).cursor,
            old(self).wf() ==> final(self).wf(),
    {
        self.buffer.truncate(self.cursor);
    }

    /// Moves the cursor one character left; no-op at 0.
    pub fn move_left(&mut self)
        ensures
            final(self).chars() == old(self).chars(),
            final(self).cursor == if old(self).cursor > 0 {
                (old(self).cursor - 1) as usize
            } else {
                0
            },
            old(self).wf() ==> final(self).wf(),
    {
        if self.cursor > 0 {
            self.cursor = self.cursor - 1;
        }
    }

    /// Moves the cursor one character right; no-op at the end.
    pub fn move_right(&mut self)
        ensures
            final(self).chars() == old(self).chars(),
            final(self).cursor == if old(self).cursor < old(self).chars().len() {
                old(self).cursor + 1
            } else {
                old(self).cursor as int
            },
            old(self).wf() ==> final(self).wf(),
    {
        if self.cursor < self.buffer.len() {
            self.cursor = self.cursor + 1;
        }
    }

    /// Moves the cursor to the beginning of the line.
    pub fn move_to_start(&mut self)
        ensures
            final(self).chars() == old(self).chars(),
            final(self).cursor == 0,
    {
        self.cursor = 0;
    }

    /// Moves the cursor to the end of the line.
    pub fn move_to_end(&mut self)
        ensures
            final(self).chars() == old(self).chars(),
            final(self).cursor == old(self).chars().len(),
    {
        self.cursor = self.buffer.len();
    }

    /// The buffer with an underscore cursor marker at the cursor position.
    pub fn render_with_cursor(&self) -> (s: String)
        requires
            self.wf(),
        ensures
            s@ == self.chars().take(self.cursor as int) + seq!['_'] + self.chars().skip(
                self.cursor as int,
            ),
    {
        let mut s = string_of_range(&self.buffer, 0, self.cursor);
        let mut marker: Vec<char> = Vec::new();
        marker.push('_');
        let m = string_of(&marker);
        crate::text::append(&mut s, m.as_str());
        let rest = string_of_range(&self.buffer, self.cursor, self.buffer.len());
        crate::text::append(&mut s, rest.as_str());
        assert(self.buffer@.subrange(0, self.cursor as int) =~= self.chars().take(
            self.cursor as int,
        ));
        assert(self.buffer@.subrange(self.cursor as int, self.buffer@.len() as int)
            =~= self.chars().skip(self.cursor as int));
        s
    }
}

impl Default for InputWidget {
    fn default() -> (w: Self)
        ensures
            w.chars() == Seq::<char>::empty(),
            w.cursor == 0,
    {
        InputWidget::new()
    }
}

/// Inserting a character and deleting the character before the cursor
/// restores the buffer and cursor.
pub proof fn law_insert_then_backspace_restores(chars: Seq<char>, cursor: int, c: char)
    requires
        0 <= cursor <= chars.len(),
    ensures
        chars.insert(cursor, c).remove(cursor) == chars,
{
    assert(chars.insert(cursor, c).remove(cursor) =~= chars);
}

} // verus!
