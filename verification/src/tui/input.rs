//! A minimal single-line text input for the terminal UI. The cursor is a
//! character index, so editing never splits a multi-byte character.

use crate::text::{chars_of, string_of, string_of_range};
use vstd::prelude::*;

verus! {

/// The abstract state of an input: its characters and the cursor position.
pub struct InputState {
    pub text: Seq<char>,
    pub cursor: int,
}

/// The cursor lies within the text (at most one past its last character).
pub open spec fn cursor_in_range(s: InputState) -> bool {
    0 <= s.cursor <= s.text.len()
}

/// Typing `c` inserts it at the cursor and moves the cursor past it.
pub open spec fn typed(s: InputState, c: char) -> InputState {
    InputState { text: s.text.insert(s.cursor, c), cursor: s.cursor + 1 }
}

/// Backspace removes the character before the cursor, if there is one.
pub open spec fn backspaced(s: InputState) -> InputState {
    if s.cursor > 0 {
        InputState { text: s.text.remove(s.cursor - 1), cursor: s.cursor - 1 }
    } else {
        s
    }
}

/// Delete removes the character under the cursor, if there is one.
pub open spec fn deleted(s: InputState) -> InputState {
    if s.cursor < s.text.len() {
        InputState { text: s.text.remove(s.cursor), cursor: s.cursor }
    } else {
        s
    }
}

/// The three parts shown when rendering: before the cursor, the character
/// under it (a space at the end), and after it.
pub open spec fn split_parts(s: InputState) -> (Seq<char>, Seq<char>, Seq<char>) {
    if s.cursor < s.text.len() {
        (s.text.take(s.cursor), seq![s.text[s.cursor]], s.text.skip(s.cursor + 1))
    } else {
        (s.text.take(s.cursor), seq![' '], Seq::empty())
    }
}

pub struct Input {
    value: Vec<char>,
    cursor: usize,
}

impl View for Input {
    type V = InputState;

    closed spec fn view(&self) -> InputState {
        InputState { text: self.value@, cursor: self.cursor as int }
    }
}

impl Input {
    /// A new input holding `initial`, with the cursor at its end.
    pub fn new(initial: &str) -> (r: Input)
        ensures
            cursor_in_range(r@),
            r@ == (InputState { text: initial@, cursor: initial@.len() as int }),
    {
        let value = chars_of(initial);
        let cursor = value.len();
        Input { value, cursor }
    }

    /// The current text.
    pub fn value(&self) -> (r: String)
        ensures
            r@ == self@.text,
    {
        string_of(self.value.as_slice())
    }

    /// Types `c` at the cursor.
    pub fn insert(&mut self, c: char)
        requires
            cursor_in_range(old(self)@),
        ensures
            cursor_in_range(final(self)@),
            final(self)@ == typed(old(self)@, c),
    {
        self.value.insert(self.cursor, c);
        let n = self.value.len();
        assert(self.cursor < n);
        self.cursor = self.cursor + 1;
    }

    /// Removes the character before the cursor.
    pub fn backspace(&mut self)
        requires
            cursor_in_range(old(self)@),
        ensures
            cursor_in_range(final(self)@),
            final(self)@ == backspaced(old(self)@),
    {
        if self.cursor > 0 {
            self.cursor = self.cursor - 1;
            self.value.remove(self.cursor);
        }
    }

    /// Removes the character under the cursor.
    pub fn delete(&mut self)
        requires
            cursor_in_range(old(self)@),
        ensures
            cursor_in_range(final(self)@),
            final(self)@ == deleted(old(self)@),
    {
        if self.cursor < self.value.len() {
            self.value.remove(self.cursor);
        }
    }

    /// Moves the cursor one character left, stopping at the start.
    pub fn left(&mut self)
        requires
            cursor_in_range(old(self)@),
        ensures
            cursor_in_range(final(self)@),
            final(self)@ == (InputState {
                cursor: if old(self)@.cursor > 0 { old(self)@.cursor - 1 } else { 0 },
                ..old(self)@
            }),
    {
        if self.cursor > 0 {
            self.cursor = self.cursor - 1;
        }
    }

    /// Moves the cursor one character right, stopping at the end.
    pub fn right(&mut self)
        requires
            cursor_in_range(old(self)@),
        ensures
            cursor_in_range(final(self)@),
            final(self)@ == (InputState {
                cursor: if old(self)@.cursor < old(self)@.text.len() {
                    old(self)@.cursor + 1
                } else {
                    old(self)@.text.len() as int
                },
                ..old(self)@
            }),
    {
        if self.cursor < self.value.len() {
            self.cursor = self.cursor + 1;
        }
    }

    /// Moves the cursor to the start.
    pub fn home(&mut self)
        requires
            cursor_in_range(old(self)@),
        ensures
            cursor_in_range(final(self)@),
            final(self)@ == (InputState { cursor: 0, ..old(self)@ }),
    {
        self.cursor = 0;
    }

    /// Moves the cursor to the end.
    pub fn end(&mut self)
        requires
            cursor_in_range(old(self)@),
        ensures
            cursor_in_range(final(self)@),
            final(self)@ == (InputState { cursor: old(self)@.text.len() as int, ..old(self)@ }),
    {
        self.cursor = self.value.len();
    }

    /// (before cursor, character under cursor, after cursor) for rendering.
    pub fn split_at_cursor(&self) -> (r: (String, String, String))
        requires
            cursor_in_range(self@),
        ensures
            (r.0@, r.1@, r.2@) == split_parts(self@),
    {
        let n = self.value.len();
        let before = string_of_range(self.value.as_slice(), 0, self.cursor);
        let mut under = String::new();
        let mut after = String::new();
        if self.cursor < n {
            crate::text::push_char(&mut under, self.value[self.cursor]);
            after = string_of_range(self.value.as_slice(), self.cursor + 1, n);
        } else {
            crate::text::push_char(&mut under, ' ');
        }
        (before, under, after)
    }
}

/// Typing a character and then pressing backspace restores the input exactly.
pub proof fn lemma_backspace_undoes_typing(s: InputState, c: char)
    requires
        cursor_in_range(s),
    ensures
        backspaced(typed(s, c)) == s,
{
    assert(s.text.insert(s.cursor, c).remove(s.cursor) =~= s.text);
}

/// Rendering shows the whole text: before, the character under the cursor and
/// after put together give back the text (with a trailing space at the end).
pub proof fn lemma_split_covers_text(s: InputState)
    requires
        cursor_in_range(s),
    ensures
        ({
            let (b, u, a) = split_parts(s);
            if s.cursor < s.text.len() { b + u + a == s.text } else { b + u == s.text.push(' ') }
        }),
{
    let (b, u, a) = split_parts(s);
    if s.cursor < s.text.len() {
        assert(b + u + a =~= s.text);
    } else {
        assert(b + u =~= s.text.push(' '));
    }
}

} // verus!
