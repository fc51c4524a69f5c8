//! The line editor for commands sent to the monitored program.

use vstd::prelude::*;
use crate::text::string_of_range;

verus! {

/// Whether typing inserts or replaces the character at the cursor.
#[derive(Clone, Copy, PartialEq, Eq, Debug, Hash, Structural)]
pub enum EditMode {
    Insert,
    Overwrite,
}

/// A key that the editor reacts to.
#[derive(Clone, Copy, PartialEq, Eq, Debug, Hash, Structural)]
pub enum EditKey {
    Backspace,
    Enter,
    Left,
    Right,
    Home,
    End,
    Delete,
    Insert,
    Char(char),
}

/// The text being edited, the cursor (a character index), and the commands
/// submitted but not yet taken.
#[derive(Clone, Debug)]
pub struct CommandInputState {
    text: Vec<char>,
    cursor: usize,
    submitted: Vec<String>,
    edit_mode: EditMode,
}

/// `s` without the character at `i`.
pub open spec fn without_at(s: Seq<char>, i: int) -> Seq<char> {
    s.take(i) + s.skip(i + 1)
}

/// `s` with `c` put at `i`, either before the character there or over it.
pub open spec fn typed_at(s: Seq<char>, i: int, c: char, mode: EditMode) -> Seq<char> {
    match mode {
        EditMode::Insert => s.take(i) + seq![c] + s.skip(i),
        EditMode::Overwrite => if i < s.len() {
            s.take(i) + seq![c] + s.skip(i + 1)
        } else {
            s.push(c)
        },
    }
}

impl CommandInputState {
    pub closed spec fn spec_text(&self) -> Seq<char> {
        self.text@
    }

    pub closed spec fn spec_cursor(&self) -> int {
        self.cursor as int
    }

    pub closed spec fn spec_submitted(&self) -> Seq<Seq<char>> {
        self.submitted@.map_values(|s: String| s@)
    }

    pub closed spec fn spec_mode(&self) -> EditMode {
        self.edit_mode
    }

    /// The cursor stands within the text or just past its end.
    pub open spec fn wf(&self) -> bool {
        0 <= self.spec_cursor() <= self.spec_text().len()
    }

    /// An empty editor in insert mode.
    pub fn new() -> (r: CommandInputState)
        ensures
            r.wf(),
            r.spec_text() == Seq::<char>::empty(),
            r.spec_cursor() == 0,
            r.spec_submitted() == Seq::<Seq<char>>::empty(),
            r.spec_mode() == EditMode::Insert,
    {
        let r = CommandInputState {
            text: Vec::new(),
            cursor: 0,
            submitted: Vec::new(),
            edit_mode: EditMode::Insert,
        };
        assert(r.spec_submitted() =~= seq![]);
        r
    }

    /// The text.
    pub fn text(&self) -> (r: String)
        ensures
            r@ == self.spec_text(),
    {
        string_of_range(&self.text, 0, self.text.len())
    }

    /// The text before the cursor.
    pub fn before_cursor(&self) -> (r: String)
        requires
            self.wf(),
        ensures
            r@ == self.spec_text().take(self.spec_cursor()),
    {
        string_of_range(&self.text, 0, self.cursor)
    }

    /// The character under the cursor, if any.
    pub fn at_cursor(&self) -> (r: Option<char>)
        ensures
            r == if self.spec_cursor() < self.spec_text().len() {
                Some(self.spec_text()[self.spec_cursor()])
            } else {
                None::<char>
            },
    {
        if self.cursor < self.text.len() {
            Some(self.text[self.cursor])
        } else {
            None
        }
    }

    /// The text after the character under the cursor.
    pub fn after_cursor(&self) -> (r: String)
        requires
            self.wf(),
        ensures
            r@ == if self.spec_cursor() < self.spec_text().len() {
                self.spec_text().skip(self.spec_cursor() + 1)
            } else {
                Seq::<char>::empty()
            },
    {
        if self.cursor < self.text.len() {
            string_of_range(&self.text, self.cursor + 1, self.text.len())
        } else {
            String::new()
        }
    }

    /// Hands out the submitted commands, oldest first, and forgets them.
    pub fn take_submitted(&mut self) -> (r: Vec<String>)
        ensures
            r@.map_values(|s: String| s@) == old(self).spec_submitted(),
            final(self).spec_submitted() == Seq::<Seq<char>>::empty(),
            final(self).spec_text() == old(self).spec_text(),
            final(self).spec_cursor() == old(self).spec_cursor(),
            final(self).spec_mode() == old(self).spec_mode(),
    {
        let mut out: Vec<String> = Vec::new();
        std::mem::swap(&mut out, &mut self.submitted);
        assert(self.spec_submitted() =~= seq![]);
        out
    }

    /// Applies `key`; returns whether it was handled.
    pub fn update(&mut self, key: EditKey) -> (r: bool)
        requires
            old(self).wf(),
        ensures
            final(self).wf(),
            ({
                let t = old(self).spec_text();
                let c = old(self).spec_cursor();
                let m = old(self).spec_mode();
                let s = old(self).spec_submitted();
                let unchanged = final(self).spec_text() == t && final(self).spec_cursor() == c
                    && final(self).spec_mode() == m && final(self).spec_submitted() == s;
                match key {
                    EditKey::Backspace => if c > 0 {
                        r && final(self).spec_text() == without_at(t, c - 1)
                            && final(self).spec_cursor() == c - 1 && final(self).spec_mode() == m
                            && final(self).spec_submitted() == s
                    } else {
                        !r && unchanged
                    },
                    EditKey::Enter => r && final(self).spec_text() == Seq::<char>::empty()
                        && final(self).spec_cursor() == 0 && final(self).spec_mode() == m
                        && final(self).spec_submitted() == s.push(t),
                    EditKey::Left => if c > 0 {
                        r && final(self).spec_text() == t && final(self).spec_cursor() == c - 1
                            && final(self).spec_mode() == m && final(self).spec_submitted() == s
                    } else {
                        !r && unchanged
                    },
                    EditKey::Right => if c < t.len() {
                        r && final(self).spec_text() == t && final(self).spec_cursor() == c + 1
                            && final(self).spec_mode() == m && final(self).spec_submitted() == s
                    } else {
                        !r && unchanged
                    },
                    EditKey::Home => r && final(self).spec_text() == t && final(self).spec_cursor()
                        == 0 && final(self).spec_mode() == m && final(self).spec_submitted() == s,
                    EditKey::End => r && final(self).spec_text() == t && final(self).spec_cursor()
                        == t.len() && final(self).spec_mode() == m && final(self).spec_submitted()
                        == s,
                    EditKey::Delete => if c < t.len() {
                        r && final(self).spec_text() == without_at(t, c) && final(self).spec_cursor()
                            == c && final(self).spec_mode() == m && final(self).spec_submitted()
                            == s
                    } else {
                        !r && unchanged
                    },
                    EditKey::Insert => r && final(self).spec_text() == t && final(self).spec_cursor()
                        == c && final(self).spec_submitted() == s && final(self).spec_mode() == if m
                        == EditMode::Insert {
                        EditMode::Overwrite
                    } else {
                        EditMode::Insert
                    },
                    EditKey::Char(ch) => r && final(self).spec_text() == typed_at(t, c, ch, m)
                        && final(self).spec_cursor() == c + 1 && final(self).spec_mode() == m
                        && final(self).spec_submitted() == s,
                }
            }),
    {
        match key {
            EditKey::Backspace => {
                if self.cursor > 0 {
                    self.text.remove(self.cursor - 1);
                    self.cursor = self.cursor - 1;
                    assert(self.text@ =~= without_at(old(self).text@, self.cursor as int));
                    true
                } else {
                    false
                }
            },
            EditKey::Enter => {
                let line = string_of_range(&self.text, 0, self.text.len());
                assert(self.text@.subrange(0, self.text@.len() as int) =~= self.text@);
                self.submitted.push(line);
                self.text = Vec::new();
                self.cursor = 0;
                assert(self.spec_submitted() =~= old(self).spec_submitted().push(old(self).text@));
                true
            },
            EditKey::Left => {
                if self.cursor > 0 {
                    self.cursor = self.cursor - 1;
                    true
                } else {
                    false
                }
            },
            EditKey::Right => {
                if self.cursor < self.text.len() {
                    self.cursor = self.cursor + 1;
                    true
                } else {
                    false
                }
            },
            EditKey::Home => {
                self.cursor = 0;
                true
            },
            EditKey::End => {
                self.cursor = self.text.len();
                true
            },
            EditKey::Delete => {
                if self.cursor < self.text.len() {
                    self.text.remove(self.cursor);
                    assert(self.text@ =~= without_at(old(self).text@, self.cursor as int));
                    true
                } else {
                    false
                }
            },
            EditKey::Insert => {
                self.edit_mode =
                match self.edit_mode {
                    EditMode::Insert => EditMode::Overwrite,
                    EditMode::Overwrite => EditMode::Insert,
                };
                true
            },
            EditKey::Char(ch) => {
                match self.edit_mode {
                    EditMode::Insert => {
                        self.text.insert(self.cursor, ch);
                    },
                    EditMode::Overwrite => {
                        if self.cursor < self.text.len() {
                            self.text.set(self.cursor, ch);
                        } else {
                            self.text.push(ch);
                        }
                    },
                }
                assert(self.text@ =~= typed_at(old(self).text@, self.cursor as int, ch, self.edit_mode));
                let n = self.text.len();
                assert(self.cursor < n);
                self.cursor = self.cursor + 1;
                true
            },
        }
    }
}

} // verus!
