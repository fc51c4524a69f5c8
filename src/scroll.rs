//! The scroll position of a paragraph that renders its lines on demand.

use vstd::prelude::*;

verus! {

/// A scroll offset: columns from the left and lines from the top.
#[derive(Clone, Copy, PartialEq, Eq, Debug, Hash, Default, Structural)]
pub struct Offset {
    pub x: usize,
    pub y: usize,
}

/// A key that scrolls a paragraph.
#[derive(Clone, Copy, PartialEq, Eq, Debug, Hash, Structural)]
pub enum ScrollKey {
    Up,
    Down,
    Left,
    Right,
    PageUp,
    PageDown,
    Home,
    End,
}

/// `a + b`, held at `usize::MAX`.
pub open spec fn sat_add(a: usize, b: usize) -> usize {
    if a + b <= usize::MAX {
        (a + b) as usize
    } else {
        usize::MAX
    }
}

/// `a - b`, held at zero.
pub open spec fn sat_sub(a: usize, b: usize) -> usize {
    if a >= b {
        (a - b) as usize
    } else {
        0
    }
}

/// `p` scrolled down by `n` lines; a position past the last line moves back
/// to the last line.
pub open spec fn scrolled_down(p: LazyParagraphState, n: usize) -> LazyParagraphState {
    let y = sat_add(p.offset.y, n);
    LazyParagraphState {
        offset: Offset {
            y: if y > p.lines {
                sat_sub(p.lines, 1)
            } else {
                y
            },
            ..p.offset
        },
        ..p
    }
}

/// What `key` does to `p`.
pub open spec fn scrolled(p: LazyParagraphState, key: ScrollKey) -> LazyParagraphState {
    match key {
        ScrollKey::Up => LazyParagraphState {
            offset: Offset { y: sat_sub(p.offset.y, 1), ..p.offset },
            ..p
        },
        ScrollKey::PageUp => LazyParagraphState {
            offset: Offset { y: sat_sub(p.offset.y, 10), ..p.offset },
            ..p
        },
        ScrollKey::Down => scrolled_down(p, 1),
        ScrollKey::PageDown => scrolled_down(p, 10),
        ScrollKey::Left => LazyParagraphState {
            offset: Offset { x: sat_sub(p.offset.x, 1), ..p.offset },
            ..p
        },
        ScrollKey::Right => LazyParagraphState {
            offset: Offset { x: sat_add(p.offset.x, 1), ..p.offset },
            ..p
        },
        ScrollKey::Home => LazyParagraphState { offset: Offset { y: 0, ..p.offset }, ..p },
        ScrollKey::End => LazyParagraphState {
            offset: Offset { y: sat_sub(p.lines, 1), ..p.offset },
            ..p
        },
    }
}

/// The line count of a paragraph and how far it is scrolled.
#[derive(Clone, Copy, PartialEq, Eq, Debug, Hash, Structural)]
pub struct LazyParagraphState {
    pub lines: usize,
    pub offset: Offset,
}

impl LazyParagraphState {
    /// A paragraph of `lines` lines, scrolled to the top left.
    pub open spec fn new_spec(lines: usize) -> LazyParagraphState {
        LazyParagraphState { lines, offset: Offset { x: 0, y: 0 } }
    }

    /// A paragraph of `lines` lines, scrolled to the top left.
    pub fn new(lines: usize) -> (r: LazyParagraphState)
        ensures
            r == Self::new_spec(lines),
    {
        LazyParagraphState { lines, offset: Offset { x: 0, y: 0 } }
    }

    /// Scrolls down by `lines`; a position past the last line moves back to
    /// the last line.
    pub fn scroll_down(&mut self, lines: usize)
        ensures
            final(self).lines == old(self).lines,
            final(self).offset.x == old(self).offset.x,
            final(self).offset.y == if sat_add(old(self).offset.y, lines) > old(self).lines {
                sat_sub(old(self).lines, 1)
            } else {
                sat_add(old(self).offset.y, lines)
            },
    {
        self.offset.y = self.offset.y.saturating_add(lines);
        if self.offset.y > self.lines {
            self.offset.y = self.lines.saturating_sub(1);
        }
    }

    /// Scrolls up by `lines`, stopping at the top.
    pub fn scroll_up(&mut self, lines: usize)
        ensures
            *final(self) == (LazyParagraphState {
                offset: Offset { y: sat_sub(old(self).offset.y, lines), ..old(self).offset },
                ..*old(self)
            }),
    {
        self.offset.y = self.offset.y.saturating_sub(lines);
    }

    /// Scrolls left by `lines` columns, stopping at the left edge.
    pub fn scroll_left(&mut self, lines: usize)
        ensures
            *final(self) == (LazyParagraphState {
                offset: Offset { x: sat_sub(old(self).offset.x, lines), ..old(self).offset },
                ..*old(self)
            }),
    {
        self.offset.x = self.offset.x.saturating_sub(lines);
    }

    /// Scrolls right by `lines` columns.
    pub fn scroll_right(&mut self, lines: usize)
        ensures
            *final(self) == (LazyParagraphState {
                offset: Offset { x: sat_add(old(self).offset.x, lines), ..old(self).offset },
                ..*old(self)
            }),
    {
        self.offset.x = self.offset.x.saturating_add(lines);
    }

    /// Scrolls to the first line.
    pub fn scroll_to_top(&mut self)
        ensures
            *final(self) == (LazyParagraphState {
                offset: Offset { y: 0, ..old(self).offset },
                ..*old(self)
            }),
    {
        self.offset.y = 0;
    }

    /// Scrolls to the last line.
    pub fn scroll_to_bottom(&mut self)
        ensures
            *final(self) == (LazyParagraphState {
                offset: Offset { y: sat_sub(old(self).lines, 1), ..old(self).offset },
                ..*old(self)
            }),
    {
        self.offset.y = self.lines.saturating_sub(1);
    }

    /// Applies a scrolling key; every such key is handled.
    pub fn update(&mut self, key: ScrollKey) -> (r: bool)
        ensures
            r,
            *final(self) == scrolled(*old(self), key),
    {
        match key {
            ScrollKey::Up => self.scroll_up(1),
            ScrollKey::Down => self.scroll_down(1),
            ScrollKey::Left => self.scroll_left(1),
            ScrollKey::Right => self.scroll_right(1),
            ScrollKey::PageUp => self.scroll_up(10),
            ScrollKey::PageDown => self.scroll_down(10),
            ScrollKey::Home => self.scroll_to_top(),
            ScrollKey::End => self.scroll_to_bottom(),
        }
        true
    }
}

} // verus!
