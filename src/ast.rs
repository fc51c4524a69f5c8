//! The records that a log is made of.

use vstd::prelude::*;
use crate::grammar::{keyword, keyword_chars};
use crate::text::{push_char, string_of_range};

verus! {

/// The severity of a message, in display order.
#[derive(Clone, Copy, PartialEq, Eq, Debug, Hash, Structural)]
pub enum Level {
    Trace,
    Debug,
    Info,
    Alert,
    Warn,
    Error,
}

/// Every level, in display order.
pub open spec fn all_levels() -> Seq<Level> {
    seq![Level::Trace, Level::Debug, Level::Info, Level::Alert, Level::Warn, Level::Error]
}

impl Level {
    /// Every level, in display order.
    pub fn all() -> (r: Vec<Level>)
        ensures
            r@ == all_levels(),
    {
        vec![Level::Trace, Level::Debug, Level::Info, Level::Alert, Level::Warn, Level::Error]
    }
}

impl Level {
    /// The level's keyword, as in a header.
    pub fn name(&self) -> (r: String)
        ensures
            r@ == keyword(*self),
    {
        let cs = keyword_chars(*self);
        let r = string_of_range(&cs, 0, cs.len());
        assert(cs@.subrange(0, cs@.len() as int) == cs@);
        r
    }
}

/// The digit character for `d`.
pub open spec fn digit_char(d: u8) -> char {
    ((d + 48) as u8) as char
}

/// `v` in decimal with at least two digits.
pub open spec fn two_digits(v: u8) -> Seq<char> {
    if v < 100 {
        seq![digit_char(v / 10), digit_char(v % 10)]
    } else {
        seq![digit_char(v / 100), digit_char((v / 10) % 10), digit_char(v % 10)]
    }
}

/// Appends `v` in decimal with at least two digits.
fn push_two_digits(s: &mut String, v: u8)
    ensures
        final(s)@ == old(s)@ + two_digits(v),
{
    if v >= 100 {
        push_char(s, ((v / 100) + 48) as char);
    }
    push_char(s, ((v / 10) % 10 + 48) as char);
    push_char(s, (v % 10 + 48) as char);
    assert(v < 100 ==> (v / 10) % 10 == v / 10);
}

/// Every level is listed.
pub proof fn lemma_all_levels_listed(level: Level)
    ensures
        all_levels().contains(level),
{
    let i: int = match level {
        Level::Trace => 0,
        Level::Debug => 1,
        Level::Info => 2,
        Level::Alert => 3,
        Level::Warn => 4,
        Level::Error => 5,
    };
    assert(all_levels()[i] == level);
}

/// A time of day as written in a header; fields are not range-checked.
#[derive(Clone, Copy, PartialEq, Eq, Debug, Hash, Structural)]
pub struct Timestamp {
    pub hour: u8,
    pub minute: u8,
    pub second: u8,
}

/// `t` as `HH:MM:SS`, each field with at least two digits.
pub open spec fn timestamp_text(t: Timestamp) -> Seq<char> {
    two_digits(t.hour) + seq![':'] + two_digits(t.minute) + seq![':'] + two_digits(t.second)
}

impl Timestamp {
    /// The timestamp as `HH:MM:SS`.
    pub fn text(&self) -> (r: String)
        ensures
            r@ == timestamp_text(*self),
    {
        let mut s = String::new();
        push_two_digits(&mut s, self.hour);
        push_char(&mut s, ':');
        push_two_digits(&mut s, self.minute);
        push_char(&mut s, ':');
        push_two_digits(&mut s, self.second);
        s
    }
}

/// One structured log entry. `contents` may span several lines.
#[derive(Clone, Debug)]
pub struct Message {
    pub timestamp: Timestamp,
    pub level: Level,
    pub source: String,
    pub contents: String,
}

/// The mathematical value of a message: timestamp, level, source, contents.
pub type MessageView = (Timestamp, Level, Seq<char>, Seq<char>);

impl View for Message {
    type V = MessageView;

    open spec fn view(&self) -> MessageView {
        (self.timestamp, self.level, self.source@, self.contents@)
    }
}

} // verus!
