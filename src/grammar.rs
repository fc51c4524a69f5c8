//! The header-line grammar: `[HH:MM:SS LEVEL source] contents`.

use vstd::prelude::*;
use crate::ast::{Level, MessageView, Timestamp};

verus! {

/// A space or a tab.
pub open spec fn is_blank(c: char) -> bool {
    c == ' ' || c == '\t'
}

/// An ASCII decimal digit.
pub open spec fn is_digit(c: char) -> bool {
    '0' <= c && c <= '9'
}

/// The index just past the run of blanks that starts at `i`.
pub open spec fn blanks_end(l: Seq<char>, i: int) -> int
    decreases l.len() - i,
{
    if 0 <= i < l.len() && is_blank(l[i]) {
        blanks_end(l, i + 1)
    } else {
        i
    }
}

/// The index just past the run of digits that starts at `i`.
pub open spec fn digits_end(l: Seq<char>, i: int) -> int
    decreases l.len() - i,
{
    if 0 <= i < l.len() && is_digit(l[i]) {
        digits_end(l, i + 1)
    } else {
        i
    }
}

/// The first index at or after `i` that holds `]`, or the length of `l`.
pub open spec fn close_at(l: Seq<char>, i: int) -> int
    decreases l.len() - i,
{
    if 0 <= i < l.len() && l[i] != ']' {
        close_at(l, i + 1)
    } else {
        i
    }
}

/// The value of the digit `c`.
pub open spec fn digit_value(c: char) -> int {
    (c as u32) as int - ('0' as u32) as int
}

/// The decimal value of the digits `l[a..b]`.
pub open spec fn digits_value(l: Seq<char>, a: int, b: int) -> int
    decreases b - a,
{
    if a < b {
        digits_value(l, a, b - 1) * 10 + digit_value(l[b - 1])
    } else {
        0
    }
}

/// The literal keyword of each level.
pub open spec fn keyword(level: Level) -> Seq<char> {
    match level {
        Level::Trace => seq!['T', 'R', 'A', 'C', 'E'],
        Level::Debug => seq!['D', 'E', 'B', 'U', 'G'],
        Level::Info => seq!['I', 'N', 'F', 'O'],
        Level::Alert => seq!['A', 'L', 'E', 'R', 'T'],
        Level::Warn => seq!['W', 'A', 'R', 'N'],
        Level::Error => seq!['E', 'R', 'R', 'O', 'R'],
    }
}

/// Whether `w` stands in `l` at index `i`.
pub open spec fn word_at(l: Seq<char>, i: int, w: Seq<char>) -> bool {
    0 <= i && i + w.len() <= l.len() && l.subrange(i, i + w.len()) == w
}

/// The level whose keyword stands in `l` at index `i`, if any.
pub open spec fn level_at(l: Seq<char>, i: int) -> Option<Level> {
    if word_at(l, i, keyword(Level::Trace)) {
        Some(Level::Trace)
    } else if word_at(l, i, keyword(Level::Debug)) {
        Some(Level::Debug)
    } else if word_at(l, i, keyword(Level::Info)) {
        Some(Level::Info)
    } else if word_at(l, i, keyword(Level::Alert)) {
        Some(Level::Alert)
    } else if word_at(l, i, keyword(Level::Warn)) {
        Some(Level::Warn)
    } else if word_at(l, i, keyword(Level::Error)) {
        Some(Level::Error)
    } else {
        None
    }
}

/// A timestamp field: a non-empty run of digits at `i` whose value fits a `u8`.
pub open spec fn field_ok(l: Seq<char>, i: int) -> bool {
    digits_end(l, i) > i && digits_value(l, i, digits_end(l, i)) <= 255
}

/// A field that is followed by `:`.
pub open spec fn field_colon(l: Seq<char>, i: int) -> bool {
    field_ok(l, i) && digits_end(l, i) < l.len() && l[digits_end(l, i)] == ':'
}

/// The header of line `l` read as a message whose contents are the rest of the
/// line, or `None` where `l` does not match the header grammar.
pub open spec fn header_of(l: Seq<char>) -> Option<MessageView> {
    let h0 = blanks_end(l, 1);
    let m0 = digits_end(l, h0) + 1;
    let s0 = digits_end(l, m0) + 1;
    let s1 = digits_end(l, s0);
    let k = blanks_end(l, s1);
    if l.len() > 0 && l[0] == '[' && field_colon(l, h0) && field_colon(l, m0) && field_ok(l, s0)
        && k > s1 && level_at(l, k) is Some {
        let level = level_at(l, k)->0;
        let e = k + keyword(level).len();
        let a = blanks_end(l, e);
        let b = close_at(l, a);
        if a > e && b > a && b + 1 < l.len() && l[b + 1] == ' ' {
            let ts = Timestamp {
                hour: digits_value(l, h0, m0 - 1) as u8,
                minute: digits_value(l, m0, s0 - 1) as u8,
                second: digits_value(l, s0, s1) as u8,
            };
            Some((ts, level, l.subrange(a, b), l.subrange(b + 2, l.len() as int)))
        } else {
            None
        }
    } else {
        None
    }
}

/// The index just past the run of blanks at `i`.
fn skip_blanks(l: &Vec<char>, i: usize) -> (r: usize)
    requires
        i <= l@.len(),
    ensures
        r as int == blanks_end(l@, i as int),
        i <= r <= l@.len(),
{
    let mut j = i;
    while j < l.len() && (l[j] == ' ' || l[j] == '\t')
        invariant
            i <= j <= l@.len(),
            blanks_end(l@, i as int) == blanks_end(l@, j as int),
        decreases l@.len() - j,
    {
        j = j + 1;
    }
    j
}

/// The index of the first `]` at or after `i`, or the length.
fn find_close(l: &Vec<char>, i: usize) -> (r: usize)
    requires
        i <= l@.len(),
    ensures
        r as int == close_at(l@, i as int),
        i <= r <= l@.len(),
{
    let mut j = i;
    while j < l.len() && l[j] != ']'
        invariant
            i <= j <= l@.len(),
            close_at(l@, i as int) == close_at(l@, j as int),
        decreases l@.len() - j,
    {
        j = j + 1;
    }
    j
}

/// Reads the field at `i`: its value and the index past its digits, or `None`
/// where it is empty or above 255.
fn read_field(l: &Vec<char>, i: usize) -> (r: Option<(u8, usize)>)
    requires
        i <= l@.len(),
    ensures
        r is Some <==> field_ok(l@, i as int),
        r matches Some((v, j)) ==> v as int == digits_value(l@, i as int, j as int) && j as int
            == digits_end(l@, i as int) && i < j <= l@.len(),
{
    let mut j = i;
    let mut acc: u32 = 0;
    while j < l.len() && '0' <= l[j] && l[j] <= '9'
        invariant
            i <= j <= l@.len(),
            digits_end(l@, i as int) == digits_end(l@, j as int),
            forall|k: int| i <= k < j ==> is_digit(#[trigger] l@[k]),
            acc as int == if digits_value(l@, i as int, j as int) < 256 {
                digits_value(l@, i as int, j as int)
            } else {
                256
            },
            digits_value(l@, i as int, j as int) >= 0,
        decreases l@.len() - j,
    {
        let d = (l[j] as u32) - ('0' as u32);
        assert(digits_value(l@, i as int, j + 1) == digits_value(l@, i as int, j as int) * 10
            + digit_value(l@[j as int]));
        if acc < 256 {
            acc = acc * 10 + d;
            if acc > 256 {
                acc = 256;
            }
        }
        j = j + 1;
    }
    if j > i && acc <= 255 {
        Some((acc as u8, j))
    } else {
        None
    }
}

/// Whether `w` stands in `l` at index `i`.
fn has_word(l: &Vec<char>, i: usize, w: &Vec<char>) -> (r: bool)
    requires
        i <= l@.len(),
    ensures
        r == word_at(l@, i as int, w@),
{
    if w.len() > l.len() - i {
        return false;
    }
    let mut k: usize = 0;
    while k < w.len()
        invariant
            k <= w@.len(),
            i + w@.len() <= l@.len(),
            l@.len() <= usize::MAX,
            forall|m: int| 0 <= m < k ==> l@[i + m] == w@[m],
        decreases w@.len() - k,
    {
        if l[i + k] != w[k] {
            assert(l@.subrange(i as int, i + w@.len())[k as int] != w@[k as int]);
            return false;
        }
        k = k + 1;
    }
    assert(l@.subrange(i as int, i + w@.len()) =~= w@);
    true
}

/// The characters of the keyword of `level`.
pub fn keyword_chars(level: Level) -> (r: Vec<char>)
    ensures
        r@ == keyword(level),
{
    match level {
        Level::Trace => vec!['T', 'R', 'A', 'C', 'E'],
        Level::Debug => vec!['D', 'E', 'B', 'U', 'G'],
        Level::Info => vec!['I', 'N', 'F', 'O'],
        Level::Alert => vec!['A', 'L', 'E', 'R', 'T'],
        Level::Warn => vec!['W', 'A', 'R', 'N'],
        Level::Error => vec!['E', 'R', 'R', 'O', 'R'],
    }
}

/// The level whose keyword stands at `i`, if any.
fn read_level(l: &Vec<char>, i: usize) -> (r: Option<Level>)
    requires
        i <= l@.len(),
    ensures
        r == level_at(l@, i as int),
{
    if has_word(l, i, &keyword_chars(Level::Trace)) {
        Some(Level::Trace)
    } else if has_word(l, i, &keyword_chars(Level::Debug)) {
        Some(Level::Debug)
    } else if has_word(l, i, &keyword_chars(Level::Info)) {
        Some(Level::Info)
    } else if has_word(l, i, &keyword_chars(Level::Alert)) {
        Some(Level::Alert)
    } else if has_word(l, i, &keyword_chars(Level::Warn)) {
        Some(Level::Warn)
    } else if has_word(l, i, &keyword_chars(Level::Error)) {
        Some(Level::Error)
    } else {
        None
    }
}

/// The parts of a header line: timestamp, level, and the bounds of the source;
/// the contents start two characters past the source's end.
pub struct HeaderParts {
    pub timestamp: Timestamp,
    pub level: Level,
    pub source_start: usize,
    pub source_end: usize,
    pub contents_start: usize,
}

/// Reads line `l` as a header, or `None` where it is a continuation.
pub fn read_header(l: &Vec<char>) -> (r: Option<HeaderParts>)
    ensures
        r is Some <==> header_of(l@) is Some,
        r matches Some(p) ==> p.source_start < p.source_end && p.contents_start == p.source_end + 2
            && p.contents_start <= l@.len()
            && header_of(l@) == Some(
            (
                p.timestamp,
                p.level,
                l@.subrange(p.source_start as int, p.source_end as int),
                l@.subrange(p.source_end + 2, l@.len() as int),
            ),
        ),
{
    if l.len() == 0 || l[0] != '[' {
        return None;
    }
    let h0 = skip_blanks(l, 1);
    let (hour, h1) = match read_field(l, h0) {
        Some(f) => f,
        None => return None,
    };
    if h1 >= l.len() || l[h1] != ':' {
        return None;
    }
    let (minute, m1) = match read_field(l, h1 + 1) {
        Some(f) => f,
        None => return None,
    };
    if m1 >= l.len() || l[m1] != ':' {
        return None;
    }
    let (second, s1) = match read_field(l, m1 + 1) {
        Some(f) => f,
        None => return None,
    };
    let k = skip_blanks(l, s1);
    if k == s1 {
        return None;
    }
    let level = match read_level(l, k) {
        Some(lv) => lv,
        None => return None,
    };
    let e = k + keyword_chars(level).len();
    let a = skip_blanks(l, e);
    if a == e {
        return None;
    }
    let b = find_close(l, a);
    if b == a || l.len() - b < 2 || l[b + 1] != ' ' {
        return None;
    }
    Some(
        HeaderParts {
            timestamp: Timestamp { hour, minute, second },
            level,
            source_start: a,
            source_end: b,
            contents_start: b + 2,
        },
    )
}

} // verus!
