//! The state behind the two log views: the raw text line by line, and the
//! filtered messages laid out as formatted lines.

use vstd::prelude::*;
use crate::ast::{Level, Message, MessageView, Timestamp};
use crate::filters::{flipped, FiltersKey, FiltersListSource, FiltersListState, LogFilters};
use crate::log::{distinct_sources, Log};
use crate::parse::{char_views, lines_of, split_lines, split_state};
use crate::scroll::{scrolled, LazyParagraphState, Offset, ScrollKey};
use crate::text::{chars_of, string_of_range};
use vstd::utf8::encode_utf8;
use vstd::string::StringSliceAdditionalSpecFns;

verus! {

/// `l` without one carriage return at its end.
pub open spec fn strip_cr(l: Seq<char>) -> Seq<char> {
    if l.len() > 0 && l.last() == '\r' {
        l.drop_last()
    } else {
        l
    }
}

/// The lines of `t` as `str::lines` gives them: split at `\n`, a `\r` before
/// the `\n` removed, and no empty line after a final `\n`.
pub open spec fn text_lines(t: Seq<char>) -> Seq<Seq<char>> {
    let (done, cur) = split_state(t);
    let ended = done.map_values(|l: Seq<char>| strip_cr(l));
    if cur.len() == 0 {
        ended
    } else {
        ended.push(cur)
    }
}

/// The views of a sequence of strings.
pub open spec fn strings_view(v: Seq<String>) -> Seq<Seq<char>> {
    v.map_values(|s: String| s@)
}

proof fn lemma_split_state_ended(t: Seq<char>)
    ensures
        (split_state(t).1.len() == 0) == (t.len() == 0 || t.last() == '\n'),
{
    if t.len() > 0 {
        let (done, cur) = split_state(t.drop_last());
        if t.last() != '\n' {
            assert(cur.push(t.last()).len() > 0);
        }
    }
}

/// The lines of `text`, as `str::lines` gives them.
pub fn lines_of_text(text: &str) -> (r: Vec<String>)
    ensures
        strings_view(r@) == text_lines(text@),
{
    let cs = chars_of(text);
    let pieces = split_lines(&cs);
    let ghost st = split_state(cs@);
    let ghost done = st.0;
    let ghost cur = st.1;
    let ended = cs.len() == 0 || cs[cs.len() - 1] == '\n';
    proof {
        lemma_split_state_ended(cs@);
    }
    let mut out: Vec<String> = Vec::new();
    let mut i: usize = 0;
    assert(char_views(pieces@).len() == pieces@.len());
    assert(lines_of(cs@) == if cur.len() == 0 {
        done
    } else {
        done.push(cur)
    });
    assert(text_lines(cs@).len() == pieces@.len());
    while i < pieces.len()
        invariant
            done == split_state(cs@).0,
            cur == split_state(cs@).1,
            text_lines(cs@).len() == pieces@.len(),
            i <= pieces@.len(),
            pieces@.map_values(|l: Vec<char>| l@) == if cur.len() == 0 {
                done
            } else {
                done.push(cur)
            },
            ended == (cur.len() == 0),
            strings_view(out@) == text_lines(cs@).take(i as int),
            cs@ == text@,
        decreases pieces@.len() - i,
    {
        let piece = &pieces[i];
        let n = piece.len();
        assert(piece@ == pieces@.map_values(|l: Vec<char>| l@)[i as int]);
        let ghost tl = text_lines(cs@);
        assert(tl[i as int] == if i < done.len() {
            strip_cr(piece@)
        } else {
            piece@
        });
        let line = if (ended || i + 1 < pieces.len()) && n > 0 && piece[n - 1] == '\r' {
            assert(piece@.subrange(0, n - 1) == piece@.drop_last());
            string_of_range(piece, 0, n - 1)
        } else {
            assert(piece@.subrange(0, n as int) == piece@);
            string_of_range(piece, 0, n)
        };
        assert(line@ == tl[i as int]);
        out.push(line);
        assert(text_lines(cs@).take(i + 1) == text_lines(cs@).take(i as int).push(
            text_lines(cs@)[i as int],
        ));
        assert(strings_view(out@) == strings_view(out@.drop_last()).push(line@));
        i = i + 1;
    }
    assert(text_lines(cs@).take(i as int) == text_lines(cs@));
    out
}

/// The raw view: the log's text line by line, and its scroll position.
#[derive(Clone, Debug)]
pub struct RawLogState {
    lines: Vec<String>,
    paragraph_state: LazyParagraphState,
}

impl RawLogState {
    /// The lines shown.
    pub closed spec fn spec_lines(&self) -> Seq<Seq<char>> {
        strings_view(self.lines@)
    }

    /// The scroll position.
    pub closed spec fn spec_paragraph(&self) -> LazyParagraphState {
        self.paragraph_state
    }

    /// The scroll position.
    pub fn paragraph_state(&self) -> (r: LazyParagraphState)
        ensures
            r == self.spec_paragraph(),
    {
        self.paragraph_state
    }

    /// The raw view of `log`, scrolled to the top.
    pub fn new(log: &Log) -> (r: RawLogState)
        ensures
            r.spec_lines() == text_lines(log.spec_raw()),
            r.spec_paragraph().lines == r.spec_lines().len(),
            r.spec_paragraph().offset == (Offset { x: 0, y: 0 }),
    {
        let lines = lines_of_text(log.raw());
        let paragraph_state = LazyParagraphState::new(lines.len());
        RawLogState { lines, paragraph_state }
    }

    /// The raw view of `log` that keeps this view's scroll position.
    pub fn with_log(self, log: &Log) -> (r: RawLogState)
        ensures
            r.spec_lines() == text_lines(log.spec_raw()),
            r.spec_paragraph().lines == r.spec_lines().len(),
            r.spec_paragraph().offset == self.spec_paragraph().offset,
    {
        let mut r = RawLogState::new(log);
        r.paragraph_state.offset = self.paragraph_state.offset;
        r
    }

    /// The line at `index`, if there is one.
    pub fn line(&self, index: usize) -> (r: Option<String>)
        ensures
            r matches Some(l) ==> index < self.spec_lines().len() && l@ == self.spec_lines()[index as int],
            r is None ==> index >= self.spec_lines().len(),
    {
        if index < self.lines.len() {
            let l = &self.lines[index];
            let cs = chars_of(l.as_str());
            assert(l@ == self.spec_lines()[index as int]);
            assert(cs@.subrange(0, cs@.len() as int) == cs@);
            Some(string_of_range(&cs, 0, cs.len()))
        } else {
            None
        }
    }

    /// Scrolls the view.
    pub fn update(&mut self, key: ScrollKey) -> (r: bool)
        ensures
            r,
            final(self).spec_lines() == old(self).spec_lines(),
            final(self).spec_paragraph() == scrolled(old(self).spec_paragraph(), key),
    {
        self.paragraph_state.update(key)
    }
}

/// The value of a formatted line: whether it starts its message, and the
/// message's timestamp, level and source, and the line's text.
pub type FormattedLineView = (bool, Timestamp, Level, Seq<char>, Seq<char>);

/// One line of the formatted view.
#[derive(Clone, Debug)]
pub struct FormattedLine {
    pub first: bool,
    pub timestamp: Timestamp,
    pub level: Level,
    pub source: String,
    pub line: String,
}

impl View for FormattedLine {
    type V = FormattedLineView;

    open spec fn view(&self) -> FormattedLineView {
        (self.first, self.timestamp, self.level, self.source@, self.line@)
    }
}

/// The formatted lines of one message: one per line of its contents.
pub open spec fn message_lines(m: MessageView) -> Seq<FormattedLineView> {
    text_lines(m.3).map(|i: int, l: Seq<char>| (i == 0, m.0, m.1, m.2, l))
}

/// The formatted lines of `ms`, message after message.
pub open spec fn formatted(ms: Seq<MessageView>) -> Seq<FormattedLineView>
    decreases ms.len(),
{
    if ms.len() == 0 {
        seq![]
    } else {
        formatted(ms.drop_last()) + message_lines(ms.last())
    }
}

/// The length of `s` in bytes of UTF-8, as `str::len` gives it.
pub open spec fn byte_len(s: Seq<char>) -> usize {
    encode_utf8(s).len() as usize
}

/// The widest source of `ms`, in bytes of UTF-8.
pub open spec fn source_width(ms: Seq<MessageView>) -> int
    decreases ms.len(),
{
    if ms.len() == 0 {
        0
    } else {
        let w = byte_len(ms.last().2) as int;
        let prev = source_width(ms.drop_last());
        if w > prev {
            w
        } else {
            prev
        }
    }
}

/// The views of a sequence of formatted lines.
pub open spec fn line_views(v: Seq<FormattedLine>) -> Seq<FormattedLineView> {
    v.map_values(|l: FormattedLine| l@)
}

/// The formatted lines of the messages of `log` that `filters` show, and the
/// widest source among those messages.
pub fn format_lines(filters: &LogFilters, log: &Log) -> (r: (Vec<FormattedLine>, usize))
    ensures
        line_views(r.0@) == formatted(filters.spec_apply(log.spec_messages())),
        r.1 == source_width(filters.spec_apply(log.spec_messages())),
{
    let shown = filters.apply(log);
    let ghost sv = shown@.map_values(|m: &Message| m@);
    let mut lines: Vec<FormattedLine> = Vec::new();
    let mut width: usize = 0;
    let mut i: usize = 0;
    while i < shown.len()
        invariant
            i <= shown@.len(),
            sv == shown@.map_values(|m: &Message| m@),
            line_views(lines@) == formatted(sv.take(i as int)),
            width == source_width(sv.take(i as int)),
        decreases shown@.len() - i,
    {
        let m = shown[i];
        assert(sv.take(i + 1).drop_last() == sv.take(i as int));
        assert(sv.take(i + 1).last() == m@);
        let src = m.source.as_str();
        let w = src.len();
        assert(w == byte_len(sv.take(i + 1).last().2));
        if w > width {
            width = w;
        }
        let parts = lines_of_text(m.contents.as_str());
        let ghost before = line_views(lines@);
        let mut k: usize = 0;
        while k < parts.len()
            invariant
                k <= parts@.len(),
                strings_view(parts@) == text_lines(m.contents@),
                line_views(lines@) == before + message_lines(m@).take(k as int),
            decreases parts@.len() - k,
        {
            let fl = FormattedLine {
                first: k == 0,
                timestamp: m.timestamp,
                level: m.level,
                source: m.source.clone(),
                line: parts[k].clone(),
            };
            assert(parts@[k as int]@ == strings_view(parts@)[k as int]);
            assert(message_lines(m@).len() == parts@.len());
            assert(message_lines(m@)[k as int] == fl@);
            assert(message_lines(m@).take(k + 1) == message_lines(m@).take(k as int).push(fl@));
            let ghost prior = line_views(lines@);
            lines.push(fl);
            assert(line_views(lines@) == prior.push(fl@));
            assert(before + message_lines(m@).take(k + 1) == (before + message_lines(m@).take(
                k as int,
            )).push(fl@));
            k = k + 1;
        }
        assert(message_lines(m@).take(k as int) == message_lines(m@));
        i = i + 1;
    }
    assert(sv.take(i as int) == sv);
    (lines, width)
}

/// A key that the formatted view reacts to.
#[derive(Clone, Copy, PartialEq, Eq, Debug, Hash, Structural)]
pub enum ViewKey {
    /// Opens the filter bar, or switches it between levels and sources.
    Filters,
    /// Flips the selected filter.
    Toggle,
    /// Closes the filter bar.
    Close,
    Up,
    Down,
    Left,
    Right,
    PageUp,
    PageDown,
    Home,
    End,
}

/// The scrolling key that `key` stands for, if any.
pub open spec fn scroll_key(key: ViewKey) -> Option<ScrollKey> {
    match key {
        ViewKey::Up => Some(ScrollKey::Up),
        ViewKey::Down => Some(ScrollKey::Down),
        ViewKey::Left => Some(ScrollKey::Left),
        ViewKey::Right => Some(ScrollKey::Right),
        ViewKey::PageUp => Some(ScrollKey::PageUp),
        ViewKey::PageDown => Some(ScrollKey::PageDown),
        ViewKey::Home => Some(ScrollKey::Home),
        ViewKey::End => Some(ScrollKey::End),
        _ => None,
    }
}

/// The formatted view: filters, the lines they leave, the source column's
/// width, the scroll position, and the filter bar where it is open.
#[derive(Debug)]
pub struct FormattedLogState<'a> {
    log: &'a Log,
    lines: Vec<FormattedLine>,
    source_width: usize,
    paragraph_state: LazyParagraphState,
    filters: LogFilters,
    filters_list_state: Option<FiltersListState>,
}

impl<'a> FormattedLogState<'a> {
    pub closed spec fn spec_log(&self) -> &'a Log {
        self.log
    }

    pub closed spec fn spec_lines(&self) -> Seq<FormattedLineView> {
        line_views(self.lines@)
    }

    pub closed spec fn spec_source_width(&self) -> int {
        self.source_width as int
    }

    pub closed spec fn spec_paragraph(&self) -> LazyParagraphState {
        self.paragraph_state
    }

    pub closed spec fn spec_filters(&self) -> LogFilters {
        self.filters
    }

    pub closed spec fn spec_list(&self) -> Option<FiltersListState> {
        self.filters_list_state
    }

    /// The lines and width are those of the filtered log.
    pub open spec fn wf(&self) -> bool {
        &&& self.spec_log().wf()
        &&& self.spec_filters().wf()
        &&& self.spec_lines() == formatted(
            self.spec_filters().spec_apply(self.spec_log().spec_messages()),
        )
        &&& self.spec_source_width() == source_width(
            self.spec_filters().spec_apply(self.spec_log().spec_messages()),
        )
        &&& self.spec_paragraph().lines == self.spec_lines().len()
    }

    /// The formatted view of `log`, showing everything, scrolled to the top,
    /// with the filter bar closed.
    pub fn new(log: &'a Log) -> (r: FormattedLogState<'a>)
        requires
            log.wf(),
        ensures
            r.wf(),
            r.spec_log() == log,
            r.spec_lines() == formatted(log.spec_messages()),
            r.spec_paragraph().offset == (Offset { x: 0, y: 0 }),
            r.spec_list() is None,
            forall|i: int| 0 <= i < 6 ==> (#[trigger] r.spec_filters().spec_levels()[i]).1,
            forall|s: Seq<char>|
                distinct_sources(log.spec_messages()).contains(s) ==> crate::filters::source_entry(
                    r.spec_filters().spec_sources(),
                    s,
                ) == Some(true),
            forall|s: Seq<char>|
                !distinct_sources(log.spec_messages()).contains(s) ==> crate::filters::source_entry(
                    r.spec_filters().spec_sources(),
                    s,
                ) is None,
    {
        let filters = LogFilters::new(log);
        proof {
            crate::filters::lemma_all_on_show_all(&filters, log.spec_messages());
        }
        let (lines, source_width) = format_lines(&filters, log);
        let paragraph_state = LazyParagraphState::new(lines.len());
        FormattedLogState {
            log,
            lines,
            source_width,
            paragraph_state,
            filters,
            filters_list_state: None,
        }
    }

    /// Lays the lines out again after the filters changed; the scroll
    /// position returns to the top.
    pub fn apply_filter(&mut self)
        requires
            old(self).spec_log().wf(),
            old(self).spec_filters().wf(),
        ensures
            final(self).wf(),
            final(self).spec_log() == old(self).spec_log(),
            final(self).spec_filters() == old(self).spec_filters(),
            final(self).spec_list() == old(self).spec_list(),
            final(self).spec_paragraph().offset == (Offset { x: 0, y: 0 }),
    {
        let (lines, source_width) = format_lines(&self.filters, self.log);
        self.paragraph_state = LazyParagraphState::new(lines.len());
        self.lines = lines;
        self.source_width = source_width;
    }

    /// The formatted lines.
    pub fn lines(&self) -> (r: &Vec<FormattedLine>)
        ensures
            line_views(r@) == self.spec_lines(),
    {
        &self.lines
    }

    /// The widest source shown, in bytes.
    pub fn source_width(&self) -> (r: usize)
        ensures
            r == self.spec_source_width(),
    {
        self.source_width
    }

    /// The filters.
    pub fn filters(&self) -> (r: &LogFilters)
        ensures
            *r == self.spec_filters(),
    {
        &self.filters
    }

    /// The filter bar, where it is open.
    pub fn filters_list_state(&self) -> (r: Option<FiltersListState>)
        ensures
            r == self.spec_list(),
    {
        self.filters_list_state
    }

    /// The scroll position.
    pub fn paragraph_state(&self) -> (r: LazyParagraphState)
        ensures
            r == self.spec_paragraph(),
    {
        self.paragraph_state
    }

    /// Applies `key`; returns whether it was handled. With the bar closed,
    /// `Filters` opens it on the levels and scrolling keys scroll. With it
    /// open, `Filters` switches lists, `Toggle` flips the selected flag and
    /// lays the lines out again, `Close` closes it, and left and right move
    /// the selection.
    pub fn update(&mut self, key: ViewKey) -> (r: bool)
        requires
            old(self).wf(),
        ensures
            final(self).wf(),
            final(self).spec_log() == old(self).spec_log(),
            key == ViewKey::Filters || key == ViewKey::Close ==> final(self).spec_filters() == old(self).spec_filters() && final(self).spec_lines() == old(self).spec_lines() && final(self).spec_source_width() == old(self).spec_source_width() && final(self).spec_paragraph()
                == old(self).spec_paragraph(),
            key == ViewKey::Filters ==> r && final(self).spec_list() == Some(
                match old(self).spec_list() {
                    None => FiltersListState { selected: 0, source: FiltersListSource::Levels },
                    Some(l) => FiltersListState {
                        selected: 0,
                        source: if l.source == FiltersListSource::Levels {
                            FiltersListSource::Sources
                        } else {
                            FiltersListSource::Levels
                        },
                    },
                },
            ),
            key == ViewKey::Close ==> final(self).spec_list() is None && r == (old(self).spec_list() is Some),
            key == ViewKey::Toggle ==> r == (old(self).spec_list() is Some)
                && final(self).spec_list() == old(self).spec_list(),
            key == ViewKey::Toggle && old(self).spec_list() is None ==> final(self).spec_filters()
                == old(self).spec_filters(),
            key == ViewKey::Toggle && old(self).spec_list() is Some ==> ({
                let l = old(self).spec_list()->0;
                &&& l.source == FiltersListSource::Levels ==> final(self).spec_filters().spec_sources()
                    == old(self).spec_filters().spec_sources() && final(self).spec_filters().spec_levels() == flipped(
                    old(self).spec_filters().spec_levels(),
                    l.selected as int,
                )
                &&& l.source == FiltersListSource::Sources ==> final(self).spec_filters().spec_levels()
                    == old(self).spec_filters().spec_levels() && final(self).spec_filters().spec_sources() == flipped(
                    old(self).spec_filters().spec_sources(),
                    l.selected as int,
                )
            }),
            old(self).spec_list() is None && scroll_key(key) is Some ==> r && final(self).spec_filters() == old(self).spec_filters() && final(self).spec_list() is None
                && final(self).spec_lines() == old(self).spec_lines() && final(self).spec_paragraph()
                == scrolled(old(self).spec_paragraph(), scroll_key(key)->0),
            old(self).spec_list() is Some && (key == ViewKey::Left || key == ViewKey::Right) ==> r
                && final(self).spec_filters() == old(self).spec_filters() && (final(self).spec_list() matches Some(l) && l.source == old(self).spec_list()->0.source),
            old(self).spec_list() is Some && scroll_key(key) is Some && key != ViewKey::Left && key
                != ViewKey::Right ==> !r && final(self).spec_filters() == old(self).spec_filters() && final(self).spec_list() == old(self).spec_list(),
    {
        match key {
            ViewKey::Filters => {
                self.filters_list_state =
                match self.filters_list_state {
                    None => Some(FiltersListState::levels()),
                    Some(l) => match l.source {
                        FiltersListSource::Levels => Some(FiltersListState::sources()),
                        FiltersListSource::Sources => Some(FiltersListState::levels()),
                    },
                };
                true
            },
            ViewKey::Toggle => match self.filters_list_state {
                Some(l) => {
                    l.toggle(&mut self.filters);
                    self.apply_filter();
                    true
                },
                None => false,
            },
            ViewKey::Close => match self.filters_list_state {
                Some(_) => {
                    self.filters_list_state = None;
                    true
                },
                None => false,
            },
            _ => match self.filters_list_state {
                None => {
                    let sk = match key {
                        ViewKey::Up => ScrollKey::Up,
                        ViewKey::Down => ScrollKey::Down,
                        ViewKey::Left => ScrollKey::Left,
                        ViewKey::Right => ScrollKey::Right,
                        ViewKey::PageUp => ScrollKey::PageUp,
                        ViewKey::PageDown => ScrollKey::PageDown,
                        ViewKey::Home => ScrollKey::Home,
                        _ => ScrollKey::End,
                    };
                    self.paragraph_state.update(sk)
                },
                Some(l) => {
                    let mut list = l;
                    let handled = match key {
                        ViewKey::Left => list.update(FiltersKey::Left),
                        ViewKey::Right => list.update(FiltersKey::Right),
                        _ => false,
                    };
                    self.filters_list_state = Some(list);
                    handled
                },
            },
        }
    }

    /// The formatted view of `new_log` that keeps this view's filter flags
    /// (reconciled with the new log's sources), scroll position and filter
    /// bar.
    pub fn with_log<'b>(self, new_log: &'b Log) -> (r: FormattedLogState<'b>)
        requires
            self.wf(),
            new_log.wf(),
        ensures
            r.wf(),
            r.spec_log() == new_log,
            r.spec_filters().spec_levels() == self.spec_filters().spec_levels(),
            forall|s: Seq<char>|
                distinct_sources(new_log.spec_messages()).contains(s) ==> crate::filters::source_entry(
                    r.spec_filters().spec_sources(),
                    s,
                ) == Some(crate::filters::source_flag(self.spec_filters().spec_sources(), s)),
            forall|s: Seq<char>|
                !distinct_sources(new_log.spec_messages()).contains(s) ==> crate::filters::source_entry(
                    r.spec_filters().spec_sources(),
                    s,
                ) is None,
            r.spec_paragraph().offset == self.spec_paragraph().offset,
            r.spec_list() == self.spec_list(),
    {
        let filters = self.filters.with_log(new_log);
        let (lines, source_width) = format_lines(&filters, new_log);
        let mut paragraph_state = LazyParagraphState::new(lines.len());
        paragraph_state.offset = self.paragraph_state.offset;
        FormattedLogState {
            log: new_log,
            lines,
            source_width,
            paragraph_state,
            filters,
            filters_list_state: self.filters_list_state,
        }
    }
}

} // verus!
