//! Log sources and the decisions that keep a live log current. The I/O that
//! feeds them (file watching, reading a stream, fetching) happens outside the
//! library; here each poll's inputs are plain values.

use vstd::prelude::*;
use crate::log::Log;
use crate::parse::{parse_text, ParseError};
use crate::text::{append_range, chars_of};

verus! {

/// Why a log could not be had.
#[derive(Clone, PartialEq, Eq, Debug)]
pub enum LogError {
    /// Opening or reading failed.
    Io(String),
    /// The text does not parse.
    Parse(ParseError),
    /// The path could not be watched.
    Watch(String),
    /// The remote fetch failed.
    Network(String),
}

/// A provider of replacement logs. `update_log` returns `None` where nothing
/// changed and `Some` with a whole new log where a replacement is ready.
pub trait LogSource {
    fn update_log(&mut self, log: &Log) -> Result<Option<Log>, LogError>;
}

/// A log read once, from a file or a string; it never changes.
#[derive(Clone, Copy, PartialEq, Eq, Debug, Hash, Structural)]
pub struct StaticLogSource;

impl StaticLogSource {
    /// A static source over the log parsed from `raw`.
    pub fn from_string(raw: String) -> (r: Result<(StaticLogSource, Log), ParseError>)
        ensures
            r is Ok <==> parse_text(raw@) is Some,
            r matches Ok((_, log)) ==> log.wf() && log.spec_raw() == raw@,
    {
        match Log::parse(raw) {
            Ok(log) => Ok((StaticLogSource, log)),
            Err(e) => Err(e),
        }
    }

    /// A static source never has a replacement.
    pub fn poll(&mut self, _log: &Log) -> (r: Result<Option<Log>, LogError>)
        ensures
            r == Ok::<Option<Log>, LogError>(None),
    {
        Ok(None)
    }
}

impl LogSource for StaticLogSource {
    fn update_log(&mut self, log: &Log) -> (r: Result<Option<Log>, LogError>)
        ensures
            r == Ok::<Option<Log>, LogError>(None),
    {
        self.poll(log)
    }
}

/// A change that the file watcher saw on a followed file.
#[derive(Clone, Copy, PartialEq, Eq, Debug, Hash, Structural)]
pub enum FileUpdate {
    Removed,
    Updated,
}

/// What a followed source does on a poll.
#[derive(Clone, Copy, PartialEq, Eq, Debug, Hash, Structural)]
pub enum FollowAction {
    /// Nothing happened: keep the current log.
    Keep,
    /// The file is gone: replace the log with an empty one.
    Reset,
    /// The file changed: read it again and parse it.
    Reload,
}

/// The action for the events drained in one poll: the last event wins, so
/// many events lead to at most one re-read.
pub fn follow_action(events: &Vec<FileUpdate>) -> (r: FollowAction)
    ensures
        events@.len() == 0 ==> r == FollowAction::Keep,
        events@.len() > 0 && events@.last() == FileUpdate::Removed ==> r == FollowAction::Reset,
        events@.len() > 0 && events@.last() == FileUpdate::Updated ==> r == FollowAction::Reload,
{
    if events.len() == 0 {
        FollowAction::Keep
    } else {
        match events[events.len() - 1] {
            FileUpdate::Removed => FollowAction::Reset,
            FileUpdate::Updated => FollowAction::Reload,
        }
    }
}

impl FollowAction {
    /// Whether the action needs the file's contents.
    pub fn needs_read(&self) -> (r: bool)
        ensures
            r == (*self == FollowAction::Reload),
    {
        match self {
            FollowAction::Reload => true,
            _ => false,
        }
    }
}

/// The replacement log after `action`, given the file's contents where they
/// could be read. A read or parse failure keeps the current log (`None`):
/// the file may be in the middle of a write.
pub fn apply_follow(action: FollowAction, contents: Option<String>) -> (r: Option<Log>)
    ensures
        action == FollowAction::Keep ==> r is None,
        action == FollowAction::Reset ==> (r matches Some(log) && log.wf() && log.spec_raw()
            == Seq::<char>::empty() && log.spec_messages().len() == 0),
        action == FollowAction::Reload ==> match contents {
            None => r is None,
            Some(text) => match r {
                Some(log) => log.wf() && log.spec_raw() == text@,
                None => parse_text(text@) is None,
            },
        },
{
    match action {
        FollowAction::Keep => None,
        FollowAction::Reset => Some(Log::empty()),
        FollowAction::Reload => match contents {
            None => None,
            Some(text) => match Log::parse(text) {
                Ok(log) => Some(log),
                Err(_) => None,
            },
        },
    }
}

/// One poll of a followed source: the replacement log for the drained
/// `events`, given the file's contents where the action needed them and they
/// could be read. A `Removed` last leaves an empty log; an `Updated` last
/// whose contents are missing or do not parse keeps the current log.
pub fn follow_poll(events: &Vec<FileUpdate>, contents: Option<String>) -> (r: Option<Log>)
    ensures
        events@.len() == 0 ==> r is None,
        events@.len() > 0 && events@.last() == FileUpdate::Removed ==> (r matches Some(log)
            && log.wf() && log.spec_raw() == Seq::<char>::empty() && log.spec_messages().len()
            == 0),
        events@.len() > 0 && events@.last() == FileUpdate::Updated ==> match contents {
            None => r is None,
            Some(text) => match r {
                Some(log) => log.wf() && log.spec_raw() == text@,
                None => parse_text(text@) is None,
            },
        },
{
    apply_follow(follow_action(events), contents)
}

/// The texts of `chunks`, one after another.
pub open spec fn concat_all(chunks: Seq<Seq<char>>) -> Seq<char>
    decreases chunks.len(),
{
    if chunks.len() == 0 {
        seq![]
    } else {
        concat_all(chunks.drop_last()) + chunks.last()
    }
}

/// Text read from a stream that does not parse yet: a later line may
/// complete a message whose start came earlier.
#[derive(Debug)]
pub struct StreamBuffer {
    unparsed: String,
}

impl StreamBuffer {
    /// The text waiting to be parsed.
    pub closed spec fn spec_unparsed(&self) -> Seq<char> {
        self.unparsed@
    }

    /// An empty buffer.
    pub fn new() -> (r: StreamBuffer)
        ensures
            r.spec_unparsed() == Seq::<char>::empty(),
    {
        StreamBuffer { unparsed: String::new() }
    }

    /// The text waiting to be parsed.
    pub fn unparsed(&self) -> (r: &str)
        ensures
            r@ == self.spec_unparsed(),
    {
        self.unparsed.as_str()
    }

    /// Takes the lines read since the last poll. With none, nothing changes.
    /// Otherwise they join the waiting text, and the previous log's text
    /// followed by the waiting text is parsed: on success the buffer empties
    /// and the new log is returned; on failure the text is kept for later.
    pub fn absorb(&mut self, previous: &Log, lines: &Vec<String>) -> (r: Option<Log>)
        ensures
            lines@.len() == 0 ==> r is None && final(self).spec_unparsed() == old(
                self,
            ).spec_unparsed(),
            lines@.len() > 0 ==> {
                let pending = old(self).spec_unparsed() + concat_all(
                    lines@.map_values(|l: String| l@),
                );
                let text = previous.spec_raw() + pending;
                match r {
                    Some(log) => log.wf() && log.spec_raw() == text && final(self).spec_unparsed()
                        == Seq::<char>::empty(),
                    None => parse_text(text) is None && final(self).spec_unparsed() == pending,
                }
            },
    {
        if lines.len() == 0 {
            return None;
        }
        let ghost views = lines@.map_values(|l: String| l@);
        let mut k: usize = 0;
        let ghost start = self.unparsed@;
        while k < lines.len()
            invariant
                k <= lines@.len(),
                views == lines@.map_values(|l: String| l@),
                self.unparsed@ == start + concat_all(views.take(k as int)),
            decreases lines@.len() - k,
        {
            let cs = chars_of(lines[k].as_str());
            append_range(&mut self.unparsed, &cs, 0, cs.len());
            assert(cs@.subrange(0, cs@.len() as int) == cs@);
            assert(views.take(k + 1).drop_last() == views.take(k as int));
            assert(views.take(k + 1).last() == lines@[k as int]@);
            k = k + 1;
        }
        assert(views.take(k as int) == views);
        let prev_chars = chars_of(previous.raw());
        let pending_chars = chars_of(self.unparsed.as_str());
        let mut text = String::new();
        append_range(&mut text, &prev_chars, 0, prev_chars.len());
        append_range(&mut text, &pending_chars, 0, pending_chars.len());
        assert(prev_chars@.subrange(0, prev_chars@.len() as int) == prev_chars@);
        assert(pending_chars@.subrange(0, pending_chars@.len() as int) == pending_chars@);
        assert(text@ == previous.spec_raw() + self.unparsed@);
        match Log::parse(text) {
            Ok(log) => {
                self.unparsed = String::new();
                Some(log)
            },
            Err(_) => None,
        }
    }
}

/// The log to hold after a poll, and the error to record if the poll failed.
/// A poll's error is not fatal: the current log stays.
pub fn next_log(current: Log, polled: Result<Option<Log>, LogError>) -> (r: (Log, Option<LogError>))
    ensures
        match polled {
            Ok(Some(new_log)) => r.0 == new_log && r.1 is None,
            Ok(None) => r.0 == current && r.1 is None,
            Err(e) => r.0 == current && r.1 == Some(e),
        },
{
    match polled {
        Ok(Some(new_log)) => (new_log, None),
        Ok(None) => (current, None),
        Err(e) => (current, Some(e)),
    }
}

} // verus!
