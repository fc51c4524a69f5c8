//! The log model: raw text, the messages parsed from it, and an index of the
//! messages by source. A log never changes once built; new text makes a new log.

use vstd::prelude::*;
use crate::ast::{Message, MessageView};
use crate::parse::{message_views, parse, parse_text, ParseError};

verus! {

/// The source names of `ms`, each once, in the order they first appear.
pub open spec fn distinct_sources(ms: Seq<MessageView>) -> Seq<Seq<char>>
    decreases ms.len(),
{
    if ms.len() == 0 {
        seq![]
    } else {
        let prev = distinct_sources(ms.drop_last());
        if prev.contains(ms.last().2) {
            prev
        } else {
            prev.push(ms.last().2)
        }
    }
}

/// The positions in `ms` of the messages from `source`, in document order.
pub open spec fn source_positions(ms: Seq<MessageView>, source: Seq<char>) -> Seq<int>
    decreases ms.len(),
{
    if ms.len() == 0 {
        seq![]
    } else {
        let prev = source_positions(ms.drop_last(), source);
        if ms.last().2 == source {
            prev.push(ms.len() - 1)
        } else {
            prev
        }
    }
}

/// The positions of a source's messages are in document order, and each names
/// a message from that source.
pub proof fn lemma_source_positions_ordered(ms: Seq<MessageView>, source: Seq<char>)
    ensures
        forall|a: int, b: int|
            0 <= a < b < source_positions(ms, source).len() ==> source_positions(ms, source)[a]
                < source_positions(ms, source)[b],
        forall|a: int|
            0 <= a < source_positions(ms, source).len() ==> 0 <= #[trigger] source_positions(
                ms,
                source,
            )[a] < ms.len() && ms[source_positions(ms, source)[a]].2 == source,
    decreases ms.len(),
{
    if ms.len() > 0 {
        lemma_source_positions_ordered(ms.drop_last(), source);
        let prev = source_positions(ms.drop_last(), source);
        assert forall|a: int| 0 <= a < prev.len() implies ms[prev[a]].2 == source by {
            assert(ms.drop_last()[prev[a]] == ms[prev[a]]);
        }
    }
}

/// One entry of the by-source index.
#[derive(Debug)]
pub struct SourceGroup {
    source: String,
    positions: Vec<usize>,
}

/// The index of `ms` by source: one entry per distinct source, in order of
/// first appearance, holding the positions of that source's messages.
pub open spec fn index_of(ms: Seq<MessageView>, gs: Seq<(Seq<char>, Seq<int>)>) -> bool {
    &&& gs.len() == distinct_sources(ms).len()
    &&& forall|g: int|
        0 <= g < gs.len() ==> (#[trigger] gs[g]).0 == distinct_sources(ms)[g] && gs[g].1
            == source_positions(ms, gs[g].0)
}

/// A parsed log.
#[derive(Debug)]
pub struct Log {
    raw: String,
    messages: Vec<Message>,
    groups: Vec<SourceGroup>,
}

impl Log {
    /// The raw text the log was built from.
    pub closed spec fn spec_raw(&self) -> Seq<char> {
        self.raw@
    }

    /// The messages, in document order.
    pub closed spec fn spec_messages(&self) -> Seq<MessageView> {
        message_views(self.messages@)
    }

    /// The by-source index: source name and message positions.
    pub closed spec fn spec_groups(&self) -> Seq<(Seq<char>, Seq<int>)> {
        group_views(self.groups@)
    }

    /// The messages are those of the raw text, and the index is theirs.
    pub open spec fn wf(&self) -> bool {
        &&& parse_text(self.spec_raw()) == Some(self.spec_messages())
        &&& index_of(self.spec_messages(), self.spec_groups())
    }

    /// A log with no text and no messages.
    pub fn empty() -> (r: Log)
        ensures
            r.wf(),
            r.spec_raw() == Seq::<char>::empty(),
            r.spec_messages() == Seq::<MessageView>::empty(),
    {
        let r = Log { raw: String::new(), messages: Vec::new(), groups: Vec::new() };
        assert(r.spec_messages() =~= seq![]);
        assert(r.spec_groups() =~= seq![]);
        r
    }

    /// Parses `raw` into a log, or fails where the text cannot be parsed.
    pub fn parse(raw: String) -> (r: Result<Log, ParseError>)
        ensures
            match r {
                Ok(log) => log.wf() && log.spec_raw() == raw@,
                Err(_) => parse_text(raw@) is None,
            },
    {
        let messages = match parse(raw.as_str()) {
            Ok(ms) => ms,
            Err(e) => return Err(e),
        };
        let groups = build_index(&messages);
        Ok(Log { raw, messages, groups })
    }

    /// The raw text.
    pub fn raw(&self) -> (r: &str)
        ensures
            r@ == self.spec_raw(),
    {
        self.raw.as_str()
    }

    /// The messages, in document order.
    pub fn messages(&self) -> (r: &Vec<Message>)
        ensures
            message_views(r@) == self.spec_messages(),
    {
        &self.messages
    }

    /// The positions of the messages from `source`, in document order; empty
    /// where no message has that source.
    pub fn positions_of(&self, source: &String) -> (r: Vec<usize>)
        requires
            self.wf(),
        ensures
            r@.map_values(|p: usize| p as int) == source_positions(self.spec_messages(), source@),
    {
        proof {
            lemma_distinct_sources_unique(self.spec_messages());
        }
        match find_group(&self.groups, source) {
            None => {
                proof {
                    if distinct_sources(self.spec_messages()).contains(source@) {
                        let k = distinct_sources(self.spec_messages()).index_of(source@);
                        assert(self.spec_groups()[k].0 == self.groups@[k].source@);
                    }
                    lemma_absent_source(self.spec_messages(), source@);
                }
                let r: Vec<usize> = Vec::new();
                assert(r@.map_values(|p: usize| p as int) =~= seq![]);
                r
            },
            Some(g) => {
                let ps = &self.groups[g].positions;
                assert(self.spec_groups()[g as int] == (
                    self.groups@[g as int].source@,
                    ps@.map_values(|p: usize| p as int),
                ));
                let mut r: Vec<usize> = Vec::new();
                let mut k: usize = 0;
                while k < ps.len()
                    invariant
                        k <= ps@.len(),
                        r@ == ps@.take(k as int),
                    decreases ps@.len() - k,
                {
                    r.push(ps[k]);
                    assert(ps@.take(k + 1) == ps@.take(k as int).push(ps@[k as int]));
                    k = k + 1;
                }
                assert(ps@.take(k as int) == ps@);
                r
            },
        }
    }

    /// The distinct source names, in order of first appearance.
    pub fn sources(&self) -> (r: Vec<String>)
        requires
            self.wf(),
        ensures
            r@.map_values(|s: String| s@) == distinct_sources(self.spec_messages()),
    {
        let mut out: Vec<String> = Vec::new();
        let mut g: usize = 0;
        while g < self.groups.len()
            invariant
                g <= self.groups@.len(),
                self.wf(),
                out@.map_values(|s: String| s@) == distinct_sources(self.spec_messages()).take(
                    g as int,
                ),
            decreases self.groups@.len() - g,
        {
            assert(self.spec_groups()[g as int].0 == self.groups@[g as int].source@);
            out.push(self.groups[g].source.clone());
            assert(distinct_sources(self.spec_messages()).take(g + 1) == distinct_sources(
                self.spec_messages(),
            ).take(g as int).push(self.groups@[g as int].source@));
            assert(out@.map_values(|s: String| s@) == out@.drop_last().map_values(
                |s: String| s@,
            ).push(self.groups@[g as int].source@));
            g = g + 1;
        }
        assert(distinct_sources(self.spec_messages()).take(g as int) == distinct_sources(
            self.spec_messages(),
        ));
        out
    }
}

/// The views of the index entries.
pub closed spec fn group_views(gs: Seq<SourceGroup>) -> Seq<(Seq<char>, Seq<int>)> {
    gs.map_values(|g: SourceGroup| (g.source@, g.positions@.map_values(|p: usize| p as int)))
}

/// No source name is listed twice.
pub proof fn lemma_distinct_sources_unique(ms: Seq<MessageView>)
    ensures
        distinct_sources(ms).no_duplicates(),
    decreases ms.len(),
{
    if ms.len() > 0 {
        lemma_distinct_sources_unique(ms.drop_last());
    }
}

/// The source of every message is listed among the distinct sources.
pub proof fn lemma_message_source_listed(ms: Seq<MessageView>, j: int)
    requires
        0 <= j < ms.len(),
    ensures
        distinct_sources(ms).contains(ms[j].2),
    decreases ms.len(),
{
    let prev = distinct_sources(ms.drop_last());
    if j < ms.len() - 1 {
        lemma_message_source_listed(ms.drop_last(), j);
        let i = choose|i: int| 0 <= i < prev.len() && prev[i] == ms[j].2;
        assert(distinct_sources(ms)[i] == ms[j].2);
    } else if prev.contains(ms[j].2) {
        let i = choose|i: int| 0 <= i < prev.len() && prev[i] == ms[j].2;
        assert(distinct_sources(ms)[i] == ms[j].2);
    } else {
        assert(distinct_sources(ms).last() == ms[j].2);
    }
}

/// A source that no message has has no positions.
proof fn lemma_absent_source(ms: Seq<MessageView>, s: Seq<char>)
    requires
        !distinct_sources(ms).contains(s),
    ensures
        source_positions(ms, s) == Seq::<int>::empty(),
    decreases ms.len(),
{
    if ms.len() > 0 {
        let prev = distinct_sources(ms.drop_last());
        if prev.contains(s) {
            let i = choose|i: int| 0 <= i < prev.len() && prev[i] == s;
            assert(distinct_sources(ms)[i] == s);
        }
        if ms.last().2 == s {
            assert(distinct_sources(ms).contains(s)) by {
                if !prev.contains(s) {
                    assert(distinct_sources(ms).last() == s);
                }
            }
        }
        lemma_absent_source(ms.drop_last(), s);
    }
}

/// The entry for source `s`, if there is one.
fn find_group(groups: &Vec<SourceGroup>, s: &String) -> (r: Option<usize>)
    ensures
        r matches Some(g) ==> g < groups@.len() && groups@[g as int].source@ == s@,
        r is None ==> forall|g: int| 0 <= g < groups@.len() ==> groups@[g].source@ != s@,
{
    let mut g: usize = 0;
    while g < groups.len()
        invariant
            g <= groups@.len(),
            forall|k: int| 0 <= k < g ==> groups@[k].source@ != s@,
        decreases groups@.len() - g,
    {
        if groups[g].source == *s {
            return Some(g);
        }
        g = g + 1;
    }
    None
}

/// Builds the by-source index of `ms`.
fn build_index(ms: &Vec<Message>) -> (r: Vec<SourceGroup>)
    ensures
        index_of(message_views(ms@), group_views(r@)),
{
    let mut groups: Vec<SourceGroup> = Vec::new();
    let mut j: usize = 0;
    assert(message_views(ms@.take(0)) =~= seq![]);
    assert(group_views(groups@) =~= seq![]);
    while j < ms.len()
        invariant
            j <= ms@.len(),
            index_of(message_views(ms@.take(j as int)), group_views(groups@)),
        decreases ms@.len() - j,
    {
        let ghost pre = message_views(ms@.take(j as int));
        let ghost post = message_views(ms@.take(j + 1));
        let ghost old_views = group_views(groups@);
        let ghost old_groups = groups@;
        let ghost s = ms@[j as int].source@;
        assert(post.drop_last() == pre);
        assert(post.last() == ms@[j as int]@);
        proof {
            lemma_distinct_sources_unique(pre);
        }
        match find_group(&groups, &ms[j].source) {
            Some(g) => {
                assert(old_views[g as int].0 == groups@[g as int].source@);
                assert(distinct_sources(pre)[g as int] == s);
                assert(distinct_sources(pre).contains(s));
                let mut grp = groups.remove(g);
                grp.positions.push(j);
                groups.insert(g, grp);
                assert(grp.positions@.map_values(|p: usize| p as int) == old_views[g as int].1.push(
                    j as int,
                ));
                assert forall|k: int| 0 <= k < old_views.len() implies (#[trigger] group_views(
                    groups@,
                )[k]) == if k == g {
                    (s, old_views[k].1.push(j as int))
                } else {
                    old_views[k]
                } by {
                    if k != g {
                        assert(groups@[k] == old_groups[k]);
                    }
                }
                assert forall|k: int| 0 <= k < old_views.len() && k != g implies old_views[k].0
                    != s by {
                    assert(distinct_sources(pre)[k] != distinct_sources(pre)[g as int]);
                }
            },
            None => {
                assert(!distinct_sources(pre).contains(s)) by {
                    if distinct_sources(pre).contains(s) {
                        let k = distinct_sources(pre).index_of(s);
                        assert(old_views[k].0 == s);
                        assert(groups@[k].source@ == s);
                    }
                }
                proof {
                    lemma_absent_source(pre, s);
                }
                let grp = SourceGroup { source: ms[j].source.clone(), positions: vec![j] };
                groups.push(grp);
                assert(grp.positions@.map_values(|p: usize| p as int) =~= seq![j as int]);
                assert(group_views(groups@) == old_views.push((s, seq![j as int])));
                assert forall|k: int| 0 <= k < old_views.len() implies old_views[k].0 != s by {
                    assert(distinct_sources(pre).contains(distinct_sources(pre)[k]));
                }
            },
        }
        j = j + 1;
    }
    assert(ms@.take(ms@.len() as int) == ms@);
    groups
}

/// Same-source messages keep their document order in the by-source index:
/// of two positions listed for one source, the earlier entry is the earlier
/// message, and every entry names a message from that source.
pub proof fn lemma_index_keeps_order(log: &Log, g: int, a: int, b: int)
    requires
        log.wf(),
        0 <= g < log.spec_groups().len(),
        0 <= a < b < log.spec_groups()[g].1.len(),
    ensures
        log.spec_groups()[g].1[a] < log.spec_groups()[g].1[b],
        log.spec_messages()[log.spec_groups()[g].1[a]].2 == log.spec_groups()[g].0,
        log.spec_messages()[log.spec_groups()[g].1[b]].2 == log.spec_groups()[g].0,
{
    let gs = log.spec_groups();
    assert(gs[g].1 == source_positions(log.spec_messages(), gs[g].0));
    lemma_source_positions_ordered(log.spec_messages(), gs[g].0);
}

/// Parsing the same text twice gives equal messages.
pub proof fn lemma_parse_repeatable(first: &Log, second: &Log)
    requires
        first.wf(),
        second.wf(),
        first.spec_raw() == second.spec_raw(),
    ensures
        first.spec_messages() == second.spec_messages(),
{
}

} // verus!
