//! Which messages are shown: a flag per level and a flag per known source.

use vstd::prelude::*;
use itertools::Itertools;
use indexmap::IndexMap;
use crate::ast::{all_levels, lemma_all_levels_listed, Level, Message, MessageView};
use crate::log::{distinct_sources, lemma_distinct_sources_unique, lemma_message_source_listed, Log};
use crate::parse::message_views;

verus! {

/// `a` comes no later than `b` in lexicographic order of code points.
pub open spec fn lex_le(a: Seq<char>, b: Seq<char>) -> bool
    decreases a.len(),
{
    if a.len() == 0 {
        true
    } else if b.len() == 0 {
        false
    } else if (a[0] as u32) != (b[0] as u32) {
        (a[0] as u32) < (b[0] as u32)
    } else {
        lex_le(a.drop_first(), b.drop_first())
    }
}

/// The views of a sequence of strings.
pub open spec fn string_views(v: Seq<String>) -> Seq<Seq<char>> {
    v.map_values(|s: String| s@)
}

/// Relies on `Itertools::sorted` (itertools 0.10), which collects the items
/// and sorts them with std's `sort`: the result holds the same strings in
/// ascending order. `String` compares its UTF-8 bytes, which orders by code
/// point.
#[verifier::external_body]
fn sorted_strings(names: Vec<String>) -> (r: Vec<String>)
    ensures
        string_views(r@).to_multiset() == string_views(names@).to_multiset(),
        forall|i: int, j: int| 0 <= i < j < r@.len() ==> lex_le(r@[i]@, r@[j]@),
{
    names.into_iter().sorted().collect()
}

#[verifier::external_type_specification]
#[verifier::external_body]
#[verifier::reject_recursive_types(K)]
#[verifier::reject_recursive_types(V)]
#[verifier::reject_recursive_types(S)]
pub struct ExIndexMap<K, V, S>(IndexMap<K, V, S>);

/// The entries of a level-flag map, in insertion order.
pub uninterp spec fn level_entries(m: IndexMap<Level, bool>) -> Seq<(Level, bool)>;

/// The entries of a source-flag map, in insertion order.
pub uninterp spec fn source_entries(m: IndexMap<String, bool>) -> Seq<(Seq<char>, bool)>;

/// `entries` after an `IndexMap::insert` of `key` with `value`: an entry
/// with an equal key keeps its place and takes the value; otherwise the pair
/// goes last.
pub open spec fn inserted<K>(entries: Seq<(K, bool)>, key: K, value: bool) -> Seq<(K, bool)> {
    if exists|i: int| 0 <= i < entries.len() && entries[i].0 == key {
        let i = choose|i: int| 0 <= i < entries.len() && entries[i].0 == key;
        entries.update(i, (key, value))
    } else {
        entries.push((key, value))
    }
}

/// Relies on `IndexMap::new`: an empty map.
#[verifier::external_body]
fn new_level_map() -> (r: IndexMap<Level, bool>)
    ensures
        level_entries(r) == Seq::<(Level, bool)>::empty(),
{
    IndexMap::new()
}

/// Relies on `IndexMap::new`: an empty map.
#[verifier::external_body]
fn new_source_map() -> (r: IndexMap<String, bool>)
    ensures
        source_entries(r) == Seq::<(Seq<char>, bool)>::empty(),
{
    IndexMap::new()
}

/// Relies on `IndexMap::insert`: updates the value of an equal key in place,
/// or appends the pair.
#[verifier::external_body]
fn insert_level(m: &mut IndexMap<Level, bool>, key: Level, value: bool)
    ensures
        level_entries(*final(m)) == inserted(level_entries(*old(m)), key, value),
{
    m.insert(key, value);
}

/// Relies on `IndexMap::insert`: updates the value of an equal key in place,
/// or appends the pair.
#[verifier::external_body]
fn insert_source(m: &mut IndexMap<String, bool>, key: String, value: bool)
    ensures
        source_entries(*final(m)) == inserted(source_entries(*old(m)), key@, value),
{
    m.insert(key, value);
}

/// Relies on `IndexMap::get`: the value of the entry whose key equals `key`.
#[verifier::external_body]
fn get_level(m: &IndexMap<Level, bool>, key: &Level) -> (r: Option<bool>)
    ensures
        r == level_entry(level_entries(*m), *key),
{
    m.get(key).copied()
}

/// Relies on `IndexMap::get`: the value of the entry whose key equals `key`.
#[verifier::external_body]
fn get_source(m: &IndexMap<String, bool>, key: &String) -> (r: Option<bool>)
    ensures
        r == source_entry(source_entries(*m), key@),
{
    m.get(key).copied()
}

/// Relies on `IndexMap::get_index`: the entry at `index`, if there is one.
#[verifier::external_body]
fn level_at_index(m: &IndexMap<Level, bool>, index: usize) -> (r: Option<(Level, bool)>)
    ensures
        index < level_entries(*m).len() ==> r == Some(level_entries(*m)[index as int]),
        index >= level_entries(*m).len() ==> r is None,
{
    m.get_index(index).map(|(k, v)| (*k, *v))
}

/// Relies on `IndexMap::get_index`: the value at `index`, if there is one.
#[verifier::external_body]
fn source_at_index(m: &IndexMap<String, bool>, index: usize) -> (r: Option<bool>)
    ensures
        index < source_entries(*m).len() ==> r == Some(source_entries(*m)[index as int].1),
        index >= source_entries(*m).len() ==> r is None,
{
    m.get_index(index).map(|(_, v)| *v)
}

/// Relies on `IndexMut<usize>` of `IndexMap`: sets the value at `index`.
#[verifier::external_body]
fn set_level_at(m: &mut IndexMap<Level, bool>, index: usize, value: bool)
    requires
        index < level_entries(*old(m)).len(),
    ensures
        level_entries(*final(m)) == level_entries(*old(m)).update(
            index as int,
            (level_entries(*old(m))[index as int].0, value),
        ),
{
    m[index] = value;
}

/// Relies on `IndexMut<usize>` of `IndexMap`: sets the value at `index`.
#[verifier::external_body]
fn set_source_at(m: &mut IndexMap<String, bool>, index: usize, value: bool)
    requires
        index < source_entries(*old(m)).len(),
    ensures
        source_entries(*final(m)) == source_entries(*old(m)).update(
            index as int,
            (source_entries(*old(m))[index as int].0, value),
        ),
{
    m[index] = value;
}

/// Relies on `IndexMap::len`: the number of entries.
#[verifier::external_body]
fn source_len(m: &IndexMap<String, bool>) -> (r: usize)
    ensures
        r == source_entries(*m).len(),
{
    m.len()
}

/// The flag that `levels` lists first for `level`, if any.
pub open spec fn level_entry(levels: Seq<(Level, bool)>, level: Level) -> Option<bool>
    decreases levels.len(),
{
    if levels.len() == 0 {
        None
    } else if levels[0].0 == level {
        Some(levels[0].1)
    } else {
        level_entry(levels.drop_first(), level)
    }
}

/// The flag that `sources` lists first for `source`, if any.
pub open spec fn source_entry(sources: Seq<(Seq<char>, bool)>, source: Seq<char>) -> Option<
    bool,
>
    decreases sources.len(),
{
    if sources.len() == 0 {
        None
    } else if sources[0].0 == source {
        Some(sources[0].1)
    } else {
        source_entry(sources.drop_first(), source)
    }
}

/// Whether a level is shown: its flag, or shown where it has none.
pub open spec fn level_flag(levels: Seq<(Level, bool)>, level: Level) -> bool {
    match level_entry(levels, level) {
        Some(b) => b,
        None => true,
    }
}

/// Whether a source is shown: its flag, or shown where it has none.
pub open spec fn source_flag(sources: Seq<(Seq<char>, bool)>, source: Seq<char>) -> bool {
    match source_entry(sources, source) {
        Some(b) => b,
        None => true,
    }
}

/// The messages of `ms` that the flags show, in order.
pub open spec fn shown(
    levels: Seq<(Level, bool)>,
    sources: Seq<(Seq<char>, bool)>,
    ms: Seq<MessageView>,
) -> Seq<MessageView>
    decreases ms.len(),
{
    if ms.len() == 0 {
        seq![]
    } else {
        let prev = shown(levels, sources, ms.drop_last());
        if level_flag(levels, ms.last().1) && source_flag(sources, ms.last().2) {
            prev.push(ms.last())
        } else {
            prev
        }
    }
}

/// In a list whose names are unique, each name finds its own flag.
proof fn lemma_source_entry_at(sources: Seq<(Seq<char>, bool)>, i: int)
    requires
        0 <= i < sources.len(),
        forall|a: int, b: int| 0 <= a < b < sources.len() ==> sources[a].0 != sources[b].0,
    ensures
        source_entry(sources, sources[i].0) == Some(sources[i].1),
    decreases i,
{
    if i > 0 {
        let rest = sources.drop_first();
        assert(rest[i - 1] == sources[i]);
        assert forall|a: int, b: int| 0 <= a < b < rest.len() implies rest[a].0 != rest[b].0 by {
            assert(rest[a] == sources[a + 1] && rest[b] == sources[b + 1]);
        }
        lemma_source_entry_at(rest, i - 1);
    }
}

/// A name that is not listed has no flag.
proof fn lemma_source_entry_absent(sources: Seq<(Seq<char>, bool)>, source: Seq<char>)
    requires
        forall|i: int| 0 <= i < sources.len() ==> sources[i].0 != source,
    ensures
        source_entry(sources, source) is None,
    decreases sources.len(),
{
    if sources.len() > 0 {
        let rest = sources.drop_first();
        assert forall|i: int| 0 <= i < rest.len() implies rest[i].0 != source by {
            assert(rest[i] == sources[i + 1]);
        }
        lemma_source_entry_absent(rest, source);
    }
}

/// Where every entry carries flag `b`, a listed level finds `b`.
proof fn lemma_level_entry_uniform(levels: Seq<(Level, bool)>, level: Level, i: int, b: bool)
    requires
        0 <= i < levels.len(),
        levels[i].0 == level,
        forall|k: int| 0 <= k < levels.len() ==> (#[trigger] levels[k]).1 == b,
    ensures
        level_entry(levels, level) == Some(b),
    decreases i,
{
    if levels[0].0 != level {
        let rest = levels.drop_first();
        assert(rest[i - 1] == levels[i]);
        assert forall|k: int| 0 <= k < rest.len() implies (#[trigger] rest[k]).1 == b by {
            assert(rest[k] == levels[k + 1]);
        }
        lemma_level_entry_uniform(rest, level, i - 1, b);
    } else {
        assert(levels[0].1 == b);
    }
}

/// `flags` with the flag at `i` flipped; unchanged where `i` is past the end.
pub open spec fn flipped<K>(flags: Seq<(K, bool)>, i: int) -> Seq<(K, bool)> {
    if 0 <= i < flags.len() {
        flags.update(i, (flags[i].0, !flags[i].1))
    } else {
        flags
    }
}

/// The flags of a log view: one per level, one per known source.
#[derive(Debug)]
pub struct LogFilters {
    levels: IndexMap<Level, bool>,
    sources: IndexMap<String, bool>,
}

impl LogFilters {
    /// The level flags, in display order.
    pub closed spec fn spec_levels(&self) -> Seq<(Level, bool)> {
        level_entries(self.levels)
    }

    /// The source flags, in ascending order of name.
    pub closed spec fn spec_sources(&self) -> Seq<(Seq<char>, bool)> {
        source_entries(self.sources)
    }

    /// Every level has one flag, in display order; sources are listed once
    /// each, in ascending order.
    pub open spec fn wf(&self) -> bool {
        &&& self.spec_levels().len() == 6
        &&& forall|i: int| 0 <= i < 6 ==> (#[trigger] self.spec_levels()[i]).0 == all_levels()[i]
        &&& forall|i: int, j: int|
            #![trigger self.spec_sources()[i], self.spec_sources()[j]]
            0 <= i < j < self.spec_sources().len() ==> self.spec_sources()[i].0
                != self.spec_sources()[j].0 && lex_le(
                self.spec_sources()[i].0,
                self.spec_sources()[j].0,
            )
    }

    /// The messages of `ms` that these filters show, in order.
    pub open spec fn spec_apply(&self, ms: Seq<MessageView>) -> Seq<MessageView> {
        shown(self.spec_levels(), self.spec_sources(), ms)
    }

    /// Every level's flag, where all level flags equal `b`.
    pub proof fn lemma_levels_uniform(&self, level: Level, b: bool)
        requires
            self.wf(),
            forall|i: int| 0 <= i < 6 ==> (#[trigger] self.spec_levels()[i]).1 == b,
        ensures
            level_flag(self.spec_levels(), level) == b,
    {
        lemma_all_levels_listed(level);
        let i = choose|i: int| 0 <= i < 6 && all_levels()[i] == level;
        assert(self.spec_levels()[i].0 == level);
        lemma_level_entry_uniform(self.spec_levels(), level, i, b);
    }

    /// Filters for `log` that show everything: every level and every source
    /// of the log enabled.
    pub fn new(log: &Log) -> (r: LogFilters)
        requires
            log.wf(),
        ensures
            r.wf(),
            forall|i: int| 0 <= i < 6 ==> (#[trigger] r.spec_levels()[i]).1,
            forall|s: Seq<char>|
                distinct_sources(log.spec_messages()).contains(s) ==> source_entry(
                    r.spec_sources(),
                    s,
                ) == Some(true),
            forall|s: Seq<char>|
                !distinct_sources(log.spec_messages()).contains(s) ==> source_entry(
                    r.spec_sources(),
                    s,
                ) is None,
    {
        let all = Level::all();
        let mut levels = new_level_map();
        let mut i: usize = 0;
        while i < all.len()
            invariant
                i <= all@.len(),
                all@ == all_levels(),
                level_entries(levels).len() == i,
                forall|k: int| 0 <= k < i ==> (#[trigger] level_entries(levels)[k]) == (all@[k], true),
            decreases all@.len() - i,
        {
            let ghost before = level_entries(levels);
            assert(!(exists|k: int| 0 <= k < before.len() && before[k].0 == all@[i as int])) by {
                assert forall|k: int| 0 <= k < before.len() implies before[k].0 != all@[i as int] by {
                    assert(before[k] == (all@[k], true));
                }
            }
            insert_level(&mut levels, all[i], true);
            assert(level_entries(levels) == before.push((all@[i as int], true)));
            i = i + 1;
        }
        let start = LogFilters { levels, sources: new_source_map() };
        start.with_log(log)
    }

    /// Filters for `new_log` that keep these level flags and, for each source
    /// of `new_log`, the flag it has here; a source not seen before is
    /// enabled. Sources are listed in ascending order of name.
    pub fn with_log(&self, new_log: &Log) -> (r: LogFilters)
        requires
            self.wf(),
            new_log.wf(),
        ensures
            r.wf(),
            r.spec_levels() == self.spec_levels(),
            forall|s: Seq<char>|
                distinct_sources(new_log.spec_messages()).contains(s) ==> source_entry(
                    r.spec_sources(),
                    s,
                ) == Some(source_flag(self.spec_sources(), s)),
            forall|s: Seq<char>|
                !distinct_sources(new_log.spec_messages()).contains(s) ==> source_entry(
                    r.spec_sources(),
                    s,
                ) is None,
    {
        let listed = new_log.sources();
        let names = sorted_strings(listed);
        let ghost nv = string_views(names@);
        let ghost dv = distinct_sources(new_log.spec_messages());
        proof {
            lemma_distinct_sources_unique(new_log.spec_messages());
            dv.lemma_multiset_has_no_duplicates();
            nv.to_multiset_ensures();
            dv.to_multiset_ensures();
            assert(string_views(listed@) == dv);
            assert(nv.to_multiset() == dv.to_multiset());
            nv.lemma_multiset_has_no_duplicates_conv();
        }
        let mut sources = new_source_map();
        let mut k: usize = 0;
        while k < names.len()
            invariant
                k <= names@.len(),
                nv == string_views(names@),
                nv.no_duplicates(),
                source_entries(sources).len() == k,
                forall|i: int|
                    0 <= i < k ==> (#[trigger] source_entries(sources)[i]) == (
                        nv[i],
                        source_flag(self.spec_sources(), nv[i]),
                    ),
            decreases names@.len() - k,
        {
            let flag = self.source_enabled(&names[k]);
            let ghost before = source_entries(sources);
            assert(names@[k as int]@ == nv[k as int]);
            assert(!(exists|i: int| 0 <= i < before.len() && before[i].0 == nv[k as int])) by {
                assert forall|i: int| 0 <= i < before.len() implies before[i].0 != nv[k as int] by {
                    assert(before[i].0 == nv[i]);
                }
            }
            insert_source(&mut sources, names[k].clone(), flag);
            assert(source_entries(sources) == before.push((nv[k as int], flag)));
            k = k + 1;
        }
        let mut levels = new_level_map();
        let mut i: usize = 0;
        while i < 6
            invariant
                i <= 6,
                self.wf(),
                level_entries(levels) == self.spec_levels().take(i as int),
            decreases 6 - i,
        {
            let ghost before = level_entries(levels);
            match level_at_index(&self.levels, i) {
                Some((level, flag)) => {
                    assert(!(exists|k: int| 0 <= k < before.len() && before[k].0 == level)) by {
                        assert forall|k: int| 0 <= k < before.len() implies before[k].0 != level by {
                            assert(before[k].0 == all_levels()[k]);
                            assert(self.spec_levels()[i as int].0 == all_levels()[i as int]);
                        }
                    }
                    insert_level(&mut levels, level, flag);
                },
                None => {},
            }
            assert(self.spec_levels().take(i + 1) == before.push(self.spec_levels()[i as int]));
            i = i + 1;
        }
        assert(self.spec_levels().take(6) == self.spec_levels());
        let r = LogFilters { levels, sources };
        let ghost rs = r.spec_sources();
        assert forall|i: int| 0 <= i < rs.len() implies rs[i].0 == nv[i] && rs[i].1 == source_flag(
            self.spec_sources(),
            nv[i],
        ) by {
            assert(rs[i] == source_entries(sources)[i]);
        }
        assert forall|a: int, b: int| 0 <= a < b < rs.len() implies rs[a].0 != rs[b].0 by {
            assert(nv.no_duplicates());
        }
        assert forall|s: Seq<char>| dv.contains(s) implies source_entry(rs, s) == Some(
            source_flag(self.spec_sources(), s),
        ) by {
            assert(dv.to_multiset().count(s) > 0);
            assert(nv.to_multiset().count(s) > 0);
            assert(nv.contains(s));
            let i = choose|i: int| 0 <= i < nv.len() && nv[i] == s;
            lemma_source_entry_at(rs, i);
        }
        assert forall|s: Seq<char>| !dv.contains(s) implies source_entry(rs, s) is None by {
            assert(dv.to_multiset().count(s) == 0);
            assert(nv.to_multiset().count(s) == 0);
            assert(!nv.contains(s));
            assert forall|i: int| 0 <= i < rs.len() implies rs[i].0 != s by {
                assert(nv[i] == rs[i].0);
            }
            lemma_source_entry_absent(rs, s);
        }
        r
    }

    /// The flags with the level flag at `index` flipped; unchanged where
    /// `index` is past the end.
    pub fn toggle_level_at(&mut self, index: usize)
        requires
            old(self).wf(),
        ensures
            final(self).wf(),
            final(self).spec_sources() == old(self).spec_sources(),
            final(self).spec_levels() == flipped(old(self).spec_levels(), index as int),
    {
        match level_at_index(&self.levels, index) {
            Some((_, enabled)) => set_level_at(&mut self.levels, index, !enabled),
            None => {},
        }
        assert(self.spec_levels().len() == 6);
        assert forall|i: int| 0 <= i < 6 implies (#[trigger] self.spec_levels()[i]).0
            == all_levels()[i] by {
            assert(old(self).spec_levels()[i].0 == all_levels()[i]);
        }
        assert(self.spec_sources() == old(self).spec_sources());
    }

    /// The flags with the source flag at `index` flipped; unchanged where
    /// `index` is past the end.
    pub fn toggle_source_at(&mut self, index: usize)
        requires
            old(self).wf(),
        ensures
            final(self).wf(),
            final(self).spec_levels() == old(self).spec_levels(),
            final(self).spec_sources() == flipped(old(self).spec_sources(), index as int),
    {
        match source_at_index(&self.sources, index) {
            Some(enabled) => set_source_at(&mut self.sources, index, !enabled),
            None => {},
        }
        let ghost os = old(self).spec_sources();
        assert(self.spec_sources().len() == os.len());
        assert(self.spec_levels() == old(self).spec_levels());
        assert forall|i: int, j: int| 0 <= i < j < self.spec_sources().len() implies self.spec_sources()[i].0
            != self.spec_sources()[j].0 && lex_le(self.spec_sources()[i].0, self.spec_sources()[j].0) by {
            assert(self.spec_sources()[i].0 == os[i].0 && self.spec_sources()[j].0 == os[j].0);
            assert(os[i].0 != os[j].0 && lex_le(os[i].0, os[j].0));
        }
    }

    /// The number of source flags.
    pub fn source_count(&self) -> (r: usize)
        ensures
            r == self.spec_sources().len(),
    {
        source_len(&self.sources)
    }

    /// Whether messages of `level` are shown.
    pub fn level_enabled(&self, level: Level) -> (r: bool)
        ensures
            r == level_flag(self.spec_levels(), level),
    {
        match get_level(&self.levels, &level) {
            Some(b) => b,
            None => true,
        }
    }

    /// Whether messages from `source` are shown.
    pub fn source_enabled(&self, source: &String) -> (r: bool)
        ensures
            r == source_flag(self.spec_sources(), source@),
    {
        match get_source(&self.sources, source) {
            Some(b) => b,
            None => true,
        }
    }

    /// The messages of `log` that these filters show, in document order.
    pub fn apply<'a>(&self, log: &'a Log) -> (r: Vec<&'a Message>)
        ensures
            r@.map_values(|m: &Message| m@) == self.spec_apply(log.spec_messages()),
    {
        let ms = log.messages();
        let mut out: Vec<&'a Message> = Vec::new();
        let mut i: usize = 0;
        while i < ms.len()
            invariant
                i <= ms@.len(),
                message_views(ms@) == log.spec_messages(),
                out@.map_values(|m: &Message| m@) == self.spec_apply(message_views(ms@.take(i as int))),
            decreases ms@.len() - i,
        {
            let m = &ms[i];
            assert(message_views(ms@.take(i + 1)).drop_last() == message_views(ms@.take(i as int)));
            assert(message_views(ms@.take(i + 1)).last() == m@);
            if self.level_enabled(m.level) && self.source_enabled(&m.source) {
                out.push(m);
                assert(out@.map_values(|m: &Message| m@) == out@.drop_last().map_values(
                    |m: &Message| m@,
                ).push(m@));
            }
            i = i + 1;
        }
        assert(ms@.take(ms@.len() as int) == ms@);
        out
    }
}

/// With every level disabled nothing is shown, whatever the source flags.
pub proof fn lemma_levels_off_show_nothing(f: &LogFilters, ms: Seq<MessageView>)
    requires
        f.wf(),
        forall|i: int| 0 <= i < 6 ==> !(#[trigger] f.spec_levels()[i]).1,
    ensures
        f.spec_apply(ms) == Seq::<MessageView>::empty(),
    decreases ms.len(),
{
    if ms.len() > 0 {
        lemma_levels_off_show_nothing(f, ms.drop_last());
        f.lemma_levels_uniform(ms.last().1, false);
    }
}

/// With every level enabled and every source that `ms` holds enabled, every
/// message is shown.
pub proof fn lemma_all_on_show_all(f: &LogFilters, ms: Seq<MessageView>)
    requires
        f.wf(),
        forall|i: int| 0 <= i < 6 ==> (#[trigger] f.spec_levels()[i]).1,
        forall|s: Seq<char>|
            distinct_sources(ms).contains(s) ==> #[trigger] source_flag(f.spec_sources(), s),
    ensures
        f.spec_apply(ms) == ms,
{
    assert forall|j: int| 0 <= j < ms.len() implies #[trigger] source_flag(
        f.spec_sources(),
        ms[j].2,
    ) by {
        lemma_message_source_listed(ms, j);
    }
    lemma_all_on_prefix(f, ms);
}

proof fn lemma_all_on_prefix(f: &LogFilters, ms: Seq<MessageView>)
    requires
        f.wf(),
        forall|i: int| 0 <= i < 6 ==> (#[trigger] f.spec_levels()[i]).1,
        forall|j: int| 0 <= j < ms.len() ==> #[trigger] source_flag(f.spec_sources(), ms[j].2),
    ensures
        f.spec_apply(ms) == ms,
    decreases ms.len(),
{
    if ms.len() > 0 {
        let prev = ms.drop_last();
        assert forall|j: int| 0 <= j < prev.len() implies #[trigger] source_flag(
            f.spec_sources(),
            prev[j].2,
        ) by {
            assert(prev[j] == ms[j]);
        }
        lemma_all_on_prefix(f, prev);
        f.lemma_levels_uniform(ms.last().1, true);
        assert(source_flag(f.spec_sources(), ms[ms.len() - 1].2));
        assert(prev.push(ms.last()) == ms);
    }
}

/// Which list of flags the filter bar shows.
#[derive(Clone, Copy, PartialEq, Eq, Debug, Hash, Structural)]
pub enum FiltersListSource {
    Levels,
    Sources,
}

/// A key that the filter bar reacts to.
#[derive(Clone, Copy, PartialEq, Eq, Debug, Hash, Structural)]
pub enum FiltersKey {
    Left,
    Right,
}

/// The filter bar: which list it shows and which entry is selected.
#[derive(Clone, Copy, PartialEq, Eq, Debug, Hash, Structural)]
pub struct FiltersListState {
    pub selected: usize,
    pub source: FiltersListSource,
}

impl FiltersListState {
    /// The bar over the level flags, first entry selected.
    pub fn levels() -> (r: FiltersListState)
        ensures
            r.selected == 0,
            r.source == FiltersListSource::Levels,
    {
        FiltersListState { selected: 0, source: FiltersListSource::Levels }
    }

    /// The bar over the source flags, first entry selected.
    pub fn sources() -> (r: FiltersListState)
        ensures
            r.selected == 0,
            r.source == FiltersListSource::Sources,
    {
        FiltersListState { selected: 0, source: FiltersListSource::Sources }
    }

    /// Flips the selected flag of the list the bar shows; nothing changes
    /// where the selection is past the end of that list.
    pub fn toggle(&self, filters: &mut LogFilters)
        requires
            old(filters).wf(),
        ensures
            final(filters).wf(),
            self.source == FiltersListSource::Levels ==> final(filters).spec_sources() == old(filters).spec_sources() && final(filters).spec_levels() == flipped(
                old(filters).spec_levels(),
                self.selected as int,
            ),
            self.source == FiltersListSource::Sources ==> final(filters).spec_levels() == old(filters).spec_levels() && final(filters).spec_sources() == flipped(
                old(filters).spec_sources(),
                self.selected as int,
            ),
    {
        match self.source {
            FiltersListSource::Levels => filters.toggle_level_at(self.selected),
            FiltersListSource::Sources => filters.toggle_source_at(self.selected),
        }
    }

    /// Moves the selection; returns whether the key was handled.
    pub fn update(&mut self, key: FiltersKey) -> (r: bool)
        ensures
            r,
            final(self).source == old(self).source,
            key == FiltersKey::Left ==> final(self).selected == if old(self).selected > 0 {
                (old(self).selected - 1) as usize
            } else {
                0
            },
            key == FiltersKey::Right ==> final(self).selected == if old(self).selected
                < usize::MAX {
                (old(self).selected + 1) as usize
            } else {
                usize::MAX
            },
    {
        match key {
            FiltersKey::Left => {
                self.selected = self.selected.saturating_sub(1);
            },
            FiltersKey::Right => {
                self.selected = self.selected.saturating_add(1);
            },
        }
        true
    }
}

} // verus!
