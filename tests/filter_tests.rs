use pufferwatch::ast::Level;
use pufferwatch::filters::{FiltersKey, FiltersListSource, FiltersListState, LogFilters};
use pufferwatch::log::Log;

fn sample() -> Log {
    let raw = "[00:00:01 INFO Zed] 1\n[00:00:02 WARN Alpha] 2\n[00:00:03 ERROR Zed] 3\n\
               [00:00:04 DEBUG Mid] 4\n";
    Log::parse(raw.to_string()).unwrap()
}

fn contents(filters: &LogFilters, log: &Log) -> Vec<String> {
    filters.apply(log).iter().map(|m| m.contents.clone()).collect()
}

#[test]
fn new_filters_show_everything() {
    let log = sample();
    let f = LogFilters::new(&log);
    assert_eq!(contents(&f, &log), vec!["1", "2", "3", "4"]);
    for level in Level::all() {
        assert!(f.level_enabled(level));
    }
}

#[test]
fn all_levels_off_show_nothing() {
    let log = sample();
    let mut f = LogFilters::new(&log);
    for i in 0..6 {
        f.toggle_level_at(i);
    }
    assert!(f.apply(&log).is_empty());
    f.toggle_source_at(0);
    assert!(f.apply(&log).is_empty());
}

#[test]
fn sources_are_listed_in_ascending_order() {
    let log = sample();
    let f = LogFilters::new(&log);
    assert_eq!(f.source_count(), 3);
    let mut g = LogFilters::new(&log);
    g.toggle_source_at(0);
    assert!(!g.source_enabled(&"Alpha".to_string()));
    assert!(g.source_enabled(&"Mid".to_string()));
    assert!(g.source_enabled(&"Zed".to_string()));
    g.toggle_source_at(2);
    assert!(!g.source_enabled(&"Zed".to_string()));
}

#[test]
fn disabling_a_level_or_source_hides_its_messages() {
    let log = sample();
    let mut f = LogFilters::new(&log);
    f.toggle_level_at(4); // Warn
    assert_eq!(contents(&f, &log), vec!["1", "3", "4"]);
    f.toggle_source_at(2); // Zed
    assert_eq!(contents(&f, &log), vec!["4"]);
}

#[test]
fn unknown_source_is_enabled() {
    let log = sample();
    let f = LogFilters::new(&log);
    assert!(f.source_enabled(&"Nobody".to_string()));
}

#[test]
fn reconciling_keeps_flags_and_enables_new_sources() {
    let log = sample();
    let mut f = LogFilters::new(&log);
    f.toggle_source_at(2); // Zed off
    f.toggle_level_at(1); // Debug off
    let next = Log::parse("[00:00:05 INFO Zed] a\n[00:00:06 INFO New] b\n[00:00:07 INFO Alpha] c\n".to_string())
        .unwrap();
    let g = f.with_log(&next);
    assert!(!g.source_enabled(&"Zed".to_string()));
    assert!(g.source_enabled(&"New".to_string()));
    assert!(g.source_enabled(&"Alpha".to_string()));
    assert!(!g.level_enabled(Level::Debug));
    assert_eq!(g.source_count(), 3);
    assert_eq!(contents(&g, &next), vec!["b", "c"]);
}

#[test]
fn filter_bar_moves_and_toggles() {
    let log = sample();
    let mut f = LogFilters::new(&log);
    let mut bar = FiltersListState::levels();
    assert_eq!(bar.source, FiltersListSource::Levels);
    assert!(bar.update(FiltersKey::Right));
    assert!(bar.update(FiltersKey::Right));
    assert_eq!(bar.selected, 2);
    bar.toggle(&mut f);
    assert!(!f.level_enabled(Level::Info));
    assert!(bar.update(FiltersKey::Left));
    assert_eq!(bar.selected, 1);
    let mut left = FiltersListState::sources();
    assert!(left.update(FiltersKey::Left));
    assert_eq!(left.selected, 0);
    left.selected = 7;
    left.toggle(&mut f);
    assert_eq!(contents(&f, &log), vec!["2", "3", "4"]);
}
