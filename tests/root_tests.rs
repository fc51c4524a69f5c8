use pufferwatch::config::{MonitorCommand, StdinCommand};
use pufferwatch::log::Log;
use pufferwatch::root::{RootKey, RootState, SelectedTab, SelectedWidget};

fn sample() -> Log {
    Log::parse("[00:00:01 INFO A] x\n[00:00:02 WARN B] y\n".to_string()).unwrap()
}

#[test]
fn tabs_and_focus() {
    let log = sample();
    let mut root = RootState::new(&log, true);
    assert_eq!(root.selected_tab(), SelectedTab::FormattedLog);
    assert!(root.update(RootKey::Tab));
    assert_eq!(root.selected_tab(), SelectedTab::RawLog);
    assert!(root.update(RootKey::BackTab));
    assert_eq!(root.selected_tab(), SelectedTab::FormattedLog);
    assert!(root.update(RootKey::Char('i')));
    assert_eq!(root.selected_widget(), SelectedWidget::CommandInput);
    assert!(!root.update(RootKey::Tab));
    assert!(root.update(RootKey::Char('s')));
    assert!(root.update(RootKey::Enter));
    assert_eq!(root.take_commands(), vec!["s".to_string()]);
    assert!(root.update(RootKey::Esc));
    assert_eq!(root.selected_widget(), SelectedWidget::Log);
}

#[test]
fn keys_reach_the_formatted_view() {
    let log = sample();
    let mut root = RootState::new(&log, false);
    assert!(root.update(RootKey::Char('f')));
    assert!(root.update(RootKey::Char(' '))); // Trace off: nothing hidden
    assert_eq!(root.formatted().lines().len(), 2);
    assert!(root.update(RootKey::Right));
    assert!(root.update(RootKey::Right));
    assert!(root.update(RootKey::Char(' '))); // Info off
    assert_eq!(root.formatted().lines().len(), 1);
    assert!(root.update(RootKey::Esc));
    assert!(!root.update(RootKey::Char('z')));
    assert!(root.take_commands().is_empty());
    assert!(root.command_input().is_none());
}

#[test]
fn new_log_keeps_view_settings() {
    let log = sample();
    let mut root = RootState::new(&log, false);
    assert!(root.update(RootKey::Char('f')));
    assert!(root.update(RootKey::Char('f'))); // sources
    assert!(root.update(RootKey::Char(' '))); // A off
    let next = Log::parse("[00:00:03 INFO A] z\n[00:00:04 INFO C] w\n".to_string()).unwrap();
    let root = root.with_log(&next);
    assert!(!root.formatted().filters().source_enabled(&"A".to_string()));
    assert!(root.formatted().filters().source_enabled(&"C".to_string()));
    assert_eq!(root.formatted().lines().len(), 1);
    assert_eq!(root.raw().line(1), Some("[00:00:04 INFO C] w".to_string()));
}

#[test]
fn raw_tab_scrolls() {
    let log = sample();
    let mut root = RootState::new(&log, false);
    assert!(root.update(RootKey::Tab));
    assert!(root.update(RootKey::Down));
    assert_eq!(root.raw().paragraph_state().offset.y, 1);
    assert!(!root.update(RootKey::Char('f')));
}

#[test]
fn command_types_are_plain_values() {
    let m = MonitorCommand { log: Some("SMAPI-latest.txt".to_string()), follow: true };
    assert_eq!(m.clone(), m);
    assert_eq!(StdinCommand, StdinCommand);
}
