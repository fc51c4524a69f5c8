use pufferwatch::log::Log;
use pufferwatch::parse::ParseError;

#[test]
fn empty_log_has_nothing() {
    let log = Log::empty();
    assert_eq!(log.raw(), "");
    assert!(log.messages().is_empty());
    assert!(log.sources().is_empty());
}

#[test]
fn log_keeps_raw_text_and_messages() {
    let raw = "[00:00:01 INFO A] x\n[00:00:02 INFO B] y\n".to_string();
    let log = Log::parse(raw.clone()).unwrap();
    assert_eq!(log.raw(), raw);
    assert_eq!(log.messages().len(), 2);
}

#[test]
fn log_parse_error() {
    assert_eq!(Log::parse("nope\n".to_string()).unwrap_err(), ParseError::NoMessageToContinue);
}

#[test]
fn sources_are_distinct_in_first_seen_order() {
    let raw = "[00:00:01 INFO B] 1\n[00:00:02 INFO A] 2\n[00:00:03 INFO B] 3\n";
    let log = Log::parse(raw.to_string()).unwrap();
    assert_eq!(log.sources(), vec!["B".to_string(), "A".to_string()]);
}

#[test]
fn source_groups_keep_document_order() {
    let raw = "[00:00:01 INFO B] 1\n[00:00:02 INFO A] 2\n[00:00:03 INFO B] 3\n\
               more\n[00:00:04 INFO A] 4\n[00:00:05 INFO B] 5\n";
    let log = Log::parse(raw.to_string()).unwrap();
    assert_eq!(log.positions_of(&"B".to_string()), vec![0, 2, 4]);
    assert_eq!(log.positions_of(&"A".to_string()), vec![1, 3]);
    assert!(log.positions_of(&"C".to_string()).is_empty());
}
