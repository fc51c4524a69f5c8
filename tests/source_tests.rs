use pufferwatch::log::Log;
use pufferwatch::parse::ParseError;
use pufferwatch::source::{
    apply_follow, follow_action, follow_poll, next_log, FileUpdate, FollowAction, LogError, LogSource,
    StaticLogSource, StreamBuffer,
};

#[test]
fn removed_before_updated_resets_to_empty() {
    let action = follow_action(&vec![FileUpdate::Removed]);
    assert_eq!(action, FollowAction::Reset);
    assert!(!action.needs_read());
    let log = apply_follow(action, None).unwrap();
    assert_eq!(log.raw(), "");
    assert!(log.messages().is_empty());
}

#[test]
fn last_event_wins() {
    assert_eq!(follow_action(&vec![]), FollowAction::Keep);
    assert_eq!(follow_action(&vec![FileUpdate::Removed, FileUpdate::Updated]), FollowAction::Reload);
    assert_eq!(follow_action(&vec![FileUpdate::Updated, FileUpdate::Removed]), FollowAction::Reset);
    assert!(FollowAction::Reload.needs_read());
}

#[test]
fn unreadable_file_keeps_previous_log() {
    assert!(apply_follow(FollowAction::Reload, None).is_none());
    assert!(apply_follow(FollowAction::Reload, Some("garbage\n".to_string())).is_none());
    assert!(apply_follow(FollowAction::Keep, Some("[00:00:00 INFO A] x\n".to_string())).is_none());
}

#[test]
fn reload_parses_the_new_contents() {
    let log = apply_follow(FollowAction::Reload, Some("[00:00:00 INFO A] x\n".to_string())).unwrap();
    assert_eq!(log.messages().len(), 1);
    assert_eq!(log.raw(), "[00:00:00 INFO A] x\n");
}

#[test]
fn stream_split_header_waits_for_the_rest() {
    let mut buffer = StreamBuffer::new();
    let log = Log::empty();
    assert!(buffer.absorb(&log, &vec!["[00:0".to_string()]).is_none());
    assert_eq!(buffer.unparsed(), "[00:0");
    let next = buffer.absorb(&log, &vec!["1:02 INFO X] hi\n".to_string()]).unwrap();
    assert_eq!(next.messages().len(), 1);
    assert_eq!(next.messages()[0].source, "X");
    assert_eq!(next.messages()[0].contents, "hi");
    assert_eq!(buffer.unparsed(), "");
}

#[test]
fn stream_without_lines_changes_nothing() {
    let mut buffer = StreamBuffer::new();
    assert!(buffer.absorb(&Log::empty(), &vec![]).is_none());
    assert_eq!(buffer.unparsed(), "");
}

#[test]
fn stream_appends_to_previous_text() {
    let mut buffer = StreamBuffer::new();
    let first = buffer
        .absorb(&Log::empty(), &vec!["[00:00:01 INFO A] a\n".to_string(), "more\n".to_string()])
        .unwrap();
    let second = buffer.absorb(&first, &vec!["[00:00:02 WARN B] b\n".to_string()]).unwrap();
    assert_eq!(second.raw(), "[00:00:01 INFO A] a\nmore\n[00:00:02 WARN B] b\n");
    assert_eq!(second.messages().len(), 2);
    assert_eq!(second.messages()[0].contents, "a\nmore");
}

#[test]
fn static_source_never_changes() {
    let (mut source, log) = StaticLogSource::from_string("[00:00:00 INFO A] x\n".to_string()).unwrap();
    assert_eq!(log.messages().len(), 1);
    assert!(source.update_log(&log).unwrap().is_none());
    assert!(source.poll(&log).unwrap().is_none());
    assert_eq!(
        StaticLogSource::from_string("bad\n".to_string()).unwrap_err(),
        ParseError::NoMessageToContinue
    );
}

#[test]
fn poll_error_keeps_current_log() {
    let current = Log::parse("[00:00:00 INFO A] x\n".to_string()).unwrap();
    let (kept, err) = next_log(current, Err(LogError::Io("gone".to_string())));
    assert_eq!(kept.messages().len(), 1);
    assert_eq!(err, Some(LogError::Io("gone".to_string())));
    let (kept, err) = next_log(kept, Ok(None));
    assert_eq!(kept.raw(), "[00:00:00 INFO A] x\n");
    assert!(err.is_none());
    let (replaced, err) = next_log(kept, Ok(Some(Log::empty())));
    assert_eq!(replaced.raw(), "");
    assert!(err.is_none());
    let other = LogError::Parse(ParseError::NoMessageToContinue);
    let (_, err) = next_log(replaced, Err(other.clone()));
    assert_eq!(err, Some(other));
    assert_ne!(LogError::Watch("w".to_string()), LogError::Network("w".to_string()));
}

#[test]
fn follow_poll_resets_reloads_or_keeps() {
    let reset = follow_poll(&vec![FileUpdate::Removed], None).unwrap();
    assert_eq!(reset.raw(), "");
    assert!(reset.messages().is_empty());
    assert!(reset.sources().is_empty());
    assert!(follow_poll(&vec![FileUpdate::Updated], None).is_none());
    assert!(follow_poll(&vec![FileUpdate::Removed, FileUpdate::Updated], Some("x\n".to_string())).is_none());
    assert!(follow_poll(&vec![], Some("[00:00:00 INFO A] x\n".to_string())).is_none());
    let reloaded = follow_poll(&vec![FileUpdate::Updated], Some("[00:00:00 INFO A] x\n".to_string())).unwrap();
    assert_eq!(reloaded.messages().len(), 1);
}
