use pufferwatch::ast::{Level, Timestamp};
use pufferwatch::command_input::{CommandInputState, EditKey};
use pufferwatch::encoding::{create_encoded_writer, ByteOrder, CommandEncoding, EncodedWriter};
use pufferwatch::log::Log;
use pufferwatch::scroll::{LazyParagraphState, Offset, ScrollKey};
use pufferwatch::views::{lines_of_text, FormattedLogState, RawLogState, ViewKey};

#[test]
fn scrolling_saturates() {
    let mut p = LazyParagraphState::new(5);
    assert_eq!(p.offset, Offset { x: 0, y: 0 });
    p.scroll_down(3);
    assert_eq!(p.offset.y, 3);
    p.scroll_down(10);
    assert_eq!(p.offset.y, 4);
    p.scroll_up(10);
    assert_eq!(p.offset.y, 0);
    p.scroll_right(2);
    p.scroll_left(5);
    assert_eq!(p.offset.x, 0);
    p.scroll_to_bottom();
    assert_eq!(p.offset.y, 4);
    p.scroll_to_top();
    assert_eq!(p.offset.y, 0);
    let mut q = LazyParagraphState::new(0);
    q.scroll_to_bottom();
    assert_eq!(q.offset.y, 0);
    q.offset.x = usize::MAX;
    q.scroll_right(1);
    assert_eq!(q.offset.x, usize::MAX);
}

#[test]
fn scroll_keys() {
    let mut p = LazyParagraphState::new(30);
    assert!(p.update(ScrollKey::PageDown));
    assert_eq!(p.offset.y, 10);
    assert!(p.update(ScrollKey::Up));
    assert_eq!(p.offset.y, 9);
    assert!(p.update(ScrollKey::End));
    assert_eq!(p.offset.y, 29);
    assert!(p.update(ScrollKey::Home));
    assert_eq!(p.offset.y, 0);
}

#[test]
fn command_editing() {
    let mut s = CommandInputState::new();
    for c in "help".chars() {
        assert!(s.update(EditKey::Char(c)));
    }
    assert_eq!(s.text(), "help");
    assert!(s.update(EditKey::Left));
    assert!(s.update(EditKey::Left));
    assert_eq!(s.before_cursor(), "he");
    assert_eq!(s.at_cursor(), Some('l'));
    assert_eq!(s.after_cursor(), "p");
    assert!(s.update(EditKey::Backspace));
    assert_eq!(s.text(), "hlp");
    assert!(s.update(EditKey::Insert));
    assert!(s.update(EditKey::Char('x')));
    assert_eq!(s.text(), "hxp");
    assert!(s.update(EditKey::Delete));
    assert_eq!(s.text(), "hx");
    assert!(!s.update(EditKey::Delete));
    assert!(!s.update(EditKey::Right));
    assert!(s.update(EditKey::Home));
    assert!(!s.update(EditKey::Backspace));
    assert!(!s.update(EditKey::Left));
    assert!(s.update(EditKey::End));
    assert_eq!(s.at_cursor(), None);
    assert!(s.update(EditKey::Enter));
    assert_eq!(s.text(), "");
    assert_eq!(s.take_submitted(), vec!["hx".to_string()]);
    assert!(s.take_submitted().is_empty());
}

#[test]
fn raw_view_uses_str_lines() {
    assert_eq!(lines_of_text("a\r\nb\n\nc\r"), vec!["a", "b", "", "c\r"]);
    assert!(lines_of_text("").is_empty());
    let log = Log::parse("[00:00:00 INFO A] x\r\ny\n".to_string()).unwrap();
    let raw = RawLogState::new(&log);
    assert_eq!(raw.line(0), Some("[00:00:00 INFO A] x".to_string()));
    assert_eq!(raw.line(1), Some("y".to_string()));
    assert_eq!(raw.line(2), None);
    assert_eq!(raw.paragraph_state().lines, 2);
}

#[test]
fn formatted_view_lays_out_lines() {
    let log = Log::parse("[00:00:01 INFO Longer] a\nb\n[00:00:02 WARN S] c\n".to_string()).unwrap();
    let mut view = FormattedLogState::new(&log);
    assert_eq!(view.source_width(), 6);
    let lines = view.lines();
    assert_eq!(lines.len(), 3);
    assert!(lines[0].first && !lines[1].first && lines[2].first);
    assert_eq!(lines[1].line, "b");
    assert_eq!(lines[2].level, Level::Warn);
    assert!(view.update(ViewKey::Filters));
    assert!(view.update(ViewKey::Right));
    assert!(view.update(ViewKey::Right));
    assert!(view.update(ViewKey::Toggle)); // Info off
    assert_eq!(view.lines().len(), 1);
    assert_eq!(view.source_width(), 1);
    assert!(view.update(ViewKey::Close));
    assert!(!view.update(ViewKey::Close));
    assert!(view.update(ViewKey::Down));
}

#[test]
fn display_text() {
    assert_eq!(Timestamp { hour: 1, minute: 2, second: 30 }.text(), "01:02:30");
    assert_eq!(Timestamp { hour: 255, minute: 0, second: 9 }.text(), "255:00:09");
    assert_eq!(Level::Alert.name(), "ALERT");
    assert_eq!(Level::Warn.name(), "WARN");
}

#[test]
fn encodings() {
    let w = EncodedWriter::utf16(Vec::<u8>::new(), ByteOrder::BigEndian);
    assert_eq!(w.encode("A€😀"), vec![0x00, 0x41, 0x20, 0xAC, 0xD8, 0x3D, 0xDE, 0x00]);
    let le = EncodedWriter::utf16(Vec::<u8>::new(), ByteOrder::LittleEndian);
    assert_eq!(le.encode("A"), vec![0x41, 0x00]);
    let u = EncodedWriter::utf8(Vec::<u8>::new());
    assert_eq!(u.encode("é"), vec![0xC3, 0xA9]);
}

#[test]
fn writer_sends_encoded_bytes() {
    let mut w = create_encoded_writer(Vec::<u8>::new(), CommandEncoding::Utf16Le);
    w.write_all("hi").unwrap();
    w.flush().unwrap();
    match w {
        EncodedWriter::Utf16 { writer, byte_order } => {
            assert_eq!(byte_order, ByteOrder::LittleEndian);
            assert_eq!(writer, vec![b'h', 0, b'i', 0]);
        }
        EncodedWriter::Utf8 { .. } => panic!("expected UTF-16"),
    }
    let mut u = create_encoded_writer(Vec::<u8>::new(), CommandEncoding::Utf8);
    u.write_all("ok").unwrap();
    match u {
        EncodedWriter::Utf8 { writer } => assert_eq!(writer, b"ok".to_vec()),
        EncodedWriter::Utf16 { .. } => panic!("expected UTF-8"),
    }
}

#[test]
fn new_formatted_view_enables_everything() {
    let log = Log::parse("[00:00:01 TRACE B] \n[00:00:02 INFO A] x\n".to_string()).unwrap();
    let view = FormattedLogState::new(&log);
    for level in Level::all() {
        assert!(view.filters().level_enabled(level));
    }
    assert_eq!(view.filters().source_count(), 2);
    assert!(view.filters().source_enabled(&"A".to_string()));
    assert!(view.filters().source_enabled(&"B".to_string()));
    assert!(view.filters_list_state().is_none());
}

#[test]
fn filter_bar_keys_leave_lines_alone() {
    let log = Log::parse("[00:00:01 INFO A] x\ny\n".to_string()).unwrap();
    let mut view = FormattedLogState::new(&log);
    assert!(view.update(ViewKey::Filters));
    assert!(view.update(ViewKey::Filters));
    assert_eq!(view.lines().len(), 2);
    assert!(view.update(ViewKey::Close));
    assert_eq!(view.lines().len(), 2);
}

#[test]
fn flush_keeps_the_encoding() {
    let mut w = EncodedWriter::utf16(Vec::<u8>::new(), ByteOrder::BigEndian);
    w.flush().unwrap();
    assert!(matches!(w, EncodedWriter::Utf16 { byte_order: ByteOrder::BigEndian, .. }));
}
