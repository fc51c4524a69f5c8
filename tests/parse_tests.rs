use pufferwatch::ast::{Level, Message, Timestamp};
use pufferwatch::parse::{parse, ParseError};

fn ts(hour: u8, minute: u8, second: u8) -> Timestamp {
    Timestamp { hour, minute, second }
}

fn check(m: &Message, t: Timestamp, level: Level, source: &str, contents: &str) {
    assert_eq!(m.timestamp, t);
    assert_eq!(m.level, level);
    assert_eq!(m.source, source);
    assert_eq!(m.contents, contents);
}

#[test]
fn two_messages_with_a_continuation() {
    let text = "[00:01:02 INFO SMAPI] Loaded\n[00:01:03 ERROR Mod.A] Boom\ndetails\n";
    let ms = parse(text).unwrap();
    assert_eq!(ms.len(), 2);
    check(&ms[0], ts(0, 1, 2), Level::Info, "SMAPI", "Loaded");
    check(&ms[1], ts(0, 1, 3), Level::Error, "Mod.A", "Boom\ndetails");
}

#[test]
fn header_lines_parse_in_order() {
    let text = "[10:00:00 TRACE a] one\n[10:00:01 DEBUG b] two\n[10:00:02 WARN c] three\n";
    let ms = parse(text).unwrap();
    assert_eq!(ms.len(), 3);
    check(&ms[0], ts(10, 0, 0), Level::Trace, "a", "one");
    check(&ms[1], ts(10, 0, 1), Level::Debug, "b", "two");
    check(&ms[2], ts(10, 0, 2), Level::Warn, "c", "three");
}

#[test]
fn leading_continuation_fails() {
    let text = "stray line\n[00:00:00 INFO A] x\n";
    assert_eq!(parse(text).unwrap_err(), ParseError::NoMessageToContinue);
}

#[test]
fn empty_first_line_fails() {
    assert_eq!(parse("\n[00:00:00 INFO A] x\n").unwrap_err(), ParseError::NoMessageToContinue);
}

#[test]
fn continuations_join_with_newlines() {
    let text = "[01:02:03 ALERT Src] first\nsecond\n\nfourth\n[01:02:04 INFO Src] next\n";
    let ms = parse(text).unwrap();
    assert_eq!(ms.len(), 2);
    check(&ms[0], ts(1, 2, 3), Level::Alert, "Src", "first\nsecond\n\nfourth");
    check(&ms[1], ts(1, 2, 4), Level::Info, "Src", "next");
}

#[test]
fn parsing_twice_gives_equal_messages() {
    let text = "[00:00:01 INFO A] x\ny\n[00:00:02 WARN B] z\n";
    let first = parse(text).unwrap();
    let second = parse(text).unwrap();
    assert_eq!(first.len(), second.len());
    for (a, b) in first.iter().zip(second.iter()) {
        assert_eq!(a.timestamp, b.timestamp);
        assert_eq!(a.level, b.level);
        assert_eq!(a.source, b.source);
        assert_eq!(a.contents, b.contents);
    }
}

#[test]
fn empty_text_has_no_messages() {
    assert_eq!(parse("").unwrap().len(), 0);
}

#[test]
fn last_line_without_newline_is_read() {
    let ms = parse("[00:00:00 INFO A] x\ntail").unwrap();
    assert_eq!(ms.len(), 1);
    assert_eq!(ms[0].contents, "x\ntail");
}

#[test]
fn field_above_255_makes_a_continuation() {
    let ms = parse("[00:00:00 INFO A] x\n[256:00:00 INFO B] y\n").unwrap();
    assert_eq!(ms.len(), 1);
    assert_eq!(ms[0].contents, "x\n[256:00:00 INFO B] y");
    assert!(parse("[256:00:00 INFO B] y\n").is_err());
}

#[test]
fn fields_are_plain_integers() {
    let ms = parse("[99:007:255 INFO A] x\n").unwrap();
    assert_eq!(ms[0].timestamp, ts(99, 7, 255));
}

#[test]
fn header_needs_a_space_after_the_bracket() {
    let ms = parse("[00:00:00 INFO A] x\n[00:00:01 INFO B]y\n").unwrap();
    assert_eq!(ms.len(), 1);
    assert_eq!(ms[0].contents, "x\n[00:00:01 INFO B]y");
}

#[test]
fn empty_contents_are_allowed() {
    let ms = parse("[00:00:00 INFO A] \n").unwrap();
    assert_eq!(ms[0].contents, "");
}

#[test]
fn source_keeps_inner_spaces_and_blanks_may_be_tabs() {
    let ms = parse("[ 00:00:00\tWARN \t Some Mod ] hi\n").unwrap();
    assert_eq!(ms.len(), 1);
    check(&ms[0], ts(0, 0, 0), Level::Warn, "Some Mod ", "hi");
}

#[test]
fn keywords_are_case_sensitive() {
    assert!(parse("[00:00:00 info A] x\n").is_err());
    assert!(parse("[00:00:00 WARNING A] x\n").is_err());
}

#[test]
fn empty_source_is_no_header() {
    assert!(parse("[00:00:00 INFO ] x\n").is_err());
}

#[test]
fn every_level_keyword_parses() {
    let text = "[00:00:00 TRACE s] a\n[00:00:00 DEBUG s] a\n[00:00:00 INFO s] a\n\
                [00:00:00 ALERT s] a\n[00:00:00 WARN s] a\n[00:00:00 ERROR s] a\n";
    let ms = parse(text).unwrap();
    let levels: Vec<Level> = ms.iter().map(|m| m.level).collect();
    assert_eq!(levels, Level::all());
}

#[test]
fn contents_keep_non_ascii_text() {
    let ms = parse("[00:00:00 INFO Modé] héllo ✓\n").unwrap();
    assert_eq!(ms[0].source, "Modé");
    assert_eq!(ms[0].contents, "héllo ✓");
}
