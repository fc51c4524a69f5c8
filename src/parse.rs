//! Turns log text into messages: each header line starts a message, and every
//! other line continues the message before it.

use vstd::prelude::*;
use crate::ast::{Message, MessageView};
use crate::grammar::{header_of, read_header};
use crate::text::{append_range, chars_of, push_char, string_of_range};

verus! {

/// Why text could not be parsed.
#[derive(Clone, Copy, PartialEq, Eq, Debug, Hash, Structural)]
pub enum ParseError {
    /// The first line is not a header, so it has no message to continue.
    NoMessageToContinue,
}

/// The lines finished so far and the line being read, after reading `t`.
pub open spec fn split_state(t: Seq<char>) -> (Seq<Seq<char>>, Seq<char>)
    decreases t.len(),
{
    if t.len() == 0 {
        (seq![], seq![])
    } else {
        let (done, cur) = split_state(t.drop_last());
        if t.last() == '\n' {
            (done.push(cur), seq![])
        } else {
            (done, cur.push(t.last()))
        }
    }
}

/// The lines of `t`: the pieces between newlines, where a last empty piece
/// (text that ends with a newline) is no line.
pub open spec fn lines_of(t: Seq<char>) -> Seq<Seq<char>> {
    let (done, cur) = split_state(t);
    if cur.len() == 0 {
        done
    } else {
        done.push(cur)
    }
}

/// `m` with `line` added to its contents after a newline.
pub open spec fn continued(m: MessageView, line: Seq<char>) -> MessageView {
    (m.0, m.1, m.2, m.3.push('\n') + line)
}

/// The messages that `lines` hold, or `None` where a line that is not a header
/// has no message before it.
pub open spec fn parse_lines(lines: Seq<Seq<char>>) -> Option<Seq<MessageView>>
    decreases lines.len(),
{
    if lines.len() == 0 {
        Some(seq![])
    } else {
        match parse_lines(lines.drop_last()) {
            None => None,
            Some(ms) => match header_of(lines.last()) {
                Some(m) => Some(ms.push(m)),
                None => if ms.len() == 0 {
                    None
                } else {
                    Some(ms.update(ms.len() - 1, continued(ms.last(), lines.last())))
                },
            },
        }
    }
}

/// The messages of text `t`, or `None` where it cannot be parsed.
pub open spec fn parse_text(t: Seq<char>) -> Option<Seq<MessageView>> {
    parse_lines(lines_of(t))
}

/// The views of a sequence of character vectors.
pub open spec fn char_views(v: Seq<Vec<char>>) -> Seq<Seq<char>> {
    v.map_values(|l: Vec<char>| l@)
}

/// The views of a sequence of messages.
pub open spec fn message_views(v: Seq<Message>) -> Seq<MessageView> {
    v.map_values(|m: Message| m@)
}

/// Once a prefix of the lines fails to parse, every longer prefix fails too.
pub proof fn lemma_parse_failure_persists(lines: Seq<Seq<char>>, k: int)
    requires
        0 <= k <= lines.len(),
        parse_lines(lines.take(k)) is None,
    ensures
        parse_lines(lines) is None,
    decreases lines.len() - k,
{
    if k < lines.len() {
        assert(lines.take(k + 1).drop_last() == lines.take(k));
        lemma_parse_failure_persists(lines, k + 1);
    } else {
        assert(lines.take(k) == lines);
    }
}

/// Splits `cs` into its lines.
pub fn split_lines(cs: &Vec<char>) -> (r: Vec<Vec<char>>)
    ensures
        char_views(r@) == lines_of(cs@),
{
    let mut done: Vec<Vec<char>> = Vec::new();
    let mut cur: Vec<char> = Vec::new();
    let mut i: usize = 0;
    while i < cs.len()
        invariant
            i <= cs@.len(),
            split_state(cs@.take(i as int)) == (char_views(done@), cur@),
        decreases cs@.len() - i,
    {
        assert(cs@.take(i + 1).drop_last() == cs@.take(i as int));
        if cs[i] == '\n' {
            let line = cur;
            cur = Vec::new();
            done.push(line);
            assert(char_views(done@) == char_views(done@.drop_last()).push(line@));
        } else {
            cur.push(cs[i]);
        }
        i = i + 1;
    }
    assert(cs@.take(cs@.len() as int) == cs@);
    if cur.len() > 0 {
        done.push(cur);
        assert(char_views(done@) == char_views(done@.drop_last()).push(cur@));
    }
    done
}

/// The message that header line `l` starts.
pub fn parse_message(l: &Vec<char>) -> (r: Option<Message>)
    ensures
        r is Some <==> header_of(l@) is Some,
        r matches Some(m) ==> header_of(l@) == Some(m@),
{
    match read_header(l) {
        None => None,
        Some(p) => {
            let source = string_of_range(l, p.source_start, p.source_end);
            let contents = string_of_range(l, p.contents_start, l.len());
            Some(Message { timestamp: p.timestamp, level: p.level, source, contents })
        },
    }
}

/// Folds `lines` into messages.
pub fn parse_log(lines: &Vec<Vec<char>>) -> (r: Result<Vec<Message>, ParseError>)
    ensures
        match r {
            Ok(ms) => parse_lines(char_views(lines@)) == Some(message_views(ms@)),
            Err(_) => parse_lines(char_views(lines@)) is None,
        },
{
    let mut ms: Vec<Message> = Vec::new();
    let mut i: usize = 0;
    while i < lines.len()
        invariant
            i <= lines@.len(),
            parse_lines(char_views(lines@.take(i as int))) == Some(message_views(ms@)),
        decreases lines@.len() - i,
    {
        let ghost before = char_views(lines@.take(i as int));
        assert(char_views(lines@.take(i + 1)).drop_last() == before);
        assert(char_views(lines@.take(i + 1)).last() == lines@[i as int]@);
        let line = &lines[i];
        match parse_message(line) {
            Some(m) => {
                ms.push(m);
                assert(message_views(ms@) == message_views(ms@.drop_last()).push(m@));
            },
            None => {
                if ms.len() == 0 {
                    proof {
                        assert(char_views(lines@).take(i + 1) == char_views(lines@.take(i + 1)));
                        assert(parse_lines(char_views(lines@.take(i + 1))) is None);
                        lemma_parse_failure_persists(char_views(lines@), i + 1);
                    }
                    return Err(ParseError::NoMessageToContinue);
                }
                let mut last = ms.pop().unwrap();
                let ghost prev = message_views(ms@);
                push_char(&mut last.contents, '\n');
                append_range(&mut last.contents, line, 0, line.len());
                assert(line@.subrange(0, line@.len() as int) == line@);
                ms.push(last);
                assert(message_views(ms@) == prev.push(last@));
            },
        }
        i = i + 1;
    }
    assert(lines@.take(lines@.len() as int) == lines@);
    Ok(ms)
}

/// Parses log text into its messages, in the order of their header lines.
pub fn parse(text: &str) -> (r: Result<Vec<Message>, ParseError>)
    ensures
        match r {
            Ok(ms) => parse_text(text@) == Some(message_views(ms@)),
            Err(_) => parse_text(text@) is None,
        },
{
    let cs = chars_of(text);
    let lines = split_lines(&cs);
    parse_log(&lines)
}

/// Text made of `lines`, each ended by a newline.
pub open spec fn text_of(lines: Seq<Seq<char>>) -> Seq<char>
    decreases lines.len(),
{
    if lines.len() == 0 {
        seq![]
    } else {
        text_of(lines.drop_last()) + lines.last().push('\n')
    }
}

/// `ls` joined with newlines between them.
pub open spec fn join_lines(ls: Seq<Seq<char>>) -> Seq<char>
    decreases ls.len(),
{
    if ls.len() == 0 {
        seq![]
    } else if ls.len() == 1 {
        ls[0]
    } else {
        join_lines(ls.drop_last()).push('\n') + ls.last()
    }
}

/// Whether `l` holds no newline.
pub open spec fn one_line(l: Seq<char>) -> bool {
    !l.contains('\n')
}

proof fn lemma_split_append_line(t: Seq<char>, l: Seq<char>, done: Seq<Seq<char>>)
    requires
        split_state(t) == (done, Seq::<char>::empty()),
        one_line(l),
    ensures
        split_state(t + l) == (done, l),
    decreases l.len(),
{
    if l.len() == 0 {
        assert(t + l == t);
    } else {
        lemma_split_append_line(t, l.drop_last(), done);
        assert((t + l).drop_last() == t + l.drop_last());
        assert(l.drop_last().push(l.last()) == l);
        assert(l.contains(l.last()));
    }
}

/// Text written as newline-ended lines splits back into those lines.
pub proof fn lemma_lines_of_text(lines: Seq<Seq<char>>)
    requires
        forall|i: int| 0 <= i < lines.len() ==> one_line(#[trigger] lines[i]),
    ensures
        split_state(text_of(lines)) == (lines, Seq::<char>::empty()),
        lines_of(text_of(lines)) == lines,
    decreases lines.len(),
{
    if lines.len() > 0 {
        let prev = lines.drop_last();
        lemma_lines_of_text(prev);
        let l = lines.last();
        assert(one_line(lines[lines.len() - 1]));
        lemma_split_append_line(text_of(prev), l, prev);
        let t = text_of(lines);
        assert(t == (text_of(prev) + l).push('\n'));
        assert(t.drop_last() == text_of(prev) + l);
        assert(prev.push(l) == lines);
    }
}

/// Lines that are all headers parse to one message per line, in line order.
pub proof fn lemma_headers_parse_in_order(lines: Seq<Seq<char>>)
    requires
        forall|i: int| 0 <= i < lines.len() ==> (#[trigger] header_of(lines[i])) is Some,
    ensures
        parse_lines(lines) == Some(lines.map_values(|l: Seq<char>| header_of(l)->0)),
    decreases lines.len(),
{
    if lines.len() > 0 {
        let prev = lines.drop_last();
        assert forall|i: int| 0 <= i < prev.len() implies (#[trigger] header_of(prev[i])) is Some by {
            assert(header_of(lines[i]) is Some);
        }
        lemma_headers_parse_in_order(prev);
        assert(header_of(lines[lines.len() - 1]) is Some);
        assert(lines.map_values(|l: Seq<char>| header_of(l)->0) == prev.map_values(
            |l: Seq<char>| header_of(l)->0,
        ).push(header_of(lines.last())->0));
    } else {
        assert(lines.map_values(|l: Seq<char>| header_of(l)->0) =~= seq![]);
    }
}

/// N well-formed header lines, each ended by a newline and with no
/// continuation, parse to exactly N messages in input order.
pub proof fn lemma_header_text_parses_in_order(lines: Seq<Seq<char>>)
    requires
        forall|i: int|
            0 <= i < lines.len() ==> one_line(#[trigger] lines[i]) && header_of(lines[i]) is Some,
    ensures
        parse_text(text_of(lines)) is Some,
        parse_text(text_of(lines))->0.len() == lines.len(),
        forall|i: int|
            0 <= i < lines.len() ==> parse_text(text_of(lines))->0[i] == header_of(lines[i])->0,
{
    assert forall|i: int| 0 <= i < lines.len() implies one_line(#[trigger] lines[i]) by {}
    lemma_lines_of_text(lines);
    assert forall|i: int| 0 <= i < lines.len() implies (#[trigger] header_of(lines[i])) is Some by {
        assert(one_line(lines[i]));
    }
    lemma_headers_parse_in_order(lines);
}

/// A line that is not a header, with no header line before it, makes the
/// whole text fail to parse.
pub proof fn lemma_leading_continuation_fails(lines: Seq<Seq<char>>, i: int)
    requires
        0 <= i < lines.len(),
        header_of(lines[i]) is None,
        forall|j: int| 0 <= j < i ==> (#[trigger] header_of(lines[j])) is None,
    ensures
        parse_lines(lines) is None,
        (forall|k: int| 0 <= k < lines.len() ==> one_line(#[trigger] lines[k])) ==> parse_text(
            text_of(lines),
        ) is None,
{
    assert(header_of(lines[0]) is None) by {
        if i > 0 {
            assert(header_of(lines[0]) is None);
        }
    }
    assert(lines.take(1).drop_last() =~= Seq::<Seq<char>>::empty());
    assert(lines.take(1).last() == lines[0]);
    assert(parse_lines(Seq::<Seq<char>>::empty()) == Some(Seq::<MessageView>::empty()));
    assert(parse_lines(lines.take(1)) is None);
    lemma_parse_failure_persists(lines, 1);
    if forall|k: int| 0 <= k < lines.len() ==> one_line(#[trigger] lines[k]) {
        lemma_lines_of_text(lines);
    }
}

/// A header line followed by continuation lines adds one message whose
/// contents are the header's contents and the continuation lines, joined by
/// newlines.
pub proof fn lemma_continuations_join(
    prev: Seq<Seq<char>>,
    head: Seq<char>,
    conts: Seq<Seq<char>>,
)
    requires
        parse_lines(prev) is Some,
        header_of(head) is Some,
        forall|i: int| 0 <= i < conts.len() ==> (#[trigger] header_of(conts[i])) is None,
    ensures
        parse_lines(prev.push(head) + conts) == Some(
            parse_lines(prev)->0.push(
                {
                    let h = header_of(head)->0;
                    (h.0, h.1, h.2, join_lines(seq![h.3] + conts))
                },
            ),
        ),
    decreases conts.len(),
{
    let h = header_of(head)->0;
    if conts.len() == 0 {
        assert(prev.push(head) + conts == prev.push(head));
        assert(prev.push(head).drop_last() == prev);
        assert(seq![h.3] + conts == seq![h.3]);
    } else {
        let shorter = conts.drop_last();
        assert forall|i: int| 0 <= i < shorter.len() implies (#[trigger] header_of(
            shorter[i],
        )) is None by {
            assert(header_of(conts[i]) is None);
        }
        lemma_continuations_join(prev, head, shorter);
        let all = prev.push(head) + conts;
        assert(all.drop_last() == prev.push(head) + shorter);
        assert(all.last() == conts.last());
        assert(header_of(conts[conts.len() - 1]) is None);
        let joined = seq![h.3] + conts;
        assert(joined.drop_last() == seq![h.3] + shorter);
        assert(joined.last() == conts.last());
    }
}

} // verus!
