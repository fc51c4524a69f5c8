//! Text written to a child process's input, as UTF-8 or as UTF-16 in either
//! byte order.

use vstd::prelude::*;
use crate::text::chars_of;
use vstd::string::StrSliceExecFns;
use vstd::utf8::encode_utf8;

verus! {

/// `std::io::Error`, the error that a write or a flush returns; carried
/// through unread.
#[verifier::external_type_specification]
#[verifier::external_body]
pub struct ExIoError(std::io::Error);

/// The byte order of UTF-16 code units.
#[derive(Clone, Copy, PartialEq, Eq, Debug, Hash, Structural)]
pub enum ByteOrder {
    BigEndian,
    LittleEndian,
}

/// The encoding used to send commands.
#[derive(Clone, Copy, PartialEq, Eq, Debug, Hash, Structural)]
pub enum CommandEncoding {
    Utf8,
    Utf16Le,
    Utf16Be,
}

/// The UTF-16 code units of the scalar value `v`: one unit below 0x10000,
/// else a surrogate pair.
pub open spec fn utf16_units(v: int) -> Seq<int> {
    if v < 0x10000 {
        seq![v]
    } else {
        seq![0xD800 + (v - 0x10000) / 0x400, 0xDC00 + (v - 0x10000) % 0x400]
    }
}

/// The two bytes of code unit `u` in `order`.
pub open spec fn unit_bytes(u: int, order: ByteOrder) -> Seq<u8> {
    match order {
        ByteOrder::BigEndian => seq![(u / 256) as u8, (u % 256) as u8],
        ByteOrder::LittleEndian => seq![(u % 256) as u8, (u / 256) as u8],
    }
}

/// The bytes of character `c` in UTF-16 with byte order `order`.
pub open spec fn char_utf16(c: char, order: ByteOrder) -> Seq<u8> {
    let units = utf16_units((c as u32) as int);
    if units.len() == 1 {
        unit_bytes(units[0], order)
    } else {
        unit_bytes(units[0], order) + unit_bytes(units[1], order)
    }
}

/// The bytes of `s` in UTF-16 with byte order `order`.
pub open spec fn encode_utf16(s: Seq<char>, order: ByteOrder) -> Seq<u8>
    decreases s.len(),
{
    if s.len() == 0 {
        seq![]
    } else {
        encode_utf16(s.drop_last(), order) + char_utf16(s.last(), order)
    }
}

/// Appends the two bytes of code unit `u`.
fn push_unit(out: &mut Vec<u8>, u: u32, order: ByteOrder)
    ensures
        final(out)@ == old(out)@ + unit_bytes(u as int, order),
{
    let hi = (u / 256) as u8;
    let lo = (u % 256) as u8;
    match order {
        ByteOrder::BigEndian => {
            out.push(hi);
            out.push(lo);
        },
        ByteOrder::LittleEndian => {
            out.push(lo);
            out.push(hi);
        },
    }
}

/// `text` in UTF-16 with byte order `order`.
pub fn utf16_bytes(text: &str, order: ByteOrder) -> (r: Vec<u8>)
    ensures
        r@ == encode_utf16(text@, order),
{
    let cs = chars_of(text);
    let mut out: Vec<u8> = Vec::new();
    let mut i: usize = 0;
    while i < cs.len()
        invariant
            i <= cs@.len(),
            cs@ == text@,
            out@ == encode_utf16(cs@.take(i as int), order),
        decreases cs@.len() - i,
    {
        assert(cs@.take(i + 1).drop_last() == cs@.take(i as int));
        let v = cs[i] as u32;
        if v < 0x10000 {
            push_unit(&mut out, v, order);
        } else {
            let w = v - 0x10000;
            push_unit(&mut out, 0xD800 + w / 0x400, order);
            push_unit(&mut out, 0xDC00 + w % 0x400, order);
        }
        i = i + 1;
    }
    assert(cs@.take(cs@.len() as int) == cs@);
    out
}

/// Relies on `std::io::Write::write_all`: writes all of `bytes`, or returns
/// the error that stopped it.
#[verifier::external_body]
fn write_bytes<W: std::io::Write>(writer: &mut W, bytes: &[u8]) -> std::io::Result<()> {
    writer.write_all(bytes)
}

/// Relies on `std::io::Write::flush`: flushes buffered output.
#[verifier::external_body]
fn flush_writer<W: std::io::Write>(writer: &mut W) -> std::io::Result<()> {
    writer.flush()
}

/// A writer that encodes text before writing it.
pub enum EncodedWriter<W> {
    Utf8 { writer: W },
    Utf16 { writer: W, byte_order: ByteOrder },
}

impl<W: std::io::Write> EncodedWriter<W> {
    /// A writer that sends UTF-8.
    pub fn utf8(writer: W) -> (r: Self)
        ensures
            r == (EncodedWriter::Utf8 { writer }),
    {
        EncodedWriter::Utf8 { writer }
    }

    /// A writer that sends UTF-16 in `byte_order`.
    pub fn utf16(writer: W, byte_order: ByteOrder) -> (r: Self)
        ensures
            r == (EncodedWriter::Utf16 { writer, byte_order }),
    {
        EncodedWriter::Utf16 { writer, byte_order }
    }

    /// The bytes that this writer sends for `text`.
    pub open spec fn spec_encode(&self, text: Seq<char>) -> Seq<u8> {
        match self {
            EncodedWriter::Utf8 { .. } => encode_utf8(text),
            EncodedWriter::Utf16 { byte_order, .. } => encode_utf16(text, *byte_order),
        }
    }

    /// The bytes that this writer sends for `text`.
    pub fn encode(&self, text: &str) -> (r: Vec<u8>)
        ensures
            r@ == self.spec_encode(text@),
    {
        match self {
            EncodedWriter::Utf8 { .. } => text.as_bytes_vec(),
            EncodedWriter::Utf16 { byte_order, .. } => utf16_bytes(text, *byte_order),
        }
    }

    /// The byte order of a UTF-16 writer; `None` for UTF-8.
    pub open spec fn spec_byte_order(&self) -> Option<ByteOrder> {
        match self {
            EncodedWriter::Utf8 { .. } => None,
            EncodedWriter::Utf16 { byte_order, .. } => Some(*byte_order),
        }
    }

    /// Writes `text` in this writer's encoding. The bytes handed to the
    /// writer are `self.encode(text)`; the encoding stays.
    pub fn write_all(&mut self, text: &str) -> (r: std::io::Result<()>)
        ensures
            final(self).spec_byte_order() == old(self).spec_byte_order(),
    {
        let bytes = self.encode(text);
        match self {
            EncodedWriter::Utf8 { writer } => write_bytes(writer, bytes.as_slice()),
            EncodedWriter::Utf16 { writer, .. } => write_bytes(writer, bytes.as_slice()),
        }
    }

    /// Flushes the underlying writer; the encoding stays.
    pub fn flush(&mut self) -> (r: std::io::Result<()>)
        ensures
            final(self).spec_byte_order() == old(self).spec_byte_order(),
    {
        match self {
            EncodedWriter::Utf8 { writer } => flush_writer(writer),
            EncodedWriter::Utf16 { writer, .. } => flush_writer(writer),
        }
    }
}

/// The writer for `encoding` over `writer`.
pub fn create_encoded_writer<W: std::io::Write>(writer: W, encoding: CommandEncoding) -> (r:
    EncodedWriter<W>)
    ensures
        encoding == CommandEncoding::Utf8 ==> r == (EncodedWriter::Utf8 { writer }),
        encoding == CommandEncoding::Utf16Le ==> r == (EncodedWriter::Utf16 {
            writer,
            byte_order: ByteOrder::LittleEndian,
        }),
        encoding == CommandEncoding::Utf16Be ==> r == (EncodedWriter::Utf16 {
            writer,
            byte_order: ByteOrder::BigEndian,
        }),
{
    match encoding {
        CommandEncoding::Utf8 => EncodedWriter::utf8(writer),
        CommandEncoding::Utf16Le => EncodedWriter::utf16(writer, ByteOrder::LittleEndian),
        CommandEncoding::Utf16Be => EncodedWriter::utf16(writer, ByteOrder::BigEndian),
    }
}

} // verus!
