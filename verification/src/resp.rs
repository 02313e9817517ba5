//! Replies and their wire encoding.

use crate::number::{decimal_bytes, int_bytes, push_decimal, push_integer};
use crate::text::texts;
use vstd::prelude::*;
use vstd::string::*;
use vstd::utf8::encode_utf8;

verus! {

/// A reply to one command.
#[derive(Debug, PartialEq, Eq)]
pub enum RespValue {
    /// The command succeeded and has nothing to report.
    Okay,
    /// The command failed; the message says why.
    Error(String),
    /// There is no value to report.
    Null,
    /// A number.
    Integer(i64),
    /// One text value.
    BulkString(String),
    /// A sequence of text values.
    Array(Vec<String>),
}

/// The mathematical content of a reply.
pub enum Reply {
    Okay,
    Error(Seq<char>),
    Null,
    Integer(int),
    Bulk(Seq<char>),
    Array(Seq<Seq<char>>),
}

impl View for RespValue {
    type V = Reply;

    open spec fn view(&self) -> Reply {
        match self {
            RespValue::Okay => Reply::Okay,
            RespValue::Error(m) => Reply::Error(m@),
            RespValue::Null => Reply::Null,
            RespValue::Integer(n) => Reply::Integer(*n as int),
            RespValue::BulkString(s) => Reply::Bulk(s@),
            RespValue::Array(items) => Reply::Array(texts(items@)),
        }
    }
}

/// The two bytes that end every line of the encoding: carriage return, line
/// feed.
pub open spec fn line_end() -> Seq<u8> {
    seq![13u8, 10u8]
}

/// A text value on the wire: `$`, the number of bytes, a line end, the bytes
/// of the text in UTF-8, a line end.
pub open spec fn encode_bulk(s: Seq<char>) -> Seq<u8> {
    seq![36u8] + decimal_bytes(encode_utf8(s).len()) + line_end() + encode_utf8(s) + line_end()
}

/// The encodings of a sequence of text values, one after the other.
pub open spec fn encode_bulks(items: Seq<Seq<char>>) -> Seq<u8>
    decreases items.len(),
{
    if items.len() == 0 {
        Seq::<u8>::empty()
    } else {
        encode_bulks(items.drop_last()) + encode_bulk(items.last())
    }
}

/// The bytes of a reply on the wire.
///
/// * success is `+OK`, `Null` is `$-1`, each followed by a line end;
/// * an error is `-`, the message, a line end;
/// * an integer is `:`, its decimal text, a line end;
/// * an array is `*`, the number of items, a line end, then each item as a
///   text value.
pub open spec fn encode(r: Reply) -> Seq<u8> {
    match r {
        Reply::Okay => seq![43u8, 79u8, 75u8] + line_end(),
        Reply::Error(m) => seq![45u8] + encode_utf8(m) + line_end(),
        Reply::Null => seq![36u8, 45u8, 49u8] + line_end(),
        Reply::Integer(n) => seq![58u8] + int_bytes(n) + line_end(),
        Reply::Bulk(s) => encode_bulk(s),
        Reply::Array(items) => seq![42u8] + decimal_bytes(items.len()) + line_end() + encode_bulks(
            items,
        ),
    }
}

fn push_line_end(out: &mut Vec<u8>)
    ensures
        final(out)@ == old(out)@ + line_end(),
{
    out.push(13u8);
    out.push(10u8);
    assert(final(out)@ =~= old(out)@ + line_end());
}

fn push_bytes(out: &mut Vec<u8>, bytes: &Vec<u8>)
    ensures
        final(out)@ == old(out)@ + bytes@,
{
    let mut i: usize = 0;
    while i < bytes.len()
        invariant
            i <= bytes.len(),
            out@ == old(out)@ + bytes@.subrange(0, i as int),
        decreases bytes.len() - i,
    {
        out.push(bytes[i]);
        assert(out@ =~= old(out)@ + bytes@.subrange(0, i + 1));
        i += 1;
    }
    assert(bytes@.subrange(0, i as int) =~= bytes@);
}

fn push_bulk(out: &mut Vec<u8>, s: &str)
    ensures
        final(out)@ == old(out)@ + encode_bulk(s@),
{
    let bytes = s.as_bytes_vec();
    out.push(36u8);
    push_decimal(out, bytes.len() as u64);
    push_line_end(out);
    push_bytes(out, &bytes);
    push_line_end(out);
    assert(final(out)@ =~= old(out)@ + encode_bulk(s@));
}

impl RespValue {
    /// The bytes of this reply on the wire.
    pub fn to_bytes(&self) -> (bytes: Vec<u8>)
        ensures
            bytes@ == encode(self@),
    {
        let mut out: Vec<u8> = Vec::new();
        match self {
            RespValue::Okay => {
                out.push(43u8);
                out.push(79u8);
                out.push(75u8);
                push_line_end(&mut out);
            },
            RespValue::Error(m) => {
                out.push(45u8);
                push_bytes(&mut out, &m.as_str().as_bytes_vec());
                push_line_end(&mut out);
            },
            RespValue::Null => {
                out.push(36u8);
                out.push(45u8);
                out.push(49u8);
                push_line_end(&mut out);
            },
            RespValue::Integer(n) => {
                out.push(58u8);
                push_integer(&mut out, *n);
                push_line_end(&mut out);
            },
            RespValue::BulkString(s) => {
                push_bulk(&mut out, s.as_str());
            },
            RespValue::Array(items) => {
                out.push(42u8);
                push_decimal(&mut out, items.len() as u64);
                push_line_end(&mut out);
                let ghost head = out@;
                let mut i: usize = 0;
                assert(texts(items@).subrange(0, 0) =~= Seq::<Seq<char>>::empty());
                while i < items.len()
                    invariant
                        i <= items.len(),
                        out@ == head + encode_bulks(texts(items@).subrange(0, i as int)),
                    decreases items.len() - i,
                {
                    let ghost done = texts(items@).subrange(0, i as int);
                    let ghost next = texts(items@).subrange(0, i + 1);
                    proof {
                        assert(next.drop_last() =~= done);
                        assert(next.last() == items@[i as int]@);
                    }
                    push_bulk(&mut out, items[i].as_str());
                    assert(out@ =~= head + encode_bulks(next));
                    i += 1;
                }
                assert(texts(items@).subrange(0, i as int) =~= texts(items@));
            },
        }
        assert(out@ =~= encode(self@));
        out
    }
}

} // verus!
