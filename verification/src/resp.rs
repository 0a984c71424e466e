//! The codec: reading values from bytes and writing them back.

use crate::decimal::{nat_digits, parse_decimal, parse_i64, push_digits, MINUS, ZERO};
use crate::text::read_text;
use crate::trusted::{buffer_bytes, buffer_to_vec};
use crate::value::{lemma_array_view, views, Datum, RedisInt, RedisValue};
use crate::wire::{
    crlf, decode, decode_array, decode_bulk, decode_int, decode_items, decode_simple, encode,
    encode_all, find_crlf, first_line, lemma_decode_bounds, lemma_encode_all_push, sendable,
    RespError, ARRAY, BULK, CR, ERROR, INTEGER, LF, SIMPLE,
};
use bytes::BytesMut;
use vstd::prelude::*;
use vstd::slice::{slice_subrange, slice_to_vec};
use vstd::string::StrSliceExecFns;

verus! {

/// Whether what a parser returned is what the bytes denote.
pub open spec fn parsed_as(
    parsed: Result<(RedisValue, usize), RespError>,
    meaning: Result<(Datum, int), RespError>,
) -> bool {
    match (parsed, meaning) {
        (Ok((value, used)), Ok((datum, taken))) => value@ == datum && used == taken,
        (Err(e), Err(f)) => e == f,
        _ => false,
    }
}

/// Finds the first line of `buffer`: the bytes before the first carriage
/// return and line feed, and the length of the line with its end.
pub fn read_until_crlf(buffer: &[u8]) -> (found: Option<(&[u8], usize)>)
    ensures
        match found {
            None => first_line(buffer@) is None,
            Some((line, used)) => first_line(buffer@) == Some((line@, used as int)) && 2 <= used
                <= buffer@.len() && line@ == buffer@.subrange(0, used - 2),
        },
{
    let len = buffer.len();
    let mut i: usize = 1;
    while i < len
        invariant
            len == buffer@.len(),
            1 <= i,
            find_crlf(buffer@, 0) == find_crlf(buffer@, i - 1),
        decreases len - i,
    {
        if buffer[i - 1] == CR && buffer[i] == LF {
            let line = slice_subrange(buffer, 0, i - 1);
            return Some((line, i + 1));
        }
        i += 1;
    }
    None
}

/// Reads a length, a count or an integer.
pub fn _parse_int(buffer: &[u8]) -> (number: Result<RedisInt, RespError>)
    ensures
        match number {
            Ok(n) => parse_decimal(buffer@) == Some(n),
            Err(e) => parse_decimal(buffer@) is None && e == RespError::BadNumber,
        },
{
    match parse_i64(buffer) {
        Some(n) => Ok(n),
        None => Err(RespError::BadNumber),
    }
}

/// Reads a simple string.
pub fn parse_simple_string(buffer: &[u8]) -> (parsed: Result<(RedisValue, usize), RespError>)
    ensures
        parsed_as(parsed, decode_simple(buffer@)),
{
    if buffer.len() == 0 {
        return Err(RespError::Empty);
    }
    let rest = slice_subrange(buffer, 1, buffer.len());
    match read_until_crlf(rest) {
        None => Err(RespError::MissingCrlf),
        Some((line, used)) => match read_text(slice_to_vec(line)) {
            None => Err(RespError::BadText),
            Some(text) => Ok((RedisValue::SimpleString(text), used + 1)),
        },
    }
}

/// Reads a bulk string.
pub fn parse_bulk_string(buffer: &[u8]) -> (parsed: Result<(RedisValue, usize), RespError>)
    ensures
        parsed_as(parsed, decode_bulk(buffer@)),
{
    let len = buffer.len();
    if len == 0 {
        return Err(RespError::Empty);
    }
    let rest = slice_subrange(buffer, 1, len);
    let (declared, header) = match read_until_crlf(rest) {
        None => {
            return Err(RespError::MissingCrlf);
        },
        Some((line, used)) => match _parse_int(line) {
            Err(e) => {
                return Err(e);
            },
            Ok(n) => (n, used + 1),
        },
    };
    if declared < 0 {
        return Err(RespError::BadLength);
    }
    let room: usize = len - header;
    if room < 2 || declared as u64 > (room - 2) as u64 {
        return Err(RespError::Truncated);
    }
    let end: usize = header + declared as usize;
    match read_text(slice_to_vec(slice_subrange(buffer, header, end))) {
        None => Err(RespError::BadText),
        Some(text) => Ok((RedisValue::BulkString(text), end + 2)),
    }
}

/// Reads an integer, which runs to the end of `buffer`.
pub fn parse_integer(buffer: &[u8]) -> (parsed: Result<(RedisValue, usize), RespError>)
    ensures
        parsed_as(parsed, decode_int(buffer@)),
{
    let len = buffer.len();
    if len == 0 {
        return Err(RespError::Empty);
    }
    match _parse_int(slice_subrange(buffer, 1, len)) {
        Err(e) => Err(e),
        Ok(n) => Ok((RedisValue::Int(n), len)),
    }
}

/// What decoding `count` values gives, where `done` were decoded already from
/// the first `offset` bytes and `tail` is what decoding the remaining ones gives.
pub open spec fn resume(
    done: Seq<Datum>,
    offset: int,
    tail: Result<(Seq<Datum>, int), RespError>,
) -> Result<(Seq<Datum>, int), RespError> {
    match tail {
        Err(e) => Err(e),
        Ok((rest, more)) => Ok((done + rest, offset + more)),
    }
}

/// Reads an array and the values in it.
pub fn parse_array(buffer: &[u8]) -> (parsed: Result<(RedisValue, usize), RespError>)
    ensures
        parsed_as(parsed, decode_array(buffer@)),
    decreases buffer@.len(), 0int,
{
    let len = buffer.len();
    if len == 0 {
        return Err(RespError::Empty);
    }
    let rest = slice_subrange(buffer, 1, len);
    let (count, header) = match read_until_crlf(rest) {
        None => {
            return Err(RespError::MissingCrlf);
        },
        Some((line, used)) => match _parse_int(line) {
            Err(e) => {
                return Err(e);
            },
            Ok(n) => (n, used + 1),
        },
    };
    let mut items: Vec<RedisValue> = Vec::new();
    if count <= 0 {
        let value = RedisValue::Array(items);
        assert(value@->Array_0 =~= Seq::<Datum>::empty());
        return Ok((value, header));
    }
    let ghost body = buffer@.subrange(header as int, len as int);
    let mut used: usize = header;
    let mut i: i64 = 0;
    while i < count
        invariant
            len == buffer@.len(),
            3 <= header <= used <= len,
            0 <= i <= count,
            body == buffer@.subrange(header as int, len as int),
            decode_array(buffer@) == (match decode_items(body, count as nat) {
                Err(e) => Err(e),
                Ok((all, more)) => Ok((Datum::Array(all), header + more)),
            }),
            decode_items(body, count as nat) == resume(
                views(items@),
                used - header,
                decode_items(buffer@.subrange(used as int, len as int), (count - i) as nat),
            ),
        decreases count - i,
    {
        let ghost here = buffer@.subrange(used as int, len as int);
        let ghost before = views(items@);
        match parse_bytes(slice_subrange(buffer, used, len)) {
            Err(e) => {
                return Err(e);
            },
            Ok((item, taken)) => {
                proof {
                    let after = here.subrange(taken as int, here.len() as int);
                    assert(after =~= buffer@.subrange(used + taken, len as int));
                    let tail = decode_items(after, (count - i - 1) as nat);
                    if let Ok((rest, more)) = tail {
                        assert(before + (seq![item@] + rest) =~= before.push(item@) + rest);
                    }
                    assert(views(items@.push(item)) =~= before.push(item@));
                }
                items.push(item);
                used += taken;
            },
        }
        i += 1;
    }
    let value = RedisValue::Array(items);
    assert(value@->Array_0 =~= views(items@));
    Ok((value, used))
}

/// Reads the value at the head of `buffer`, and says how many bytes it takes up.
pub fn parse_bytes(buffer: &[u8]) -> (parsed: Result<(RedisValue, usize), RespError>)
    ensures
        parsed_as(parsed, decode(buffer@)),
        parsed matches Ok((_, used)) ==> 1 <= used <= buffer@.len(),
    decreases buffer@.len(), 1int,
{
    proof {
        lemma_decode_bounds(buffer@);
    }
    if buffer.len() == 0 {
        return Err(RespError::Empty);
    }
    let kind = buffer[0];
    if kind == SIMPLE {
        parse_simple_string(buffer)
    } else if kind == BULK {
        parse_bulk_string(buffer)
    } else if kind == ARRAY {
        parse_array(buffer)
    } else if kind == INTEGER {
        parse_integer(buffer)
    } else {
        Err(RespError::UnknownType)
    }
}

/// Reads the value at the head of a buffer.
pub fn parse_msg(buffer: BytesMut) -> (parsed: Result<(RedisValue, usize), RespError>)
    ensures
        parsed_as(parsed, decode(buffer_bytes(buffer))),
        parsed matches Ok((_, used)) ==> 1 <= used <= buffer_bytes(buffer).len(),
{
    let bytes = buffer_to_vec(&buffer);
    parse_bytes(bytes.as_slice())
}

/// Reads an integer that fills a buffer.
pub fn parse_int(buffer: BytesMut) -> (parsed: Result<(RedisValue, usize), RespError>)
    ensures
        parsed_as(parsed, decode_int(buffer_bytes(buffer))),
{
    let bytes = buffer_to_vec(&buffer);
    parse_integer(bytes.as_slice())
}

/// Whether `value` can be sent: it holds no internal tag.
pub fn can_send(value: &RedisValue) -> (yes: bool)
    ensures
        yes == sendable(value@),
    decreases value,
{
    match value {
        RedisValue::Command(_) => false,
        RedisValue::Array(items) => {
            let mut i: usize = 0;
            while i < items.len()
                invariant
                    *value == RedisValue::Array(*items),
                    i <= items.len(),
                    forall|j: int| 0 <= j < i ==> sendable(#[trigger] value@->Array_0[j]),
                decreases items.len() - i,
            {
                proof {
                    assert(value@->Array_0[i as int] == items[i as int]@);
                }
                if !can_send(&items[i]) {
                    return false;
                }
                i += 1;
            }
            true
        },
        _ => true,
    }
}

/// Appends `bytes` to `out`.
pub fn push_all(out: &mut Vec<u8>, bytes: &[u8])
    ensures
        final(out)@ == old(out)@ + bytes@,
{
    out.extend_from_slice(bytes);
}

/// Appends a line end to `out`.
fn push_crlf(out: &mut Vec<u8>)
    ensures
        final(out)@ == old(out)@ + crlf(),
{
    out.push(CR);
    out.push(LF);
}

/// Appends a type byte, a length or count, and a line end to `out`.
fn push_header(out: &mut Vec<u8>, kind: u8, n: usize)
    ensures
        final(out)@ == old(out)@ + (seq![kind] + nat_digits(n as nat) + crlf()),
{
    out.push(kind);
    push_digits(n as u64, out);
    push_crlf(out);
}

/// Appends the bytes that a simple string is sent as to `out`.
fn write_simple(text: &String, out: &mut Vec<u8>)
    ensures
        final(out)@ == old(out)@ + encode(Datum::Simple(text@)),
{
    out.push(SIMPLE);
    push_all(out, text.as_str().as_bytes());
    push_crlf(out);
}

/// Appends the bytes that a bulk string is sent as to `out`.
fn write_bulk(text: &String, out: &mut Vec<u8>)
    ensures
        final(out)@ == old(out)@ + encode(Datum::Bulk(text@)),
{
    push_header(out, BULK, text.as_str().unicode_len());
    push_all(out, text.as_str().as_bytes());
    push_crlf(out);
}

/// Appends the bytes that an integer is sent as to `out`.
fn write_integer(n: RedisInt, out: &mut Vec<u8>)
    ensures
        final(out)@ == old(out)@ + encode(Datum::Int(n as int)),
{
    out.push(INTEGER);
    if n < 0 {
        out.push(MINUS);
        push_digits((-(n as i128)) as u64, out);
    } else {
        push_digits(n as u64, out);
    }
}

/// Appends the bytes that the null bulk string is sent as to `out`.
fn write_null(out: &mut Vec<u8>)
    ensures
        final(out)@ == old(out)@ + encode(Datum::Null),
{
    out.push(BULK);
    out.push(MINUS);
    out.push(ZERO + 1);
    push_crlf(out);
}

/// Appends the bytes that an error message is sent as to `out`.
fn write_error(bytes: &Vec<u8>, out: &mut Vec<u8>)
    ensures
        final(out)@ == old(out)@ + encode(Datum::Error(bytes@)),
{
    push_header(out, ERROR, bytes.len());
    push_all(out, bytes.as_slice());
    push_crlf(out);
}

/// Appends the bytes that `value` is sent as to `out`.
pub fn encode_into(value: &RedisValue, out: &mut Vec<u8>)
    requires
        sendable(value@),
    ensures
        final(out)@ == old(out)@ + encode(value@),
    decreases value,
{
    match value {
        RedisValue::SimpleString(text) => write_simple(text, out),
        RedisValue::BulkString(text) => write_bulk(text, out),
        RedisValue::Array(items) => {
            push_header(out, ARRAY, items.len());
            let ghost head = out@;
            let mut i: usize = 0;
            while i < items.len()
                invariant
                    *value == RedisValue::Array(*items),
                    sendable(value@),
                    i <= items.len(),
                    out@ == head + encode_all(views(items@).subrange(0, i as int)),
                decreases items.len() - i,
            {
                let ghost done = views(items@).subrange(0, i as int);
                proof {
                    assert(value@->Array_0[i as int] == items[i as int]@);
                    lemma_encode_all_push(done, items[i as int]@);
                    assert(views(items@).subrange(0, i + 1) =~= done.push(items[i as int]@));
                }
                encode_into(&items[i], out);
                i += 1;
            }
            proof {
                lemma_array_view(*items);
                assert(views(items@).subrange(0, i as int) =~= views(items@));
            }
        },
        RedisValue::Int(n) => write_integer(*n, out),
        RedisValue::NullBulkString => write_null(out),
        RedisValue::ErrorMsg(bytes) => write_error(bytes, out),
        RedisValue::Command(_) => {},
    }
}

/// What can be written to a client.
pub trait RediSer {
    /// Whether the value may be sent at all.
    spec fn sendable(&self) -> bool;

    /// The bytes that the value is sent as.
    spec fn wire(&self) -> Seq<u8>;

    /// Writes the value out as bytes.
    fn serialize(&self) -> (bytes: Vec<u8>)
        requires
            self.sendable(),
        ensures
            bytes@ == self.wire(),
    ;
}

impl RediSer for RedisValue {
    open spec fn sendable(&self) -> bool {
        sendable(self@)
    }

    open spec fn wire(&self) -> Seq<u8> {
        encode(self@)
    }

    fn serialize(&self) -> (bytes: Vec<u8>) {
        let mut bytes: Vec<u8> = Vec::new();
        encode_into(self, &mut bytes);
        bytes
    }
}

impl RediSer for Vec<RedisValue> {
    open spec fn sendable(&self) -> bool {
        forall|i: int| 0 <= i < self@.len() ==> sendable(#[trigger] self@[i]@)
    }

    open spec fn wire(&self) -> Seq<u8> {
        encode_all(views(self@))
    }

    fn serialize(&self) -> (bytes: Vec<u8>) {
        let mut bytes: Vec<u8> = Vec::new();
        let mut i: usize = 0;
        while i < self.len()
            invariant
                self.sendable(),
                i <= self.len(),
                bytes@ == encode_all(views(self@).subrange(0, i as int)),
            decreases self.len() - i,
        {
            proof {
                let done = views(self@).subrange(0, i as int);
                lemma_encode_all_push(done, self@[i as int]@);
                assert(views(self@).subrange(0, i + 1) =~= done.push(self@[i as int]@));
            }
            encode_into(&self[i], &mut bytes);
            i += 1;
        }
        assert(views(self@).subrange(0, i as int) =~= views(self@));
        bytes
    }
}

} // verus!
