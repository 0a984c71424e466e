//! The wire format as mathematics: what each value looks like as bytes, and
//! what value a run of bytes denotes.

use crate::decimal::{int_digits, nat_digits, parse_decimal, MINUS};
use crate::value::Datum;
use vstd::prelude::*;
use vstd::utf8::{decode_utf8, encode_utf8, valid_utf8};

verus! {

/// Why a run of bytes is not a value.
#[derive(Clone, Copy, Debug, PartialEq, Eq)]
pub enum RespError {
    /// There are no bytes at all.
    Empty,
    /// The first byte is none of `+`, `$`, `*`, `:`.
    UnknownType,
    /// A line is not closed by a carriage return and a line feed.
    MissingCrlf,
    /// A length, a count or an integer is not a decimal number.
    BadNumber,
    /// A bulk string declares a negative length.
    BadLength,
    /// A bulk string declares more bytes than are there.
    Truncated,
    /// A text is not UTF-8.
    BadText,
}

/// The type byte of a simple string, `+`.
pub const SIMPLE: u8 = 43;

/// The type byte of a bulk string, `$`.
pub const BULK: u8 = 36;

/// The type byte of an array, `*`.
pub const ARRAY: u8 = 42;

/// The type byte of an integer, `:`.
pub const INTEGER: u8 = 58;

/// The type byte of an error, `-`.
pub const ERROR: u8 = 45;

/// Carriage return.
pub const CR: u8 = 13;

/// Line feed.
pub const LF: u8 = 10;

/// Carriage return, line feed.
pub open spec fn crlf() -> Seq<u8> {
    seq![CR, LF]
}

/// Whether a carriage return stands at `i` and a line feed right after it.
pub open spec fn crlf_at(s: Seq<u8>, i: int) -> bool {
    0 <= i && i + 1 < s.len() && s[i] == CR && s[i + 1] == LF
}

/// Whether `s` holds a carriage return followed by a line feed.
pub open spec fn has_crlf(s: Seq<u8>) -> bool {
    exists|i: int| crlf_at(s, i)
}

/// The place of the first carriage return and line feed in `s` at or after `from`.
pub open spec fn find_crlf(s: Seq<u8>, from: int) -> Option<int>
    decreases s.len() - from,
{
    if from < 0 || from + 1 >= s.len() {
        None
    } else if s[from] == CR && s[from + 1] == LF {
        Some(from)
    } else {
        find_crlf(s, from + 1)
    }
}

/// The bytes that `d` is sent as. The internal `Exec` tag has none.
pub open spec fn encode(d: Datum) -> Seq<u8>
    decreases d,
{
    match d {
        Datum::Simple(text) => seq![SIMPLE] + encode_utf8(text) + crlf(),
        Datum::Bulk(text) => seq![BULK] + nat_digits(text.len()) + crlf() + encode_utf8(text)
            + crlf(),
        Datum::Array(items) => seq![ARRAY] + nat_digits(items.len()) + crlf() + encode_all(items),
        Datum::Int(n) => seq![INTEGER] + int_digits(n),
        Datum::Null => seq![BULK, MINUS, 49u8, CR, LF],
        Datum::Error(bytes) => seq![ERROR] + nat_digits(bytes.len()) + crlf() + bytes + crlf(),
        Datum::Exec => Seq::empty(),
    }
}

/// The bytes of each of `items` in turn, with nothing between them.
pub open spec fn encode_all(items: Seq<Datum>) -> Seq<u8>
    decreases items,
{
    if items.len() == 0 {
        Seq::empty()
    } else {
        encode(items[0]) + encode_all(items.drop_first())
    }
}

/// Whether `d` can be sent: it holds no internal tag.
pub open spec fn sendable(d: Datum) -> bool
    decreases d,
{
    match d {
        Datum::Array(items) => forall|i: int| 0 <= i < items.len() ==> sendable(#[trigger] items[i]),
        Datum::Exec => false,
        _ => true,
    }
}

/// The first line of `s`, without its end, and the number of bytes that the
/// line and its end take up. `None` where no line ends in `s`.
pub open spec fn first_line(s: Seq<u8>) -> Option<(Seq<u8>, int)> {
    match find_crlf(s, 0) {
        None => None,
        Some(k) => Some((s.subrange(0, k), k + 2)),
    }
}

/// What follows the type byte of `s`.
pub open spec fn payload(s: Seq<u8>) -> Seq<u8> {
    s.subrange(1, s.len() as int)
}

/// The value at the head of `s` and the number of bytes it takes up.
///
/// The first byte says what follows: `+` a simple string, `$` a bulk string,
/// `*` an array, `:` an integer.
pub open spec fn decode(s: Seq<u8>) -> Result<(Datum, int), RespError>
    decreases s.len(), 1int,
{
    if s.len() == 0 {
        Err(RespError::Empty)
    } else if s[0] == SIMPLE {
        decode_simple(s)
    } else if s[0] == BULK {
        decode_bulk(s)
    } else if s[0] == ARRAY {
        decode_array(s)
    } else if s[0] == INTEGER {
        decode_int(s)
    } else {
        Err(RespError::UnknownType)
    }
}

/// An array: a type byte, the count, carriage return, line feed, and then as
/// many values as the count says. A count below one gives the empty array.
pub open spec fn decode_array(s: Seq<u8>) -> Result<(Datum, int), RespError>
    decreases s.len(), 0int,
{
    if s.len() == 0 {
        Err(RespError::Empty)
    } else {
        match first_line(payload(s)) {
            None => Err(RespError::MissingCrlf),
            Some((line, used)) => match parse_decimal(line) {
                None => Err(RespError::BadNumber),
                Some(count) => if count <= 0 {
                    Ok((Datum::Array(Seq::empty()), 1 + used))
                } else if used < 0 || 1 + used > s.len() {
                    Err(RespError::Truncated)
                } else {
                    match decode_items(s.subrange(1 + used, s.len() as int), count as nat) {
                        Err(e) => Err(e),
                        Ok((items, more)) => Ok((Datum::Array(items), 1 + used + more)),
                    }
                },
            },
        }
    }
}

/// `count` values one after the other at the head of `s`, and the number of
/// bytes they take up together.
pub open spec fn decode_items(s: Seq<u8>, count: nat) -> Result<(Seq<Datum>, int), RespError>
    decreases s.len(), count + 2,
{
    if count == 0 {
        Ok((Seq::empty(), 0))
    } else {
        match decode(s) {
            Err(e) => Err(e),
            Ok((first, used)) => if used < 0 || used > s.len() {
                Err(RespError::Truncated)
            } else {
                match decode_items(s.subrange(used, s.len() as int), (count - 1) as nat) {
                    Err(e) => Err(e),
                    Ok((rest, more)) => Ok((seq![first] + rest, used + more)),
                }
            },
        }
    }
}

/// A simple string: a type byte, the text, carriage return, line feed.
pub open spec fn decode_simple(s: Seq<u8>) -> Result<(Datum, int), RespError> {
    if s.len() == 0 {
        Err(RespError::Empty)
    } else {
        match first_line(payload(s)) {
            None => Err(RespError::MissingCrlf),
            Some((line, used)) => if valid_utf8(line) {
                Ok((Datum::Simple(decode_utf8(line)), 1 + used))
            } else {
                Err(RespError::BadText)
            },
        }
    }
}

/// A bulk string: a type byte, the length, carriage return, line feed, that
/// many bytes of text, and two more bytes that are not looked at.
pub open spec fn decode_bulk(s: Seq<u8>) -> Result<(Datum, int), RespError> {
    if s.len() == 0 {
        Err(RespError::Empty)
    } else {
        match first_line(payload(s)) {
            None => Err(RespError::MissingCrlf),
            Some((line, used)) => match parse_decimal(line) {
                None => Err(RespError::BadNumber),
                Some(n) => if n < 0 {
                    Err(RespError::BadLength)
                } else if 1 + used + n + 2 > s.len() {
                    Err(RespError::Truncated)
                } else if !valid_utf8(s.subrange(1 + used, 1 + used + n)) {
                    Err(RespError::BadText)
                } else {
                    Ok(
                        (
                            Datum::Bulk(decode_utf8(s.subrange(1 + used, 1 + used + n))),
                            1 + used + n + 2,
                        ),
                    )
                },
            },
        }
    }
}

/// An integer: a type byte, and then the number, which runs to the end of `s`.
pub open spec fn decode_int(s: Seq<u8>) -> Result<(Datum, int), RespError> {
    if s.len() == 0 {
        Err(RespError::Empty)
    } else {
        match parse_decimal(payload(s)) {
            None => Err(RespError::BadNumber),
            Some(n) => Ok((Datum::Int(n as int), s.len() as int)),
        }
    }
}

/// The bytes of a run of values are those of its parts, one after the other.
pub proof fn lemma_encode_all_concat(left: Seq<Datum>, right: Seq<Datum>)
    ensures
        encode_all(left + right) == encode_all(left) + encode_all(right),
    decreases left.len(),
{
    if left.len() == 0 {
        assert(left + right =~= right);
        assert(encode_all(left) + encode_all(right) =~= encode_all(right));
    } else {
        lemma_encode_all_concat(left.drop_first(), right);
        assert((left + right).drop_first() =~= left.drop_first() + right);
        assert(encode(left[0]) + (encode_all(left.drop_first()) + encode_all(right)) =~= encode(
            left[0],
        ) + encode_all(left.drop_first()) + encode_all(right));
    }
}

/// The bytes of a run of values with one more value at its end.
pub proof fn lemma_encode_all_push(items: Seq<Datum>, last: Datum)
    ensures
        encode_all(items.push(last)) == encode_all(items) + encode(last),
{
    lemma_encode_all_concat(items, seq![last]);
    assert(items.push(last) =~= items + seq![last]);
    assert(seq![last].drop_first() =~= Seq::<Datum>::empty());
    assert(encode_all(Seq::<Datum>::empty()) =~= Seq::<u8>::empty());
    assert(encode_all(seq![last]) =~= encode(last));
}

/// Where `find_crlf` finds a line end, it is the first one at or after `from`.
pub proof fn lemma_find_crlf(s: Seq<u8>, from: int)
    requires
        0 <= from,
    ensures
        match find_crlf(s, from) {
            None => forall|i: int| from <= i ==> !crlf_at(s, i),
            Some(k) => from <= k && crlf_at(s, k) && forall|i: int| from <= i < k ==> !crlf_at(s, i),
        },
    decreases s.len() - from,
{
    if from + 1 >= s.len() {
    } else if s[from] == CR && s[from + 1] == LF {
    } else {
        lemma_find_crlf(s, from + 1);
    }
}

/// A value that decodes takes up at least one byte and no more than there are.
pub proof fn lemma_decode_bounds(s: Seq<u8>)
    ensures
        decode(s) matches Ok((_, used)) ==> 1 <= used <= s.len(),
        decode_array(s) matches Ok((_, used)) ==> 1 <= used <= s.len(),
    decreases s.len(), 1int,
{
    if s.len() > 0 {
        lemma_find_crlf(payload(s), 0);
        if let Some((line, used)) = first_line(payload(s)) {
            if let Some(count) = parse_decimal(line) {
                if count > 0 && 1 + used <= s.len() {
                    lemma_decode_items_bounds(s.subrange(1 + used, s.len() as int), count as nat);
                }
            }
        }
    }
}

/// Values that decode one after the other take up no more bytes than there are.
pub proof fn lemma_decode_items_bounds(s: Seq<u8>, count: nat)
    ensures
        decode_items(s, count) matches Ok((items, used)) ==> 0 <= used <= s.len() && items.len()
            == count,
    decreases s.len(), count + 2,
{
    if count > 0 {
        lemma_decode_bounds(s);
        if let Ok((first, used)) = decode(s) {
            lemma_decode_items_bounds(s.subrange(used, s.len() as int), (count - 1) as nat);
        }
    }
}

} // verus!
