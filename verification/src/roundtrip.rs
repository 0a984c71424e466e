//! Reading back what was written: which values come back unchanged, and the
//! proof that they do.

use crate::decimal::{
    all_digits, int_digits, is_digit, lemma_nat_digits, lemma_parse_int_digits,
    lemma_parse_nat_digits, nat_digits, parse_decimal,
};
use crate::value::Datum;
use crate::wire::{
    crlf, crlf_at, decode, decode_items, encode, encode_all, first_line, has_crlf,
    lemma_find_crlf, payload, RespError, ARRAY, BULK, CR, INTEGER, SIMPLE,
};
use vstd::prelude::*;
use vstd::utf8::{
    encode_utf8, encode_utf8_decode_utf8, encode_utf8_valid_utf8, is_ascii_chars,
    is_ascii_chars_encode_utf8,
};

verus! {

/// Whether the bytes of `d` say by themselves where they end.
///
/// An integer is written without an end mark, so it does not; nor does an
/// array whose last value does not.
pub open spec fn closed(d: Datum) -> bool
    decreases d,
{
    match d {
        Datum::Simple(_) => true,
        Datum::Bulk(_) => true,
        Datum::Array(items) => items.len() == 0 || closed(items.last()),
        _ => false,
    }
}

/// Whether `d` is read back from its own bytes.
///
/// - A simple string must hold no carriage return followed by a line feed:
///   the first one ends it.
/// - A bulk string must be ASCII: its length is written in characters and
///   read in bytes.
/// - In an array, every value must itself be read back, and every value but
///   the last must say where it ends.
/// - The null bulk string, an error message and the internal tag are never
///   read back: the reader knows no form for them.
pub open spec fn faithful(d: Datum) -> bool
    decreases d,
{
    match d {
        Datum::Simple(text) => !has_crlf(encode_utf8(text)),
        Datum::Bulk(text) => is_ascii_chars(text) && text.len() <= i64::MAX,
        Datum::Array(items) => {
            &&& items.len() <= i64::MAX
            &&& forall|i: int| 0 <= i < items.len() ==> faithful(#[trigger] items[i])
            &&& forall|i: int| 0 <= i < items.len() - 1 ==> closed(#[trigger] items[i])
        },
        Datum::Int(n) => i64::MIN <= n <= i64::MAX,
        _ => false,
    }
}

/// A line without a line end inside it, followed by a line end, is the first line.
pub proof fn lemma_first_line(line: Seq<u8>, rest: Seq<u8>)
    requires
        !has_crlf(line),
    ensures
        first_line(line + crlf() + rest) == Some((line, line.len() as int + 2)),
{
    let s = line + crlf() + rest;
    let n = line.len() as int;
    lemma_find_crlf(s, 0);
    assert(crlf_at(s, n));
    assert forall|i: int| 0 <= i < n implies !crlf_at(s, i) by {
        if crlf_at(s, i) {
            if i + 1 < n {
                assert(crlf_at(line, i));
            } else {
                assert(s[i + 1] == CR);
            }
        }
    }
    assert(s.subrange(0, n) =~= line);
}

/// Digits hold no line end.
pub proof fn lemma_digits_no_crlf(s: Seq<u8>)
    requires
        all_digits(s),
    ensures
        !has_crlf(s),
{
    assert forall|i: int| !crlf_at(s, i) by {
        if crlf_at(s, i) {
            assert(is_digit(s[i]));
        }
    }
}

/// A simple string without a line end inside it is read back, whatever follows.
proof fn lemma_simple_back(text: Seq<char>, tail: Seq<u8>)
    requires
        faithful(Datum::Simple(text)),
    ensures
        decode(encode(Datum::Simple(text)) + tail) == Ok::<(Datum, int), RespError>(
            (Datum::Simple(text), encode(Datum::Simple(text)).len() as int),
        ),
{
    let s = encode(Datum::Simple(text)) + tail;
    let enc = encode_utf8(text);
    assert(payload(s) =~= enc + crlf() + tail);
    lemma_first_line(enc, tail);
    encode_utf8_valid_utf8(text);
    encode_utf8_decode_utf8(text);
    assert(s[0] == SIMPLE);
}

/// An ASCII bulk string is read back, whatever follows.
proof fn lemma_bulk_back(text: Seq<char>, tail: Seq<u8>)
    requires
        faithful(Datum::Bulk(text)),
    ensures
        decode(encode(Datum::Bulk(text)) + tail) == Ok::<(Datum, int), RespError>(
            (Datum::Bulk(text), encode(Datum::Bulk(text)).len() as int),
        ),
{
    let s = encode(Datum::Bulk(text)) + tail;
    let enc = encode_utf8(text);
    let digits = nat_digits(text.len());
    is_ascii_chars_encode_utf8(text);
    lemma_nat_digits(text.len());
    lemma_digits_no_crlf(digits);
    lemma_parse_nat_digits(text.len());
    assert(payload(s) =~= digits + crlf() + (enc + crlf() + tail));
    lemma_first_line(digits, enc + crlf() + tail);
    encode_utf8_valid_utf8(text);
    encode_utf8_decode_utf8(text);
    let start: int = digits.len() as int + 3;
    assert(s.subrange(start, start + text.len()) =~= enc);
    assert(s[0] == BULK);
}

/// An integer is read back where nothing follows.
proof fn lemma_integer_back(n: int)
    requires
        faithful(Datum::Int(n)),
    ensures
        decode(encode(Datum::Int(n))) == Ok::<(Datum, int), RespError>(
            (Datum::Int(n), encode(Datum::Int(n)).len() as int),
        ),
{
    let s = encode(Datum::Int(n));
    assert(payload(s) =~= int_digits(n));
    lemma_parse_int_digits(n);
    assert(s[0] == INTEGER);
}

/// The count of an array is read back, whatever follows.
proof fn lemma_count_back(count: nat, body: Seq<u8>)
    requires
        count <= i64::MAX,
    ensures
        first_line(nat_digits(count) + crlf() + body) == Some(
            (nat_digits(count), nat_digits(count).len() as int + 2),
        ),
        parse_decimal(nat_digits(count)) == Some(count as i64),
{
    lemma_nat_digits(count);
    lemma_digits_no_crlf(nat_digits(count));
    lemma_parse_nat_digits(count);
    lemma_first_line(nat_digits(count), body);
}

/// A value that is read back from its own bytes is also read back when more
/// bytes follow, provided that the value says where it ends.
pub proof fn lemma_decode_encode(d: Datum, tail: Seq<u8>)
    requires
        faithful(d),
        closed(d) || tail.len() == 0,
    ensures
        decode(encode(d) + tail) == Ok::<(Datum, int), RespError>((d, encode(d).len() as int)),
    decreases d,
{
    let s = encode(d) + tail;
    match d {
        Datum::Simple(text) => {
            lemma_simple_back(text, tail);
        },
        Datum::Bulk(text) => {
            lemma_bulk_back(text, tail);
        },
        Datum::Array(items) => {
            let digits = nat_digits(items.len());
            let body = encode_all(items) + tail;
            lemma_count_back(items.len(), body);
            assert(payload(s) =~= digits + crlf() + body);
            assert(s[0] == ARRAY);
            let start: int = digits.len() as int + 3;
            if items.len() == 0 {
                assert(items =~= Seq::<Datum>::empty());
                assert(encode_all(items) =~= Seq::<u8>::empty());
            } else {
                assert(s.subrange(start, s.len() as int) =~= body);
                lemma_decode_encode_all(items, tail);
            }
        },
        Datum::Int(n) => {
            lemma_integer_back(n);
            assert(s =~= encode(d));
        },
        _ => {},
    }
}

/// Values that are read back one by one are read back one after the other,
/// provided that each but the last says where it ends.
pub proof fn lemma_decode_encode_all(items: Seq<Datum>, tail: Seq<u8>)
    requires
        forall|i: int| 0 <= i < items.len() ==> faithful(#[trigger] items[i]),
        forall|i: int| 0 <= i < items.len() - 1 ==> closed(#[trigger] items[i]),
        items.len() == 0 || closed(items.last()) || tail.len() == 0,
    ensures
        decode_items(encode_all(items) + tail, items.len()) == Ok::<(Seq<Datum>, int), RespError>(
            (items, encode_all(items).len() as int),
        ),
    decreases items,
{
    let s = encode_all(items) + tail;
    if items.len() == 0 {
        assert(items =~= Seq::<Datum>::empty());
    } else {
        let first = items[0];
        let rest = items.drop_first();
        let after = encode_all(rest) + tail;
        assert(s =~= encode(first) + after);
        if items.len() == 1 {
            assert(rest =~= Seq::<Datum>::empty());
            assert(encode_all(rest) =~= Seq::<u8>::empty());
            assert(after =~= tail);
            assert(items.last() == first);
        } else {
            assert(closed(items[0]));
        }
        lemma_decode_encode(first, after);
        let used = encode(first).len() as int;
        assert(s.subrange(used, s.len() as int) =~= after);
        assert forall|i: int| 0 <= i < rest.len() implies faithful(#[trigger] rest[i]) by {
            assert(rest[i] == items[i + 1]);
        }
        assert forall|i: int| 0 <= i < rest.len() - 1 implies closed(#[trigger] rest[i]) by {
            assert(rest[i] == items[i + 1]);
        }
        if rest.len() > 0 {
            assert(rest.last() == items.last());
        }
        lemma_decode_encode_all(rest, tail);
        assert(seq![first] + rest =~= items);
    }
}

/// Reading the bytes that a value was written as gives the value back, and
/// takes up all of the bytes.
///
/// This holds of the values that `faithful` admits.
pub proof fn round_trip(d: Datum)
    requires
        faithful(d),
    ensures
        decode(encode(d)) == Ok::<(Datum, int), RespError>((d, encode(d).len() as int)),
{
    lemma_decode_encode(d, Seq::empty());
    assert(encode(d) + Seq::<u8>::empty() =~= encode(d));
}

} // verus!
