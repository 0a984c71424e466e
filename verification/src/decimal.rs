//! Decimal text: how integers are written on the wire and read back.

use crate::text::ascii_chars;
use vstd::prelude::*;

verus! {

/// The ASCII code of `0`.
pub const ZERO: u8 = 48;

/// The ASCII code of `-`.
pub const MINUS: u8 = 45;

/// The ASCII code of `+`.
pub const PLUS: u8 = 43;

/// Whether `b` is an ASCII decimal digit.
pub open spec fn is_digit(b: u8) -> bool {
    ZERO <= b <= ZERO + 9
}

/// Whether every byte of `s` is an ASCII decimal digit.
pub open spec fn all_digits(s: Seq<u8>) -> bool {
    forall|i: int| 0 <= i < s.len() ==> is_digit(#[trigger] s[i])
}

/// The decimal digits of `n`, most significant first, without leading zeros.
pub open spec fn nat_digits(n: nat) -> Seq<u8>
    decreases n,
{
    if n < 10 {
        seq![(ZERO + n) as u8]
    } else {
        nat_digits(n / 10).push((ZERO + n % 10) as u8)
    }
}

/// The decimal text of `n`: a minus sign for a negative number, then its digits.
pub open spec fn int_digits(n: int) -> Seq<u8> {
    if n < 0 {
        seq![MINUS] + nat_digits((-n) as nat)
    } else {
        nat_digits(n as nat)
    }
}

/// The number that a run of decimal digits denotes. The empty run denotes 0.
pub open spec fn digits_value(s: Seq<u8>) -> nat
    decreases s.len(),
{
    if s.len() == 0 {
        0
    } else {
        (digits_value(s.drop_last()) * 10 + (s.last() - ZERO)) as nat
    }
}

/// `nat_digits` yields at least one byte, digits only, and they denote `n`.
pub proof fn lemma_nat_digits(n: nat)
    ensures
        nat_digits(n).len() >= 1,
        all_digits(nat_digits(n)),
        digits_value(nat_digits(n)) == n,
    decreases n,
{
    if n < 10 {
        let s = nat_digits(n);
        assert(s.drop_last() =~= Seq::<u8>::empty());
        assert(digits_value(s.drop_last()) == 0);
    } else {
        lemma_nat_digits(n / 10);
        let head = nat_digits(n / 10);
        let s = head.push((ZERO + n % 10) as u8);
        assert(s.drop_last() =~= head);
        assert(s.last() == (ZERO + n % 10) as u8);
    }
}

/// Appends the decimal digits of `n` to `out`.
pub fn push_digits(n: u64, out: &mut Vec<u8>)
    ensures
        final(out)@ == old(out)@ + nat_digits(n as nat),
    decreases n,
{
    if n >= 10 {
        push_digits(n / 10, out);
    }
    let d: u8 = (n % 10) as u8;
    out.push(ZERO + d);
    assert(out@ =~= old(out)@ + nat_digits(n as nat));
}

/// The decimal text of a length or count.
pub fn render_usize(n: usize) -> (text: Vec<u8>)
    ensures
        text@ == nat_digits(n as nat),
{
    let mut text: Vec<u8> = Vec::new();
    push_digits(n as u64, &mut text);
    text
}

/// The decimal text of a signed integer.
pub fn render_i64(n: i64) -> (text: Vec<u8>)
    ensures
        text@ == int_digits(n as int),
{
    let mut text: Vec<u8> = Vec::new();
    if n < 0 {
        text.push(MINUS);
        let magnitude: u64 = (-(n as i128)) as u64;
        push_digits(magnitude, &mut text);
    } else {
        push_digits(n as u64, &mut text);
    }
    text
}

/// The decimal text of `n` as characters.
#[verifier::opaque]
pub open spec fn decimal_text(n: int) -> Seq<char> {
    ascii_chars(int_digits(n))
}

/// The decimal text of a number is ASCII.
pub proof fn lemma_int_digits_ascii(n: int)
    ensures
        forall|i: int| 0 <= i < int_digits(n).len() ==> #[trigger] int_digits(n)[i] < 128,
{
    if n < 0 {
        lemma_nat_digits((-n) as nat);
        let digits = nat_digits((-n) as nat);
        assert forall|i: int| 0 <= i < int_digits(n).len() implies #[trigger] int_digits(n)[i]
            < 128 by {
            if i > 0 {
                assert(is_digit(digits[i - 1]));
            }
        }
    } else {
        lemma_nat_digits(n as nat);
        assert forall|i: int| 0 <= i < int_digits(n).len() implies #[trigger] int_digits(n)[i]
            < 128 by {
            assert(is_digit(nat_digits(n as nat)[i]));
        }
    }
}

/// Whether `b` is ASCII white space: tab, line feed, vertical tab, form feed,
/// carriage return or space.
pub open spec fn is_space(b: u8) -> bool {
    9 <= b <= 13 || b == 32
}

/// `s` without its leading white space.
pub open spec fn trim_start(s: Seq<u8>) -> Seq<u8>
    decreases s.len(),
{
    if s.len() > 0 && is_space(s[0]) {
        trim_start(s.drop_first())
    } else {
        s
    }
}

/// `s` without its trailing white space.
pub open spec fn trim_end(s: Seq<u8>) -> Seq<u8>
    decreases s.len(),
{
    if s.len() > 0 && is_space(s.last()) {
        trim_end(s.drop_last())
    } else {
        s
    }
}

/// `s` without the white space at either end.
pub open spec fn trim(s: Seq<u8>) -> Seq<u8> {
    trim_end(trim_start(s))
}

/// The digits of a signed decimal text: what follows its sign, if it has one.
pub open spec fn unsigned_part(t: Seq<u8>) -> Seq<u8> {
    if t.len() > 0 && (t[0] == MINUS || t[0] == PLUS) {
        t.drop_first()
    } else {
        t
    }
}

/// The integer that the text `s` denotes, if it denotes one that fits `i64`.
///
/// White space at either end is ignored. What remains is an optional sign,
/// `+` or `-`, and then one or more decimal digits.
#[verifier::opaque]
pub open spec fn parse_decimal(s: Seq<u8>) -> Option<i64> {
    let t = trim(s);
    let body = unsigned_part(t);
    if body.len() == 0 || !all_digits(body) {
        None
    } else {
        let v: int = if t[0] == MINUS {
            -(digits_value(body) as int)
        } else {
            digits_value(body) as int
        };
        if i64::MIN <= v <= i64::MAX {
            Some(v as i64)
        } else {
            None
        }
    }
}

/// Trimming leaves alone a text that neither starts nor ends with white space.
pub proof fn lemma_trim_tight(s: Seq<u8>)
    requires
        s.len() > 0,
        !is_space(s[0]),
        !is_space(s.last()),
    ensures
        trim(s) == s,
{
}

/// Reading back the digits of a number gives the number.
pub proof fn lemma_parse_nat_digits(n: nat)
    requires
        n <= i64::MAX,
    ensures
        parse_decimal(nat_digits(n)) == Some(n as i64),
{
    reveal(parse_decimal);
    let s = nat_digits(n);
    lemma_nat_digits(n);
    assert(is_digit(s[0]));
    assert(is_digit(s.last()));
    lemma_trim_tight(s);
}

/// Reading back the decimal text of a number gives the number.
pub proof fn lemma_parse_int_digits(n: int)
    requires
        i64::MIN <= n <= i64::MAX,
    ensures
        parse_decimal(int_digits(n)) == Some(n as i64),
{
    reveal(parse_decimal);
    if n < 0 {
        let digits = nat_digits((-n) as nat);
        let s = int_digits(n);
        lemma_nat_digits((-n) as nat);
        assert(s.last() == digits.last());
        assert(is_digit(digits.last()));
        lemma_trim_tight(s);
        assert(s.drop_first() =~= digits);
    } else {
        lemma_parse_nat_digits(n as nat);
    }
}

/// Whether `b` is ASCII white space.
pub fn is_space_byte(b: u8) -> (yes: bool)
    ensures
        yes == is_space(b),
{
    (9 <= b && b <= 13) || b == 32
}

/// Reads the digits of `buf` from `from` up to `to` as a number no greater
/// than `limit`.
///
/// Returns `None` when there is a byte among them that is no digit, or when
/// the number is greater than `limit`.
pub fn parse_digits(buf: &[u8], from: usize, to: usize, limit: u64) -> (number: Option<u64>)
    requires
        from <= to <= buf@.len(),
        limit >= 9,
    ensures
        number == ({
            let digits = buf@.subrange(from as int, to as int);
            if all_digits(digits) && digits_value(digits) <= limit {
                Some(digits_value(digits) as u64)
            } else {
                None
            }
        }),
{
    let ghost digits = buf@.subrange(from as int, to as int);
    let mut acc: u64 = 0;
    let mut overflow = false;
    let mut i: usize = from;
    assert(digits.subrange(0, 0) =~= Seq::<u8>::empty());
    while i < to
        invariant
            from <= i <= to <= buf@.len(),
            digits == buf@.subrange(from as int, to as int),
            all_digits(digits.subrange(0, i - from)),
            limit >= 9,
            !overflow ==> acc == digits_value(digits.subrange(0, i - from)) && acc <= limit,
            overflow ==> digits_value(digits.subrange(0, i - from)) > limit,
        decreases to - i,
    {
        let b = buf[i];
        if b < ZERO || b > ZERO + 9 {
            assert(digits[i - from] == b);
            assert(!is_digit(digits[i - from]));
            return None;
        }
        let d: u64 = (b - ZERO) as u64;
        let ghost shorter = digits.subrange(0, i - from);
        let ghost longer = digits.subrange(0, i - from + 1);
        assert(longer.drop_last() =~= shorter);
        assert(longer.last() == b);
        assert(digits_value(longer) == digits_value(shorter) * 10 + d);
        assert(all_digits(longer)) by {
            assert forall|j: int| 0 <= j < longer.len() implies is_digit(#[trigger] longer[j]) by {
                if j < shorter.len() {
                    assert(longer[j] == shorter[j]);
                }
            }
        }
        if !overflow {
            if acc > (limit - d) / 10 {
                overflow = true;
            } else {
                acc = acc * 10 + d;
            }
        }
        i += 1;
    }
    assert(digits.subrange(0, i - from) =~= digits);
    if overflow {
        None
    } else {
        Some(acc)
    }
}

/// Reads a signed decimal integer from `buf`.
///
/// Returns `None` when `buf` is not such a text, or denotes a number outside
/// the range of `i64`.
pub fn parse_i64(buf: &[u8]) -> (number: Option<i64>)
    ensures
        number == parse_decimal(buf@),
{
    reveal(parse_decimal);
    let len = buf.len();
    let mut start: usize = 0;
    assert(buf@.subrange(0, len as int) =~= buf@);
    while start < len && is_space_byte(buf[start])
        invariant
            len == buf.len(),
            start <= len,
            trim_start(buf@) == trim_start(buf@.subrange(start as int, len as int)),
        decreases len - start,
    {
        assert(buf@.subrange(start as int, len as int).drop_first() =~= buf@.subrange(
            start + 1,
            len as int,
        ));
        start += 1;
    }
    let ghost lead = buf@.subrange(start as int, len as int);
    assert(trim_start(buf@) == lead);
    let mut end: usize = len;
    while end > start && is_space_byte(buf[end - 1])
        invariant
            len == buf.len(),
            start <= end <= len,
            trim_end(lead) == trim_end(buf@.subrange(start as int, end as int)),
        decreases end - start,
    {
        assert(buf@.subrange(start as int, end as int).drop_last() =~= buf@.subrange(
            start as int,
            end - 1,
        ));
        end -= 1;
    }
    let ghost t = buf@.subrange(start as int, end as int);
    assert(trim(buf@) == t);
    let mut pos: usize = start;
    let mut negative = false;
    if pos < end && (buf[pos] == MINUS || buf[pos] == PLUS) {
        negative = buf[pos] == MINUS;
        pos += 1;
    }
    assert(buf@.subrange(pos as int, end as int) =~= unsigned_part(t));
    if pos == end {
        return None;
    }
    if negative {
        match parse_digits(buf, pos, end, 0x8000_0000_0000_0000) {
            None => None,
            Some(magnitude) => Some((-(magnitude as i128)) as i64),
        }
    } else {
        match parse_digits(buf, pos, end, 0x7fff_ffff_ffff_ffff) {
            None => None,
            Some(magnitude) => Some(magnitude as i64),
        }
    }
}

/// The number that the text `s` denotes, if it denotes one that fits `u64`:
/// an optional `+`, and then one or more decimal digits.
#[verifier::opaque]
pub open spec fn parse_unsigned(s: Seq<u8>) -> Option<u64> {
    let body = if s.len() > 0 && s[0] == PLUS {
        s.drop_first()
    } else {
        s
    };
    if body.len() == 0 || !all_digits(body) || digits_value(body) > u64::MAX {
        None
    } else {
        Some(digits_value(body) as u64)
    }
}

/// Reads an unsigned decimal integer from `buf`.
pub fn parse_u64(buf: &[u8]) -> (number: Option<u64>)
    ensures
        number == parse_unsigned(buf@),
{
    reveal(parse_unsigned);
    let len = buf.len();
    let from: usize = if len > 0 && buf[0] == PLUS {
        1
    } else {
        0
    };
    assert(buf@.subrange(0, len as int) =~= buf@);
    assert(buf@.subrange(1, len as int) =~= buf@.drop_first());
    if from == len {
        return None;
    }
    parse_digits(buf, from, len, u64::MAX)
}

} // verus!
