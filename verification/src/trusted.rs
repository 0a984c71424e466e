//! The calls that leave the verified code. Verus takes the contracts in this
//! file on trust; each doc comment says what is claimed of the function called.

use bytes::BytesMut;
use tokio::time::Instant;
use vstd::prelude::*;
use vstd::utf8::{encode_utf8, valid_utf8};

verus! {

/// `bytes::BytesMut`, seen from the verified code as an opaque buffer.
#[verifier::external_type_specification]
#[verifier::external_body]
pub struct ExBytesMut(bytes::BytesMut);

/// The bytes that a buffer holds, first to last.
pub uninterp spec fn buffer_bytes(buffer: BytesMut) -> Seq<u8>;

/// Copies the bytes of a `BytesMut` out, through its `Deref` to `[u8]`.
///
/// Claimed: the copy holds exactly the buffer's bytes, in order.
#[verifier::external_body]
pub(crate) fn buffer_to_vec(buffer: &BytesMut) -> (copy: Vec<u8>)
    ensures
        copy@ == buffer_bytes(*buffer),
{
    buffer.to_vec()
}

/// `String::from_utf8`, with its error dropped.
///
/// Claimed: a string that is returned has exactly the given bytes, and none
/// is returned only where the bytes are not well-formed UTF-8.
#[verifier::external_body]
pub(crate) fn utf8_text(bytes: Vec<u8>) -> (text: Option<String>)
    ensures
        match text {
            Some(t) => encode_utf8(t@) == bytes@,
            None => !valid_utf8(bytes@),
        },
{
    match String::from_utf8(bytes) {
        Ok(text) => Some(text),
        Err(_) => None,
    }
}

/// `tokio::time::Instant`, seen from the verified code as an opaque point in time.
#[verifier::external_type_specification]
#[verifier::external_body]
pub struct ExInstant(tokio::time::Instant);

/// `tokio::time::Instant::now`. Nothing is claimed of the instant returned.
#[verifier::external_body]
pub(crate) fn instant_now() -> (now: Instant) {
    Instant::now()
}

/// `tokio::time::Instant::elapsed`, in whole milliseconds.
///
/// Nothing is claimed of the number returned: it depends on the clock.
#[verifier::external_body]
pub(crate) fn elapsed_millis(since: &Instant) -> (millis: u128) {
    since.elapsed().as_millis()
}

} // verus!
