//! Calls into std and outside crates that the verified code relies on, each
//! with the contract that the called function's documentation gives.

use vstd::prelude::*;
use crate::text::{decimal_text, drop_leading, signed_decimal_text};

verus! {

/// Relies on `str::trim_start_matches` with a `char` pattern: every leading
/// occurrence of `c` is removed, the rest is kept.
#[verifier::external_body]
pub(crate) fn trim_leading(s: &str, c: char) -> (r: &str)
    ensures
        r@ == drop_leading(s@, c),
{
    s.trim_start_matches(c)
}

/// Relies on `ToString` for `u128`: the decimal digits, without sign or padding.
#[verifier::external_body]
pub(crate) fn u128_text(n: u128) -> (r: String)
    ensures
        r@ == decimal_text(n as nat),
{
    n.to_string()
}

/// Relies on `ToString` for `i128`: a `-` for negatives, then the decimal digits.
#[verifier::external_body]
pub(crate) fn i128_text(n: i128) -> (r: String)
    ensures
        r@ == signed_decimal_text(n as int),
{
    n.to_string()
}

/// Relies on `rand::random_range` (rand 0.9): a value drawn from the
/// half-open range, which must not be empty.
#[verifier::external_body]
pub(crate) fn draw_below(lo: u64, hi: u64) -> (r: u64)
    requires
        lo < hi,
    ensures
        lo <= r < hi,
{
    rand::random_range(lo..hi)
}

/// What `unidecode::unidecode` makes of a text: each character replaced by
/// its ASCII transliteration.
pub uninterp spec fn ascii_of(s: Seq<char>) -> Seq<char>;

/// Relies on `unidecode::unidecode`: the transliteration depends on the
/// characters alone.
#[verifier::external_body]
pub(crate) fn transliterate(s: &str) -> (r: String)
    ensures
        r@ == ascii_of(s@),
{
    unidecode::unidecode(s)
}

/// What `crc32fast::hash` computes: the CRC-32 (IEEE) checksum of the bytes.
pub uninterp spec fn crc32_of(b: Seq<u8>) -> u32;

/// Relies on `crc32fast::hash`: the checksum depends on the bytes alone.
#[verifier::external_body]
pub(crate) fn crc32(b: &[u8]) -> (r: u32)
    ensures
        r == crc32_of(b@),
{
    crc32fast::hash(b)
}

/// Relies on `String`'s `FromIterator<char>`: the characters in order.
#[verifier::external_body]
pub(crate) fn string_of(cs: &Vec<char>) -> (r: String)
    ensures
        r@ == cs@,
{
    cs.iter().collect()
}

/// What `chrono` renders for a Unix time in whole seconds: RFC 3339 in UTC
/// with second precision and a `Z`; `None` when chrono's calendar cannot
/// hold that instant.
pub uninterp spec fn rfc3339_of(secs: int) -> Option<Seq<char>>;

/// Relies on `chrono::DateTime::from_timestamp` (whole seconds, no
/// nanoseconds) and `DateTime::to_rfc3339_opts(SecondsFormat::Secs, true)`:
/// the text depends on the instant alone.
#[verifier::external_body]
pub(crate) fn rfc3339_utc(secs: i64) -> (r: Option<String>)
    ensures
        match r {
            Some(t) => rfc3339_of(secs as int) == Some(t@),
            None => rfc3339_of(secs as int) is None,
        },
{
    match chrono::DateTime::from_timestamp(secs, 0) {
        Some(d) => Some(d.to_rfc3339_opts(chrono::SecondsFormat::Secs, true)),
        None => None,
    }
}

/// What `base64`'s standard engine decodes a text to; `None` when the text
/// is no valid padded standard Base64.
pub uninterp spec fn base64_decoded(s: Seq<char>) -> Option<Seq<u8>>;

/// Relies on `base64::engine::general_purpose::STANDARD.decode`: the bytes
/// depend on the text alone.
#[verifier::external_body]
pub(crate) fn decode_base64(s: &str) -> (r: Option<Vec<u8>>)
    ensures
        match r {
            Some(b) => base64_decoded(s@) == Some(b@),
            None => base64_decoded(s@) is None,
        },
{
    base64::Engine::decode(&base64::engine::general_purpose::STANDARD, s).ok()
}

} // verus!
