//! Percent-encoding of URL components.
use crate::error::{ErrorKind, FilterError};
use crate::value::{Args, Value};
use vstd::prelude::*;
use vstd::utf8::{decode_utf8, encode_utf8, valid_utf8};

verus! {

broadcast use vstd::utf8::encode_utf8_valid_utf8, vstd::utf8::encode_utf8_decode_utf8;

#[verifier::external_type_specification]
#[verifier::external_body]
pub struct ExFromUtf8Error(std::string::FromUtf8Error);

/// The bytes left as they are: ASCII letters and digits, `-`, `.`, `_`, `~`.
pub open spec fn is_unreserved(c: u8) -> bool {
    (48 <= c <= 57) || (65 <= c <= 90) || (97 <= c <= 122) || c == 45 || c == 46 || c == 95
        || c == 126
}

/// The upper-case hexadecimal digit of a value below 16.
pub open spec fn hex_upper(v: int) -> u8 {
    if v < 10 {
        (48 + v) as u8
    } else {
        (55 + v) as u8
    }
}

pub open spec fn is_hex_digit(c: u8) -> bool {
    (48 <= c <= 57) || (65 <= c <= 70) || (97 <= c <= 102)
}

/// The value of a hexadecimal digit of either case.
pub open spec fn hex_value(c: u8) -> int {
    if 48 <= c <= 57 {
        c - 48
    } else if 65 <= c <= 70 {
        c - 55
    } else {
        c - 87
    }
}

/// Each byte that is not unreserved written as `%` and two upper-case hex digits.
pub open spec fn percent_encoded(b: Seq<u8>) -> Seq<u8>
    decreases b.len(),
{
    if b.len() == 0 {
        seq![]
    } else {
        let c = b[0];
        let head = if is_unreserved(c) {
            seq![c]
        } else {
            seq![37u8, hex_upper(c as int / 16), hex_upper(c as int % 16)]
        };
        head + percent_encoded(b.drop_first())
    }
}

/// Whether every `%` is followed by two hexadecimal digits.
pub open spec fn percent_well_formed(b: Seq<u8>) -> bool
    decreases b.len(),
{
    if b.len() == 0 {
        true
    } else if b[0] == 37 {
        b.len() >= 3 && is_hex_digit(b[1]) && is_hex_digit(b[2]) && percent_well_formed(
            b.subrange(3, b.len() as int),
        )
    } else {
        percent_well_formed(b.drop_first())
    }
}

/// Each `%` with its two hex digits replaced by the byte they give.
pub open spec fn percent_decoded(b: Seq<u8>) -> Seq<u8>
    decreases b.len(),
{
    if b.len() == 0 {
        seq![]
    } else if b[0] == 37 && b.len() >= 3 {
        seq![(hex_value(b[1]) * 16 + hex_value(b[2])) as u8] + percent_decoded(
            b.subrange(3, b.len() as int),
        )
    } else {
        seq![b[0]] + percent_decoded(b.drop_first())
    }
}

/// Relies on `urlencoding::encode`: every byte but the unreserved ones is
/// written `%XX` in upper-case hex.
#[verifier::external_body]
fn percent_encode(s: &str) -> (r: String)
    ensures
        encode_utf8(r@) == percent_encoded(encode_utf8(s@)),
{
    ::urlencoding::encode(s).into_owned()
}

/// Relies on `urlencoding::decode`: on well-formed input each `%XX` becomes
/// its byte, and the result is that byte sequence read as UTF-8, or an error
/// when it is not UTF-8.
#[verifier::external_body]
fn percent_decode(s: &str) -> (r: Result<String, std::string::FromUtf8Error>)
    ensures
        percent_well_formed(encode_utf8(s@)) ==> (r is Ok <==> valid_utf8(
            percent_decoded(encode_utf8(s@)),
        )),
        percent_well_formed(encode_utf8(s@)) ==> (r matches Ok(t) ==> t@ == decode_utf8(
            percent_decoded(encode_utf8(s@)),
        )),
{
    ::urlencoding::decode(s).map(|d| d.into_owned())
}

fn hex_digit_check(c: u8) -> (r: bool)
    ensures
        r == is_hex_digit(c),
{
    (48 <= c && c <= 57) || (65 <= c && c <= 70) || (97 <= c && c <= 102)
}

/// Whether every `%` in a byte sequence is followed by two hex digits.
pub fn check_percent_well_formed(b: &[u8]) -> (r: bool)
    ensures
        r == percent_well_formed(b@),
{
    let n = b.len();
    let mut i: usize = 0;
    assert(b@.subrange(0, n as int) =~= b@);
    while i < n
        invariant
            n == b@.len(),
            i <= n,
            percent_well_formed(b@) == percent_well_formed(b@.subrange(i as int, n as int)),
        decreases n - i,
    {
        let rest = Ghost(b@.subrange(i as int, n as int));
        if b[i] == 37 {
            if n - i > 2 && hex_digit_check(b[i + 1]) && hex_digit_check(b[i + 2]) {
                assert(rest@.subrange(3, rest@.len() as int) =~= b@.subrange(
                    i + 3,
                    n as int,
                ));
                i = i + 3;
            } else {
                return false;
            }
        } else {
            assert(rest@.drop_first() =~= b@.subrange(i + 1, n as int));
            i = i + 1;
        }
    }
    assert(b@.subrange(n as int, n as int).len() == 0);
    true
}

proof fn lemma_hex(v: int)
    requires
        0 <= v < 16,
    ensures
        is_hex_digit(hex_upper(v)),
        hex_value(hex_upper(v)) == v,
{
}

/// Decoding the percent-encoding of a byte sequence gives it back.
pub proof fn lemma_percent_round_trip(b: Seq<u8>)
    ensures
        percent_well_formed(percent_encoded(b)),
        percent_decoded(percent_encoded(b)) == b,
    decreases b.len(),
{
    if b.len() > 0 {
        let c = b[0];
        let rest = b.drop_first();
        let e = percent_encoded(b);
        lemma_percent_round_trip(rest);
        if is_unreserved(c) {
            assert(e.drop_first() =~= percent_encoded(rest));
        } else {
            lemma_hex(c as int / 16);
            lemma_hex(c as int % 16);
            assert(e.subrange(3, e.len() as int) =~= percent_encoded(rest));
        }
        assert(percent_decoded(e) =~= b);
    }
}

/// A string's UTF-8 bytes percent-encoded; any other input reads as `""`.
pub fn filter_url_encode(value: &Value, args: &Args) -> (r: Result<Value, FilterError>)
    ensures
        r matches Ok(Value::String(t)) && encode_utf8(t@) == percent_encoded(
            encode_utf8(value.spec_text()),
        ),
{
    Ok(Value::String(percent_encode(value.as_str_or_empty())))
}

/// Percent-decoding of a string (any other input reads as `""`); a `%` not
/// followed by two hex digits, or bytes that are not UTF-8, are a decode error.
pub fn filter_url_decode(value: &Value, args: &Args) -> (r: Result<Value, FilterError>)
    ensures
        ({
            let b = encode_utf8(value.spec_text());
            if percent_well_formed(b) && valid_utf8(percent_decoded(b)) {
                r matches Ok(Value::String(t)) && t@ == decode_utf8(percent_decoded(b))
            } else {
                r matches Err(e) && e.kind == ErrorKind::DecodeError
            }
        }),
{
    let s = value.as_str_or_empty();
    if !check_percent_well_formed(s.as_bytes()) {
        return Err(FilterError::decode_error("Failed to decode URL: invalid encoding"));
    }
    match percent_decode(s) {
        Ok(t) => Ok(Value::String(t)),
        Err(_) => Err(FilterError::decode_error("Failed to decode URL: invalid encoding")),
    }
}

/// Decoding the URL encoding of a string gives the string back.
pub proof fn lemma_url_round_trip(s: Seq<char>, t: Seq<char>)
    requires
        encode_utf8(t) == percent_encoded(encode_utf8(s)),
    ensures
        percent_well_formed(encode_utf8(t)),
        valid_utf8(percent_decoded(encode_utf8(t))),
        decode_utf8(percent_decoded(encode_utf8(t))) == s,
{
    lemma_percent_round_trip(encode_utf8(s));
}

} // verus!
