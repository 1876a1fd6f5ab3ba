//! Base64 with the standard alphabet and padding.
use crate::error::{ErrorKind, FilterError};
use crate::filters::bytes::{byte_array, byte_values};
use crate::text::utf8_bytes;
use crate::value::{Args, Value};
use ::base64::Engine;
use vstd::prelude::*;
use vstd::utf8::encode_utf8;

verus! {

#[verifier::external_type_specification]
#[verifier::external_body]
pub struct ExDecodeError(::base64::DecodeError);

/// The character of the standard alphabet for a six-bit value.
pub open spec fn base64_digit(v: int) -> char {
    if v < 26 {
        (65 + v) as char
    } else if v < 52 {
        (71 + v) as char
    } else if v < 62 {
        (v - 4) as char
    } else if v == 62 {
        '+'
    } else {
        '/'
    }
}

/// The six-bit value of a character of the standard alphabet.
pub open spec fn base64_value(c: char) -> int {
    if 'A' <= c <= 'Z' {
        c as int - 65
    } else if 'a' <= c <= 'z' {
        c as int - 71
    } else if '0' <= c <= '9' {
        c as int + 4
    } else if c == '+' {
        62
    } else {
        63
    }
}

/// Standard Base64 text of a byte sequence: each group of three bytes gives
/// four characters, and a last group of one or two bytes is padded with `=`.
pub open spec fn base64_text(b: Seq<u8>) -> Seq<char>
    decreases b.len(),
{
    let b0 = b[0] as int;
    let b1 = b[1] as int;
    let b2 = b[2] as int;
    if b.len() == 0 {
        seq![]
    } else if b.len() == 1 {
        seq![base64_digit(b0 / 4), base64_digit((b0 % 4) * 16), '=', '=']
    } else if b.len() == 2 {
        seq![
            base64_digit(b0 / 4),
            base64_digit((b0 % 4) * 16 + b1 / 16),
            base64_digit((b1 % 16) * 4),
            '=',
        ]
    } else {
        seq![
            base64_digit(b0 / 4),
            base64_digit((b0 % 4) * 16 + b1 / 16),
            base64_digit((b1 % 16) * 4 + b2 / 64),
            base64_digit(b2 % 64),
        ] + base64_text(b.subrange(3, b.len() as int))
    }
}

/// The bytes that Base64 text stands for, read four characters at a time.
pub open spec fn base64_data(t: Seq<char>) -> Seq<u8>
    decreases t.len(),
{
    if t.len() < 4 {
        seq![]
    } else {
        let v0 = base64_value(t[0]);
        let v1 = base64_value(t[1]);
        let v2 = base64_value(t[2]);
        let v3 = base64_value(t[3]);
        let x = (v0 * 4 + v1 / 16) as u8;
        let y = ((v1 % 16) * 16 + v2 / 4) as u8;
        let z = ((v2 % 4) * 64 + v3) as u8;
        if t[2] == '=' {
            seq![x]
        } else if t[3] == '=' {
            seq![x, y]
        } else {
            seq![x, y, z] + base64_data(t.subrange(4, t.len() as int))
        }
    }
}

/// Whether a text is the Base64 text of some byte sequence.
pub open spec fn is_base64(t: Seq<char>) -> bool {
    exists|b: Seq<u8>| base64_text(b) == t
}

proof fn lemma_digit(v: int)
    requires
        0 <= v < 64,
    ensures
        base64_value(base64_digit(v)) == v,
        base64_digit(v) != '=',
{
}

proof fn lemma_group(a: int, b: int, c: int)
    requires
        0 <= a < 256,
        0 <= b < 256,
        0 <= c < 256,
    ensures
        0 <= a / 4 < 64,
        0 <= (a % 4) * 16 + b / 16 < 64,
        0 <= (b % 16) * 4 + c / 64 < 64,
        0 <= c % 64 < 64,
        (a / 4) * 4 + ((a % 4) * 16 + b / 16) / 16 == a,
        (((a % 4) * 16 + b / 16) % 16) * 16 + ((b % 16) * 4 + c / 64) / 4 == b,
        (((b % 16) * 4 + c / 64) % 4) * 64 + c % 64 == c,
{
    assert(0 <= (a % 4) * 16 + b / 16 < 64) by (nonlinear_arith)
        requires
            0 <= a < 256,
            0 <= b < 256,
    ;
    assert(((a % 4) * 16 + b / 16) / 16 == a % 4 && ((a % 4) * 16 + b / 16) % 16 == b / 16)
        by (nonlinear_arith)
        requires
            0 <= a < 256,
            0 <= b < 256,
    ;
    assert(0 <= (b % 16) * 4 + c / 64 < 64) by (nonlinear_arith)
        requires
            0 <= b < 256,
            0 <= c < 256,
    ;
    assert(((b % 16) * 4 + c / 64) / 4 == b % 16 && ((b % 16) * 4 + c / 64) % 4 == c / 64)
        by (nonlinear_arith)
        requires
            0 <= b < 256,
            0 <= c < 256,
    ;
}

/// Reading Base64 text back gives the bytes it was made from.
pub proof fn lemma_base64_data_of_text(b: Seq<u8>)
    ensures
        base64_data(base64_text(b)) == b,
    decreases b.len(),
{
    let t = base64_text(b);
    let b0 = b[0] as int;
    let b1 = b[1] as int;
    let b2 = b[2] as int;
    if b.len() == 0 {
    } else if b.len() == 1 {
        lemma_group(b0, 0, 0);
        lemma_digit(b0 / 4);
        lemma_digit((b0 % 4) * 16);
        assert(base64_data(t) =~= b);
    } else if b.len() == 2 {
        lemma_group(b0, b1, 0);
        lemma_digit(b0 / 4);
        lemma_digit((b0 % 4) * 16 + b1 / 16);
        lemma_digit((b1 % 16) * 4);
        assert(base64_data(t) =~= b);
    } else {
        let rest = b.subrange(3, b.len() as int);
        lemma_group(b0, b1, b2);
        lemma_digit(b0 / 4);
        lemma_digit((b0 % 4) * 16 + b1 / 16);
        lemma_digit((b1 % 16) * 4 + b2 / 64);
        lemma_digit(b2 % 64);
        lemma_base64_data_of_text(rest);
        assert(t.subrange(4, t.len() as int) =~= base64_text(rest));
        assert(base64_data(t) =~= b);
    }
}

/// Relies on `base64::engine::general_purpose::STANDARD.encode`: standard
/// alphabet, padded.
#[verifier::external_body]
fn encode_standard(b: &[u8]) -> (r: String)
    ensures
        r@ == base64_text(b@),
{
    ::base64::engine::general_purpose::STANDARD.encode(b)
}

/// Relies on `base64::engine::general_purpose::STANDARD.decode`: with
/// canonical padding required and no trailing bits allowed, it accepts exactly
/// the texts that `encode` gives, and returns the bytes they were made from.
#[verifier::external_body]
fn decode_standard(t: &str) -> (r: Result<Vec<u8>, ::base64::DecodeError>)
    ensures
        r matches Ok(v) ==> base64_text(v@) == t@,
        is_base64(t@) ==> r is Ok,
{
    ::base64::engine::general_purpose::STANDARD.decode(t)
}

/// A string's UTF-8 bytes as Base64 text; any other input reads as `""`.
pub fn filter_base64_encode(value: &Value, args: &Args) -> (r: Result<Value, FilterError>)
    ensures
        r matches Ok(Value::String(t)) && t@ == base64_text(encode_utf8(value.spec_text())),
{
    let b = utf8_bytes(value.as_str_or_empty());
    Ok(Value::String(encode_standard(b.as_slice())))
}

/// Base64 text (of a string input; any other input reads as `""`) decoded
/// into an array of byte values; text that no bytes encode to is a decode
/// error.
pub fn filter_base64_decode(value: &Value, args: &Args) -> (r: Result<Value, FilterError>)
    ensures
        if is_base64(value.spec_text()) {
            r matches Ok(Value::Array(items)) && items@ == byte_values(
                base64_data(value.spec_text()),
            )
        } else {
            r matches Err(e) && e.kind == ErrorKind::DecodeError
        },
{
    let t = value.as_str_or_empty();
    match decode_standard(t) {
        Ok(b) => {
            proof {
                lemma_base64_data_of_text(b@);
            }
            Ok(Value::Array(byte_array(b.as_slice())))
        },
        Err(_) => Err(FilterError::decode_error("Failed to decode Base64: invalid input")),
    }
}

/// Decoding the Base64 text of a string's bytes gives those bytes back.
pub proof fn lemma_base64_round_trip(s: Seq<char>)
    ensures
        is_base64(base64_text(encode_utf8(s))),
        base64_data(base64_text(encode_utf8(s))) == encode_utf8(s),
{
    lemma_base64_data_of_text(encode_utf8(s));
}

} // verus!
