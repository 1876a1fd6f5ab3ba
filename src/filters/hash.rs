//! Digests rendered as lower-case hexadecimal.
use crate::error::FilterError;
use crate::text::{push_char, utf8_bytes};
use crate::value::{Args, Value};
use vstd::prelude::*;
use vstd::utf8::encode_utf8;

verus! {

/// The MD5 digest of a byte sequence.
pub uninterp spec fn md5_digest(b: Seq<u8>) -> Seq<u8>;

/// The SHA-1 digest of a byte sequence.
pub uninterp spec fn sha1_digest(b: Seq<u8>) -> Seq<u8>;

/// The SHA-256 digest of a byte sequence.
pub uninterp spec fn sha256_digest(b: Seq<u8>) -> Seq<u8>;

/// Relies on `md5::compute`: the 16-byte MD5 digest of the input.
#[verifier::external_body]
fn md5_bytes(b: &[u8]) -> (r: Vec<u8>)
    ensures
        r@ == md5_digest(b@),
        r@.len() == 16,
{
    ::md5::compute(b).0.to_vec()
}

/// Relies on `sha1::Sha1::digest`: the 20-byte SHA-1 digest of the input.
#[verifier::external_body]
fn sha1_bytes(b: &[u8]) -> (r: Vec<u8>)
    ensures
        r@ == sha1_digest(b@),
        r@.len() == 20,
{
    <::sha1::Sha1 as ::sha1::Digest>::digest(b).to_vec()
}

/// Relies on `sha2::Sha256::digest`: the 32-byte SHA-256 digest of the input.
#[verifier::external_body]
fn sha256_bytes(b: &[u8]) -> (r: Vec<u8>)
    ensures
        r@ == sha256_digest(b@),
        r@.len() == 32,
{
    <::sha2::Sha256 as ::sha2::Digest>::digest(b).to_vec()
}

/// The lower-case hexadecimal digit of a value below 16.
pub open spec fn hex_lower(v: int) -> char {
    if v < 10 {
        (48 + v) as char
    } else {
        (87 + v) as char
    }
}

pub open spec fn is_lower_hex(c: char) -> bool {
    ('0' <= c <= '9') || ('a' <= c <= 'f')
}

/// Two lower-case hex digits per byte, high half first.
pub open spec fn hex_text(b: Seq<u8>) -> Seq<char>
    decreases b.len(),
{
    if b.len() == 0 {
        seq![]
    } else {
        hex_text(b.drop_last()) + seq![
            hex_lower(b.last() as int / 16),
            hex_lower(b.last() as int % 16),
        ]
    }
}

/// Hex text has two digits per byte, each of them lower-case hex.
pub proof fn lemma_hex_text_shape(b: Seq<u8>)
    ensures
        hex_text(b).len() == 2 * b.len(),
        forall|i: int| 0 <= i < hex_text(b).len() ==> is_lower_hex(#[trigger] hex_text(b)[i]),
    decreases b.len(),
{
    if b.len() > 0 {
        lemma_hex_text_shape(b.drop_last());
    }
}

fn hex_digit_char(v: u8) -> (r: char)
    requires
        v < 16,
    ensures
        r == hex_lower(v as int),
{
    if v < 10 {
        (48 + v) as char
    } else {
        (87 + v) as char
    }
}

/// Bytes as lower-case hexadecimal text.
pub fn to_hex(b: &[u8]) -> (r: String)
    ensures
        r@ == hex_text(b@),
{
    let mut r = String::new();
    let mut i: usize = 0;
    while i < b.len()
        invariant
            i <= b@.len(),
            r@ == hex_text(b@.subrange(0, i as int)),
        decreases b@.len() - i,
    {
        let x = b[i];
        push_char(&mut r, hex_digit_char(x / 16));
        push_char(&mut r, hex_digit_char(x % 16));
        assert(b@.subrange(0, i + 1).drop_last() =~= b@.subrange(0, i as int));
        i = i + 1;
    }
    assert(b@.subrange(0, b@.len() as int) =~= b@);
    r
}

/// The MD5 digest of a string's UTF-8 bytes, in hex; any other input reads as `""`.
pub fn filter_md5(value: &Value, args: &Args) -> (r: Result<Value, FilterError>)
    ensures
        r matches Ok(Value::String(t)) && t@ == hex_text(md5_digest(encode_utf8(value.spec_text())))
            && t@.len() == 32 && forall|i: int| 0 <= i < t@.len() ==> is_lower_hex(#[trigger] t@[i]),
{
    let b = utf8_bytes(value.as_str_or_empty());
    let d = md5_bytes(b.as_slice());
    proof {
        lemma_hex_text_shape(d@);
    }
    Ok(Value::String(to_hex(d.as_slice())))
}

/// The SHA-1 digest of a string's UTF-8 bytes, in hex; any other input reads as `""`.
pub fn filter_sha1(value: &Value, args: &Args) -> (r: Result<Value, FilterError>)
    ensures
        r matches Ok(Value::String(t)) && t@ == hex_text(sha1_digest(encode_utf8(value.spec_text())))
            && t@.len() == 40 && forall|i: int| 0 <= i < t@.len() ==> is_lower_hex(#[trigger] t@[i]),
{
    let b = utf8_bytes(value.as_str_or_empty());
    let d = sha1_bytes(b.as_slice());
    proof {
        lemma_hex_text_shape(d@);
    }
    Ok(Value::String(to_hex(d.as_slice())))
}

/// The SHA-256 digest of a string's UTF-8 bytes, in hex; any other input reads as `""`.
pub fn filter_sha256(value: &Value, args: &Args) -> (r: Result<Value, FilterError>)
    ensures
        r matches Ok(Value::String(t)) && t@ == hex_text(
            sha256_digest(encode_utf8(value.spec_text())),
        ) && t@.len() == 64 && forall|i: int| 0 <= i < t@.len() ==> is_lower_hex(#[trigger] t@[i]),
{
    let b = utf8_bytes(value.as_str_or_empty());
    let d = sha256_bytes(b.as_slice());
    proof {
        lemma_hex_text_shape(d@);
    }
    Ok(Value::String(to_hex(d.as_slice())))
}

} // verus!
