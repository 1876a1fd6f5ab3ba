//! Conversion between strings and arrays of byte values.
use crate::error::{ErrorKind, FilterError};
use crate::text::{lossy_utf8, utf8_bytes, utf8_lossy};
use crate::value::{Args, Number, Value};
use vstd::prelude::*;
use vstd::utf8::{decode_utf8, encode_utf8, valid_utf8};

verus! {

/// The array of numbers that stands for a byte sequence.
pub open spec fn byte_values(b: Seq<u8>) -> Seq<Value> {
    b.map_values(|x: u8| Value::Number(Number::UInt(x as u64)))
}

/// The bytes that an array stands for: each non-negative integer, reduced
/// modulo 256, in order; other elements are skipped.
pub open spec fn kept_bytes(items: Seq<Value>) -> Seq<u8>
    decreases items.len(),
{
    if items.len() == 0 {
        Seq::empty()
    } else {
        let rest = kept_bytes(items.drop_last());
        match items.last().spec_as_u64() {
            Some(n) => rest.push((n % 256) as u8),
            None => rest,
        }
    }
}

/// The array of numbers that stands for a byte sequence.
pub fn byte_array(b: &[u8]) -> (r: Vec<Value>)
    ensures
        r@ == byte_values(b@),
{
    let mut items: Vec<Value> = Vec::new();
    let mut i: usize = 0;
    while i < b.len()
        invariant
            i <= b@.len(),
            items@ == byte_values(b@.subrange(0, i as int)),
        decreases b@.len() - i,
    {
        items.push(Value::Number(Number::UInt(b[i] as u64)));
        i = i + 1;
        assert(items@ =~= byte_values(b@.subrange(0, i as int)));
    }
    assert(b@.subrange(0, b@.len() as int) =~= b@);
    items
}

/// An array of byte values read as UTF-8 text, invalid sequences replaced;
/// any other input is a type error.
pub fn filter_bytes_to_str(value: &Value, args: &Args) -> (r: Result<Value, FilterError>)
    ensures
        match value {
            Value::Array(items) => r matches Ok(Value::String(t)) && t@ == lossy_utf8(
                kept_bytes(items@),
            ) && (valid_utf8(kept_bytes(items@)) ==> t@ == decode_utf8(kept_bytes(items@))),
            _ => r matches Err(e) && e.kind == ErrorKind::TypeError,
        },
{
    match value {
        Value::Array(items) => {
            let mut b: Vec<u8> = Vec::new();
            let mut i: usize = 0;
            while i < items.len()
                invariant
                    i <= items@.len(),
                    b@ == kept_bytes(items@.subrange(0, i as int)),
                decreases items@.len() - i,
            {
                assert(items@.subrange(0, i + 1).drop_last() =~= items@.subrange(0, i as int));
                match items[i].as_u64() {
                    Some(n) => b.push((n % 256) as u8),
                    None => {},
                }
                i = i + 1;
            }
            assert(items@.subrange(0, items@.len() as int) =~= items@);
            Ok(Value::String(utf8_lossy(b.as_slice())))
        },
        _ => Err(FilterError::type_error("Invalid input: expected an array of bytes")),
    }
}

/// A string turned into the array of its UTF-8 byte values; any other input
/// is a type error.
pub fn filter_str_to_bytes(value: &Value, args: &Args) -> (r: Result<Value, FilterError>)
    ensures
        match value {
            Value::String(s) => r matches Ok(Value::Array(items)) && items@ == byte_values(
                encode_utf8(s@),
            ),
            _ => r matches Err(e) && e.kind == ErrorKind::TypeError,
        },
{
    match value {
        Value::String(s) => {
            let b = utf8_bytes(s.as_str());
            Ok(Value::Array(byte_array(b.as_slice())))
        },
        _ => Err(FilterError::type_error("Invalid input: expected a string")),
    }
}

/// Reading back the byte values of a sequence gives the sequence.
pub proof fn lemma_kept_byte_values(b: Seq<u8>)
    ensures
        kept_bytes(byte_values(b)) == b,
    decreases b.len(),
{
    if b.len() > 0 {
        lemma_kept_byte_values(b.drop_last());
        assert(byte_values(b).drop_last() =~= byte_values(b.drop_last()));
        assert(kept_bytes(byte_values(b)) =~= b);
    }
}

/// Turning a string into byte values and back gives the string.
pub proof fn lemma_bytes_round_trip(s: Seq<char>)
    ensures
        kept_bytes(byte_values(encode_utf8(s))) == encode_utf8(s),
        valid_utf8(encode_utf8(s)),
        decode_utf8(encode_utf8(s)) == s,
{
    lemma_kept_byte_values(encode_utf8(s));
    vstd::utf8::encode_utf8_valid_utf8(s);
    vstd::utf8::encode_utf8_decode_utf8(s);
}

} // verus!
