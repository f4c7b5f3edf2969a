//! Comparing a value's wire form with an expected hexadecimal text.

use vstd::prelude::*;
use vstd::string::*;
use crate::array::{array_encoding, encode_array};
use crate::cbor_encodable::CBOREncodable;
use crate::hex::{bytes_to_hex, hex_text};

verus! {

/// Whether `data`, in lower-case hexadecimal digits, is `expected`.
fn spells(data: &Vec<u8>, expected: &str) -> (same: bool)
    ensures
        same == (hex_text(data@) == expected@),
{
    bytes_to_hex(data.as_slice()) == String::from_str(expected)
}

/// Whether the wire form of `t`, in lower-case hexadecimal digits, is
/// `expected`.
pub fn test_encode<T: CBOREncodable>(t: T, expected: &str) -> (same: bool)
    ensures
        same == (hex_text(t.encoding()) == expected@),
{
    spells(&t.cbor_data(), expected)
}

/// Whether the wire form of the array of the items of `t`, in lower-case
/// hexadecimal digits, is `expected`.
pub fn test_encode_array<T: CBOREncodable>(t: &[T], expected: &str) -> (same: bool)
    ensures
        same == (hex_text(array_encoding(t@)) == expected@),
{
    spells(&encode_array(t), expected)
}

/// Whether the wire form of the array of the items of `t`, which may be of
/// different types, is `expected` in lower-case hexadecimal digits.
pub fn test_encode_heterogenous_array(t: &[Box<dyn CBOREncodable>], expected: &str) -> (same: bool)
    ensures
        same == (hex_text(array_encoding(t@)) == expected@),
{
    spells(&encode_array(t), expected)
}

} // verus!
