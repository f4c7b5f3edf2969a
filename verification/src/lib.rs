//! A minimal deterministic binary codec.
//!
//! Every encoded item starts with a header that packs a major type and an
//! unsigned value into one to nine bytes ([`varint`]). A byte string
//! ([`bytes`]) is written as the header of its length followed by its octets,
//! and read back from a buffer or taken out of a decoded item ([`cbor`]). An
//! array ([`array`]) is written as the header of its count followed by its
//! items. Hexadecimal text ([`hex`]) is the textual form of octets.
//!
//! Encoding always writes the canonical, shortest header. Decoding takes a
//! flag that says whether a wider header is refused or read.

pub mod array;
pub mod bytes;
pub mod cbor;
pub mod cbor_encodable;
pub mod decode_error;
pub mod hex;
pub mod test_util;
pub mod varint;

pub use crate::bytes::Bytes;
pub use crate::cbor::CBOR;
pub use crate::cbor_encodable::CBOREncodable;
pub use crate::decode_error::DecodeError;
pub use crate::hex::HexError;
pub use crate::varint::{Header, MajorType};
