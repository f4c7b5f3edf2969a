//! The decoded item: one case for each major type.

use vstd::prelude::*;
use crate::bytes::Bytes;
use crate::varint::MajorType;

verus! {

/// An item that a decode step has classified and delimited, before a typed
/// value is taken out of it.
#[derive(Debug, PartialEq)]
pub enum CBOR {
    /// An unsigned integer.
    Unsigned(u64),
    /// A negative integer, held as the header's value `n`; it stands for `-1 - n`.
    Negative(u64),
    /// A byte string.
    Bytes(Bytes),
    /// A text string.
    Text(String),
    /// A sequence of items.
    Array(Vec<CBOR>),
    /// A sequence of pairs of a key and a value.
    Mapping(Vec<(CBOR, CBOR)>),
    /// An item with a numeric tag before it.
    Tagged(u64, Box<CBOR>),
    /// A simple value, held as the header's value.
    Simple(u64),
}

impl CBOR {
    /// The major type that this item is tagged with.
    pub open spec fn major(self) -> MajorType {
        match self {
            CBOR::Unsigned(_) => MajorType::Unsigned,
            CBOR::Negative(_) => MajorType::Negative,
            CBOR::Bytes(_) => MajorType::Bytes,
            CBOR::Text(_) => MajorType::Text,
            CBOR::Array(_) => MajorType::Array,
            CBOR::Mapping(_) => MajorType::Mapping,
            CBOR::Tagged(_, _) => MajorType::Tagged,
            CBOR::Simple(_) => MajorType::Simple,
        }
    }

    /// The major type that this item is tagged with.
    pub fn major_type(&self) -> (major: MajorType)
        ensures
            major == self.major(),
    {
        match self {
            CBOR::Unsigned(_) => MajorType::Unsigned,
            CBOR::Negative(_) => MajorType::Negative,
            CBOR::Bytes(_) => MajorType::Bytes,
            CBOR::Text(_) => MajorType::Text,
            CBOR::Array(_) => MajorType::Array,
            CBOR::Mapping(_) => MajorType::Mapping,
            CBOR::Tagged(_, _) => MajorType::Tagged,
            CBOR::Simple(_) => MajorType::Simple,
        }
    }
}

} // verus!
