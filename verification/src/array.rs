//! The wire form of a sequence of items: the header carries their count, and
//! the items follow in order.

use vstd::prelude::*;
use crate::cbor_encodable::CBOREncodable;
use crate::varint::{append_varint, header_bytes, MajorType};

verus! {

/// The wire form of an array of items: the canonical header of their count,
/// then the wire form of each item in turn.
pub open spec fn array_encoding<T: CBOREncodable>(items: Seq<T>) -> Seq<u8> {
    header_bytes(MajorType::Array, items.len()) + items.flat_map(|item: T| item.encoding())
}

/// A boxed value has the wire form of the value in the box, so that items of
/// different types can stand in one array.
impl CBOREncodable for Box<dyn CBOREncodable> {
    open spec fn encoding(&self) -> Seq<u8> {
        (**self).encoding()
    }

    fn cbor_data(&self) -> (data: Vec<u8>) {
        (**self).cbor_data()
    }
}

/// Writes the items as an array.
pub fn encode_array<T: CBOREncodable>(items: &[T]) -> (data: Vec<u8>)
    ensures
        data@ == array_encoding(items@),
{
    let ghost wire = |item: T| item.encoding();
    let mut data: Vec<u8> = Vec::new();
    append_varint(&mut data, MajorType::Array, items.len() as u64);
    let mut i: usize = 0;
    while i < items.len()
        invariant
            i <= items.len(),
            wire == |item: T| item.encoding(),
            data@ == header_bytes(MajorType::Array, items@.len()) + items@.take(i as int).flat_map(
                wire,
            ),
        decreases items.len() - i,
    {
        let mut item = items[i].cbor_data();
        proof {
            items@.lemma_flat_map_take_append(wire, i as int);
        }
        data.append(&mut item);
        i = i + 1;
    }
    assert(items@.take(i as int) =~= items@);
    data
}

/// A slice of items has the wire form of their array.
impl<T: CBOREncodable> CBOREncodable for [T] {
    open spec fn encoding(&self) -> Seq<u8> {
        array_encoding(self@)
    }

    fn cbor_data(&self) -> (data: Vec<u8>) {
        encode_array(self)
    }
}

/// A vector of items has the wire form of their array.
impl<T: CBOREncodable> CBOREncodable for Vec<T> {
    open spec fn encoding(&self) -> Seq<u8> {
        array_encoding(self@)
    }

    fn cbor_data(&self) -> (data: Vec<u8>) {
        encode_array(self.as_slice())
    }
}

} // verus!
