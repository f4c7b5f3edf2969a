//! What a value needs to be written in wire form.

use vstd::prelude::*;

verus! {

/// A value that has a wire form.
pub trait CBOREncodable {
    /// The wire form of the value.
    spec fn encoding(&self) -> Seq<u8>;

    /// Writes the value in wire form.
    fn cbor_data(&self) -> (data: Vec<u8>)
        ensures
            data@ == self.encoding(),
    ;
}

} // verus!
