use vstd::prelude::*;

verus! {

/// The reasons for which decoding can fail.
#[derive(Clone, Copy, Debug, PartialEq, Eq, Structural)]
pub enum DecodeError {
    /// The node's tag is not the one the requested type has.
    WrongType,
    /// The header's leading byte holds an additional-information value
    /// outside the defined set.
    MalformedHeader,
    /// The buffer ends before the bytes that the header announces.
    TruncatedInput,
    /// The header is well formed but a shorter form holds the same value.
    NonCanonicalEncoding,
}

} // verus!
