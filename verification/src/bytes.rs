//! The byte-string value: an owned sequence of octets, its wire form and its
//! textual renderings.

use vstd::prelude::*;
use vstd::slice::*;
use vstd::string::*;
use crate::cbor::CBOR;
use crate::cbor_encodable::CBOREncodable;
use crate::decode_error::DecodeError;
use crate::hex::{
    append_hex, bytes_to_hex, hex_bytes, hex_error, hex_text, hex_to_bytes, HexError,
};
use crate::varint::{
    append_varint, decode_varint, fits, header_bytes, header_form, is_width, lemma_be_bytes_len,
    lemma_canonical_form, lemma_parse_header_form, lemma_pow256_values, min_width, parse_header,
    theorem_header_prefix_truncated, theorem_header_round_trip, theorem_reading_is_a_form,
    MajorType,
};

verus! {

/// A byte string.
#[derive(Debug)]
pub struct Bytes(Vec<u8>);

impl View for Bytes {
    type V = Seq<u8>;

    closed spec fn view(&self) -> Seq<u8> {
        self.0@
    }
}

/// The wire form of a byte string: the canonical header of its length, then
/// the octets themselves.
pub open spec fn bytes_encoding(data: Seq<u8>) -> Seq<u8> {
    header_bytes(MajorType::Bytes, data.len()) + data
}

/// What reading a byte string at `pos` in `buf` gives: the octets and the
/// number of bytes that header and octets take together.
///
/// An error of the header comes first; then an item of another major type is
/// `WrongType`; then a buffer that ends before the announced octets do is
/// `TruncatedInput`.
pub open spec fn parse_bytes(buf: Seq<u8>, pos: int, canonical: bool) -> Result<
    (Seq<u8>, int),
    DecodeError,
>
    recommends
        0 <= pos,
{
    match parse_header(buf, pos, canonical) {
        Err(error) => Err(error),
        Ok(header) => {
            let start = pos + header.len;
            let end = start + header.value;
            if header.major != MajorType::Bytes {
                Err(DecodeError::WrongType)
            } else if end > buf.len() {
                Err(DecodeError::TruncatedInput)
            } else {
                Ok((buf.subrange(start, end), end - pos))
            }
        },
    }
}

/// The literal form of a byte string: `h'`, the hexadecimal digits, `'`.
pub open spec fn display_text(data: Seq<u8>) -> Seq<char> {
    seq!['h', '\''] + hex_text(data) + seq!['\'']
}

/// A copy holds the same octets.
impl Clone for Bytes {
    fn clone(&self) -> (copy: Self)
        ensures
            copy@ == self@,
    {
        Bytes(self.0.clone())
    }
}

impl PartialEq for Bytes {
    /// Two byte strings are equal when they hold the same octets.
    fn eq(&self, other: &Self) -> (equal: bool) {
        let equal = self.0 == other.0;
        assert(equal == (self.0@ =~= other.0@));
        equal
    }
}

/// What `==` means on byte strings: the same octets, however each was made.
impl vstd::std_specs::cmp::PartialEqSpecImpl for Bytes {
    open spec fn obeys_eq_spec() -> bool {
        true
    }

    open spec fn eq_spec(&self, other: &Self) -> bool {
        self@ == other@
    }
}

impl Bytes {
    /// A byte string that holds a copy of `data`.
    pub fn from_data(data: &[u8]) -> (bytes: Bytes)
        ensures
            bytes@ == data@,
    {
        Bytes(slice_to_vec(data))
    }

    /// The byte string that `hex` spells in hexadecimal digits of either case.
    ///
    /// A text of odd length, or with a character that is no hexadecimal
    /// digit, is refused with the error that says which; nothing panics.
    pub fn from_hex(hex: &str) -> (bytes: Result<Bytes, HexError>)
        ensures
            match bytes {
                Ok(b) => hex_error(hex@) is None && b@ == hex_bytes(hex@),
                Err(error) => hex_error(hex@) == Some(error),
            },
    {
        match hex_to_bytes(hex) {
            Ok(data) => Ok(Bytes(data)),
            Err(error) => Err(error),
        }
    }

    /// The octets.
    pub fn data(&self) -> (data: &Vec<u8>)
        ensures
            data@ == self@,
    {
        &self.0
    }

    /// The octets in lower-case hexadecimal digits.
    pub fn hex(&self) -> (text: String)
        ensures
            text@ == hex_text(self@),
    {
        bytes_to_hex(self.0.as_slice())
    }

    /// The number of octets.
    pub fn len(&self) -> (len: usize)
        ensures
            len == self@.len(),
    {
        self.0.len()
    }

    /// Whether there are no octets.
    pub fn is_empty(&self) -> (empty: bool)
        ensures
            empty == (self@.len() == 0),
    {
        self.len() == 0
    }

    /// The byte string as a decoded item.
    pub fn cbor(&self) -> (node: CBOR)
        ensures
            node matches CBOR::Bytes(bytes) && bytes@ == self@,
    {
        CBOR::Bytes(self.clone())
    }

    /// Appends the wire form to `out`.
    pub fn encode_into(&self, out: &mut Vec<u8>)
        ensures
            final(out)@ == old(out)@ + bytes_encoding(self@),
    {
        let data = &self.0;
        append_varint(out, MajorType::Bytes, data.len() as u64);
        let mut i: usize = 0;
        while i < data.len()
            invariant
                i <= data.len(),
                out@ == old(out)@ + header_bytes(MajorType::Bytes, data@.len()) + data@.subrange(
                    0,
                    i as int,
                ),
            decreases data.len() - i,
        {
            out.push(data[i]);
            i = i + 1;
            assert(out@ =~= old(out)@ + header_bytes(MajorType::Bytes, data@.len())
                + data@.subrange(0, i as int));
        }
        assert(out@ =~= old(out)@ + bytes_encoding(self@));
    }

    /// The byte string that a decoded item holds; an item of any other major
    /// type is `WrongType`.
    pub fn from_cbor(cbor: &CBOR) -> (bytes: Result<Bytes, DecodeError>)
        ensures
            match *cbor {
                CBOR::Bytes(held) => bytes matches Ok(b) && b@ == held@,
                _ => bytes == Err::<Bytes, DecodeError>(DecodeError::WrongType),
            },
            bytes is Ok <==> cbor.major() == MajorType::Bytes,
    {
        match cbor {
            CBOR::Bytes(held) => Ok(held.clone()),
            _ => Err(DecodeError::WrongType),
        }
    }

    /// Reads the byte string whose header starts at `pos` in `buf`, and tells
    /// how many bytes it took.
    ///
    /// With `canonical` set, a header that is wider than its value needs is
    /// refused; without it, such a header is read like any other.
    pub fn decode(buf: &[u8], pos: usize, canonical: bool) -> (item: Result<
        (Bytes, usize),
        DecodeError,
    >)
        ensures
            match item {
                Ok((bytes, used)) => parse_bytes(buf@, pos as int, canonical) == Ok::<
                    (Seq<u8>, int),
                    DecodeError,
                >((bytes@, used as int)),
                Err(error) => parse_bytes(buf@, pos as int, canonical) == Err::<
                    (Seq<u8>, int),
                    DecodeError,
                >(error),
            },
    {
        let header = match decode_varint(buf, pos, canonical) {
            Ok(header) => header,
            Err(error) => {
                return Err(error);
            },
        };
        if header.major != MajorType::Bytes {
            return Err(DecodeError::WrongType);
        }
        let start = pos + header.len;
        if header.value > (buf.len() - start) as u64 {
            return Err(DecodeError::TruncatedInput);
        }
        let end = start + header.value as usize;
        let payload = slice_subrange(buf, start, end);
        Ok((Bytes(slice_to_vec(payload)), end - pos))
    }

    /// The literal form `h'<hex>'`.
    pub fn display(&self) -> (text: String)
        ensures
            text@ == display_text(self@),
    {
        proof {
            reveal_strlit("h'");
            reveal_strlit("'");
        }
        let mut text = String::from_str("h'");
        append_hex(&mut text, self.0.as_slice());
        text.append("'");
        text
    }
}

/// A byte string has the wire form of its octets behind their length.
impl CBOREncodable for Bytes {
    open spec fn encoding(&self) -> Seq<u8> {
        bytes_encoding(self@)
    }

    fn cbor_data(&self) -> (data: Vec<u8>) {
        let mut data: Vec<u8> = Vec::new();
        self.encode_into(&mut data);
        assert(data@ =~= bytes_encoding(self@));
        data
    }
}

/// Decoding the wire form of a byte string gives the byte string back and
/// takes the whole of the wire form, in either reading mode and wherever the
/// wire form stands in the buffer.
pub proof fn theorem_bytes_round_trip(
    before: Seq<u8>,
    data: Seq<u8>,
    after: Seq<u8>,
    canonical: bool,
)
    requires
        data.len() <= u64::MAX,
    ensures
        parse_bytes(before + bytes_encoding(data) + after, before.len() as int, canonical) == Ok::<
            (Seq<u8>, int),
            DecodeError,
        >((data, bytes_encoding(data).len() as int)),
{
    let header = header_bytes(MajorType::Bytes, data.len());
    let buf = before + bytes_encoding(data) + after;
    let pos = before.len() as int;
    assert(buf =~= before + header + (data + after));
    theorem_header_round_trip(before, MajorType::Bytes, data.len(), data + after, canonical);
    lemma_canonical_form(MajorType::Bytes, data.len());
    assert(buf.subrange(pos + header.len(), pos + header.len() + data.len()) =~= data);
}

/// Whatever decodes as a byte string is one: the bytes taken are a header
/// of the major type of byte strings, in one of the five forms, that carries
/// the number of octets read, followed by those octets. Under canonical
/// reading they are the wire form of what was read.
pub proof fn theorem_reading_is_encoding(
    buf: Seq<u8>,
    pos: int,
    canonical: bool,
    data: Seq<u8>,
    used: int,
)
    requires
        0 <= pos,
        parse_bytes(buf, pos, canonical) == Ok::<(Seq<u8>, int), DecodeError>((data, used)),
    ensures
        1 + data.len() <= used,
        pos + used <= buf.len(),
        is_width((used - data.len() - 1) as nat),
        fits(data.len(), (used - data.len() - 1) as nat),
        buf.subrange(pos, pos + used) == header_form(
            MajorType::Bytes,
            data.len(),
            (used - data.len() - 1) as nat,
        ) + data,
        canonical ==> buf.subrange(pos, pos + used) == bytes_encoding(data),
{
    theorem_reading_is_a_form(buf, pos, canonical, parse_header(buf, pos, canonical)->Ok_0);
}

/// A byte string cut short never decodes: every proper prefix of a wire
/// form is `TruncatedInput`. The wire form may carry its header in any of
/// the five forms; under canonical reading it carries the canonical one.
pub proof fn theorem_bytes_prefix_truncated(
    data: Seq<u8>,
    width: nat,
    kept: int,
    canonical: bool,
)
    requires
        is_width(width),
        fits(data.len(), width),
        canonical ==> width == min_width(data.len()),
        0 <= kept < 1 + width + data.len(),
    ensures
        parse_bytes(
            (header_form(MajorType::Bytes, data.len(), width) + data).subrange(0, kept),
            0,
            canonical,
        ) == Err::<(Seq<u8>, int), DecodeError>(DecodeError::TruncatedInput),
{
    let header = header_form(MajorType::Bytes, data.len(), width);
    let cut = (header + data).subrange(0, kept);
    lemma_be_bytes_len(data.len(), width);
    if kept < 1 + width {
        theorem_header_prefix_truncated(MajorType::Bytes, data.len(), width, kept, canonical);
    } else {
        let rest = data.subrange(0, kept - 1 - width);
        assert(cut =~= Seq::<u8>::empty() + header + rest);
        lemma_parse_header_form(
            Seq::<u8>::empty(),
            MajorType::Bytes,
            data.len(),
            width,
            rest,
            canonical,
        );
        lemma_pow256_values();
    }
}

/// An item of another major type is never read as a byte string: where a
/// well-formed header of another major type stands, decoding is `WrongType`.
pub proof fn theorem_other_major_is_wrong_type(
    before: Seq<u8>,
    major: MajorType,
    n: nat,
    after: Seq<u8>,
    canonical: bool,
)
    requires
        n <= u64::MAX,
        major != MajorType::Bytes,
    ensures
        parse_bytes(before + header_bytes(major, n) + after, before.len() as int, canonical)
            == Err::<(Seq<u8>, int), DecodeError>(DecodeError::WrongType),
{
    theorem_header_round_trip(before, major, n, after, canonical);
}

} // verus!
