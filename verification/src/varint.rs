//! The item header: a major type and an unsigned value packed into one to nine
//! bytes.
//!
//! The leading byte holds the major type in its three high bits and five bits
//! of additional information. Additional information below 24 is the value
//! itself; 24, 25, 26 and 27 announce that the value follows in 1, 2, 4 or 8
//! big-endian bytes; 28 to 31 are not defined.

use vstd::prelude::*;
use crate::decode_error::DecodeError;

verus! {

/// The tag that tells the shape of an encoded item.
#[derive(Clone, Copy, Debug, PartialEq, Eq, Structural)]
pub enum MajorType {
    Unsigned,
    Negative,
    Bytes,
    Text,
    Array,
    Mapping,
    Tagged,
    Simple,
}

impl MajorType {
    /// The number, 0 to 7, that stands for this major type on the wire.
    pub open spec fn tag(self) -> nat {
        match self {
            MajorType::Unsigned => 0,
            MajorType::Negative => 1,
            MajorType::Bytes => 2,
            MajorType::Text => 3,
            MajorType::Array => 4,
            MajorType::Mapping => 5,
            MajorType::Tagged => 6,
            MajorType::Simple => 7,
        }
    }

    /// The major type that a tag stands for; tags above 7 do not occur in a byte.
    pub open spec fn of_tag(tag: nat) -> MajorType {
        if tag == 0 {
            MajorType::Unsigned
        } else if tag == 1 {
            MajorType::Negative
        } else if tag == 2 {
            MajorType::Bytes
        } else if tag == 3 {
            MajorType::Text
        } else if tag == 4 {
            MajorType::Array
        } else if tag == 5 {
            MajorType::Mapping
        } else if tag == 6 {
            MajorType::Tagged
        } else {
            MajorType::Simple
        }
    }

    /// The tag, already moved into the three high bits of a leading byte.
    pub fn high_bits(self) -> (bits: u8)
        ensures
            bits == self.tag() * 32,
    {
        match self {
            MajorType::Unsigned => 0x00,
            MajorType::Negative => 0x20,
            MajorType::Bytes => 0x40,
            MajorType::Text => 0x60,
            MajorType::Array => 0x80,
            MajorType::Mapping => 0xa0,
            MajorType::Tagged => 0xc0,
            MajorType::Simple => 0xe0,
        }
    }

    /// The major type in the three high bits of a leading byte.
    pub fn of_lead_byte(lead: u8) -> (major: MajorType)
        ensures
            major == MajorType::of_tag(lead as nat / 32),
    {
        let tag: u8 = lead >> 5;
        assert(tag == lead / 32) by (bit_vector)
            requires
                tag == lead >> 5,
        ;
        if tag == 0 {
            MajorType::Unsigned
        } else if tag == 1 {
            MajorType::Negative
        } else if tag == 2 {
            MajorType::Bytes
        } else if tag == 3 {
            MajorType::Text
        } else if tag == 4 {
            MajorType::Array
        } else if tag == 5 {
            MajorType::Mapping
        } else if tag == 6 {
            MajorType::Tagged
        } else {
            MajorType::Simple
        }
    }
}

/// 256 to the power `k`: the number of values that `k` bytes can hold.
pub open spec fn pow256(k: nat) -> nat
    decreases k,
{
    if k == 0 {
        1
    } else {
        256 * pow256((k - 1) as nat)
    }
}

/// The `width` low-order bytes of `n`, most significant first.
pub open spec fn be_bytes(n: nat, width: nat) -> Seq<u8>
    decreases width,
{
    if width == 0 {
        Seq::empty()
    } else {
        be_bytes(n / 256, (width - 1) as nat).push((n % 256) as u8)
    }
}

/// The number that a sequence of bytes spells, most significant first.
pub open spec fn be_value(bytes: Seq<u8>) -> nat
    decreases bytes.len(),
{
    if bytes.len() == 0 {
        0
    } else {
        be_value(bytes.drop_last()) * 256 + bytes.last() as nat
    }
}

/// The widths, in bytes, in which a header can carry its value: 0 means
/// inside the leading byte, the others count the bytes that follow it.
pub open spec fn is_width(width: nat) -> bool {
    width == 0 || width == 1 || width == 2 || width == 4 || width == 8
}

/// Whether `n` can be written in the form of the given width.
pub open spec fn fits(n: nat, width: nat) -> bool {
    if width == 0 {
        n < 24
    } else {
        n < pow256(width)
    }
}

/// The narrowest width that can hold `n`.
pub open spec fn min_width(n: nat) -> nat {
    if n < 24 {
        0
    } else if n < 0x100 {
        1
    } else if n < 0x1_0000 {
        2
    } else if n < 0x1_0000_0000 {
        4
    } else {
        8
    }
}

/// The additional information that announces an extension of `width` bytes.
pub open spec fn info_of_width(width: nat) -> nat {
    if width == 1 {
        24
    } else if width == 2 {
        25
    } else if width == 4 {
        26
    } else {
        27
    }
}

/// The number of extension bytes that additional information 24 to 27 announces.
pub open spec fn width_of_info(info: nat) -> nat {
    if info == 24 {
        1
    } else if info == 25 {
        2
    } else if info == 26 {
        4
    } else {
        8
    }
}

/// The leading byte that packs a major type with five bits of additional
/// information.
pub open spec fn lead_byte(major: MajorType, info: nat) -> u8 {
    (major.tag() * 32 + info) as u8
}

/// The header of `(major, n)` written in the form of the given width.
pub open spec fn header_form(major: MajorType, n: nat, width: nat) -> Seq<u8> {
    if width == 0 {
        seq![lead_byte(major, n)]
    } else {
        seq![lead_byte(major, info_of_width(width))] + be_bytes(n, width)
    }
}

/// The canonical header of `(major, n)`: the form of the narrowest width
/// that holds `n`.
pub open spec fn header_bytes(major: MajorType, n: nat) -> Seq<u8> {
    header_form(major, n, min_width(n))
}

/// A decoded header.
#[derive(Clone, Copy, Debug, PartialEq, Eq, Structural)]
pub struct Header {
    /// The major type in the leading byte.
    pub major: MajorType,
    /// The value, or for a length-prefixed type the count, that the header carries.
    pub value: u64,
    /// The number of bytes the header takes in the buffer.
    pub len: usize,
}

/// What reading a header at `pos` in `buf` gives.
///
/// With `canonical` set, a header whose value a narrower form could hold is
/// rejected; without it, every well-formed header is read.
pub open spec fn parse_header(buf: Seq<u8>, pos: int, canonical: bool) -> Result<
    Header,
    DecodeError,
>
    recommends
        0 <= pos,
{
    if pos >= buf.len() {
        Err(DecodeError::TruncatedInput)
    } else {
        let lead = buf[pos] as nat;
        let major = MajorType::of_tag(lead / 32);
        let info = lead % 32;
        if info < 24 {
            Ok(Header { major, value: info as u64, len: 1 })
        } else if info > 27 {
            Err(DecodeError::MalformedHeader)
        } else {
            let width = width_of_info(info);
            if pos + 1 + width > buf.len() {
                Err(DecodeError::TruncatedInput)
            } else {
                let n = be_value(buf.subrange(pos + 1, pos + 1 + width as int));
                if canonical && min_width(n) < width {
                    Err(DecodeError::NonCanonicalEncoding)
                } else {
                    Ok(Header { major, value: n as u64, len: (1 + width) as usize })
                }
            }
        }
    }
}

/// Appends the `width` low-order bytes of `n` to `buf`, most significant first.
fn push_be(buf: &mut Vec<u8>, n: u64, width: usize)
    ensures
        final(buf)@ == old(buf)@ + be_bytes(n as nat, width as nat),
    decreases width,
{
    if width > 0 {
        push_be(buf, n / 256, (width - 1) as usize);
        buf.push((n % 256) as u8);
    }
    assert(buf@ =~= old(buf)@ + be_bytes(n as nat, width as nat));
}

/// Reads `width` bytes of `buf` from `start` on as one number, most
/// significant first.
fn read_be(buf: &[u8], start: usize, width: usize) -> (n: u64)
    requires
        width <= 8,
        start + width <= buf.len(),
    ensures
        n == be_value(buf@.subrange(start as int, start + width)),
{
    let mut n: u64 = 0;
    let mut i: usize = 0;
    while i < width
        invariant
            i <= width <= 8,
            start + width <= buf.len(),
            n == be_value(buf@.subrange(start as int, start + i)),
        decreases width - i,
    {
        proof {
            let seen = buf@.subrange(start as int, start + i);
            lemma_be_value_bound(seen);
            lemma_pow256_monotonic(i as nat, 7);
            lemma_pow256_values();
            assert(buf@.subrange(start as int, start + i + 1).drop_last() =~= seen);
        }
        n = n * 256 + buf[start + i] as u64;
        i = i + 1;
    }
    n
}

/// The narrowest width that can hold `n`.
pub fn min_width_of(n: u64) -> (width: usize)
    ensures
        width == min_width(n as nat),
{
    if n < 24 {
        0
    } else if n < 0x100 {
        1
    } else if n < 0x1_0000 {
        2
    } else if n < 0x1_0000_0000 {
        4
    } else {
        8
    }
}

/// Appends the canonical header of `(major, n)` to `buf`.
pub fn append_varint(buf: &mut Vec<u8>, major: MajorType, n: u64)
    ensures
        final(buf)@ == old(buf)@ + header_bytes(major, n as nat),
{
    let high = major.high_bits();
    let width = min_width_of(n);
    if width == 0 {
        buf.push(high + n as u8);
    } else {
        let info: u8 = if width == 1 {
            24
        } else if width == 2 {
            25
        } else if width == 4 {
            26
        } else {
            27
        };
        buf.push(high + info);
        push_be(buf, n, width);
    }
    assert(buf@ =~= old(buf)@ + header_bytes(major, n as nat));
}

/// The canonical header of `(major, n)`.
pub fn encode_varint(major: MajorType, n: u64) -> (header: Vec<u8>)
    ensures
        header@ == header_bytes(major, n as nat),
{
    let mut header: Vec<u8> = Vec::new();
    append_varint(&mut header, major, n);
    assert(header@ =~= header_bytes(major, n as nat));
    header
}

/// Reads the header that starts at `pos` in `buf`.
///
/// With `canonical` set, a header that is wider than its value needs is
/// rejected with `NonCanonicalEncoding`; without it, such a header is read
/// like any other. A buffer that ends before the header does gives
/// `TruncatedInput`, additional information 28 to 31 gives `MalformedHeader`.
pub fn decode_varint(buf: &[u8], pos: usize, canonical: bool) -> (header: Result<
    Header,
    DecodeError,
>)
    ensures
        header == parse_header(buf@, pos as int, canonical),
        header matches Ok(h) ==> 1 <= h.len <= 9 && pos + h.len <= buf.len(),
{
    if pos >= buf.len() {
        return Err(DecodeError::TruncatedInput);
    }
    let lead = buf[pos];
    let major = MajorType::of_lead_byte(lead);
    let info: u8 = lead & 0x1f;
    assert(info == lead % 32) by (bit_vector)
        requires
            info == lead & 0x1f,
    ;
    if info < 24 {
        return Ok(Header { major, value: info as u64, len: 1 });
    }
    if info > 27 {
        return Err(DecodeError::MalformedHeader);
    }
    let width: usize = if info == 24 {
        1
    } else if info == 25 {
        2
    } else if info == 26 {
        4
    } else {
        8
    };
    if width > buf.len() - pos - 1 {
        return Err(DecodeError::TruncatedInput);
    }
    let n = read_be(buf, pos + 1, width);
    if canonical && min_width_of(n) < width {
        return Err(DecodeError::NonCanonicalEncoding);
    }
    Ok(Header { major, value: n, len: 1 + width })
}

/// The powers of 256 grow with the exponent.
pub proof fn lemma_pow256_monotonic(a: nat, b: nat)
    requires
        a <= b,
    ensures
        pow256(a) <= pow256(b),
        pow256(a) > 0,
    decreases b,
{
    if a < b {
        lemma_pow256_monotonic(a, (b - 1) as nat);
    } else if a > 0 {
        lemma_pow256_monotonic((a - 1) as nat, (b - 1) as nat);
    }
}

/// The powers of 256 that bound the four extension widths.
pub proof fn lemma_pow256_values()
    ensures
        pow256(0) == 1,
        pow256(1) == 0x100,
        pow256(2) == 0x1_0000,
        pow256(3) == 0x100_0000,
        pow256(4) == 0x1_0000_0000,
        pow256(5) == 0x100_0000_0000,
        pow256(6) == 0x1_0000_0000_0000,
        pow256(7) == 0x100_0000_0000_0000,
        pow256(8) == 0x1_0000_0000_0000_0000,
{
    reveal_with_fuel(pow256, 9);
}

/// `be_bytes` yields exactly `width` bytes.
pub proof fn lemma_be_bytes_len(n: nat, width: nat)
    ensures
        be_bytes(n, width).len() == width,
    decreases width,
{
    if width > 0 {
        lemma_be_bytes_len(n / 256, (width - 1) as nat);
    }
}

/// A sequence of `k` bytes spells a number below 256 to the power `k`.
pub proof fn lemma_be_value_bound(bytes: Seq<u8>)
    ensures
        be_value(bytes) < pow256(bytes.len()),
    decreases bytes.len(),
{
    if bytes.len() > 0 {
        lemma_be_value_bound(bytes.drop_last());
    }
}

/// Reading back the big-endian bytes of `n` gives `n`, when `n` fits the width.
pub proof fn lemma_be_value_of_be_bytes(n: nat, width: nat)
    requires
        n < pow256(width),
    ensures
        be_value(be_bytes(n, width)) == n,
    decreases width,
{
    if width > 0 {
        lemma_be_value_of_be_bytes(n / 256, (width - 1) as nat);
        assert(be_bytes(n, width).drop_last() =~= be_bytes(n / 256, (width - 1) as nat));
    }
}

/// Writing the number that a byte sequence spells, in as many bytes, gives
/// the sequence back.
pub proof fn lemma_be_bytes_of_be_value(bytes: Seq<u8>)
    ensures
        be_bytes(be_value(bytes), bytes.len()) == bytes,
    decreases bytes.len(),
{
    if bytes.len() > 0 {
        lemma_be_bytes_of_be_value(bytes.drop_last());
    }
    assert(be_bytes(be_value(bytes), bytes.len()) =~= bytes);
}

/// A leading byte gives back the major type and the additional information
/// that were packed into it.
pub proof fn lemma_lead_byte_parts(major: MajorType, info: nat)
    requires
        info < 32,
    ensures
        lead_byte(major, info) as nat / 32 == major.tag(),
        lead_byte(major, info) as nat % 32 == info,
        MajorType::of_tag(major.tag()) == major,
{
}

/// What reading a header gives that was written in any of the five forms,
/// wherever it stands in a buffer: under canonical reading a form wider than
/// the value needs is refused, and otherwise the header is read back whole.
pub proof fn lemma_parse_header_form(
    before: Seq<u8>,
    major: MajorType,
    n: nat,
    width: nat,
    after: Seq<u8>,
    canonical: bool,
)
    requires
        is_width(width),
        fits(n, width),
    ensures
        parse_header(before + header_form(major, n, width) + after, before.len() as int, canonical)
            == if canonical && min_width(n) < width {
            Err::<Header, DecodeError>(DecodeError::NonCanonicalEncoding)
        } else {
            Ok::<Header, DecodeError>(Header { major, value: n as u64, len: (1 + width) as usize })
        },
{
    let form = header_form(major, n, width);
    let buf = before + form + after;
    let pos = before.len() as int;
    lemma_pow256_values();
    if width == 0 {
        lemma_lead_byte_parts(major, n);
        assert(buf[pos] == lead_byte(major, n));
    } else {
        let info = info_of_width(width);
        lemma_lead_byte_parts(major, info);
        lemma_be_bytes_len(n, width);
        lemma_be_value_of_be_bytes(n, width);
        assert(buf[pos] == lead_byte(major, info));
        assert(buf.subrange(pos + 1, pos + 1 + width as int) =~= be_bytes(n, width));
    }
}

/// The canonical header is a header in one of the five forms: its width is
/// one of the five, holds the value, and fixes the header's length.
pub proof fn lemma_canonical_form(major: MajorType, n: nat)
    requires
        n <= u64::MAX,
    ensures
        is_width(min_width(n)),
        fits(n, min_width(n)),
        header_bytes(major, n).len() == 1 + min_width(n),
{
    lemma_pow256_values();
    lemma_be_bytes_len(n, min_width(n));
}

/// None of the five forms that can hold a value is shorter than the
/// canonical header, and only the canonical header is as short.
pub proof fn theorem_canonical_is_shortest(major: MajorType, n: nat, width: nat)
    requires
        n <= u64::MAX,
        is_width(width),
        fits(n, width),
    ensures
        header_form(major, n, width).len() == 1 + width,
        header_bytes(major, n).len() <= header_form(major, n, width).len(),
        header_form(major, n, width).len() == header_bytes(major, n).len() ==> header_form(
            major,
            n,
            width,
        ) == header_bytes(major, n),
{
    lemma_pow256_values();
    lemma_be_bytes_len(n, width);
    lemma_be_bytes_len(n, min_width(n));
}

/// Reading a canonical header gives back the major type and the value, and
/// takes exactly the header's bytes, in either reading mode and wherever the
/// header stands in the buffer.
pub proof fn theorem_header_round_trip(
    before: Seq<u8>,
    major: MajorType,
    n: nat,
    after: Seq<u8>,
    canonical: bool,
)
    requires
        n <= u64::MAX,
    ensures
        parse_header(before + header_bytes(major, n) + after, before.len() as int, canonical)
            == Ok::<Header, DecodeError>(
            Header { major, value: n as u64, len: header_bytes(major, n).len() as usize },
        ),
{
    lemma_canonical_form(major, n);
    lemma_parse_header_form(before, major, n, min_width(n), after, canonical);
}

/// A header written wider than its value needs is refused as
/// `NonCanonicalEncoding` under canonical reading, and read back whole
/// without it.
pub proof fn theorem_wider_form_refused(
    before: Seq<u8>,
    major: MajorType,
    n: nat,
    width: nat,
    after: Seq<u8>,
)
    requires
        is_width(width),
        fits(n, width),
        width != min_width(n),
    ensures
        parse_header(before + header_form(major, n, width) + after, before.len() as int, true)
            == Err::<Header, DecodeError>(DecodeError::NonCanonicalEncoding),
        parse_header(before + header_form(major, n, width) + after, before.len() as int, false)
            == Ok::<Header, DecodeError>(
            Header { major, value: n as u64, len: (1 + width) as usize },
        ),
{
    lemma_pow256_values();
    lemma_parse_header_form(before, major, n, width, after, true);
    lemma_parse_header_form(before, major, n, width, after, false);
}

/// Whatever is read as a header is a header: the bytes taken are the major
/// type and the value that were read, written in one of the five forms. Under
/// canonical reading they are the canonical header, so that a major type and
/// a value have one accepted spelling.
pub proof fn theorem_reading_is_a_form(buf: Seq<u8>, pos: int, canonical: bool, header: Header)
    requires
        0 <= pos,
        parse_header(buf, pos, canonical) == Ok::<Header, DecodeError>(header),
    ensures
        1 <= header.len,
        pos + header.len <= buf.len(),
        is_width((header.len - 1) as nat),
        fits(header.value as nat, (header.len - 1) as nat),
        buf.subrange(pos, pos + header.len) == header_form(
            header.major,
            header.value as nat,
            (header.len - 1) as nat,
        ),
        canonical ==> buf.subrange(pos, pos + header.len) == header_bytes(
            header.major,
            header.value as nat,
        ),
{
    let info = buf[pos] as nat % 32;
    lemma_pow256_values();
    if info >= 24 {
        let tail = buf.subrange(pos + 1, pos + 1 + width_of_info(info) as int);
        lemma_be_value_bound(tail);
        lemma_be_bytes_of_be_value(tail);
    }
}

/// A header cut short is `TruncatedInput`: every proper prefix of a header
/// in any of the five forms is refused so, in either reading mode.
pub proof fn theorem_header_prefix_truncated(
    major: MajorType,
    n: nat,
    width: nat,
    kept: int,
    canonical: bool,
)
    requires
        is_width(width),
        fits(n, width),
        0 <= kept < 1 + width,
    ensures
        parse_header(header_form(major, n, width).subrange(0, kept), 0, canonical) == Err::<
            Header,
            DecodeError,
        >(DecodeError::TruncatedInput),
{
    lemma_be_bytes_len(n, width);
    if kept > 0 {
        let info = info_of_width(width);
        lemma_lead_byte_parts(major, info);
        assert(header_form(major, n, width).subrange(0, kept)[0] == lead_byte(major, info));
    }
}

} // verus!
