use dcbor::decode_error::DecodeError;
use dcbor::hex::bytes_to_hex;
use dcbor::varint::{append_varint, decode_varint, encode_varint, min_width_of, Header, MajorType};

const ALL_MAJORS: [MajorType; 8] = [
    MajorType::Unsigned,
    MajorType::Negative,
    MajorType::Bytes,
    MajorType::Text,
    MajorType::Array,
    MajorType::Mapping,
    MajorType::Tagged,
    MajorType::Simple,
];

fn header(major: MajorType, n: u64) -> String {
    bytes_to_hex(&encode_varint(major, n))
}

#[test]
fn high_bits_hold_the_major_type() {
    let expected: [u8; 8] = [0x00, 0x20, 0x40, 0x60, 0x80, 0xa0, 0xc0, 0xe0];
    for (major, bits) in ALL_MAJORS.iter().zip(expected.iter()) {
        assert_eq!(major.high_bits(), *bits);
    }
}

#[test]
fn lead_byte_gives_the_major_type_back() {
    for lead in 0..=255u8 {
        let major = MajorType::of_lead_byte(lead);
        assert_eq!(major, ALL_MAJORS[(lead >> 5) as usize]);
        assert_eq!(major.high_bits(), lead & 0xe0);
    }
}

#[test]
fn min_width_at_each_boundary() {
    assert_eq!(min_width_of(0), 0);
    assert_eq!(min_width_of(23), 0);
    assert_eq!(min_width_of(24), 1);
    assert_eq!(min_width_of(0xff), 1);
    assert_eq!(min_width_of(0x100), 2);
    assert_eq!(min_width_of(0xffff), 2);
    assert_eq!(min_width_of(0x1_0000), 4);
    assert_eq!(min_width_of(0xffff_ffff), 4);
    assert_eq!(min_width_of(0x1_0000_0000), 8);
    assert_eq!(min_width_of(u64::MAX), 8);
}

#[test]
fn inline_values_take_one_byte() {
    assert_eq!(header(MajorType::Unsigned, 0), "00");
    assert_eq!(header(MajorType::Unsigned, 1), "01");
    assert_eq!(header(MajorType::Unsigned, 10), "0a");
    assert_eq!(header(MajorType::Unsigned, 23), "17");
    assert_eq!(header(MajorType::Bytes, 0), "40");
    assert_eq!(header(MajorType::Bytes, 23), "57");
    assert_eq!(header(MajorType::Simple, 23), "f7");
}

#[test]
fn one_byte_extension() {
    assert_eq!(header(MajorType::Unsigned, 24), "1818");
    assert_eq!(header(MajorType::Unsigned, 25), "1819");
    assert_eq!(header(MajorType::Unsigned, 100), "1864");
    assert_eq!(header(MajorType::Unsigned, 255), "18ff");
    assert_eq!(header(MajorType::Bytes, 24), "5818");
}

#[test]
fn two_byte_extension() {
    assert_eq!(header(MajorType::Unsigned, 256), "190100");
    assert_eq!(header(MajorType::Unsigned, 1000), "1903e8");
    assert_eq!(header(MajorType::Unsigned, 65535), "19ffff");
    assert_eq!(header(MajorType::Array, 1000), "9903e8");
}

#[test]
fn four_byte_extension() {
    assert_eq!(header(MajorType::Unsigned, 65536), "1a00010000");
    assert_eq!(header(MajorType::Unsigned, 1_000_000), "1a000f4240");
    assert_eq!(header(MajorType::Unsigned, 0xffff_ffff), "1affffffff");
    assert_eq!(header(MajorType::Text, 0x0102_0304), "7a01020304");
}

#[test]
fn eight_byte_extension() {
    assert_eq!(header(MajorType::Unsigned, 0x1_0000_0000), "1b0000000100000000");
    assert_eq!(header(MajorType::Unsigned, 1_000_000_000_000), "1b000000e8d4a51000");
    assert_eq!(header(MajorType::Unsigned, u64::MAX), "1bffffffffffffffff");
    assert_eq!(header(MajorType::Negative, u64::MAX), "3bffffffffffffffff");
    assert_eq!(header(MajorType::Tagged, 0x0102_0304_0506_0708), "db0102030405060708");
}

#[test]
fn header_length_is_one_more_than_the_width() {
    for n in [0u64, 23, 24, 255, 256, 65535, 65536, 0xffff_ffff, 0x1_0000_0000, u64::MAX] {
        for major in ALL_MAJORS {
            assert_eq!(encode_varint(major, n).len(), 1 + min_width_of(n));
        }
    }
}

#[test]
fn append_varint_keeps_what_is_there() {
    let mut buf = vec![0xaa, 0xbb];
    append_varint(&mut buf, MajorType::Bytes, 500);
    assert_eq!(buf, vec![0xaa, 0xbb, 0x59, 0x01, 0xf4]);
    append_varint(&mut buf, MajorType::Unsigned, 7);
    assert_eq!(buf, vec![0xaa, 0xbb, 0x59, 0x01, 0xf4, 0x07]);
}

#[test]
fn header_round_trip_in_both_modes() {
    let values = [
        0u64, 1, 22, 23, 24, 25, 254, 255, 256, 257, 65534, 65535, 65536, 65537,
        0xffff_fffe, 0xffff_ffff, 0x1_0000_0000, 0x1_0000_0001, u64::MAX - 1, u64::MAX,
    ];
    for n in values {
        for major in ALL_MAJORS {
            let encoded = encode_varint(major, n);
            let expected = Header { major, value: n, len: encoded.len() };
            assert_eq!(decode_varint(&encoded, 0, true), Ok(expected));
            assert_eq!(decode_varint(&encoded, 0, false), Ok(expected));
        }
    }
}

#[test]
fn header_is_read_where_it_stands() {
    let mut buf = vec![0xff, 0xff, 0xff];
    append_varint(&mut buf, MajorType::Mapping, 300);
    buf.extend_from_slice(&[0x00, 0x00]);
    let expected = Header { major: MajorType::Mapping, value: 300, len: 3 };
    assert_eq!(decode_varint(&buf, 3, true), Ok(expected));
    assert_eq!(decode_varint(&buf, 3, false), Ok(expected));
}

#[test]
fn empty_buffer_is_truncated() {
    assert_eq!(decode_varint(&[], 0, true), Err(DecodeError::TruncatedInput));
    assert_eq!(decode_varint(&[], 0, false), Err(DecodeError::TruncatedInput));
}

#[test]
fn position_at_or_past_the_end_is_truncated() {
    let buf = [0x01u8, 0x02];
    assert_eq!(decode_varint(&buf, 2, true), Err(DecodeError::TruncatedInput));
    assert_eq!(decode_varint(&buf, 3, false), Err(DecodeError::TruncatedInput));
    assert_eq!(decode_varint(&buf, usize::MAX, true), Err(DecodeError::TruncatedInput));
}

#[test]
fn undefined_additional_information_is_malformed() {
    for major in ALL_MAJORS {
        for info in 28u8..=31 {
            let buf = [major.high_bits() | info, 0, 0, 0, 0, 0, 0, 0, 0];
            assert_eq!(decode_varint(&buf, 0, true), Err(DecodeError::MalformedHeader));
            assert_eq!(decode_varint(&buf, 0, false), Err(DecodeError::MalformedHeader));
            assert_eq!(decode_varint(&buf[..1], 0, true), Err(DecodeError::MalformedHeader));
        }
    }
}

#[test]
fn missing_extension_bytes_are_truncated() {
    for (info, width) in [(24u8, 1usize), (25, 2), (26, 4), (27, 8)] {
        let mut buf = vec![0x40 | info];
        buf.extend(std::iter::repeat(0xffu8).take(width));
        for kept in 1..buf.len() {
            assert_eq!(decode_varint(&buf[..kept], 0, true), Err(DecodeError::TruncatedInput));
            assert_eq!(decode_varint(&buf[..kept], 0, false), Err(DecodeError::TruncatedInput));
        }
        assert!(decode_varint(&buf, 0, true).is_ok());
    }
}

#[test]
fn every_proper_prefix_of_a_header_is_truncated() {
    for n in [0u64, 23, 24, 255, 256, 65535, 65536, 0xffff_ffff, 0x1_0000_0000, u64::MAX] {
        let encoded = encode_varint(MajorType::Array, n);
        for kept in 0..encoded.len() {
            assert_eq!(
                decode_varint(&encoded[..kept], 0, true),
                Err(DecodeError::TruncatedInput)
            );
            assert_eq!(
                decode_varint(&encoded[..kept], 0, false),
                Err(DecodeError::TruncatedInput)
            );
        }
    }
}

#[test]
fn wider_than_needed_is_refused_when_canonical() {
    let cases: [(&[u8], u64); 10] = [
        (&[0x18, 0x00], 0),
        (&[0x18, 0x17], 23),
        (&[0x19, 0x00, 0x17], 23),
        (&[0x19, 0x00, 0xff], 255),
        (&[0x1a, 0x00, 0x00, 0x00, 0x05], 5),
        (&[0x1a, 0x00, 0x00, 0x01, 0x00], 256),
        (&[0x1a, 0x00, 0x00, 0xff, 0xff], 65535),
        (&[0x1b, 0, 0, 0, 0, 0, 0, 0, 0x01], 1),
        (&[0x1b, 0, 0, 0, 0, 0, 0, 0x01, 0x00], 256),
        (&[0x1b, 0, 0, 0, 0, 0xff, 0xff, 0xff, 0xff], 0xffff_ffff),
    ];
    for (buf, n) in cases {
        assert_eq!(decode_varint(buf, 0, true), Err(DecodeError::NonCanonicalEncoding));
        assert_eq!(
            decode_varint(buf, 0, false),
            Ok(Header { major: MajorType::Unsigned, value: n, len: buf.len() })
        );
    }
}

#[test]
fn narrowest_extension_is_canonical() {
    let cases: [(&[u8], u64); 4] = [
        (&[0x58, 0x18], 24),
        (&[0x59, 0x01, 0x00], 256),
        (&[0x5a, 0x00, 0x01, 0x00, 0x00], 65536),
        (&[0x5b, 0, 0, 0, 0x01, 0, 0, 0, 0], 0x1_0000_0000),
    ];
    for (buf, n) in cases {
        assert_eq!(
            decode_varint(buf, 0, true),
            Ok(Header { major: MajorType::Bytes, value: n, len: buf.len() })
        );
    }
}

#[test]
fn truncation_is_told_before_width() {
    // Cut short, the value cannot be read, so its width cannot be judged.
    assert_eq!(decode_varint(&[0x19, 0x00], 0, true), Err(DecodeError::TruncatedInput));
}

#[test]
fn bytes_after_the_header_are_left_alone() {
    let buf = [0x18u8, 0x2a, 0xde, 0xad];
    assert_eq!(
        decode_varint(&buf, 0, true),
        Ok(Header { major: MajorType::Unsigned, value: 42, len: 2 })
    );
}
