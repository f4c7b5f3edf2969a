//! Hexadecimal text: two digits per byte, high nibble first, no separators.
//! Writing always gives lower-case digits; reading takes either case.

use vstd::prelude::*;
use vstd::string::*;

verus! {

/// Why a text is not the hexadecimal spelling of a byte sequence.
#[derive(Clone, Copy, Debug, PartialEq, Eq, Structural)]
pub enum HexError {
    /// The text has an odd number of characters.
    OddLength,
    /// The text has an even number of characters, one of which is no
    /// hexadecimal digit.
    InvalidCharacter,
}

/// The lower-case digit for a nibble.
pub open spec fn hex_digit(nibble: nat) -> char
    recommends
        nibble < 16,
{
    if nibble < 10 {
        ('0' as nat + nibble) as char
    } else {
        ('a' as nat + nibble - 10) as char
    }
}

/// The nibble that a character spells, in either case, if it is a digit.
pub open spec fn hex_value(c: char) -> Option<nat> {
    if '0' <= c <= '9' {
        Some((c as nat - '0' as nat) as nat)
    } else if 'a' <= c <= 'f' {
        Some((c as nat - 'a' as nat + 10) as nat)
    } else if 'A' <= c <= 'F' {
        Some((c as nat - 'A' as nat + 10) as nat)
    } else {
        None
    }
}

/// The lower-case form of an ASCII letter; any other character unchanged.
pub open spec fn lower(c: char) -> char {
    if 'A' <= c <= 'Z' {
        (c as nat + 32) as char
    } else {
        c
    }
}

/// The text with its ASCII letters in lower case.
pub open spec fn lowercase(text: Seq<char>) -> Seq<char> {
    Seq::new(text.len(), |i: int| lower(text[i]))
}

/// Every character of the text is a hexadecimal digit.
pub open spec fn all_hex_digits(text: Seq<char>) -> bool {
    forall|i: int| 0 <= i < text.len() ==> (#[trigger] hex_value(text[i])) is Some
}

/// The text spells a byte sequence: an even number of hexadecimal digits.
pub open spec fn is_hex_text(text: Seq<char>) -> bool {
    text.len() % 2 == 0 && all_hex_digits(text)
}

/// What is wrong with a text, if anything. An odd length is reported before
/// a character that is no digit.
pub open spec fn hex_error(text: Seq<char>) -> Option<HexError> {
    if text.len() % 2 == 1 {
        Some(HexError::OddLength)
    } else if !all_hex_digits(text) {
        Some(HexError::InvalidCharacter)
    } else {
        None
    }
}

/// The lower-case hexadecimal spelling of a byte sequence.
pub open spec fn hex_text(data: Seq<u8>) -> Seq<char> {
    Seq::new(
        2 * data.len(),
        |i: int|
            if i % 2 == 0 {
                hex_digit(data[i / 2] as nat / 16)
            } else {
                hex_digit(data[i / 2] as nat % 16)
            },
    )
}

/// The byte sequence that a hexadecimal text spells.
pub open spec fn hex_bytes(text: Seq<char>) -> Seq<u8>
    recommends
        is_hex_text(text),
{
    Seq::new(
        text.len() / 2,
        |i: int| (hex_value(text[2 * i])->0 * 16 + hex_value(text[2 * i + 1])->0) as u8,
    )
}

/// The one-character text of the digit for a nibble.
fn digit_str(nibble: u8) -> (digit: &'static str)
    requires
        nibble < 16,
    ensures
        digit@ == seq![hex_digit(nibble as nat)],
{
    proof {
        reveal_strlit("0");
        reveal_strlit("1");
        reveal_strlit("2");
        reveal_strlit("3");
        reveal_strlit("4");
        reveal_strlit("5");
        reveal_strlit("6");
        reveal_strlit("7");
        reveal_strlit("8");
        reveal_strlit("9");
        reveal_strlit("a");
        reveal_strlit("b");
        reveal_strlit("c");
        reveal_strlit("d");
        reveal_strlit("e");
        reveal_strlit("f");
    }
    if nibble == 0 {
        "0"
    } else if nibble == 1 {
        "1"
    } else if nibble == 2 {
        "2"
    } else if nibble == 3 {
        "3"
    } else if nibble == 4 {
        "4"
    } else if nibble == 5 {
        "5"
    } else if nibble == 6 {
        "6"
    } else if nibble == 7 {
        "7"
    } else if nibble == 8 {
        "8"
    } else if nibble == 9 {
        "9"
    } else if nibble == 10 {
        "a"
    } else if nibble == 11 {
        "b"
    } else if nibble == 12 {
        "c"
    } else if nibble == 13 {
        "d"
    } else if nibble == 14 {
        "e"
    } else {
        "f"
    }
}

/// Appends the lower-case hexadecimal spelling of `data` to `out`.
pub fn append_hex(out: &mut String, data: &[u8])
    ensures
        final(out)@ == old(out)@ + hex_text(data@),
{
    let mut i: usize = 0;
    while i < data.len()
        invariant
            i <= data.len(),
            out@ == old(out)@ + hex_text(data@).subrange(0, 2 * i),
        decreases data.len() - i,
    {
        let byte = data[i];
        out.append(digit_str(byte / 16));
        out.append(digit_str(byte % 16));
        i = i + 1;
    }
}

/// The lower-case hexadecimal spelling of `data`.
pub fn bytes_to_hex(data: &[u8]) -> (text: String)
    ensures
        text@ == hex_text(data@),
{
    let mut text = String::new();
    append_hex(&mut text, data);
    text
}

/// The nibble that an ASCII code spells, in either case, if it is a digit.
fn nibble_of(code: u8) -> (nibble: Option<u8>)
    ensures
        match nibble {
            Some(v) => hex_value(code as char) == Some(v as nat),
            None => hex_value(code as char) is None,
        },
{
    if 0x30 <= code && code <= 0x39 {
        Some(code - 0x30)
    } else if 0x61 <= code && code <= 0x66 {
        Some(code - 0x61 + 10)
    } else if 0x41 <= code && code <= 0x46 {
        Some(code - 0x41 + 10)
    } else {
        None
    }
}

/// The byte sequence that `text` spells in hexadecimal digits of either
/// case, or what is wrong with the text.
pub fn hex_to_bytes(text: &str) -> (data: Result<Vec<u8>, HexError>)
    ensures
        match data {
            Ok(bytes) => hex_error(text@) is None && bytes@ == hex_bytes(text@),
            Err(error) => hex_error(text@) == Some(error),
        },
{
    let count = text.unicode_len();
    if count % 2 == 1 {
        return Err(HexError::OddLength);
    }
    if !text.is_ascii() {
        proof {
            let i = choose|i: int| 0 <= i < text@.len() && !('\0' <= #[trigger] text@[i] <= '\u{7f}');
            assert(hex_value(text@[i]) is None);
        }
        return Err(HexError::InvalidCharacter);
    }
    let codes = text.as_bytes();
    proof {
        is_ascii_spec_bytes(text);
    }
    let mut bytes: Vec<u8> = Vec::new();
    let mut i: usize = 0;
    while i < count / 2
        invariant
            count == text@.len(),
            count % 2 == 0,
            codes@.len() == count,
            forall|k: int| 0 <= k < count ==> #[trigger] codes@[k] == text@[k] as u8,
            forall|k: int| 0 <= k < count ==> '\0' <= #[trigger] text@[k] <= '\u{7f}',
            i <= count / 2,
            bytes@.len() == i,
            forall|k: int| 0 <= k < 2 * i ==> (#[trigger] hex_value(text@[k])) is Some,
            forall|k: int| 0 <= k < i ==> #[trigger] bytes@[k] == hex_bytes(text@)[k],
        decreases count / 2 - i,
    {
        let high = nibble_of(codes[2 * i]);
        let low = nibble_of(codes[2 * i + 1]);
        match (high, low) {
            (Some(h), Some(l)) => {
                bytes.push(h * 16 + l);
            },
            _ => {
                return Err(HexError::InvalidCharacter);
            },
        }
        i = i + 1;
    }
    assert(bytes@ =~= hex_bytes(text@));
    Ok(bytes)
}

/// The digit for a nibble spells that nibble, and is in lower case.
pub proof fn lemma_hex_value_of_digit(nibble: nat)
    requires
        nibble < 16,
    ensures
        hex_value(hex_digit(nibble)) == Some(nibble),
        lower(hex_digit(nibble)) == hex_digit(nibble),
{
}

/// The nibble that a digit spells is below 16, and its own digit is the
/// lower-case form of the digit it was read from.
pub proof fn lemma_hex_digit_of_value(c: char)
    requires
        hex_value(c) is Some,
    ensures
        hex_value(c)->0 < 16,
        hex_digit(hex_value(c)->0) == lower(c),
{
}

/// Reading the hexadecimal spelling of a byte sequence gives the sequence
/// back: the spelling is well formed, and it spells the bytes it was made of.
pub proof fn theorem_hex_round_trip(data: Seq<u8>)
    ensures
        is_hex_text(hex_text(data)),
        hex_error(hex_text(data)) is None,
        hex_bytes(hex_text(data)) == data,
{
    let text = hex_text(data);
    assert forall|i: int| 0 <= i < text.len() implies (#[trigger] hex_value(text[i])) is Some by {
        let byte = data[i / 2] as nat;
        lemma_hex_value_of_digit(byte / 16);
        lemma_hex_value_of_digit(byte % 16);
    }
    assert forall|k: int| 0 <= k < data.len() implies #[trigger] hex_bytes(text)[k] == data[k] by {
        let byte = data[k] as nat;
        lemma_hex_value_of_digit(byte / 16);
        lemma_hex_value_of_digit(byte % 16);
        assert(text[2 * k] == hex_digit(byte / 16));
        assert(text[2 * k + 1] == hex_digit(byte % 16));
    }
    assert(hex_bytes(text) =~= data);
}

/// Writing the bytes that a well-formed hexadecimal text spells gives the
/// text back in lower case.
pub proof fn theorem_hex_text_of_hex_bytes(text: Seq<char>)
    requires
        is_hex_text(text),
    ensures
        hex_text(hex_bytes(text)) == lowercase(text),
{
    let data = hex_bytes(text);
    assert forall|i: int| 0 <= i < text.len() implies #[trigger] hex_text(data)[i] == lower(
        text[i],
    ) by {
        let k = i / 2;
        lemma_hex_digit_of_value(text[2 * k]);
        lemma_hex_digit_of_value(text[2 * k + 1]);
    }
}

} // verus!
