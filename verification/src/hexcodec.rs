//! Hexadecimal text: what it is, and the calls that produce and read it.

use vstd::prelude::*;

verus! {

/// The lower-case hexadecimal digit for a value below sixteen.
pub open spec fn hex_digit(nibble: int) -> u8 {
    if nibble < 10 {
        (48 + nibble) as u8
    } else {
        (87 + nibble) as u8
    }
}

/// The value of a hexadecimal digit of either case, if it is one.
pub open spec fn hex_value(c: u8) -> Option<int> {
    if 48 <= c <= 57 {
        Some(c - 48)
    } else if 97 <= c <= 102 {
        Some(c - 87)
    } else if 65 <= c <= 70 {
        Some(c - 55)
    } else {
        None
    }
}

/// The hexadecimal text of a byte string: two lower-case digits for each
/// byte, the high half first.
#[verifier::opaque]
pub open spec fn hex_encoded(bytes: Seq<u8>) -> Seq<u8> {
    Seq::new(
        2 * bytes.len(),
        |i: int|
            if i % 2 == 0 {
                hex_digit(bytes[i / 2] as int / 16)
            } else {
                hex_digit(bytes[i / 2] as int % 16)
            },
    )
}

/// Whether a text is an even number of hexadecimal digits.
#[verifier::opaque]
pub open spec fn is_hex_text(text: Seq<u8>) -> bool {
    &&& text.len() % 2 == 0
    &&& forall|i: int| 0 <= i < text.len() ==> hex_value(#[trigger] text[i]) is Some
}

/// The bytes that a hexadecimal text stands for.
#[verifier::opaque]
pub open spec fn hex_decoded(text: Seq<u8>) -> Seq<u8> {
    Seq::new(
        text.len() / 2,
        |i: int| (hex_value(text[2 * i])->0 * 16 + hex_value(text[2 * i + 1])->0) as u8,
    )
}

/// Hexadecimal text reads back as the bytes it was written from.
pub proof fn lemma_hex_round_trip(bytes: Seq<u8>)
    ensures
        is_hex_text(hex_encoded(bytes)),
        hex_decoded(hex_encoded(bytes)) == bytes,
        hex_encoded(bytes).len() == 2 * bytes.len(),
{
    reveal(hex_encoded);
    reveal(hex_decoded);
    reveal(is_hex_text);
    let text = hex_encoded(bytes);
    assert forall|i: int| 0 <= i < text.len() implies hex_value(#[trigger] text[i]) is Some by {
        let b = bytes[i / 2] as int;
        assert(0 <= b / 16 < 16 && 0 <= b % 16 < 16);
    }
    assert forall|i: int| 0 <= i < bytes.len() implies hex_decoded(text)[i] == bytes[i] by {
        let b = bytes[i] as int;
        assert((2 * i) / 2 == i && (2 * i) % 2 == 0);
        assert((2 * i + 1) / 2 == i && (2 * i + 1) % 2 == 1);
        assert(0 <= b / 16 < 16 && 0 <= b % 16 < 16);
        assert(hex_value(hex_digit(b / 16)) == Some(b / 16));
        assert(hex_value(hex_digit(b % 16)) == Some(b % 16));
        assert((b / 16) * 16 + b % 16 == b);
    }
    assert(hex_decoded(text) =~= bytes);
}

/// A hexadecimal text stands for half as many bytes as it has digits.
pub proof fn lemma_hex_decoded_len(text: Seq<u8>)
    ensures
        hex_decoded(text).len() == text.len() / 2,
{
    reveal(hex_decoded);
}

/// Hexadecimal text holds digits and lower-case letters only.
pub proof fn lemma_hex_digits(bytes: Seq<u8>)
    ensures
        hex_encoded(bytes).len() == 2 * bytes.len(),
        forall|i: int|
            0 <= i < 2 * bytes.len() ==> 48 <= #[trigger] hex_encoded(bytes)[i] <= 57 || 97
                <= hex_encoded(bytes)[i] <= 102,
{
    reveal(hex_encoded);
    assert forall|i: int| 0 <= i < 2 * bytes.len() implies 48 <= #[trigger] hex_encoded(bytes)[i]
        <= 57 || 97 <= hex_encoded(bytes)[i] <= 102 by {
        let b = bytes[i / 2] as int;
        assert(0 <= b / 16 < 16 && 0 <= b % 16 < 16);
    }
}

/// The bytes of a hexadecimal text, or nothing where the text is not one.
///
/// Calls `hex::decode`, which refuses a text of odd length and a text that
/// holds anything but the digits `0-9`, `a-f` and `A-F`, and otherwise gives
/// one byte for each pair of digits, the first digit being the high half.
#[verifier::external_body]
pub(crate) fn hex_decode(text: &[u8]) -> (bytes: Option<Vec<u8>>)
    ensures
        bytes is Some <==> is_hex_text(text@),
        bytes matches Some(b) ==> b@ == hex_decoded(text@),
{
    hex::decode(text).ok()
}

/// The hexadecimal text of `bytes`.
///
/// Calls `hex::encode`, which writes two lower-case digits for each byte,
/// the high half first.
#[verifier::external_body]
pub(crate) fn hex_encode(bytes: &[u8]) -> (text: Vec<u8>)
    ensures
        text@ == hex_encoded(bytes@),
{
    hex::encode(bytes).into_bytes()
}

} // verus!
