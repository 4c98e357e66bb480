//! Byte/text encodings used by lulzcoin: lower-case hexadecimal, the
//! two-character hex pairs that make up a binary address.

use vstd::prelude::*;
use hex::ToHex;

verus! {

/// The lower-case hexadecimal digit for a nibble `n < 16`.
pub open spec fn hex_digit(n: int) -> char {
    if n < 10 {
        (48 + n) as char
    } else {
        (87 + n) as char
    }
}

/// Lower-case hexadecimal text of `bytes`: two digits per byte, high nibble first.
pub open spec fn hex_lower(bytes: Seq<u8>) -> Seq<char> {
    Seq::new(
        2 * bytes.len(),
        |i: int|
            if i % 2 == 0 {
                hex_digit(bytes[i / 2] as int / 16)
            } else {
                hex_digit(bytes[i / 2] as int % 16)
            },
    )
}

/// The characters of `text` taken one byte each (the UTF-8 bytes of ASCII text).
pub open spec fn ascii_bytes(text: Seq<char>) -> Seq<u8> {
    Seq::new(text.len(), |i: int| text[i] as u8)
}

/// A digit that `from_str_radix(_, 16)` accepts: `0-9`, `a-f` or `A-F`.
pub open spec fn is_hex_char(c: char) -> bool {
    ||| 48 <= c as int <= 57
    ||| 97 <= c as int <= 102
    ||| 65 <= c as int <= 70
}

/// A lower-case hexadecimal digit: `0-9` or `a-f`.
pub open spec fn is_lower_hex_digit(c: char) -> bool {
    ||| 48 <= c as int <= 57
    ||| 97 <= c as int <= 102
}

/// The value of a hexadecimal digit.
pub open spec fn hex_char_value(c: char) -> int {
    if 48 <= c as int <= 57 {
        c as int - 48
    } else if 97 <= c as int <= 102 {
        c as int - 87
    } else {
        c as int - 55
    }
}

/// The byte that a two-character text `hi lo` stands for when it is read as a
/// signed base-16 integer and truncated to a byte, or `None` where it is no
/// such integer.  A leading `+` or `-` counts as a sign, so `"+f"` is 15 and
/// `"-f"` is -15, which truncates to 241.
pub open spec fn pair_value(hi: char, lo: char) -> Option<u8> {
    if !is_hex_char(lo) {
        None
    } else if is_hex_char(hi) {
        Some((16 * hex_char_value(hi) + hex_char_value(lo)) as u8)
    } else if hi == '+' {
        Some(hex_char_value(lo) as u8)
    } else if hi == '-' {
        Some(((256 - hex_char_value(lo)) % 256) as u8)
    } else {
        None
    }
}

/// Text made of `n` two-character pairs, each of which reads as a byte.
pub open spec fn is_pair_text(text: Seq<char>, n: nat) -> bool {
    &&& text.len() == 2 * n
    &&& forall|i: int| 0 <= i < n ==> (#[trigger] pair_value(text[2 * i], text[2 * i + 1])) is Some
}

/// The bytes that the pairs of `text` stand for, first pair first.
pub open spec fn pair_bytes(text: Seq<char>) -> Seq<u8> {
    Seq::new(text.len() / 2, |i: int| pair_value(text[2 * i], text[2 * i + 1])->0)
}

/// Lower-case hex text of `bytes`, as `hex::ToHex::to_hex` writes it.
///
/// Trusted: `hex::ToHex::to_hex` (hex 0.2) pushes, for each byte, the digits
/// of its high and low nibble from the table "0123456789abcdef".
#[verifier::external_body]
pub(crate) fn hex_encode(bytes: &[u8]) -> (res: String)
    ensures
        res@ == hex_lower(bytes@),
{
    bytes.to_hex()
}

/// The value of `c` as a hexadecimal digit, or `None` where it is none.
pub fn hex_char_val(c: char) -> (res: Option<u8>)
    ensures
        is_hex_char(c) <==> res is Some,
        res matches Some(v) ==> v as int == hex_char_value(c) && v < 16,
{
    let v = c as u32;
    if 48 <= v && v <= 57 {
        Some((v - 48) as u8)
    } else if 97 <= v && v <= 102 {
        Some((v - 87) as u8)
    } else if 65 <= v && v <= 70 {
        Some((v - 55) as u8)
    } else {
        None
    }
}

/// The byte that the two-character text `hi lo` stands for (see `pair_value`).
pub fn decode_pair(hi: char, lo: char) -> (res: Option<u8>)
    ensures
        res == pair_value(hi, lo),
{
    match hex_char_val(lo) {
        None => None,
        Some(l) => match hex_char_val(hi) {
            Some(h) => Some(16 * h + l),
            None => {
                if hi == '+' {
                    Some(l)
                } else if hi == '-' {
                    if l == 0 {
                        Some(0)
                    } else {
                        Some(((256 - l as u16) as u8))
                    }
                } else {
                    None
                }
            },
        },
    }
}

/// Hex text read back pair by pair gives the bytes it was written from.
pub proof fn lemma_hex_pairs_decode(bytes: Seq<u8>)
    ensures
        is_pair_text(hex_lower(bytes), bytes.len()),
        pair_bytes(hex_lower(bytes)) == bytes,
{
    let text = hex_lower(bytes);
    assert forall|i: int| 0 <= i < bytes.len() implies #[trigger] pair_value(
        text[2 * i],
        text[2 * i + 1],
    ) == Some(bytes[i]) by {
        assert((2 * i) / 2 == i && (2 * i) % 2 == 0);
        assert((2 * i + 1) / 2 == i && (2 * i + 1) % 2 == 1);
        let b = bytes[i];
        assert(b as int / 16 * 16 + b as int % 16 == b as int);
        assert(0 <= b as int / 16 < 16);
    }
    assert(pair_bytes(text) =~= bytes);
}

/// Hex text is plain ASCII.
pub proof fn lemma_hex_is_ascii(bytes: Seq<u8>)
    ensures
        vstd::utf8::is_ascii_chars(hex_lower(bytes)),
        forall|i: int| 0 <= i < hex_lower(bytes).len() ==> is_hex_char(#[trigger] hex_lower(bytes)[i]),
        forall|i: int| 0 <= i < hex_lower(bytes).len() ==> is_lower_hex_digit(#[trigger] hex_lower(bytes)[i]),
{
    let text = hex_lower(bytes);
    assert forall|i: int| 0 <= i < text.len() implies is_hex_char(#[trigger] text[i])
        && is_lower_hex_digit(text[i]) && '\0' <= text[i] <= '\u{7f}' by {
        assert(0 <= bytes[i / 2] as int / 16 < 16);
        assert(0 <= bytes[i / 2] as int % 16 < 16);
    }
}

} // verus!
