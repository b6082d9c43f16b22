//! Hexadecimal digits: which bytes are digits, what they are worth, and the
//! lookup tables through which the codecs read and write them.

use vstd::prelude::*;

verus! {

/// What `HEX_VALUE` holds for a byte that is no hexadecimal digit.
pub const INVALID: u8 = 0xff;

/// The value of each ASCII hexadecimal digit, and `INVALID` for every other
/// byte.
pub const HEX_VALUE: [u8; 256] = [
    0xff, 0xff, 0xff, 0xff, 0xff, 0xff, 0xff, 0xff, 0xff, 0xff, 0xff, 0xff, 0xff, 0xff, 0xff, 0xff,
    0xff, 0xff, 0xff, 0xff, 0xff, 0xff, 0xff, 0xff, 0xff, 0xff, 0xff, 0xff, 0xff, 0xff, 0xff, 0xff,
    0xff, 0xff, 0xff, 0xff, 0xff, 0xff, 0xff, 0xff, 0xff, 0xff, 0xff, 0xff, 0xff, 0xff, 0xff, 0xff,
    0x00, 0x01, 0x02, 0x03, 0x04, 0x05, 0x06, 0x07, 0x08, 0x09, 0xff, 0xff, 0xff, 0xff, 0xff, 0xff,
    0xff, 0x0a, 0x0b, 0x0c, 0x0d, 0x0e, 0x0f, 0xff, 0xff, 0xff, 0xff, 0xff, 0xff, 0xff, 0xff, 0xff,
    0xff, 0xff, 0xff, 0xff, 0xff, 0xff, 0xff, 0xff, 0xff, 0xff, 0xff, 0xff, 0xff, 0xff, 0xff, 0xff,
    0xff, 0x0a, 0x0b, 0x0c, 0x0d, 0x0e, 0x0f, 0xff, 0xff, 0xff, 0xff, 0xff, 0xff, 0xff, 0xff, 0xff,
    0xff, 0xff, 0xff, 0xff, 0xff, 0xff, 0xff, 0xff, 0xff, 0xff, 0xff, 0xff, 0xff, 0xff, 0xff, 0xff,
    0xff, 0xff, 0xff, 0xff, 0xff, 0xff, 0xff, 0xff, 0xff, 0xff, 0xff, 0xff, 0xff, 0xff, 0xff, 0xff,
    0xff, 0xff, 0xff, 0xff, 0xff, 0xff, 0xff, 0xff, 0xff, 0xff, 0xff, 0xff, 0xff, 0xff, 0xff, 0xff,
    0xff, 0xff, 0xff, 0xff, 0xff, 0xff, 0xff, 0xff, 0xff, 0xff, 0xff, 0xff, 0xff, 0xff, 0xff, 0xff,
    0xff, 0xff, 0xff, 0xff, 0xff, 0xff, 0xff, 0xff, 0xff, 0xff, 0xff, 0xff, 0xff, 0xff, 0xff, 0xff,
    0xff, 0xff, 0xff, 0xff, 0xff, 0xff, 0xff, 0xff, 0xff, 0xff, 0xff, 0xff, 0xff, 0xff, 0xff, 0xff,
    0xff, 0xff, 0xff, 0xff, 0xff, 0xff, 0xff, 0xff, 0xff, 0xff, 0xff, 0xff, 0xff, 0xff, 0xff, 0xff,
    0xff, 0xff, 0xff, 0xff, 0xff, 0xff, 0xff, 0xff, 0xff, 0xff, 0xff, 0xff, 0xff, 0xff, 0xff, 0xff,
    0xff, 0xff, 0xff, 0xff, 0xff, 0xff, 0xff, 0xff, 0xff, 0xff, 0xff, 0xff, 0xff, 0xff, 0xff, 0xff,
];

/// Each byte shifted left by four bits, the bits that leave the byte dropped.
pub const NIBBLE_SHIFT: [u8; 256] = [
    0x00, 0x10, 0x20, 0x30, 0x40, 0x50, 0x60, 0x70, 0x80, 0x90, 0xa0, 0xb0, 0xc0, 0xd0, 0xe0, 0xf0,
    0x00, 0x10, 0x20, 0x30, 0x40, 0x50, 0x60, 0x70, 0x80, 0x90, 0xa0, 0xb0, 0xc0, 0xd0, 0xe0, 0xf0,
    0x00, 0x10, 0x20, 0x30, 0x40, 0x50, 0x60, 0x70, 0x80, 0x90, 0xa0, 0xb0, 0xc0, 0xd0, 0xe0, 0xf0,
    0x00, 0x10, 0x20, 0x30, 0x40, 0x50, 0x60, 0x70, 0x80, 0x90, 0xa0, 0xb0, 0xc0, 0xd0, 0xe0, 0xf0,
    0x00, 0x10, 0x20, 0x30, 0x40, 0x50, 0x60, 0x70, 0x80, 0x90, 0xa0, 0xb0, 0xc0, 0xd0, 0xe0, 0xf0,
    0x00, 0x10, 0x20, 0x30, 0x40, 0x50, 0x60, 0x70, 0x80, 0x90, 0xa0, 0xb0, 0xc0, 0xd0, 0xe0, 0xf0,
    0x00, 0x10, 0x20, 0x30, 0x40, 0x50, 0x60, 0x70, 0x80, 0x90, 0xa0, 0xb0, 0xc0, 0xd0, 0xe0, 0xf0,
    0x00, 0x10, 0x20, 0x30, 0x40, 0x50, 0x60, 0x70, 0x80, 0x90, 0xa0, 0xb0, 0xc0, 0xd0, 0xe0, 0xf0,
    0x00, 0x10, 0x20, 0x30, 0x40, 0x50, 0x60, 0x70, 0x80, 0x90, 0xa0, 0xb0, 0xc0, 0xd0, 0xe0, 0xf0,
    0x00, 0x10, 0x20, 0x30, 0x40, 0x50, 0x60, 0x70, 0x80, 0x90, 0xa0, 0xb0, 0xc0, 0xd0, 0xe0, 0xf0,
    0x00, 0x10, 0x20, 0x30, 0x40, 0x50, 0x60, 0x70, 0x80, 0x90, 0xa0, 0xb0, 0xc0, 0xd0, 0xe0, 0xf0,
    0x00, 0x10, 0x20, 0x30, 0x40, 0x50, 0x60, 0x70, 0x80, 0x90, 0xa0, 0xb0, 0xc0, 0xd0, 0xe0, 0xf0,
    0x00, 0x10, 0x20, 0x30, 0x40, 0x50, 0x60, 0x70, 0x80, 0x90, 0xa0, 0xb0, 0xc0, 0xd0, 0xe0, 0xf0,
    0x00, 0x10, 0x20, 0x30, 0x40, 0x50, 0x60, 0x70, 0x80, 0x90, 0xa0, 0xb0, 0xc0, 0xd0, 0xe0, 0xf0,
    0x00, 0x10, 0x20, 0x30, 0x40, 0x50, 0x60, 0x70, 0x80, 0x90, 0xa0, 0xb0, 0xc0, 0xd0, 0xe0, 0xf0,
    0x00, 0x10, 0x20, 0x30, 0x40, 0x50, 0x60, 0x70, 0x80, 0x90, 0xa0, 0xb0, 0xc0, 0xd0, 0xe0, 0xf0,
];

/// The sixteen upper-case digits, by value.
pub const UPPER: [u8; 16] = [
    0x30, 0x31, 0x32, 0x33, 0x34, 0x35, 0x36, 0x37, 0x38, 0x39, 0x41, 0x42, 0x43, 0x44, 0x45, 0x46,
];

/// The sixteen lower-case digits, by value.
pub const LOWER: [u8; 16] = [
    0x30, 0x31, 0x32, 0x33, 0x34, 0x35, 0x36, 0x37, 0x38, 0x39, 0x61, 0x62, 0x63, 0x64, 0x65, 0x66,
];

/// The separator of the hyphenated layout.
pub const HYPHEN: u8 = 0x2d;

/// `c` is one of `0`-`9`, `a`-`f`, `A`-`F`.
pub open spec fn is_hex_digit(c: u8) -> bool {
    ||| 0x30 <= c <= 0x39
    ||| 0x61 <= c <= 0x66
    ||| 0x41 <= c <= 0x46
}

/// The value, 0 to 15, of the hexadecimal digit `c`.
pub open spec fn digit_value(c: u8) -> int
    recommends
        is_hex_digit(c),
{
    if 0x30 <= c <= 0x39 {
        c - 0x30
    } else if 0x61 <= c <= 0x66 {
        c - 0x61 + 10
    } else {
        c - 0x41 + 10
    }
}

/// The digit that stands for the value `v`, in upper or lower case.
pub open spec fn digit_of(v: int, upper: bool) -> u8
    recommends
        0 <= v < 16,
{
    if v < 10 {
        (0x30 + v) as u8
    } else if upper {
        (0x41 + (v - 10)) as u8
    } else {
        (0x61 + (v - 10)) as u8
    }
}

/// The byte that the digits `hi` and `lo` spell.
pub open spec fn pair_value(hi: u8, lo: u8) -> u8
    recommends
        is_hex_digit(hi),
        is_hex_digit(lo),
{
    (digit_value(hi) * 16 + digit_value(lo)) as u8
}

/// Every byte of `text` is a hexadecimal digit.
pub open spec fn all_hex_digits(text: Seq<u8>) -> bool {
    forall|i: int| 0 <= i < text.len() ==> is_hex_digit(#[trigger] text[i])
}

/// The bytes that `text` spells, two digits to a byte.
pub open spec fn decode(text: Seq<u8>) -> Seq<u8>
    recommends
        text.len() % 2 == 0,
        all_hex_digits(text),
{
    Seq::new(text.len() / 2, |i: int| pair_value(text[2 * i], text[2 * i + 1]))
}

/// The digits that spell `bytes`, two to a byte, the upper half of a byte
/// first.
pub open spec fn encode(bytes: Seq<u8>, upper: bool) -> Seq<u8> {
    Seq::new(
        2 * bytes.len(),
        |i: int|
            if i % 2 == 0 {
                digit_of(bytes[i / 2] as int / 16, upper)
            } else {
                digit_of(bytes[i / 2] as int % 16, upper)
            },
    )
}

/// The letter `c` in the asked case; any other byte as it is.
pub open spec fn to_case(c: u8, upper: bool) -> u8 {
    if upper && 0x61 <= c <= 0x7a {
        (c - 0x20) as u8
    } else if !upper && 0x41 <= c <= 0x5a {
        (c + 0x20) as u8
    } else {
        c
    }
}

/// `text` with every letter in the asked case.
pub open spec fn with_case(text: Seq<u8>, upper: bool) -> Seq<u8> {
    Seq::new(text.len(), |i: int| to_case(text[i], upper))
}

/// What was encoded decodes to itself, whatever the case.
pub proof fn lemma_decode_encode(bytes: Seq<u8>, upper: bool)
    ensures
        encode(bytes, upper).len() == 2 * bytes.len(),
        all_hex_digits(encode(bytes, upper)),
        decode(encode(bytes, upper)) == bytes,
{
    let text = encode(bytes, upper);
    assert forall|i: int| 0 <= i < text.len() implies is_hex_digit(#[trigger] text[i]) by {
        let b = bytes[i / 2];
        assert(0 <= b as int / 16 < 16 && 0 <= b as int % 16 < 16);
    }
    assert forall|k: int| 0 <= k < bytes.len() implies decode(text)[k] == bytes[k] by {
        let b = bytes[k];
        assert((2 * k) % 2 == 0 && (2 * k) / 2 == k);
        assert((2 * k + 1) % 2 == 1 && (2 * k + 1) / 2 == k);
        assert(text[2 * k] == digit_of(b as int / 16, upper));
        assert(text[2 * k + 1] == digit_of(b as int % 16, upper));
        assert(0 <= b as int / 16 < 16 && 0 <= b as int % 16 < 16);
    }
    assert(decode(text) =~= bytes);
}

/// What was decoded encodes to the same digits, each in the asked case.
pub proof fn lemma_encode_decode(text: Seq<u8>, upper: bool)
    requires
        text.len() % 2 == 0,
        all_hex_digits(text),
    ensures
        decode(text).len() * 2 == text.len(),
        encode(decode(text), upper) == with_case(text, upper),
{
    let bytes = decode(text);
    assert forall|i: int| 0 <= i < text.len() implies encode(bytes, upper)[i] == with_case(
        text,
        upper,
    )[i] by {
        let k = i / 2;
        assert(is_hex_digit(text[2 * k]) && is_hex_digit(text[2 * k + 1]));
        let v = digit_value(text[2 * k]) * 16 + digit_value(text[2 * k + 1]);
        assert(bytes[k] == v);
        assert(v / 16 == digit_value(text[2 * k]) && v % 16 == digit_value(text[2 * k + 1]));
    }
    assert(encode(bytes, upper) =~= with_case(text, upper));
}

/// A table entry is a value below sixteen or `INVALID`, and two entries
/// joined by `|` are `INVALID` exactly where one of them is.
pub proof fn lemma_sentinel(a: u8, b: u8)
    by (bit_vector)
    requires
        a <= 15 || a == 0xff,
        b <= 15 || b == 0xff,
    ensures
        (a | b) <= 15 || (a | b) == 0xff,
        (a | b) == 0xff <==> (a == 0xff || b == 0xff),
{
}

/// A shifted value joined with another value by `|` is sixteen times the
/// first plus the second.
pub proof fn lemma_join(a: u8, b: u8, shifted: u8)
    by (bit_vector)
    requires
        a <= 15,
        b <= 15,
        shifted == a * 16,
    ensures
        (shifted | b) == a * 16 + b,
{
}

/// The upper and the lower half of a byte, by shift and mask.
pub proof fn lemma_halves(x: u8)
    by (bit_vector)
    ensures
        (x >> 4) == x / 16,
        (x & 0x0f) == x % 16,
        (x >> 4) < 16,
        (x & 0x0f) < 16,
{
}

/// The byte that two digits spell, or nothing where one of them is no digit.
pub fn decode_pair(hi: u8, lo: u8) -> (byte: Option<u8>)
    ensures
        byte == if is_hex_digit(hi) && is_hex_digit(lo) {
            Some(pair_value(hi, lo))
        } else {
            None
        },
{
    let h1 = hex_value(hi);
    let h2 = hex_value(lo);
    proof {
        lemma_sentinel(h1, h2);
    }
    if h1 | h2 == INVALID {
        return None;
    }
    let shifted = nibble_shift(h1);
    proof {
        lemma_join(h1, h2, shifted);
    }
    Some(shifted | h2)
}

/// The two digits that spell `byte`, from `UPPER` or from `LOWER`.
pub fn encode_byte(byte: u8, upper: bool) -> (pair: (u8, u8))
    ensures
        pair.0 == digit_of(byte as int / 16, upper),
        pair.1 == digit_of(byte as int % 16, upper),
{
    proof {
        lemma_halves(byte);
    }
    if upper {
        (UPPER[(byte >> 4) as usize], UPPER[(byte & 0x0f) as usize])
    } else {
        (LOWER[(byte >> 4) as usize], LOWER[(byte & 0x0f) as usize])
    }
}

/// Looks a byte up in `HEX_VALUE`.
pub fn hex_value(c: u8) -> (v: u8)
    ensures
        is_hex_digit(c) ==> v == digit_value(c),
        !is_hex_digit(c) ==> v == INVALID,
        v <= 15 || v == INVALID,
{
    HEX_VALUE[c as usize]
}

/// Looks a byte up in `NIBBLE_SHIFT`.
pub fn nibble_shift(v: u8) -> (s: u8)
    ensures
        s == (v * 16) % 256,
{
    NIBBLE_SHIFT[v as usize]
}

} // verus!
