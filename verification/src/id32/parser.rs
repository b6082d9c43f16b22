//! Text to 32-bit identifier: eight hexadecimal digits, or four, a hyphen
//! and four more.

use crate::hex::{all_hex_digits, decode, decode_pair, with_case, HYPHEN};
use crate::hex::{lemma_decode_encode, lemma_encode_decode};
use crate::id32::error::{classify_text, Error, ErrorKind, InvalidVolumeId32};
use crate::id32::fmt::{hyphenated_text, lemma_hyphenated_text, simple_text};
use crate::id32::fmt::{HyphenatedId32, SimpleId32};
use crate::id32::VolumeId32;
use vstd::prelude::*;
use vstd::string::StringSliceAdditionalSpecFns;

verus! {

/// `text` has the simple layout: eight hexadecimal digits.
pub open spec fn is_simple(text: Seq<u8>) -> bool {
    text.len() == 8 && all_hex_digits(text)
}

/// `text` has the hyphenated layout: four hexadecimal digits, a hyphen, four
/// hexadecimal digits.
pub open spec fn is_hyphenated(text: Seq<u8>) -> bool {
    &&& text.len() == 9
    &&& text[4] == HYPHEN
    &&& all_hex_digits(text.subrange(0, 4))
    &&& all_hex_digits(text.subrange(5, 9))
}

/// The digits of hyphenated text.
pub open spec fn without_hyphen(text: Seq<u8>) -> Seq<u8>
    recommends
        text.len() == 9,
{
    text.subrange(0, 4) + text.subrange(5, 9)
}

/// The bytes of the identifier that `text` spells, in the order in which
/// they are written; nothing where `text` has neither layout.
pub open spec fn parse_text(text: Seq<u8>) -> Option<Seq<u8>> {
    if is_simple(text) {
        Some(decode(text))
    } else if is_hyphenated(text) {
        Some(decode(without_hyphen(text)))
    } else {
        None
    }
}

/// Four bytes written in the simple layout, in either case, parse to
/// themselves.
pub proof fn lemma_parse_simple_text(bytes: Seq<u8>, upper: bool)
    requires
        bytes.len() == 4,
    ensures
        is_simple(simple_text(bytes, upper)),
        parse_text(simple_text(bytes, upper)) == Some(bytes),
{
    lemma_decode_encode(bytes, upper);
}

/// Four bytes written in the hyphenated layout, in either case, parse to
/// themselves.
pub proof fn lemma_parse_hyphenated_text(bytes: Seq<u8>, upper: bool)
    requires
        bytes.len() == 4,
    ensures
        is_hyphenated(hyphenated_text(bytes, upper)),
        parse_text(hyphenated_text(bytes, upper)) == Some(bytes),
{
    let whole = simple_text(bytes, upper);
    let text = hyphenated_text(bytes, upper);
    lemma_hyphenated_text(bytes, upper);
    lemma_decode_encode(bytes, upper);
    assert(text.len() == 9 && text[4] == HYPHEN);
    assert(text.subrange(0, 4) =~= whole.subrange(0, 4));
    assert(text.subrange(5, 9) =~= whole.subrange(4, 8));
    assert(without_hyphen(text) =~= whole);
    lemma_groups_are_digits(whole);
}

/// Where eight bytes are digits, so are the first four and the last four.
proof fn lemma_groups_are_digits(digits: Seq<u8>)
    requires
        digits.len() == 8,
        all_hex_digits(digits),
    ensures
        all_hex_digits(digits.subrange(0, 4)),
        all_hex_digits(digits.subrange(4, 8)),
{
    assert forall|i: int| 0 <= i < 4 implies crate::hex::is_hex_digit(
        #[trigger] digits.subrange(0, 4)[i],
    ) by {
        assert(crate::hex::is_hex_digit(digits[i]));
    }
    assert forall|i: int| 0 <= i < 4 implies crate::hex::is_hex_digit(
        #[trigger] digits.subrange(4, 8)[i],
    ) by {
        assert(crate::hex::is_hex_digit(digits[i + 4]));
    }
}

/// Where the two groups of hyphenated text are digits, so is the text
/// without its hyphen.
proof fn lemma_digits_of_groups(text: Seq<u8>)
    requires
        is_hyphenated(text),
    ensures
        without_hyphen(text).len() == 8,
        all_hex_digits(without_hyphen(text)),
{
    let digits = without_hyphen(text);
    assert forall|i: int| 0 <= i < 8 implies crate::hex::is_hex_digit(#[trigger] digits[i]) by {
        if i < 4 {
            assert(crate::hex::is_hex_digit(text.subrange(0, 4)[i]));
        } else {
            assert(crate::hex::is_hex_digit(text.subrange(5, 9)[i - 4]));
        }
    }
}

/// Text that parses, written again in the layout it had, is the same text
/// with its letters in the case asked for.
pub proof fn lemma_write_parsed_text(text: Seq<u8>, upper: bool)
    requires
        parse_text(text) is Some,
    ensures
        is_simple(text) ==> simple_text(parse_text(text)->0, upper) == with_case(text, upper),
        is_hyphenated(text) ==> hyphenated_text(parse_text(text)->0, upper) == with_case(
            text,
            upper,
        ),
{
    if is_simple(text) {
        lemma_encode_decode(text, upper);
    } else {
        let digits = without_hyphen(text);
        let bytes = decode(digits);
        lemma_digits_of_groups(text);
        lemma_encode_decode(digits, upper);
        lemma_hyphenated_text(bytes, upper);
        let whole = with_case(digits, upper);
        assert(hyphenated_text(bytes, upper) == whole.subrange(0, 4) + seq![HYPHEN]
            + whole.subrange(4, 8));
        assert(whole.subrange(0, 4) + seq![HYPHEN] + whole.subrange(4, 8) =~= with_case(
            text,
            upper,
        ));
    }
}

/// The four bytes that text of the simple layout spells; the text itself,
/// rejected, where it has not that layout.
pub fn parse_simpleid32<'a>(s: &'a [u8]) -> (r: Result<[u8; 4], InvalidVolumeId32<'a>>)
    ensures
        is_simple(s@) ==> (r matches Ok(bytes) && bytes@ == decode(s@)),
        !is_simple(s@) ==> (r matches Err(e) && e@ == s@),
{
    if s.len() != SimpleId32::LENGTH {
        return Err(InvalidVolumeId32::new(s));
    }
    let mut buf = [0u8;4];
    let mut i: usize = 0;
    while i < 4
        invariant
            i <= 4,
            s@.len() == 8,
            forall|k: int| 0 <= k < 2 * i ==> crate::hex::is_hex_digit(#[trigger] s@[k]),
            forall|k: int| 0 <= k < i ==> #[trigger] buf@[k] == decode(s@)[k],
        decreases 4 - i,
    {
        match decode_pair(s[i * 2], s[i * 2 + 1]) {
            None => {
                return Err(InvalidVolumeId32::new(s));
            },
            Some(byte) => {
                buf[i] = byte;
            },
        }
        i += 1;
    }
    assert(buf@ =~= decode(s@));
    Ok(buf)
}

/// The four bytes that text of the hyphenated layout spells; the text
/// itself, rejected, where it has not that layout.
pub fn parse_hyphenatedid32<'a>(s: &'a [u8]) -> (r: Result<[u8; 4], InvalidVolumeId32<'a>>)
    ensures
        is_hyphenated(s@) ==> (r matches Ok(bytes) && bytes@ == decode(without_hyphen(s@))),
        !is_hyphenated(s@) ==> (r matches Err(e) && e@ == s@),
{
    if s.len() != HyphenatedId32::LENGTH {
        return Err(InvalidVolumeId32::new(s));
    }
    if s[4] != HYPHEN {
        return Err(InvalidVolumeId32::new(s));
    }
    let positions: [usize; 2] = [0, 5];
    let mut buf = [0u8;4];
    let mut j: usize = 0;
    let ghost digits = without_hyphen(s@);
    while j < 2
        invariant
            j <= 2,
            s@.len() == 9,
            positions[0] == 0,
            positions[1] == 5,
            digits == without_hyphen(s@),
            forall|k: int| 0 <= k < 4 * j ==> crate::hex::is_hex_digit(#[trigger] digits[k]),
            forall|k: int| 0 <= k < 2 * j ==> #[trigger] buf@[k] == decode(digits)[k],
        decreases 2 - j,
    {
        let i = positions[j];
        assert(digits[4 * j] == s@[i as int] && digits[4 * j + 1] == s@[i + 1] && digits[4 * j
            + 2] == s@[i + 2] && digits[4 * j + 3] == s@[i + 3]);
        let first = decode_pair(s[i], s[i + 1]);
        let second = decode_pair(s[i + 2], s[i + 3]);
        match (first, second) {
            (Some(b1), Some(b2)) => {
                buf[j * 2] = b1;
                buf[j * 2 + 1] = b2;
            },
            _ => {
                proof {
                    let group = if j == 0 {
                        s@.subrange(0, 4)
                    } else {
                        s@.subrange(5, 9)
                    };
                    assert(forall|k: int| 0 <= k < 4 ==> #[trigger] group[k] == s@[i + k]);
                    assert(!all_hex_digits(group)) by {
                        if all_hex_digits(group) {
                            assert(crate::hex::is_hex_digit(group[0]));
                            assert(crate::hex::is_hex_digit(group[1]));
                            assert(crate::hex::is_hex_digit(group[2]));
                            assert(crate::hex::is_hex_digit(group[3]));
                        }
                    }
                }
                return Err(InvalidVolumeId32::new(s));
            },
        }
        j += 1;
    }
    proof {
        assert(buf@ =~= decode(digits));
        assert forall|k: int| 0 <= k < 4 implies crate::hex::is_hex_digit(
            #[trigger] s@.subrange(0, 4)[k],
        ) by {
            assert(digits[k] == s@.subrange(0, 4)[k]);
        }
        assert forall|k: int| 0 <= k < 4 implies crate::hex::is_hex_digit(
            #[trigger] s@.subrange(5, 9)[k],
        ) by {
            assert(digits[k + 4] == s@.subrange(5, 9)[k]);
        }
    }
    Ok(buf)
}

impl core::str::FromStr for VolumeId32 {
    type Err = Error;

    /// The identifier that `s` spells; an error without a reason where it
    /// spells none.
    fn from_str(s: &str) -> (r: Result<VolumeId32, Error>)
        ensures
            match parse_text(s.spec_bytes()) {
                Some(bytes) => r matches Ok(id) && id@ == bytes,
                None => r == Err::<VolumeId32, Error>(Error(ErrorKind::ParseOther)),
            },
    {
        match VolumeId32::try_parse(s) {
            Ok(id) => Ok(id),
            Err(_) => Err(Error(ErrorKind::ParseOther)),
        }
    }
}

impl VolumeId32 {
    /// The identifier that `input` spells, in either layout; what is wrong
    /// with `input` where it spells none.
    pub fn parse(input: &str) -> (r: Result<VolumeId32, Error>)
        ensures
            match parse_text(input.spec_bytes()) {
                Some(bytes) => r matches Ok(id) && id@ == bytes,
                None => r == Err::<VolumeId32, Error>(Error(classify_text(input@))),
            },
    {
        match VolumeId32::try_parse_ascii(input.as_bytes()) {
            Ok(id) => Ok(id),
            Err(rejected) => {
                proof {
                    vstd::utf8::encode_utf8_valid_utf8(input@);
                    vstd::utf8::encode_utf8_decode_utf8(input@);
                }
                Err(rejected.into_err())
            },
        }
    }

    /// The identifier that `input` spells, in either layout; `input`
    /// itself, rejected, where it spells none.
    pub fn try_parse<'a>(input: &'a str) -> (r: Result<VolumeId32, InvalidVolumeId32<'a>>)
        ensures
            match parse_text(input.spec_bytes()) {
                Some(bytes) => r matches Ok(id) && id@ == bytes,
                None => r matches Err(e) && e@ == input.spec_bytes(),
            },
    {
        VolumeId32::try_parse_ascii(input.as_bytes())
    }

    /// The identifier that the bytes `s` spell, in either layout; `s`
    /// itself, rejected, where it spells none.
    pub fn try_parse_ascii<'a>(s: &'a [u8]) -> (r: Result<VolumeId32, InvalidVolumeId32<'a>>)
        ensures
            match parse_text(s@) {
                Some(bytes) => r matches Ok(id) && id@ == bytes,
                None => r matches Err(e) && e@ == s@,
            },
    {
        if s.len() == 8 {
            match parse_simpleid32(s) {
                Ok(bytes) => Ok(VolumeId32::from_bytes(bytes)),
                Err(e) => Err(e),
            }
        } else if s.len() == 9 {
            match parse_hyphenatedid32(s) {
                Ok(bytes) => Ok(VolumeId32::from_bytes(bytes)),
                Err(e) => Err(e),
            }
        } else {
            Err(InvalidVolumeId32::new(s))
        }
    }
}

} // verus!
