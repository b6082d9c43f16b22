//! Text to 64-bit identifier: sixteen hexadecimal digits.

use crate::hex::{all_hex_digits, decode, decode_pair, with_case};
use crate::hex::{lemma_decode_encode, lemma_encode_decode};
use crate::id64::error::{classify_text, Error, ErrorKind, InvalidVolumeId64};
use crate::id64::fmt::{simple_text, SimpleId64};
use crate::id64::VolumeId64;
use vstd::prelude::*;
use vstd::string::StringSliceAdditionalSpecFns;

verus! {

/// `text` has the simple layout: sixteen hexadecimal digits.
pub open spec fn is_simple(text: Seq<u8>) -> bool {
    text.len() == 16 && all_hex_digits(text)
}

/// The bytes of the identifier that `text` spells, in the order in which
/// they are written; nothing where `text` has not the simple layout.
pub open spec fn parse_text(text: Seq<u8>) -> Option<Seq<u8>> {
    if is_simple(text) {
        Some(decode(text))
    } else {
        None
    }
}

/// Eight bytes written in the simple layout, in either case, parse to
/// themselves.
pub proof fn lemma_parse_simple_text(bytes: Seq<u8>, upper: bool)
    requires
        bytes.len() == 8,
    ensures
        is_simple(simple_text(bytes, upper)),
        parse_text(simple_text(bytes, upper)) == Some(bytes),
{
    lemma_decode_encode(bytes, upper);
}

/// Text that parses, written again, is the same text with its letters in the
/// case asked for.
pub proof fn lemma_write_parsed_text(text: Seq<u8>, upper: bool)
    requires
        parse_text(text) is Some,
    ensures
        simple_text(parse_text(text)->0, upper) == with_case(text, upper),
{
    lemma_encode_decode(text, upper);
}

/// The eight bytes that text of the simple layout spells; the text itself,
/// rejected, where it has not that layout.
pub fn parse_simpleid64<'a>(s: &'a [u8]) -> (r: Result<[u8; 8], InvalidVolumeId64<'a>>)
    ensures
        is_simple(s@) ==> (r matches Ok(bytes) && bytes@ == decode(s@)),
        !is_simple(s@) ==> (r matches Err(e) && e@ == s@),
{
    if s.len() != SimpleId64::LENGTH {
        return Err(InvalidVolumeId64::new(s));
    }
    let mut buf = [0u8;8];
    let mut i: usize = 0;
    while i < 8
        invariant
            i <= 8,
            s@.len() == 16,
            forall|k: int| 0 <= k < 2 * i ==> crate::hex::is_hex_digit(#[trigger] s@[k]),
            forall|k: int| 0 <= k < i ==> #[trigger] buf@[k] == decode(s@)[k],
        decreases 8 - i,
    {
        match decode_pair(s[i * 2], s[i * 2 + 1]) {
            None => {
                return Err(InvalidVolumeId64::new(s));
            },
            Some(byte) => {
                buf[i] = byte;
            },
        }
        i += 1;
    }
    assert(buf@ =~= decode(s@));
    Ok(buf)
}

impl core::str::FromStr for VolumeId64 {
    type Err = Error;

    /// The identifier that `s` spells; an error without a reason where it
    /// spells none.
    fn from_str(s: &str) -> (r: Result<VolumeId64, Error>)
        ensures
            match parse_text(s.spec_bytes()) {
                Some(bytes) => r matches Ok(id) && id@ == bytes,
                None => r == Err::<VolumeId64, Error>(Error(ErrorKind::ParseOther)),
            },
    {
        match VolumeId64::try_parse(s) {
            Ok(id) => Ok(id),
            Err(_) => Err(Error(ErrorKind::ParseOther)),
        }
    }
}

impl VolumeId64 {
    /// The identifier that `input` spells; what is wrong with `input` where
    /// it spells none.
    pub fn parse(input: &str) -> (r: Result<VolumeId64, Error>)
        ensures
            match parse_text(input.spec_bytes()) {
                Some(bytes) => r matches Ok(id) && id@ == bytes,
                None => r == Err::<VolumeId64, Error>(Error(classify_text(input@))),
            },
    {
        match VolumeId64::try_parse_ascii(input.as_bytes()) {
            Ok(id) => Ok(id),
            Err(rejected) => {
                proof {
                    vstd::utf8::encode_utf8_valid_utf8(input@);
                    vstd::utf8::encode_utf8_decode_utf8(input@);
                }
                Err(rejected.into_err())
            },
        }
    }

    /// The identifier that `input` spells; `input` itself, rejected, where
    /// it spells none.
    pub fn try_parse<'a>(input: &'a str) -> (r: Result<VolumeId64, InvalidVolumeId64<'a>>)
        ensures
            match parse_text(input.spec_bytes()) {
                Some(bytes) => r matches Ok(id) && id@ == bytes,
                None => r matches Err(e) && e@ == input.spec_bytes(),
            },
    {
        VolumeId64::try_parse_ascii(input.as_bytes())
    }

    /// The identifier that the bytes `s` spell; `s` itself, rejected, where
    /// they spell none.
    pub fn try_parse_ascii<'a>(s: &'a [u8]) -> (r: Result<VolumeId64, InvalidVolumeId64<'a>>)
        ensures
            match parse_text(s@) {
                Some(bytes) => r matches Ok(id) && id@ == bytes,
                None => r matches Err(e) && e@ == s@,
            },
    {
        if s.len() == 16 {
            match parse_simpleid64(s) {
                Ok(bytes) => Ok(VolumeId64::from_bytes(bytes)),
                Err(e) => Err(e),
            }
        } else {
            Err(InvalidVolumeId64::new(s))
        }
    }
}

} // verus!
