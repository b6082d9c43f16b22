//! What can be wrong with the text or the bytes of a 64-bit identifier.

use crate::scan::{allowed, first_rejected, lemma_first_rejected};
use crate::text::{decimal, lemma_encoding_len, push_char, push_decimal, utf8_text};
use vstd::prelude::*;
use vstd::std_specs::iter::IteratorSpec;
use vstd::string::{StringExecFns, StringSliceAdditionalSpecFns};
use vstd::utf8::{decode_utf8, valid_utf8};

verus! {

broadcast use vstd::string::group_string_axioms;

/// The ways in which an input fails to give a 64-bit identifier.
#[derive(Clone, Debug, PartialEq, Eq, Hash, Structural)]
pub enum ErrorKind {
    /// A character that is no hexadecimal digit, and its position, counted
    /// from one.
    ParseChar { character: char, index: usize },
    /// Text of hexadecimal digits that has not sixteen characters.
    ParseSimpleLength { len: usize },
    /// A byte slice that has not eight bytes.
    ParseByteLength { len: usize },
    /// Bytes that are not UTF-8.
    ParseInvalidUTF8,
    /// Text that failed to parse, with no reason kept.
    ParseOther,
}

/// An error of a 64-bit identifier.
#[derive(Clone, Debug, PartialEq, Eq, Hash, Structural)]
pub struct Error(pub ErrorKind);

/// The message that tells a reader what `kind` means.
pub open spec fn message(kind: ErrorKind) -> Seq<char> {
    match kind {
        ErrorKind::ParseChar { character, index } => {
            "invalid character: expected [0-9a-fA-F], found `"@.push(character) + "` at "@
                + decimal(index as nat)
        },
        ErrorKind::ParseSimpleLength { len } => {
            "invalid length: expected length for simple format, found "@ + decimal(len as nat)
        },
        ErrorKind::ParseByteLength { len } => "invalid byte length, found "@ + decimal(len as nat),
        ErrorKind::ParseInvalidUTF8 => "non-UTF8 input"@,
        ErrorKind::ParseOther => "failed to parse a VolumeId64"@,
    }
}

impl Error {
    /// The message of this error, for a reader.
    pub fn to_string(&self) -> (text: String)
        ensures
            text@ == message(self.0),
    {
        match &self.0 {
            ErrorKind::ParseChar { character, index } => {
                let mut text = String::from_str(
                    "invalid character: expected [0-9a-fA-F], found `",
                );
                push_char(&mut text, *character);
                text.append("` at ");
                push_decimal(&mut text, *index);
                text
            },
            ErrorKind::ParseSimpleLength { len } => {
                let mut text = String::from_str(
                    "invalid length: expected length for simple format, found ",
                );
                push_decimal(&mut text, *len);
                text
            },
            ErrorKind::ParseByteLength { len } => {
                let mut text = String::from_str("invalid byte length, found ");
                push_decimal(&mut text, *len);
                text
            },
            ErrorKind::ParseInvalidUTF8 => String::from_str("non-UTF8 input"),
            ErrorKind::ParseOther => String::from_str("failed to parse a VolumeId64"),
        }
    }
}

/// Text that is known not to be a 64-bit identifier, without the reason.
/// `into_err` finds the reason.
#[derive(Clone, Debug, PartialEq, Eq, Hash)]
pub struct InvalidVolumeId64<'a>(pub(crate) &'a [u8]);

impl<'a> View for InvalidVolumeId64<'a> {
    type V = Seq<u8>;

    /// The rejected bytes.
    closed spec fn view(&self) -> Seq<u8> {
        self.0@
    }
}

/// What is wrong with `text`, taken as the text of a 64-bit identifier that
/// the parser rejected.
pub open spec fn classify_text(text: Seq<char>) -> ErrorKind {
    let bad = first_rejected(text, false);
    if bad < text.len() {
        ErrorKind::ParseChar { character: text[bad as int], index: (bad + 1) as usize }
    } else {
        ErrorKind::ParseSimpleLength { len: text.len() as usize }
    }
}

/// What is wrong with `bytes`: that they are no text at all, or what is
/// wrong with the text that they encode.
pub open spec fn diagnose(bytes: Seq<u8>) -> ErrorKind {
    if valid_utf8(bytes) {
        classify_text(decode_utf8(bytes))
    } else {
        ErrorKind::ParseInvalidUTF8
    }
}

/// Finds what is wrong with rejected text.
pub fn classify(text: &str) -> (kind: ErrorKind)
    ensures
        kind == classify_text(text@),
{
    let size = text.as_bytes().len();
    let mut index: usize = 0;
    proof {
        lemma_encoding_len(text@);
    }
    for c in it: text.chars()
        invariant
            it.seq() == text@,
            text@.len() <= usize::MAX,
            index == it.index(),
            forall|j: int| 0 <= j < index ==> allowed(#[trigger] text@[j], false),
    {
        assert(c == text@[index as int]);
        let hex = ('0' <= c && c <= '9') || ('a' <= c && c <= 'f') || ('A' <= c && c <= 'F');
        if !hex {
            proof {
                lemma_first_rejected(text@, false, index as int);
            }
            return ErrorKind::ParseChar { character: c, index: index + 1 };
        }
        index += 1;
    }
    proof {
        lemma_first_rejected(text@, false, index as int);
        assert(vstd::utf8::is_ascii_chars(text@));
        vstd::utf8::is_ascii_chars_encode_utf8(text@);
    }
    ErrorKind::ParseSimpleLength { len: size }
}

impl<'a> InvalidVolumeId64<'a> {
    /// Marks `bytes` as rejected.
    pub(crate) fn new(bytes: &'a [u8]) -> (rejected: InvalidVolumeId64<'a>)
        ensures
            rejected@ == bytes@,
    {
        InvalidVolumeId64(bytes)
    }

    /// The reason for which the text was rejected.
    pub fn into_err(self) -> (e: Error)
        ensures
            e.0 == diagnose(self@),
    {
        match utf8_text(self.0) {
            None => Error(ErrorKind::ParseInvalidUTF8),
            Some(text) => {
                proof {
                    vstd::utf8::encode_utf8_decode_utf8(text@);
                }
                Error(classify(text))
            },
        }
    }
}

} // verus!
