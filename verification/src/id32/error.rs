//! What can be wrong with the text or the bytes of a 32-bit identifier.

use crate::scan::{allowed, first_hyphen, first_rejected, hyphens_in};
use crate::scan::{lemma_first_hyphen, lemma_first_rejected};
use crate::scan::{lemma_hyphens_in, lemma_hyphens_in_take};
use crate::text::{decimal, lemma_encoding_len, push_char, push_decimal, utf8_text};
use vstd::prelude::*;
use vstd::std_specs::iter::IteratorSpec;
use vstd::string::{StringExecFns, StringSliceAdditionalSpecFns};
use vstd::utf8::{decode_utf8, valid_utf8};

verus! {

broadcast use vstd::string::group_string_axioms;

/// The ways in which an input fails to give a 32-bit identifier.
#[derive(Clone, Debug, PartialEq, Eq, Hash, Structural)]
pub enum ErrorKind {
    /// A character that is neither a hexadecimal digit nor a hyphen, and its
    /// position, counted from one.
    ParseChar { character: char, index: usize },
    /// Text without hyphens that has not eight characters.
    ParseSimpleLength { len: usize },
    /// A byte slice that has not four bytes.
    ParseByteLength { len: usize },
    /// Text with more than one hyphen, and so not two groups.
    ParseGroupCount { count: usize },
    /// Text with one hyphen of which a group has not four characters: the
    /// group, its length, and where it starts, counted from one.
    ParseGroupLength { group: usize, len: usize, index: usize },
    /// Bytes that are not UTF-8.
    ParseInvalidUTF8,
    /// Text that failed to parse, with no reason kept.
    ParseOther,
}

/// An error of a 32-bit identifier.
#[derive(Clone, Debug, PartialEq, Eq, Hash, Structural)]
pub struct Error(pub ErrorKind);

/// How many characters each group of the hyphenated layout has.
pub const GROUP_LENGTH: usize = 4;

/// The message that tells a reader what `kind` means.
pub open spec fn message(kind: ErrorKind) -> Seq<char> {
    match kind {
        ErrorKind::ParseChar { character, index } => {
            "invalid character: expected [0-9a-fA-F-], found `"@.push(character) + "` at "@
                + decimal(index as nat)
        },
        ErrorKind::ParseSimpleLength { len } => {
            "invalid length: expected length for simple format, found "@ + decimal(len as nat)
        },
        ErrorKind::ParseByteLength { len } => "invalid byte length, found "@ + decimal(len as nat),
        ErrorKind::ParseGroupCount { count } => {
            "invalid group count: expected 2, found "@ + decimal(count as nat)
        },
        ErrorKind::ParseGroupLength { group, len, index } => {
            "invalid group length in group "@ + decimal(group as nat) + ": expected "@ + decimal(
                GROUP_LENGTH as nat,
            ) + ", found "@ + decimal(len as nat)
        },
        ErrorKind::ParseInvalidUTF8 => "non-UTF8 input"@,
        ErrorKind::ParseOther => "failed to parse a VolumeId32"@,
    }
}

impl Error {
    /// The message of this error, for a reader.
    pub fn to_string(&self) -> (text: String)
        ensures
            text@ == message(self.0),
    {
        match &self.0 {
            ErrorKind::ParseChar { character, index } => {
                let mut text = String::from_str(
                    "invalid character: expected [0-9a-fA-F-], found `",
                );
                push_char(&mut text, *character);
                text.append("` at ");
                push_decimal(&mut text, *index);
                text
            },
            ErrorKind::ParseSimpleLength { len } => {
                let mut text = String::from_str(
                    "invalid length: expected length for simple format, found ",
                );
                push_decimal(&mut text, *len);
                text
            },
            ErrorKind::ParseByteLength { len } => {
                let mut text = String::from_str("invalid byte length, found ");
                push_decimal(&mut text, *len);
                text
            },
            ErrorKind::ParseGroupCount { count } => {
                let mut text = String::from_str("invalid group count: expected 2, found ");
                push_decimal(&mut text, *count);
                text
            },
            ErrorKind::ParseGroupLength { group, len, index } => {
                let mut text = String::from_str("invalid group length in group ");
                push_decimal(&mut text, *group);
                text.append(": expected ");
                push_decimal(&mut text, GROUP_LENGTH);
                text.append(", found ");
                push_decimal(&mut text, *len);
                text
            },
            ErrorKind::ParseInvalidUTF8 => String::from_str("non-UTF8 input"),
            ErrorKind::ParseOther => String::from_str("failed to parse a VolumeId32"),
        }
    }
}

/// Text that is known not to be a 32-bit identifier, without the reason.
/// `into_err` finds the reason.
#[derive(Clone, Debug, PartialEq, Eq, Hash)]
pub struct InvalidVolumeId32<'a>(pub(crate) &'a [u8]);

impl<'a> View for InvalidVolumeId32<'a> {
    type V = Seq<u8>;

    /// The rejected bytes.
    closed spec fn view(&self) -> Seq<u8> {
        self.0@
    }
}

/// One more than `hyphens`, as far as a `usize` counts.
pub open spec fn groups_of(hyphens: nat) -> usize {
    if hyphens < usize::MAX {
        (hyphens + 1) as usize
    } else {
        usize::MAX
    }
}

/// What is wrong with `text`, taken as the text of a 32-bit identifier that
/// the parser rejected.
pub open spec fn classify_text(text: Seq<char>) -> ErrorKind {
    let bad = first_rejected(text, true);
    let hyphens = hyphens_in(text);
    let hyphen = first_hyphen(text);
    if bad < text.len() {
        ErrorKind::ParseChar { character: text[bad as int], index: (bad + 1) as usize }
    } else if hyphens == 0 {
        ErrorKind::ParseSimpleLength { len: text.len() as usize }
    } else if hyphens != 1 {
        ErrorKind::ParseGroupCount { count: groups_of(hyphens) }
    } else if hyphen != 4 {
        ErrorKind::ParseGroupLength { group: 0, len: hyphen as usize, index: 1 }
    } else {
        ErrorKind::ParseGroupLength { group: 1, len: (text.len() - 5) as usize, index: 6 }
    }
}

/// What is wrong with `bytes`: that they are no text at all, or what is
/// wrong with the text that they encode.
pub open spec fn diagnose(bytes: Seq<u8>) -> ErrorKind {
    if valid_utf8(bytes) {
        classify_text(decode_utf8(bytes))
    } else {
        ErrorKind::ParseInvalidUTF8
    }
}

/// Finds what is wrong with rejected text.
pub fn classify(text: &str) -> (kind: ErrorKind)
    ensures
        kind == classify_text(text@),
{
    let mut hyphens: usize = 0;
    let mut hyphen: usize = 0;
    let mut index: usize = 0;
    let size = text.as_bytes().len();
    proof {
        lemma_encoding_len(text@);
    }
    for c in it: text.chars()
        invariant
            it.seq() == text@,
            text@.len() <= usize::MAX,
            index == it.index(),
            hyphens == hyphens_in(text@.take(index as int)),
            hyphens <= index,
            forall|j: int| 0 <= j < index ==> allowed(#[trigger] text@[j], true),
            hyphens == 0 ==> forall|j: int| 0 <= j < index ==> #[trigger] text@[j] != '-',
            hyphens > 0 ==> hyphen < index && text@[hyphen as int] == '-' && forall|j: int|
                0 <= j < hyphen ==> #[trigger] text@[j] != '-',
    {
        assert(c == text@[index as int]);
        let hex = ('0' <= c && c <= '9') || ('a' <= c && c <= 'f') || ('A' <= c && c <= 'F');
        if c == '-' {
            if hyphens < 1 {
                hyphen = index;
            }
            proof {
                lemma_hyphens_in_take(text@, index as int);
            }
            hyphens += 1;
        } else if !hex {
            proof {
                lemma_first_rejected(text@, true, index as int);
            }
            return ErrorKind::ParseChar { character: c, index: index + 1 };
        } else {
            proof {
                lemma_hyphens_in_take(text@, index as int);
            }
        }
        index += 1;
    }
    proof {
        assert(text@.take(index as int) =~= text@);
        lemma_first_rejected(text@, true, index as int);
        lemma_hyphens_in(text@);
        if hyphens > 0 {
            lemma_first_hyphen(text@, hyphen as int);
        }
        assert(vstd::utf8::is_ascii_chars(text@));
        vstd::utf8::is_ascii_chars_encode_utf8(text@);
    }
    if hyphens == 0 {
        ErrorKind::ParseSimpleLength { len: size }
    } else if hyphens != 1 {
        ErrorKind::ParseGroupCount { count: hyphens.saturating_add(1) }
    } else if hyphen != GROUP_LENGTH {
        ErrorKind::ParseGroupLength { group: 0, len: hyphen, index: 1 }
    } else {
        ErrorKind::ParseGroupLength {
            group: 1,
            len: size - (GROUP_LENGTH + 1),
            index: GROUP_LENGTH + 2,
        }
    }
}

impl<'a> InvalidVolumeId32<'a> {
    /// Marks `bytes` as rejected.
    pub(crate) fn new(bytes: &'a [u8]) -> (rejected: InvalidVolumeId32<'a>)
        ensures
            rejected@ == bytes@,
    {
        InvalidVolumeId32(bytes)
    }

    /// The reason for which the text was rejected.
    pub fn into_err(self) -> (e: Error)
        ensures
            e.0 == diagnose(self@),
    {
        match utf8_text(self.0) {
            None => Error(ErrorKind::ParseInvalidUTF8),
            Some(text) => {
                proof {
                    vstd::utf8::encode_utf8_decode_utf8(text@);
                }
                Error(classify(text))
            },
        }
    }
}

} // verus!
