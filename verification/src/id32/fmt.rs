//! 32-bit identifier to text, in the simple and in the hyphenated layout.

use crate::hex::{encode, encode_byte, HYPHEN};
use crate::id32::VolumeId32;
use crate::text::{ascii_chars, ascii_prefix};
use vstd::prelude::*;
use vstd::string::{StringExecFns, StringSliceAdditionalSpecFns};

verus! {

/// The simple layout of the four bytes `bytes`: eight digits.
pub open spec fn simple_text(bytes: Seq<u8>, upper: bool) -> Seq<u8> {
    encode(bytes, upper)
}

/// The hyphenated layout of the four bytes `bytes`: the digits of the first
/// two, a hyphen, the digits of the last two.
pub open spec fn hyphenated_text(bytes: Seq<u8>, upper: bool) -> Seq<u8> {
    encode(bytes.subrange(0, 2), upper) + seq![HYPHEN] + encode(bytes.subrange(2, 4), upper)
}

/// The hyphenated layout is the simple layout with a hyphen in the middle.
pub proof fn lemma_hyphenated_text(bytes: Seq<u8>, upper: bool)
    requires
        bytes.len() == 4,
    ensures
        hyphenated_text(bytes, upper) == simple_text(bytes, upper).subrange(0, 4) + seq![HYPHEN]
            + simple_text(bytes, upper).subrange(4, 8),
{
    let whole = encode(bytes, upper);
    let front = encode(bytes.subrange(0, 2), upper);
    let back = encode(bytes.subrange(2, 4), upper);
    assert forall|i: int| 0 <= i < 4 implies front[i] == whole[i] by {
        assert(bytes.subrange(0, 2)[i / 2] == bytes[i / 2]);
    }
    assert forall|i: int| 0 <= i < 4 implies back[i] == whole[i + 4] by {
        assert((i + 4) / 2 == i / 2 + 2);
        assert((i + 4) % 2 == i % 2);
        assert(bytes.subrange(2, 4)[i / 2] == bytes[i / 2 + 2]);
    }
    assert(front =~= whole.subrange(0, 4));
    assert(back =~= whole.subrange(4, 8));
}

/// A 32-bit identifier that writes itself in the simple layout, such as
/// `6ddcf6da`.
#[derive(Clone, Copy, Debug, PartialEq, Eq, PartialOrd, Ord, Hash)]
pub struct SimpleId32(pub(crate) VolumeId32);

/// A 32-bit identifier that writes itself in the hyphenated layout, such as
/// `6ddc-f6da`.
#[derive(Clone, Copy, Debug, PartialEq, Eq, PartialOrd, Ord, Hash)]
pub struct HyphenatedId32(pub(crate) VolumeId32);

impl View for SimpleId32 {
    type V = Seq<u8>;

    /// The bytes of the identifier.
    closed spec fn view(&self) -> Seq<u8> {
        self.0@
    }
}

impl View for HyphenatedId32 {
    type V = Seq<u8>;

    /// The bytes of the identifier.
    closed spec fn view(&self) -> Seq<u8> {
        self.0@
    }
}

impl VolumeId32 {
    /// This identifier, to be written in the simple layout.
    pub fn simple(self) -> (f: SimpleId32)
        ensures
            f@ == self@,
    {
        SimpleId32(self)
    }

    /// This identifier, to be written in the hyphenated layout.
    pub fn hyphenated(self) -> (f: HyphenatedId32)
        ensures
            f@ == self@,
    {
        HyphenatedId32(self)
    }

    /// The identifier in lower-case digits without a hyphen.
    pub fn to_string(&self) -> (text: String)
        ensures
            text@ == ascii_chars(simple_text(self@, false)),
    {
        self.simple().to_string()
    }
}

/// The simple layout of `src`, in upper or lower case.
pub fn format_simpleid32(src: &[u8; 4], upper: bool) -> (dst: [u8; 8])
    ensures
        dst@ == simple_text(src@, upper),
{
    let mut dst = [0u8;8];
    let mut i: usize = 0;
    while i < 4
        invariant
            i <= 4,
            forall|k: int| 0 <= k < 2 * i ==> #[trigger] dst@[k] == simple_text(src@, upper)[k],
        decreases 4 - i,
    {
        let pair = encode_byte(src[i], upper);
        dst[i * 2] = pair.0;
        dst[i * 2 + 1] = pair.1;
        i += 1;
    }
    assert(dst@ =~= simple_text(src@, upper));
    dst
}

/// The hyphenated layout of `src`, in upper or lower case.
pub fn format_hyphenatedid32(src: &[u8; 4], upper: bool) -> (dst: [u8; 9])
    ensures
        dst@ == hyphenated_text(src@, upper),
{
    let groups: [(usize, usize); 2] = [(0, 4), (5, 9)];
    let mut dst = [0u8;9];
    let mut group_idx: usize = 0;
    let mut i: usize = 0;
    let ghost goal = hyphenated_text(src@, upper);
    assert(goal.len() == 9);
    while group_idx < 2
        invariant
            group_idx <= 2,
            i == 2 * group_idx,
            groups[0] == (0usize, 4usize),
            groups[1] == (5usize, 9usize),
            goal == hyphenated_text(src@, upper),
            forall|k: int| 0 <= k < 5 * group_idx && k < 9 ==> #[trigger] dst@[k] == goal[k],
        decreases 2 - group_idx,
    {
        let (start, end) = groups[group_idx];
        let mut j = start;
        while j < end
            invariant
                group_idx < 2,
                start == 5 * group_idx,
                end == start + 4,
                start <= j <= end,
                (j - start) % 2 == 0,
                i == 2 * group_idx + (j - start) / 2,
                goal == hyphenated_text(src@, upper),
                forall|k: int| 0 <= k < j ==> #[trigger] dst@[k] == goal[k],
            decreases end - j,
        {
            let pair = encode_byte(src[i], upper);
            proof {
                let first = encode(src@.subrange(0, 2), upper);
                let second = encode(src@.subrange(2, 4), upper);
                if group_idx == 0 {
                    assert(goal[j as int] == first[j as int]);
                    assert(goal[j + 1] == first[j + 1]);
                } else {
                    assert(goal[j as int] == second[j - 5]);
                    assert(goal[j + 1] == second[j - 4]);
                }
            }
            i += 1;
            dst[j] = pair.0;
            dst[j + 1] = pair.1;
            j += 2;
        }
        if group_idx < 1 {
            dst[end] = HYPHEN;
        }
        group_idx += 1;
    }
    assert(dst@ =~= goal);
    dst
}

/// The digits and the hyphen are ASCII.
pub proof fn lemma_text_is_ascii(bytes: Seq<u8>, upper: bool)
    requires
        bytes.len() == 4,
    ensures
        simple_text(bytes, upper).len() == 8,
        hyphenated_text(bytes, upper).len() == 9,
        forall|k: int| 0 <= k < 8 ==> #[trigger] simple_text(bytes, upper)[k] < 0x80,
        forall|k: int| 0 <= k < 9 ==> #[trigger] hyphenated_text(bytes, upper)[k] < 0x80,
{
    crate::hex::lemma_decode_encode(bytes, upper);
    crate::hex::lemma_decode_encode(bytes.subrange(0, 2), upper);
    crate::hex::lemma_decode_encode(bytes.subrange(2, 4), upper);
    let first = encode(bytes.subrange(0, 2), upper);
    let second = encode(bytes.subrange(2, 4), upper);
    assert forall|k: int| 0 <= k < 9 implies #[trigger] hyphenated_text(bytes, upper)[k]
        < 0x80 by {
        if k < 4 {
            assert(crate::hex::is_hex_digit(first[k]));
        } else if k > 4 {
            assert(crate::hex::is_hex_digit(second[k - 5]));
        }
    }
    assert forall|k: int| 0 <= k < 8 implies #[trigger] simple_text(bytes, upper)[k] < 0x80 by {
        assert(crate::hex::is_hex_digit(encode(bytes, upper)[k]));
    }
}

impl SimpleId32 {
    /// How many characters the simple layout has.
    pub const LENGTH: usize = 8;

    /// `volumeid32`, to be written in the simple layout.
    pub fn from_volumeid32(volumeid32: VolumeId32) -> (f: SimpleId32)
        ensures
            f@ == volumeid32@,
    {
        SimpleId32(volumeid32)
    }

    /// Writes the identifier in lower case to the front of `buffer` and gives
    /// that part of the buffer as text. The rest of the buffer stays as it
    /// was.
    pub fn encode_lower<'buf>(&self, buffer: &'buf mut [u8]) -> (text: &'buf mut str)
        requires
            old(buffer)@.len() >= SimpleId32::LENGTH,
        ensures
            text@ == ascii_chars(simple_text(self@, false)),
            final(buffer)@ == final(text).spec_bytes() + old(buffer)@.skip(8),
    {
        SimpleId32::_encode(self.0.as_bytes(), buffer, false)
    }

    /// Writes the identifier in upper case to the front of `buffer` and gives
    /// that part of the buffer as text. The rest of the buffer stays as it
    /// was.
    pub fn encode_upper<'buf>(&self, buffer: &'buf mut [u8]) -> (text: &'buf mut str)
        requires
            old(buffer)@.len() >= SimpleId32::LENGTH,
        ensures
            text@ == ascii_chars(simple_text(self@, true)),
            final(buffer)@ == final(text).spec_bytes() + old(buffer)@.skip(8),
    {
        SimpleId32::_encode(self.0.as_bytes(), buffer, true)
    }

    /// Writes the layout of `src` to the front of `buffer` and gives that part
    /// of the buffer as text.
    fn _encode<'b>(src: &[u8; 4], buffer: &'b mut [u8], upper: bool) -> (text: &'b mut str)
        requires
            old(buffer)@.len() >= SimpleId32::LENGTH,
        ensures
            text@ == ascii_chars(simple_text(src@, upper)),
            final(buffer)@ == final(text).spec_bytes() + old(buffer)@.skip(8),
    {
        let digits = format_simpleid32(src, upper);
        let mut i: usize = 0;
        while i < 8
            invariant
                i <= 8,
                buffer@.len() == old(buffer)@.len(),
                buffer@.len() >= 8,
                forall|k: int| 0 <= k < i ==> #[trigger] buffer@[k] == digits@[k],
                forall|k: int| i <= k < buffer@.len() ==> #[trigger] buffer@[k] == old(buffer)@[k],
            decreases 8 - i,
        {
            buffer[i] = digits[i];
            i += 1;
        }
        proof {
            lemma_text_is_ascii(src@, upper);
            assert(buffer@.take(8) =~= digits@);
            assert(buffer@.skip(8) =~= old(buffer)@.skip(8));
        }
        ascii_prefix(buffer, 8)
    }

    /// The identifier in lower-case digits.
    pub fn to_string(&self) -> (text: String)
        ensures
            text@ == ascii_chars(simple_text(self@, false)),
    {
        let mut buffer = [0u8;8];
        let text = self.encode_lower(&mut buffer);
        String::from_str(text)
    }

    /// The identifier, borrowed.
    pub fn as_volumeid32(&self) -> (id: &VolumeId32)
        ensures
            id@ == self@,
    {
        &self.0
    }

    /// The identifier.
    pub fn into_volumeid32(self) -> (id: VolumeId32)
        ensures
            id@ == self@,
    {
        self.0
    }
}

impl HyphenatedId32 {
    /// How many characters the hyphenated layout has.
    pub const LENGTH: usize = 9;

    /// `volumeid32`, to be written in the hyphenated layout.
    pub fn from_volumeid32(volumeid32: VolumeId32) -> (f: HyphenatedId32)
        ensures
            f@ == volumeid32@,
    {
        HyphenatedId32(volumeid32)
    }

    /// Writes the identifier in lower case to the front of `buffer` and gives
    /// that part of the buffer as text. The rest of the buffer stays as it
    /// was.
    pub fn encode_lower<'buf>(&self, buffer: &'buf mut [u8]) -> (text: &'buf mut str)
        requires
            old(buffer)@.len() >= HyphenatedId32::LENGTH,
        ensures
            text@ == ascii_chars(hyphenated_text(self@, false)),
            final(buffer)@ == final(text).spec_bytes() + old(buffer)@.skip(9),
    {
        HyphenatedId32::_encode(self.0.as_bytes(), buffer, false)
    }

    /// Writes the identifier in upper case to the front of `buffer` and gives
    /// that part of the buffer as text. The rest of the buffer stays as it
    /// was.
    pub fn encode_upper<'buf>(&self, buffer: &'buf mut [u8]) -> (text: &'buf mut str)
        requires
            old(buffer)@.len() >= HyphenatedId32::LENGTH,
        ensures
            text@ == ascii_chars(hyphenated_text(self@, true)),
            final(buffer)@ == final(text).spec_bytes() + old(buffer)@.skip(9),
    {
        HyphenatedId32::_encode(self.0.as_bytes(), buffer, true)
    }

    /// Writes the layout of `src` to the front of `buffer` and gives that part
    /// of the buffer as text.
    fn _encode<'b>(src: &[u8; 4], buffer: &'b mut [u8], upper: bool) -> (text: &'b mut str)
        requires
            old(buffer)@.len() >= HyphenatedId32::LENGTH,
        ensures
            text@ == ascii_chars(hyphenated_text(src@, upper)),
            final(buffer)@ == final(text).spec_bytes() + old(buffer)@.skip(9),
    {
        let digits = format_hyphenatedid32(src, upper);
        let mut i: usize = 0;
        while i < 9
            invariant
                i <= 9,
                buffer@.len() == old(buffer)@.len(),
                buffer@.len() >= 9,
                forall|k: int| 0 <= k < i ==> #[trigger] buffer@[k] == digits@[k],
                forall|k: int| i <= k < buffer@.len() ==> #[trigger] buffer@[k] == old(buffer)@[k],
            decreases 9 - i,
        {
            buffer[i] = digits[i];
            i += 1;
        }
        proof {
            lemma_text_is_ascii(src@, upper);
            assert(buffer@.take(9) =~= digits@);
            assert(buffer@.skip(9) =~= old(buffer)@.skip(9));
        }
        ascii_prefix(buffer, 9)
    }

    /// The identifier in lower-case digits with the hyphen.
    pub fn to_string(&self) -> (text: String)
        ensures
            text@ == ascii_chars(hyphenated_text(self@, false)),
    {
        let mut buffer = [0u8;9];
        let text = self.encode_lower(&mut buffer);
        String::from_str(text)
    }

    /// The identifier, borrowed.
    pub fn as_volumeid32(&self) -> (id: &VolumeId32)
        ensures
            id@ == self@,
    {
        &self.0
    }

    /// The identifier.
    pub fn into_volumeid32(self) -> (id: VolumeId32)
        ensures
            id@ == self@,
    {
        self.0
    }
}

} // verus!
