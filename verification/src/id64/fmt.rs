//! 64-bit identifier to text.

use crate::hex::{encode, encode_byte};
use crate::id64::VolumeId64;
use crate::text::{ascii_chars, ascii_prefix};
use vstd::prelude::*;
use vstd::string::{StringExecFns, StringSliceAdditionalSpecFns};

verus! {

/// The simple layout of the eight bytes `bytes`: sixteen digits.
pub open spec fn simple_text(bytes: Seq<u8>, upper: bool) -> Seq<u8> {
    encode(bytes, upper)
}

/// A 64-bit identifier that writes itself in the simple layout, such as
/// `6ddcf6da6ddcf6da`.
#[derive(Clone, Copy, Debug, PartialEq, Eq, PartialOrd, Ord, Hash)]
pub struct SimpleId64(pub(crate) VolumeId64);

impl View for SimpleId64 {
    type V = Seq<u8>;

    /// The bytes of the identifier.
    closed spec fn view(&self) -> Seq<u8> {
        self.0@
    }
}

impl VolumeId64 {
    /// This identifier, to be written in the simple layout.
    pub fn simple(self) -> (f: SimpleId64)
        ensures
            f@ == self@,
    {
        SimpleId64(self)
    }

    /// The identifier in lower-case digits.
    pub fn to_string(&self) -> (text: String)
        ensures
            text@ == ascii_chars(simple_text(self@, false)),
    {
        self.simple().to_string()
    }
}

/// The simple layout of `src`, in upper or lower case.
pub fn format_simpleid64(src: &[u8; 8], upper: bool) -> (dst: [u8; 16])
    ensures
        dst@ == simple_text(src@, upper),
{
    let mut dst = [0u8;16];
    let mut i: usize = 0;
    while i < SimpleId64::LENGTH / 2
        invariant
            i <= 8,
            forall|k: int| 0 <= k < 2 * i ==> #[trigger] dst@[k] == simple_text(src@, upper)[k],
        decreases 8 - i,
    {
        let pair = encode_byte(src[i], upper);
        dst[i * 2] = pair.0;
        dst[i * 2 + 1] = pair.1;
        i += 1;
    }
    assert(dst@ =~= simple_text(src@, upper));
    dst
}

/// The digits are ASCII.
pub proof fn lemma_text_is_ascii(bytes: Seq<u8>, upper: bool)
    requires
        bytes.len() == 8,
    ensures
        simple_text(bytes, upper).len() == 16,
        forall|k: int| 0 <= k < 16 ==> #[trigger] simple_text(bytes, upper)[k] < 0x80,
{
    crate::hex::lemma_decode_encode(bytes, upper);
    assert forall|k: int| 0 <= k < 16 implies #[trigger] simple_text(bytes, upper)[k] < 0x80 by {
        assert(crate::hex::is_hex_digit(encode(bytes, upper)[k]));
    }
}

impl SimpleId64 {
    /// How many characters the simple layout has.
    pub const LENGTH: usize = 16;

    /// `volumeid64`, to be written in the simple layout.
    pub fn from_volumeid64(volumeid64: VolumeId64) -> (f: SimpleId64)
        ensures
            f@ == volumeid64@,
    {
        SimpleId64(volumeid64)
    }

    /// Writes the identifier in lower case to the front of `buffer` and gives
    /// that part of the buffer as text. The rest of the buffer stays as it
    /// was.
    pub fn encode_lower<'buf>(&self, buffer: &'buf mut [u8]) -> (text: &'buf mut str)
        requires
            old(buffer)@.len() >= SimpleId64::LENGTH,
        ensures
            text@ == ascii_chars(simple_text(self@, false)),
            final(buffer)@ == final(text).spec_bytes() + old(buffer)@.skip(16),
    {
        SimpleId64::_encode(self.0.as_bytes(), buffer, false)
    }

    /// Writes the identifier in upper case to the front of `buffer` and gives
    /// that part of the buffer as text. The rest of the buffer stays as it
    /// was.
    pub fn encode_upper<'buf>(&self, buffer: &'buf mut [u8]) -> (text: &'buf mut str)
        requires
            old(buffer)@.len() >= SimpleId64::LENGTH,
        ensures
            text@ == ascii_chars(simple_text(self@, true)),
            final(buffer)@ == final(text).spec_bytes() + old(buffer)@.skip(16),
    {
        SimpleId64::_encode(self.0.as_bytes(), buffer, true)
    }

    /// Writes the layout of `src` to the front of `buffer` and gives that part
    /// of the buffer as text.
    fn _encode<'b>(src: &[u8; 8], buffer: &'b mut [u8], upper: bool) -> (text: &'b mut str)
        requires
            old(buffer)@.len() >= SimpleId64::LENGTH,
        ensures
            text@ == ascii_chars(simple_text(src@, upper)),
            final(buffer)@ == final(text).spec_bytes() + old(buffer)@.skip(16),
    {
        let digits = format_simpleid64(src, upper);
        let mut i: usize = 0;
        while i < 16
            invariant
                i <= 16,
                buffer@.len() == old(buffer)@.len(),
                buffer@.len() >= 16,
                forall|k: int| 0 <= k < i ==> #[trigger] buffer@[k] == digits@[k],
                forall|k: int| i <= k < buffer@.len() ==> #[trigger] buffer@[k] == old(buffer)@[k],
            decreases 16 - i,
        {
            buffer[i] = digits[i];
            i += 1;
        }
        proof {
            lemma_text_is_ascii(src@, upper);
            assert(buffer@.take(16) =~= digits@);
            assert(buffer@.skip(16) =~= old(buffer)@.skip(16));
        }
        ascii_prefix(buffer, 16)
    }

    /// The identifier in lower-case digits.
    pub fn to_string(&self) -> (text: String)
        ensures
            text@ == ascii_chars(simple_text(self@, false)),
    {
        let mut buffer = [0u8;16];
        let text = self.encode_lower(&mut buffer);
        String::from_str(text)
    }

    /// The identifier, borrowed.
    pub fn as_volumeid64(&self) -> (id: &VolumeId64)
        ensures
            id@ == self@,
    {
        &self.0
    }

    /// The identifier.
    pub fn into_volumeid64(self) -> (id: VolumeId64)
        ensures
            id@ == self@,
    {
        self.0
    }
}

} // verus!
