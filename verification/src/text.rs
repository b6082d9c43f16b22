//! Bytes as text and text as bytes, where the standard library does the
//! work.

use vstd::prelude::*;
use vstd::string::StringSliceAdditionalSpecFns;
use vstd::utf8::{encode_utf8, valid_utf8};

verus! {

/// `core::str::from_utf8`: the text that `bytes` encode, where they are
/// UTF-8, and nothing where they are not. The text borrows the bytes, so its
/// encoding is `bytes` itself.
#[verifier::external_body]
pub(crate) fn utf8_text<'a>(bytes: &'a [u8]) -> (text: Option<&'a str>)
    ensures
        text is Some <==> valid_utf8(bytes@),
        text matches Some(t) ==> t.spec_bytes() == bytes@,
{
    core::str::from_utf8(bytes).ok()
}

/// The characters that ASCII bytes stand for.
pub open spec fn ascii_chars(bytes: Seq<u8>) -> Seq<char>
    recommends
        forall|i: int| 0 <= i < bytes.len() ==> bytes[i] < 0x80,
{
    Seq::new(bytes.len(), |i: int| bytes[i] as char)
}

/// `core::str::from_utf8_mut` on the first `len` bytes of `buffer`, which are
/// ASCII and so UTF-8: the text is those bytes as characters. It borrows them
/// from the buffer: when the borrow ends, the buffer holds what the text then
/// encodes to, and behind it what it held before.
#[verifier::external_body]
pub(crate) fn ascii_prefix<'a>(buffer: &'a mut [u8], len: usize) -> (text: &'a mut str)
    requires
        len <= old(buffer)@.len(),
        forall|i: int| 0 <= i < len ==> old(buffer)@[i] < 0x80,
    ensures
        text@ == ascii_chars(old(buffer)@.take(len as int)),
        final(buffer)@ == final(text).spec_bytes() + old(buffer)@.skip(len as int),
{
    core::str::from_utf8_mut(&mut buffer[..len]).unwrap()
}

/// `String::push`: `c` is appended to `out`.
#[verifier::external_body]
pub(crate) fn push_char(out: &mut String, c: char)
    ensures
        final(out)@ == old(out)@.push(c),
{
    out.push(c)
}

/// The decimal digit of `d`.
pub open spec fn digit_char(d: nat) -> char
    recommends
        d < 10,
{
    (0x30 + d) as char
}

/// `n` in decimal digits, without leading zeros.
pub open spec fn decimal(n: nat) -> Seq<char>
    decreases n,
{
    if n < 10 {
        seq![digit_char(n)]
    } else {
        decimal(n / 10).push(digit_char(n % 10))
    }
}

/// Appends `n` in decimal digits to `out`.
pub fn push_decimal(out: &mut String, n: usize)
    ensures
        final(out)@ == old(out)@ + decimal(n as nat),
{
    let mut low: Vec<char> = Vec::new();
    let mut rest = n;
    while rest >= 10
        invariant
            decimal(n as nat) == decimal(rest as nat) + low@.reverse(),
        decreases rest,
    {
        let d = (rest % 10) as u8;
        let c = (0x30 + d) as char;
        proof {
            let before = low@;
            let after = low@.push(c);
            assert(c == digit_char((rest % 10) as nat));
            assert(after.reverse() =~= seq![c] + before.reverse());
            assert(decimal(rest as nat) == decimal((rest / 10) as nat).push(c));
            assert(decimal((rest / 10) as nat).push(c) + before.reverse() =~= decimal(
                (rest / 10) as nat,
            ) + (seq![c] + before.reverse()));
        }
        low.push(c);
        rest = rest / 10;
    }
    let first = (0x30 + (rest as u8)) as char;
    assert(decimal(rest as nat) =~= seq![first]);
    push_char(out, first);
    let mut left = low.len();
    while left > 0
        invariant
            left <= low.len(),
            out@ == old(out)@ + seq![first] + low@.reverse().take(low.len() - left),
        decreases left,
    {
        left -= 1;
        proof {
            let r = low@.reverse();
            let k = low.len() - left - 1;
            assert(r[k] == low@[left as int]);
            assert(r.take(k + 1) =~= r.take(k).push(r[k]));
            assert((old(out)@ + seq![first] + r.take(k)).push(r[k]) =~= old(out)@ + seq![first]
                + r.take(k + 1));
        }
        push_char(out, low[left]);
    }
    proof {
        assert(low@.reverse().take(low.len() as int) =~= low@.reverse());
        assert(old(out)@ + seq![first] + low@.reverse() =~= old(out)@ + (seq![first]
            + low@.reverse()));
    }
}

/// No text is longer than its encoding.
pub proof fn lemma_encoding_len(chars: Seq<char>)
    ensures
        chars.len() <= encode_utf8(chars).len(),
    decreases chars.len(),
{
    if chars.len() > 0 {
        lemma_encoding_len(chars.drop_first());
    }
}

} // verus!
