//! The 32-bit volume identifier of FAT12, FAT16, FAT32 and exFAT.
//!
//! An identifier is four bytes, kept in the order in which they were given.
//! Read as an integer, the first byte is the least significant one; the
//! `_be` functions take and give the opposite order.

use crate::endian::{be_bytes, be_value, le_bytes, le_value, limit};
use crate::endian::{lemma_le_bytes_len, lemma_le_value_of_bytes, lemma_reverse_twice};
use crate::id32::error::{Error, ErrorKind};
use crate::order::{bytewise, compare};
use core::cmp::Ordering;
use vstd::prelude::*;

pub mod error;
pub mod fmt;
pub mod parser;

verus! {

/// A 32-bit volume identifier.
#[derive(Clone, Copy, Debug, Eq, Ord, Hash)]
pub struct VolumeId32(pub(crate) [u8; 4]);

impl View for VolumeId32 {
    type V = Seq<u8>;

    /// The four bytes, in stored order.
    closed spec fn view(&self) -> Seq<u8> {
        self.0@
    }
}

impl PartialEq for VolumeId32 {
    fn eq(&self, other: &VolumeId32) -> (r: bool) {
        let r = self.0[0] == other.0[0] && self.0[1] == other.0[1] && self.0[2] == other.0[2]
            && self.0[3] == other.0[3];
        proof {
            if r {
                assert(self@ =~= other@);
            }
        }
        r
    }
}

impl vstd::std_specs::cmp::PartialEqSpecImpl for VolumeId32 {
    open spec fn obeys_eq_spec() -> bool {
        true
    }

    open spec fn eq_spec(&self, other: &VolumeId32) -> bool {
        self@ == other@
    }
}

impl PartialOrd for VolumeId32 {
    fn partial_cmp(&self, other: &VolumeId32) -> (r: Option<Ordering>) {
        Some(compare(self.0.as_slice(), other.0.as_slice()))
    }
}

impl vstd::std_specs::cmp::PartialOrdSpecImpl for VolumeId32 {
    open spec fn obeys_partial_cmp_spec() -> bool {
        true
    }

    open spec fn partial_cmp_spec(&self, other: &VolumeId32) -> Option<Ordering> {
        Some(bytewise(self@, other@))
    }
}

/// Four bytes of the same value.
pub open spec fn filled(byte: u8) -> Seq<u8> {
    Seq::new(4, |i: int| byte)
}

/// An integer written as four bytes reads as the same integer, in either
/// byte order.
pub proof fn lemma_u32_round_trip(v: u32)
    ensures
        le_bytes(v as nat, 4).len() == 4,
        le_value(le_bytes(v as nat, 4)) == v,
        be_value(be_bytes(v as nat, 4)) == v,
{
    assert(limit(4) == 0x1_0000_0000) by {
        reveal_with_fuel(limit, 5);
    }
    lemma_le_bytes_len(v as nat, 4);
    lemma_le_value_of_bytes(v as nat, 4);
    lemma_reverse_twice(le_bytes(v as nat, 4));
}

/// Bytes stored in reverse order and read in reverse order are the bytes.
pub proof fn lemma_be_round_trip(bytes: Seq<u8>)
    ensures
        bytes.reverse().reverse() == bytes,
{
    lemma_reverse_twice(bytes);
}

impl VolumeId32 {
    /// Every identifier has four bytes, and two identifiers with the same
    /// bytes are the same identifier.
    pub broadcast proof fn lemma_view(self, other: VolumeId32)
        ensures
            #![trigger self@, other@]
            self@.len() == 4,
            self@ == other@ <==> self == other,
    {
        if self@ == other@ {
            assert(forall|i: int| 0 <= i < 4 ==> self.0[i] == self.0@[i]);
            assert(forall|i: int| 0 <= i < 4 ==> other.0[i] == other.0@[i]);
            assert(self.0 =~= other.0);
        }
    }

    /// The identifier of four zero bytes.
    pub fn nil() -> (id: VolumeId32)
        ensures
            id@ == filled(0),
    {
        let id = VolumeId32([0u8;4]);
        assert(id@ =~= filled(0));
        id
    }

    /// The identifier of four `0xff` bytes.
    pub fn max() -> (id: VolumeId32)
        ensures
            id@ == filled(0xff),
    {
        let id = VolumeId32([0xffu8;4]);
        assert(id@ =~= filled(0xff));
        id
    }

    /// The identifier that holds `bytes` as they are.
    pub fn from_bytes(bytes: [u8; 4]) -> (id: VolumeId32)
        ensures
            id@ == bytes@,
    {
        VolumeId32(bytes)
    }

    /// The identifier that holds `b` in reverse order.
    pub fn from_bytes_be(b: [u8; 4]) -> (id: VolumeId32)
        ensures
            id@ == b@.reverse(),
    {
        let id = VolumeId32([b[3], b[2], b[1], b[0]]);
        assert(id@ =~= b@.reverse());
        id
    }

    /// The identifier that holds the four bytes of `b`; an error that tells
    /// the length of `b` where it is not four.
    pub fn from_slice(b: &[u8]) -> (r: Result<VolumeId32, Error>)
        ensures
            b@.len() == 4 ==> (r matches Ok(id) && id@ == b@),
            b@.len() != 4 ==> r == Err::<VolumeId32, Error>(
                Error(ErrorKind::ParseByteLength { len: b@.len() as usize }),
            ),
    {
        if b.len() != 4 {
            return Err(Error(ErrorKind::ParseByteLength { len: b.len() }));
        }
        let id = VolumeId32([b[0], b[1], b[2], b[3]]);
        assert(id@ =~= b@);
        Ok(id)
    }

    /// The identifier that holds the four bytes of `b` in reverse order; an
    /// error that tells the length of `b` where it is not four.
    pub fn from_slice_be(b: &[u8]) -> (r: Result<VolumeId32, Error>)
        ensures
            b@.len() == 4 ==> (r matches Ok(id) && id@ == b@.reverse()),
            b@.len() != 4 ==> r == Err::<VolumeId32, Error>(
                Error(ErrorKind::ParseByteLength { len: b@.len() as usize }),
            ),
    {
        if b.len() != 4 {
            return Err(Error(ErrorKind::ParseByteLength { len: b.len() }));
        }
        let id = VolumeId32([b[3], b[2], b[1], b[0]]);
        assert(id@ =~= b@.reverse());
        Ok(id)
    }

    /// The identifier whose bytes are `v`, least significant byte first.
    pub fn from_u32(v: u32) -> (id: VolumeId32)
        ensures
            id@ == le_bytes(v as nat, 4),
    {
        let id = VolumeId32(
            [
                (v % 256) as u8,
                ((v / 256) % 256) as u8,
                ((v / 65536) % 256) as u8,
                (v / 16777216) as u8,
            ],
        );
        proof {
            reveal_with_fuel(le_bytes, 5);
            assert(id@ =~= le_bytes(v as nat, 4));
        }
        id
    }

    /// The identifier whose bytes are `v`, most significant byte first.
    pub fn from_u32_be(v: u32) -> (id: VolumeId32)
        ensures
            id@ == be_bytes(v as nat, 4),
    {
        let id = VolumeId32(
            [
                (v / 16777216) as u8,
                ((v / 65536) % 256) as u8,
                ((v / 256) % 256) as u8,
                (v % 256) as u8,
            ],
        );
        proof {
            reveal_with_fuel(le_bytes, 5);
            assert(id@ =~= be_bytes(v as nat, 4));
        }
        id
    }

    /// The bytes read as an integer, least significant byte first.
    pub fn as_u32(&self) -> (v: u32)
        ensures
            v == le_value(self@),
    {
        let b = &self.0;
        proof {
            reveal_with_fuel(le_value, 5);
            assert(self@.drop_first().drop_first().drop_first().drop_first().len() == 0);
        }
        (b[0] as u32) + 256 * (b[1] as u32) + 65536 * (b[2] as u32) + 16777216 * (b[3] as u32)
    }

    /// The bytes read as an integer, most significant byte first.
    pub fn as_u32_be(self) -> (v: u32)
        ensures
            v == be_value(self@),
    {
        let b = &self.0;
        proof {
            reveal_with_fuel(le_value, 5);
            let r = self@.reverse();
            assert(r.drop_first().drop_first().drop_first().drop_first().len() == 0);
        }
        (b[3] as u32) + 256 * (b[2] as u32) + 65536 * (b[1] as u32) + 16777216 * (b[0] as u32)
    }

    /// The identifier of the integer whose upper half is `high_bits` and
    /// whose lower half is `low_bits`, least significant byte first.
    pub fn from_u16_pair(high_bits: u16, low_bits: u16) -> (id: VolumeId32)
        ensures
            id@ == le_bytes((high_bits * 65536 + low_bits) as nat, 4),
    {
        VolumeId32::from_u32((high_bits as u32) * 65536 + (low_bits as u32))
    }

    /// The identifier of the integer whose upper half is `high_bits` and
    /// whose lower half is `low_bits`, most significant byte first.
    pub fn from_u16_pair_be(high_bits: u16, low_bits: u16) -> (id: VolumeId32)
        ensures
            id@ == be_bytes((high_bits * 65536 + low_bits) as nat, 4),
    {
        VolumeId32::from_u32_be((high_bits as u32) * 65536 + (low_bits as u32))
    }

    /// The bytes, borrowed.
    pub fn as_bytes(&self) -> (b: &[u8; 4])
        ensures
            b@ == self@,
    {
        &self.0
    }

    /// The bytes.
    pub fn into_bytes(self) -> (b: [u8; 4])
        ensures
            b@ == self@,
    {
        self.0
    }

    /// The bytes in reverse order.
    pub fn to_bytes_be(self) -> (b: [u8; 4])
        ensures
            b@ == self@.reverse(),
    {
        let b = [self.0[3], self.0[2], self.0[1], self.0[0]];
        assert(b@ =~= self@.reverse());
        b
    }

    /// Whether every byte is zero.
    pub fn is_nil(&self) -> (r: bool)
        ensures
            r == (self@ == filled(0)),
    {
        let r = self.0[0] == 0 && self.0[1] == 0 && self.0[2] == 0 && self.0[3] == 0;
        proof {
            if r {
                assert(self@ =~= filled(0));
            } else {
                assert(filled(0)[0] == 0 && filled(0)[1] == 0 && filled(0)[2] == 0 && filled(0)[3]
                    == 0);
            }
        }
        r
    }

    /// Whether every byte is `0xff`.
    pub fn is_max(&self) -> (r: bool)
        ensures
            r == (self@ == filled(0xff)),
    {
        let r = self.0[0] == 0xff && self.0[1] == 0xff && self.0[2] == 0xff && self.0[3] == 0xff;
        proof {
            if r {
                assert(self@ =~= filled(0xff));
            } else {
                assert(filled(0xff)[0] == 0xff && filled(0xff)[1] == 0xff && filled(0xff)[2]
                    == 0xff && filled(0xff)[3] == 0xff);
            }
        }
        r
    }
}

} // verus!
