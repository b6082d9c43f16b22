//! The 64-bit volume identifier of NTFS.
//!
//! An identifier is eight bytes, kept in the order in which they were given.
//! Read as an integer, the first byte is the least significant one; the
//! `_be` functions take and give the opposite order.

use crate::endian::{be_bytes, be_value, le_bytes, le_value, limit};
use crate::endian::{lemma_le_bytes_len, lemma_le_value_of_bytes, lemma_reverse_twice};
use crate::id64::error::{Error, ErrorKind};
use crate::order::{bytewise, compare};
use core::cmp::Ordering;
use vstd::prelude::*;

pub mod error;
pub mod fmt;
pub mod parser;

verus! {

/// A 64-bit volume identifier.
#[derive(Clone, Copy, Debug, Eq, Ord, Hash)]
pub struct VolumeId64(pub(crate) [u8; 8]);

impl View for VolumeId64 {
    type V = Seq<u8>;

    /// The eight bytes, in stored order.
    closed spec fn view(&self) -> Seq<u8> {
        self.0@
    }
}

impl PartialEq for VolumeId64 {
    fn eq(&self, other: &VolumeId64) -> (r: bool) {
        let r = self.0[0] == other.0[0] && self.0[1] == other.0[1] && self.0[2] == other.0[2] && self.0[3] == other.0[3] && self.0[4] == other.0[4] && self.0[5] == other.0[5] && self.0[6] == other.0[6] && self.0[7] == other.0[7];
        proof {
            if r {
                assert(self@ =~= other@);
            }
        }
        r
    }
}

impl vstd::std_specs::cmp::PartialEqSpecImpl for VolumeId64 {
    open spec fn obeys_eq_spec() -> bool {
        true
    }

    open spec fn eq_spec(&self, other: &VolumeId64) -> bool {
        self@ == other@
    }
}

impl PartialOrd for VolumeId64 {
    fn partial_cmp(&self, other: &VolumeId64) -> (r: Option<Ordering>) {
        Some(compare(self.0.as_slice(), other.0.as_slice()))
    }
}

impl vstd::std_specs::cmp::PartialOrdSpecImpl for VolumeId64 {
    open spec fn obeys_partial_cmp_spec() -> bool {
        true
    }

    open spec fn partial_cmp_spec(&self, other: &VolumeId64) -> Option<Ordering> {
        Some(bytewise(self@, other@))
    }
}

/// Eight bytes of the same value.
pub open spec fn filled(byte: u8) -> Seq<u8> {
    Seq::new(8, |i: int| byte)
}

/// An integer written as eight bytes reads as the same integer, in either
/// byte order.
pub proof fn lemma_u64_round_trip(v: u64)
    ensures
        le_bytes(v as nat, 8).len() == 8,
        le_value(le_bytes(v as nat, 8)) == v,
        be_value(be_bytes(v as nat, 8)) == v,
{
    assert(limit(8) == 0x1_0000_0000_0000_0000) by {
        reveal_with_fuel(limit, 9);
    }
    lemma_le_bytes_len(v as nat, 8);
    lemma_le_value_of_bytes(v as nat, 8);
    lemma_reverse_twice(le_bytes(v as nat, 8));
}

/// Bytes stored in reverse order and read in reverse order are the bytes.
pub proof fn lemma_be_round_trip(bytes: Seq<u8>)
    ensures
        bytes.reverse().reverse() == bytes,
{
    lemma_reverse_twice(bytes);
}

impl VolumeId64 {
    /// Every identifier has eight bytes, and two identifiers with the same
    /// bytes are the same identifier.
    pub broadcast proof fn lemma_view(self, other: VolumeId64)
        ensures
            #![trigger self@, other@]
            self@.len() == 8,
            self@ == other@ <==> self == other,
    {
        if self@ == other@ {
            assert(forall|i: int| 0 <= i < 8 ==> self.0[i] == self.0@[i]);
            assert(forall|i: int| 0 <= i < 8 ==> other.0[i] == other.0@[i]);
            assert(self.0 =~= other.0);
        }
    }

    /// The identifier of eight zero bytes.
    pub fn nil() -> (id: VolumeId64)
        ensures
            id@ == filled(0),
    {
        let id = VolumeId64([0u8;8]);
        assert(id@ =~= filled(0));
        id
    }

    /// The identifier of eight `0xff` bytes.
    pub fn max() -> (id: VolumeId64)
        ensures
            id@ == filled(0xff),
    {
        let id = VolumeId64([0xffu8;8]);
        assert(id@ =~= filled(0xff));
        id
    }

    /// The identifier that holds `bytes` as they are.
    pub fn from_bytes(bytes: [u8; 8]) -> (id: VolumeId64)
        ensures
            id@ == bytes@,
    {
        VolumeId64(bytes)
    }

    /// The identifier that holds `b` in reverse order.
    pub fn from_bytes_be(b: [u8; 8]) -> (id: VolumeId64)
        ensures
            id@ == b@.reverse(),
    {
        let id = VolumeId64([b[7], b[6], b[5], b[4], b[3], b[2], b[1], b[0]]);
        assert(id@ =~= b@.reverse());
        id
    }

    /// The identifier that holds the eight bytes of `b`; an error that tells
    /// the length of `b` where it is not eight.
    pub fn from_slice(b: &[u8]) -> (r: Result<VolumeId64, Error>)
        ensures
            b@.len() == 8 ==> (r matches Ok(id) && id@ == b@),
            b@.len() != 8 ==> r == Err::<VolumeId64, Error>(
                Error(ErrorKind::ParseByteLength { len: b@.len() as usize }),
            ),
    {
        if b.len() != 8 {
            return Err(Error(ErrorKind::ParseByteLength { len: b.len() }));
        }
        let id = VolumeId64([b[0], b[1], b[2], b[3], b[4], b[5], b[6], b[7]]);
        assert(id@ =~= b@);
        Ok(id)
    }

    /// The identifier that holds the eight bytes of `b` in reverse order; an
    /// error that tells the length of `b` where it is not eight.
    pub fn from_slice_be(b: &[u8]) -> (r: Result<VolumeId64, Error>)
        ensures
            b@.len() == 8 ==> (r matches Ok(id) && id@ == b@.reverse()),
            b@.len() != 8 ==> r == Err::<VolumeId64, Error>(
                Error(ErrorKind::ParseByteLength { len: b@.len() as usize }),
            ),
    {
        if b.len() != 8 {
            return Err(Error(ErrorKind::ParseByteLength { len: b.len() }));
        }
        let id = VolumeId64([b[7], b[6], b[5], b[4], b[3], b[2], b[1], b[0]]);
        assert(id@ =~= b@.reverse());
        Ok(id)
    }

    /// The identifier whose bytes are `v`, least significant byte first.
    pub fn from_u64(v: u64) -> (id: VolumeId64)
        ensures
            id@ == le_bytes(v as nat, 8),
    {
        let id = VolumeId64(
            [
                (v % 256) as u8,
                ((v / 256) % 256) as u8,
                ((v / 65536) % 256) as u8,
                ((v / 16777216) % 256) as u8,
                ((v / 4294967296) % 256) as u8,
                ((v / 1099511627776) % 256) as u8,
                ((v / 281474976710656) % 256) as u8,
                (v / 72057594037927936) as u8,
            ],
        );
        proof {
            reveal_with_fuel(le_bytes, 9);
            assert(id@ =~= le_bytes(v as nat, 8));
        }
        id
    }

    /// The identifier whose bytes are `v`, most significant byte first.
    pub fn from_u64_be(v: u64) -> (id: VolumeId64)
        ensures
            id@ == be_bytes(v as nat, 8),
    {
        let id = VolumeId64(
            [
                (v / 72057594037927936) as u8,
                ((v / 281474976710656) % 256) as u8,
                ((v / 1099511627776) % 256) as u8,
                ((v / 4294967296) % 256) as u8,
                ((v / 16777216) % 256) as u8,
                ((v / 65536) % 256) as u8,
                ((v / 256) % 256) as u8,
                (v % 256) as u8,
            ],
        );
        proof {
            reveal_with_fuel(le_bytes, 9);
            assert(id@ =~= be_bytes(v as nat, 8));
        }
        id
    }

    /// The bytes read as an integer, least significant byte first.
    pub fn as_u64(&self) -> (v: u64)
        ensures
            v == le_value(self@),
    {
        let b = &self.0;
        proof {
            reveal_with_fuel(le_value, 9);
            assert(self@.drop_first().drop_first().drop_first().drop_first().drop_first().drop_first().drop_first().drop_first().len() == 0);
        }
        (b[0] as u64) + 256 * (b[1] as u64) + 65536 * (b[2] as u64) + 16777216 * (b[3] as u64) + 4294967296 * (b[4] as u64) + 1099511627776 * (b[5] as u64) + 281474976710656 * (b[6] as u64) + 72057594037927936 * (b[7] as u64)
    }

    /// The bytes read as an integer, most significant byte first.
    pub fn as_u64_be(self) -> (v: u64)
        ensures
            v == be_value(self@),
    {
        let b = &self.0;
        proof {
            reveal_with_fuel(le_value, 9);
            let r = self@.reverse();
            assert(r.drop_first().drop_first().drop_first().drop_first().drop_first().drop_first().drop_first().drop_first().len() == 0);
        }
        (b[7] as u64) + 256 * (b[6] as u64) + 65536 * (b[5] as u64) + 16777216 * (b[4] as u64) + 4294967296 * (b[3] as u64) + 1099511627776 * (b[2] as u64) + 281474976710656 * (b[1] as u64) + 72057594037927936 * (b[0] as u64)
    }

    /// The identifier of the integer whose upper half is `high_bits` and
    /// whose lower half is `low_bits`, least significant byte first.
    pub fn from_u32_pair(high_bits: u32, low_bits: u32) -> (id: VolumeId64)
        ensures
            id@ == le_bytes((high_bits * 0x1_0000_0000 + low_bits) as nat, 8),
    {
        VolumeId64::from_u64((high_bits as u64) * 0x1_0000_0000 + (low_bits as u64))
    }

    /// The identifier of the integer whose upper half is `high_bits` and
    /// whose lower half is `low_bits`, most significant byte first.
    pub fn from_u32_pair_be(high_bits: u32, low_bits: u32) -> (id: VolumeId64)
        ensures
            id@ == be_bytes((high_bits * 0x1_0000_0000 + low_bits) as nat, 8),
    {
        VolumeId64::from_u64_be((high_bits as u64) * 0x1_0000_0000 + (low_bits as u64))
    }

    /// The bytes, borrowed.
    pub fn as_bytes(&self) -> (b: &[u8; 8])
        ensures
            b@ == self@,
    {
        &self.0
    }

    /// The bytes.
    pub fn into_bytes(self) -> (b: [u8; 8])
        ensures
            b@ == self@,
    {
        self.0
    }

    /// The bytes in reverse order.
    pub fn to_bytes_be(self) -> (b: [u8; 8])
        ensures
            b@ == self@.reverse(),
    {
        let b = [self.0[7], self.0[6], self.0[5], self.0[4], self.0[3], self.0[2], self.0[1], self.0[0]];
        assert(b@ =~= self@.reverse());
        b
    }

    /// Whether every byte is zero.
    pub fn is_nil(&self) -> (r: bool)
        ensures
            r == (self@ == filled(0)),
    {
        let r = self.0[0] == 0 && self.0[1] == 0 && self.0[2] == 0 && self.0[3] == 0 && self.0[4] == 0 && self.0[5] == 0 && self.0[6] == 0 && self.0[7] == 0;
        proof {
            if r {
                assert(self@ =~= filled(0));
            } else {
                assert(filled(0)[0] == 0 && filled(0)[1] == 0 && filled(0)[2] == 0 && filled(0)[3] == 0 && filled(0)[4] == 0 && filled(0)[5] == 0 && filled(0)[6] == 0 && filled(0)[7] == 0);
            }
        }
        r
    }

    /// Whether every byte is `0xff`.
    pub fn is_max(&self) -> (r: bool)
        ensures
            r == (self@ == filled(0xff)),
    {
        let r = self.0[0] == 0xff && self.0[1] == 0xff && self.0[2] == 0xff && self.0[3] == 0xff && self.0[4] == 0xff && self.0[5] == 0xff && self.0[6] == 0xff && self.0[7] == 0xff;
        proof {
            if r {
                assert(self@ =~= filled(0xff));
            } else {
                assert(filled(0xff)[0] == 0xff && filled(0xff)[1] == 0xff && filled(0xff)[2] == 0xff && filled(0xff)[3] == 0xff && filled(0xff)[4] == 0xff && filled(0xff)[5] == 0xff && filled(0xff)[6] == 0xff && filled(0xff)[7] == 0xff);
            }
        }
        r
    }
}

} // verus!
