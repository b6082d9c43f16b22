use std::cmp::Ordering;

use fat_volume_id::id32::fmt::{format_hyphenatedid32, format_simpleid32};
use fat_volume_id::id32::fmt::{HyphenatedId32, SimpleId32};
use fat_volume_id::id32::VolumeId32;
use fat_volume_id::id64::fmt::{format_simpleid64, SimpleId64};
use fat_volume_id::id64::VolumeId64;

#[test]
fn nil_and_max() {
    assert!(VolumeId32::nil().is_nil());
    assert!(VolumeId32::max().is_max());
    assert!(!VolumeId32::nil().is_max());
    assert!(!VolumeId32::max().is_nil());
    assert_eq!(VolumeId32::nil().into_bytes(), [0; 4]);
    assert_eq!(VolumeId32::max().into_bytes(), [0xff; 4]);
    assert!(!VolumeId32::from_bytes([0, 0, 0, 1]).is_nil());
    assert!(!VolumeId32::from_bytes([1, 0, 0, 0]).is_nil());
    assert!(!VolumeId32::from_bytes([0xff, 0xff, 0xfe, 0xff]).is_max());
    assert!(VolumeId64::nil().is_nil());
    assert!(VolumeId64::max().is_max());
    assert_eq!(VolumeId64::nil().into_bytes(), [0; 8]);
    assert_eq!(VolumeId64::max().into_bytes(), [0xff; 8]);
    assert!(!VolumeId64::from_bytes([0, 0, 0, 0, 0, 0, 0, 1]).is_nil());
    assert!(!VolumeId64::from_bytes([0xff, 0xff, 0xff, 0xff, 0x7f, 0xff, 0xff, 0xff]).is_max());
}

#[test]
fn bytes_are_kept_as_given() {
    let bytes = [0xa1, 0xa2, 0xa3, 0xa4];
    let id = VolumeId32::from_bytes(bytes);
    assert_eq!(id.as_bytes(), &bytes);
    assert_eq!(id.into_bytes(), bytes);
    assert_eq!(id.to_bytes_be(), [0xa4, 0xa3, 0xa2, 0xa1]);
    let id = VolumeId32::from_bytes_be(bytes);
    assert_eq!(id.into_bytes(), [0xa4, 0xa3, 0xa2, 0xa1]);
    assert_eq!(id.to_bytes_be(), bytes);

    let bytes = [1, 2, 3, 4, 5, 6, 7, 8];
    let id = VolumeId64::from_bytes(bytes);
    assert_eq!(id.as_bytes(), &bytes);
    assert_eq!(id.into_bytes(), bytes);
    assert_eq!(id.to_bytes_be(), [8, 7, 6, 5, 4, 3, 2, 1]);
    let id = VolumeId64::from_bytes_be(bytes);
    assert_eq!(id.into_bytes(), [8, 7, 6, 5, 4, 3, 2, 1]);
    assert_eq!(id.to_bytes_be(), bytes);
}

#[test]
fn integers_of_32_bits() {
    let id = VolumeId32::from_u32(0xa1a2a3a4);
    assert_eq!(id.into_bytes(), [0xa4, 0xa3, 0xa2, 0xa1]);
    assert_eq!(id.as_u32(), 0xa1a2a3a4);
    assert_eq!(id.as_u32_be(), 0xa4a3a2a1);
    let id = VolumeId32::from_u32_be(0xa1a2a3a4);
    assert_eq!(id.into_bytes(), [0xa1, 0xa2, 0xa3, 0xa4]);
    assert_eq!(id.as_u32_be(), 0xa1a2a3a4);
    assert_eq!(id.as_u32(), 0xa4a3a2a1);
    assert_eq!(VolumeId32::parse("a1a2a3a4").unwrap().as_u32(), 0xa4a3a2a1);
    assert_eq!(VolumeId32::parse("a1a2a3a4").unwrap().as_u32_be(), 0xa1a2a3a4);
    for v in [0u32, 1, 255, 256, 65535, 65536, 0x7fff_ffff, 0x8000_0000, u32::MAX] {
        assert_eq!(VolumeId32::from_u32(v).as_u32(), v);
        assert_eq!(VolumeId32::from_u32_be(v).as_u32_be(), v);
        assert_eq!(VolumeId32::from_u32(v).as_u32_be(), v.swap_bytes());
        assert_eq!(VolumeId32::from_u32(v).into_bytes(), v.to_le_bytes());
        assert_eq!(VolumeId32::from_u32_be(v).into_bytes(), v.to_be_bytes());
    }
    assert_eq!(
        VolumeId32::from_u16_pair(0xa1a2, 0xa3a4).into_bytes(),
        [0xa4, 0xa3, 0xa2, 0xa1]
    );
    assert_eq!(
        VolumeId32::from_u16_pair_be(0xa1a2, 0xa3a4).into_bytes(),
        [0xa1, 0xa2, 0xa3, 0xa4]
    );
    assert_eq!(VolumeId32::from_u16_pair(u16::MAX, u16::MAX), VolumeId32::max());
    assert_eq!(VolumeId32::from_u16_pair(0, 0), VolumeId32::nil());
}

#[test]
fn integers_of_64_bits() {
    let v = 0xa1a2a3a4b1b2b3b4u64;
    let id = VolumeId64::from_u64(v);
    assert_eq!(id.into_bytes(), [0xb4, 0xb3, 0xb2, 0xb1, 0xa4, 0xa3, 0xa2, 0xa1]);
    assert_eq!(id.as_u64(), v);
    assert_eq!(id.as_u64_be(), v.swap_bytes());
    let id = VolumeId64::from_u64_be(v);
    assert_eq!(id.into_bytes(), [0xa1, 0xa2, 0xa3, 0xa4, 0xb1, 0xb2, 0xb3, 0xb4]);
    assert_eq!(id.as_u64_be(), v);
    for v in [0u64, 1, 255, 256, 0xffff_ffff, 0x1_0000_0000, 0x8000_0000_0000_0000, u64::MAX] {
        assert_eq!(VolumeId64::from_u64(v).as_u64(), v);
        assert_eq!(VolumeId64::from_u64_be(v).as_u64_be(), v);
        assert_eq!(VolumeId64::from_u64(v).into_bytes(), v.to_le_bytes());
        assert_eq!(VolumeId64::from_u64_be(v).into_bytes(), v.to_be_bytes());
    }
    assert_eq!(
        VolumeId64::from_u32_pair(0xa1a2a3a4, 0xb1b2b3b4).into_bytes(),
        [0xb4, 0xb3, 0xb2, 0xb1, 0xa4, 0xa3, 0xa2, 0xa1]
    );
    assert_eq!(
        VolumeId64::from_u32_pair_be(0xa1a2a3a4, 0xb1b2b3b4).into_bytes(),
        [0xa1, 0xa2, 0xa3, 0xa4, 0xb1, 0xb2, 0xb3, 0xb4]
    );
    assert_eq!(VolumeId64::from_u32_pair(u32::MAX, u32::MAX), VolumeId64::max());
}

#[test]
fn formats_of_32_bits() {
    let bytes = [0x6d, 0xdc, 0xf6, 0xda];
    assert_eq!(&format_simpleid32(&bytes, false), b"6ddcf6da");
    assert_eq!(&format_simpleid32(&bytes, true), b"6DDCF6DA");
    assert_eq!(&format_hyphenatedid32(&bytes, false), b"6ddc-f6da");
    assert_eq!(&format_hyphenatedid32(&bytes, true), b"6DDC-F6DA");
    assert_eq!(&format_simpleid32(&[0x01, 0x23, 0x9a, 0xbf], false), b"01239abf");
    assert_eq!(SimpleId32::LENGTH, 8);
    assert_eq!(HyphenatedId32::LENGTH, 9);

    let id = VolumeId32::from_bytes(bytes);
    let mut buffer = [b'.'; 12];
    assert_eq!(id.simple().encode_lower(&mut buffer), "6ddcf6da");
    assert_eq!(&buffer, b"6ddcf6da....");
    assert_eq!(id.simple().encode_upper(&mut buffer), "6DDCF6DA");
    assert_eq!(&buffer, b"6DDCF6DA....");
    assert_eq!(id.hyphenated().encode_lower(&mut buffer), "6ddc-f6da");
    assert_eq!(&buffer, b"6ddc-f6da...");
    assert_eq!(id.hyphenated().encode_upper(&mut buffer), "6DDC-F6DA");
    assert_eq!(&buffer, b"6DDC-F6DA...");
    let mut exact = [0u8; 8];
    assert_eq!(SimpleId32::from_volumeid32(id).encode_lower(&mut exact), "6ddcf6da");
    let mut exact = [0u8; 9];
    assert_eq!(HyphenatedId32::from_volumeid32(id).encode_lower(&mut exact), "6ddc-f6da");

    assert_eq!(id.to_string(), "6ddcf6da");
    assert_eq!(id.simple().to_string(), "6ddcf6da");
    assert_eq!(id.hyphenated().to_string(), "6ddc-f6da");
    assert_eq!(VolumeId32::nil().to_string(), "00000000");
    assert_eq!(VolumeId32::max().to_string(), "ffffffff");
    assert_eq!(VolumeId32::from_u32(0xa1a2a3a4).hyphenated().to_string(), "a4a3-a2a1");
    assert_eq!(VolumeId32::from_u32_be(0xa1a2a3a4).hyphenated().to_string(), "a1a2-a3a4");
}

#[test]
fn the_text_that_encode_gives_borrows_the_buffer() {
    let id = VolumeId32::from_bytes([0x6d, 0xdc, 0xf6, 0xda]);
    let mut buffer = [0u8; 9];
    let text = id.simple().encode_lower(&mut buffer);
    text.make_ascii_uppercase();
    assert_eq!(&buffer, b"6DDCF6DA\0");
}

#[test]
fn formats_of_64_bits() {
    let bytes = [0x6d, 0xdc, 0xf6, 0xda, 0x01, 0x23, 0xab, 0xef];
    assert_eq!(&format_simpleid64(&bytes, false), b"6ddcf6da0123abef");
    assert_eq!(&format_simpleid64(&bytes, true), b"6DDCF6DA0123ABEF");
    assert_eq!(SimpleId64::LENGTH, 16);
    let id = VolumeId64::from_bytes(bytes);
    let mut buffer = [b'.'; 18];
    assert_eq!(id.simple().encode_lower(&mut buffer), "6ddcf6da0123abef");
    assert_eq!(&buffer, b"6ddcf6da0123abef..");
    assert_eq!(SimpleId64::from_volumeid64(id).encode_upper(&mut buffer), "6DDCF6DA0123ABEF");
    assert_eq!(&buffer, b"6DDCF6DA0123ABEF..");
    assert_eq!(id.to_string(), "6ddcf6da0123abef");
    assert_eq!(id.simple().to_string(), "6ddcf6da0123abef");
    assert_eq!(VolumeId64::nil().to_string(), "0000000000000000");
    assert_eq!(VolumeId64::max().to_string(), "ffffffffffffffff");
}

#[test]
fn formatters_give_their_identifier_back() {
    let id = VolumeId32::from_bytes([1, 2, 3, 4]);
    assert_eq!(*id.simple().as_volumeid32(), id);
    assert_eq!(id.simple().into_volumeid32(), id);
    assert_eq!(*id.hyphenated().as_volumeid32(), id);
    assert_eq!(id.hyphenated().into_volumeid32(), id);
    assert_eq!(*VolumeId32::nil().simple().as_volumeid32(), VolumeId32::nil());
    let id = VolumeId64::from_bytes([1, 2, 3, 4, 5, 6, 7, 8]);
    assert_eq!(*id.simple().as_volumeid64(), id);
    assert_eq!(id.simple().into_volumeid64(), id);
}

#[test]
fn what_is_written_parses_to_itself() {
    let samples: [[u8; 4]; 6] = [
        [0, 0, 0, 0],
        [0xff, 0xff, 0xff, 0xff],
        [0x6d, 0xdc, 0xf6, 0xda],
        [0x01, 0x23, 0x45, 0x67],
        [0x89, 0xab, 0xcd, 0xef],
        [0x0a, 0xa0, 0x9f, 0xf9],
    ];
    for bytes in samples {
        let id = VolumeId32::from_bytes(bytes);
        for upper in [false, true] {
            let simple = format_simpleid32(&bytes, upper);
            assert_eq!(VolumeId32::try_parse_ascii(&simple).unwrap(), id);
            let hyphenated = format_hyphenatedid32(&bytes, upper);
            assert_eq!(VolumeId32::try_parse_ascii(&hyphenated).unwrap(), id);
        }
        assert_eq!(VolumeId32::parse(&id.to_string()).unwrap(), id);
        assert_eq!(VolumeId32::parse(&id.hyphenated().to_string()).unwrap(), id);
    }
    let bytes = [0x89, 0xab, 0xcd, 0xef, 0x01, 0x23, 0x45, 0x67];
    let id = VolumeId64::from_bytes(bytes);
    for upper in [false, true] {
        let simple = format_simpleid64(&bytes, upper);
        assert_eq!(VolumeId64::try_parse_ascii(&simple).unwrap(), id);
    }
    assert_eq!(VolumeId64::parse(&id.to_string()).unwrap(), id);
}

#[test]
fn what_is_parsed_is_written_in_the_case_asked_for() {
    let id = VolumeId32::parse("6dDc-F6da").unwrap();
    let mut buffer = [0u8; 9];
    assert_eq!(id.hyphenated().encode_lower(&mut buffer), "6ddc-f6da");
    assert_eq!(id.hyphenated().encode_upper(&mut buffer), "6DDC-F6DA");
    let id = VolumeId32::parse("aBcDeF12").unwrap();
    assert_eq!(id.simple().encode_lower(&mut buffer), "abcdef12");
    assert_eq!(id.simple().encode_upper(&mut buffer), "ABCDEF12");
    let id = VolumeId64::parse("aBcDeF1234567890").unwrap();
    let mut buffer = [0u8; 16];
    assert_eq!(id.simple().encode_lower(&mut buffer), "abcdef1234567890");
    assert_eq!(id.simple().encode_upper(&mut buffer), "ABCDEF1234567890");
}

#[test]
fn identifiers_compare_by_their_bytes() {
    let low = VolumeId32::from_bytes([0, 0, 0, 1]);
    let high = VolumeId32::from_bytes([1, 0, 0, 0]);
    assert!(low < high);
    assert!(low != high);
    assert_eq!(low, VolumeId32::from_bytes([0, 0, 0, 1]));
    let low = VolumeId64::from_bytes([0, 0, 0, 0, 0, 0, 0, 1]);
    let high = VolumeId64::from_bytes([0, 0, 0, 0, 0, 0, 1, 0]);
    assert!(low < high);
    assert_eq!(high, VolumeId64::from_bytes([0, 0, 0, 0, 0, 0, 1, 0]));
}

#[test]
fn text_parses_through_from_str() {
    let id: VolumeId32 = "6ddc-f6da".parse().unwrap();
    assert_eq!(id.into_bytes(), [0x6d, 0xdc, 0xf6, 0xda]);
    let failed: Result<VolumeId32, _> = "6ddc-f6d".parse();
    assert_eq!(
        failed,
        Err(fat_volume_id::id32::error::Error(fat_volume_id::id32::error::ErrorKind::ParseOther))
    );
    let id: VolumeId64 = "6ddcf6da6ddcf6da".parse().unwrap();
    assert_eq!(id.into_bytes(), [0x6d, 0xdc, 0xf6, 0xda, 0x6d, 0xdc, 0xf6, 0xda]);
    let failed: Result<VolumeId64, _> = "6ddc-f6da".parse();
    assert_eq!(
        failed,
        Err(fat_volume_id::id64::error::Error(fat_volume_id::id64::error::ErrorKind::ParseOther))
    );
}

#[test]
fn the_first_byte_weighs_most_in_the_order() {
    let a = VolumeId32::from_bytes([1, 0xff, 0xff, 0xff]);
    let b = VolumeId32::from_bytes([2, 0, 0, 0]);
    assert_eq!(a.partial_cmp(&b), Some(Ordering::Less));
    assert_eq!(b.partial_cmp(&a), Some(Ordering::Greater));
    assert_eq!(a.partial_cmp(&a), Some(Ordering::Equal));
    assert_eq!(a.cmp(&b), Ordering::Less);
    assert!(a.as_u32() > b.as_u32());
    let a = VolumeId64::from_bytes([0, 0, 0, 0, 0, 0, 0, 9]);
    let b = VolumeId64::from_bytes([0, 0, 0, 0, 0, 0, 1, 0]);
    assert_eq!(a.partial_cmp(&b), Some(Ordering::Less));
    assert_eq!(a.cmp(&b), Ordering::Less);
    assert_eq!(fat_volume_id::order::compare(&[1, 2, 3], &[1, 2, 3]), Ordering::Equal);
    assert_eq!(fat_volume_id::order::compare(&[1, 2, 4], &[1, 3, 0]), Ordering::Less);
    assert_eq!(fat_volume_id::order::compare(&[], &[]), Ordering::Equal);
}
