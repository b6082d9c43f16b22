use fat_volume_id::id32::error::{Error, ErrorKind};
use fat_volume_id::id32::VolumeId32;

#[test]
fn test_parse_volumeid32_valid() {
    let simple = VolumeId32::try_parse("6ddcf6da").unwrap();
    let hyphenated = VolumeId32::try_parse("6ddc-f6da").unwrap();

    assert_eq!(hyphenated, simple);

    assert!(VolumeId32::try_parse("00000000").is_ok());
    assert!(VolumeId32::try_parse("0000-0000").is_ok());

    assert!(VolumeId32::try_parse("6ddcf6da").is_ok());
    assert!(VolumeId32::try_parse("6DDCF6DA").is_ok());

    assert!(VolumeId32::try_parse("6ddc-f6da").is_ok());
    assert!(VolumeId32::try_parse("6DDC-F6DA").is_ok());
}

#[test]
fn test_parse_volumeid32_invalid() {
    assert_eq!(
        VolumeId32::parse(""),
        Err(Error(ErrorKind::ParseSimpleLength { len: 0 }))
    );

    assert_eq!(
        VolumeId32::parse("!"),
        Err(Error(ErrorKind::ParseChar {
            character: '!',
            index: 1,
        }))
    );

    assert_eq!(
        VolumeId32::parse("F91-CEB24"),
        Err(Error(ErrorKind::ParseGroupLength {
            group: 0,
            len: 3,
            index: 1,
        }))
    );

    assert_eq!(
        VolumeId32::parse("F916-4fa"),
        Err(Error(ErrorKind::ParseGroupLength {
            group: 1,
            len: 3,
            index: 6,
        }))
    );

    assert_eq!(
        VolumeId32::parse("QABC-1234"),
        Err(Error(ErrorKind::ParseChar {
            character: 'Q',
            index: 1,
        }))
    );

    assert_eq!(
        VolumeId32::parse("F9-16-8C5E"),
        Err(Error(ErrorKind::ParseGroupCount { count: 3 }))
    );

    assert_eq!(
        VolumeId32::parse("F9168C5X"),
        Err(Error(ErrorKind::ParseChar {
            character: 'X',
            index: 8,
        }))
    );

    assert_eq!(
        VolumeId32::parse("{F9168C5"),
        Err(Error(ErrorKind::ParseChar {
            character: '{',
            index: 1,
        }))
    );

    assert_eq!(
        VolumeId32::parse("67e5"),
        Err(Error(ErrorKind::ParseSimpleLength { len: 4 }))
    );

    assert_eq!(
        VolumeId32::parse("123456ABC"),
        Err(Error(ErrorKind::ParseSimpleLength { len: 9 }))
    );

    assert_eq!(
        VolumeId32::parse("67e55abg"),
        Err(Error(ErrorKind::ParseChar {
            character: 'g',
            index: 8,
        }))
    );

    assert_eq!(
        VolumeId32::parse("67e5%2fb"),
        Err(Error(ErrorKind::ParseChar {
            character: '%',
            index: 5,
        }))
    );

    assert_eq!(
        VolumeId32::parse("231231212212423424324323477343246663"),
        Err(Error(ErrorKind::ParseSimpleLength { len: 36 }))
    );

    assert_eq!(
        VolumeId32::parse("67e5504410b1426f9247bb680e5fe0c"),
        Err(Error(ErrorKind::ParseSimpleLength { len: 31 }))
    );

    assert_eq!(
        VolumeId32::parse("67e550Xb"),
        Err(Error(ErrorKind::ParseChar {
            character: 'X',
            index: 7,
        }))
    );

    assert_eq!(
        VolumeId32::parse("F916BA-CE"),
        Err(Error(ErrorKind::ParseGroupLength {
            group: 0,
            len: 6,
            index: 1,
        }))
    );

    assert_eq!(
        VolumeId32::parse("\u{bcf3c}"),
        Err(Error(ErrorKind::ParseChar {
            character: '\u{bcf3c}',
            index: 1
        }))
    );
}

#[test]
fn parse_gives_bytes_in_written_order() {
    let id = VolumeId32::parse("6ddcf6da").unwrap();
    assert_eq!(id.into_bytes(), [0x6d, 0xdc, 0xf6, 0xda]);
    let id = VolumeId32::parse("6DDC-F6DA").unwrap();
    assert_eq!(id.into_bytes(), [0x6d, 0xdc, 0xf6, 0xda]);
    let id = VolumeId32::try_parse_ascii(b"aBcDeF09").unwrap();
    assert_eq!(id.into_bytes(), [0xab, 0xcd, 0xef, 0x09]);
}

#[test]
fn try_parse_rejects_without_a_reason() {
    assert!(VolumeId32::try_parse("").is_err());
    assert!(VolumeId32::try_parse("6ddcf6d").is_err());
    assert!(VolumeId32::try_parse("6ddcf6daa").is_err());
    assert!(VolumeId32::try_parse("6ddc_f6da").is_err());
    assert!(VolumeId32::try_parse("6ddcf-6da").is_err());
    assert!(VolumeId32::try_parse("6ddg-f6da").is_err());
    assert!(VolumeId32::try_parse("6ddc-f6dg").is_err());
    assert!(VolumeId32::try_parse("6ddcf6dg").is_err());
    assert!(VolumeId32::try_parse("/ddcf6da").is_err());
    assert!(VolumeId32::try_parse(":ddcf6da").is_err());
    assert!(VolumeId32::try_parse("@ddcf6da").is_err());
    assert!(VolumeId32::try_parse("Gddcf6da").is_err());
    assert!(VolumeId32::try_parse("`ddcf6da").is_err());
}

#[test]
fn rejected_text_tells_its_reason() {
    let rejected = VolumeId32::try_parse("F91-CEB24").unwrap_err();
    assert_eq!(
        rejected.into_err(),
        Error(ErrorKind::ParseGroupLength { group: 0, len: 3, index: 1 })
    );
    let rejected = VolumeId32::try_parse_ascii(b"6ddc-f6d").unwrap_err();
    assert_eq!(
        rejected.into_err(),
        Error(ErrorKind::ParseGroupLength { group: 1, len: 3, index: 6 })
    );
    let rejected = VolumeId32::try_parse_ascii(b"6ddc-f6daa").unwrap_err();
    assert_eq!(
        rejected.into_err(),
        Error(ErrorKind::ParseGroupLength { group: 1, len: 5, index: 6 })
    );
    let rejected = VolumeId32::try_parse_ascii(b"----").unwrap_err();
    assert_eq!(rejected.into_err(), Error(ErrorKind::ParseGroupCount { count: 5 }));
    let rejected = VolumeId32::try_parse_ascii(b"-").unwrap_err();
    assert_eq!(
        rejected.into_err(),
        Error(ErrorKind::ParseGroupLength { group: 0, len: 0, index: 1 })
    );
}

#[test]
fn bytes_that_are_no_text_are_told_apart() {
    let rejected = VolumeId32::try_parse_ascii(&[0x36, 0xff, 0x36, 0x36]).unwrap_err();
    assert_eq!(rejected.into_err(), Error(ErrorKind::ParseInvalidUTF8));
    let rejected = VolumeId32::try_parse_ascii(&[0xc3]).unwrap_err();
    assert_eq!(rejected.into_err(), Error(ErrorKind::ParseInvalidUTF8));
}

#[test]
fn a_character_of_several_bytes_is_named_whole() {
    assert_eq!(
        VolumeId32::parse("6d\u{e9}cf6da"),
        Err(Error(ErrorKind::ParseChar { character: '\u{e9}', index: 3 }))
    );
    assert_eq!(
        VolumeId32::parse("6d-\u{20ac}"),
        Err(Error(ErrorKind::ParseChar { character: '\u{20ac}', index: 4 }))
    );
}

#[test]
fn from_slice_checks_the_length() {
    assert_eq!(
        VolumeId32::from_slice(&[1, 2, 3]),
        Err(Error(ErrorKind::ParseByteLength { len: 3 }))
    );
    assert_eq!(
        VolumeId32::from_slice_be(&[1, 2, 3, 4, 5]),
        Err(Error(ErrorKind::ParseByteLength { len: 5 }))
    );
    assert_eq!(
        VolumeId32::from_slice(&[]),
        Err(Error(ErrorKind::ParseByteLength { len: 0 }))
    );
    assert_eq!(
        VolumeId32::from_slice(&[0xa1, 0xa2, 0xa3, 0xa4]).unwrap().into_bytes(),
        [0xa1, 0xa2, 0xa3, 0xa4]
    );
    assert_eq!(
        VolumeId32::from_slice_be(&[0xa1, 0xa2, 0xa3, 0xa4]).unwrap().into_bytes(),
        [0xa4, 0xa3, 0xa2, 0xa1]
    );
}

#[test]
fn messages_name_the_defect() {
    assert_eq!(
        Error(ErrorKind::ParseChar { character: '!', index: 1 }).to_string(),
        "invalid character: expected [0-9a-fA-F-], found `!` at 1"
    );
    assert_eq!(
        Error(ErrorKind::ParseChar { character: '\u{20ac}', index: 12345 }).to_string(),
        "invalid character: expected [0-9a-fA-F-], found `\u{20ac}` at 12345"
    );
    assert_eq!(
        Error(ErrorKind::ParseSimpleLength { len: 36 }).to_string(),
        "invalid length: expected length for simple format, found 36"
    );
    assert_eq!(
        Error(ErrorKind::ParseSimpleLength { len: 0 }).to_string(),
        "invalid length: expected length for simple format, found 0"
    );
    assert_eq!(
        Error(ErrorKind::ParseByteLength { len: 10 }).to_string(),
        "invalid byte length, found 10"
    );
    assert_eq!(
        Error(ErrorKind::ParseGroupCount { count: 3 }).to_string(),
        "invalid group count: expected 2, found 3"
    );
    assert_eq!(
        Error(ErrorKind::ParseGroupLength { group: 1, len: 3, index: 6 }).to_string(),
        "invalid group length in group 1: expected 4, found 3"
    );
    assert_eq!(Error(ErrorKind::ParseInvalidUTF8).to_string(), "non-UTF8 input");
    assert_eq!(Error(ErrorKind::ParseOther).to_string(), "failed to parse a VolumeId32");
    assert_eq!(
        Error(ErrorKind::ParseByteLength { len: usize::MAX }).to_string(),
        format!("invalid byte length, found {}", usize::MAX)
    );
}
