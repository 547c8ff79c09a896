use packed_bcd::bcd::{Convertible, DynBCD, BCD};
use packed_bcd::codec::{check_invalid_byte, check_invalid_bytes, decode, encode, max_for, pair_count, resize_bytes};
use packed_bcd::digits::{pack, unpack, validate};
use packed_bcd::padded;
use packed_bcd::{BCDConversionError, BCDErrorKind, FromBCD, ToBCD};

#[test]
fn it_works() {
    let result = 2 + 2;
    assert_eq!(result, 4);
}

#[test]
fn pack_and_unpack_digits() {
    assert_eq!(pack(4, 5), 0x45);
    assert_eq!(pack(9, 0), 0x90);
    assert_eq!(unpack(0x37), (3, 7));
    assert_eq!(unpack(0xAF), (10, 15));
    assert!(validate(0x99));
    assert!(!validate(0x9A));
    assert!(!validate(0xA9));
}

#[test]
fn encode_one_byte() {
    assert_eq!(encode(45, 1, "u8").unwrap(), vec![0x45]);
}

#[test]
fn encode_two_bytes() {
    assert_eq!(encode(1234, 2, "u16").unwrap(), vec![0x12, 0x34]);
}

#[test]
fn encode_pads_with_zero_bytes() {
    assert_eq!(encode(7, 3, "u32").unwrap(), vec![0x00, 0x00, 0x07]);
    assert_eq!(encode(0, 0, "u8").unwrap(), Vec::<u8>::new());
}

#[test]
fn encode_overflow_one_byte() {
    let e = encode(100, 1, "u8").unwrap_err();
    assert_eq!(e.kind(), BCDErrorKind::Overflow { input_value: 100, max_allowed: 99 });
    assert_eq!(e.description(), "Error on u8 to bcd, passed in value (100) exceeds maximum of 99");
}

#[test]
fn encode_overflow_boundary() {
    let mut limit: u128 = 1;
    for n in 1..=19usize {
        limit *= 100;
        assert!(encode(limit - 1, n, "u128").is_ok());
        let e = encode(limit, n, "u128").unwrap_err();
        assert_eq!(e.kind(), BCDErrorKind::Overflow { input_value: limit, max_allowed: limit - 1 });
    }
    assert!(encode(u128::MAX, 20, "u128").is_ok());
}

#[test]
fn largest_values() {
    assert_eq!(max_for(0), Some(0));
    assert_eq!(max_for(1), Some(99));
    assert_eq!(max_for(2), Some(9999));
    assert_eq!(max_for(19), Some(99_999_999_999_999_999_999_999_999_999_999_999_999));
    assert_eq!(max_for(20), None);
}

#[test]
fn decode_two_bytes() {
    assert_eq!(decode(&[0x12, 0x34], 16).unwrap(), 1234);
}

#[test]
fn decode_invalid_byte() {
    let e = decode(&[0xAF], 16).unwrap_err();
    assert_eq!(e.kind(), BCDErrorKind::InvalidFormat);
    assert!(decode(&[0x0A], 16).is_err());
    assert!(decode(&[0xF0], 16).is_err());
}

#[test]
fn decode_rejects_every_invalid_byte() {
    for b in 0..=255u8 {
        let high = b >> 4;
        let low = b & 0x0f;
        let valid = high <= 9 && low <= 9;
        assert_eq!(decode(&[b], 1).is_ok(), valid);
        assert_eq!(check_invalid_byte(b), !valid);
        if valid {
            assert_eq!(decode(&[b], 1).unwrap(), (high * 10 + low) as u128);
        }
    }
}

#[test]
fn decode_reads_only_trailing_bytes() {
    assert_eq!(decode(&[0x12, 0x34, 0x56], 2).unwrap(), 3456);
    assert!(decode(&[0xFF, 0x34, 0x56], 2).is_ok());
    assert!(decode(&[0x12, 0xF4, 0x56], 2).is_err());
    assert_eq!(decode(&[], 4).unwrap(), 0);
}

#[test]
fn round_trip_every_width() {
    let values: [u128; 6] = [0, 1, 9, 42, 99, 123_456_789];
    for n in 1..=16usize {
        for v in values {
            if let Ok(bytes) = encode(v, n, "u128") {
                assert_eq!(bytes.len(), n);
                assert_eq!(decode(&bytes, 16).unwrap(), v);
            }
        }
        let max = max_for(n).unwrap();
        let bytes = encode(max, n, "u128").unwrap();
        assert_eq!(decode(&bytes, 16).unwrap(), max);
    }
}

#[test]
fn invalid_bytes_found() {
    assert!(!check_invalid_bytes(&[0x00, 0x99, 0x45]));
    assert!(check_invalid_bytes(&[0x00, 0x9A, 0x45]));
    assert!(!check_invalid_bytes(&[]));
}

#[test]
fn resize_drops_most_significant_byte() {
    assert_eq!(resize_bytes(&[0x12, 0x34], 1), vec![0x34]);
}

#[test]
fn resize_pads_with_zero() {
    assert_eq!(resize_bytes(&[0x34], 2), vec![0x00, 0x34]);
}

#[test]
fn resize_round_trip() {
    let x = [0x12u8, 0x34];
    let wide = resize_bytes(&x, 5);
    assert_eq!(wide, vec![0, 0, 0, 0x12, 0x34]);
    assert_eq!(resize_bytes(&wide, 2), x.to_vec());
    let padded_x = [0x00u8, 0x34];
    assert_eq!(resize_bytes(&resize_bytes(&padded_x, 1), 2), padded_x.to_vec());
    assert_ne!(resize_bytes(&resize_bytes(&x, 1), 2), x.to_vec());
}

#[test]
fn fewest_bytes() {
    assert_eq!(pair_count(0), 1);
    assert_eq!(pair_count(99), 1);
    assert_eq!(pair_count(100), 2);
    assert_eq!(pair_count(12345), 3);
    assert_eq!(pair_count(u128::MAX), 20);
}

#[test]
fn fixed_from_integer() {
    let b = BCD::<2>::new(1234).unwrap();
    assert_eq!(Vec::<u8>::from(b), vec![0x12, 0x34]);
    assert_eq!(b.get_number(), 1234);
    let wide = BCD::<4>::new(1234).unwrap();
    assert_eq!(Vec::<u8>::from(wide), vec![0x00, 0x00, 0x12, 0x34]);
    let e = BCD::<1>::new(100).unwrap_err();
    assert_eq!(e.kind(), BCDErrorKind::Overflow { input_value: 100, max_allowed: 99 });
    assert_eq!(e.description(), "Error on u128 to bcd, passed in value (100) exceeds maximum of 99");
    let huge = BCD::<20>::new(u128::MAX).unwrap();
    assert_eq!(Vec::<u8>::from(huge)[0..3], [0x03, 0x40, 0x28]);
}

#[test]
fn fixed_from_typed_integers() {
    assert_eq!(Vec::<u8>::from(BCD::<1>::try_from(45u8).unwrap()), vec![0x45]);
    assert!(BCD::<1>::try_from(100u8).is_err());
    assert_eq!(Vec::<u8>::from(BCD::<2>::try_from(1234u16).unwrap()), vec![0x12, 0x34]);
    let e = BCD::<2>::try_from(10000u16).unwrap_err();
    assert_eq!(e.kind(), BCDErrorKind::Overflow { input_value: 10000, max_allowed: 9999 });
    assert_eq!(e.description(), "Error on u16 to bcd, passed in value (10000) exceeds maximum of 9999");
    assert_eq!(Vec::<u8>::from(BCD::<4>::try_from(12345678u32).unwrap()), vec![0x12, 0x34, 0x56, 0x78]);
    assert!(BCD::<4>::try_from(100_000_000u32).is_err());
    assert_eq!(
        Vec::<u8>::from(BCD::<8>::try_from(9_999_999_999_999_999u64).unwrap()),
        vec![0x99; 8]
    );
    assert!(BCD::<8>::try_from(10_000_000_000_000_000u64).is_err());
    assert_eq!(Vec::<u8>::from(BCD::<16>::try_from(5u128).unwrap())[15], 0x05);
    assert!(BCD::<16>::try_from(100_000_000_000_000_000_000_000_000_000_000u128).is_err());
}

#[test]
fn fixed_to_typed_integers() {
    assert_eq!(u8::from(BCD::<1>::try_from(45u8).unwrap()), 45);
    assert_eq!(u16::from(BCD::<2>::try_from(1234u16).unwrap()), 1234);
    assert_eq!(u32::from(BCD::<4>::try_from(12345678u32).unwrap()), 12345678);
    assert_eq!(u64::from(BCD::<8>::try_from(9_999_999_999_999_999u64).unwrap()), 9_999_999_999_999_999);
    let big: u128 = 99_999_999_999_999_999_999_999_999_999_999;
    assert_eq!(u128::from(BCD::<16>::try_from(big).unwrap()), big);
}

#[test]
fn fixed_from_bytes() {
    let b = BCD::<1>::try_from(&[0x12u8, 0x34][..]).unwrap();
    assert_eq!(Vec::<u8>::from(b), vec![0x34]);
    let b = BCD::<2>::try_from(&[0x34u8][..]).unwrap();
    assert_eq!(Vec::<u8>::from(b), vec![0x00, 0x34]);
    let e = BCD::<2>::try_from(&[0x12u8, 0xAF][..]).unwrap_err();
    assert_eq!(e.kind(), BCDErrorKind::InvalidFormat);
    assert_eq!(e.description(), "Invalid format, found A-F");
    assert!(BCD::<1>::try_from(&[0xAFu8, 0x34][..]).is_err());
    let b = BCD::<3>::try_from([0x01u8, 0x23]).unwrap();
    assert_eq!(Vec::<u8>::from(b), vec![0x00, 0x01, 0x23]);
    assert!(BCD::<3>::try_from([0x0Au8]).is_err());
}

#[test]
fn fixed_resize() {
    let b = BCD::<2>::new(1234).unwrap();
    let narrow: BCD<1> = b.convert();
    assert_eq!(Vec::<u8>::from(narrow), vec![0x34]);
    let wide: BCD<3> = narrow.convert();
    assert_eq!(Vec::<u8>::from(wide), vec![0x00, 0x00, 0x34]);
    let back: BCD<2> = b.convert::<>();
    assert!(back == b);
    let arr: [u8; 3] = b.into();
    assert_eq!(arr, [0x00, 0x12, 0x34]);
    let arr: [u8; 1] = b.into();
    assert_eq!(arr, [0x34]);
}

#[test]
fn fixed_equality() {
    let a = BCD::<2>::new(1234).unwrap();
    let b = BCD::<2>::try_from(&[0x12u8, 0x34][..]).unwrap();
    let c = BCD::<2>::new(1235).unwrap();
    assert!(a == b);
    assert!(a != c);
}

#[test]
fn fixed_number_reads_last_sixteen_bytes() {
    let mut bytes = vec![0x12u8, 0x34];
    bytes.extend(vec![0x00u8; 15]);
    bytes.push(0x07);
    let b = BCD::<18>::try_from(&bytes[..]).unwrap();
    assert_eq!(b.get_number(), 7);
}

#[test]
fn dynamic_minimal_length() {
    let zero = DynBCD::new(0).unwrap();
    assert_eq!(Vec::<u8>::from(zero), vec![0x00]);
    let d = DynBCD::new(12345).unwrap();
    assert_eq!(Vec::<u8>::from(d.clone()), vec![0x01, 0x23, 0x45]);
    assert_eq!(d.get_number(), 12345);
    assert_eq!(Vec::<u8>::from(DynBCD::new(99).unwrap()), vec![0x99]);
    assert_eq!(Vec::<u8>::from(DynBCD::new(100).unwrap()), vec![0x01, 0x00]);
}

#[test]
fn dynamic_overflow() {
    let limit: u128 = 100_000_000_000_000_000_000_000_000_000_000;
    let e = DynBCD::new(limit).unwrap_err();
    assert_eq!(e.kind(), BCDErrorKind::Overflow { input_value: limit, max_allowed: limit - 1 });
    assert_eq!(Vec::<u8>::from(DynBCD::new(limit - 1).unwrap()), vec![0x99; 16]);
    assert!(DynBCD::try_from(65535u16).is_err());
    assert!(DynBCD::try_from(100u8).is_err());
}

#[test]
fn dynamic_from_typed_integers() {
    assert_eq!(Vec::<u8>::from(DynBCD::try_from(7u8).unwrap()), vec![0x07]);
    assert_eq!(Vec::<u8>::from(DynBCD::try_from(0u16).unwrap()), vec![0x00]);
    assert_eq!(Vec::<u8>::from(DynBCD::try_from(9999u16).unwrap()), vec![0x99, 0x99]);
    assert_eq!(Vec::<u8>::from(DynBCD::try_from(12345u32).unwrap()), vec![0x01, 0x23, 0x45]);
    assert_eq!(Vec::<u8>::from(DynBCD::try_from(1_000_000u64).unwrap()), vec![0x01, 0x00, 0x00, 0x00]);
    assert_eq!(Vec::<u8>::from(DynBCD::try_from(100u128).unwrap()), vec![0x01, 0x00]);
}

#[test]
fn dynamic_to_typed_integers() {
    let d = DynBCD::try_from(&[0x12u8, 0x34, 0x56][..]).unwrap();
    assert_eq!(u8::from(d.clone()), 56);
    assert_eq!(u16::from(d.clone()), 3456);
    assert_eq!(u32::from(d.clone()), 123456);
    assert_eq!(u64::from(d.clone()), 123456);
    assert_eq!(u128::from(d), 123456);
}

#[test]
fn dynamic_from_bytes() {
    let d = DynBCD::try_from(&[0x00u8, 0x12, 0x34][..]).unwrap();
    assert_eq!(Vec::<u8>::from(d.clone()), vec![0x00, 0x12, 0x34]);
    assert_eq!(d.get_number(), 1234);
    let empty = DynBCD::try_from(&[][..]).unwrap();
    assert_eq!(empty.get_number(), 0);
    let e = DynBCD::try_from(&[0x12u8, 0x3B][..]).unwrap_err();
    assert_eq!(e.kind(), BCDErrorKind::InvalidFormat);
}

#[test]
fn dynamic_and_fixed() {
    let d = DynBCD::new(12345).unwrap();
    let two: BCD<2> = BCD::from(d.clone());
    assert_eq!(Vec::<u8>::from(two), vec![0x23, 0x45]);
    let five: BCD<5> = BCD::from(d.clone());
    assert_eq!(Vec::<u8>::from(five), vec![0x00, 0x00, 0x01, 0x23, 0x45]);
    let back = DynBCD::from(five);
    assert_eq!(Vec::<u8>::from(back.clone()), vec![0x00, 0x00, 0x01, 0x23, 0x45]);
    assert_eq!(back.get_number(), 12345);
    assert!(back != d);
    assert!(DynBCD::from(BCD::<3>::new(12345).unwrap()) == d);
}

#[test]
fn word_to_bcd() {
    assert_eq!(45u8.to_bcd().unwrap(), 0x45);
    assert!(100u8.to_bcd().is_err());
    assert_eq!(1234u16.to_bcd().unwrap(), 0x1234);
    assert_eq!(12u16.to_bcd().unwrap(), 0x0012);
    let e = 10000u16.to_bcd().unwrap_err();
    assert_eq!(e.kind(), BCDErrorKind::Overflow { input_value: 10000, max_allowed: 9999 });
    assert_eq!(12345678u32.to_bcd().unwrap(), 0x12345678);
    assert!(100_000_000u32.to_bcd().is_err());
    assert_eq!(1234567890123456u64.to_bcd().unwrap(), 0x1234567890123456);
    assert_eq!(
        12345678901234567890123456789012u128.to_bcd().unwrap(),
        0x12345678901234567890123456789012
    );
}

#[test]
fn word_from_bcd() {
    assert_eq!(0x45u8.from_bcd().unwrap(), 45);
    assert_eq!(0x1234u16.from_bcd().unwrap(), 1234);
    assert_eq!(0x12345678u32.from_bcd().unwrap(), 12345678);
    assert_eq!(0x1234567890123456u64.from_bcd().unwrap(), 1234567890123456);
    assert_eq!(
        0x99999999999999999999999999999999u128.from_bcd().unwrap(),
        99999999999999999999999999999999
    );
    let e = 0x12A4u16.from_bcd().unwrap_err();
    assert_eq!(e.kind(), BCDErrorKind::InvalidFormat);
    assert!(0xFFu8.from_bcd().is_err());
}

#[test]
fn padded_from_integers() {
    let b = padded::BCD::try_from(12u16).unwrap();
    assert_eq!(<[u8; 2]>::from(b), [0x00, 0x12]);
    let b = padded::BCD::try_from(99u8).unwrap();
    assert_eq!(u8::from(b), 99);
    assert!(padded::BCD::try_from(100u8).is_err());
    let b = padded::BCD::try_from(12345678u32).unwrap();
    assert_eq!(<[u8; 4]>::from(b), [0x12, 0x34, 0x56, 0x78]);
    let b = padded::BCD::try_from(1u64).unwrap();
    assert_eq!(<[u8; 8]>::from(b), [0, 0, 0, 0, 0, 0, 0, 0x01]);
    let b = padded::BCD::try_from(5u128).unwrap();
    assert_eq!(u128::from(b), 5);
    let e = padded::BCD::try_from(10000u16).unwrap_err();
    assert_eq!(e.kind(), BCDErrorKind::Overflow { input_value: 10000, max_allowed: 9999 });
    let b = padded::BCD::try_from(4321usize).unwrap();
    assert_eq!(usize::from(b), 4321);
}

#[test]
fn padded_to_integers() {
    let b = padded::BCD::try_from([0x12u8, 0x34, 0x56]).unwrap();
    assert_eq!(u16::from(b), 3456);
    let b = padded::BCD::try_from([0x12u8, 0x34, 0x56]).unwrap();
    assert_eq!(u32::from(b), 123456);
    let b = padded::BCD::try_from([0x12u8, 0x34, 0x56]).unwrap();
    assert_eq!(u64::from(b), 123456);
    let b = padded::BCD::try_from([0x12u8, 0x34, 0x56]).unwrap();
    assert_eq!(u8::from(b), 56);
}

#[test]
fn padded_from_bytes() {
    let e = padded::BCD::try_from([0x12u8, 0xC4]).unwrap_err();
    assert_eq!(e.kind(), BCDErrorKind::InvalidFormat);
    let b = padded::BCD::try_from([0x12u8, 0x34]).unwrap();
    assert_eq!(<[u8; 1]>::from(b), [0x34]);
    let b = padded::BCD::try_from([0x12u8, 0x34]).unwrap();
    assert_eq!(<[u8; 3]>::from(b), [0x00, 0x12, 0x34]);
}

#[test]
fn error_constructors() {
    let e = BCDConversionError::new("bad byte".to_string());
    assert_eq!(e.kind(), BCDErrorKind::InvalidFormat);
    assert_eq!(e.description(), "bad byte");
    let boxed = BCDConversionError::new_boxed("boxed".to_string());
    assert_eq!(boxed.description(), "boxed");
    let e = BCDConversionError::new_with_template_description("u64", 0, 1234567890);
    assert_eq!(e.kind(), BCDErrorKind::Overflow { input_value: 0, max_allowed: 1234567890 });
    assert_eq!(e.description(), "Error on u64 to bcd, passed in value (0) exceeds maximum of 1234567890");
}

#[test]
fn iterate_bytes() {
    let d = DynBCD::new(12345).unwrap();
    let bytes: Vec<u8> = d.into_iter().collect();
    assert_eq!(bytes, vec![0x01, 0x23, 0x45]);
    let b = BCD::<3>::new(42).unwrap();
    let bytes: Vec<u8> = b.into_iter().collect();
    assert_eq!(bytes, vec![0x00, 0x00, 0x42]);
}
