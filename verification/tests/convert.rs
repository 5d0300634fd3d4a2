//! Values of the PLC as values of a record, and back.

use ioc_drivers::param::{ParamType, ParamValue};
use ioc_drivers::twincat::ads::defs::AdsType;
use ioc_drivers::twincat::convert::{
    decode_array, decode_scalar, encode_scalar, natural_param_type, ConvertError, WriteValue,
};

fn i32_of(v: &ParamValue) -> i32 {
    match v {
        ParamValue::Int32(x) => *x,
        other => panic!("expected Int32, got {other:?}"),
    }
}
fn i64_of(v: &ParamValue) -> i64 {
    match v {
        ParamValue::Int64(x) => *x,
        other => panic!("expected Int64, got {other:?}"),
    }
}
fn f64_of(v: &ParamValue) -> f64 {
    match v {
        ParamValue::Float64(x) => f64::from_bits(*x),
        other => panic!("expected Float64, got {other:?}"),
    }
}

#[test]
fn integer_plc_types_feed_all_three_scalar_asyn_types() {
    let cases: &[(AdsType, Vec<u8>, i64)] = &[
        (AdsType::Int8, vec![0xFF], -1),
        (AdsType::UInt8, vec![0xFF], 255),
        (AdsType::Int16, (-2i16).to_le_bytes().to_vec(), -2),
        (AdsType::UInt16, 65535u16.to_le_bytes().to_vec(), 65535),
        (AdsType::Int32, (-3i32).to_le_bytes().to_vec(), -3),
        (
            AdsType::UInt32,
            4_000_000_000u32.to_le_bytes().to_vec(),
            4_000_000_000,
        ),
        (AdsType::Int64, (-4i64).to_le_bytes().to_vec(), -4),
        (AdsType::Bit, vec![1], 1),
    ];
    for (plc, bytes, expect) in cases {
        assert_eq!(
            i64_of(&decode_scalar(*plc, bytes, ParamType::Int64).unwrap()),
            *expect,
            "{plc:?} → Int64"
        );
        assert_eq!(
            f64_of(&decode_scalar(*plc, bytes, ParamType::Float64).unwrap()),
            *expect as f64,
            "{plc:?} → Float64"
        );
        assert_eq!(
            i32_of(&decode_scalar(*plc, bytes, ParamType::Int32).unwrap()),
            *expect as i32,
            "{plc:?} → Int32"
        );
    }
}

#[test]
fn bit_is_signed_int8_not_a_bool() {
    assert_eq!(
        i32_of(&decode_scalar(AdsType::Bit, &[0xFF], ParamType::Int32).unwrap()),
        -1
    );
    assert_eq!(
        i32_of(&decode_scalar(AdsType::Bit, &[0], ParamType::Int32).unwrap()),
        0
    );
}

#[test]
fn bit_converts_to_int64_like_every_other_integer_type() {
    assert_eq!(
        i64_of(&decode_scalar(AdsType::Bit, &[1], ParamType::Int64).unwrap()),
        1
    );
}

#[test]
fn uint64_keeps_its_low_bits_through_int64() {
    let bytes = (u64::MAX - 1).to_le_bytes();
    assert_eq!(
        i64_of(&decode_scalar(AdsType::UInt64, &bytes, ParamType::Int64).unwrap()),
        -2,
        "the low 64 bits"
    );
}

#[test]
fn real_types_convert() {
    let f32b = 1.5f32.to_le_bytes();
    assert_eq!(
        f64_of(&decode_scalar(AdsType::Real32, &f32b, ParamType::Float64).unwrap()),
        1.5
    );
    assert_eq!(
        i32_of(&decode_scalar(AdsType::Real32, &f32b, ParamType::Int32).unwrap()),
        1,
        "truncation toward zero"
    );
    let f64b = (-2.9f64).to_le_bytes();
    assert_eq!(
        i32_of(&decode_scalar(AdsType::Real64, &f64b, ParamType::Int32).unwrap()),
        -2
    );
}

#[test]
fn float_to_int_saturates_instead_of_invoking_ub() {
    let huge = 1e30f64.to_le_bytes();
    assert_eq!(
        i32_of(&decode_scalar(AdsType::Real64, &huge, ParamType::Int32).unwrap()),
        i32::MAX
    );
    let tiny = (-1e30f64).to_le_bytes();
    assert_eq!(
        i32_of(&decode_scalar(AdsType::Real64, &tiny, ParamType::Int32).unwrap()),
        i32::MIN
    );
    let nan = f64::NAN.to_le_bytes();
    assert_eq!(
        i32_of(&decode_scalar(AdsType::Real64, &nan, ParamType::Int32).unwrap()),
        0
    );
}

#[test]
fn unsupported_scalar_pairings_are_rejected() {
    assert!(matches!(
        decode_scalar(AdsType::Int32, &[0; 4], ParamType::Int32Array),
        Err(ConvertError::Unsupported { .. })
    ));
    assert!(matches!(
        decode_scalar(AdsType::String, b"abc", ParamType::Int32),
        Err(ConvertError::Unsupported { .. })
    ));
    assert!(matches!(
        decode_scalar(AdsType::BigType, &[0; 8], ParamType::Float64),
        Err(ConvertError::Unsupported { .. })
    ));
}

#[test]
fn short_data_is_rejected() {
    assert!(matches!(
        decode_scalar(AdsType::Int32, &[1, 2], ParamType::Int32),
        Err(ConvertError::ShortData {
            need: 4,
            got: 2,
            ..
        })
    ));
}

#[test]
fn arrays_decode_to_their_paired_flavour() {
    let v = decode_array(
        AdsType::Real64,
        &[1.0f64.to_le_bytes(), 2.5f64.to_le_bytes()].concat(),
        ParamType::Float64Array,
    )
    .unwrap();
    match v {
        ParamValue::Float64Array(a) => assert_eq!(&*a, &[1.0f64.to_bits(), 2.5f64.to_bits()]),
        other => panic!("{other:?}"),
    }

    let v = decode_array(
        AdsType::Int16,
        &[(-1i16).to_le_bytes(), 300i16.to_le_bytes()].concat(),
        ParamType::Int16Array,
    )
    .unwrap();
    match v {
        ParamValue::Int16Array(a) => assert_eq!(&*a, &[-1, 300]),
        other => panic!("{other:?}"),
    }
}

#[test]
fn mismatched_array_flavour_is_rejected() {
    assert!(matches!(
        decode_array(AdsType::Real64, &[0; 16], ParamType::Int32Array),
        Err(ConvertError::Unsupported { .. })
    ));
    assert!(matches!(
        decode_array(AdsType::UInt32, &[0; 8], ParamType::Int32Array),
        Err(ConvertError::Unsupported { .. })
    ));
}

#[test]
fn trailing_partial_element_is_dropped_not_misread() {
    let v = decode_array(AdsType::Int16, &[1, 0, 2, 0, 9], ParamType::Int16Array).unwrap();
    match v {
        ParamValue::Int16Array(a) => assert_eq!(&*a, &[1, 2]),
        other => panic!("{other:?}"),
    }
}

#[test]
fn plc_string_stops_at_the_nul() {
    let raw = b"Hello\0\xff\xfe garbage";
    match decode_array(AdsType::String, raw, ParamType::Octet).unwrap() {
        ParamValue::Octet(s) => assert_eq!(s, "Hello"),
        other => panic!("{other:?}"),
    }
}

#[test]
fn plc_string_as_int8_array_keeps_every_byte() {
    match decode_array(AdsType::String, b"Hi\0", ParamType::Int8Array).unwrap() {
        ParamValue::Int8Array(a) => assert_eq!(&*a, &[b'H' as i8, b'i' as i8, 0]),
        other => panic!("{other:?}"),
    }
}

#[test]
fn writes_narrow_to_the_plc_type() {
    assert_eq!(
        encode_scalar(AdsType::Int16, WriteValue::Int(-2)).unwrap(),
        (-2i16).to_le_bytes()
    );
    assert_eq!(
        encode_scalar(AdsType::Real32, WriteValue::Float(f64::to_bits(1.5))).unwrap(),
        1.5f32.to_le_bytes()
    );
    assert_eq!(
        encode_scalar(AdsType::Real64, WriteValue::Int(3)).unwrap(),
        3.0f64.to_le_bytes()
    );
    assert_eq!(
        encode_scalar(AdsType::UInt32, WriteValue::Float(f64::to_bits(7.9))).unwrap(),
        7u32.to_le_bytes()
    );
}

#[test]
fn writing_a_bool_normalizes_to_zero_or_one() {
    assert_eq!(
        encode_scalar(AdsType::Bit, WriteValue::Int(0)).unwrap(),
        [0]
    );
    assert_eq!(
        encode_scalar(AdsType::Bit, WriteValue::Int(1)).unwrap(),
        [1]
    );
    assert_eq!(
        encode_scalar(AdsType::Bit, WriteValue::Int(256)).unwrap(),
        [1]
    );
    assert_eq!(
        encode_scalar(AdsType::Bit, WriteValue::Int(-1)).unwrap(),
        [1]
    );
}

#[test]
fn writing_an_unsupported_plc_type_is_rejected() {
    assert!(matches!(
        encode_scalar(AdsType::BigType, WriteValue::Int(1)),
        Err(ConvertError::Unsupported { .. })
    ));
    assert!(matches!(
        encode_scalar(AdsType::String, WriteValue::Float(f64::to_bits(1.0))),
        Err(ConvertError::Unsupported { .. })
    ));
}

#[test]
fn natural_types_follow_the_c_matrix() {
    assert_eq!(
        natural_param_type(AdsType::Real64, false),
        Some(ParamType::Float64)
    );
    assert_eq!(
        natural_param_type(AdsType::Int32, false),
        Some(ParamType::Int32)
    );
    assert_eq!(
        natural_param_type(AdsType::Real64, true),
        Some(ParamType::Float64Array)
    );
    assert_eq!(
        natural_param_type(AdsType::String, true),
        Some(ParamType::Octet)
    );
    assert_eq!(natural_param_type(AdsType::BigType, false), None);
    assert_eq!(natural_param_type(AdsType::Real80, false), None);
    assert_eq!(natural_param_type(AdsType::Int64, true), None);
}

#[test]
fn an_integer_write_reads_back() {
    for v in [0i64, 1, -1, 1234, -32768, 32767] {
        let data = encode_scalar(AdsType::Int16, WriteValue::Int(v)).unwrap();
        let read = decode_scalar(AdsType::Int16, &data, ParamType::Int64).unwrap();
        assert_eq!(i64_of(&read), v);
    }
}

#[test]
fn a_double_write_reads_back() {
    for v in [0.0f64, -1.5, 1e300, f64::MIN_POSITIVE] {
        let data = encode_scalar(AdsType::Real64, WriteValue::Float(v.to_bits())).unwrap();
        let read = decode_scalar(AdsType::Real64, &data, ParamType::Float64).unwrap();
        assert_eq!(f64_of(&read), v);
    }
}

#[test]
fn conversion_errors_say_what_failed() {
    let e = decode_scalar(AdsType::Int32, &[1, 2], ParamType::Int32).unwrap_err();
    assert!(e.message().contains('4') && e.message().contains('2'));
    let e = encode_scalar(AdsType::BigType, WriteValue::Int(1)).unwrap_err();
    assert!(!e.message().is_empty());
}

#[test]
fn damaged_text_is_replaced() {
    match decode_array(AdsType::String, b"a\xffb\0", ParamType::Octet).unwrap() {
        ParamValue::Octet(s) => assert_eq!(s, "a\u{FFFD}b"),
        other => panic!("{other:?}"),
    }
}
