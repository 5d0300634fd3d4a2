//! The command channel: its grammar, and values as text.

use ioc_drivers::twincat::ads::defs::AdsType;
use ioc_drivers::twincat::octet::{
    ascii_to_binary, axis_status_to_ascii, binary_to_ascii, parse_command, split_commands, Command,
    OctetError, AXIS_STATUS_SIZE,
};

#[test]
fn semicolon_beats_space_as_separator() {
    assert_eq!(
        split_commands("a?;b?"),
        vec![("a?".to_string(), ";"), ("b?".to_string(), "")]
    );
    assert_eq!(
        split_commands("a? b?"),
        vec![("a?".to_string(), " "), ("b?".to_string(), "")]
    );
    assert_eq!(
        split_commands("a b;c"),
        vec![("a b".to_string(), ";"), ("c".to_string(), "")]
    );
}

#[test]
fn a_line_without_separators_is_one_command() {
    assert_eq!(
        split_commands("Main.fTest?"),
        vec![("Main.fTest?".to_string(), "")]
    );
    assert!(split_commands("").is_empty());
}

#[test]
fn trailing_separator_does_not_add_an_empty_command() {
    assert_eq!(
        split_commands("a?;"),
        vec![("a?".to_string(), ";")],
        "the empty tail is no command"
    );
}

#[test]
fn parses_features_command() {
    assert_eq!(
        parse_command(".THIS.sFeatures?", 851).unwrap(),
        Command::Features
    );
}

#[test]
fn parses_symbolic_read_and_write() {
    assert_eq!(
        parse_command("Main.fTest?", 851).unwrap(),
        Command::ReadSymbol {
            ams_port: 851,
            name: "Main.fTest".into()
        }
    );
    assert_eq!(
        parse_command("Main.fTest=1.5", 851).unwrap(),
        Command::WriteSymbol {
            ams_port: 851,
            name: "Main.fTest".into(),
            value: "1.5".into()
        }
    );
}

#[test]
fn adsport_prefix_overrides_the_default_port() {
    assert_eq!(
        parse_command("ADSPORT=852/Main.fTest?", 851).unwrap(),
        Command::ReadSymbol {
            ams_port: 852,
            name: "Main.fTest".into()
        }
    );
    assert_eq!(
        parse_command("ADSPORT=xyz/Main.fTest?", 851),
        Err(OctetError::BadAdsPort("ADSPORT=xyz/Main.fTest?".into()))
    );
    assert!(matches!(
        parse_command("ADSPORT=852", 851),
        Err(OctetError::BadAdsPort(_))
    ));
}

#[test]
fn a_short_write_after_a_long_one_does_not_inherit_the_previous_name() {
    let cmds: Vec<Command> = split_commands("Main.aVeryLongVariableName=1;Main.x=2")
        .iter()
        .map(|(c, _)| parse_command(c, 851).unwrap())
        .collect();
    assert_eq!(
        cmds[1],
        Command::WriteSymbol {
            ams_port: 851,
            name: "Main.x".into(),
            value: "2".into()
        }
    );
}

#[test]
fn parses_adr_read_and_write() {
    assert_eq!(
        parse_command(".ADR.16#4020,16#1A,2,2?", 851).unwrap(),
        Command::ReadAdr {
            ams_port: 851,
            index_group: 0x4020,
            index_offset: 0x1A,
            length: 2,
            data_type: AdsType::Int16,
        }
    );
    assert_eq!(
        parse_command("ADSPORT=852/.ADR.16#4020,16#0,8,5=1.25", 851).unwrap(),
        Command::WriteAdr {
            ams_port: 852,
            index_group: 0x4020,
            index_offset: 0,
            length: 8,
            data_type: AdsType::Real64,
            value: "1.25".into(),
        }
    );
}

#[test]
fn a_bad_command_is_reported_not_fatal() {
    assert_eq!(parse_command("gibberish", 851).unwrap(), Command::Bad);
    assert_eq!(parse_command(".ADR.nonsense?", 851).unwrap(), Command::Bad);
}

#[test]
fn int64_prints_its_value() {
    let v = -9_007_199_254_740_993i64;
    let s = binary_to_ascii(&v.to_le_bytes(), AdsType::Int64, 8, "x", "LINT").unwrap();
    assert_eq!(s, "-9007199254740993");
    assert!(!s.contains("PRId64"));
}

#[test]
fn uint64_prints_its_value() {
    let v = u64::MAX;
    let s = binary_to_ascii(&v.to_le_bytes(), AdsType::UInt64, 8, "x", "ULINT").unwrap();
    assert_eq!(s, "18446744073709551615");
    assert!(!s.contains("PRIu64"));
}

#[test]
fn large_unsigned_values_print_unsigned() {
    let s = binary_to_ascii(
        &4_000_000_000u32.to_le_bytes(),
        AdsType::UInt32,
        4,
        "x",
        "UDINT",
    )
    .unwrap();
    assert_eq!(s, "4000000000");

    let s = binary_to_ascii(&65535u16.to_le_bytes(), AdsType::UInt16, 2, "x", "UINT").unwrap();
    assert_eq!(s, "65535");
}

#[test]
fn reals_print_with_six_decimals_like_printf() {
    let s = binary_to_ascii(&1.5f64.to_le_bytes(), AdsType::Real64, 8, "x", "LREAL").unwrap();
    assert_eq!(s, "1.500000");
    let s =
        binary_to_ascii(&(-0.25f32).to_le_bytes(), AdsType::Real32, 4, "x", "REAL").unwrap();
    assert_eq!(s, "-0.250000");
}

#[test]
fn arrays_are_comma_separated() {
    let data: Vec<u8> = [1i32, -2, 3].iter().flat_map(|v| v.to_le_bytes()).collect();
    let s = binary_to_ascii(&data, AdsType::Int32, 12, "x", "ARRAY").unwrap();
    assert_eq!(s, "1,-2,3");
}

#[test]
fn strings_stop_at_the_nul() {
    let s = binary_to_ascii(b"Hello\0junk", AdsType::String, 10, "x", "STRING(9)").unwrap();
    assert_eq!(s, "Hello");
}

#[test]
fn bit_prints_zero_or_one() {
    assert_eq!(
        binary_to_ascii(&[0], AdsType::Bit, 1, "x", "BOOL").unwrap(),
        "0"
    );
    assert_eq!(
        binary_to_ascii(&[1], AdsType::Bit, 1, "x", "BOOL").unwrap(),
        "1"
    );
}

#[test]
fn unsupported_types_are_rejected() {
    assert_eq!(
        binary_to_ascii(&[0; 10], AdsType::Real80, 10, "x", "?"),
        Err(OctetError::InvalidDataType(AdsType::Real80))
    );
    assert_eq!(
        ascii_to_binary("1.0", AdsType::Real80, 10),
        Err(OctetError::InvalidDataType(AdsType::Real80))
    );
    assert_eq!(
        binary_to_ascii(&[0; 8], AdsType::WString, 8, "x", "?"),
        Err(OctetError::InvalidDataType(AdsType::WString))
    );
    assert_eq!(
        binary_to_ascii(&[0; 8], AdsType::BigType, 8, "x", "ST_Other"),
        Err(OctetError::InvalidDataType(AdsType::BigType))
    );
}

#[test]
fn ascii_to_binary_roundtrips_scalars() {
    assert_eq!(
        ascii_to_binary("-2", AdsType::Int16, 2).unwrap(),
        (-2i16).to_le_bytes()
    );
    assert_eq!(
        ascii_to_binary("1.25", AdsType::Real64, 8).unwrap(),
        1.25f64.to_le_bytes()
    );
    assert_eq!(ascii_to_binary("1", AdsType::Bit, 1).unwrap(), vec![1]);
    assert_eq!(ascii_to_binary("0", AdsType::Bit, 1).unwrap(), vec![0]);
}

#[test]
fn ascii_to_binary_fills_arrays() {
    assert_eq!(
        ascii_to_binary("1,2,3", AdsType::Int16, 6).unwrap(),
        [1i16, 2, 3]
            .iter()
            .flat_map(|v| v.to_le_bytes())
            .collect::<Vec<u8>>()
    );
}

#[test]
fn ascii_to_binary_refuses_to_overrun_the_plc_variable() {
    assert!(matches!(
        ascii_to_binary("1,2,3", AdsType::Int16, 4),
        Err(OctetError::BufferExceeded { .. })
    ));
}

#[test]
fn ascii_to_binary_rejects_unparseable_text() {
    assert_eq!(
        ascii_to_binary("abc", AdsType::Int32, 4),
        Err(OctetError::BadValue {
            text: "abc".into(),
            plc: AdsType::Int32
        })
    );
    assert!(matches!(
        ascii_to_binary("70000", AdsType::UInt16, 2),
        Err(OctetError::BadValue { .. })
    ));
}

#[test]
fn ascii_to_binary_nul_terminates_a_string() {
    assert_eq!(ascii_to_binary("Hi", AdsType::String, 10).unwrap(), b"Hi\0");
    let out = ascii_to_binary("abcd", AdsType::String, 4).unwrap();
    assert_eq!(out, b"abc\0");
}

#[test]
fn axis_status_renders_every_field_at_its_padded_offset() {
    let mut d = vec![0u8; AXIS_STATUS_SIZE];
    d[0] = 1;
    d[2] = 1;
    d[4..6].copy_from_slice(&3u16.to_le_bytes());
    d[6..8].copy_from_slice(&4u16.to_le_bytes());
    d[8..16].copy_from_slice(&10.5f64.to_le_bytes());
    d[48..56].copy_from_slice(&100.0f64.to_le_bytes());
    d[60..64].copy_from_slice(&42u32.to_le_bytes());
    d[72..80].copy_from_slice(&(-1.5f64).to_le_bytes());
    d[89] = 1;

    let s = axis_status_to_ascii(&d, "ax1").unwrap();
    assert_eq!(
        s,
        "ax1=1,0,1,3,4,10.500000,0.000000,0.000000,0.000000,0,0,0,0,\
         100.000000,0,0,0,42,0.000000,-1.500000,0.000000,0,1;"
    );
}

#[test]
fn axis_status_is_reached_through_the_type_name() {
    let d = vec![0u8; AXIS_STATUS_SIZE];
    let s = binary_to_ascii(
        &d,
        AdsType::BigType,
        AXIS_STATUS_SIZE,
        "ax1",
        "DUT_AxisStatus_v0_01",
    )
    .unwrap();
    assert!(s.starts_with("ax1=0,0,0,"));
    assert!(s.ends_with(';'));
}

#[test]
fn a_truncated_axis_status_is_rejected() {
    assert!(matches!(
        axis_status_to_ascii(&[0u8; 50], "ax1"),
        Err(OctetError::BufferExceeded { need: 96, .. })
    ));
}

#[test]
fn the_pieces_of_a_line_repeat_the_line() {
    for line in ["a?;b=2;c?", "a? b? c?", "x=1", "a b;c d"] {
        let again: String = split_commands(line)
            .iter()
            .map(|(c, s)| format!("{c}{s}"))
            .collect();
        assert_eq!(again, line);
    }
}

#[test]
fn every_error_has_its_number_and_text() {
    let e = OctetError::InvalidDataType(AdsType::Real80);
    assert_eq!(e.code(), 1004);
    let e = ascii_to_binary("1,2,3", AdsType::Int16, 4).unwrap_err();
    assert_eq!(e.code(), 1005);
    let e = parse_command("ADSPORT=xyz/Main.fTest?", 851).unwrap_err();
    assert_eq!(e.code(), 1007);
    assert!(e.message().contains("ADSPORT=xyz/Main.fTest?"));
}

#[test]
fn integers_written_as_text_read_back() {
    for v in [0i64, -1, 127, i64::MIN, i64::MAX] {
        let text = v.to_string();
        let data = ascii_to_binary(&text, AdsType::Int64, 8).unwrap();
        assert_eq!(
            binary_to_ascii(&data, AdsType::Int64, 8, "x", "LINT").unwrap(),
            text
        );
    }
}

#[test]
fn a_text_variable_without_room_stays_empty() {
    assert!(ascii_to_binary("Hi", AdsType::String, 0).unwrap().is_empty());
}

#[test]
fn reals_are_read_like_decimal_numbers() {
    let cases = [
        ("0.1", 0.1f64),
        ("-2.5e3", -2500.0),
        ("1e-7", 1e-7),
        ("12345678.875", 12345678.875),
        ("inf", f64::INFINITY),
    ];
    for (text, v) in cases {
        assert_eq!(
            ascii_to_binary(text, AdsType::Real64, 8).unwrap(),
            v.to_le_bytes(),
            "{text}"
        );
    }
    assert_eq!(
        ascii_to_binary("0.1", AdsType::Real32, 4).unwrap(),
        0.1f32.to_le_bytes()
    );
}
