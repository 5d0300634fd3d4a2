//! The links of records to variables of the PLC.

use ioc_drivers::twincat::ads::defs::AdsType;
use ioc_drivers::twincat::drvinfo::{
    DataSource, DrvInfo, DrvInfoDefaults, DrvInfoError, PlcAddress, TimeBase,
};

fn defaults() -> DrvInfoDefaults {
    DrvInfoDefaults {
        ams_port: 851,
        sample_time_ms: 50.0f64.to_bits(),
        max_delay_time_ms: 100.0f64.to_bits(),
        time_base: TimeBase::Plc,
    }
}

fn parse(s: &str) -> DrvInfo {
    DrvInfo::parse(s, defaults()).unwrap()
}

#[test]
fn bare_symbol_input_uses_defaults() {
    let d = parse("Main.fAmplitude?");
    assert_eq!(d.address, PlcAddress::Symbolic("Main.fAmplitude".into()));
    assert_eq!(d.address_str, "Main.fAmplitude");
    assert!(d.has_input);
    assert_eq!(d.ams_port, 851);
    assert_eq!(f64::from_bits(d.sample_time_ms), 50.0);
    assert_eq!(f64::from_bits(d.max_delay_time_ms), 100.0);
    assert_eq!(d.time_base, TimeBase::Plc);
    assert_eq!(d.data_source, DataSource::Plc);
    assert!(!d.is_bulk_read);
    assert_eq!(d.raw, "Main.fAmplitude?");
}

#[test]
fn trailing_equals_is_write_only() {
    let d = parse("ADSPORT=851/Main.fAmplitude=");
    assert!(!d.has_input);
    assert_eq!(d.address_str, "Main.fAmplitude");
}

#[test]
fn missing_terminator_is_rejected() {
    assert_eq!(
        DrvInfo::parse("Main.fAmplitude", defaults()),
        Err(DrvInfoError::MissingTerminator)
    );
}

#[test]
fn parses_full_option_list() {
    let d = parse("TIMEBASE=EPICS/T_DLY_MS=500/TS_MS=10/ADSPORT=852/Main.fTest?");
    assert_eq!(d.ams_port, 852);
    assert_eq!(f64::from_bits(d.sample_time_ms), 10.0);
    assert_eq!(f64::from_bits(d.max_delay_time_ms), 500.0);
    assert_eq!(d.time_base, TimeBase::Epics);
    assert_eq!(d.address_str, "Main.fTest");
}

#[test]
fn poll_rate_selects_bulk_read() {
    let d = parse("ADSPORT=851/POLL_RATE=1.0/Main.fAmplitude?");
    assert!(d.is_bulk_read);
    assert_eq!(f64::from_bits(d.poll_class), 1.0);

    let d = parse("ADSPORT=851/Main.fAmplitude?");
    assert!(!d.is_bulk_read);
    assert_eq!(f64::from_bits(d.poll_class), 1.0);
}

#[test]
fn option_keyword_inside_symbol_name_is_not_an_option() {
    let d = parse("ADSPORT=851/Main.TS_MS_setpoint?");
    assert_eq!(d.address_str, "Main.TS_MS_setpoint");
    assert_eq!(f64::from_bits(d.sample_time_ms), 50.0, "must keep the port default");

    let d = parse("Main.bADSPORT_OK?");
    assert_eq!(d.address_str, "Main.bADSPORT_OK");
    assert_eq!(d.ams_port, 851, "must keep the port default");

    let d = parse("Main.stPOLL_RATE_cfg?");
    assert_eq!(d.address_str, "Main.stPOLL_RATE_cfg");
    assert!(!d.is_bulk_read, "must not be pulled into the bulk read");

    let d = parse("Main.fTIMEBASE?");
    assert_eq!(d.address_str, "Main.fTIMEBASE");
    assert_eq!(d.time_base, TimeBase::Plc);
}

#[test]
fn ams_port_state_is_driver_local() {
    let d = parse("ADSPORT=851/.AMSPORTSTATE.?");
    assert_eq!(d.address, PlcAddress::AmsPortState);
    assert_eq!(d.data_source, DataSource::AmsState);
    assert_eq!(d.time_base, TimeBase::Epics);
    assert_eq!(d.declared_type(), Some((AdsType::UInt16, 2)));
}

#[test]
fn adr_command_parses_absolute_address() {
    let d = parse("ADSPORT=851/.ADR.16#4020,16#1A,2,2?");
    assert_eq!(
        d.address,
        PlcAddress::Absolute {
            index_group: 0x4020,
            index_offset: 0x1A,
            size: 2,
            data_type: AdsType::Int16,
        }
    );
    assert_eq!(d.declared_type(), Some((AdsType::Int16, 2)));
}

#[test]
fn malformed_adr_command_is_rejected() {
    for bad in [
        ".ADR.16#4020,16#0,2?",
        ".ADR.16#4020,16#0,2,2,3?",
        ".ADR.4020,16#0,2,2?",
        ".ADR.16#XYZ,16#0,2,2?",
        ".ADR.16#4020,16#0,notanum,2?",
    ] {
        assert!(
            matches!(
                DrvInfo::parse(bad, defaults()),
                Err(DrvInfoError::BadAdrCommand(_))
            ),
            "{bad} should be rejected"
        );
    }
}

#[test]
fn unknown_and_malformed_options_are_rejected() {
    assert_eq!(
        DrvInfo::parse("NOSUCH=1/Main.x?", defaults()),
        Err(DrvInfoError::UnknownOption("NOSUCH".into()))
    );
    assert_eq!(
        DrvInfo::parse("ADSPORT/Main.x?", defaults()),
        Err(DrvInfoError::MalformedOption("ADSPORT".into()))
    );
    assert_eq!(
        DrvInfo::parse("ADSPORT=abc/Main.x?", defaults()),
        Err(DrvInfoError::BadOptionValue {
            key: "ADSPORT".into(),
            value: "abc".into()
        })
    );
    assert_eq!(
        DrvInfo::parse("TIMEBASE=UTC/Main.x?", defaults()),
        Err(DrvInfoError::BadOptionValue {
            key: "TIMEBASE".into(),
            value: "UTC".into()
        })
    );
}

#[test]
fn empty_address_is_rejected() {
    assert_eq!(
        DrvInfo::parse("ADSPORT=851/?", defaults()),
        Err(DrvInfoError::EmptyAddress)
    );
}

#[test]
fn symbolic_address_has_no_declared_type() {
    assert_eq!(parse("Main.fTest?").declared_type(), None);
}

#[test]
fn link_errors_say_what_failed() {
    let e = DrvInfo::parse("NOSUCH=1/Main.x?", defaults()).unwrap_err();
    assert!(e.message().contains("NOSUCH"));
    let e = DrvInfo::parse("ADSPORT=abc/Main.x?", defaults()).unwrap_err();
    assert!(e.message().contains("ADSPORT") && e.message().contains("abc"));
}
