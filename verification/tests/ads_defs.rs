//! Names, numbers and texts of the ADS protocol.

use ioc_drivers::twincat::ads::defs::{error_to_string, AdsState, AdsType, AmsNetId};
use ioc_drivers::twincat::ads::error::check;

#[test]
fn net_id_parses_six_octets() {
    assert_eq!(
        "192.168.88.44.1.1".parse::<AmsNetId>().unwrap(),
        AmsNetId([192, 168, 88, 44, 1, 1])
    );
}

#[test]
fn net_id_rejects_wrong_octet_count() {
    assert!("192.168.88.44.1".parse::<AmsNetId>().is_err());
    assert!("192.168.88.44.1.1.1".parse::<AmsNetId>().is_err());
    assert!("".parse::<AmsNetId>().is_err());
}

#[test]
fn net_id_rejects_out_of_range_octet() {
    assert!("192.168.88.256.1.1".parse::<AmsNetId>().is_err());
}

#[test]
fn net_id_display_roundtrips() {
    let id: AmsNetId = "10.0.0.1.1.1".parse().unwrap();
    assert_eq!(id.text(), "10.0.0.1.1.1");
}

#[test]
fn ads_type_sizes_match_c_table() {
    assert_eq!(AdsType::Void.element_size(), Some(0));
    assert_eq!(AdsType::Int8.element_size(), Some(1));
    assert_eq!(AdsType::UInt8.element_size(), Some(1));
    assert_eq!(AdsType::Bit.element_size(), Some(1));
    assert_eq!(AdsType::String.element_size(), Some(1));
    assert_eq!(AdsType::Int16.element_size(), Some(2));
    assert_eq!(AdsType::UInt16.element_size(), Some(2));
    assert_eq!(AdsType::Int32.element_size(), Some(4));
    assert_eq!(AdsType::UInt32.element_size(), Some(4));
    assert_eq!(AdsType::Real32.element_size(), Some(4));
    assert_eq!(AdsType::Int64.element_size(), Some(8));
    assert_eq!(AdsType::UInt64.element_size(), Some(8));
    assert_eq!(AdsType::Real64.element_size(), Some(8));
    assert_eq!(AdsType::Real80.element_size(), Some(10));
    assert_eq!(AdsType::WString.element_size(), None);
    assert_eq!(AdsType::BigType.element_size(), None);
    assert_eq!(AdsType::Unknown(99).element_size(), None);
}

#[test]
fn ads_type_id_roundtrips() {
    for t in [
        AdsType::Void,
        AdsType::Int8,
        AdsType::UInt8,
        AdsType::Int16,
        AdsType::UInt16,
        AdsType::Int32,
        AdsType::UInt32,
        AdsType::Int64,
        AdsType::UInt64,
        AdsType::Real32,
        AdsType::Real64,
        AdsType::Real80,
        AdsType::BigType,
        AdsType::String,
        AdsType::WString,
        AdsType::Bit,
    ] {
        assert_eq!(AdsType::from_u32(t.to_u32()), t, "{t:?}");
    }
}

#[test]
fn ads_state_unknown_sentinel_matches_c_string() {
    assert_eq!(AdsState::from_u16(21), AdsState::Unknown);
    assert_eq!(AdsState::from_u16(21).as_str(), "UNKNOWN ADSSTATE");
    assert_eq!(AdsState::from_u16(5), AdsState::Run);
}

#[test]
fn error_strings_match_c_table() {
    assert_eq!(error_to_string(0x06), "GLOBALERR_TARGET_PORT");
    assert_eq!(error_to_string(0x0710), "ADSERR_DEVICE_SYMBOLNOTFOUND");
    assert_eq!(error_to_string(0x0745), "ADSERR_CLIENT_SYNCTIMEOUT");
    assert_eq!(error_to_string(0xDEAD), "ADSERR_ERROR_UNKNOWN");
}

#[test]
fn check_maps_zero_to_ok_and_nonzero_to_error() {
    assert!(check(0).is_ok());
    let e = check(0x0710).unwrap_err();
    assert_eq!(e.code(), Some(0x0710));
    assert!(e.message().contains("ADSERR_DEVICE_SYMBOLNOTFOUND"));
}
