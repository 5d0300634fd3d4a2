//! The frames of the ADS protocol.

use ioc_drivers::twincat::ads::defs::{
    AmsAddr, AmsNetId, ADSIGRP_SYM_HNDBYNAME, CMD_READ_WRITE, STATE_FLAG_RESPONSE,
};
use ioc_drivers::twincat::ads::error::AdsError;
use ioc_drivers::twincat::ads::frame::{
    decode_tcp_header, encode_frame, push_add_notification_request, push_read_write_header,
    AoeHeader, Reader, AMS_TCP_HEADER_LEN, AOE_HEADER_LEN,
};

fn addr(net: [u8; 6], port: u16) -> AmsAddr {
    AmsAddr {
        net_id: AmsNetId(net),
        port,
    }
}

#[test]
fn read_write_frame_golden_bytes() {
    let target = addr([192, 168, 88, 44, 1, 1], 851);
    let source = addr([10, 0, 0, 5, 1, 1], 30000);
    let name = b"MAIN.fTest";

    let mut payload = Vec::new();
    push_read_write_header(&mut payload, ADSIGRP_SYM_HNDBYNAME, 0, 4, name.len() as u32);
    payload.extend_from_slice(name);

    let header = AoeHeader::request(
        target,
        source,
        CMD_READ_WRITE,
        payload.len() as u32,
        0x1234_5678,
    );
    let frame = encode_frame(&header, &payload);
    let expect: Vec<u8> = vec![
        0x00, 0x00,
        0x3A, 0x00, 0x00, 0x00,
        192, 168, 88, 44, 1, 1,
        0x53, 0x03,
        10, 0, 0, 5, 1, 1,
        0x30, 0x75,
        0x09, 0x00,
        0x04, 0x00,
        0x1A, 0x00, 0x00, 0x00,
        0x00, 0x00, 0x00, 0x00,
        0x78, 0x56, 0x34, 0x12,
        0x03, 0xF0, 0x00, 0x00,
        0x00, 0x00, 0x00, 0x00,
        0x04, 0x00, 0x00, 0x00,
        0x0A, 0x00, 0x00, 0x00,
        b'M', b'A', b'I', b'N', b'.', b'f', b'T', b'e', b's', b't',
    ];
    assert_eq!(frame, expect);
    assert_eq!(frame.len(), AMS_TCP_HEADER_LEN + AOE_HEADER_LEN + 26);
}

#[test]
fn tcp_header_length_counts_aoe_plus_payload() {
    let h = AoeHeader::request(addr([0; 6], 851), addr([0; 6], 30000), 2, 12, 1);
    let frame = encode_frame(&h, &[0u8; 12]);
    assert_eq!(
        decode_tcp_header(&frame).unwrap(),
        (AOE_HEADER_LEN + 12) as u32
    );
    assert_eq!(frame.len(), AMS_TCP_HEADER_LEN + AOE_HEADER_LEN + 12);
}

#[test]
fn aoe_header_roundtrips() {
    let h = AoeHeader {
        target: addr([1, 2, 3, 4, 5, 6], 851),
        source: addr([7, 8, 9, 10, 11, 12], 30001),
        cmd_id: CMD_READ_WRITE,
        state_flags: STATE_FLAG_RESPONSE,
        length: 42,
        error_code: 0x0710,
        invoke_id: 0xCAFE_BABE,
    };
    let mut buf = Vec::new();
    h.encode_into(&mut buf);
    assert_eq!(buf.len(), AOE_HEADER_LEN);
    assert_eq!(AoeHeader::decode(&buf).unwrap(), h);
}

#[test]
fn add_notification_request_is_40_bytes() {
    let mut out = Vec::new();
    push_add_notification_request(&mut out, 0xF005, 7, 4, 4, 1_000_000, 500_000);
    assert_eq!(out.len(), 40);
    assert_eq!(&out[0..4], &0xF005u32.to_le_bytes());
    assert_eq!(&out[4..8], &7u32.to_le_bytes());
    assert_eq!(&out[8..12], &4u32.to_le_bytes());
    assert_eq!(&out[12..16], &4u32.to_le_bytes());
    assert_eq!(&out[16..20], &1_000_000u32.to_le_bytes());
    assert_eq!(&out[20..24], &500_000u32.to_le_bytes());
    assert_eq!(&out[24..40], &[0u8; 16]);
}

#[test]
fn truncated_frames_error_instead_of_panicking() {
    assert!(matches!(
        decode_tcp_header(&[0, 0, 1]),
        Err(AdsError::ShortFrame { .. })
    ));
    assert!(matches!(
        AoeHeader::decode(&[0u8; 31]),
        Err(AdsError::ShortFrame { .. })
    ));

    let mut r = Reader::new(&[1, 2, 3]);
    assert!(r.u16().is_ok());
    assert!(matches!(r.u32(), Err(AdsError::ShortFrame { .. })));
}

#[test]
fn reader_cstr_stops_at_nul_and_errors_when_unterminated() {
    let mut r = Reader::new(b"MAIN.fTest\0rest");
    assert_eq!(r.cstr().unwrap(), "MAIN.fTest");
    assert_eq!(r.remaining(), 4);

    let mut r = Reader::new(b"no-nul-here");
    assert!(matches!(r.cstr(), Err(AdsError::ShortFrame { .. })));
}

#[test]
fn reader_hands_out_six_bytes_or_stays_where_it_is() {
    let mut r = Reader::new(&[1, 2, 3, 4, 5, 6, 7]);
    assert_eq!(r.array6().unwrap(), [1, 2, 3, 4, 5, 6]);
    assert!(r.array6().is_err());
    assert_eq!(r.u8().unwrap(), 7);
}
