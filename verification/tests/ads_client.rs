//! The requests of a client, and the replies to them.

use ioc_drivers::twincat::ads::client::{
    body_length, decode_added_notification, decode_handle, decode_read_response,
    decode_read_response_lenient, decode_state, duration_to_100ns, local_address, AdsClient,
    Incoming, Outgoing,
};
use ioc_drivers::twincat::ads::defs::{
    AdsState, AmsAddr, AmsNetId, ADSIGRP_SUMUP_READ, ADSIGRP_SYM_HNDBYNAME, ADSIGRP_SYM_VALBYHND,
    ADSTRANS_SERVERONCHA, CMD_ADD_DEVICE_NOTIFICATION, CMD_DEVICE_NOTIFICATION, CMD_READ,
    CMD_READ_WRITE, GLOBALERR_TARGET_PORT, LOCAL_PORT_BASE, STATE_FLAG_REQUEST,
    STATE_FLAG_RESPONSE,
};
use ioc_drivers::twincat::ads::error::AdsError;
use ioc_drivers::twincat::ads::frame::{
    decode_tcp_header, encode_frame, AoeHeader, Reader, AMS_TCP_HEADER_LEN, AOE_HEADER_LEN,
};
use ioc_drivers::twincat::ads::sumup::{decode_response, DataLayout, SumEntry};

const PLC_NET: AmsNetId = AmsNetId([192, 168, 88, 44, 1, 1]);
const LOCAL_NET: AmsNetId = AmsNetId([10, 0, 0, 5, 1, 1]);

fn local() -> AmsAddr {
    AmsAddr {
        net_id: LOCAL_NET,
        port: LOCAL_PORT_BASE,
    }
}

fn client() -> AdsClient {
    AdsClient::new(local(), PLC_NET)
}

struct Received {
    header: AoeHeader,
    payload: Vec<u8>,
}

fn received(out: &Outgoing) -> Received {
    let len = decode_tcp_header(&out.frame).unwrap() as usize;
    let body = &out.frame[AMS_TCP_HEADER_LEN..];
    assert_eq!(body.len(), len);
    Received {
        header: AoeHeader::decode(body).unwrap(),
        payload: body[AOE_HEADER_LEN..].to_vec(),
    }
}

fn reply(req: &AoeHeader, error_code: u32, payload: &[u8]) -> Vec<u8> {
    let header = AoeHeader {
        target: req.source,
        source: req.target,
        cmd_id: req.cmd_id,
        state_flags: STATE_FLAG_RESPONSE,
        length: payload.len() as u32,
        error_code,
        invoke_id: req.invoke_id,
    };
    encode_frame(&header, payload)[AMS_TCP_HEADER_LEN..].to_vec()
}

fn answered(client: &mut AdsClient, out: &Outgoing, error_code: u32, payload: &[u8]) -> Result<Vec<u8>, AdsError> {
    let body = reply(&received(out).header, error_code, payload);
    match client.receive(&body) {
        Incoming::Response { invoke_id, result } => {
            assert_eq!(invoke_id, out.invoke_id);
            result
        }
        other => panic!("no response: {other:?}"),
    }
}

fn ok_read_payload(data: &[u8]) -> Vec<u8> {
    let mut p = 0u32.to_le_bytes().to_vec();
    p.extend_from_slice(&(data.len() as u32).to_le_bytes());
    p.extend_from_slice(data);
    p
}

#[test]
fn read_sends_request_header_and_returns_data() {
    let mut client = client();
    let out = client.read(851, ADSIGRP_SYM_VALBYHND, 7, 4).unwrap();
    let resp = answered(&mut client, &out, 0, &ok_read_payload(&42i32.to_le_bytes())).unwrap();
    let data = decode_read_response(&resp, 4).unwrap();
    assert_eq!(data, 42i32.to_le_bytes());

    let req = received(&out);
    assert_eq!(req.header.cmd_id, CMD_READ);
    assert_eq!(req.header.state_flags, STATE_FLAG_REQUEST);
    assert_eq!(req.header.target.net_id, PLC_NET);
    assert_eq!(req.header.target.port, 851);
    assert_eq!(req.header.source, local());
    let mut r = Reader::new(&req.payload);
    assert_eq!(r.u32().unwrap(), ADSIGRP_SYM_VALBYHND);
    assert_eq!(r.u32().unwrap(), 7);
    assert_eq!(r.u32().unwrap(), 4);
}

#[test]
fn ads_error_in_payload_result_surfaces() {
    let mut client = client();
    let out = client.read(851, ADSIGRP_SYM_VALBYHND, 7, 4).unwrap();
    let mut p = 0x0710u32.to_le_bytes().to_vec();
    p.extend_from_slice(&0u32.to_le_bytes());
    let resp = answered(&mut client, &out, 0, &p).unwrap();
    let err = decode_read_response(&resp, 4).unwrap_err();
    assert_eq!(err.code(), Some(0x0710));
}

#[test]
fn ads_error_in_aoe_header_surfaces() {
    let mut client = client();
    let out = client.read(851, ADSIGRP_SYM_VALBYHND, 7, 4).unwrap();
    let err = answered(&mut client, &out, GLOBALERR_TARGET_PORT, &[]).unwrap_err();
    assert_eq!(err.code(), Some(GLOBALERR_TARGET_PORT));
}

#[test]
fn short_read_is_rejected() {
    let mut client = client();
    let out = client.read(851, ADSIGRP_SYM_VALBYHND, 7, 4).unwrap();
    let resp = answered(&mut client, &out, 0, &ok_read_payload(&[1, 2])).unwrap();
    assert!(matches!(
        decode_read_response(&resp, 4),
        Err(AdsError::ShortRead { need: 4, got: 2 })
    ));
}

#[test]
fn responses_are_correlated_by_invoke_id_out_of_order() {
    let mut client = client();
    let a = client.read(851, ADSIGRP_SYM_VALBYHND, 1, 4).unwrap();
    let b = client.read(851, ADSIGRP_SYM_VALBYHND, 2, 4).unwrap();
    assert_ne!(a.invoke_id, b.invoke_id);
    let second = answered(&mut client, &b, 0, &ok_read_payload(&2i32.to_le_bytes())).unwrap();
    let first = answered(&mut client, &a, 0, &ok_read_payload(&1i32.to_le_bytes())).unwrap();
    let a = decode_read_response(&first, 4).unwrap();
    let b = decode_read_response(&second, 4).unwrap();
    assert_ne!(a, b);
    assert_eq!(a, 1i32.to_le_bytes());
    assert_eq!(b, 2i32.to_le_bytes());
}

fn notification(target: AmsAddr, payload: &[u8]) -> Vec<u8> {
    let header = AoeHeader {
        target,
        source: AmsAddr {
            net_id: PLC_NET,
            port: 851,
        },
        cmd_id: CMD_DEVICE_NOTIFICATION,
        state_flags: STATE_FLAG_REQUEST,
        length: payload.len() as u32,
        error_code: 0,
        invoke_id: 0,
    };
    encode_frame(&header, payload)[AMS_TCP_HEADER_LEN..].to_vec()
}

#[test]
fn notification_frame_reaches_the_handler() {
    let mut client = client();
    let out = client
        .add_notification(851, ADSIGRP_SYM_VALBYHND, 9, 4, 10_000_000, 100_000_000)
        .unwrap();
    let mut p = 0u32.to_le_bytes().to_vec();
    p.extend_from_slice(&0x1234u32.to_le_bytes());
    let resp = answered(&mut client, &out, 0, &p).unwrap();
    assert_eq!(decode_added_notification(&resp).unwrap(), 0x1234);

    let mut body = 1u32.to_le_bytes().to_vec();
    body.extend_from_slice(&123u64.to_le_bytes());
    body.extend_from_slice(&1u32.to_le_bytes());
    body.extend_from_slice(&0x1234u32.to_le_bytes());
    body.extend_from_slice(&4u32.to_le_bytes());
    body.extend_from_slice(&7i32.to_le_bytes());
    let mut payload = (body.len() as u32).to_le_bytes().to_vec();
    payload.extend_from_slice(&body);
    match client.receive(&notification(local(), &payload)) {
        Incoming::Samples(samples) => {
            assert_eq!(samples.len(), 1);
            assert_eq!(samples[0].handle, 0x1234);
            assert_eq!(samples[0].timestamp, 123);
            assert_eq!(samples[0].data, 7i32.to_le_bytes());
        }
        other => panic!("no samples: {other:?}"),
    }
}

#[test]
fn add_notification_converts_times_to_100ns_units() {
    let mut client = client();
    let out = client
        .add_notification(851, 0xF005, 3, 8, 10_000_000, 100_000_000)
        .unwrap();
    let req = received(&out);
    assert_eq!(req.header.cmd_id, CMD_ADD_DEVICE_NOTIFICATION);
    let mut r = Reader::new(&req.payload);
    assert_eq!(r.u32().unwrap(), 0xF005);
    assert_eq!(r.u32().unwrap(), 3);
    assert_eq!(r.u32().unwrap(), 8);
    assert_eq!(r.u32().unwrap(), ADSTRANS_SERVERONCHA);
    assert_eq!(r.u32().unwrap(), 1_000_000, "the delay in 100 ns units");
    assert_eq!(r.u32().unwrap(), 100_000, "the cycle in 100 ns units");
}

#[test]
fn cycle_time_saturates_instead_of_wrapping() {
    assert_eq!(duration_to_100ns(1_000_000_000_000), u32::MAX);
    assert_eq!(duration_to_100ns(10_000_000), 100_000);
    assert_eq!(duration_to_100ns(0), 0);
}

#[test]
fn get_symbol_handle_writes_the_name_and_reads_four_bytes() {
    let mut client = client();
    let out = client.get_symbol_handle(851, "Main.fTest").unwrap();
    let resp = answered(&mut client, &out, 0, &ok_read_payload(&0xABCDu32.to_le_bytes())).unwrap();
    let data = decode_read_response(&resp, 4).unwrap();
    assert_eq!(decode_handle(&data).unwrap(), 0xABCD);

    let req = received(&out);
    assert_eq!(req.header.cmd_id, CMD_READ_WRITE);
    let mut r = Reader::new(&req.payload);
    assert_eq!(r.u32().unwrap(), ADSIGRP_SYM_HNDBYNAME);
    assert_eq!(r.u32().unwrap(), 0);
    assert_eq!(r.u32().unwrap(), 4, "bytes to read");
    assert_eq!(r.u32().unwrap(), 10, "bytes to write");
    assert_eq!(r.bytes(10).unwrap(), b"Main.fTest");
}

#[test]
fn sum_up_read_round_trips_through_read_write() {
    let entries = vec![
        SumEntry {
            index_group: ADSIGRP_SYM_VALBYHND,
            index_offset: 11,
            size: 4,
        },
        SumEntry {
            index_group: ADSIGRP_SYM_VALBYHND,
            index_offset: 22,
            size: 4,
        },
    ];
    let mut client = client();
    let sent = client.sum_up_read(851, &entries).unwrap();
    let mut data = 0u32.to_le_bytes().to_vec();
    data.extend_from_slice(&0x0710u32.to_le_bytes());
    data.extend_from_slice(&7i32.to_le_bytes());
    let resp = answered(&mut client, &sent, 0, &ok_read_payload(&data)).unwrap();
    let raw = decode_read_response_lenient(&resp).unwrap();
    let (out, layout) = decode_response(&raw, &entries).unwrap();
    assert_eq!(layout, DataLayout::Compacted);
    assert_eq!(out[0].as_ref().unwrap(), &7i32.to_le_bytes());
    assert_eq!(out[1].as_ref().unwrap_err().code(), Some(0x0710));

    let req = received(&sent);
    assert_eq!(req.header.cmd_id, CMD_READ_WRITE);
    let mut r = Reader::new(&req.payload);
    assert_eq!(r.u32().unwrap(), ADSIGRP_SUMUP_READ);
    assert_eq!(r.u32().unwrap(), 2, "the number of parts is the offset");
    assert_eq!(r.u32().unwrap(), 2 * 4 + 8, "bytes to read");
    assert_eq!(r.u32().unwrap(), 24, "bytes to write");
    assert_eq!(r.u32().unwrap(), ADSIGRP_SYM_VALBYHND);
    assert_eq!(r.u32().unwrap(), 11);
    assert_eq!(r.u32().unwrap(), 4);
}

#[test]
fn read_state_decodes_both_states() {
    let mut client = client();
    let out = client.read_state(851).unwrap();
    let mut p = 0u32.to_le_bytes().to_vec();
    p.extend_from_slice(&5u16.to_le_bytes());
    p.extend_from_slice(&0u16.to_le_bytes());
    let resp = answered(&mut client, &out, 0, &p).unwrap();
    assert_eq!(decode_state(&resp).unwrap(), (AdsState::Run, 0));
}

#[test]
fn request_after_peer_close_reports_not_connected() {
    let mut client = client();
    client.tear_down();
    assert!(!client.is_connected());
    assert!(matches!(
        client.read(851, ADSIGRP_SYM_VALBYHND, 1, 4),
        Err(AdsError::NotConnected)
    ));
}

#[test]
fn in_flight_request_is_woken_when_the_socket_dies() {
    let mut client = client();
    let out = client.read(851, ADSIGRP_SYM_VALBYHND, 1, 4).unwrap();
    assert_eq!(client.tear_down(), vec![out.invoke_id]);
    assert!(matches!(
        client.read(851, ADSIGRP_SYM_VALBYHND, 1, 4),
        Err(AdsError::NotConnected)
    ));
}

#[test]
fn unanswered_request_times_out_and_frees_its_slot() {
    let mut client = client();
    let out = client.read(851, ADSIGRP_SYM_VALBYHND, 1, 4).unwrap();
    assert!(client.forget(out.invoke_id));
    assert!(!client.forget(out.invoke_id), "the slot is free");
    let late = reply(&received(&out).header, 0, &ok_read_payload(&[1, 2, 3, 4]));
    assert_eq!(client.receive(&late), Incoming::Ignored);
}

#[test]
fn disconnect_handler_fires_once_on_socket_loss() {
    let mut client = client();
    let out = client.read(851, ADSIGRP_SYM_VALBYHND, 1, 4).unwrap();
    assert_eq!(client.tear_down(), vec![out.invoke_id]);
    assert!(client.tear_down().is_empty());
    assert!(!client.is_connected());
}

#[test]
fn a_reply_is_delivered_once() {
    let mut client = client();
    let out = client.read(851, ADSIGRP_SYM_VALBYHND, 1, 4).unwrap();
    let body = reply(&received(&out).header, 0, &ok_read_payload(&[1, 2, 3, 4]));
    assert!(matches!(client.receive(&body), Incoming::Response { .. }));
    assert_eq!(client.receive(&body), Incoming::Ignored);
}

#[test]
fn a_frame_shorter_than_its_header_loses_the_stream() {
    let mut client = client();
    assert_eq!(client.receive(&[0u8; 31]), Incoming::Lost);
    assert_eq!(body_length(&[0, 0, 31, 0, 0, 0]), None);
    assert_eq!(body_length(&[0, 0, 32, 0, 0, 0]), Some(32));
}

#[test]
fn an_unset_local_address_follows_the_socket() {
    let unset = AmsAddr {
        net_id: AmsNetId([0; 6]),
        port: LOCAL_PORT_BASE,
    };
    let derived = local_address(unset, Some([10, 0, 0, 5])).unwrap();
    assert_eq!(derived, local());
    assert_eq!(local_address(local(), Some([1, 2, 3, 4])), Some(local()));
}
