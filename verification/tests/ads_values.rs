//! Values on their way to a PLC and back.

use ioc_drivers::param::{InterfaceType, ParamValue};
use ioc_drivers::twincat::ads::client::{
    decode_device_info, decode_read_response, decode_status, AdsClient, Outgoing,
};
use ioc_drivers::twincat::ads::defs::{
    AdsVersion, AmsAddr, AmsNetId, ADSIGRP_SYM_VALBYHND, CMD_READ, CMD_READ_DEVICE_INFO, CMD_WRITE,
    LOCAL_PORT_BASE,
};
use ioc_drivers::twincat::ads::frame::{AoeHeader, AMS_TCP_HEADER_LEN, AOE_HEADER_LEN};
use ioc_drivers::twincat::driver::bind::BindType;
use ioc_drivers::twincat::driver::write::{WritePlan, WriteRefusal};
use ioc_drivers::twincat::driver::{AdsConfig, AdsShared, INVALID_ALARM, WRITE_ALARM};
use ioc_drivers::twincat::time::UnixTime;

const NOW: UnixTime = UnixTime { secs: 1, nanos: 2 };

fn bound(link: &str, iface: InterfaceType) -> (AdsShared, usize) {
    let mut d = AdsShared::new(AdsConfig::new(
        "ADS1",
        "10.0.0.1",
        AmsNetId([10, 0, 0, 1, 1, 1]),
        851,
    ));
    let plan = d.plan_bind(link, Some(iface), false).unwrap();
    let BindType::Known(t) = plan.need else {
        panic!("{:?}", plan.need);
    };
    let reason = d.params.len();
    d.bind(reason, plan.info, 0, Some(iface), t, false, NOW);
    d.params[reason].as_mut().unwrap().is_array = true;
    (d, reason)
}

fn sent(d: &mut AdsShared, reason: usize, plan: Result<WritePlan, WriteRefusal>) -> Vec<u8> {
    let plan = plan.unwrap();
    let data = match &plan {
        WritePlan::Write { data, .. } => data.clone(),
        other => panic!("{other:?}"),
    };
    let (done, heard) = d.write_done(reason, &plan, Ok(()), NOW);
    assert!(done.is_ok() && heard.is_some());
    data
}

#[test]
fn a_written_array_reads_back() {
    let (mut d, r) = bound(".ADR.16#4020,16#0,3,16?", InterfaceType::Int8Array);
    let plan = d.write_int8_array(r, &[-1, 0, 127], true, NOW);
    assert_eq!(sent(&mut d, r, plan), vec![0xff, 0, 0x7f]);
    assert_eq!(d.read_int8_array(r, 8).unwrap(), vec![-1, 0, 127]);

    let (mut d, r) = bound(".ADR.16#4020,16#0,4,2?", InterfaceType::Int16Array);
    let plan = d.write_int16_array(r, &[-2, 0x1234], true, NOW);
    assert_eq!(sent(&mut d, r, plan), vec![0xfe, 0xff, 0x34, 0x12]);
    assert_eq!(d.read_int16_array(r, 8).unwrap(), vec![-2, 0x1234]);

    let (mut d, r) = bound(".ADR.16#4020,16#0,8,3?", InterfaceType::Int32Array);
    let plan = d.write_int32_array(r, &[i32::MIN, 7], true, NOW);
    assert_eq!(sent(&mut d, r, plan), vec![0, 0, 0, 0x80, 7, 0, 0, 0]);
    assert_eq!(d.read_int32_array(r, 8).unwrap(), vec![i32::MIN, 7]);

    let (mut d, r) = bound(".ADR.16#4020,16#0,4,4?", InterfaceType::Float32Array);
    let plan = d.write_float32_array(r, &[1.5f32.to_bits()], true, NOW);
    assert_eq!(sent(&mut d, r, plan), 1.5f32.to_le_bytes());
    assert_eq!(d.read_float32_array(r, 8).unwrap(), vec![1.5f32.to_bits()]);

    let (mut d, r) = bound(".ADR.16#4020,16#0,16,5?", InterfaceType::Float64Array);
    let plan = d.write_float64_array(r, &[1.5f64.to_bits(), 0, 9], true, NOW);
    assert_eq!(sent(&mut d, r, plan).len(), 16);
    assert_eq!(
        d.read_float64_array(r, 8).unwrap(),
        vec![1.5f64.to_bits(), 0]
    );
}

#[test]
fn an_array_of_another_type_is_refused_with_an_alarm() {
    let (mut d, r) = bound(".ADR.16#4020,16#0,16,5?", InterfaceType::Float64Array);
    let refusal = d.write_int16_array(r, &[1], true, NOW).unwrap_err();
    assert!(refusal.message.contains("is not supported"));
    let alarm = d.params[r].as_ref().unwrap().alarm;
    assert_eq!(alarm, (WRITE_ALARM, INVALID_ALARM));
    assert!(d.write_int8_array(99, &[1], true, NOW).is_err());
    let refusal = d.write_float64_array(r, &[0], false, NOW).unwrap_err();
    assert!(refusal.interrupt.is_none());
}

#[test]
fn a_written_string_reads_back_as_far_as_there_is_room() {
    let (mut d, r) = bound(".ADR.16#4020,16#0,5,30?", InterfaceType::Octet);
    let (plan, kept) = d.write_string(r, b"hello", true, NOW);
    assert_eq!(kept, 4);
    assert_eq!(sent(&mut d, r, plan), b"hell\0");
    assert_eq!(d.read_string(r, 80).unwrap(), b"hell");
    let (plan, kept) = d.write_string(r, b"ab", true, NOW);
    assert_eq!(kept, 2);
    assert_eq!(sent(&mut d, r, plan), b"ab\0\0\0");
    assert!(
        matches!(&d.params[r].as_ref().unwrap().value, ParamValue::Octet(s) if s == "ab")
    );
}

fn header(out: &Outgoing) -> (u16, Vec<u8>) {
    let body = &out.frame[AMS_TCP_HEADER_LEN..];
    (
        AoeHeader::decode(body).unwrap().cmd_id,
        body[AOE_HEADER_LEN..].to_vec(),
    )
}

#[test]
fn a_handle_is_the_offset_of_the_value_group() {
    let mut c = AdsClient::new(
        AmsAddr {
            net_id: AmsNetId([1; 6]),
            port: LOCAL_PORT_BASE,
        },
        AmsNetId([2; 6]),
    );
    let (cmd, payload) = header(&c.read_by_handle(851, 7, 4).unwrap());
    assert_eq!(cmd, CMD_READ);
    assert_eq!(&payload[..4], &ADSIGRP_SYM_VALBYHND.to_le_bytes());
    assert_eq!(&payload[4..8], &7u32.to_le_bytes());
    let (cmd, payload) = header(&c.write_by_handle(851, 7, &[1, 2]).unwrap());
    assert_eq!(cmd, CMD_WRITE);
    assert_eq!(&payload[12..], &[1, 2]);
    let (cmd, payload) = header(&c.read_device_info(851).unwrap());
    assert_eq!(cmd, CMD_READ_DEVICE_INFO);
    assert!(payload.is_empty());
}

#[test]
fn device_info_is_a_version_and_a_padded_name() {
    let mut reply = vec![0, 0, 0, 0, 3, 1, 0x34, 0x12];
    reply.extend_from_slice(b"Plc30 App\0\0\0\0\0\0\0");
    assert_eq!(
        decode_device_info(&reply).unwrap(),
        (
            "Plc30 App".to_string(),
            AdsVersion {
                version: 3,
                revision: 1,
                build: 0x1234,
            }
        )
    );
    assert!(decode_device_info(&reply[..10]).is_err());
    assert!(decode_status(&[0, 0, 0, 0]).is_ok());
    assert!(decode_status(&[6, 0, 0, 0]).is_err());
    assert!(decode_read_response(&[0, 0, 0, 0, 1, 0, 0, 0, 9], 2).is_err());
}
