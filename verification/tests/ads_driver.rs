//! The state of a port: its parameters, its bulk reads and its command channel.

use ioc_drivers::param::{InterfaceType, InterruptValue, ParamType, ParamValue};
use ioc_drivers::twincat::ads::defs::{AdsState, AdsType, AmsNetId, ADSIGRP_MEMORY_BYTE};
use ioc_drivers::twincat::ads::error::AdsError;
use ioc_drivers::twincat::convert::WriteValue;
use ioc_drivers::twincat::driver::bind::BindType;
use ioc_drivers::twincat::driver::command::{
    command_informed, command_line, command_read, octet_command, reply_line, OctetStep,
};
use ioc_drivers::twincat::driver::refresh::{RefreshAction, RefreshEvent};
use ioc_drivers::twincat::driver::supervise::LinkStep;
use ioc_drivers::twincat::driver::write::WritePlan;
use ioc_drivers::twincat::driver::{
    param_type_for, AdsConfig, AdsShared, Feed, COMM_ALARM, INVALID_ALARM, NO_ALARM_SEV, READ_ALARM,
};
use ioc_drivers::twincat::ads::symbol::SymbolEntry;
use ioc_drivers::twincat::drvinfo::DataSource;
use ioc_drivers::twincat::time::{
    windows_to_system_time, UnixTime, SEC_TO_UNIX_EPOCH, WINDOWS_TICK_PER_SEC,
};

const NOW: UnixTime = UnixTime {
    secs: 1_700_000_000,
    nanos: 5,
};

fn config() -> AdsConfig {
    AdsConfig::new("ADS1", "10.0.0.1", AmsNetId([10, 0, 0, 1, 1, 1]), 851)
}

fn driver() -> AdsShared {
    AdsShared::new(config())
}

fn bind(d: &mut AdsShared, drv_info: &str, iface: InterfaceType) -> usize {
    if let Some(reason) = d.find_param(drv_info) {
        return reason;
    }
    let plan = d.plan_bind(drv_info, Some(iface), false).unwrap();
    let param_type = match plan.need {
        BindType::Known(t) => t,
        other => panic!("{other:?}"),
    };
    let reason = d.params.len();
    d.bind(reason, plan.info, 0, Some(iface), param_type, false, NOW);
    reason
}

#[test]
fn an_adr_link_carries_its_own_plc_type_and_size() {
    let mut d = driver();
    let reason = bind(
        &mut d,
        "ADSPORT=851/.ADR.16#4020,16#0,8,5?",
        InterfaceType::Float64,
    );
    let p = d.params[reason].as_ref().unwrap();
    assert_eq!(p.plc_type, AdsType::Real64);
    assert_eq!(p.plc_size, 8);
    assert_eq!(p.param_type, ParamType::Float64);
    assert!(p.info.has_input);
}

#[test]
fn a_sample_lands_in_the_cache_and_fires_one_typed_interrupt() {
    let mut d = driver();
    let reason = bind(
        &mut d,
        "ADSPORT=851/.ADR.16#4020,16#0,8,5?",
        InterfaceType::Float64,
    );
    let iv = d.publish(reason, &2.5f64.to_le_bytes(), 0, NOW).unwrap();
    assert!(matches!(iv.value, ParamValue::Float64(v) if f64::from_bits(v) == 2.5));
    assert_eq!(iv.reason, reason);
    assert_eq!(iv.iface, Some(InterfaceType::Float64));
    assert_eq!(iv.alarm_severity, NO_ALARM_SEV);
    assert_eq!(f64::from_bits(d.read_float64(reason).unwrap()), 2.5);
}

#[test]
fn a_sample_of_the_wrong_width_alarms_rather_than_decoding_garbage() {
    let mut d = driver();
    let reason = bind(
        &mut d,
        "ADSPORT=851/.ADR.16#4020,16#0,8,5?",
        InterfaceType::Float64,
    );
    d.publish(reason, &[1, 2, 3], 0, NOW);

    let p = d.params[reason].as_ref().unwrap();
    assert_eq!(p.alarm, (READ_ALARM, INVALID_ALARM));
    assert!(matches!(p.value, ParamValue::Undefined));
}

#[test]
fn timebase_plc_stamps_the_sample_with_the_plc_clock() {
    let mut d = driver();
    let plc = bind(
        &mut d,
        "TIMEBASE=PLC/.ADR.16#4020,16#0,4,3?",
        InterfaceType::Int32,
    );
    let epics = bind(
        &mut d,
        "TIMEBASE=EPICS/.ADR.16#4020,16#0,4,3?",
        InterfaceType::Int32,
    );

    let ticks = (1_577_836_800u64 + SEC_TO_UNIX_EPOCH) * WINDOWS_TICK_PER_SEC;
    d.publish(plc, &7i32.to_le_bytes(), ticks, NOW);
    d.publish(epics, &7i32.to_le_bytes(), ticks, NOW);

    assert_eq!(
        d.params[plc].as_ref().unwrap().timestamp,
        windows_to_system_time(ticks).unwrap()
    );
    assert_eq!(d.params[epics].as_ref().unwrap().timestamp, NOW);
}

#[test]
fn an_array_sample_is_served_element_wise_not_byte_wise() {
    let mut d = driver();
    let reason = bind(
        &mut d,
        ".ADR.16#4020,16#0,40,5?",
        InterfaceType::Float64Array,
    );
    let bytes: Vec<u8> = (0..5).flat_map(|i| (i as f64).to_le_bytes()).collect();
    d.params[reason].as_mut().unwrap().is_array = true;
    d.publish(reason, &bytes, 0, NOW);

    let got = d.read_float64_array(reason, 8).unwrap();
    let got: Vec<f64> = got.iter().map(|v| f64::from_bits(*v)).collect();
    assert_eq!(got.len(), 5);
    assert_eq!(got, [0.0, 1.0, 2.0, 3.0, 4.0]);
}

#[test]
fn the_command_channel_hands_out_its_reply_once() {
    let mut d = driver();
    d.push_reply("1.500000;OK");

    assert_eq!(d.drain_replies(4), b"1.50");
    assert_eq!(d.drain_replies(32), b"0000;OK");
    assert_eq!(d.drain_replies(32).len(), 0);
}

#[test]
fn a_reply_cut_inside_a_character_goes_on_with_a_replacement() {
    let mut d = driver();
    d.push_reply("a\u{e9}b");
    assert_eq!(d.drain_replies(2), [b'a', 0xC3]);
    assert_eq!(d.drain_replies(32), "\u{fffd}b".as_bytes());
    d.push_reply("\u{e9}b");
    assert_eq!(d.drain_replies(2), "\u{e9}".as_bytes());
    assert_eq!(d.drain_replies(2), b"b");
}

#[test]
fn a_new_link_gives_new_slots() {
    let mut d = driver();
    let a = bind(
        &mut d,
        "POLL_RATE=1.0/.ADR.16#4020,16#0,4,3?",
        InterfaceType::Int32,
    );
    let b = bind(
        &mut d,
        "POLL_RATE=1.0/.ADR.16#4020,16#4,4,3?",
        InterfaceType::Int32,
    );
    d.add_to_bulk(a, None).unwrap();
    d.add_to_bulk(b, None).unwrap();
    d.disconnect(NOW);
    d.add_to_bulk(b, None).unwrap();
    d.add_to_bulk(a, None).unwrap();
    d.add_to_bulk(b, None).unwrap();
    let requests = d.bulk_requests();
    assert_eq!(requests.len(), 1);
    assert_eq!(requests[0].reasons, vec![None, None, Some(b), Some(a)]);
    assert_eq!(requests[0].entries[2].index_offset, 4);
    assert_eq!(requests[0].entries[3].index_offset, 0);
}

#[test]
fn the_ams_port_state_is_a_driver_parameter_not_a_plc_variable() {
    let mut d = driver();
    let reason = bind(&mut d, "ADSPORT=852/.AMSPORTSTATE.?", InterfaceType::Int32);
    {
        let p = d.params[reason].as_ref().unwrap();
        assert_eq!(p.info.data_source, DataSource::AmsState);
        assert!(!p.refresh_needed);
    }
    d.publish(reason, &AdsState::Run.to_u16().to_le_bytes(), 0, NOW);
    assert_eq!(d.read_int32(reason).unwrap(), AdsState::Run.to_u16() as i32);

    let port = d.ports.iter().find(|p| p.ams_port == 852).unwrap();
    assert_eq!(port.state_param, Some(reason));
}

#[test]
fn a_dropped_connection_invalidates_every_handle_of_that_ams_port() {
    let mut d = driver();
    let reason = bind(
        &mut d,
        "ADSPORT=851/.ADR.16#4020,16#0,4,3?",
        InterfaceType::Int32,
    );
    {
        let p = d.params[reason].as_mut().unwrap();
        p.handle = Some(0x1234);
        p.notification = Some(7);
        p.refresh_needed = false;
    }
    d.note_subscription(7, reason);

    d.invalidate_ams_port(851, NOW);

    let p = d.params[reason].as_ref().unwrap();
    assert_eq!(p.handle, None);
    assert_eq!(p.notification, None);
    assert!(p.refresh_needed);
    assert_eq!(p.alarm, (COMM_ALARM, INVALID_ALARM));
    assert!(d.notifications.is_empty());
}

#[test]
fn a_bulk_read_group_starts_with_the_two_plc_clock_slots() {
    let mut d = driver();
    let a = bind(
        &mut d,
        "POLL_RATE=1.0/.ADR.16#4020,16#0,4,3?",
        InterfaceType::Int32,
    );
    let b = bind(
        &mut d,
        "POLL_RATE=1.0/.ADR.16#4020,16#4,8,5?",
        InterfaceType::Float64,
    );
    d.add_to_bulk(a, None).unwrap();
    d.add_to_bulk(b, None).unwrap();

    assert_eq!(d.bulk.len(), 1);
    let requests = d.bulk_requests();
    let g = &requests[0];
    assert_eq!(g.entries.len(), 4);
    assert_eq!(g.entries[0].index_group, ADSIGRP_MEMORY_BYTE);
    assert_eq!(g.entries[1].index_group, ADSIGRP_MEMORY_BYTE);
    assert_eq!(g.reasons, vec![None, None, Some(a), Some(b)]);
    assert_eq!(g.entries[3].size, 8);
}

#[test]
fn re_binding_the_same_drvinfo_reuses_the_parameter() {
    let mut d = driver();
    let first = bind(&mut d, ".ADR.16#4020,16#0,4,3?", InterfaceType::Int32);
    let second = bind(&mut d, ".ADR.16#4020,16#0,4,3?", InterfaceType::Int32);
    assert_eq!(first, second);
    assert_ne!(first, 0);
    assert_eq!(d.params.len(), first + 1);
}

#[test]
fn interface_maps_to_the_c_dtyp_table() {
    assert_eq!(param_type_for(InterfaceType::Int32), Some(ParamType::Int32));
    assert_eq!(
        param_type_for(InterfaceType::Float32Array),
        Some(ParamType::Float32Array)
    );
    assert_eq!(param_type_for(InterfaceType::Octet), Some(ParamType::Octet));
    assert_eq!(param_type_for(InterfaceType::UInt32Digital), None);
    assert_eq!(param_type_for(InterfaceType::Enum), None);
    assert_eq!(param_type_for(InterfaceType::GenericPointer), None);
}

#[test]
fn bulk_period_never_polls_faster_than_1hz() {
    let mut cfg = AdsConfig::new("ADS", "10.0.0.1", AmsNetId([10, 0, 0, 1, 1, 1]), 851);
    cfg.default_sample_time_ms = 100.0f64.to_bits();
    assert_eq!(cfg.bulk_period(), 1000);
    cfg.default_sample_time_ms = 2500.0f64.to_bits();
    assert_eq!(cfg.bulk_period(), 2500);
}

#[test]
fn a_port_driver_reserves_reason_0_for_the_command_channel() {
    let driver = driver();
    assert_eq!(driver.find_param("Default access"), Some(0));
    assert_eq!(driver.params.len(), 1);
}

#[test]
fn a_sample_finds_its_parameter_by_its_subscription() {
    let mut d = driver();
    let reason = bind(&mut d, ".ADR.16#4020,16#0,4,3?", InterfaceType::Int32);
    d.note_subscription(7, reason);
    let iv: InterruptValue = d.on_notification(7, 0, &9i32.to_le_bytes(), NOW).unwrap();
    assert_eq!(iv.value, ParamValue::Int32(9));
    d.forget_subscription(7);
    assert!(d.on_notification(7, 0, &9i32.to_le_bytes(), NOW).is_none());
}

#[test]
fn a_symbol_is_resolved_subscribed_and_settled() {
    let mut d = driver();
    let plan = d
        .plan_bind("Main.fTest?", Some(InterfaceType::Float64), true)
        .unwrap();
    assert!(matches!(plan.need, BindType::Known(ParamType::Float64)));
    let resolve = d.bind(
        1,
        plan.info,
        0,
        Some(InterfaceType::Float64),
        ParamType::Float64,
        true,
        NOW,
    );
    assert!(resolve);
    let (mut job, first) = d.refresh_param(1, true);
    assert!(
        matches!(first, Ok(RefreshAction::AskInfo { ams_port: 851, ref name }) if name == "Main.fTest")
    );
    let next = d.refresh_step(&mut job, RefreshEvent::Info(Ok((AdsType::Real64, 8))), NOW);
    assert!(matches!(next, Ok(RefreshAction::AskHandle { .. })), "{next:?}");
    let next = d.refresh_step(&mut job, RefreshEvent::Handle(Ok(0x55)), NOW);
    assert!(matches!(next, Ok(RefreshAction::Subscribe { .. })), "{next:?}");
    let next = d.refresh_step(&mut job, RefreshEvent::Subscribed(Ok(9)), NOW);
    assert!(matches!(next, Ok(RefreshAction::Read { .. })), "{next:?}");
    let sample = 4.25f64.to_le_bytes().to_vec();
    let next = d.refresh_step(&mut job, RefreshEvent::Sample(Ok(sample)), NOW);
    assert!(matches!(next, Ok(RefreshAction::Done(Some(_)))), "{next:?}");
    let p = d.params[1].as_ref().unwrap();
    assert!(!p.refresh_needed);
    assert_eq!((p.handle, p.notification), (Some(0x55), Some(9)));
    assert_eq!(f64::from_bits(d.read_float64(1).unwrap()), 4.25);
}

#[test]
fn a_write_takes_its_value_at_once_and_alarms_when_it_fails() {
    let mut d = driver();
    let reason = bind(&mut d, ".ADR.16#4020,16#8,2,2?", InterfaceType::Int32);
    let plan = d.write_scalar(reason, WriteValue::Int(-2), true, NOW).unwrap();
    match &plan {
        WritePlan::Write {
            ams_port,
            index_group,
            index_offset,
            data,
        } => {
            assert_eq!((*ams_port, *index_group, *index_offset), (851, 0x4020, 8));
            assert_eq!(data, &(-2i16).to_le_bytes());
        }
        other => panic!("{other:?}"),
    }
    let (r, iv) = d.write_done(reason, &plan, Ok(()), NOW);
    assert!(r.is_ok() && iv.is_some());
    assert_eq!(d.read_int32(reason).unwrap(), -2);
    let (r, _) = d.write_done(reason, &plan, Err(AdsError::Timeout), NOW);
    assert!(r.is_err());
    assert_eq!(d.params[reason].as_ref().unwrap().alarm.1, INVALID_ALARM);
}

fn run(cmd: &str) -> String {
    let (c, step) = octet_command(cmd, 851, true).unwrap();
    match step {
        OctetStep::Reply(t) => t,
        OctetStep::AskInfo { .. } => {
            let info = SymbolEntry {
                index_group: 0x4040,
                index_offset: 8,
                size: 4,
                data_type: AdsType::Int32,
                flags: 0,
                name: "Main.n".into(),
                plc_type: "DINT".into(),
                comment: String::new(),
            };
            match command_informed(&c, &info) {
                OctetStep::Read { .. } => command_read(&c, Some(&info), &77i32.to_le_bytes()),
                OctetStep::Write { data, .. } => format!("{data:?}"),
                other => panic!("{other:?}"),
            }
        }
        other => panic!("{other:?}"),
    }
}

#[test]
fn a_line_of_commands_is_answered_in_its_own_form() {
    let line = command_line(b"Main.n?;.THIS.sFeatures?\r\n");
    let replies: Vec<String> = line.commands.iter().map(|(c, _)| run(c)).collect();
    assert_eq!(reply_line(&line, &replies), "77;ads\r\n");
    assert_eq!(run("Main.n=5"), "[5, 0, 0, 0]");
}

#[test]
fn without_a_link_a_pass_ends_with_nothing_left() {
    let mut d = driver();
    let reason = bind(
        &mut d,
        "POLL_RATE=1.0/.ADR.16#4020,16#0,4,3?",
        InterfaceType::Int32,
    );
    d.add_to_bulk(reason, None).unwrap();
    d.disconnect(NOW);
    assert!(d.bulk.is_empty());
    assert!(d.notifications.is_empty());
    let p = d.params[reason].as_ref().unwrap();
    assert!(p.refresh_needed);
    assert!(matches!(p.feed, Feed::Bulk(0, 2)), "the mark stays");
    assert!(d
        .report(false)
        .iter()
        .any(|l| l.ends_with(", bulk read")));
    let (step, _) = d.begin_pass(false, false, NOW);
    assert!(matches!(step, LinkStep::Connect | LinkStep::Wait));
}

#[test]
fn the_poll_of_a_port_shows_its_state() {
    let mut d = driver();
    let reason = bind(&mut d, ".AMSPORTSTATE.?", InterfaceType::Int32);
    let report = d.port_polled(851, Ok(AdsState::Run), NOW);
    assert!(report.connected);
    assert_eq!(d.read_int32(reason).unwrap(), AdsState::Run.to_u16() as i32);
}
