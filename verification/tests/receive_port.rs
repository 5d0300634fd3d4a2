//! The receiving port of a robot.

use ioc_drivers::param::ParamType;
use ioc_drivers::ur::drivers::receive::{
    alarm_targets, attempted, connect_or_reconnect, poll, publish, wants_attempt, write_int32,
    Backoff, ConnectStep, ReceiveAction, ReceiveParams, NUM_JOINTS,
};
use ioc_drivers::ur::drivers::{
    by_addr, health_transition, is_alive, Link, Published, Scale, Update, STALE_AFTER_MS,
};
use ioc_drivers::ur::registry::ReceiveState;
use ioc_drivers::ur::state::{RobotValues, Value};
use ioc_drivers::ur::stream::Snapshot;

#[test]
fn backoff_escalates_to_the_cap_and_resets() {
    let mut b = Backoff::new();
    let t0: u64 = 7_000;
    assert!(b.due(t0), "first attempt is immediate");

    b.failed(t0);
    assert!(!b.due(t0 + 999));
    assert!(b.due(t0 + 1000));

    b.failed(t0);
    assert!(!b.due(t0 + 1999));
    assert!(b.due(t0 + 2000));

    b.failed(t0);
    assert!(b.due(t0 + 5000));
    b.failed(t0);
    assert!(!b.due(t0 + 4999));
    assert!(b.due(t0 + 5000));

    b.reset();
    assert!(b.due(t0), "reset restores the immediate first attempt");
}

fn snapshot(values: Vec<(&str, Value)>) -> Snapshot {
    let mut all = RobotValues::new();
    for (name, value) in values {
        all.insert(name.to_string(), value);
    }
    Snapshot::new(all)
}

fn doubles(values: &[f64]) -> Value {
    Value::Doubles(values.iter().map(|v| v.to_bits()).collect())
}

fn scaled(bits: u64, scale: Scale, index: usize) -> f64 {
    let v = f64::from_bits(bits);
    match scale {
        Scale::Raw => v,
        Scale::RadiansToDegrees => v.to_degrees(),
        Scale::DegreesToRadians => v.to_radians(),
        Scale::MetresToMm => v * 1000.0,
        Scale::MmToMetres => v / 1000.0,
        Scale::PoseToMm => {
            if index < 3 {
                v * 1000.0
            } else {
                v
            }
        }
    }
}

fn array(updates: &[Update<ReceiveParams>], want: ReceiveParams) -> Option<Vec<f64>> {
    updates.iter().find_map(|u| match &u.value {
        Published::Float64Array(v, scale) if u.param == want => Some(
            v.iter()
                .enumerate()
                .map(|(i, b)| scaled(*b, *scale, i))
                .collect(),
        ),
        _ => None,
    })
}

#[test]
fn joint_positions_are_published_in_degrees_per_addr_and_as_an_array() {
    let updates = publish(&snapshot(vec![(
        "actual_q",
        doubles(&[
            0.0,
            std::f64::consts::FRAC_PI_2,
            -std::f64::consts::PI,
            0.0,
            0.0,
            0.0,
        ]),
    )]));

    let per_addr: Vec<(i32, f64)> = updates
        .iter()
        .filter_map(|u| match u.value {
            Published::Float64(v, scale) if u.param == ReceiveParams::ActualJointPos => {
                Some((u.addr, scaled(v, scale, 0)))
            }
            _ => None,
        })
        .collect();
    assert_eq!(per_addr.len(), 6);
    assert!((per_addr[1].1 - 90.0).abs() < 1e-9);
    assert!((per_addr[2].1 + 180.0).abs() < 1e-9);

    let arr = array(&updates, ReceiveParams::ActualJointPosArr).expect("joint position array");
    assert_eq!(arr.len(), 6);
    assert!((arr[1] - 90.0).abs() < 1e-9);
}

#[test]
fn tcp_pose_converts_metres_to_mm_and_passes_rotation_vector_raw() {
    let updates = publish(&snapshot(vec![(
        "actual_TCP_pose",
        doubles(&[0.1, -0.2, 0.35, std::f64::consts::PI, 0.0, 0.0]),
    )]));
    let arr = array(&updates, ReceiveParams::ActualTcpPoseArr).expect("TCP pose array");
    assert!((arr[0] - 100.0).abs() < 1e-9);
    assert!((arr[1] + 200.0).abs() < 1e-9);
    assert!((arr[2] - 350.0).abs() < 1e-9);
    assert!((arr[3] - std::f64::consts::PI).abs() < 1e-9);
}

#[test]
fn safety_status_bits_are_masked_to_11_bits() {
    let updates = publish(&snapshot(vec![(
        "safety_status_bits",
        Value::Uint32(0xffff_f801),
    )]));
    let bits = updates
        .iter()
        .find_map(|u| match u.value {
            Published::Int32(v) if u.param == ReceiveParams::SafetyStatusBits => Some(v),
            _ => None,
        })
        .expect("safety status bits");
    assert_eq!(bits, 0x001);
}

#[test]
fn a_snapshot_without_the_register_block_still_publishes_the_rest() {
    let updates = publish(&snapshot(vec![(
        "timestamp",
        Value::Double(3.5f64.to_bits()),
    )]));
    assert!(updates.iter().any(|u| matches!(
        u.value,
        Published::Float64(v, scale)
            if u.param == ReceiveParams::ControllerTimestamp
                && (scaled(v, scale, 0) - 3.5).abs() < 1e-9
    )));
    assert!(!updates
        .iter()
        .any(|u| matches!(u.value, Published::Int32(_))
            && u.param == ReceiveParams::OutputIntegerReg12));
}

#[test]
fn every_update_is_flushed_under_its_own_address() {
    let updates = publish(&snapshot(vec![
        ("timestamp", Value::Double(3.5f64.to_bits())),
        ("actual_q", doubles(&[0.0, 0.1, 0.2, 0.3, 0.4, 0.5])),
        ("actual_TCP_pose", doubles(&[0.1, 0.2, 0.3, 0.4, 0.5, 0.6])),
    ]));
    let total = updates.len();

    let batches = by_addr(updates);
    assert_eq!(
        batches.iter().map(|(a, _)| *a).collect::<Vec<_>>(),
        (0..NUM_JOINTS as i32).collect::<Vec<_>>(),
        "one flush per address, address 0 first"
    );
    assert_eq!(batches.iter().map(|(_, b)| b.len()).sum::<usize>(), total);
    for (addr, batch) in &batches {
        assert!(batch.iter().all(|u| u.addr == *addr));
    }
}

#[test]
fn a_batch_that_touches_only_address_0_is_one_flush() {
    let batches = by_addr(publish(&snapshot(vec![(
        "timestamp",
        Value::Double(3.5f64.to_bits()),
    )])));
    assert_eq!(batches.len(), 1);
    assert_eq!(batches[0].0, 0);
}

#[test]
fn a_zero_write_to_a_command_is_a_no_op_and_a_one_still_acts() {
    assert_eq!(
        write_int32(ReceiveParams::Disconnect, 0, false, false),
        Ok(ReceiveAction::Nothing)
    );
    assert!(write_int32(ReceiveParams::Disconnect, 1, false, false).is_err());
    assert_eq!(
        write_int32(ReceiveParams::Disconnect, 1, true, true),
        Ok(ReceiveAction::Disconnect)
    );
}

#[test]
fn alarm_set_is_every_readback() {
    let targets = alarm_targets();
    let excluded = [
        ReceiveParams::Disconnect,
        ReceiveParams::Reconnect,
        ReceiveParams::IsConnected,
    ];
    for reason in ReceiveParams::create() {
        let targeted = targets.iter().any(|(r, _)| *r == reason);
        let is_excluded = excluded.contains(&reason);
        assert!(
            targeted != is_excluded,
            "param {reason:?} must be exactly one of: alarm target, exclusion"
        );
    }

    for per_addr in [ReceiveParams::ActualJointPos, ReceiveParams::ActualTcpPose] {
        for addr in 0..NUM_JOINTS as i32 {
            assert!(targets.contains(&(per_addr, addr)));
        }
    }
}

#[test]
fn the_comm_alarm_rides_the_health_transitions_only() {
    let targets = alarm_targets();
    let mut was = true;

    assert!(health_transition(&targets, true, &mut was).is_empty());

    let raise = health_transition(&targets, false, &mut was);
    assert_eq!(raise.len(), targets.len());
    assert!(raise
        .iter()
        .all(|u| matches!(u.value, Published::Alarm(Link::Lost))));
    assert!(!was, "the edge is consumed");

    assert!(health_transition(&targets, false, &mut was).is_empty());

    let clear = health_transition(&targets, true, &mut was);
    assert_eq!(clear.len(), targets.len());
    assert!(clear
        .iter()
        .all(|u| matches!(u.value, Published::Alarm(Link::Restored))));
    assert!(was);
}

#[test]
fn the_two_link_commands_are_commands_and_the_readbacks_are_not() {
    assert!(ReceiveParams::Disconnect.is_command());
    assert!(ReceiveParams::Reconnect.is_command());
    for reason in [
        ReceiveParams::IsConnected,
        ReceiveParams::RuntimeState,
        ReceiveParams::ControllerTimestamp,
        ReceiveParams::ActualJointPos,
        ReceiveParams::OutputIntegerReg12,
    ] {
        assert!(!reason.is_command());
    }
}

#[test]
fn a_lost_link_is_tried_again_after_the_pause() {
    let mut b = Backoff::new();
    assert!(wants_attempt(&mut b, false, 10_000));
    attempted(&mut b, false, 10_000);
    assert!(!wants_attempt(&mut b, false, 10_999));
    assert!(wants_attempt(&mut b, false, 11_000));
    attempted(&mut b, false, 11_000);
    assert!(!wants_attempt(&mut b, false, 12_999));
    attempted(&mut b, false, 13_000);
    assert!(!wants_attempt(&mut b, false, 17_999));
    attempted(&mut b, true, 11_000);
    assert!(!wants_attempt(&mut b, true, 11_000));
    assert!(wants_attempt(&mut b, false, 11_000));
}

#[test]
fn a_connection_is_made_mended_or_left() {
    assert_eq!(connect_or_reconnect(false, false), ConnectStep::Connect);
    assert_eq!(connect_or_reconnect(true, false), ConnectStep::Reconnect);
    assert_eq!(connect_or_reconnect(true, true), ConnectStep::Done);
}

#[test]
fn a_poll_shows_the_link_and_shares_the_state() {
    let mut state = ReceiveState::default();
    let snap = snapshot(vec![
        ("safety_status_bits", Value::Uint32(1)),
        ("output_int_register_12", Value::Int32(4)),
    ]);
    let targets = alarm_targets();
    let mut was = false;
    let updates = poll(Some(&snap), &mut state, &targets, &mut was);
    assert!(was);
    assert!(updates
        .iter()
        .any(|u| matches!(u.value, Published::Alarm(Link::Restored))));
    assert!(!poll(Some(&snap), &mut state, &targets, &mut was)
        .iter()
        .any(|u| matches!(u.value, Published::Alarm(_))));
    assert!(updates
        .iter()
        .any(|u| u.param == ReceiveParams::IsConnected && u.value == Published::Int32(1)));
    assert_eq!(
        (
            state.connected,
            state.safety_status_bits,
            state.output_int_register_12
        ),
        (true, 1, 4)
    );
    let updates = poll(None, &mut state, &targets, &mut was);
    assert!(!was);
    assert_eq!(updates.len(), 1 + targets.len());
    assert_eq!(updates[0].value, Published::Int32(0));
    assert!(updates[1..]
        .iter()
        .all(|u| matches!(u.value, Published::Alarm(Link::Lost))));
    assert_eq!(poll(None, &mut state, &targets, &mut was).len(), 1);
    assert!(!state.connected);
}

#[test]
fn a_stream_without_fresh_data_is_not_alive() {
    assert!(is_alive(true, 999, STALE_AFTER_MS));
    assert!(!is_alive(true, 1000, STALE_AFTER_MS));
    assert!(!is_alive(false, 0, STALE_AFTER_MS));
}

#[test]
fn parameters_have_names_and_types() {
    assert_eq!(ReceiveParams::IsConnected.name(), "IS_CONNECTED");
    assert_eq!(ReceiveParams::IsConnected.param_type(), ParamType::Int32);
    assert_eq!(
        ReceiveParams::ActualJointPos.param_type(),
        ParamType::Float64
    );
}
