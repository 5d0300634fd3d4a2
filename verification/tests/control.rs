//! Commands to the control script, and the handshake with it.

use ioc_drivers::ur::control::handshake::{
    after_send, after_send_stream, refused, step, Phase, Step,
};
use ioc_drivers::ur::control::{
    clear_command, force_mode, force_mode_stop, get_inverse_kinematics, is_stopped_by_safety,
    kick_watchdog, move_j, move_l, move_until_contact, servo_j, servo_stop, speed_j, stop_j,
    stop_script, zero_ft_sensor, AsyncOperationStatus, ControlInterface, StreamCommand, JOINT_ACCELERATION_MAX, JOINT_VELOCITY_MAX,
    RECIPE_ASYNC_SETP, RECIPE_COUNT, RECIPE_FORCE_MODE, RECIPE_FORCE_MODE_PARAMETERS,
    RECIPE_GET_INVERSE_KIN, RECIPE_MOVE_UNTIL_CONTACT, RECIPE_NO_CMD, RECIPE_SERVOJ, RECIPE_SETP,
    RECIPE_STOP, RECIPE_WATCHDOG, RECIPE_WRENCH, RUNTIME_PLAYING, RUNTIME_STOPPED,
    SAFETY_BIT_EMERGENCY_STOPPED, SAFETY_BIT_PROTECTIVE_STOPPED, SERVO_GAIN_MAX, SERVO_GAIN_MIN,
    SERVO_LOOKAHEAD_TIME_MAX, SERVO_LOOKAHEAD_TIME_MIN, TOOL_ACCELERATION_MAX, TOOL_VELOCITY_MAX,
};
use ioc_drivers::ur::error::{verify_within, RefusalReason, UrError};
use ioc_drivers::ur::rtde::{CommandType, ControllerVersion, Payload, RobotCommand};
use ioc_drivers::ur::state::{RobotValues, Value};
use ioc_drivers::ur::stream::Snapshot;

fn bits(v: [f64; 6]) -> [u64; 6] {
    v.map(f64::to_bits)
}

#[test]
fn async_status_word_decodes_into_its_fields() {
    let raw = (3u32 << 24) | (7u32 << 16) | 0x8000 | 42;
    let s = AsyncOperationStatus(raw);
    assert!(s.is_running());
    assert_eq!(s.operation_id(), 3);
    assert_eq!(s.change_count(), 7);
    assert_eq!(s.progress(), 42);
    assert_eq!(s.value(), raw);

    let s = AsyncOperationStatus((3u32 << 24) | (7u32 << 16) | 42);
    assert!(!s.is_running());
    assert_eq!(s.progress(), -1);
    assert_eq!(s.operation_id(), 3);
}

#[test]
fn movej_payload_is_q_then_speed_accel_then_async() {
    let q = bits([0.1, 0.2, 0.3, 0.4, 0.5, 0.6]);
    let mut val = q.to_vec();
    val.push(1.05f64.to_bits());
    val.push(1.4f64.to_bits());
    let cmd = RobotCommand::new(
        RECIPE_ASYNC_SETP,
        CommandType::MoveJ,
        Payload::VectorAsync {
            val: val.clone(),
            asynchronous: true,
        },
    );
    assert_eq!(
        move_j(&q, 1.05f64.to_bits(), 1.4f64.to_bits(), true).unwrap(),
        cmd
    );
    assert_eq!(cmd.recipe_id, 1);
    assert_eq!(cmd.encode().len(), 3 + 1 + 4 + 64 + 4);
}

#[test]
fn each_command_goes_to_the_recipe_the_script_listens_on() {
    assert_eq!(RECIPE_ASYNC_SETP, 1);
    assert_eq!(RECIPE_SERVOJ, 2);
    assert_eq!(RECIPE_FORCE_MODE, 3);
    assert_eq!(RECIPE_NO_CMD, 4);
    assert_eq!(RECIPE_WRENCH, 6);
    assert_eq!(RECIPE_FORCE_MODE_PARAMETERS, 8);
    assert_eq!(RECIPE_GET_INVERSE_KIN, 10);
    assert_eq!(RECIPE_WATCHDOG, 11);
    assert_eq!(RECIPE_SETP, 13);
    assert_eq!(RECIPE_MOVE_UNTIL_CONTACT, 16);
    assert_eq!(RECIPE_STOP, 19);
    assert_eq!(RECIPE_COUNT, 23);
}

#[test]
fn safety_bits_flag_protective_and_emergency_stop() {
    assert_eq!(1u32 << SAFETY_BIT_PROTECTIVE_STOPPED, 0x04);
    assert_eq!(1u32 << SAFETY_BIT_EMERGENCY_STOPPED, 0x80);
    let normal = 1u32;
    assert_eq!(normal & (1 << SAFETY_BIT_PROTECTIVE_STOPPED), 0);
    assert_eq!(normal & (1 << SAFETY_BIT_EMERGENCY_STOPPED), 0);
}

#[test]
fn range_checks_match_the_ur_limits() {
    assert!(verify_within(JOINT_VELOCITY_MAX, 0.0f64.to_bits(), JOINT_VELOCITY_MAX).is_ok());
    assert!(verify_within(3.15f64.to_bits(), 0.0f64.to_bits(), JOINT_VELOCITY_MAX).is_err());
    assert!(verify_within(std::f64::consts::PI.to_bits(), 0.0f64.to_bits(), JOINT_VELOCITY_MAX).is_err());
    assert!(verify_within(40.0f64.to_bits(), 0.0f64.to_bits(), JOINT_ACCELERATION_MAX).is_ok());
    assert!(verify_within(3.0f64.to_bits(), 0.0f64.to_bits(), TOOL_VELOCITY_MAX).is_ok());
    assert!(verify_within((-0.1f64).to_bits(), 0.0f64.to_bits(), TOOL_VELOCITY_MAX).is_err());
    assert!(verify_within(150.0f64.to_bits(), 0.0f64.to_bits(), TOOL_ACCELERATION_MAX).is_ok());
    assert!(verify_within(0.03f64.to_bits(), SERVO_LOOKAHEAD_TIME_MIN, SERVO_LOOKAHEAD_TIME_MAX).is_ok());
    assert!(verify_within(0.21f64.to_bits(), SERVO_LOOKAHEAD_TIME_MIN, SERVO_LOOKAHEAD_TIME_MAX).is_err());
    assert!(verify_within(0.02f64.to_bits(), SERVO_LOOKAHEAD_TIME_MIN, SERVO_LOOKAHEAD_TIME_MAX).is_err());
    assert!(verify_within(2000.0f64.to_bits(), SERVO_GAIN_MIN, SERVO_GAIN_MAX).is_ok());
    assert!(verify_within(99.0f64.to_bits(), SERVO_GAIN_MIN, SERVO_GAIN_MAX).is_err());
}

const E_SERIES: ControllerVersion = ControllerVersion {
    major: 5,
    minor: 11,
    bugfix: 3,
    build: 108355,
};

fn snapshot(offset: i32, runtime: u32, safety: u32, script: i32) -> Snapshot {
    let mut v = RobotValues::new();
    v.insert("runtime_state".to_string(), Value::Uint32(runtime));
    v.insert("safety_status_bits".to_string(), Value::Uint32(safety));
    v.insert(
        format!("output_int_register_{offset}"),
        Value::Int32(script),
    );
    Snapshot::new(v)
}

#[test]
fn a_speed_out_of_range_is_refused() {
    let q = bits([0.0; 6]);
    assert!(matches!(
        move_j(&q, 3.15f64.to_bits(), 1.4f64.to_bits(), true),
        Err(UrError::OutOfRange { .. })
    ));
    assert!(matches!(
        move_l(&q, 0.25f64.to_bits(), f64::NAN.to_bits(), true),
        Err(UrError::OutOfRange { .. })
    ));
    assert!(servo_j(
        &q,
        0,
        0,
        0.002f64.to_bits(),
        0.1f64.to_bits(),
        300.0f64.to_bits()
    )
    .is_ok());
    assert!(servo_j(
        &q,
        0,
        0,
        0.002f64.to_bits(),
        0.3f64.to_bits(),
        300.0f64.to_bits()
    )
    .is_err());
}

#[test]
fn a_setup_asks_for_every_recipe_of_the_script() {
    let c = ControlInterface::new(E_SERIES, false);
    let setup = c.setup_recipes().unwrap();
    assert_eq!(setup.inputs.len(), usize::from(RECIPE_COUNT));
    assert_eq!(setup.frequency, 500.0f64.to_bits());
    for (i, names) in setup.inputs.iter().enumerate() {
        assert_eq!(names, &c.recipe_names(i as u8 + 1));
        assert_eq!(names[0], "input_int_register_0");
    }
    let upper = ControlInterface::new(E_SERIES, true);
    assert_eq!(upper.register_offset(), 24);
    assert_eq!(
        upper.recipe_names(RECIPE_NO_CMD)[0],
        "input_int_register_24"
    );
    assert_eq!(upper.controller_version(), E_SERIES);
}

#[test]
fn an_old_controller_has_no_registers_for_the_script() {
    let old = ControllerVersion {
        major: 3,
        minor: 3,
        bugfix: 0,
        build: 0,
    };
    assert!(ControlInterface::new(old, false).setup_recipes().is_err());
}

#[test]
fn a_command_fills_the_registers_of_its_recipe() {
    let c = ControlInterface::new(E_SERIES, false);
    let cmd = stop_j(2.0f64.to_bits(), true);
    assert_eq!(cmd.recipe_id, RECIPE_STOP);
    assert_eq!(
        c.recipe_names(RECIPE_STOP),
        vec![
            "input_int_register_0",
            "input_double_register_0",
            "input_int_register_1"
        ]
    );
    assert_eq!(clear_command().recipe_id, RECIPE_NO_CMD);
    assert_eq!(clear_command().command, CommandType::NoCmd);
    assert_eq!(stop_script().command, CommandType::StopScript);
}

#[test]
fn only_the_two_stops_count_as_stopped_by_safety() {
    assert!(!is_stopped_by_safety(1));
    assert!(is_stopped_by_safety(0x04));
    assert!(is_stopped_by_safety(0x80));
}

#[test]
fn a_handshake_waits_sends_and_clears() {
    let c = ControlInterface::new(E_SERIES, false);
    let busy = c.read(&snapshot(0, RUNTIME_PLAYING, 1, 0), false);
    let ready = c.read(&snapshot(0, RUNTIME_PLAYING, 1, 1), false);
    let done = c.read(&snapshot(0, RUNTIME_PLAYING, 1, 2), false);
    assert_eq!(
        step(Phase::Begin, &busy, 0).unwrap(),
        Step::Enter(Phase::AwaitReady)
    );
    assert_eq!(step(Phase::AwaitReady, &busy, 0).unwrap(), Step::Pause);
    assert_eq!(step(Phase::AwaitReady, &ready, 0).unwrap(), Step::Send);
    assert_eq!(after_send(CommandType::MoveJ), Phase::AwaitDone);
    assert_eq!(after_send(CommandType::StopScript), Phase::AwaitStopped);
    assert_eq!(step(Phase::AwaitDone, &busy, 0).unwrap(), Step::Pause);
    assert_eq!(step(Phase::AwaitDone, &done, 0).unwrap(), Step::Finish);
}

#[test]
fn a_stopped_program_a_safety_stop_and_the_time_refuse_a_command() {
    let c = ControlInterface::new(E_SERIES, false);
    let stopped = c.read(&snapshot(0, RUNTIME_STOPPED, 1, 1), false);
    assert_eq!(
        step(Phase::Begin, &stopped, 0).unwrap(),
        Step::Refuse(RefusalReason::NotRunning)
    );
    let safety = c.read(&snapshot(0, RUNTIME_PLAYING, 0x04, 0), false);
    assert_eq!(
        step(Phase::AwaitDone, &safety, 0).unwrap(),
        Step::Refuse(RefusalReason::SafetyStop)
    );
    let late = c.read(&snapshot(0, RUNTIME_PLAYING, 1, 0), true);
    assert_eq!(
        step(Phase::AwaitReady, &late, 0).unwrap(),
        Step::Refuse(RefusalReason::Timeout)
    );
    assert!(matches!(
        refused(RefusalReason::Timeout, Ok(())),
        Err(UrError::CommandRefused {
            reason: RefusalReason::Timeout
        })
    ));
}

#[test]
fn streamed_commands_go_to_their_recipes() {
    let six = bits([0.0; 6]);
    let one = 1.0f64.to_bits();
    let r = speed_j(&six, one, one).unwrap();
    assert_eq!((r.recipe_id, r.command), (13, StreamCommand::SpeedJ));
    assert_eq!(r.val.len(), 8);
    assert!(r.command.is_realtime());
    assert_eq!(servo_stop(one).recipe_id, 8);
    assert!(!servo_stop(one).command.is_realtime());
    assert_eq!(after_send_stream(r.command), None);
    assert_eq!(after_send_stream(kick_watchdog().command), None);
    assert_eq!(
        after_send_stream(servo_stop(one).command),
        Some(Phase::AwaitDone)
    );
    assert_eq!(kick_watchdog().recipe_id, 11);
    assert_eq!(force_mode_stop().recipe_id, RECIPE_NO_CMD);
    assert_eq!(zero_ft_sensor().recipe_id, RECIPE_NO_CMD);
    let f = force_mode(&six, &[1, 0, 0, 0, 0, 0], &six, 2, &six);
    assert_eq!(f.recipe_id, RECIPE_FORCE_MODE);
    assert_eq!(f.force_mode, Some((2, vec![1, 0, 0, 0, 0, 0])));
    assert_eq!(f.val.len(), 18);
    let seeded = get_inverse_kinematics(&six, Some(&six), one, one);
    assert_eq!((seeded.recipe_id, seeded.val.len()), (10, 14));
    let plain = get_inverse_kinematics(&six, None, one, one);
    assert_eq!((plain.recipe_id, plain.val.len()), (RECIPE_WRENCH, 6));
    assert_eq!(
        move_until_contact(&six, &six, one).unwrap().recipe_id,
        RECIPE_MOVE_UNTIL_CONTACT
    );
}

#[test]
fn a_solution_is_six_registers() {
    let c = ControlInterface::new(E_SERIES, true);
    let mut v = RobotValues::new();
    for i in 0..5u64 {
        v.insert(format!("output_double_register_{}", 24 + i), Value::Double(i));
    }
    let e = c.kinematics_solution(&Snapshot::new(v.clone())).unwrap_err();
    assert_eq!(
        e,
        UrError::Protocol("no state data for output_double_register_29".to_string())
    );
    v.insert("output_double_register_29".to_string(), Value::Double(5));
    assert_eq!(
        c.kinematics_solution(&Snapshot::new(v)).unwrap(),
        vec![0, 1, 2, 3, 4, 5]
    );
}
