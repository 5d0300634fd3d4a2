//! The control port of a robot.

use ioc_drivers::ur::control::AsyncOperationStatus;
use ioc_drivers::ur::dashboard::PolyScopeVersion;
use ioc_drivers::ur::drivers::control::{
    check_link, connect_step, file_unreadable, float_scale, program_restarted, script_failure,
    ConnectStep, ControlAction, ControlInner, ControlParams, CustomScript, MotionStatus,
    MotionTask, MotionType, PollNext,
};
use ioc_drivers::ur::drivers::{Published, Scale, Update, WriteError};
use ioc_drivers::ur::registry::{DashboardState, ReceiveState};
use ioc_drivers::ur::rtde::CommandType;

const SECOND: u64 = 1_000_000_000;

fn int_update(updates: &[Update<ControlParams>], want: ControlParams) -> Option<i32> {
    updates.iter().find_map(|u| match u.value {
        Published::Int32(v) if u.param == want => Some(v),
        _ => None,
    })
}

#[test]
fn a_disconnected_interface_only_publishes_is_connected_zero() {
    let mut inner = ControlInner::default();
    let (updates, _) = inner.poll_once(false, false, &ReceiveState::default(), 0);
    assert_eq!(updates.len(), 1);
    assert_eq!(int_update(&updates, ControlParams::IsConnected), Some(0));
}

fn inner_running_script(started: u64, start_count: i32, timeout: u64) -> ControlInner {
    ControlInner {
        custom_script: Some(CustomScript {
            started,
            start_count,
            timeout,
        }),
        ..Default::default()
    }
}

#[test]
fn motion_task_done_signals_the_move_and_bumps_the_counter() {
    let mut inner = ControlInner {
        pending_motion: Some(MotionTask {
            motion: MotionType::Joint,
            action: false,
        }),
        motion_status: MotionStatus::WaitingMotion,
        ..Default::default()
    };

    let mut updates = Vec::new();
    inner.motion_task_done(&mut updates);

    assert!(inner.pending_motion.is_none());
    assert_eq!(inner.motion_status, MotionStatus::Done);
    assert_eq!(int_update(&updates, ControlParams::AsyncMoveDone), Some(1));
    assert_eq!(int_update(&updates, ControlParams::MotionDoneCount), Some(1));

    let mut updates = Vec::new();
    inner.motion_task_done(&mut updates);
    assert_eq!(int_update(&updates, ControlParams::MotionDoneCount), Some(2));
}

#[test]
fn a_finished_custom_script_clears_running_when_the_counter_moves() {
    let mut inner = inner_running_script(0, 3, 60 * SECOND);

    let mut updates = Vec::new();
    inner.poll_custom_script(4, 0, &mut updates);

    assert!(inner.custom_script.is_none());
    assert_eq!(
        int_update(&updates, ControlParams::CustomScriptRunning),
        Some(0)
    );
    assert_eq!(int_update(&updates, ControlParams::CustomScriptError), None);
}

#[test]
fn a_custom_script_that_never_finishes_times_out_and_raises_the_error_flag() {
    let mut inner = inner_running_script(0, 3, SECOND);

    let mut updates = Vec::new();
    inner.poll_custom_script(3, 5 * SECOND, &mut updates);

    assert!(inner.custom_script.is_none());
    assert_eq!(
        int_update(&updates, ControlParams::CustomScriptRunning),
        Some(0)
    );
    assert_eq!(
        int_update(&updates, ControlParams::CustomScriptError),
        Some(1)
    );
}

#[test]
fn a_running_custom_script_within_its_timeout_stays_running() {
    let mut inner = inner_running_script(0, 3, 60 * SECOND);

    let mut updates = Vec::new();
    inner.poll_custom_script(3, 0, &mut updates);
    assert!(inner.custom_script.is_some());
    assert!(updates.is_empty());
}

fn in_motion() -> ControlInner {
    ControlInner {
        pending_motion: Some(MotionTask {
            motion: MotionType::Joint,
            action: false,
        }),
        ..Default::default()
    }
}

fn normal() -> ReceiveState {
    ReceiveState {
        connected: true,
        safety_status_bits: 1,
        output_int_register_12: 0,
    }
}

#[test]
fn a_move_is_checked_started_watched_and_ended() {
    let mut inner = ControlInner::default();
    let (_, action) = inner.write_int32(ControlParams::MoveJ, 1, true, true);
    let Ok(ControlAction::CheckTarget(MotionType::Joint, check)) = action else {
        panic!("{action:?}");
    };
    assert_eq!(check.command, CommandType::IsJointsWithinSafetyLimits);
    inner.target_checked(MotionType::Joint, true);
    assert!(inner.pending_motion.is_some());

    let (_, next) = inner.poll_once(true, true, &normal(), 0);
    let PollNext::Start(command) = next else {
        panic!("{next:?}");
    };
    assert_eq!(command.command, CommandType::MoveJ);
    inner.motion_started(true);
    assert_eq!(inner.motion_status, MotionStatus::WaitingMotion);

    let (_, next) = inner.poll_once(true, true, &normal(), 0);
    assert!(matches!(next, PollNext::ReadProgress));
    let running = inner.progress_read(Some(AsyncOperationStatus(0x8000)));
    assert_eq!(int_update(&running, ControlParams::MotionDoneCount), None);
    let ended = inner.progress_read(Some(AsyncOperationStatus(0)));
    assert_eq!(int_update(&ended, ControlParams::MotionDoneCount), Some(1));
    assert!(inner.pending_motion.is_none());
}

#[test]
fn a_safety_event_ends_the_motion() {
    let mut inner = in_motion();
    let stopped = ReceiveState {
        safety_status_bits: 4,
        ..normal()
    };
    let (_, next) = inner.poll_once(true, true, &stopped, 0);
    assert!(!matches!(next, PollNext::Start(_)));
    assert!(inner.pending_motion.is_none());
}

#[test]
fn a_target_out_of_the_limits_is_not_moved_to() {
    let mut inner = ControlInner::default();
    inner.target_checked(MotionType::Cartesian, false);
    assert!(inner.pending_motion.is_none());
}

#[test]
fn a_zero_to_a_command_does_nothing() {
    for p in ControlParams::create() {
        if p.is_command() {
            let mut inner = ControlInner::default();
            let (updates, action) = inner.write_int32(p, 0, false, false);
            assert!(updates.is_empty(), "{p:?}");
            assert!(matches!(action, Ok(ControlAction::Nothing)), "{p:?}");
        }
    }
}

#[test]
fn a_command_without_a_link_is_refused() {
    let mut inner = ControlInner::default();
    let (_, action) = inner.write_int32(ControlParams::StopJ, 1, false, false);
    assert!(action.is_err());
    assert!(check_link(false, false).is_err());
    assert!(check_link(true, false).is_err());
    assert!(check_link(true, true).is_ok());
    assert!(inner.may_run_script(true, true).is_ok());
    assert!(inner.may_run_script(false, false).is_err());
}

#[test]
fn a_script_does_not_run_into_a_motion() {
    let mut inner = ControlInner::default();
    let updates = inner.script_started(7, 100);
    assert_eq!(
        int_update(&updates, ControlParams::CustomScriptRunning),
        Some(1)
    );
    assert_eq!(
        inner.custom_script.map(|s| (s.start_count, s.started)),
        Some((7, 100))
    );
    assert!(in_motion().may_run_script(true, true).is_err());
    let mut acting = in_motion();
    acting.motion_status = MotionStatus::WaitingAction;
    assert!(acting.may_run_script(true, true).is_ok());
}

#[test]
fn joints_are_in_degrees_and_positions_in_millimetres() {
    assert_eq!(
        float_scale(ControlParams::JointCmd, 0),
        Scale::DegreesToRadians
    );
    assert_eq!(float_scale(ControlParams::PoseCmd, 0), Scale::MmToMetres);
    assert_eq!(
        float_scale(ControlParams::PoseCmd, 3),
        Scale::DegreesToRadians
    );
    assert_eq!(float_scale(ControlParams::TcpOffset, 3), Scale::Raw);
}

#[test]
fn a_joint_target_is_kept_at_its_address() {
    let mut inner = ControlInner::default();
    let v = 0.5f64.to_bits();
    assert!(inner
        .write_float64(ControlParams::JointCmd, 2, v, v, true)
        .is_ok());
    assert_eq!(inner.cmd_joints[2], v);
    let e = inner
        .write_float64(ControlParams::JointCmd, 6, v, v, true)
        .unwrap_err();
    assert!(matches!(e, WriteError::Refused(_)), "{e:?}");
    assert!(inner
        .write_float64(ControlParams::JointCmd, 2, v, v, false)
        .is_err());
}

#[test]
fn a_link_needs_the_receiver_and_a_robot_that_is_on() {
    let on = DashboardState {
        connected: true,
        robot_mode: "Robotmode: RUNNING".to_string(),
        polyscope: PolyScopeVersion::default(),
    };
    assert_eq!(
        connect_step(&normal(), &on, false, false),
        ConnectStep::Connect
    );
    assert_eq!(
        connect_step(&normal(), &on, true, false),
        ConnectStep::Reconnect
    );
    assert_eq!(connect_step(&normal(), &on, true, true), ConnectStep::Done);
    assert_eq!(
        connect_step(&normal(), &DashboardState::default(), false, false),
        ConnectStep::Refuse
    );
}

#[test]
fn a_script_file_is_named_before_it_is_run() {
    let mut inner = ControlInner::default();
    let (_, r) = inner.write_octet(
        ControlParams::CustomScriptFile,
        "/tmp/a.script".to_string(),
        true,
    );
    assert!(r.is_ok());
    assert_eq!(inner.custom_script_path, "/tmp/a.script");
    let (_, r) = inner.write_octet(
        ControlParams::CustomScriptFile,
        "/nowhere".to_string(),
        false,
    );
    assert!(r.is_err());
    let (updates, why) = file_unreadable("/tmp/a.script", "denied");
    assert!(why.contains("/tmp/a.script") && why.contains("denied"), "{why}");
    assert!(!script_failure("inline").is_empty());
}

#[test]
fn a_restart_ends_with_the_program_or_with_the_time() {
    assert_eq!(program_restarted(true, false), Some(Ok(())));
    assert_eq!(program_restarted(false, false), None);
    assert!(matches!(program_restarted(false, true), Some(Err(_))));
}
