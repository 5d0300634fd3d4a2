//! The gripper port of a robot.

use ioc_drivers::ur::drivers::gripper::{
    alarm_targets, calibrated, end_check, may_calibrate, pending_activation, polled,
    position_unit, released, stopped_flags, write_float64, write_int32, Answers, EndCheck,
    GripperAction, GripperParams,
};
use ioc_drivers::ur::drivers::Published;
use ioc_drivers::ur::gripper::{ObjectStatus, RobotiqGripper, Status, Step, Unit};

#[test]
fn the_position_unit_choices_map_to_the_four_units() {
    assert_eq!(position_unit(0), Some(Unit::Device));
    assert_eq!(position_unit(1), Some(Unit::Normalized));
    assert_eq!(position_unit(2), Some(Unit::Percent));
    assert_eq!(position_unit(3), Some(Unit::Mm));
    assert_eq!(position_unit(4), None);
    assert_eq!(position_unit(-1), None);
}

#[test]
fn the_six_commands_are_commands_and_the_staged_range_is_not() {
    for reason in [
        GripperParams::Connect,
        GripperParams::Activate,
        GripperParams::Open,
        GripperParams::Close,
        GripperParams::SetPositionRange,
        GripperParams::AutoCalibrate,
    ] {
        assert!(reason.is_command());
    }
    for reason in [
        GripperParams::MinPosition,
        GripperParams::MaxPosition,
        GripperParams::PositionUnit,
        GripperParams::SetSpeed,
        GripperParams::SetForce,
    ] {
        assert!(!reason.is_command());
    }
}

fn write(g: &mut RobotiqGripper, p: GripperParams, value: i32, on: bool) -> GripperAction {
    write_int32(g, p, value, Some(10), Some(200), on, false).unwrap()
}

#[test]
fn boot_writes_survive_to_the_first_connect() {
    let mut g = RobotiqGripper::new();
    for (p, value) in [
        (GripperParams::MinPosition, 10),
        (GripperParams::MaxPosition, 200),
        (GripperParams::SetPositionRange, 1),
        (GripperParams::PositionUnit, 3),
    ] {
        assert_eq!(write(&mut g, p, value, false), GripperAction::Nothing);
    }
    write_float64(&mut g, GripperParams::SetSpeed, 128);
    write_float64(&mut g, GripperParams::SetForce, 64);
    assert_eq!(
        write(&mut g, GripperParams::Activate, 1, false),
        GripperAction::Nothing
    );

    assert_eq!(g.native_position_range(), (10, 200));
    assert_eq!(g.config().position_unit, Unit::Mm);
    assert_eq!((g.speed, g.force), (128, 64));

    assert_eq!(
        write(&mut g, GripperParams::Connect, 1, true),
        GripperAction::Connect
    );
    assert!(pending_activation(Some(1)));
}

#[test]
fn a_connect_without_a_cached_activate_leaves_the_gripper_alone() {
    let mut g = RobotiqGripper::new();
    assert_eq!(
        write(&mut g, GripperParams::Connect, 1, true),
        GripperAction::Connect
    );
    assert!(!pending_activation(None));
    assert!(!pending_activation(Some(0)));
}

#[test]
fn alarm_set_is_every_device_readback() {
    let targets = alarm_targets();
    let excluded = [
        GripperParams::IsConnected,
        GripperParams::SetSpeed,
        GripperParams::SetForce,
        GripperParams::MinPosition,
        GripperParams::MaxPosition,
        GripperParams::PositionUnit,
    ];
    for reason in GripperParams::create() {
        let targeted = targets.iter().any(|(r, _)| *r == reason);
        let exempt = excluded.contains(&reason) || reason.is_command();
        assert!(
            targeted != exempt,
            "param {reason:?} must be exactly one of: alarm target, command/exclusion"
        );
    }
}

#[test]
fn only_the_two_stopped_states_raise_a_stopped_flag() {
    assert_eq!(
        stopped_flags(ObjectStatus::StoppedInnerObject),
        (true, false)
    );
    assert_eq!(
        stopped_flags(ObjectStatus::StoppedOuterObject),
        (false, true)
    );
    assert_eq!(stopped_flags(ObjectStatus::Moving), (false, false));
    assert_eq!(stopped_flags(ObjectStatus::AtDest), (false, false));
}

#[test]
fn a_command_needs_a_powered_robot_and_a_link() {
    let mut g = RobotiqGripper::new();
    let e = write_int32(&mut g, GripperParams::Open, 1, None, None, false, true).unwrap_err();
    assert!(e.contains("powered on"), "{e}");
    assert!(write_int32(&mut g, GripperParams::Close, 1, None, None, true, false).is_err());
    assert_eq!(
        write_int32(&mut g, GripperParams::Close, 1, None, None, true, true),
        Ok(GripperAction::Close)
    );
    assert_eq!(
        write_int32(&mut g, GripperParams::Close, 0, None, None, false, false),
        Ok(GripperAction::Nothing)
    );
}

#[test]
fn jaws_at_the_end_or_on_an_object_are_not_moved() {
    let g = RobotiqGripper::new();
    assert!(matches!(
        end_check(&g, true, 255, None),
        EndCheck::AlreadyThere
    ));
    assert!(matches!(
        end_check(&g, true, 100, None),
        EndCheck::ReadObject
    ));
    assert!(matches!(
        end_check(&g, true, 100, Some(ObjectStatus::StoppedInnerObject)),
        EndCheck::AlreadyThere
    ));
    match end_check(&g, false, 100, Some(ObjectStatus::AtDest)) {
        EndCheck::Start(steps) => {
            assert!(matches!(steps[0], Step::Move { position: 0, .. }))
        }
        other => panic!("{other:?}"),
    }
}

#[test]
fn a_calibration_needs_an_active_gripper() {
    assert!(may_calibrate(true).is_ok());
    assert!(may_calibrate(false).is_err());
    assert!(calibrated()
        .iter()
        .any(|u| u.param == GripperParams::IsCalibrated && u.value == Published::Int32(1)));
    assert!(!released(true).is_empty());
}

#[test]
fn a_failed_look_ends_the_connection() {
    let g = RobotiqGripper::new();
    let (updates, healthy, close) = polled(&g, None);
    assert!(!healthy && close);
    assert!(updates
        .iter()
        .any(|u| u.param == GripperParams::IsConnected && u.value == Published::Int32(0)));
    let (updates, healthy, close) = polled(
        &g,
        Some(Answers {
            status: Status::Active,
            position_for_open: 0,
            position_for_closed: 0,
            current: 0,
            open_position: 0,
            closed_position: 0,
            object: ObjectStatus::AtDest,
        }),
    );
    assert!(healthy && !close);
    let flag = |p: GripperParams| {
        updates.iter().find_map(|u| match u.value {
            Published::Int32(v) if u.param == p => Some(v),
            _ => None,
        })
    };
    assert_eq!(flag(GripperParams::IsConnected), Some(1));
    assert_eq!(flag(GripperParams::IsActive), Some(1));
    assert_eq!(flag(GripperParams::IsOpen), Some(1));
    assert_eq!(flag(GripperParams::IsClosed), Some(0));
}
