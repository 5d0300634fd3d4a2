//! The newest state of the robot.

use ioc_drivers::ur::error::UrError;
use ioc_drivers::ur::state::{RobotValues, Value};
use ioc_drivers::ur::stream::{Snapshot, StreamState};

#[test]
fn snapshot_reads_by_name_and_type() {
    let mut values = RobotValues::new();
    values.insert("timestamp".to_string(), Value::Double(12.5f64.to_bits()));
    values.insert("robot_mode".to_string(), Value::Int32(7));
    values.insert("safety_status_bits".to_string(), Value::Uint32(0x7ff));
    values.insert(
        "actual_q".to_string(),
        Value::Doubles(
            [0.0f64, 1.0, 2.0, 3.0, 4.0, 5.0]
                .iter()
                .map(|v| v.to_bits())
                .collect(),
        ),
    );
    values.insert(
        "joint_mode".to_string(),
        Value::Int32s(vec![253, 253, 253, 253, 253, 253]),
    );
    values.insert("output_int_register_12".to_string(), Value::Int32(2));
    let snap = Snapshot::new(values);

    assert_eq!(snap.double("timestamp"), Some(12.5f64.to_bits()));
    assert_eq!(snap.integer("robot_mode"), Some(7));
    assert_eq!(snap.uint("safety_status_bits"), Some(0x7ff));
    assert_eq!(snap.doubles("actual_q").unwrap().len(), 6);
    assert_eq!(snap.ints("joint_mode").unwrap()[0], 253);
    assert_eq!(snap.output_int_register(12), Some(2));
    assert_eq!(snap.output_int_register(13), None);
    assert_eq!(snap.double("no_such_variable"), None);
    assert!(!snap.is_empty());
    assert!(Snapshot::default().is_empty());
}

fn one_value() -> RobotValues {
    let mut values = RobotValues::new();
    values.insert("output_double_register_47".to_string(), Value::Double(7));
    values
}

#[test]
fn a_package_replaces_the_snapshot_and_silence_keeps_it() {
    let mut s = StreamState::new();
    assert!(s.connected);
    assert!(s.take(Ok(Some(one_value()))));
    assert_eq!(s.snapshot.output_double_register(47), Some(7));
    assert!(s.take(Ok(None)));
    assert_eq!(s.snapshot.output_double_register(47), Some(7));
    assert_eq!(s.snapshot.output_double_register(-1), None);
}

#[test]
fn a_failed_receive_ends_the_stream() {
    let mut s = StreamState::new();
    assert!(!s.take(Err(UrError::InputRegistersInUse)));
    assert!(!s.connected);
}

#[test]
fn waiting_for_the_first_state_ends_with_it_or_with_the_time() {
    let mut s = StreamState::new();
    assert_eq!(s.first_state(false, 1000), None);
    assert!(matches!(
        s.first_state(true, 1000),
        Some(Err(UrError::Timeout(1000, _)))
    ));
    s.take(Ok(Some(one_value())));
    assert_eq!(s.first_state(true, 1000), Some(Ok(())));
    let mut gone = StreamState::new();
    gone.stop();
    assert!(matches!(gone.first_state(false, 1000), Some(Err(_))));
}
