//! Errors of the robot's interfaces, and the range check.

use ioc_drivers::ur::error::{verify_within, RefusalReason, UrError};
use ioc_drivers::ur::state::DecodeError;

fn within(value: f64, min: f64, max: f64) -> Result<(), UrError> {
    verify_within(value.to_bits(), min.to_bits(), max.to_bits())
}

#[test]
fn range_check_rejects_nan_and_out_of_band() {
    const HIGH: f64 = 314.0 / 100.0;
    assert!(within(1.0, 0.0, HIGH).is_ok());
    assert!(within(0.0, 0.0, HIGH).is_ok());
    assert!(within(HIGH, 0.0, HIGH).is_ok());
    assert!(within(-0.1, 0.0, HIGH).is_err());
    assert!(within(3.15, 0.0, HIGH).is_err());
    assert!(within(f64::NAN, 0.0, HIGH).is_err());
}

#[test]
fn zero_has_two_signs_and_one_value() {
    assert!(within(-0.0, 0.0, 1.0).is_ok());
    assert!(within(0.0, -0.0, 1.0).is_ok());
    assert!(within(-1.5, -2.0, -1.0).is_ok());
    assert!(within(-2.5, -2.0, -1.0).is_err());
    assert!(within(f64::INFINITY, 0.0, f64::MAX).is_err());
    assert!(within(f64::NEG_INFINITY, f64::NEG_INFINITY, 0.0).is_ok());
}

#[test]
fn an_out_of_range_error_keeps_the_three_numbers() {
    assert_eq!(
        within(2.0, 0.0, 1.0),
        Err(UrError::OutOfRange {
            value: 2.0f64.to_bits(),
            min: 0.0f64.to_bits(),
            max: 1.0f64.to_bits(),
        })
    );
}

#[test]
fn errors_read_as_sentences() {
    let of = |e: UrError| e.message().unwrap();
    assert_eq!(of(UrError::Connect("x".into())), "connect failed: x");
    assert_eq!(
        of(UrError::Dashboard {
            command: "play".into(),
            reply: "no".into(),
        }),
        "dashboard command 'play' failed: no"
    );
    assert!(of(UrError::InputRegistersInUse).starts_with("an RTDE input register is already in use;"));
    assert_eq!(of(UrError::NotConnected("RTDE".into())), "RTDE is not connected");
    assert_eq!(of(UrError::Io("x".into())), "i/o error: x");
    assert_eq!(of(UrError::Protocol("x".into())), "protocol error: x");
    assert_eq!(of(UrError::Script("x".into())), "control script error: x");
    assert_eq!(
        of(UrError::VariablesNotFound("a, b".into())),
        "controller does not provide RTDE variable(s): a, b"
    );
    assert!(of(UrError::Timeout(1500, "x".into())).contains("1.5s"));
    assert_eq!(
        of(UrError::Decode(DecodeError::Empty)),
        "RTDE data package: data package is empty (no recipe-id byte)"
    );
    assert!(of(UrError::CommandRefused {
        reason: RefusalReason::SafetyStop,
    })
    .contains(RefusalReason::SafetyStop.as_str()));
    assert!(UrError::OutOfRange {
        value: 0,
        min: 0,
        max: 0,
    }
    .message()
    .is_none());
}
