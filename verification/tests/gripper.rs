//! The gripper: its requests, motions and calibration.

use std::collections::HashMap;

use ioc_drivers::ur::error::UrError;
use ioc_drivers::ur::gripper::{
    activate, emergency_release, get_reply, get_request, is_active, move_settings, reset,
    set_reply, set_request, Calibration, Condition, GripperConfig, Look, MoveMode, MoveParameter,
    ObjectStatus, PositionId, RobotiqGripper, Status, Step, Unit, Var,
};

fn factor(cfg: &GripperConfig, unit: Unit) -> f64 {
    match unit {
        Unit::Device => 1.0,
        Unit::Normalized => 255.0,
        Unit::Percent => 255.0 / 100.0,
        Unit::Mm => 255.0 / f64::from(cfg.range_mm),
    }
}

fn to_device(cfg: &GripperConfig, value: f64, param: MoveParameter) -> i32 {
    let unit = cfg.unit_of(param);
    let scaled = if unit == Unit::Device {
        value as i32
    } else {
        (value * factor(cfg, unit)).round() as i32
    };
    cfg.from_scaled(scaled, param)
}

fn from_device(cfg: &GripperConfig, value: f64, param: MoveParameter) -> f64 {
    let counts = cfg.from_scaled(value as i32, param);
    f64::from(counts) / factor(cfg, cfg.unit_of(param))
}

/// A device that takes every position at once.
struct Device {
    vars: HashMap<String, i32>,
    sets: Vec<String>,
}

impl Device {
    fn new(vars: &[(&str, i32)]) -> Device {
        Device {
            vars: vars.iter().map(|(k, v)| (k.to_string(), *v)).collect(),
            sets: Vec::new(),
        }
    }

    fn get(&self, var: &str) -> i32 {
        let request = get_request(var);
        let name = request.strip_prefix("GET ").unwrap().trim_end().to_string();
        let value = self.vars.get(&name).copied().unwrap_or(0);
        get_reply(var, &format!("{name} {value}")).unwrap()
    }

    fn set(&mut self, vars: Vec<(&'static str, i32)>) {
        let request = set_request(&vars);
        let line = request.trim_end().to_string();
        self.sets.push(line.clone());
        let f: Vec<&str> = line.split_whitespace().collect();
        for pair in f[1..].chunks(2) {
            self.vars.insert(pair[0].to_string(), pair[1].parse().unwrap());
        }
        if let Some(p) = self.vars.get("POS").copied() {
            self.vars.insert("PRE".into(), p);
            self.vars.insert("OBJ".into(), ObjectStatus::AtDest.raw());
        }
        set_reply(&request, "ack").unwrap();
    }

    fn run(&mut self, steps: Vec<Step>) -> Result<ObjectStatus, UrError> {
        for s in steps {
            match s {
                Step::Assign(var, value) => self.set(vec![(var.name(), value)]),
                Step::Move {
                    position,
                    speed,
                    force,
                } => self.set(move_settings(position, speed, force)),
                Step::Sleep(_) => {}
                Step::Await(condition) => {
                    let mut seen = Vec::new();
                    let mut waited = 0;
                    loop {
                        let look = condition
                            .look(seen.first().copied(), seen.get(1).copied());
                        let met = match look {
                            Look::Read(var) => {
                                let v = self.get(var.name());
                                seen.push(v);
                                continue;
                            }
                            Look::Met => true,
                            Look::Unmet => false,
                        };
                        seen.clear();
                        let expired = waited >= condition.limit_ms();
                        if !condition.wait_on(met, expired)? {
                            break;
                        }
                        waited += condition.interval_ms();
                    }
                }
            }
        }
        Ok(ObjectStatus::from_raw(self.get("OBJ")))
    }
}

#[test]
fn normalized_position_is_inverted_against_max() {
    let cfg = GripperConfig::default();
    assert_eq!(to_device(&cfg, 1.0, MoveParameter::Position), 0);
    assert_eq!(to_device(&cfg, 0.0, MoveParameter::Position), 255);
    assert_eq!(to_device(&cfg, 0.5, MoveParameter::Position), 255 - 128);
    assert!((from_device(&cfg, 0.0, MoveParameter::Position) - 1.0).abs() < 1e-9);
    assert!((from_device(&cfg, 255.0, MoveParameter::Position) - 0.0).abs() < 1e-9);
}

#[test]
fn speed_and_force_are_not_inverted() {
    let cfg = GripperConfig::default();
    assert_eq!(to_device(&cfg, 1.0, MoveParameter::Speed), 255);
    assert_eq!(to_device(&cfg, 0.0, MoveParameter::Force), 0);
    assert_eq!(to_device(&cfg, 0.5, MoveParameter::Speed), 128);
    assert!((from_device(&cfg, 255.0, MoveParameter::Speed) - 1.0).abs() < 1e-9);
}

#[test]
fn device_unit_passes_through_without_inversion() {
    let cfg = GripperConfig {
        position_unit: Unit::Device,
        ..Default::default()
    };
    assert_eq!(to_device(&cfg, 200.0, MoveParameter::Position), 200);
    assert!((from_device(&cfg, 200.0, MoveParameter::Position) - 200.0).abs() < 1e-9);
}

#[test]
fn percent_and_mm_scale_by_the_configured_range() {
    let mut cfg = GripperConfig {
        position_unit: Unit::Percent,
        ..Default::default()
    };
    assert_eq!(to_device(&cfg, 100.0, MoveParameter::Position), 0);
    assert_eq!(to_device(&cfg, 0.0, MoveParameter::Position), 255);

    cfg.position_unit = Unit::Mm;
    cfg.range_mm = 50;
    assert_eq!(to_device(&cfg, 50.0, MoveParameter::Position), 0);
    assert_eq!(to_device(&cfg, 0.0, MoveParameter::Position), 255);
    assert_eq!(to_device(&cfg, 10.0, MoveParameter::Position), 255 - 51);
}

#[test]
fn conversion_follows_a_recalibrated_max() {
    let cfg = GripperConfig {
        max_position: 230,
        ..Default::default()
    };
    assert_eq!(to_device(&cfg, 0.0, MoveParameter::Position), 230);
    assert!((from_device(&cfg, 230.0, MoveParameter::Position) - 0.0).abs() < 1e-9);
}

#[test]
fn set_speed_clamps_into_the_device_range() {
    let mut g = RobotiqGripper::new();
    let counts = to_device(&g.config(), 2.0, MoveParameter::Speed);
    let speed = f64::from(g.set_speed(counts));
    assert!((from_device(&g.config(), speed, MoveParameter::Speed) - 1.0).abs() < 1e-9);
    assert_eq!(g.speed, 255);
    let counts = to_device(&g.config(), 0.0, MoveParameter::Speed);
    let speed = f64::from(g.set_speed(counts));
    assert!((from_device(&g.config(), speed, MoveParameter::Speed) - 1.0 / 255.0).abs() < 1e-9);
    assert_eq!(g.speed, 1);
    let counts = to_device(&g.config(), 0.0, MoveParameter::Force);
    let force = f64::from(g.set_force(counts));
    assert!((from_device(&g.config(), force, MoveParameter::Force) - 0.0).abs() < 1e-9);
    assert_eq!(g.force, 0);
}

#[test]
fn get_var_reads_the_named_variable() {
    let device = Device::new(&[("STA", 3), ("POS", 100), ("OBJ", 3)]);
    assert_eq!(device.get("STA"), 3);
    assert!(is_active(Status::from_raw(device.get("STA"))));
    assert_eq!(device.get("POS"), 100);
    assert_eq!(
        ObjectStatus::from_raw(device.get("OBJ")),
        ObjectStatus::AtDest
    );
}

#[test]
fn get_var_rejects_a_mismatched_or_questionmark_reply() {
    assert!(get_reply("STA", "STA 3").is_ok());
    let err = get_reply("POS", "POS ?").unwrap_err();
    assert!(matches!(err, UrError::Protocol(_)), "got {err:?}");
    assert!(matches!(get_reply("POS", "PRE 7"), Err(UrError::Protocol(_))));
}

#[test]
fn move_sends_pos_spe_for_gto_together() {
    let mut device = Device::new(&[("STA", 3), ("POS", 0), ("PRE", 0), ("OBJ", 3)]);
    let mut g = RobotiqGripper::new();
    g.set_speed(to_device(&g.config(), 1.0, MoveParameter::Speed));
    g.set_force(to_device(&g.config(), 0.5, MoveParameter::Force));
    let status = device.run(g.close(MoveMode::WaitFinished)).unwrap();
    assert_eq!(status, ObjectStatus::AtDest);
    assert_eq!(device.sets, vec!["SET POS 255 SPE 255 FOR 128 GTO 1"]);
}

#[test]
fn open_commands_device_zero() {
    let mut device = Device::new(&[("STA", 3), ("POS", 255), ("PRE", 255), ("OBJ", 3)]);
    device
        .run(RobotiqGripper::new().open(MoveMode::StartMove))
        .unwrap();
    assert_eq!(device.sets, vec!["SET POS 0 SPE 255 FOR 0 GTO 1"]);
}

fn calibrate(g: &mut RobotiqGripper, device: &mut Device) -> Result<(), UrError> {
    let mut at = Calibration::Freeing;
    while at != Calibration::Done {
        match g.calibrate(at, None) {
            Some(steps) => at = at.moved(device.run(steps)?)?,
            None => at = g.calibrated(at, device.get("POS")),
        }
    }
    Ok(())
}

#[test]
fn auto_calibrate_records_both_ends_and_keeps_the_stop_adjustment() {
    let mut device = Device::new(&[("STA", 3), ("POS", 0), ("PRE", 0), ("OBJ", 3)]);
    let mut g = RobotiqGripper::new();
    calibrate(&mut g, &mut device).unwrap();
    assert_eq!(g.native_position_range(), (0, 255));
}

#[test]
fn move_times_out_when_pre_never_matches() {
    let steps = RobotiqGripper::new().close(MoveMode::WaitFinished);
    let condition = steps
        .iter()
        .find_map(|s| match s {
            Step::Await(c @ Condition::PositionAccepted(_)) => Some(*c),
            _ => None,
        })
        .unwrap();
    assert_eq!(condition.look(None, None), Look::Read(Var::Pre));
    assert_eq!(condition.look(Some(7), None), Look::Unmet);
    assert!(condition.wait_on(false, false).unwrap());
    let err = condition.wait_on(false, true).unwrap_err();
    assert!(matches!(err, UrError::Timeout(..)), "got {err:?}");
    assert!(condition.limit_ms() >= 5000);
}

#[test]
fn an_end_on_an_object_is_recorded_with_the_stop_adjustment() {
    let mut g = RobotiqGripper::new();
    let at = g.calibrated(Calibration::Closed(ObjectStatus::StoppedInnerObject), 230);
    assert_eq!(at, Calibration::Opening);
    let at = g.calibrated(Calibration::Opened(ObjectStatus::StoppedOuterObject), 13);
    assert_eq!(at, Calibration::Done);
    assert_eq!(g.native_position_range(), (8, 225));
    let at = g.calibrated(Calibration::Opened(ObjectStatus::StoppedOuterObject), 3);
    assert_eq!(at, Calibration::Done);
    assert_eq!(g.native_position_range(), (0, 225));
}

#[test]
fn a_calibration_that_cannot_open_does_not_start() {
    let e = Calibration::Freeing
        .moved(ObjectStatus::StoppedOuterObject)
        .unwrap_err();
    assert!(matches!(e, UrError::Protocol(ref m)
        if m == "gripper calibration failed to start (object status 1)"));
    assert!(Calibration::Closing
        .moved(ObjectStatus::StoppedOuterObject)
        .is_err());
    assert!(Calibration::Opening
        .moved(ObjectStatus::StoppedInnerObject)
        .is_err());
}

#[test]
fn a_refused_setting_is_an_error() {
    assert!(set_reply("SET ACT 1\n", "ack").is_ok());
    assert!(matches!(
        set_reply("SET ACT 1\n", "nack"),
        Err(UrError::Protocol(_))
    ));
}

#[test]
fn a_motion_keeps_what_was_set_last_for_a_negative_number() {
    let mut g = RobotiqGripper::new();
    g.set_speed(40);
    let steps = g.move_to(
        300,
        ((-1.0f64).to_bits(), -255),
        (0.5f64.to_bits(), 128),
        MoveMode::StartMove,
    );
    assert_eq!(
        steps[0],
        Step::Move {
            position: 255,
            speed: 40,
            force: 128,
        }
    );
}

#[test]
fn an_active_gripper_needs_no_activation() {
    assert!(activate(Status::Active).is_empty());
    assert!(!activate(Status::Reset).is_empty());
    let mut device = Device::new(&[("STA", 0)]);
    device.run(reset()).unwrap();
    assert!(device.sets.iter().any(|s| s == "SET ACT 0"), "{:?}", device.sets);
}

#[test]
fn the_ends_of_the_range_are_open_and_closed() {
    let mut g = RobotiqGripper::new();
    g.set_native_position_range(3, 230);
    assert!(g.is_open(3));
    assert!(!g.is_open(4));
    assert!(g.is_closed(230));
    assert!(!g.is_closed(229));
}

#[test]
fn settings_are_kept_by_quantity() {
    let mut g = RobotiqGripper::new();
    g.set_unit(MoveParameter::Speed, Unit::Percent);
    g.set_unit(MoveParameter::Force, Unit::Device);
    g.set_position_range_mm(85);
    let cfg = g.config();
    assert_eq!(cfg.position_unit, Unit::Normalized);
    assert_eq!(cfg.speed_unit, Unit::Percent);
    assert_eq!(cfg.force_unit, Unit::Device);
    assert_eq!(cfg.range_mm, 85);
}

#[test]
fn an_emergency_release_ends_with_its_fault_codes() {
    let steps = emergency_release(PositionId::Close, MoveMode::WaitFinished);
    assert_eq!(steps[1], Step::Assign(Var::Ard, 1));
    assert_eq!(
        steps[steps.len() - 1],
        Step::Await(Condition::ReleaseFinished)
    );
    assert_eq!(
        Condition::ReleaseStarted.look(Some(0x0B), None),
        Look::Met
    );
    assert_eq!(
        Condition::ReleaseFinished.look(Some(0x0B), None),
        Look::Unmet
    );
    let started = emergency_release(PositionId::Open, MoveMode::StartMove);
    assert_eq!(started.len() + 1, steps.len());
}
