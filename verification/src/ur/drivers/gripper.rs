//! The gripper port: what a write asks of the gripper, and what a look at the
//! gripper publishes.
//!
//! Settings reach the gripper whether or not there is a link. An activation
//! that is asked for without a link is kept and made good when the link comes.

use super::super::error::{UrError, UrFault, UrResult};
use super::super::gripper as device;
use super::super::gripper::{MoveMode, ObjectStatus, RobotiqGripper, Step, Unit};
use super::{Published, PublishedView, Scale, Update, UpdateView};
use crate::param::ParamType;
use vstd::prelude::*;
use vstd::string::*;

verus! {

/// The parameters of the gripper port.
#[derive(Debug, Clone, Copy, PartialEq, Eq, Structural)]
pub enum GripperParams {
    Connect,
    IsConnected,
    IsOpen,
    IsClosed,
    IsStoppedInner,
    IsStoppedOuter,
    IsActive,
    Activate,
    Open,
    Close,
    SetSpeed,
    SetForce,
    AutoCalibrate,
    OpenPosition,
    ClosedPosition,
    CurrentPosition,
    MoveStatus,
    SetPositionRange,
    MinPosition,
    MaxPosition,
    PositionUnit,
    IsCalibrated,
}

impl GripperParams {
    /// The name under which a record finds the parameter.
    pub open spec fn text(self) -> Seq<char> {
        match self {
            GripperParams::Connect => "CONNECT"@,
            GripperParams::IsConnected => "IS_CONNECTED"@,
            GripperParams::IsOpen => "IS_OPEN"@,
            GripperParams::IsClosed => "IS_CLOSED"@,
            GripperParams::IsStoppedInner => "IS_STOPPED_INNER"@,
            GripperParams::IsStoppedOuter => "IS_STOPPED_OUTER"@,
            GripperParams::IsActive => "IS_ACTIVE"@,
            GripperParams::Activate => "ACTIVATE"@,
            GripperParams::Open => "OPEN"@,
            GripperParams::Close => "CLOSE"@,
            GripperParams::SetSpeed => "SET_SPEED"@,
            GripperParams::SetForce => "SET_FORCE"@,
            GripperParams::AutoCalibrate => "AUTO_CALIBRATE"@,
            GripperParams::OpenPosition => "OPEN_POSITION"@,
            GripperParams::ClosedPosition => "CLOSED_POSITION"@,
            GripperParams::CurrentPosition => "CURRENT_POSITION"@,
            GripperParams::MoveStatus => "MOVE_STATUS"@,
            GripperParams::SetPositionRange => "SET_POSITION_RANGE"@,
            GripperParams::MinPosition => "MIN_POSITION"@,
            GripperParams::MaxPosition => "MAX_POSITION"@,
            GripperParams::PositionUnit => "POSITION_UNIT"@,
            GripperParams::IsCalibrated => "IS_CALIBRATED"@,
        }
    }

    /// The name under which a record finds the parameter.
    pub fn name(self) -> (r: &'static str)
        ensures
            r@ == self.text(),
    {
        match self {
            GripperParams::Connect => "CONNECT",
            GripperParams::IsConnected => "IS_CONNECTED",
            GripperParams::IsOpen => "IS_OPEN",
            GripperParams::IsClosed => "IS_CLOSED",
            GripperParams::IsStoppedInner => "IS_STOPPED_INNER",
            GripperParams::IsStoppedOuter => "IS_STOPPED_OUTER",
            GripperParams::IsActive => "IS_ACTIVE",
            GripperParams::Activate => "ACTIVATE",
            GripperParams::Open => "OPEN",
            GripperParams::Close => "CLOSE",
            GripperParams::SetSpeed => "SET_SPEED",
            GripperParams::SetForce => "SET_FORCE",
            GripperParams::AutoCalibrate => "AUTO_CALIBRATE",
            GripperParams::OpenPosition => "OPEN_POSITION",
            GripperParams::ClosedPosition => "CLOSED_POSITION",
            GripperParams::CurrentPosition => "CURRENT_POSITION",
            GripperParams::MoveStatus => "MOVE_STATUS",
            GripperParams::SetPositionRange => "SET_POSITION_RANGE",
            GripperParams::MinPosition => "MIN_POSITION",
            GripperParams::MaxPosition => "MAX_POSITION",
            GripperParams::PositionUnit => "POSITION_UNIT",
            GripperParams::IsCalibrated => "IS_CALIBRATED",
        }
    }

    /// The type of the parameter.
    pub open spec fn kind(self) -> ParamType {
        match self {
            GripperParams::SetSpeed => ParamType::Float64,
            GripperParams::SetForce => ParamType::Float64,
            GripperParams::OpenPosition => ParamType::Float64,
            GripperParams::ClosedPosition => ParamType::Float64,
            GripperParams::CurrentPosition => ParamType::Float64,
            _ => ParamType::Int32,
        }
    }

    /// The type of the parameter.
    pub fn param_type(self) -> (r: ParamType)
        ensures
            r == self.kind(),
    {
        match self {
            GripperParams::SetSpeed => ParamType::Float64,
            GripperParams::SetForce => ParamType::Float64,
            GripperParams::OpenPosition => ParamType::Float64,
            GripperParams::ClosedPosition => ParamType::Float64,
            GripperParams::CurrentPosition => ParamType::Float64,
            _ => ParamType::Int32,
        }
    }

    /// All parameters, in the order in which they are created.
    pub fn create() -> (r: Vec<GripperParams>)
        ensures
            r@ == all_params(),
    {
        let r: Vec<GripperParams> = vec![
            GripperParams::Connect,
            GripperParams::IsConnected,
            GripperParams::IsOpen,
            GripperParams::IsClosed,
            GripperParams::IsStoppedInner,
            GripperParams::IsStoppedOuter,
            GripperParams::IsActive,
            GripperParams::Activate,
            GripperParams::Open,
            GripperParams::Close,
            GripperParams::SetSpeed,
            GripperParams::SetForce,
            GripperParams::AutoCalibrate,
            GripperParams::OpenPosition,
            GripperParams::ClosedPosition,
            GripperParams::CurrentPosition,
            GripperParams::MoveStatus,
            GripperParams::SetPositionRange,
            GripperParams::MinPosition,
            GripperParams::MaxPosition,
            GripperParams::PositionUnit,
            GripperParams::IsCalibrated,
        ];
        proof {
            assert(r@ =~= all_params());
        }
        r
    }
}

/// All parameters, in the order in which they are created.
pub open spec fn all_params() -> Seq<GripperParams> {
    seq![
        GripperParams::Connect,
        GripperParams::IsConnected,
        GripperParams::IsOpen,
        GripperParams::IsClosed,
        GripperParams::IsStoppedInner,
        GripperParams::IsStoppedOuter,
        GripperParams::IsActive,
        GripperParams::Activate,
        GripperParams::Open,
        GripperParams::Close,
        GripperParams::SetSpeed,
        GripperParams::SetForce,
        GripperParams::AutoCalibrate,
        GripperParams::OpenPosition,
        GripperParams::ClosedPosition,
        GripperParams::CurrentPosition,
        GripperParams::MoveStatus,
        GripperParams::SetPositionRange,
        GripperParams::MinPosition,
        GripperParams::MaxPosition,
        GripperParams::PositionUnit,
        GripperParams::IsCalibrated,
    ]
}

/// Law: every parameter is created.
pub proof fn law_every_parameter_is_created(p: GripperParams)
    ensures
        exists|i: int| 0 <= i < all_params().len() && #[trigger] all_params()[i] == p,
{
    let i: int = match p {
        GripperParams::Connect => 0,
        GripperParams::IsConnected => 1,
        GripperParams::IsOpen => 2,
        GripperParams::IsClosed => 3,
        GripperParams::IsStoppedInner => 4,
        GripperParams::IsStoppedOuter => 5,
        GripperParams::IsActive => 6,
        GripperParams::Activate => 7,
        GripperParams::Open => 8,
        GripperParams::Close => 9,
        GripperParams::SetSpeed => 10,
        GripperParams::SetForce => 11,
        GripperParams::AutoCalibrate => 12,
        GripperParams::OpenPosition => 13,
        GripperParams::ClosedPosition => 14,
        GripperParams::CurrentPosition => 15,
        GripperParams::MoveStatus => 16,
        GripperParams::SetPositionRange => 17,
        GripperParams::MinPosition => 18,
        GripperParams::MaxPosition => 19,
        GripperParams::PositionUnit => 20,
        GripperParams::IsCalibrated => 21,
    };
    assert(all_params()[i] == p);
}

impl GripperParams {
    /// Whether the parameter is a momentary command.
    pub open spec fn commands(self) -> bool {
        match self {
            GripperParams::Connect => true,
            GripperParams::Activate => true,
            GripperParams::Open => true,
            GripperParams::Close => true,
            GripperParams::SetPositionRange => true,
            GripperParams::AutoCalibrate => true,
            _ => false,
        }
    }

    /// Whether the parameter is a momentary command.
    pub fn is_command(self) -> (r: bool)
        ensures
            r == self.commands(),
    {
        match self {
            GripperParams::Connect => true,
            GripperParams::Activate => true,
            GripperParams::Open => true,
            GripperParams::Close => true,
            GripperParams::SetPositionRange => true,
            GripperParams::AutoCalibrate => true,
            _ => false,
        }
    }

    /// Whether the parameter holds what the user set, not what the gripper
    /// says.
    pub open spec fn is_setting(self) -> bool {
        self is SetSpeed || self is SetForce || self is MinPosition || self is MaxPosition
            || self is PositionUnit
    }
}

/// The parameters that are in alarm while the link is down: what the gripper
/// says of itself.
pub open spec fn targets() -> Seq<(GripperParams, i32)> {
    seq![
        (GripperParams::IsOpen, 0i32),
        (GripperParams::IsClosed, 0i32),
        (GripperParams::IsStoppedInner, 0i32),
        (GripperParams::IsStoppedOuter, 0i32),
        (GripperParams::IsActive, 0i32),
        (GripperParams::OpenPosition, 0i32),
        (GripperParams::ClosedPosition, 0i32),
        (GripperParams::CurrentPosition, 0i32),
        (GripperParams::MoveStatus, 0i32),
        (GripperParams::IsCalibrated, 0i32),
    ]
}

/// The parameters that are in alarm while the link is down.
pub fn alarm_targets() -> (r: Vec<(GripperParams, i32)>)
    ensures
        r@ == targets(),
{
    let r: Vec<(GripperParams, i32)> = vec![
        (GripperParams::IsOpen, 0),
        (GripperParams::IsClosed, 0),
        (GripperParams::IsStoppedInner, 0),
        (GripperParams::IsStoppedOuter, 0),
        (GripperParams::IsActive, 0),
        (GripperParams::OpenPosition, 0),
        (GripperParams::ClosedPosition, 0),
        (GripperParams::CurrentPosition, 0),
        (GripperParams::MoveStatus, 0),
        (GripperParams::IsCalibrated, 0),
    ];
    proof {
        assert(r@ =~= targets());
    }
    r
}

/// Law: every parameter is a command, a setting, the link itself, or in alarm
/// while the link is down, and only one of these.
pub proof fn law_every_parameter_has_its_group(p: GripperParams)
    ensures
        (exists|i: int| 0 <= i < targets().len() && (#[trigger] targets()[i]).0 == p) <==> !(
        p.commands() || p.is_setting() || p is IsConnected),
        !(p.commands() && p.is_setting()),
{
    let k: int = match p {
        GripperParams::IsOpen => 0,
        GripperParams::IsClosed => 1,
        GripperParams::IsStoppedInner => 2,
        GripperParams::IsStoppedOuter => 3,
        GripperParams::IsActive => 4,
        GripperParams::OpenPosition => 5,
        GripperParams::ClosedPosition => 6,
        GripperParams::CurrentPosition => 7,
        GripperParams::MoveStatus => 8,
        GripperParams::IsCalibrated => 9,
        _ => -1,
    };
    if k >= 0 {
        assert(targets()[k].0 == p);
    }
}

/// The unit with this number.
pub open spec fn unit_choice(value: i32) -> Option<Unit> {
    match value {
        0 => Some(Unit::Device),
        1 => Some(Unit::Normalized),
        2 => Some(Unit::Percent),
        3 => Some(Unit::Mm),
        _ => None,
    }
}

/// The unit with this number.
pub fn position_unit(value: i32) -> (r: Option<Unit>)
    ensures
        r == unit_choice(value),
{
    match value {
        0 => Some(Unit::Device),
        1 => Some(Unit::Normalized),
        2 => Some(Unit::Percent),
        3 => Some(Unit::Mm),
        _ => None,
    }
}

/// What a write asks for.
#[derive(Debug, Clone, Copy, PartialEq, Eq, Structural)]
pub enum GripperAction {
    Nothing,
    Connect,
    Activate,
    /// Open the jaws, if they are not open.
    Open,
    /// Close the jaws, if they are not closed.
    Close,
    /// Calibrate, if the gripper is active.
    Calibrate,
}

/// What a write of an integer asks for, or why it is refused.
pub open spec fn requested(p: GripperParams, value: i32, robot_on: bool, connected: bool) -> Result<
    GripperAction,
    Seq<char>,
> {
    if p.commands() && value == 0 {
        Ok(GripperAction::Nothing)
    } else if p is MinPosition || p is MaxPosition || p is SetPositionRange || p is PositionUnit {
        Ok(GripperAction::Nothing)
    } else if p is Activate && !(robot_on && connected) {
        Ok(GripperAction::Nothing)
    } else if !robot_on {
        Err("the robot must be powered on and the dashboard connected to use the gripper"@)
    } else if p is Connect {
        Ok(GripperAction::Connect)
    } else if !connected {
        Err("the Robotiq gripper is not connected"@)
    } else if p is Activate {
        Ok(GripperAction::Activate)
    } else if p is Open {
        Ok(GripperAction::Open)
    } else if p is Close {
        Ok(GripperAction::Close)
    } else if p is AutoCalibrate {
        Ok(GripperAction::Calibrate)
    } else {
        Ok(GripperAction::Nothing)
    }
}

/// What a write of an integer leaves in the gripper's settings.
pub open spec fn configured(
    g: RobotiqGripper,
    p: GripperParams,
    value: i32,
    min: i32,
    max: i32,
) -> RobotiqGripper {
    if p is SetPositionRange && value != 0 {
        RobotiqGripper {
            cfg: device::GripperConfig { min_position: min, max_position: max, ..g.cfg },
            ..g
        }
    } else if p is PositionUnit && unit_choice(value) is Some {
        RobotiqGripper {
            cfg: device::GripperConfig { position_unit: unit_choice(value)->0, ..g.cfg },
            ..g
        }
    } else {
        g
    }
}

/// The number that was staged, or zero.
pub open spec fn staged(v: Option<i32>) -> i32 {
    match v {
        Some(n) => n,
        None => 0,
    }
}

/// What a write of an integer asks for. `min` and `max` are what was staged for
/// the range.
pub fn write_int32(
    g: &mut RobotiqGripper,
    p: GripperParams,
    value: i32,
    min: Option<i32>,
    max: Option<i32>,
    robot_on: bool,
    connected: bool,
) -> (r: Result<GripperAction, String>)
    ensures
        *final(g) == configured(*old(g), p, value, staged(min), staged(max)),
        match r {
            Ok(a) => requested(p, value, robot_on, connected) == Ok::<GripperAction, Seq<char>>(a),
            Err(e) => requested(p, value, robot_on, connected) == Err::<GripperAction, Seq<char>>(
                e@,
            ),
        },
{
    if p.is_command() && value == 0 {
        return Ok(GripperAction::Nothing);
    }
    match p {
        GripperParams::MinPosition | GripperParams::MaxPosition => {
            return Ok(GripperAction::Nothing);
        },
        GripperParams::SetPositionRange => {
            let lo: i32 = match min {
                Some(n) => n,
                None => 0,
            };
            let hi: i32 = match max {
                Some(n) => n,
                None => 0,
            };
            g.set_native_position_range(lo, hi);
            return Ok(GripperAction::Nothing);
        },
        GripperParams::PositionUnit => {
            match position_unit(value) {
                Some(unit) => {
                    g.cfg.position_unit = unit;
                },
                None => {},
            }
            return Ok(GripperAction::Nothing);
        },
        GripperParams::Activate => {
            if !(robot_on && connected) {
                return Ok(GripperAction::Nothing);
            }
        },
        _ => {},
    }
    if !robot_on {
        return Err(
            "the robot must be powered on and the dashboard connected to use the gripper".to_owned(),
        );
    }
    match p {
        GripperParams::Connect => {
            return Ok(GripperAction::Connect);
        },
        _ => {},
    }
    if !connected {
        return Err("the Robotiq gripper is not connected".to_owned());
    }
    match p {
        GripperParams::Activate => Ok(GripperAction::Activate),
        GripperParams::Open => Ok(GripperAction::Open),
        GripperParams::Close => Ok(GripperAction::Close),
        GripperParams::AutoCalibrate => Ok(GripperAction::Calibrate),
        _ => Ok(GripperAction::Nothing),
    }
}

/// What a write of a number leaves in the gripper's settings. `counts` is the
/// number in device counts.
pub fn write_float64(g: &mut RobotiqGripper, p: GripperParams, counts: i32)
    ensures
        *final(g) == match p {
            GripperParams::SetSpeed => (RobotiqGripper {
                speed: device::clamped(counts as int, 1, 255) as i32,
                ..*old(g)
            }),
            GripperParams::SetForce => (RobotiqGripper {
                force: device::clamped(counts as int, 0, 255) as i32,
                ..*old(g)
            }),
            _ => *old(g),
        },
{
    match p {
        GripperParams::SetSpeed => {
            let _ = g.set_speed(counts);
        },
        GripperParams::SetForce => {
            let _ = g.set_force(counts);
        },
        _ => {},
    }
}

/// Law: a zero written to a command does nothing, whatever the link.
pub proof fn law_zero_to_a_command_does_nothing(
    g: RobotiqGripper,
    p: GripperParams,
    min: i32,
    max: i32,
    robot_on: bool,
    connected: bool,
)
    requires
        p.commands(),
    ensures
        requested(p, 0, robot_on, connected) == Ok::<GripperAction, Seq<char>>(
            GripperAction::Nothing,
        ),
        configured(g, p, 0, min, max) == g,
{
}

/// Law: what is set while the gripper cannot be reached is not lost. Writes of
/// the range, of the unit and of an activation succeed without a link, and the
/// settings are the same as they would be with one.
pub proof fn law_settings_survive_without_a_link(p: GripperParams, value: i32)
    requires
        p is MinPosition || p is MaxPosition || p is SetPositionRange || p is PositionUnit
            || p is Activate,
    ensures
        requested(p, value, false, false) is Ok,
        !(p is Activate) ==> requested(p, value, false, false) == requested(p, value, true, true),
{
}

/// Whether an activation was asked for and is still owed when the link comes.
/// `cached` is what was last written.
pub fn pending_activation(cached: Option<i32>) -> (r: bool)
    ensures
        r == (staged(cached) != 0),
{
    match cached {
        Some(v) => v != 0,
        None => false,
    }
}

/// Where a request to open or close the jaws stands.
#[derive(Debug)]
pub enum EndCheck {
    /// The jaws are there, or stopped on an object on the way: no motion.
    AlreadyThere,
    /// The object status decides.
    ReadObject,
    /// Start this motion.
    Start(Vec<Step>),
}

/// Whether the jaws are at the end asked for.
pub open spec fn at_end(g: RobotiqGripper, closing: bool, position: i32) -> bool {
    if closing {
        position >= g.cfg.max_position
    } else {
        position <= g.cfg.min_position
    }
}

/// Whether the jaws stopped on an object on the way to the end asked for.
pub open spec fn on_object(closing: bool, object: ObjectStatus) -> bool {
    if closing {
        object is StoppedInnerObject
    } else {
        object is StoppedOuterObject
    }
}

/// Where a request to open or close the jaws stands, given their position and,
/// once it was read, the object status.
pub fn end_check(g: &RobotiqGripper, closing: bool, position: i32, object: Option<ObjectStatus>) -> (r:
    EndCheck)
    ensures
        match r {
            EndCheck::AlreadyThere => at_end(*g, closing, position) || (object is Some
                && on_object(closing, object->0)),
            EndCheck::ReadObject => !at_end(*g, closing, position) && object is None,
            EndCheck::Start(steps) => {
                &&& !at_end(*g, closing, position)
                &&& object is Some && !on_object(closing, object->0)
                &&& steps@ == device::move_sequence(
                    if closing {
                        255
                    } else {
                        0
                    },
                    g.speed,
                    g.force,
                    MoveMode::StartMove,
                )
            },
        },
{
    let there = if closing {
        g.is_closed(position)
    } else {
        g.is_open(position)
    };
    if there {
        return EndCheck::AlreadyThere;
    }
    let status = match object {
        None => {
            return EndCheck::ReadObject;
        },
        Some(s) => s,
    };
    let (inner, outer) = stopped_flags(status);
    if closing {
        if inner {
            return EndCheck::AlreadyThere;
        }
        EndCheck::Start(g.close(MoveMode::StartMove))
    } else {
        if outer {
            return EndCheck::AlreadyThere;
        }
        EndCheck::Start(g.open(MoveMode::StartMove))
    }
}

/// What is published when a request to open or close the jaws starts no
/// motion: the request is taken back, so that its record does not wait.
pub fn released(closing: bool) -> (r: Vec<Update<GripperParams>>)
    ensures
        super::views(r@) == seq![
            super::int_update(
                if closing {
                    GripperParams::Close
                } else {
                    GripperParams::Open
                },
                0,
            ),
        ],
{
    let mut r: Vec<Update<GripperParams>> = Vec::new();
    let p = if closing {
        GripperParams::Close
    } else {
        GripperParams::Open
    };
    super::push_int(&mut r, p, 0);
    proof {
        assert(super::views(r@) =~= seq![super::int_update(p, 0)]);
    }
    r
}

/// Whether a calibration may begin.
pub fn may_calibrate(active: bool) -> (r: UrResult<()>)
    ensures
        if active {
            r is Ok
        } else {
            r is Err && r->Err_0@ == UrFault::Protocol(
                "activate the gripper before auto-calibrating"@,
            )
        },
{
    if active {
        Ok(())
    } else {
        Err(UrError::Protocol("activate the gripper before auto-calibrating".to_owned()))
    }
}

/// What is published when a calibration ended.
pub fn calibrated() -> (r: Vec<Update<GripperParams>>)
    ensures
        super::views(r@) == seq![super::int_update(GripperParams::IsCalibrated, 1)],
{
    let mut r: Vec<Update<GripperParams>> = Vec::new();
    super::push_int(&mut r, GripperParams::IsCalibrated, 1);
    proof {
        assert(super::views(r@) =~= seq![super::int_update(GripperParams::IsCalibrated, 1)]);
    }
    r
}

/// Whether the jaws stopped on an object, on the inner or on the outer side.
pub fn stopped_flags(status: ObjectStatus) -> (r: (bool, bool))
    ensures
        r == (status is StoppedInnerObject, status is StoppedOuterObject),
{
    match status {
        ObjectStatus::StoppedInnerObject => (true, false),
        ObjectStatus::StoppedOuterObject => (false, true),
        _ => (false, false),
    }
}

/// What the gripper answered in one look. The positions that are numbers in
/// the user's unit are held as their bits.
#[derive(Debug, Clone, Copy)]
pub struct Answers {
    pub status: device::Status,
    /// The device positions as they were read, one for each question.
    pub position_for_open: i32,
    pub position_for_closed: i32,
    pub current: u64,
    pub open_position: u64,
    pub closed_position: u64,
    pub object: ObjectStatus,
}

/// A number at address 0.
pub open spec fn float_update(p: GripperParams, v: u64) -> UpdateView<GripperParams> {
    UpdateView { param: p, addr: 0, value: PublishedView::Float64(v, Scale::Raw) }
}

/// What the answers publish.
pub open spec fn answered(g: RobotiqGripper, a: Answers) -> Seq<UpdateView<GripperParams>> {
    seq![
        super::int_update(GripperParams::IsConnected, 1),
        super::int_update(GripperParams::IsActive, super::flag(a.status is Active)),
        super::int_update(
            GripperParams::IsOpen,
            super::flag(a.position_for_open <= g.cfg.min_position),
        ),
        super::int_update(
            GripperParams::IsClosed,
            super::flag(a.position_for_closed >= g.cfg.max_position),
        ),
        float_update(GripperParams::CurrentPosition, a.current),
        float_update(GripperParams::OpenPosition, a.open_position),
        float_update(GripperParams::ClosedPosition, a.closed_position),
        super::int_update(GripperParams::MoveStatus, a.object.number()),
        super::int_update(
            GripperParams::IsStoppedInner,
            super::flag(a.object is StoppedInnerObject),
        ),
        super::int_update(
            GripperParams::IsStoppedOuter,
            super::flag(a.object is StoppedOuterObject),
        ),
    ]
}

fn push_float(out: &mut Vec<Update<GripperParams>>, p: GripperParams, v: u64)
    ensures
        super::views(final(out)@) == super::views(old(out)@).push(float_update(p, v)),
{
    super::push_update(out, p, 0, Published::Float64(v, Scale::Raw));
}

/// What the answers publish.
pub fn poll_once(g: &RobotiqGripper, a: Answers) -> (r: Vec<Update<GripperParams>>)
    ensures
        super::views(r@) == answered(*g, a),
{
    let (inner, outer) = stopped_flags(a.object);
    let mut r: Vec<Update<GripperParams>> = Vec::new();
    super::push_int(&mut r, GripperParams::IsConnected, 1);
    super::push_int(
        &mut r,
        GripperParams::IsActive,
        super::to_flag(device::is_active(a.status)),
    );
    super::push_int(
        &mut r,
        GripperParams::IsOpen,
        super::to_flag(g.is_open(a.position_for_open)),
    );
    super::push_int(
        &mut r,
        GripperParams::IsClosed,
        super::to_flag(g.is_closed(a.position_for_closed)),
    );
    push_float(&mut r, GripperParams::CurrentPosition, a.current);
    push_float(&mut r, GripperParams::OpenPosition, a.open_position);
    push_float(&mut r, GripperParams::ClosedPosition, a.closed_position);
    super::push_int(&mut r, GripperParams::MoveStatus, a.object.raw());
    super::push_int(&mut r, GripperParams::IsStoppedInner, super::to_flag(inner));
    super::push_int(&mut r, GripperParams::IsStoppedOuter, super::to_flag(outer));
    proof {
        assert(super::views(r@) =~= answered(*g, a));
    }
    r
}

/// One look at the gripper: what is published, whether the link is healthy,
/// and whether it is to be closed. `found` is `None` when the robot is off,
/// there is no link, or the gripper did not answer.
pub fn polled(g: &RobotiqGripper, found: Option<Answers>) -> (r: (
    Vec<Update<GripperParams>>,
    bool,
    bool,
))
    ensures
        match found {
            Some(a) => super::views(r.0@) == answered(*g, a) && r.1 && !r.2,
            None => super::views(r.0@) == seq![super::int_update(GripperParams::IsConnected, 0)]
                && !r.1 && r.2,
        },
{
    match found {
        Some(a) => (poll_once(g, a), true, false),
        None => {
            let mut r: Vec<Update<GripperParams>> = Vec::new();
            super::push_int(&mut r, GripperParams::IsConnected, 0);
            proof {
                assert(super::views(r@) =~= seq![
                    super::int_update(GripperParams::IsConnected, 0),
                ]);
            }
            (r, false, true)
        },
    }
}

/// The names under which records find the parameters.
pub proof fn law_parameters_have_their_names()
    ensures
        GripperParams::Connect.text() == "CONNECT"@,
        GripperParams::IsConnected.text() == "IS_CONNECTED"@,
        GripperParams::IsOpen.text() == "IS_OPEN"@,
        GripperParams::IsClosed.text() == "IS_CLOSED"@,
        GripperParams::IsStoppedInner.text() == "IS_STOPPED_INNER"@,
        GripperParams::IsStoppedOuter.text() == "IS_STOPPED_OUTER"@,
        GripperParams::IsActive.text() == "IS_ACTIVE"@,
        GripperParams::Activate.text() == "ACTIVATE"@,
        GripperParams::Open.text() == "OPEN"@,
        GripperParams::Close.text() == "CLOSE"@,
        GripperParams::SetSpeed.text() == "SET_SPEED"@,
        GripperParams::SetForce.text() == "SET_FORCE"@,
        GripperParams::AutoCalibrate.text() == "AUTO_CALIBRATE"@,
        GripperParams::OpenPosition.text() == "OPEN_POSITION"@,
        GripperParams::ClosedPosition.text() == "CLOSED_POSITION"@,
        GripperParams::CurrentPosition.text() == "CURRENT_POSITION"@,
        GripperParams::MoveStatus.text() == "MOVE_STATUS"@,
        GripperParams::SetPositionRange.text() == "SET_POSITION_RANGE"@,
        GripperParams::MinPosition.text() == "MIN_POSITION"@,
        GripperParams::MaxPosition.text() == "MAX_POSITION"@,
        GripperParams::PositionUnit.text() == "POSITION_UNIT"@,
        GripperParams::IsCalibrated.text() == "IS_CALIBRATED"@,
{
}

/// The kinds of value that the parameters hold.
pub proof fn law_parameters_have_their_kinds()
    ensures
        GripperParams::Connect.kind() == ParamType::Int32,
        GripperParams::IsConnected.kind() == ParamType::Int32,
        GripperParams::IsOpen.kind() == ParamType::Int32,
        GripperParams::IsClosed.kind() == ParamType::Int32,
        GripperParams::IsStoppedInner.kind() == ParamType::Int32,
        GripperParams::IsStoppedOuter.kind() == ParamType::Int32,
        GripperParams::IsActive.kind() == ParamType::Int32,
        GripperParams::Activate.kind() == ParamType::Int32,
        GripperParams::Open.kind() == ParamType::Int32,
        GripperParams::Close.kind() == ParamType::Int32,
        GripperParams::SetSpeed.kind() == ParamType::Float64,
        GripperParams::SetForce.kind() == ParamType::Float64,
        GripperParams::AutoCalibrate.kind() == ParamType::Int32,
        GripperParams::OpenPosition.kind() == ParamType::Float64,
        GripperParams::ClosedPosition.kind() == ParamType::Float64,
        GripperParams::CurrentPosition.kind() == ParamType::Float64,
        GripperParams::MoveStatus.kind() == ParamType::Int32,
        GripperParams::SetPositionRange.kind() == ParamType::Int32,
        GripperParams::MinPosition.kind() == ParamType::Int32,
        GripperParams::MaxPosition.kind() == ParamType::Int32,
        GripperParams::PositionUnit.kind() == ParamType::Int32,
        GripperParams::IsCalibrated.kind() == ParamType::Int32,
{
}

/// The parameters that are commands: a number other than zero acts, zero does
/// nothing.
pub proof fn law_these_parameters_are_commands(p: GripperParams)
    ensures
        p.commands() <==> p is Connect || p is Activate || p is Open || p is Close || p is AutoCalibrate || p is SetPositionRange,
{
}

/// What each command asks of the gripper, over a link and with the robot on.
pub proof fn law_commands_ask_for_their_action(p: GripperParams, value: i32)
    requires
        value != 0,
    ensures
        requested(p, value, true, true) == Ok::<GripperAction, Seq<char>>(
            if p is Connect {
                GripperAction::Connect
            } else if p is Activate {
                GripperAction::Activate
            } else if p is Open {
                GripperAction::Open
            } else if p is Close {
                GripperAction::Close
            } else if p is AutoCalibrate {
                GripperAction::Calibrate
            } else {
                GripperAction::Nothing
            },
        ),
        requested(p, value, true, false) is Ok <==> p is Connect || p is Activate
            || p is MinPosition || p is MaxPosition || p is SetPositionRange || p is PositionUnit,
        requested(p, value, false, true) is Ok <==> p is Activate || p is MinPosition
            || p is MaxPosition || p is SetPositionRange || p is PositionUnit,
        requested(p, value, false, true) matches Ok(a) ==> a is Nothing,
        requested(GripperParams::Activate, value, true, false) == Ok::<GripperAction, Seq<char>>(
            GripperAction::Nothing,
        ),
{
}

/// The unit of positions is chosen by number, and the range of positions by the
/// two ends that were staged: the open one first.
pub proof fn law_configuration_is_taken_over(
    g: RobotiqGripper,
    value: i32,
    min: i32,
    max: i32,
    p: GripperParams,
)
    ensures
        value != 0 ==> configured(g, GripperParams::SetPositionRange, value, min, max).cfg.min_position
            == min && configured(g, GripperParams::SetPositionRange, value, min, max).cfg.max_position
            == max,
        configured(g, GripperParams::PositionUnit, 0, min, max).cfg.position_unit is Device,
        configured(g, GripperParams::PositionUnit, 1, min, max).cfg.position_unit is Normalized,
        configured(g, GripperParams::PositionUnit, 2, min, max).cfg.position_unit is Percent,
        configured(g, GripperParams::PositionUnit, 3, min, max).cfg.position_unit is Mm,
        value < 0 || value > 3 ==> configured(g, GripperParams::PositionUnit, value, min, max) == g,
        !(p is SetPositionRange) && !(p is PositionUnit) ==> configured(g, p, value, min, max) == g,
        configured(g, p, value, min, max).speed == g.speed,
        configured(g, p, value, min, max).force == g.force,
{
}

/// The jaws are at an end where the device counts say so, and an object on the
/// way is one inside when they close and one outside when they open.
pub proof fn law_ends_and_objects_by_direction(g: RobotiqGripper, position: i32, o: ObjectStatus)
    ensures
        at_end(g, true, position) <==> position >= g.cfg.max_position,
        at_end(g, false, position) <==> position <= g.cfg.min_position,
        on_object(true, o) <==> o.number() == 2 && !(o is Other),
        on_object(false, o) <==> o.number() == 1 && !(o is Other),
{
}

/// Each answer of the gripper is shown under its own parameter.
pub proof fn law_answers_are_shown_under_their_names(g: RobotiqGripper, a: Answers, i: int)
    requires
        0 <= i < answered(g, a).len(),
    ensures
        ({
            let u = answered(g, a)[i];
            let n = if let PublishedView::Int32(v) = u.value {
                v
            } else {
                7i32
            };
            match u.param {
                GripperParams::IsConnected => n == 1,
                GripperParams::IsActive => n == 1 && a.status is Active || n == 0 && !(
                a.status is Active),
                GripperParams::IsOpen => n == 1 && a.position_for_open <= g.cfg.min_position || n
                    == 0 && a.position_for_open > g.cfg.min_position,
                GripperParams::IsClosed => n == 1 && a.position_for_closed >= g.cfg.max_position || n
                    == 0 && a.position_for_closed < g.cfg.max_position,
                GripperParams::CurrentPosition => u.value == PublishedView::Float64(
                    a.current,
                    Scale::Raw,
                ),
                GripperParams::OpenPosition => u.value == PublishedView::Float64(
                    a.open_position,
                    Scale::Raw,
                ),
                GripperParams::ClosedPosition => u.value == PublishedView::Float64(
                    a.closed_position,
                    Scale::Raw,
                ),
                GripperParams::MoveStatus => u.value == PublishedView::Int32(a.object.number()),
                GripperParams::IsStoppedInner => n == 1 && a.object is StoppedInnerObject || n == 0
                    && !(a.object is StoppedInnerObject),
                GripperParams::IsStoppedOuter => n == 1 && a.object is StoppedOuterObject || n == 0
                    && !(a.object is StoppedOuterObject),
                _ => false,
            }
        }),
        answered(g, a).len() == 10,
        answered(g, a)[i].addr == 0,
{
}

/// What a refused write says: the power comes before the link.
pub proof fn law_refusals_say_what_is_missing(p: GripperParams, value: i32, connected: bool)
    ensures
        requested(p, value, false, connected) matches Err(e) ==> e
            == "the robot must be powered on and the dashboard connected to use the gripper"@,
        requested(p, value, true, false) matches Err(e) ==> e
            == "the Robotiq gripper is not connected"@,
        requested(p, value, true, true) is Ok,
        staged(None) == 0 && staged(Some(value)) == value,
{
}

} // verus!
