//! The receive port: the state of the robot, published as it comes.
//!
//! The port keeps its link up by itself: a stream that is down or stale is
//! made again, at once and then after growing pauses, and while it is down
//! every value it publishes is in alarm.

use super::super::registry::ReceiveState;
use super::super::state::ValueView;
use super::super::stream;
use super::super::stream::Snapshot;
use super::{Published, PublishedView, Scale, Update, UpdateView};
use crate::bytes;
use crate::param::ParamType;
use crate::text;
use vstd::prelude::*;
use vstd::string::*;

verus! {

/// The number of joints, and of the elements of a pose.
pub const NUM_JOINTS: usize = 6;

/// The parameters of the receive port.
#[derive(Debug, Clone, Copy, PartialEq, Eq, Structural)]
pub enum ReceiveParams {
    Disconnect,
    Reconnect,
    IsConnected,
    RuntimeState,
    RobotMode,
    SafetyStatusBits,
    ControllerTimestamp,
    StdAnalogInput0,
    StdAnalogInput1,
    StdAnalogOutput0,
    StdAnalogOutput1,
    ActualJointPosArr,
    ActualJointPos,
    ActualTcpPoseArr,
    ActualTcpPose,
    DigitalInputBits,
    DigitalOutputBits,
    ActualJointVelocities,
    ActualJointCurrents,
    JointControlCurrents,
    ActualTcpSpeed,
    ActualTcpForce,
    SafetyMode,
    JointModes,
    ActualToolAccel,
    TargetJointPositions,
    TargetJointVelocities,
    TargetJointAccelerations,
    TargetJointCurrents,
    TargetJointMoments,
    TargetTcpPose,
    TargetTcpSpeed,
    JointTemperatures,
    SpeedScaling,
    TargetSpeedFraction,
    ActualMomentum,
    ActualMainVoltage,
    ActualRobotVoltage,
    ActualRobotCurrent,
    ActualJointVoltages,
    OutputIntegerReg12,
}

impl ReceiveParams {
    /// The name under which a record finds the parameter.
    pub open spec fn text(self) -> Seq<char> {
        match self {
            ReceiveParams::Disconnect => "DISCONNECT"@,
            ReceiveParams::Reconnect => "RECONNECT"@,
            ReceiveParams::IsConnected => "IS_CONNECTED"@,
            ReceiveParams::RuntimeState => "RUNTIME_STATE"@,
            ReceiveParams::RobotMode => "ROBOT_MODE"@,
            ReceiveParams::SafetyStatusBits => "SAFETY_STATUS_BITS"@,
            ReceiveParams::ControllerTimestamp => "CONTROLLER_TIMESTAMP"@,
            ReceiveParams::StdAnalogInput0 => "STD_ANALOG_INPUT0"@,
            ReceiveParams::StdAnalogInput1 => "STD_ANALOG_INPUT1"@,
            ReceiveParams::StdAnalogOutput0 => "STD_ANALOG_OUTPUT0"@,
            ReceiveParams::StdAnalogOutput1 => "STD_ANALOG_OUTPUT1"@,
            ReceiveParams::ActualJointPosArr => "ACTUAL_JOINT_POS_ARR"@,
            ReceiveParams::ActualJointPos => "ACTUAL_JOINT_POS"@,
            ReceiveParams::ActualTcpPoseArr => "ACTUAL_TCP_POSE_ARR"@,
            ReceiveParams::ActualTcpPose => "ACTUAL_TCP_POSE"@,
            ReceiveParams::DigitalInputBits => "DIGITAL_INPUT_BITS"@,
            ReceiveParams::DigitalOutputBits => "DIGITAL_OUTPUT_BITS"@,
            ReceiveParams::ActualJointVelocities => "ACTUAL_JOINT_VELOCITIES"@,
            ReceiveParams::ActualJointCurrents => "ACTUAL_JOINT_CURRENTS"@,
            ReceiveParams::JointControlCurrents => "JOINT_CONTROL_CURRENTS"@,
            ReceiveParams::ActualTcpSpeed => "ACTUAL_TCP_SPEED"@,
            ReceiveParams::ActualTcpForce => "ACTUAL_TCP_FORCE"@,
            ReceiveParams::SafetyMode => "SAFETY_MODE"@,
            ReceiveParams::JointModes => "JOINT_MODES"@,
            ReceiveParams::ActualToolAccel => "ACTUAL_TOOL_ACCEL"@,
            ReceiveParams::TargetJointPositions => "TARGET_JOINT_POSITIONS"@,
            ReceiveParams::TargetJointVelocities => "TARGET_JOINT_VELOCITIES"@,
            ReceiveParams::TargetJointAccelerations => "TARGET_JOINT_ACCELERATIONS"@,
            ReceiveParams::TargetJointCurrents => "TARGET_JOINT_CURRENTS"@,
            ReceiveParams::TargetJointMoments => "TARGET_JOINT_MOMENTS"@,
            ReceiveParams::TargetTcpPose => "TARGET_TCP_POSE"@,
            ReceiveParams::TargetTcpSpeed => "TARGET_TCP_SPEED"@,
            ReceiveParams::JointTemperatures => "JOINT_TEMPERATURES"@,
            ReceiveParams::SpeedScaling => "SPEED_SCALING"@,
            ReceiveParams::TargetSpeedFraction => "TARGET_SPEED_FRACTION"@,
            ReceiveParams::ActualMomentum => "ACTUAL_MOMENTUM"@,
            ReceiveParams::ActualMainVoltage => "ACTUAL_MAIN_VOLTAGE"@,
            ReceiveParams::ActualRobotVoltage => "ACTUAL_ROBOT_VOLTAGE"@,
            ReceiveParams::ActualRobotCurrent => "ACTUAL_ROBOT_CURRENT"@,
            ReceiveParams::ActualJointVoltages => "ACTUAL_JOINT_VOLTAGES"@,
            ReceiveParams::OutputIntegerReg12 => "OUTPUT_INTEGER_REG12"@,
        }
    }

    /// The name under which a record finds the parameter.
    pub fn name(self) -> (r: &'static str)
        ensures
            r@ == self.text(),
    {
        match self {
            ReceiveParams::Disconnect => "DISCONNECT",
            ReceiveParams::Reconnect => "RECONNECT",
            ReceiveParams::IsConnected => "IS_CONNECTED",
            ReceiveParams::RuntimeState => "RUNTIME_STATE",
            ReceiveParams::RobotMode => "ROBOT_MODE",
            ReceiveParams::SafetyStatusBits => "SAFETY_STATUS_BITS",
            ReceiveParams::ControllerTimestamp => "CONTROLLER_TIMESTAMP",
            ReceiveParams::StdAnalogInput0 => "STD_ANALOG_INPUT0",
            ReceiveParams::StdAnalogInput1 => "STD_ANALOG_INPUT1",
            ReceiveParams::StdAnalogOutput0 => "STD_ANALOG_OUTPUT0",
            ReceiveParams::StdAnalogOutput1 => "STD_ANALOG_OUTPUT1",
            ReceiveParams::ActualJointPosArr => "ACTUAL_JOINT_POS_ARR",
            ReceiveParams::ActualJointPos => "ACTUAL_JOINT_POS",
            ReceiveParams::ActualTcpPoseArr => "ACTUAL_TCP_POSE_ARR",
            ReceiveParams::ActualTcpPose => "ACTUAL_TCP_POSE",
            ReceiveParams::DigitalInputBits => "DIGITAL_INPUT_BITS",
            ReceiveParams::DigitalOutputBits => "DIGITAL_OUTPUT_BITS",
            ReceiveParams::ActualJointVelocities => "ACTUAL_JOINT_VELOCITIES",
            ReceiveParams::ActualJointCurrents => "ACTUAL_JOINT_CURRENTS",
            ReceiveParams::JointControlCurrents => "JOINT_CONTROL_CURRENTS",
            ReceiveParams::ActualTcpSpeed => "ACTUAL_TCP_SPEED",
            ReceiveParams::ActualTcpForce => "ACTUAL_TCP_FORCE",
            ReceiveParams::SafetyMode => "SAFETY_MODE",
            ReceiveParams::JointModes => "JOINT_MODES",
            ReceiveParams::ActualToolAccel => "ACTUAL_TOOL_ACCEL",
            ReceiveParams::TargetJointPositions => "TARGET_JOINT_POSITIONS",
            ReceiveParams::TargetJointVelocities => "TARGET_JOINT_VELOCITIES",
            ReceiveParams::TargetJointAccelerations => "TARGET_JOINT_ACCELERATIONS",
            ReceiveParams::TargetJointCurrents => "TARGET_JOINT_CURRENTS",
            ReceiveParams::TargetJointMoments => "TARGET_JOINT_MOMENTS",
            ReceiveParams::TargetTcpPose => "TARGET_TCP_POSE",
            ReceiveParams::TargetTcpSpeed => "TARGET_TCP_SPEED",
            ReceiveParams::JointTemperatures => "JOINT_TEMPERATURES",
            ReceiveParams::SpeedScaling => "SPEED_SCALING",
            ReceiveParams::TargetSpeedFraction => "TARGET_SPEED_FRACTION",
            ReceiveParams::ActualMomentum => "ACTUAL_MOMENTUM",
            ReceiveParams::ActualMainVoltage => "ACTUAL_MAIN_VOLTAGE",
            ReceiveParams::ActualRobotVoltage => "ACTUAL_ROBOT_VOLTAGE",
            ReceiveParams::ActualRobotCurrent => "ACTUAL_ROBOT_CURRENT",
            ReceiveParams::ActualJointVoltages => "ACTUAL_JOINT_VOLTAGES",
            ReceiveParams::OutputIntegerReg12 => "OUTPUT_INTEGER_REG12",
        }
    }

    /// The type of the parameter.
    pub open spec fn kind(self) -> ParamType {
        match self {
            ReceiveParams::Disconnect => ParamType::Int32,
            ReceiveParams::Reconnect => ParamType::Int32,
            ReceiveParams::IsConnected => ParamType::Int32,
            ReceiveParams::RuntimeState => ParamType::Int32,
            ReceiveParams::RobotMode => ParamType::Int32,
            ReceiveParams::SafetyStatusBits => ParamType::Int32,
            ReceiveParams::ControllerTimestamp => ParamType::Float64,
            ReceiveParams::StdAnalogInput0 => ParamType::Float64,
            ReceiveParams::StdAnalogInput1 => ParamType::Float64,
            ReceiveParams::StdAnalogOutput0 => ParamType::Float64,
            ReceiveParams::StdAnalogOutput1 => ParamType::Float64,
            ReceiveParams::ActualJointPos => ParamType::Float64,
            ReceiveParams::ActualTcpPose => ParamType::Float64,
            ReceiveParams::DigitalInputBits => ParamType::Int32,
            ReceiveParams::DigitalOutputBits => ParamType::Int32,
            ReceiveParams::SafetyMode => ParamType::Int32,
            ReceiveParams::JointModes => ParamType::Int32Array,
            ReceiveParams::SpeedScaling => ParamType::Float64,
            ReceiveParams::TargetSpeedFraction => ParamType::Float64,
            ReceiveParams::ActualMomentum => ParamType::Float64,
            ReceiveParams::ActualMainVoltage => ParamType::Float64,
            ReceiveParams::ActualRobotVoltage => ParamType::Float64,
            ReceiveParams::ActualRobotCurrent => ParamType::Float64,
            ReceiveParams::OutputIntegerReg12 => ParamType::Int32,
            _ => ParamType::Float64Array,
        }
    }

    /// The type of the parameter.
    pub fn param_type(self) -> (r: ParamType)
        ensures
            r == self.kind(),
    {
        match self {
            ReceiveParams::Disconnect => ParamType::Int32,
            ReceiveParams::Reconnect => ParamType::Int32,
            ReceiveParams::IsConnected => ParamType::Int32,
            ReceiveParams::RuntimeState => ParamType::Int32,
            ReceiveParams::RobotMode => ParamType::Int32,
            ReceiveParams::SafetyStatusBits => ParamType::Int32,
            ReceiveParams::ControllerTimestamp => ParamType::Float64,
            ReceiveParams::StdAnalogInput0 => ParamType::Float64,
            ReceiveParams::StdAnalogInput1 => ParamType::Float64,
            ReceiveParams::StdAnalogOutput0 => ParamType::Float64,
            ReceiveParams::StdAnalogOutput1 => ParamType::Float64,
            ReceiveParams::ActualJointPos => ParamType::Float64,
            ReceiveParams::ActualTcpPose => ParamType::Float64,
            ReceiveParams::DigitalInputBits => ParamType::Int32,
            ReceiveParams::DigitalOutputBits => ParamType::Int32,
            ReceiveParams::SafetyMode => ParamType::Int32,
            ReceiveParams::JointModes => ParamType::Int32Array,
            ReceiveParams::SpeedScaling => ParamType::Float64,
            ReceiveParams::TargetSpeedFraction => ParamType::Float64,
            ReceiveParams::ActualMomentum => ParamType::Float64,
            ReceiveParams::ActualMainVoltage => ParamType::Float64,
            ReceiveParams::ActualRobotVoltage => ParamType::Float64,
            ReceiveParams::ActualRobotCurrent => ParamType::Float64,
            ReceiveParams::OutputIntegerReg12 => ParamType::Int32,
            _ => ParamType::Float64Array,
        }
    }

    /// All parameters, in the order in which they are created.
    pub fn create() -> (r: Vec<ReceiveParams>)
        ensures
            r@ == all_params(),
    {
        let r: Vec<ReceiveParams> = vec![
            ReceiveParams::Disconnect,
            ReceiveParams::Reconnect,
            ReceiveParams::IsConnected,
            ReceiveParams::RuntimeState,
            ReceiveParams::RobotMode,
            ReceiveParams::SafetyStatusBits,
            ReceiveParams::ControllerTimestamp,
            ReceiveParams::StdAnalogInput0,
            ReceiveParams::StdAnalogInput1,
            ReceiveParams::StdAnalogOutput0,
            ReceiveParams::StdAnalogOutput1,
            ReceiveParams::ActualJointPosArr,
            ReceiveParams::ActualJointPos,
            ReceiveParams::ActualTcpPoseArr,
            ReceiveParams::ActualTcpPose,
            ReceiveParams::DigitalInputBits,
            ReceiveParams::DigitalOutputBits,
            ReceiveParams::ActualJointVelocities,
            ReceiveParams::ActualJointCurrents,
            ReceiveParams::JointControlCurrents,
            ReceiveParams::ActualTcpSpeed,
            ReceiveParams::ActualTcpForce,
            ReceiveParams::SafetyMode,
            ReceiveParams::JointModes,
            ReceiveParams::ActualToolAccel,
            ReceiveParams::TargetJointPositions,
            ReceiveParams::TargetJointVelocities,
            ReceiveParams::TargetJointAccelerations,
            ReceiveParams::TargetJointCurrents,
            ReceiveParams::TargetJointMoments,
            ReceiveParams::TargetTcpPose,
            ReceiveParams::TargetTcpSpeed,
            ReceiveParams::JointTemperatures,
            ReceiveParams::SpeedScaling,
            ReceiveParams::TargetSpeedFraction,
            ReceiveParams::ActualMomentum,
            ReceiveParams::ActualMainVoltage,
            ReceiveParams::ActualRobotVoltage,
            ReceiveParams::ActualRobotCurrent,
            ReceiveParams::ActualJointVoltages,
            ReceiveParams::OutputIntegerReg12,
        ];
        proof {
            assert(r@ =~= all_params());
        }
        r
    }
}

/// All parameters, in the order in which they are created.
pub open spec fn all_params() -> Seq<ReceiveParams> {
    seq![
        ReceiveParams::Disconnect,
        ReceiveParams::Reconnect,
        ReceiveParams::IsConnected,
        ReceiveParams::RuntimeState,
        ReceiveParams::RobotMode,
        ReceiveParams::SafetyStatusBits,
        ReceiveParams::ControllerTimestamp,
        ReceiveParams::StdAnalogInput0,
        ReceiveParams::StdAnalogInput1,
        ReceiveParams::StdAnalogOutput0,
        ReceiveParams::StdAnalogOutput1,
        ReceiveParams::ActualJointPosArr,
        ReceiveParams::ActualJointPos,
        ReceiveParams::ActualTcpPoseArr,
        ReceiveParams::ActualTcpPose,
        ReceiveParams::DigitalInputBits,
        ReceiveParams::DigitalOutputBits,
        ReceiveParams::ActualJointVelocities,
        ReceiveParams::ActualJointCurrents,
        ReceiveParams::JointControlCurrents,
        ReceiveParams::ActualTcpSpeed,
        ReceiveParams::ActualTcpForce,
        ReceiveParams::SafetyMode,
        ReceiveParams::JointModes,
        ReceiveParams::ActualToolAccel,
        ReceiveParams::TargetJointPositions,
        ReceiveParams::TargetJointVelocities,
        ReceiveParams::TargetJointAccelerations,
        ReceiveParams::TargetJointCurrents,
        ReceiveParams::TargetJointMoments,
        ReceiveParams::TargetTcpPose,
        ReceiveParams::TargetTcpSpeed,
        ReceiveParams::JointTemperatures,
        ReceiveParams::SpeedScaling,
        ReceiveParams::TargetSpeedFraction,
        ReceiveParams::ActualMomentum,
        ReceiveParams::ActualMainVoltage,
        ReceiveParams::ActualRobotVoltage,
        ReceiveParams::ActualRobotCurrent,
        ReceiveParams::ActualJointVoltages,
        ReceiveParams::OutputIntegerReg12,
    ]
}

/// Law: every parameter is created.
pub proof fn law_every_parameter_is_created(p: ReceiveParams)
    ensures
        exists|i: int| 0 <= i < all_params().len() && #[trigger] all_params()[i] == p,
{
    let i: int = match p {
        ReceiveParams::Disconnect => 0,
        ReceiveParams::Reconnect => 1,
        ReceiveParams::IsConnected => 2,
        ReceiveParams::RuntimeState => 3,
        ReceiveParams::RobotMode => 4,
        ReceiveParams::SafetyStatusBits => 5,
        ReceiveParams::ControllerTimestamp => 6,
        ReceiveParams::StdAnalogInput0 => 7,
        ReceiveParams::StdAnalogInput1 => 8,
        ReceiveParams::StdAnalogOutput0 => 9,
        ReceiveParams::StdAnalogOutput1 => 10,
        ReceiveParams::ActualJointPosArr => 11,
        ReceiveParams::ActualJointPos => 12,
        ReceiveParams::ActualTcpPoseArr => 13,
        ReceiveParams::ActualTcpPose => 14,
        ReceiveParams::DigitalInputBits => 15,
        ReceiveParams::DigitalOutputBits => 16,
        ReceiveParams::ActualJointVelocities => 17,
        ReceiveParams::ActualJointCurrents => 18,
        ReceiveParams::JointControlCurrents => 19,
        ReceiveParams::ActualTcpSpeed => 20,
        ReceiveParams::ActualTcpForce => 21,
        ReceiveParams::SafetyMode => 22,
        ReceiveParams::JointModes => 23,
        ReceiveParams::ActualToolAccel => 24,
        ReceiveParams::TargetJointPositions => 25,
        ReceiveParams::TargetJointVelocities => 26,
        ReceiveParams::TargetJointAccelerations => 27,
        ReceiveParams::TargetJointCurrents => 28,
        ReceiveParams::TargetJointMoments => 29,
        ReceiveParams::TargetTcpPose => 30,
        ReceiveParams::TargetTcpSpeed => 31,
        ReceiveParams::JointTemperatures => 32,
        ReceiveParams::SpeedScaling => 33,
        ReceiveParams::TargetSpeedFraction => 34,
        ReceiveParams::ActualMomentum => 35,
        ReceiveParams::ActualMainVoltage => 36,
        ReceiveParams::ActualRobotVoltage => 37,
        ReceiveParams::ActualRobotCurrent => 38,
        ReceiveParams::ActualJointVoltages => 39,
        ReceiveParams::OutputIntegerReg12 => 40,
    };
    assert(all_params()[i] == p);
}

impl ReceiveParams {
    /// Whether the parameter is a momentary command.
    pub open spec fn commands(self) -> bool {
        self is Disconnect || self is Reconnect
    }

    /// Whether the parameter is a momentary command.
    pub fn is_command(self) -> (r: bool)
        ensures
            r == self.commands(),
    {
        match self {
            ReceiveParams::Disconnect => true,
            ReceiveParams::Reconnect => true,
            _ => false,
        }
    }
}

/// The values that are published at address 0.
pub open spec fn scalar_readbacks() -> Seq<ReceiveParams> {
    seq![
        ReceiveParams::RuntimeState,
        ReceiveParams::RobotMode,
        ReceiveParams::SafetyStatusBits,
        ReceiveParams::ControllerTimestamp,
        ReceiveParams::StdAnalogInput0,
        ReceiveParams::StdAnalogInput1,
        ReceiveParams::StdAnalogOutput0,
        ReceiveParams::StdAnalogOutput1,
        ReceiveParams::ActualJointPosArr,
        ReceiveParams::ActualTcpPoseArr,
        ReceiveParams::DigitalInputBits,
        ReceiveParams::DigitalOutputBits,
        ReceiveParams::ActualJointVelocities,
        ReceiveParams::ActualJointCurrents,
        ReceiveParams::JointControlCurrents,
        ReceiveParams::ActualTcpSpeed,
        ReceiveParams::ActualTcpForce,
        ReceiveParams::SafetyMode,
        ReceiveParams::JointModes,
        ReceiveParams::ActualToolAccel,
        ReceiveParams::TargetJointPositions,
        ReceiveParams::TargetJointVelocities,
        ReceiveParams::TargetJointAccelerations,
        ReceiveParams::TargetJointCurrents,
        ReceiveParams::TargetJointMoments,
        ReceiveParams::TargetTcpPose,
        ReceiveParams::TargetTcpSpeed,
        ReceiveParams::JointTemperatures,
        ReceiveParams::SpeedScaling,
        ReceiveParams::TargetSpeedFraction,
        ReceiveParams::ActualMomentum,
        ReceiveParams::ActualMainVoltage,
        ReceiveParams::ActualRobotVoltage,
        ReceiveParams::ActualRobotCurrent,
        ReceiveParams::ActualJointVoltages,
        ReceiveParams::OutputIntegerReg12,
    ]
}

/// The parameters and addresses that are in alarm while the link is down: what
/// the port publishes, but for the link itself.
pub open spec fn targets() -> Seq<(ReceiveParams, i32)> {
    scalar_readbacks().map_values(|p: ReceiveParams| (p, 0i32)) + Seq::new(
        12,
        |i: int|
            (
                if i % 2 == 0 {
                    ReceiveParams::ActualJointPos
                } else {
                    ReceiveParams::ActualTcpPose
                },
                (i / 2) as i32,
            ),
    )
}

/// The parameters and addresses that are in alarm while the link is down.
pub fn alarm_targets() -> (r: Vec<(ReceiveParams, i32)>)
    ensures
        r@ == targets(),
{
    let scalars: Vec<ReceiveParams> = vec![
        ReceiveParams::RuntimeState,
        ReceiveParams::RobotMode,
        ReceiveParams::SafetyStatusBits,
        ReceiveParams::ControllerTimestamp,
        ReceiveParams::StdAnalogInput0,
        ReceiveParams::StdAnalogInput1,
        ReceiveParams::StdAnalogOutput0,
        ReceiveParams::StdAnalogOutput1,
        ReceiveParams::ActualJointPosArr,
        ReceiveParams::ActualTcpPoseArr,
        ReceiveParams::DigitalInputBits,
        ReceiveParams::DigitalOutputBits,
        ReceiveParams::ActualJointVelocities,
        ReceiveParams::ActualJointCurrents,
        ReceiveParams::JointControlCurrents,
        ReceiveParams::ActualTcpSpeed,
        ReceiveParams::ActualTcpForce,
        ReceiveParams::SafetyMode,
        ReceiveParams::JointModes,
        ReceiveParams::ActualToolAccel,
        ReceiveParams::TargetJointPositions,
        ReceiveParams::TargetJointVelocities,
        ReceiveParams::TargetJointAccelerations,
        ReceiveParams::TargetJointCurrents,
        ReceiveParams::TargetJointMoments,
        ReceiveParams::TargetTcpPose,
        ReceiveParams::TargetTcpSpeed,
        ReceiveParams::JointTemperatures,
        ReceiveParams::SpeedScaling,
        ReceiveParams::TargetSpeedFraction,
        ReceiveParams::ActualMomentum,
        ReceiveParams::ActualMainVoltage,
        ReceiveParams::ActualRobotVoltage,
        ReceiveParams::ActualRobotCurrent,
        ReceiveParams::ActualJointVoltages,
        ReceiveParams::OutputIntegerReg12,
    ];
    proof {
        assert(scalars@ =~= scalar_readbacks());
    }
    let ghost all = targets();
    let mut r: Vec<(ReceiveParams, i32)> = Vec::new();
    let mut i: usize = 0;
    while i < scalars.len()
        invariant
            i <= scalars@.len(),
            scalars@ == scalar_readbacks(),
            all == targets(),
            scalar_readbacks().len() == 36,
            r@ =~= all.take(i as int),
        decreases scalars@.len() - i,
    {
        r.push((scalars[i], 0));
        proof {
            assert(all[i as int] == (scalars@[i as int], 0i32));
            assert(all.take(i + 1) =~= all.take(i as int).push(all[i as int]));
        }
        i = i + 1;
    }
    let mut addr: i32 = 0;
    while addr < 6
        invariant
            0 <= addr <= 6,
            all == targets(),
            all.len() == 48,
            scalar_readbacks().len() == 36,
            r@ =~= all.take(36 + 2 * addr),
        decreases 6 - addr,
    {
        r.push((ReceiveParams::ActualJointPos, addr));
        r.push((ReceiveParams::ActualTcpPose, addr));
        proof {
            let k = 36 + 2 * addr;
            assert(all[k] == (ReceiveParams::ActualJointPos, addr));
            assert(all[k + 1] == (ReceiveParams::ActualTcpPose, addr));
            assert(all.take(k + 2) =~= all.take(k).push(all[k]).push(all[k + 1]));
        }
        addr = addr + 1;
    }
    proof {
        assert(all.take(48) =~= all);
    }
    r
}

/// Whether a parameter is published and goes stale with the link: all but the
/// commands and the link itself.
pub open spec fn is_readback(p: ReceiveParams) -> bool {
    !p.commands() && !(p is IsConnected)
}

/// Law: every parameter that goes stale with the link is in alarm while the
/// link is down; the positions at each of their addresses.
pub proof fn law_every_readback_is_a_target(p: ReceiveParams)
    requires
        is_readback(p),
    ensures
        exists|i: int| 0 <= i < targets().len() && (#[trigger] targets()[i]).0 == p,
        p is ActualJointPos || p is ActualTcpPose ==> forall|a: i32|
            0 <= a < 6 ==> targets().contains(#[trigger] addressed(p, a)),
{
    let i: int = match p {
        ReceiveParams::RuntimeState => 0,
        ReceiveParams::RobotMode => 1,
        ReceiveParams::SafetyStatusBits => 2,
        ReceiveParams::ControllerTimestamp => 3,
        ReceiveParams::StdAnalogInput0 => 4,
        ReceiveParams::StdAnalogInput1 => 5,
        ReceiveParams::StdAnalogOutput0 => 6,
        ReceiveParams::StdAnalogOutput1 => 7,
        ReceiveParams::ActualJointPosArr => 8,
        ReceiveParams::ActualTcpPoseArr => 9,
        ReceiveParams::DigitalInputBits => 10,
        ReceiveParams::DigitalOutputBits => 11,
        ReceiveParams::ActualJointVelocities => 12,
        ReceiveParams::ActualJointCurrents => 13,
        ReceiveParams::JointControlCurrents => 14,
        ReceiveParams::ActualTcpSpeed => 15,
        ReceiveParams::ActualTcpForce => 16,
        ReceiveParams::SafetyMode => 17,
        ReceiveParams::JointModes => 18,
        ReceiveParams::ActualToolAccel => 19,
        ReceiveParams::TargetJointPositions => 20,
        ReceiveParams::TargetJointVelocities => 21,
        ReceiveParams::TargetJointAccelerations => 22,
        ReceiveParams::TargetJointCurrents => 23,
        ReceiveParams::TargetJointMoments => 24,
        ReceiveParams::TargetTcpPose => 25,
        ReceiveParams::TargetTcpSpeed => 26,
        ReceiveParams::JointTemperatures => 27,
        ReceiveParams::SpeedScaling => 28,
        ReceiveParams::TargetSpeedFraction => 29,
        ReceiveParams::ActualMomentum => 30,
        ReceiveParams::ActualMainVoltage => 31,
        ReceiveParams::ActualRobotVoltage => 32,
        ReceiveParams::ActualRobotCurrent => 33,
        ReceiveParams::ActualJointVoltages => 34,
        ReceiveParams::OutputIntegerReg12 => 35,
        ReceiveParams::ActualJointPos => 36,
        _ => 37,
    };
    if i < 36 {
        assert(scalar_readbacks()[i] == p);
        assert(targets()[i] == (p, 0i32));
    } else {
        assert(targets()[i].0 == p);
        assert forall|a: i32| 0 <= a < 6 implies targets().contains(#[trigger] addressed(p, a)) by {
            let k = i + 2 * a;
            assert(targets()[k] == (p, a));
        }
    }
}

/// A parameter at an address.
pub open spec fn addressed(p: ReceiveParams, addr: i32) -> (ReceiveParams, i32) {
    (p, addr)
}

/// Law: neither a command nor the link itself is ever in alarm.
pub proof fn law_link_itself_is_never_in_alarm(i: int)
    requires
        0 <= i < targets().len(),
    ensures
        is_readback(targets()[i].0),
{
    if i < 36 {
        assert(targets()[i].0 == scalar_readbacks()[i]);
    }
}

/// The pauses between attempts to connect, in milliseconds.
pub open spec fn pause(idx: nat) -> u64 {
    if idx == 0 {
        1_000
    } else if idx == 1 {
        2_000
    } else {
        5_000
    }
}

/// When the next attempt to connect is due.
#[derive(Debug, Clone, Copy)]
pub struct Backoff {
    pub idx: usize,
    /// In milliseconds on the caller's clock; `None` for at once.
    pub next: Option<u64>,
}

impl Backoff {
    /// The pause that the next failure brings is one of the three.
    pub open spec fn wf(self) -> bool {
        self.idx <= 2
    }

    pub fn new() -> (r: Backoff)
        ensures
            r == (Backoff { idx: 0, next: None }),
            r.wf(),
    {
        Backoff { idx: 0, next: None }
    }

    /// Whether an attempt is due: always before the first failure.
    pub open spec fn is_due(self, now: u64) -> bool {
        match self.next {
            None => true,
            Some(t) => now >= t,
        }
    }

    /// Whether an attempt is due.
    pub fn due(&self, now: u64) -> (r: bool)
        ensures
            r == self.is_due(now),
    {
        match self.next {
            None => true,
            Some(t) => now >= t,
        }
    }

    /// Notes a failed attempt: the next one is due after the pause, and the
    /// pause grows.
    pub fn failed(&mut self, now: u64)
        requires
            old(self).wf(),
            now + 5_000 <= u64::MAX,
        ensures
            final(self).wf(),
            final(self).next == Some((now + pause(old(self).idx as nat)) as u64),
            final(self).idx == if old(self).idx < 2 {
                old(self).idx + 1
            } else {
                2
            },
    {
        let ms: u64 = if self.idx == 0 {
            1_000
        } else if self.idx == 1 {
            2_000
        } else {
            5_000
        };
        self.next = Some(now + ms);
        if self.idx < 2 {
            self.idx = self.idx + 1;
        }
    }

    /// Notes that the link is up: the next loss is answered at once.
    pub fn reset(&mut self)
        ensures
            *final(self) == (Backoff { idx: 0, next: None }),
    {
        self.idx = 0;
        self.next = None;
    }
}

/// Law: the pauses never shrink, and never exceed five seconds.
pub proof fn law_pauses_grow_to_the_cap(i: nat, j: nat)
    requires
        i <= j,
    ensures
        pause(i) <= pause(j) <= 5_000,
        i >= 2 ==> pause(i) == 5_000,
{
}

/// What a write asks for.
#[derive(Debug, Clone, Copy, PartialEq, Eq, Structural)]
pub enum ReceiveAction {
    Nothing,
    /// Make the link, or make it again.
    Connect,
    Disconnect,
}

/// What a write asks for, or why it is refused.
pub open spec fn requested(
    p: ReceiveParams,
    value: i32,
    initialised: bool,
    connected: bool,
) -> Result<ReceiveAction, Seq<char>> {
    if p.commands() && value == 0 {
        Ok(ReceiveAction::Nothing)
    } else if p is Reconnect {
        Ok(ReceiveAction::Connect)
    } else if !initialised {
        Err("the RTDE receive interface is not initialised"@)
    } else if p is Disconnect {
        Ok(ReceiveAction::Disconnect)
    } else if !connected {
        Err("the RTDE receive interface is not connected"@)
    } else {
        Ok(ReceiveAction::Nothing)
    }
}

/// What a write of an integer asks for.
pub fn write_int32(p: ReceiveParams, value: i32, initialised: bool, connected: bool) -> (r: Result<
    ReceiveAction,
    String,
>)
    ensures
        match r {
            Ok(a) => requested(p, value, initialised, connected) == Ok::<ReceiveAction, Seq<char>>(
                a,
            ),
            Err(e) => requested(p, value, initialised, connected) == Err::<
                ReceiveAction,
                Seq<char>,
            >(e@),
        },
{
    if p.is_command() && value == 0 {
        return Ok(ReceiveAction::Nothing);
    }
    match p {
        ReceiveParams::Reconnect => {
            return Ok(ReceiveAction::Connect);
        },
        _ => {},
    }
    if !initialised {
        return Err("the RTDE receive interface is not initialised".to_owned());
    }
    match p {
        ReceiveParams::Disconnect => {
            return Ok(ReceiveAction::Disconnect);
        },
        _ => {},
    }
    if !connected {
        return Err("the RTDE receive interface is not connected".to_owned());
    }
    Ok(ReceiveAction::Nothing)
}

/// Law: a zero written to a command does nothing, whatever the link; anything
/// else written to it acts, or says why it does not.
pub proof fn law_zero_to_a_command_does_nothing(
    p: ReceiveParams,
    value: i32,
    initialised: bool,
    connected: bool,
)
    requires
        p.commands(),
    ensures
        value == 0 <==> requested(p, value, initialised, connected) == Ok::<
            ReceiveAction,
            Seq<char>,
        >(ReceiveAction::Nothing),
{
}

/// How the link is made.
#[derive(Debug, Clone, Copy, PartialEq, Eq, Structural)]
pub enum ConnectStep {
    /// It is there.
    Done,
    Reconnect,
    Connect,
}

/// How the link is made. A stream that is connected and stale is made again.
pub fn connect_or_reconnect(initialised: bool, alive: bool) -> (r: ConnectStep)
    ensures
        r == if !initialised {
            ConnectStep::Connect
        } else if alive {
            ConnectStep::Done
        } else {
            ConnectStep::Reconnect
        },
{
    if !initialised {
        ConnectStep::Connect
    } else if alive {
        ConnectStep::Done
    } else {
        ConnectStep::Reconnect
    }
}

/// Whether an attempt to connect is made in this look, and what becomes of the
/// pauses before it is made.
pub fn wants_attempt(backoff: &mut Backoff, healthy: bool, now: u64) -> (r: bool)
    ensures
        r == (!healthy && old(backoff).is_due(now)),
        *final(backoff) == if healthy {
            (Backoff { idx: 0, next: None })
        } else {
            *old(backoff)
        },
{
    if healthy {
        backoff.reset();
        return false;
    }
    backoff.due(now)
}

/// Notes how an attempt to connect ended.
pub fn attempted(backoff: &mut Backoff, connected: bool, now: u64)
    requires
        old(backoff).wf(),
        now + 5_000 <= u64::MAX,
    ensures
        final(backoff).wf(),
        connected ==> *final(backoff) == (Backoff { idx: 0, next: None }),
        !connected ==> final(backoff).next == Some(
            (now + pause(old(backoff).idx as nat)) as u64,
        ),
        !connected ==> final(backoff).idx == if old(backoff).idx < 2 {
            old(backoff).idx + 1
        } else {
            2
        },
{
    if connected {
        backoff.reset();
    } else {
        backoff.failed(now);
    }
}

/// The lower bits of the safety word.
pub open spec fn masked(bits: u32) -> i32 {
    (bits % 0x800) as i32
}

/// What the port publishes for the others, given the newest state, if there is
/// one.
pub open spec fn state_after(s: ReceiveState, snap: Option<Seq<(Seq<char>, ValueView)>>) -> ReceiveState {
    match snap {
        Some(v) => if v.len() > 0 {
            ReceiveState {
                connected: true,
                safety_status_bits: match stream::uint_at(v, "safety_status_bits"@) {
                    Some(b) => masked(b),
                    None => 0,
                },
                output_int_register_12: match stream::int_at(
                    v,
                    stream::register_name("output_int_register_"@, 12),
                ) {
                    Some(n) => n,
                    None => 0,
                },
            }
        } else {
            ReceiveState { connected: false, ..s }
        },
        None => ReceiveState { connected: false, ..s },
    }
}

/// The integer, if there is one.
pub open spec fn opt_int(p: ReceiveParams, v: Option<i32>) -> Seq<UpdateView<ReceiveParams>> {
    match v {
        Some(n) => seq![super::int_update(p, n)],
        None => Seq::empty(),
    }
}

/// The word as a signed integer, if there is one.
pub open spec fn opt_word(p: ReceiveParams, v: Option<u32>) -> Seq<UpdateView<ReceiveParams>> {
    match v {
        Some(n) => seq![super::int_update(p, bytes::signed32(n as nat) as i32)],
        None => Seq::empty(),
    }
}

/// The integers that a state publishes.
pub open spec fn int_updates(s: Seq<(Seq<char>, ValueView)>) -> Seq<UpdateView<ReceiveParams>> {
    seq![super::int_update(ReceiveParams::IsConnected, 1)] + opt_int(
        ReceiveParams::SafetyStatusBits,
        match stream::uint_at(s, "safety_status_bits"@) {
            Some(b) => Some(masked(b)),
            None => None,
        },
    ) + opt_word(ReceiveParams::RuntimeState, stream::uint_at(s, "runtime_state"@)) + opt_int(
        ReceiveParams::RobotMode,
        stream::int_at(s, "robot_mode"@),
    ) + opt_int(ReceiveParams::SafetyMode, stream::int_at(s, "safety_mode"@)) + opt_word(
        ReceiveParams::DigitalInputBits,
        stream::uint_at(s, "actual_digital_input_bits"@),
    ) + opt_word(
        ReceiveParams::DigitalOutputBits,
        stream::uint_at(s, "actual_digital_output_bits"@),
    ) + opt_int(
        ReceiveParams::OutputIntegerReg12,
        stream::int_at(s, stream::register_name("output_int_register_"@, 12)),
    )
}

/// The numbers that are published as they are, and their names in the state.
pub open spec fn float_table() -> Seq<(ReceiveParams, Seq<char>)> {
    seq![
        (ReceiveParams::ControllerTimestamp, "timestamp"@),
        (ReceiveParams::StdAnalogInput0, "standard_analog_input0"@),
        (ReceiveParams::StdAnalogInput1, "standard_analog_input1"@),
        (ReceiveParams::StdAnalogOutput0, "standard_analog_output0"@),
        (ReceiveParams::StdAnalogOutput1, "standard_analog_output1"@),
        (ReceiveParams::SpeedScaling, "speed_scaling"@),
        (ReceiveParams::TargetSpeedFraction, "target_speed_fraction"@),
        (ReceiveParams::ActualMomentum, "actual_momentum"@),
        (ReceiveParams::ActualMainVoltage, "actual_main_voltage"@),
        (ReceiveParams::ActualRobotVoltage, "actual_robot_voltage"@),
        (ReceiveParams::ActualRobotCurrent, "actual_robot_current"@),
    ]
}

/// The arrays that are published as they are, and their names in the state.
pub open spec fn array_table() -> Seq<(ReceiveParams, Seq<char>)> {
    seq![
        (ReceiveParams::ActualJointVelocities, "actual_qd"@),
        (ReceiveParams::ActualJointCurrents, "actual_current"@),
        (ReceiveParams::JointControlCurrents, "joint_control_output"@),
        (ReceiveParams::ActualTcpSpeed, "actual_TCP_speed"@),
        (ReceiveParams::ActualTcpForce, "actual_TCP_force"@),
        (ReceiveParams::TargetJointPositions, "target_q"@),
        (ReceiveParams::TargetJointVelocities, "target_qd"@),
        (ReceiveParams::TargetJointAccelerations, "target_qdd"@),
        (ReceiveParams::TargetJointCurrents, "target_current"@),
        (ReceiveParams::TargetJointMoments, "target_moment"@),
        (ReceiveParams::TargetTcpPose, "target_TCP_pose"@),
        (ReceiveParams::TargetTcpSpeed, "target_TCP_speed"@),
        (ReceiveParams::JointTemperatures, "joint_temperatures"@),
        (ReceiveParams::ActualJointVoltages, "actual_joint_voltage"@),
        (ReceiveParams::ActualToolAccel, "actual_tool_accelerometer"@),
    ]
}

/// A row of the numbers: its update, if the state has the value.
pub open spec fn float_row(s: Seq<(Seq<char>, ValueView)>, row: (ReceiveParams, Seq<char>)) -> Seq<
    UpdateView<ReceiveParams>,
> {
    match stream::double_at(s, row.1) {
        Some(v) => seq![
            UpdateView { param: row.0, addr: 0, value: PublishedView::Float64(v, Scale::Raw) },
        ],
        None => Seq::empty(),
    }
}

/// A row of the arrays: its update, if the state has the value.
pub open spec fn array_row(s: Seq<(Seq<char>, ValueView)>, row: (ReceiveParams, Seq<char>)) -> Seq<
    UpdateView<ReceiveParams>,
> {
    match stream::doubles_at(s, row.1) {
        Some(v) => seq![
            UpdateView { param: row.0, addr: 0, value: PublishedView::Float64Array(v, Scale::Raw) },
        ],
        None => Seq::empty(),
    }
}

/// The updates of the rows of the numbers.
pub open spec fn float_rows(
    s: Seq<(Seq<char>, ValueView)>,
    table: Seq<(ReceiveParams, Seq<char>)>,
) -> Seq<UpdateView<ReceiveParams>>
    decreases table.len(),
{
    if table.len() == 0 {
        Seq::empty()
    } else {
        float_rows(s, table.drop_last()) + float_row(s, table.last())
    }
}

/// The updates of the rows of the arrays.
pub open spec fn array_rows(
    s: Seq<(Seq<char>, ValueView)>,
    table: Seq<(ReceiveParams, Seq<char>)>,
) -> Seq<UpdateView<ReceiveParams>>
    decreases table.len(),
{
    if table.len() == 0 {
        Seq::empty()
    } else {
        array_rows(s, table.drop_last()) + array_row(s, table.last())
    }
}

/// The updates of a vector, element by element, then as a whole.
pub open spec fn spread(
    element: ReceiveParams,
    whole: ReceiveParams,
    v: Option<Seq<u64>>,
    scales: spec_fn(int) -> Scale,
    scale: Scale,
) -> Seq<UpdateView<ReceiveParams>> {
    match v {
        None => Seq::empty(),
        Some(q) => Seq::new(
            q.len(),
            |i: int|
                UpdateView {
                    param: element,
                    addr: i as i32,
                    value: PublishedView::Float64(q[i], scales(i)),
                },
        ).push(UpdateView { param: whole, addr: 0, value: PublishedView::Float64Array(q, scale) }),
    }
}

/// The scale of an element of the joints.
pub open spec fn joint_scale() -> spec_fn(int) -> Scale {
    |i: int| Scale::RadiansToDegrees
}

/// The scale of an element of the pose: the rotation vector stays as it is.
pub open spec fn pose_scale() -> spec_fn(int) -> Scale {
    |i: int|
        if i < 3 {
            Scale::MetresToMm
        } else {
            Scale::Raw
        }
}

/// The updates of the joint modes.
pub open spec fn mode_updates(s: Seq<(Seq<char>, ValueView)>) -> Seq<UpdateView<ReceiveParams>> {
    match stream::ints_at(s, "joint_mode"@) {
        Some(v) => seq![
            UpdateView {
                param: ReceiveParams::JointModes,
                addr: 0,
                value: PublishedView::Int32Array(v),
            },
        ],
        None => Seq::empty(),
    }
}

/// What a state publishes. A value that the state lacks is not published.
pub open spec fn published(s: Seq<(Seq<char>, ValueView)>) -> Seq<UpdateView<ReceiveParams>> {
    int_updates(s) + float_rows(s, float_table()) + array_rows(s, array_table()) + mode_updates(s)
        + spread(
        ReceiveParams::ActualJointPos,
        ReceiveParams::ActualJointPosArr,
        stream::doubles_at(s, "actual_q"@),
        joint_scale(),
        Scale::RadiansToDegrees,
    ) + spread(
        ReceiveParams::ActualTcpPose,
        ReceiveParams::ActualTcpPoseArr,
        stream::doubles_at(s, "actual_TCP_pose"@),
        pose_scale(),
        Scale::PoseToMm,
    )
}

fn push_opt_int(out: &mut Vec<Update<ReceiveParams>>, p: ReceiveParams, v: Option<i32>)
    ensures
        super::views(final(out)@) == super::views(old(out)@) + opt_int(p, v),
{
    match v {
        Some(n) => super::push_int(out, p, n),
        None => {},
    }
    proof {
        assert(super::views(out@) =~= super::views(old(out)@) + opt_int(p, v));
    }
}

fn push_opt_word(out: &mut Vec<Update<ReceiveParams>>, p: ReceiveParams, v: Option<u32>)
    ensures
        super::views(final(out)@) == super::views(old(out)@) + opt_word(p, v),
{
    match v {
        Some(n) => super::push_int(out, p, bytes::from_word32(n)),
        None => {},
    }
    proof {
        assert(super::views(out@) =~= super::views(old(out)@) + opt_word(p, v));
    }
}

fn push_ints(out: &mut Vec<Update<ReceiveParams>>, snap: &Snapshot)
    ensures
        super::views(final(out)@) == super::views(old(out)@) + int_updates(snap@),
{
    super::push_int(out, ReceiveParams::IsConnected, 1);
    let safety: Option<i32> = match snap.uint("safety_status_bits") {
        Some(b) => Some((b % 0x800) as i32),
        None => None,
    };
    push_opt_int(out, ReceiveParams::SafetyStatusBits, safety);
    push_opt_word(out, ReceiveParams::RuntimeState, snap.uint("runtime_state"));
    push_opt_int(out, ReceiveParams::RobotMode, snap.integer("robot_mode"));
    push_opt_int(out, ReceiveParams::SafetyMode, snap.integer("safety_mode"));
    push_opt_word(out, ReceiveParams::DigitalInputBits, snap.uint("actual_digital_input_bits"));
    push_opt_word(out, ReceiveParams::DigitalOutputBits, snap.uint("actual_digital_output_bits"));
    push_opt_int(out, ReceiveParams::OutputIntegerReg12, snap.output_int_register(12));
    proof {
        assert(super::views(out@) =~= super::views(old(out)@) + int_updates(snap@));
    }
}

/// The texts of a table.
pub open spec fn rows(v: Seq<(ReceiveParams, &'static str)>) -> Seq<(ReceiveParams, Seq<char>)> {
    v.map_values(|r: (ReceiveParams, &'static str)| (r.0, r.1@))
}

fn push_floats(
    out: &mut Vec<Update<ReceiveParams>>,
    snap: &Snapshot,
    table: &Vec<(ReceiveParams, &'static str)>,
)
    ensures
        super::views(final(out)@) == super::views(old(out)@) + float_rows(snap@, rows(table@)),
{
    let ghost t = rows(table@);
    let ghost before = super::views(out@);
    let mut i: usize = 0;
    proof {
        assert(before =~= before + float_rows(snap@, t.take(0)));
    }
    while i < table.len()
        invariant
            i <= table@.len(),
            t == rows(table@),
            super::views(out@) == before + float_rows(snap@, t.take(i as int)),
        decreases table@.len() - i,
    {
        match snap.double(table[i].1) {
            Some(v) => super::push_update(out, table[i].0, 0, Published::Float64(v, Scale::Raw)),
            None => {},
        }
        proof {
            assert(t.take(i + 1).drop_last() =~= t.take(i as int));
            assert(t.take(i + 1).last() == (table@[i as int].0, table@[i as int].1@));
            assert(super::views(out@) =~= before + float_rows(snap@, t.take(i + 1)));
        }
        i = i + 1;
    }
    proof {
        assert(t.take(table@.len() as int) =~= t);
    }
}

fn copied(v: &Vec<u64>) -> (r: Vec<u64>)
    ensures
        r@ == v@,
{
    let mut r: Vec<u64> = Vec::new();
    let mut i: usize = 0;
    while i < v.len()
        invariant
            i <= v@.len(),
            r@ =~= v@.take(i as int),
        decreases v@.len() - i,
    {
        r.push(v[i]);
        i = i + 1;
    }
    proof {
        assert(v@.take(v@.len() as int) =~= v@);
    }
    r
}

fn push_arrays(
    out: &mut Vec<Update<ReceiveParams>>,
    snap: &Snapshot,
    table: &Vec<(ReceiveParams, &'static str)>,
)
    ensures
        super::views(final(out)@) == super::views(old(out)@) + array_rows(snap@, rows(table@)),
{
    let ghost t = rows(table@);
    let ghost before = super::views(out@);
    let mut i: usize = 0;
    proof {
        assert(before =~= before + array_rows(snap@, t.take(0)));
    }
    while i < table.len()
        invariant
            i <= table@.len(),
            t == rows(table@),
            super::views(out@) == before + array_rows(snap@, t.take(i as int)),
        decreases table@.len() - i,
    {
        match snap.doubles(table[i].1) {
            Some(v) => super::push_update(
                out,
                table[i].0,
                0,
                Published::Float64Array(copied(v), Scale::Raw),
            ),
            None => {},
        }
        proof {
            assert(t.take(i + 1).drop_last() =~= t.take(i as int));
            assert(t.take(i + 1).last() == (table@[i as int].0, table@[i as int].1@));
            assert(super::views(out@) =~= before + array_rows(snap@, t.take(i + 1)));
        }
        i = i + 1;
    }
    proof {
        assert(t.take(table@.len() as int) =~= t);
    }
}

fn push_spread(
    out: &mut Vec<Update<ReceiveParams>>,
    element: ReceiveParams,
    whole: ReceiveParams,
    q: &Vec<u64>,
    is_pose: bool,
)
    ensures
        super::views(final(out)@) == super::views(old(out)@) + spread(
            element,
            whole,
            Some(q@),
            if is_pose {
                pose_scale()
            } else {
                joint_scale()
            },
            if is_pose {
                Scale::PoseToMm
            } else {
                Scale::RadiansToDegrees
            },
        ),
{
    let ghost scales = if is_pose {
        pose_scale()
    } else {
        joint_scale()
    };
    let ghost scale = if is_pose {
        Scale::PoseToMm
    } else {
        Scale::RadiansToDegrees
    };
    let ghost all = spread(element, whole, Some(q@), scales, scale);
    let ghost before = super::views(out@);
    let mut i: usize = 0;
    proof {
        assert(before =~= before + all.take(0));
    }
    while i < q.len()
        invariant
            i <= q@.len(),
            scales == if is_pose {
                pose_scale()
            } else {
                joint_scale()
            },
            all == spread(element, whole, Some(q@), scales, scale),
            super::views(out@) =~= before + all.take(i as int),
        decreases q@.len() - i,
    {
        let s = if !is_pose {
            Scale::RadiansToDegrees
        } else if i < 3 {
            Scale::MetresToMm
        } else {
            Scale::Raw
        };
        super::push_update(out, element, i as i32, Published::Float64(q[i], s));
        proof {
            assert(s == scales(i as int));
            assert(all.take(i + 1) =~= all.take(i as int).push(all[i as int]));
        }
        i = i + 1;
    }
    let s = if is_pose {
        Scale::PoseToMm
    } else {
        Scale::RadiansToDegrees
    };
    super::push_update(out, whole, 0, Published::Float64Array(copied(q), s));
    proof {
        assert(all =~= all.take(q@.len() as int).push(all.last()));
        assert(super::views(out@) =~= before + all);
    }
}

/// What a state publishes.
pub fn publish(snap: &Snapshot) -> (r: Vec<Update<ReceiveParams>>)
    ensures
        super::views(r@) == published(snap@),
{
    let mut r: Vec<Update<ReceiveParams>> = Vec::new();
    push_ints(&mut r, snap);
    let floats: Vec<(ReceiveParams, &'static str)> = vec![
        (ReceiveParams::ControllerTimestamp, "timestamp"),
        (ReceiveParams::StdAnalogInput0, "standard_analog_input0"),
        (ReceiveParams::StdAnalogInput1, "standard_analog_input1"),
        (ReceiveParams::StdAnalogOutput0, "standard_analog_output0"),
        (ReceiveParams::StdAnalogOutput1, "standard_analog_output1"),
        (ReceiveParams::SpeedScaling, "speed_scaling"),
        (ReceiveParams::TargetSpeedFraction, "target_speed_fraction"),
        (ReceiveParams::ActualMomentum, "actual_momentum"),
        (ReceiveParams::ActualMainVoltage, "actual_main_voltage"),
        (ReceiveParams::ActualRobotVoltage, "actual_robot_voltage"),
        (ReceiveParams::ActualRobotCurrent, "actual_robot_current"),
    ];
    proof {
        assert(rows(floats@) =~= float_table());
    }
    push_floats(&mut r, snap, &floats);
    let arrays: Vec<(ReceiveParams, &'static str)> = vec![
        (ReceiveParams::ActualJointVelocities, "actual_qd"),
        (ReceiveParams::ActualJointCurrents, "actual_current"),
        (ReceiveParams::JointControlCurrents, "joint_control_output"),
        (ReceiveParams::ActualTcpSpeed, "actual_TCP_speed"),
        (ReceiveParams::ActualTcpForce, "actual_TCP_force"),
        (ReceiveParams::TargetJointPositions, "target_q"),
        (ReceiveParams::TargetJointVelocities, "target_qd"),
        (ReceiveParams::TargetJointAccelerations, "target_qdd"),
        (ReceiveParams::TargetJointCurrents, "target_current"),
        (ReceiveParams::TargetJointMoments, "target_moment"),
        (ReceiveParams::TargetTcpPose, "target_TCP_pose"),
        (ReceiveParams::TargetTcpSpeed, "target_TCP_speed"),
        (ReceiveParams::JointTemperatures, "joint_temperatures"),
        (ReceiveParams::ActualJointVoltages, "actual_joint_voltage"),
        (ReceiveParams::ActualToolAccel, "actual_tool_accelerometer"),
    ];
    proof {
        assert(rows(arrays@) =~= array_table());
    }
    push_arrays(&mut r, snap, &arrays);
    let ghost before = super::views(r@);
    match snap.ints("joint_mode") {
        Some(v) => {
            let mut modes: Vec<i32> = Vec::new();
            let mut i: usize = 0;
            while i < v.len()
                invariant
                    i <= v@.len(),
                    modes@ =~= v@.take(i as int),
                decreases v@.len() - i,
            {
                modes.push(v[i]);
                i = i + 1;
            }
            proof {
                assert(v@.take(v@.len() as int) =~= v@);
            }
            super::push_update(&mut r, ReceiveParams::JointModes, 0, Published::Int32Array(modes));
        },
        None => {},
    }
    proof {
        assert(super::views(r@) =~= before + mode_updates(snap@));
    }
    let ghost before = super::views(r@);
    match snap.doubles("actual_q") {
        Some(q) => push_spread(
            &mut r,
            ReceiveParams::ActualJointPos,
            ReceiveParams::ActualJointPosArr,
            q,
            false,
        ),
        None => {},
    }
    let ghost joints = spread(
        ReceiveParams::ActualJointPos,
        ReceiveParams::ActualJointPosArr,
        stream::doubles_at(snap@, "actual_q"@),
        joint_scale(),
        Scale::RadiansToDegrees,
    );
    proof {
        assert(super::views(r@) =~= before + joints);
    }
    let ghost before = super::views(r@);
    match snap.doubles("actual_TCP_pose") {
        Some(q) => push_spread(
            &mut r,
            ReceiveParams::ActualTcpPose,
            ReceiveParams::ActualTcpPoseArr,
            q,
            true,
        ),
        None => {},
    }
    let ghost pose = spread(
        ReceiveParams::ActualTcpPose,
        ReceiveParams::ActualTcpPoseArr,
        stream::doubles_at(snap@, "actual_TCP_pose"@),
        pose_scale(),
        Scale::PoseToMm,
    );
    proof {
        assert(super::views(r@) =~= before + pose);
    }
    r
}

/// The newest state, as a sequence.
pub open spec fn snapshot_view(s: Option<&Snapshot>) -> Option<Seq<(Seq<char>, ValueView)>> {
    match s {
        Some(v) => Some(v@),
        None => None,
    }
}

/// Whether there is a state to publish.
pub open spec fn is_healthy(snap: Option<Seq<(Seq<char>, ValueView)>>) -> bool {
    snap matches Some(s) && s.len() > 0
}

/// What a look publishes for records but for the alarms.
pub open spec fn shown(snap: Option<Seq<(Seq<char>, ValueView)>>) -> Seq<UpdateView<ReceiveParams>> {
    if is_healthy(snap) {
        published(snap->0)
    } else {
        seq![super::int_update(ReceiveParams::IsConnected, 0)]
    }
}

fn poll_values(snapshot: Option<&Snapshot>, state: &mut ReceiveState) -> (r: (
    Vec<Update<ReceiveParams>>,
    bool,
))
    ensures
        *final(state) == state_after(*old(state), snapshot_view(snapshot)),
        super::views(r.0@) == shown(snapshot_view(snapshot)),
        r.1 == is_healthy(snapshot_view(snapshot)),
{
    match snapshot {
        Some(snap) => {
            if !snap.is_empty() {
                let bits: i32 = match snap.uint("safety_status_bits") {
                    Some(b) => (b % 0x800) as i32,
                    None => 0,
                };
                let count: i32 = match snap.output_int_register(12) {
                    Some(n) => n,
                    None => 0,
                };
                *state = ReceiveState {
                    connected: true,
                    safety_status_bits: bits,
                    output_int_register_12: count,
                };
                return (publish(snap), true);
            }
        },
        None => {},
    }
    state.connected = false;
    let mut r: Vec<Update<ReceiveParams>> = Vec::new();
    super::push_int(&mut r, ReceiveParams::IsConnected, 0);
    proof {
        assert(super::views(r@) =~= seq![super::int_update(ReceiveParams::IsConnected, 0)]);
    }
    (r, false)
}

/// One look at the stream: what the port publishes for the others, and what it
/// publishes for records. `snapshot` is the newest state of a stream that is
/// alive. The alarms of `targets` are in the same batch as the values: one
/// look raises them with the loss and clears them with the first state.
pub fn poll(
    snapshot: Option<&Snapshot>,
    state: &mut ReceiveState,
    targets: &Vec<(ReceiveParams, i32)>,
    was_healthy: &mut bool,
) -> (r: Vec<Update<ReceiveParams>>)
    ensures
        *final(state) == state_after(*old(state), snapshot_view(snapshot)),
        *final(was_healthy) == is_healthy(snapshot_view(snapshot)),
        super::views(r@) == shown(snapshot_view(snapshot)) + super::transition(
            targets@,
            is_healthy(snapshot_view(snapshot)),
            *old(was_healthy),
        ),
{
    let (mut r, healthy) = poll_values(snapshot, state);
    let mut alarms = super::health_transition(targets, healthy, was_healthy);
    let ghost a = r@;
    let ghost b = alarms@;
    r.append(&mut alarms);
    proof {
        assert(r@ == a + b);
        assert(super::views(r@) =~= super::views(a) + super::views(b));
    }
    r
}

/// Law: a loss of the link is shown and raised in one batch, and a return is
/// shown and cleared in one batch.
pub proof fn law_alarms_come_with_their_values(
    snap: Option<Seq<(Seq<char>, ValueView)>>,
    targets: Seq<(ReceiveParams, i32)>,
    was_healthy: bool,
    i: int,
)
    requires
        is_healthy(snap) != was_healthy,
        0 <= i < targets.len(),
    ensures
        ({
            let batch = shown(snap) + super::transition(targets, is_healthy(snap), was_healthy);
            &&& batch[0] == super::int_update(
                ReceiveParams::IsConnected,
                super::flag(is_healthy(snap)),
            )
            &&& batch[shown(snap).len() + i] == super::alarm(
                targets[i],
                if is_healthy(snap) {
                    super::Link::Restored
                } else {
                    super::Link::Lost
                },
            )
        }),
{
}

/// Law: a state is published with the link shown as up, whatever else it
/// holds.
pub proof fn law_published_state_shows_the_link(s: Seq<(Seq<char>, ValueView)>)
    ensures
        published(s).len() > 0,
        published(s)[0] == super::int_update(ReceiveParams::IsConnected, 1),
{
}

/// The names under which records find the parameters.
pub proof fn law_parameters_have_their_names()
    ensures
        ReceiveParams::Disconnect.text() == "DISCONNECT"@,
        ReceiveParams::Reconnect.text() == "RECONNECT"@,
        ReceiveParams::IsConnected.text() == "IS_CONNECTED"@,
        ReceiveParams::RuntimeState.text() == "RUNTIME_STATE"@,
        ReceiveParams::RobotMode.text() == "ROBOT_MODE"@,
        ReceiveParams::SafetyStatusBits.text() == "SAFETY_STATUS_BITS"@,
        ReceiveParams::ControllerTimestamp.text() == "CONTROLLER_TIMESTAMP"@,
        ReceiveParams::StdAnalogInput0.text() == "STD_ANALOG_INPUT0"@,
        ReceiveParams::StdAnalogInput1.text() == "STD_ANALOG_INPUT1"@,
        ReceiveParams::StdAnalogOutput0.text() == "STD_ANALOG_OUTPUT0"@,
        ReceiveParams::StdAnalogOutput1.text() == "STD_ANALOG_OUTPUT1"@,
        ReceiveParams::ActualJointPosArr.text() == "ACTUAL_JOINT_POS_ARR"@,
        ReceiveParams::ActualJointPos.text() == "ACTUAL_JOINT_POS"@,
        ReceiveParams::ActualTcpPoseArr.text() == "ACTUAL_TCP_POSE_ARR"@,
        ReceiveParams::ActualTcpPose.text() == "ACTUAL_TCP_POSE"@,
        ReceiveParams::DigitalInputBits.text() == "DIGITAL_INPUT_BITS"@,
        ReceiveParams::DigitalOutputBits.text() == "DIGITAL_OUTPUT_BITS"@,
        ReceiveParams::ActualJointVelocities.text() == "ACTUAL_JOINT_VELOCITIES"@,
        ReceiveParams::ActualJointCurrents.text() == "ACTUAL_JOINT_CURRENTS"@,
        ReceiveParams::JointControlCurrents.text() == "JOINT_CONTROL_CURRENTS"@,
        ReceiveParams::ActualTcpSpeed.text() == "ACTUAL_TCP_SPEED"@,
        ReceiveParams::ActualTcpForce.text() == "ACTUAL_TCP_FORCE"@,
        ReceiveParams::SafetyMode.text() == "SAFETY_MODE"@,
        ReceiveParams::JointModes.text() == "JOINT_MODES"@,
        ReceiveParams::ActualToolAccel.text() == "ACTUAL_TOOL_ACCEL"@,
        ReceiveParams::TargetJointPositions.text() == "TARGET_JOINT_POSITIONS"@,
        ReceiveParams::TargetJointVelocities.text() == "TARGET_JOINT_VELOCITIES"@,
        ReceiveParams::TargetJointAccelerations.text() == "TARGET_JOINT_ACCELERATIONS"@,
        ReceiveParams::TargetJointCurrents.text() == "TARGET_JOINT_CURRENTS"@,
        ReceiveParams::TargetJointMoments.text() == "TARGET_JOINT_MOMENTS"@,
        ReceiveParams::TargetTcpPose.text() == "TARGET_TCP_POSE"@,
        ReceiveParams::TargetTcpSpeed.text() == "TARGET_TCP_SPEED"@,
        ReceiveParams::JointTemperatures.text() == "JOINT_TEMPERATURES"@,
        ReceiveParams::SpeedScaling.text() == "SPEED_SCALING"@,
        ReceiveParams::TargetSpeedFraction.text() == "TARGET_SPEED_FRACTION"@,
        ReceiveParams::ActualMomentum.text() == "ACTUAL_MOMENTUM"@,
        ReceiveParams::ActualMainVoltage.text() == "ACTUAL_MAIN_VOLTAGE"@,
        ReceiveParams::ActualRobotVoltage.text() == "ACTUAL_ROBOT_VOLTAGE"@,
        ReceiveParams::ActualRobotCurrent.text() == "ACTUAL_ROBOT_CURRENT"@,
        ReceiveParams::ActualJointVoltages.text() == "ACTUAL_JOINT_VOLTAGES"@,
        ReceiveParams::OutputIntegerReg12.text() == "OUTPUT_INTEGER_REG12"@,
{
}

/// The kinds of value that the parameters hold.
pub proof fn law_parameters_have_their_kinds()
    ensures
        ReceiveParams::Disconnect.kind() == ParamType::Int32,
        ReceiveParams::Reconnect.kind() == ParamType::Int32,
        ReceiveParams::IsConnected.kind() == ParamType::Int32,
        ReceiveParams::RuntimeState.kind() == ParamType::Int32,
        ReceiveParams::RobotMode.kind() == ParamType::Int32,
        ReceiveParams::SafetyStatusBits.kind() == ParamType::Int32,
        ReceiveParams::ControllerTimestamp.kind() == ParamType::Float64,
        ReceiveParams::StdAnalogInput0.kind() == ParamType::Float64,
        ReceiveParams::StdAnalogInput1.kind() == ParamType::Float64,
        ReceiveParams::StdAnalogOutput0.kind() == ParamType::Float64,
        ReceiveParams::StdAnalogOutput1.kind() == ParamType::Float64,
        ReceiveParams::ActualJointPosArr.kind() == ParamType::Float64Array,
        ReceiveParams::ActualJointPos.kind() == ParamType::Float64,
        ReceiveParams::ActualTcpPoseArr.kind() == ParamType::Float64Array,
        ReceiveParams::ActualTcpPose.kind() == ParamType::Float64,
        ReceiveParams::DigitalInputBits.kind() == ParamType::Int32,
        ReceiveParams::DigitalOutputBits.kind() == ParamType::Int32,
        ReceiveParams::ActualJointVelocities.kind() == ParamType::Float64Array,
        ReceiveParams::ActualJointCurrents.kind() == ParamType::Float64Array,
        ReceiveParams::JointControlCurrents.kind() == ParamType::Float64Array,
        ReceiveParams::ActualTcpSpeed.kind() == ParamType::Float64Array,
        ReceiveParams::ActualTcpForce.kind() == ParamType::Float64Array,
        ReceiveParams::SafetyMode.kind() == ParamType::Int32,
        ReceiveParams::JointModes.kind() == ParamType::Int32Array,
        ReceiveParams::ActualToolAccel.kind() == ParamType::Float64Array,
        ReceiveParams::TargetJointPositions.kind() == ParamType::Float64Array,
        ReceiveParams::TargetJointVelocities.kind() == ParamType::Float64Array,
        ReceiveParams::TargetJointAccelerations.kind() == ParamType::Float64Array,
        ReceiveParams::TargetJointCurrents.kind() == ParamType::Float64Array,
        ReceiveParams::TargetJointMoments.kind() == ParamType::Float64Array,
        ReceiveParams::TargetTcpPose.kind() == ParamType::Float64Array,
        ReceiveParams::TargetTcpSpeed.kind() == ParamType::Float64Array,
        ReceiveParams::JointTemperatures.kind() == ParamType::Float64Array,
        ReceiveParams::SpeedScaling.kind() == ParamType::Float64,
        ReceiveParams::TargetSpeedFraction.kind() == ParamType::Float64,
        ReceiveParams::ActualMomentum.kind() == ParamType::Float64,
        ReceiveParams::ActualMainVoltage.kind() == ParamType::Float64,
        ReceiveParams::ActualRobotVoltage.kind() == ParamType::Float64,
        ReceiveParams::ActualRobotCurrent.kind() == ParamType::Float64,
        ReceiveParams::ActualJointVoltages.kind() == ParamType::Float64Array,
        ReceiveParams::OutputIntegerReg12.kind() == ParamType::Int32,
{
}

/// The parameters that are commands: a number other than zero acts, zero does
/// nothing.
pub proof fn law_these_parameters_are_commands(p: ReceiveParams)
    ensures
        p.commands() <==> p is Disconnect || p is Reconnect,
{
}

/// Whether an update shows the variable that its parameter stands for, in the
/// unit of that parameter.
pub open spec fn shows(s: Seq<(Seq<char>, ValueView)>, u: UpdateView<ReceiveParams>) -> bool {
    match u.param {
        ReceiveParams::IsConnected => u.value == PublishedView::Int32(1),
        ReceiveParams::SafetyStatusBits => stream::uint_at(s, "safety_status_bits"@) matches Some(
            b,
        ) && u.value == PublishedView::Int32((b & 0x7ff) as i32),
        ReceiveParams::RuntimeState => is_word(s, "runtime_state"@, u),
        ReceiveParams::RobotMode => is_number(s, "robot_mode"@, u),
        ReceiveParams::SafetyMode => is_number(s, "safety_mode"@, u),
        ReceiveParams::DigitalInputBits => is_word(s, "actual_digital_input_bits"@, u),
        ReceiveParams::DigitalOutputBits => is_word(s, "actual_digital_output_bits"@, u),
        ReceiveParams::OutputIntegerReg12 => is_number(
            s,
            "output_int_register_"@ + text::signed_decimal(12),
            u,
        ),
        ReceiveParams::ControllerTimestamp => is_double(s, "timestamp"@, u),
        ReceiveParams::StdAnalogInput0 => is_double(s, "standard_analog_input0"@, u),
        ReceiveParams::StdAnalogInput1 => is_double(s, "standard_analog_input1"@, u),
        ReceiveParams::StdAnalogOutput0 => is_double(s, "standard_analog_output0"@, u),
        ReceiveParams::StdAnalogOutput1 => is_double(s, "standard_analog_output1"@, u),
        ReceiveParams::SpeedScaling => is_double(s, "speed_scaling"@, u),
        ReceiveParams::TargetSpeedFraction => is_double(s, "target_speed_fraction"@, u),
        ReceiveParams::ActualMomentum => is_double(s, "actual_momentum"@, u),
        ReceiveParams::ActualMainVoltage => is_double(s, "actual_main_voltage"@, u),
        ReceiveParams::ActualRobotVoltage => is_double(s, "actual_robot_voltage"@, u),
        ReceiveParams::ActualRobotCurrent => is_double(s, "actual_robot_current"@, u),
        ReceiveParams::ActualJointVelocities => is_array(s, "actual_qd"@, u),
        ReceiveParams::ActualJointCurrents => is_array(s, "actual_current"@, u),
        ReceiveParams::JointControlCurrents => is_array(s, "joint_control_output"@, u),
        ReceiveParams::ActualTcpSpeed => is_array(s, "actual_TCP_speed"@, u),
        ReceiveParams::ActualTcpForce => is_array(s, "actual_TCP_force"@, u),
        ReceiveParams::TargetJointPositions => is_array(s, "target_q"@, u),
        ReceiveParams::TargetJointVelocities => is_array(s, "target_qd"@, u),
        ReceiveParams::TargetJointAccelerations => is_array(s, "target_qdd"@, u),
        ReceiveParams::TargetJointCurrents => is_array(s, "target_current"@, u),
        ReceiveParams::TargetJointMoments => is_array(s, "target_moment"@, u),
        ReceiveParams::TargetTcpPose => is_array(s, "target_TCP_pose"@, u),
        ReceiveParams::TargetTcpSpeed => is_array(s, "target_TCP_speed"@, u),
        ReceiveParams::JointTemperatures => is_array(s, "joint_temperatures"@, u),
        ReceiveParams::ActualJointVoltages => is_array(s, "actual_joint_voltage"@, u),
        ReceiveParams::ActualToolAccel => is_array(s, "actual_tool_accelerometer"@, u),
        ReceiveParams::JointModes => stream::ints_at(s, "joint_mode"@) matches Some(v) && u.value
            == PublishedView::Int32Array(v),
        ReceiveParams::ActualJointPos => stream::doubles_at(s, "actual_q"@) matches Some(q) && u.value
            == PublishedView::Float64(q[u.addr as int], Scale::RadiansToDegrees),
        ReceiveParams::ActualJointPosArr => stream::doubles_at(s, "actual_q"@) matches Some(q)
            && u.value == PublishedView::Float64Array(q, Scale::RadiansToDegrees),
        ReceiveParams::ActualTcpPose => stream::doubles_at(s, "actual_TCP_pose"@) matches Some(q)
            && u.value == PublishedView::Float64(
            q[u.addr as int],
            if u.addr < 3 {
                Scale::MetresToMm
            } else {
                Scale::Raw
            },
        ),
        ReceiveParams::ActualTcpPoseArr => stream::doubles_at(s, "actual_TCP_pose"@) matches Some(q)
            && u.value == PublishedView::Float64Array(q, Scale::PoseToMm),
        ReceiveParams::Disconnect | ReceiveParams::Reconnect => false,
    }
}

/// Whether an update carries the double of this name as it is.
pub open spec fn is_double(
    s: Seq<(Seq<char>, ValueView)>,
    name: Seq<char>,
    u: UpdateView<ReceiveParams>,
) -> bool {
    stream::double_at(s, name) matches Some(v) && u.addr == 0 && u.value == PublishedView::Float64(
        v,
        Scale::Raw,
    )
}

/// Whether an update carries the vector of this name as it is.
pub open spec fn is_array(
    s: Seq<(Seq<char>, ValueView)>,
    name: Seq<char>,
    u: UpdateView<ReceiveParams>,
) -> bool {
    stream::doubles_at(s, name) matches Some(v) && u.addr == 0 && u.value
        == PublishedView::Float64Array(v, Scale::Raw)
}

/// Whether an update carries the signed number of this name.
pub open spec fn is_number(
    s: Seq<(Seq<char>, ValueView)>,
    name: Seq<char>,
    u: UpdateView<ReceiveParams>,
) -> bool {
    stream::int_at(s, name) matches Some(v) && u.addr == 0 && u.value == PublishedView::Int32(v)
}

/// Whether an update carries the bits of the word of this name.
pub open spec fn is_word(
    s: Seq<(Seq<char>, ValueView)>,
    name: Seq<char>,
    u: UpdateView<ReceiveParams>,
) -> bool {
    stream::uint_at(s, name) matches Some(v) && u.addr == 0 && u.value == PublishedView::Int32(
        bytes::signed32(v as nat) as i32,
    )
}

proof fn lemma_float_rows_show(
    s: Seq<(Seq<char>, ValueView)>,
    table: Seq<(ReceiveParams, Seq<char>)>,
    j: int,
)
    requires
        0 <= j < float_rows(s, table).len(),
    ensures
        exists|k: int|
            0 <= k < table.len() && float_row(s, #[trigger] table[k]).len() == 1 && float_rows(
                s,
                table,
            )[j] == float_row(s, table[k])[0],
    decreases table.len(),
{
    let init = table.drop_last();
    let before = float_rows(s, init);
    if j < before.len() {
        lemma_float_rows_show(s, init, j);
        let k = choose|k: int|
            0 <= k < init.len() && float_row(s, #[trigger] init[k]).len() == 1 && before[j]
                == float_row(s, init[k])[0];
        assert(table[k] == init[k]);
    } else {
        assert(table[table.len() - 1] == table.last());
    }
}

proof fn lemma_array_rows_show(
    s: Seq<(Seq<char>, ValueView)>,
    table: Seq<(ReceiveParams, Seq<char>)>,
    j: int,
)
    requires
        0 <= j < array_rows(s, table).len(),
    ensures
        exists|k: int|
            0 <= k < table.len() && array_row(s, #[trigger] table[k]).len() == 1 && array_rows(
                s,
                table,
            )[j] == array_row(s, table[k])[0],
    decreases table.len(),
{
    let init = table.drop_last();
    let before = array_rows(s, init);
    if j < before.len() {
        lemma_array_rows_show(s, init, j);
        let k = choose|k: int|
            0 <= k < init.len() && array_row(s, #[trigger] init[k]).len() == 1 && before[j]
                == array_row(s, init[k])[0];
        assert(table[k] == init[k]);
    } else {
        assert(table[table.len() - 1] == table.last());
    }
}

proof fn lemma_float_row_is_there(
    s: Seq<(Seq<char>, ValueView)>,
    table: Seq<(ReceiveParams, Seq<char>)>,
    k: int,
)
    requires
        0 <= k < table.len(),
        stream::double_at(s, table[k].1) is Some,
    ensures
        float_rows(s, table).contains(float_row(s, table[k])[0]),
    decreases table.len(),
{
    let init = table.drop_last();
    let before = float_rows(s, init);
    let all = float_rows(s, table);
    if k < init.len() {
        lemma_float_row_is_there(s, init, k);
        let j = choose|j: int| 0 <= j < before.len() && before[j] == float_row(s, init[k])[0];
        assert(all[j] == before[j]);
    } else {
        assert(all[before.len() as int] == float_row(s, table[k])[0]);
    }
}

proof fn lemma_array_row_is_there(
    s: Seq<(Seq<char>, ValueView)>,
    table: Seq<(ReceiveParams, Seq<char>)>,
    k: int,
)
    requires
        0 <= k < table.len(),
        stream::doubles_at(s, table[k].1) is Some,
    ensures
        array_rows(s, table).contains(array_row(s, table[k])[0]),
    decreases table.len(),
{
    let init = table.drop_last();
    let before = array_rows(s, init);
    let all = array_rows(s, table);
    if k < init.len() {
        lemma_array_row_is_there(s, init, k);
        let j = choose|j: int| 0 <= j < before.len() && before[j] == array_row(s, init[k])[0];
        assert(all[j] == before[j]);
    } else {
        assert(all[before.len() as int] == array_row(s, table[k])[0]);
    }
}

proof fn lemma_masked(bits: u32)
    ensures
        masked(bits) == (bits & 0x7ff) as i32,
{
    assert(bits % 0x800 == bits & 0x7ff) by (bit_vector);
}

/// Nothing is published but what the robot said under the name that belongs to
/// the parameter, in the unit of the parameter.
pub proof fn law_readbacks_show_their_variables(s: Seq<(Seq<char>, ValueView)>, i: int)
    requires
        0 <= i < published(s).len(),
        stream::doubles_at(s, "actual_q"@) matches Some(q) ==> q.len() <= 6,
        stream::doubles_at(s, "actual_TCP_pose"@) matches Some(q) ==> q.len() <= 6,
    ensures
        shows(s, published(s)[i]),
{
    let ints = int_updates(s);
    let floats = float_rows(s, float_table());
    let arrays = array_rows(s, array_table());
    let modes = mode_updates(s);
    let u = published(s)[i];
    let a = ints.len() as int;
    let b = a + floats.len();
    let c = b + arrays.len();
    if i < a {
        lemma_int_updates_show(s, i);
        assert(u == ints[i]);
    } else if i < b {
        lemma_float_rows_show(s, float_table(), i - a);
        assert(u == floats[i - a]);
    } else if i < c {
        lemma_array_rows_show(s, array_table(), i - b);
        assert(u == arrays[i - b]);
    }
}

proof fn lemma_int_updates_show(s: Seq<(Seq<char>, ValueView)>, i: int)
    requires
        0 <= i < int_updates(s).len(),
    ensures
        shows(s, int_updates(s)[i]),
{
    if let Some(b) = stream::uint_at(s, "safety_status_bits"@) {
        lemma_masked(b);
    }
}

/// Every double and every vector that the robot said is published.
pub proof fn law_what_was_said_is_shown(s: Seq<(Seq<char>, ValueView)>, k: int)
    ensures
        0 <= k < float_table().len() && stream::double_at(s, float_table()[k].1) is Some ==> exists|
            i: int,
        |
            0 <= i < published(s).len() && (#[trigger] published(s)[i]).param == float_table()[k].0,
        0 <= k < array_table().len() && stream::doubles_at(s, array_table()[k].1) is Some ==> exists|
            i: int,
        |
            0 <= i < published(s).len() && (#[trigger] published(s)[i]).param == array_table()[k].0,
        float_table().len() == 11 && array_table().len() == 15,
{
    let ints = int_updates(s);
    let floats = float_rows(s, float_table());
    let arrays = array_rows(s, array_table());
    if 0 <= k < float_table().len() && stream::double_at(s, float_table()[k].1) is Some {
        lemma_float_row_is_there(s, float_table(), k);
        let j = choose|j: int|
            0 <= j < floats.len() && floats[j] == float_row(s, float_table()[k])[0];
        assert(published(s)[ints.len() + j] == floats[j]);
    }
    if 0 <= k < array_table().len() && stream::doubles_at(s, array_table()[k].1) is Some {
        lemma_array_row_is_there(s, array_table(), k);
        let j = choose|j: int|
            0 <= j < arrays.len() && arrays[j] == array_row(s, array_table()[k])[0];
        assert(published(s)[ints.len() + floats.len() + j] == arrays[j]);
    }
}

/// The state that other drivers see: connected while data comes, with the
/// eleven lower safety bits and the register of the user's scripts; without
/// data only the link is lost.
pub proof fn law_shared_state_follows_the_data(
    s: ReceiveState,
    v: Seq<(Seq<char>, ValueView)>,
    bits: u32,
    n: i32,
)
    requires
        v.len() > 0,
        stream::uint_at(v, "safety_status_bits"@) == Some(bits),
        stream::int_at(v, "output_int_register_"@ + text::signed_decimal(12)) == Some(n),
    ensures
        state_after(s, Some(v)).connected,
        state_after(s, Some(v)).safety_status_bits == (bits & 0x7ff) as i32,
        state_after(s, Some(v)).output_int_register_12 == n,
        state_after(s, None) == (ReceiveState { connected: false, ..s }),
        state_after(s, Some(Seq::empty())) == (ReceiveState { connected: false, ..s }),
{
    lemma_masked(bits);
}

/// A lost link is tried again after one second, then two, then every five.
pub proof fn law_pauses_between_attempts(idx: nat)
    ensures
        pause(0) == 1_000 && pause(1) == 2_000 && pause(idx + 2) == 5_000,
{
}

/// The link is made on a request to, and ended on a request to; nothing else
/// touches it.
pub proof fn law_requests_move_the_link(
    p: ReceiveParams,
    value: i32,
    initialised: bool,
    connected: bool,
)
    ensures
        requested(p, value, initialised, connected) matches Ok(a) ==> (a is Connect <==> p
            is Reconnect && value != 0) && (a is Disconnect <==> p is Disconnect && value != 0),
        requested(p, value, initialised, connected) is Err <==> !(p.commands() && value == 0) && !(
        p is Reconnect) && (!initialised || (!(p is Disconnect) && !connected)),
{
}

/// Every joint and every coordinate is published under its own address, and the
/// whole vector beside them.
pub proof fn law_elements_are_shown_one_by_one(s: Seq<(Seq<char>, ValueView)>, q: Seq<u64>, i: int)
    requires
        0 <= i < q.len(),
        q.len() <= 6,
    ensures
        stream::doubles_at(s, "actual_q"@) == Some(q) ==> published(s).contains(
            UpdateView {
                param: ReceiveParams::ActualJointPos,
                addr: i as i32,
                value: PublishedView::Float64(q[i], Scale::RadiansToDegrees),
            },
        ),
        stream::doubles_at(s, "actual_TCP_pose"@) == Some(q) ==> published(s).contains(
            UpdateView {
                param: ReceiveParams::ActualTcpPose,
                addr: i as i32,
                value: PublishedView::Float64(
                    q[i],
                    if i < 3 {
                        Scale::MetresToMm
                    } else {
                        Scale::Raw
                    },
                ),
            },
        ),
{
    let front = int_updates(s) + float_rows(s, float_table()) + array_rows(s, array_table())
        + mode_updates(s);
    let n = front.len() as int;
    let joints = spread(
        ReceiveParams::ActualJointPos,
        ReceiveParams::ActualJointPosArr,
        stream::doubles_at(s, "actual_q"@),
        joint_scale(),
        Scale::RadiansToDegrees,
    );
    let all = published(s);
    if stream::doubles_at(s, "actual_q"@) == Some(q) {
        assert(all[n + i] == joints[i]);
    }
    if stream::doubles_at(s, "actual_TCP_pose"@) == Some(q) {
        let k = n + joints.len() + i;
        assert(all[k] == UpdateView {
            param: ReceiveParams::ActualTcpPose,
            addr: i as i32,
            value: PublishedView::Float64(q[i], pose_scale()(i)),
        });
    }
}

/// A link that waits is tried when its time has come, and one that does not wait
/// at once.
pub proof fn law_attempt_is_due_at_its_time(b: Backoff, now: u64, t: u64)
    ensures
        b.next is None ==> b.is_due(now),
        b.next == Some(t) ==> (b.is_due(now) <==> now >= t),
{
}

/// What a refused write says.
pub proof fn law_refusals_say_what_is_missing(p: ReceiveParams, value: i32, connected: bool)
    ensures
        requested(p, value, false, connected) matches Err(e) ==> e
            == "the RTDE receive interface is not initialised"@,
        requested(p, value, true, false) matches Err(e) ==> e
            == "the RTDE receive interface is not connected"@,
        requested(p, value, true, true) is Ok,
{
}

} // verus!
