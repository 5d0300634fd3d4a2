//! The control port: what a write asks of the robot, and the motion that a look
//! at the robot drives on.
//!
//! A motion is queued by a write and driven by the looks that follow: started,
//! waited for, and, where a waypoint asks for it, followed by an action.

use super::super::control as channel;
use super::super::control::AsyncOperationStatus;
use super::super::error::{UrError, UrFault, UrResult};
use super::super::registry::{DashboardState, ReceiveState};
use super::super::rtde::{CommandType, PayloadView, RobotCommand};
use super::{Scale, Update, UpdateView, WriteError, WriteFault};
use crate::param::ParamType;
use crate::text;
use vstd::prelude::*;
use vstd::string::*;

verus! {

/// The number of joints, and of the elements of a pose.
pub const NUM_JOINTS: usize = 6;

/// The safety word in which the port acts.
pub const SAFETY_NORMAL: i32 = 1;

/// How long the control script may take to run again, in milliseconds.
pub const REUPLOAD_TIMEOUT_MS: u64 = 1_000;

/// The bits of 2.0, the deceleration of the joints in a stop.
pub const STOP_J: u64 = 0x4000_0000_0000_0000;

/// The bits of 10.0, the deceleration of the tool in a stop.
pub const STOP_L: u64 = 0x4024_0000_0000_0000;

/// The bits of 0.01, how long a jog command holds.
pub const JOG_TIME: u64 = 0x3f84_7ae1_47ae_147b;

/// The bits of 0.5.
pub const HALF: u64 = 0x3fe0_0000_0000_0000;

/// The bits of 1.4.
pub const JOINT_ACCEL: u64 = 0x3ff6_6666_6666_6666;

/// The bits of 0.05.
pub const LINEAR_SPEED: u64 = 0x3fa9_9999_9999_999a;

/// The parameters of the control port.
#[derive(Debug, Clone, Copy, PartialEq, Eq, Structural)]
pub enum ControlParams {
    Disconnect,
    Reconnect,
    IsConnected,
    IsSteady,
    MoveJ,
    StopJ,
    ActualQ,
    JointCmd,
    MoveL,
    StopL,
    ActualTcpPose,
    PoseCmd,
    TcpOffset,
    ReuploadControlScript,
    StopControlScript,
    JointSpeed,
    JointAcceleration,
    JointBlend,
    LinearSpeed,
    LinearAcceleration,
    LinearBlend,
    AsyncMoveDone,
    WaypointMove,
    RunWaypointAction,
    WaypointActionDone,
    TeachMode,
    TriggerProtStop,
    MotionDoneCount,
    CustomScriptFile,
    CustomInlineScript,
    RunCustomScriptFile,
    CustomScriptRunning,
    CustomScriptError,
    CustomScriptTimeout,
    JogStart,
    JogStop,
    JogSpeed,
    JogAcceleration,
    Jogging,
}

impl ControlParams {
    /// The name under which a record finds the parameter.
    pub open spec fn text(self) -> Seq<char> {
        match self {
            ControlParams::Disconnect => "DISCONNECT"@,
            ControlParams::Reconnect => "RECONNECT"@,
            ControlParams::IsConnected => "IS_CONNECTED"@,
            ControlParams::IsSteady => "IS_STEADY"@,
            ControlParams::MoveJ => "MOVEJ"@,
            ControlParams::StopJ => "STOPJ"@,
            ControlParams::ActualQ => "ACTUAL_Q"@,
            ControlParams::JointCmd => "JOINT_CMD"@,
            ControlParams::MoveL => "MOVEL"@,
            ControlParams::StopL => "STOPL"@,
            ControlParams::ActualTcpPose => "ACTUAL_TCP_POSE"@,
            ControlParams::PoseCmd => "POSE_CMD"@,
            ControlParams::TcpOffset => "TCP_OFFSET"@,
            ControlParams::ReuploadControlScript => "REUPLOAD_CONTROL_SCRIPT"@,
            ControlParams::StopControlScript => "STOP_CONTROL_SCRIPT"@,
            ControlParams::JointSpeed => "JOINT_SPEED"@,
            ControlParams::JointAcceleration => "JOINT_ACCELERATION"@,
            ControlParams::JointBlend => "JOINT_BLEND"@,
            ControlParams::LinearSpeed => "LINEAR_SPEED"@,
            ControlParams::LinearAcceleration => "LINEAR_ACCELERATION"@,
            ControlParams::LinearBlend => "LINEAR_BLEND"@,
            ControlParams::AsyncMoveDone => "ASYNC_MOVE_DONE"@,
            ControlParams::WaypointMove => "WAYPOINT_MOVE"@,
            ControlParams::RunWaypointAction => "RUN_WAYPOINT_ACTION"@,
            ControlParams::WaypointActionDone => "WAYPOINT_ACTION_DONE"@,
            ControlParams::TeachMode => "TEACH_MODE"@,
            ControlParams::TriggerProtStop => "TRIGGER_PROT_STOP"@,
            ControlParams::MotionDoneCount => "MOTION_DONE_COUNT"@,
            ControlParams::CustomScriptFile => "CUSTOM_SCRIPT_FILE"@,
            ControlParams::CustomInlineScript => "CUSTOM_INLINE_SCRIPT"@,
            ControlParams::RunCustomScriptFile => "RUN_CUSTOM_SCRIPT_FILE"@,
            ControlParams::CustomScriptRunning => "CUSTOM_SCRIPT_RUNNING"@,
            ControlParams::CustomScriptError => "CUSTOM_SCRIPT_ERROR"@,
            ControlParams::CustomScriptTimeout => "CUSTOM_SCRIPT_TIMEOUT"@,
            ControlParams::JogStart => "JOG_START"@,
            ControlParams::JogStop => "JOG_STOP"@,
            ControlParams::JogSpeed => "JOG_SPEED"@,
            ControlParams::JogAcceleration => "JOG_ACCELERATION"@,
            ControlParams::Jogging => "JOGGING"@,
        }
    }

    /// The name under which a record finds the parameter.
    pub fn name(self) -> (r: &'static str)
        ensures
            r@ == self.text(),
    {
        match self {
            ControlParams::Disconnect => "DISCONNECT",
            ControlParams::Reconnect => "RECONNECT",
            ControlParams::IsConnected => "IS_CONNECTED",
            ControlParams::IsSteady => "IS_STEADY",
            ControlParams::MoveJ => "MOVEJ",
            ControlParams::StopJ => "STOPJ",
            ControlParams::ActualQ => "ACTUAL_Q",
            ControlParams::JointCmd => "JOINT_CMD",
            ControlParams::MoveL => "MOVEL",
            ControlParams::StopL => "STOPL",
            ControlParams::ActualTcpPose => "ACTUAL_TCP_POSE",
            ControlParams::PoseCmd => "POSE_CMD",
            ControlParams::TcpOffset => "TCP_OFFSET",
            ControlParams::ReuploadControlScript => "REUPLOAD_CONTROL_SCRIPT",
            ControlParams::StopControlScript => "STOP_CONTROL_SCRIPT",
            ControlParams::JointSpeed => "JOINT_SPEED",
            ControlParams::JointAcceleration => "JOINT_ACCELERATION",
            ControlParams::JointBlend => "JOINT_BLEND",
            ControlParams::LinearSpeed => "LINEAR_SPEED",
            ControlParams::LinearAcceleration => "LINEAR_ACCELERATION",
            ControlParams::LinearBlend => "LINEAR_BLEND",
            ControlParams::AsyncMoveDone => "ASYNC_MOVE_DONE",
            ControlParams::WaypointMove => "WAYPOINT_MOVE",
            ControlParams::RunWaypointAction => "RUN_WAYPOINT_ACTION",
            ControlParams::WaypointActionDone => "WAYPOINT_ACTION_DONE",
            ControlParams::TeachMode => "TEACH_MODE",
            ControlParams::TriggerProtStop => "TRIGGER_PROT_STOP",
            ControlParams::MotionDoneCount => "MOTION_DONE_COUNT",
            ControlParams::CustomScriptFile => "CUSTOM_SCRIPT_FILE",
            ControlParams::CustomInlineScript => "CUSTOM_INLINE_SCRIPT",
            ControlParams::RunCustomScriptFile => "RUN_CUSTOM_SCRIPT_FILE",
            ControlParams::CustomScriptRunning => "CUSTOM_SCRIPT_RUNNING",
            ControlParams::CustomScriptError => "CUSTOM_SCRIPT_ERROR",
            ControlParams::CustomScriptTimeout => "CUSTOM_SCRIPT_TIMEOUT",
            ControlParams::JogStart => "JOG_START",
            ControlParams::JogStop => "JOG_STOP",
            ControlParams::JogSpeed => "JOG_SPEED",
            ControlParams::JogAcceleration => "JOG_ACCELERATION",
            ControlParams::Jogging => "JOGGING",
        }
    }

    /// The type of the parameter.
    pub open spec fn kind(self) -> ParamType {
        match self {
            ControlParams::ActualQ => ParamType::Float64Array,
            ControlParams::JointCmd => ParamType::Float64,
            ControlParams::ActualTcpPose => ParamType::Float64Array,
            ControlParams::PoseCmd => ParamType::Float64,
            ControlParams::TcpOffset => ParamType::Float64,
            ControlParams::JointSpeed => ParamType::Float64,
            ControlParams::JointAcceleration => ParamType::Float64,
            ControlParams::JointBlend => ParamType::Float64,
            ControlParams::LinearSpeed => ParamType::Float64,
            ControlParams::LinearAcceleration => ParamType::Float64,
            ControlParams::LinearBlend => ParamType::Float64,
            ControlParams::CustomScriptFile => ParamType::Octet,
            ControlParams::CustomInlineScript => ParamType::Octet,
            ControlParams::CustomScriptTimeout => ParamType::Float64,
            ControlParams::JogSpeed => ParamType::Float64,
            ControlParams::JogAcceleration => ParamType::Float64,
            _ => ParamType::Int32,
        }
    }

    /// The type of the parameter.
    pub fn param_type(self) -> (r: ParamType)
        ensures
            r == self.kind(),
    {
        match self {
            ControlParams::ActualQ => ParamType::Float64Array,
            ControlParams::JointCmd => ParamType::Float64,
            ControlParams::ActualTcpPose => ParamType::Float64Array,
            ControlParams::PoseCmd => ParamType::Float64,
            ControlParams::TcpOffset => ParamType::Float64,
            ControlParams::JointSpeed => ParamType::Float64,
            ControlParams::JointAcceleration => ParamType::Float64,
            ControlParams::JointBlend => ParamType::Float64,
            ControlParams::LinearSpeed => ParamType::Float64,
            ControlParams::LinearAcceleration => ParamType::Float64,
            ControlParams::LinearBlend => ParamType::Float64,
            ControlParams::CustomScriptFile => ParamType::Octet,
            ControlParams::CustomInlineScript => ParamType::Octet,
            ControlParams::CustomScriptTimeout => ParamType::Float64,
            ControlParams::JogSpeed => ParamType::Float64,
            ControlParams::JogAcceleration => ParamType::Float64,
            _ => ParamType::Int32,
        }
    }

    /// All parameters, in the order in which they are created.
    pub fn create() -> (r: Vec<ControlParams>)
        ensures
            r@ == all_params(),
    {
        let r: Vec<ControlParams> = vec![
            ControlParams::Disconnect,
            ControlParams::Reconnect,
            ControlParams::IsConnected,
            ControlParams::IsSteady,
            ControlParams::MoveJ,
            ControlParams::StopJ,
            ControlParams::ActualQ,
            ControlParams::JointCmd,
            ControlParams::MoveL,
            ControlParams::StopL,
            ControlParams::ActualTcpPose,
            ControlParams::PoseCmd,
            ControlParams::TcpOffset,
            ControlParams::ReuploadControlScript,
            ControlParams::StopControlScript,
            ControlParams::JointSpeed,
            ControlParams::JointAcceleration,
            ControlParams::JointBlend,
            ControlParams::LinearSpeed,
            ControlParams::LinearAcceleration,
            ControlParams::LinearBlend,
            ControlParams::AsyncMoveDone,
            ControlParams::WaypointMove,
            ControlParams::RunWaypointAction,
            ControlParams::WaypointActionDone,
            ControlParams::TeachMode,
            ControlParams::TriggerProtStop,
            ControlParams::MotionDoneCount,
            ControlParams::CustomScriptFile,
            ControlParams::CustomInlineScript,
            ControlParams::RunCustomScriptFile,
            ControlParams::CustomScriptRunning,
            ControlParams::CustomScriptError,
            ControlParams::CustomScriptTimeout,
            ControlParams::JogStart,
            ControlParams::JogStop,
            ControlParams::JogSpeed,
            ControlParams::JogAcceleration,
            ControlParams::Jogging,
        ];
        proof {
            assert(r@ =~= all_params());
        }
        r
    }
}

/// All parameters, in the order in which they are created.
pub open spec fn all_params() -> Seq<ControlParams> {
    seq![
        ControlParams::Disconnect,
        ControlParams::Reconnect,
        ControlParams::IsConnected,
        ControlParams::IsSteady,
        ControlParams::MoveJ,
        ControlParams::StopJ,
        ControlParams::ActualQ,
        ControlParams::JointCmd,
        ControlParams::MoveL,
        ControlParams::StopL,
        ControlParams::ActualTcpPose,
        ControlParams::PoseCmd,
        ControlParams::TcpOffset,
        ControlParams::ReuploadControlScript,
        ControlParams::StopControlScript,
        ControlParams::JointSpeed,
        ControlParams::JointAcceleration,
        ControlParams::JointBlend,
        ControlParams::LinearSpeed,
        ControlParams::LinearAcceleration,
        ControlParams::LinearBlend,
        ControlParams::AsyncMoveDone,
        ControlParams::WaypointMove,
        ControlParams::RunWaypointAction,
        ControlParams::WaypointActionDone,
        ControlParams::TeachMode,
        ControlParams::TriggerProtStop,
        ControlParams::MotionDoneCount,
        ControlParams::CustomScriptFile,
        ControlParams::CustomInlineScript,
        ControlParams::RunCustomScriptFile,
        ControlParams::CustomScriptRunning,
        ControlParams::CustomScriptError,
        ControlParams::CustomScriptTimeout,
        ControlParams::JogStart,
        ControlParams::JogStop,
        ControlParams::JogSpeed,
        ControlParams::JogAcceleration,
        ControlParams::Jogging,
    ]
}

/// Law: every parameter is created.
pub proof fn law_every_parameter_is_created(p: ControlParams)
    ensures
        exists|i: int| 0 <= i < all_params().len() && #[trigger] all_params()[i] == p,
{
    let i: int = match p {
        ControlParams::Disconnect => 0,
        ControlParams::Reconnect => 1,
        ControlParams::IsConnected => 2,
        ControlParams::IsSteady => 3,
        ControlParams::MoveJ => 4,
        ControlParams::StopJ => 5,
        ControlParams::ActualQ => 6,
        ControlParams::JointCmd => 7,
        ControlParams::MoveL => 8,
        ControlParams::StopL => 9,
        ControlParams::ActualTcpPose => 10,
        ControlParams::PoseCmd => 11,
        ControlParams::TcpOffset => 12,
        ControlParams::ReuploadControlScript => 13,
        ControlParams::StopControlScript => 14,
        ControlParams::JointSpeed => 15,
        ControlParams::JointAcceleration => 16,
        ControlParams::JointBlend => 17,
        ControlParams::LinearSpeed => 18,
        ControlParams::LinearAcceleration => 19,
        ControlParams::LinearBlend => 20,
        ControlParams::AsyncMoveDone => 21,
        ControlParams::WaypointMove => 22,
        ControlParams::RunWaypointAction => 23,
        ControlParams::WaypointActionDone => 24,
        ControlParams::TeachMode => 25,
        ControlParams::TriggerProtStop => 26,
        ControlParams::MotionDoneCount => 27,
        ControlParams::CustomScriptFile => 28,
        ControlParams::CustomInlineScript => 29,
        ControlParams::RunCustomScriptFile => 30,
        ControlParams::CustomScriptRunning => 31,
        ControlParams::CustomScriptError => 32,
        ControlParams::CustomScriptTimeout => 33,
        ControlParams::JogStart => 34,
        ControlParams::JogStop => 35,
        ControlParams::JogSpeed => 36,
        ControlParams::JogAcceleration => 37,
        ControlParams::Jogging => 38,
    };
    assert(all_params()[i] == p);
}

impl ControlParams {
    /// Whether the parameter is a momentary command.
    pub open spec fn commands(self) -> bool {
        match self {
            ControlParams::Disconnect => true,
            ControlParams::Reconnect => true,
            ControlParams::MoveJ => true,
            ControlParams::StopJ => true,
            ControlParams::MoveL => true,
            ControlParams::StopL => true,
            ControlParams::ReuploadControlScript => true,
            ControlParams::StopControlScript => true,
            ControlParams::TriggerProtStop => true,
            ControlParams::RunCustomScriptFile => true,
            ControlParams::JogStart => true,
            ControlParams::JogStop => true,
            _ => false,
        }
    }

    /// Whether the parameter is a momentary command.
    pub fn is_command(self) -> (r: bool)
        ensures
            r == self.commands(),
    {
        match self {
            ControlParams::Disconnect => true,
            ControlParams::Reconnect => true,
            ControlParams::MoveJ => true,
            ControlParams::StopJ => true,
            ControlParams::MoveL => true,
            ControlParams::StopL => true,
            ControlParams::ReuploadControlScript => true,
            ControlParams::StopControlScript => true,
            ControlParams::TriggerProtStop => true,
            ControlParams::RunCustomScriptFile => true,
            ControlParams::JogStart => true,
            ControlParams::JogStop => true,
            _ => false,
        }
    }
}

/// What moves.
#[derive(Debug, Clone, Copy, PartialEq, Eq, Structural)]
pub enum MotionType {
    Joint,
    Cartesian,
}

/// How far a motion is: not started or over, under way, or over with its
/// action still to come.
#[derive(Debug, Clone, Copy, PartialEq, Eq, Structural)]
pub enum MotionStatus {
    Done,
    WaitingMotion,
    WaitingAction,
}

/// A motion that was asked for.
#[derive(Debug, Clone, Copy, PartialEq, Eq, Structural)]
pub struct MotionTask {
    pub motion: MotionType,
    /// Whether an action follows.
    pub action: bool,
}

/// A script of the user's that runs in place of the control script. Times are
/// in nanoseconds on the caller's clock.
#[derive(Debug, Clone, Copy, PartialEq, Eq, Structural)]
pub struct CustomScript {
    pub started: u64,
    /// The register that the script counts up, as it was.
    pub start_count: i32,
    pub timeout: u64,
}

/// What the port keeps between writes and looks. Numbers are held as their
/// bits, in the units of the robot.
#[derive(Debug)]
pub struct ControlInner {
    pub cmd_joints: [u64; 6],
    pub cmd_pose: [u64; 6],
    pub tcp_offset: [u64; 6],
    pub jog_speeds: [u64; 6],
    pub jog_acceleration: u64,
    /// Whether a jog speed changed since the last jog.
    pub new_jog: bool,
    pub joint_speed: u64,
    pub joint_accel: u64,
    pub joint_blend: u64,
    pub linear_speed: u64,
    pub linear_accel: u64,
    pub linear_blend: u64,
    pub waypoint_move: bool,
    pub waypoint_action_done: bool,
    pub pending_motion: Option<MotionTask>,
    pub motion_status: MotionStatus,
    pub motion_done_count: i32,
    /// Changes with every action, so that its record always processes.
    pub run_action: bool,
    pub custom_script_path: String,
    /// In nanoseconds.
    pub custom_script_timeout: u64,
    pub custom_script: Option<CustomScript>,
}

impl Default for ControlInner {
    fn default() -> (r: ControlInner)
        ensures
            r.cmd_joints@ == Seq::new(6, |i: int| 0u64),
            r.cmd_pose@ == Seq::new(6, |i: int| 0u64),
            r.tcp_offset@ == Seq::new(6, |i: int| 0u64),
            r.jog_speeds@ == Seq::new(6, |i: int| 0u64),
            r.jog_acceleration == 0,
            !r.new_jog,
            r.joint_speed == HALF,
            r.joint_accel == JOINT_ACCEL,
            r.joint_blend == 0,
            r.linear_speed == LINEAR_SPEED,
            r.linear_accel == HALF,
            r.linear_blend == 0,
            !r.waypoint_move,
            !r.waypoint_action_done,
            r.pending_motion is None,
            r.motion_status is Done,
            r.motion_done_count == 0,
            !r.run_action,
            r.custom_script_path@ == Seq::<char>::empty(),
            r.custom_script_timeout == 0,
            r.custom_script is None,
            r.wf(),
    {
        let r = ControlInner {
            cmd_joints: [0, 0, 0, 0, 0, 0],
            cmd_pose: [0, 0, 0, 0, 0, 0],
            tcp_offset: [0, 0, 0, 0, 0, 0],
            jog_speeds: [0, 0, 0, 0, 0, 0],
            jog_acceleration: 0,
            new_jog: false,
            joint_speed: HALF,
            joint_accel: JOINT_ACCEL,
            joint_blend: 0,
            linear_speed: LINEAR_SPEED,
            linear_accel: HALF,
            linear_blend: 0,
            waypoint_move: false,
            waypoint_action_done: false,
            pending_motion: None,
            motion_status: MotionStatus::Done,
            motion_done_count: 0,
            run_action: false,
            custom_script_path: String::new(),
            custom_script_timeout: 0,
            custom_script: None,
        };
        proof {
            let z = Seq::new(6, |i: int| 0u64);
            assert(r.cmd_joints@ =~= z);
            assert(r.cmd_pose@ =~= z);
            assert(r.tcp_offset@ =~= z);
            assert(r.jog_speeds@ =~= z);
        }
        r
    }
}

/// The count after this one.
pub open spec fn counted(n: i32) -> i32 {
    if n == i32::MAX {
        i32::MIN
    } else {
        (n + 1) as i32
    }
}

/// The state when a motion is over.
pub open spec fn over(s: ControlInner) -> ControlInner {
    ControlInner {
        motion_status: MotionStatus::Done,
        pending_motion: None,
        motion_done_count: counted(s.motion_done_count),
        ..s
    }
}

/// What is published when a motion is over.
pub open spec fn over_updates(s: ControlInner) -> Seq<UpdateView<ControlParams>> {
    seq![
        super::int_update(ControlParams::AsyncMoveDone, 1),
        super::int_update(ControlParams::MotionDoneCount, counted(s.motion_done_count)),
    ]
}

impl ControlInner {
    /// A motion is under way only while one is pending.
    pub open spec fn wf(self) -> bool {
        self.pending_motion is None ==> self.motion_status is Done
    }

    /// Ends a motion.
    pub fn motion_task_done(&mut self, out: &mut Vec<Update<ControlParams>>)
        ensures
            *final(self) == over(*old(self)),
            super::views(final(out)@) == super::views(old(out)@) + over_updates(*old(self)),
            final(self).wf(),
    {
        self.motion_status = MotionStatus::Done;
        self.pending_motion = None;
        self.motion_done_count = if self.motion_done_count == i32::MAX {
            i32::MIN
        } else {
            self.motion_done_count + 1
        };
        super::push_int(out, ControlParams::AsyncMoveDone, 1);
        super::push_int(out, ControlParams::MotionDoneCount, self.motion_done_count);
        proof {
            assert(super::views(out@) =~= super::views(old(out)@) + over_updates(*old(self)));
        }
    }
}

/// What a write asks for.
#[derive(Debug)]
pub enum ControlAction {
    Nothing,
    Connect,
    Disconnect,
    /// Run the script in the file that was named.
    RunFile,
    /// Ask whether the target is within the limits.
    CheckTarget(MotionType, RobotCommand),
    Send(RobotCommand),
    /// Bring the control script again.
    Reupload,
    /// Send this; on success the jog goes on.
    StartJog(RobotCommand),
    /// Send this; on success the jog is over.
    StopJog(RobotCommand),
}

/// What a write asks for, with the commands as they are sent.
pub enum ControlActionView {
    Nothing,
    Connect,
    Disconnect,
    RunFile,
    CheckTarget(MotionType, (u8, CommandType, PayloadView)),
    Send((u8, CommandType, PayloadView)),
    Reupload,
    StartJog((u8, CommandType, PayloadView)),
    StopJog((u8, CommandType, PayloadView)),
}

impl View for ControlAction {
    type V = ControlActionView;

    open spec fn view(&self) -> ControlActionView {
        match *self {
            ControlAction::Nothing => ControlActionView::Nothing,
            ControlAction::Connect => ControlActionView::Connect,
            ControlAction::Disconnect => ControlActionView::Disconnect,
            ControlAction::RunFile => ControlActionView::RunFile,
            ControlAction::CheckTarget(m, c) => ControlActionView::CheckTarget(
                m,
                channel::command_view(c),
            ),
            ControlAction::Send(c) => ControlActionView::Send(channel::command_view(c)),
            ControlAction::Reupload => ControlActionView::Reupload,
            ControlAction::StartJog(c) => ControlActionView::StartJog(channel::command_view(c)),
            ControlAction::StopJog(c) => ControlActionView::StopJog(channel::command_view(c)),
        }
    }
}

/// The question whether a target is within the limits.
pub open spec fn target_question(s: ControlInner, motion: MotionType) -> (
    u8,
    CommandType,
    PayloadView,
) {
    match motion {
        MotionType::Joint => (
            channel::RECIPE_WRENCH,
            CommandType::IsJointsWithinSafetyLimits,
            PayloadView::Vector(s.cmd_joints@),
        ),
        MotionType::Cartesian => (
            channel::RECIPE_WRENCH,
            CommandType::IsPoseWithinSafetyLimits,
            PayloadView::Vector(s.cmd_pose@),
        ),
    }
}

/// A stop.
pub open spec fn stop_command(command: CommandType, acceleration: u64) -> (
    u8,
    CommandType,
    PayloadView,
) {
    (
        channel::RECIPE_STOP,
        command,
        PayloadView::VectorAsync { val: seq![acceleration], asynchronous: false },
    )
}

/// What a write to a connected robot asks for.
pub open spec fn connected_request(s: ControlInner, p: ControlParams, value: i32) -> Result<
    ControlActionView,
    WriteFault,
> {
    match p {
        ControlParams::MoveJ => Ok(
            if s.pending_motion is Some {
                ControlActionView::Nothing
            } else {
                ControlActionView::CheckTarget(
                    MotionType::Joint,
                    target_question(s, MotionType::Joint),
                )
            },
        ),
        ControlParams::MoveL => Ok(
            if s.pending_motion is Some {
                ControlActionView::Nothing
            } else {
                ControlActionView::CheckTarget(
                    MotionType::Cartesian,
                    target_question(s, MotionType::Cartesian),
                )
            },
        ),
        ControlParams::StopJ => Ok(
            ControlActionView::Send(stop_command(CommandType::StopJ, STOP_J)),
        ),
        ControlParams::StopL => Ok(
            ControlActionView::Send(stop_command(CommandType::StopL, STOP_L)),
        ),
        ControlParams::ReuploadControlScript => Ok(ControlActionView::Reupload),
        ControlParams::StopControlScript => Ok(
            ControlActionView::Send(channel::bare(CommandType::StopScript)),
        ),
        ControlParams::TriggerProtStop => Ok(
            ControlActionView::Send(channel::bare(CommandType::ProtectiveStop)),
        ),
        ControlParams::TeachMode => Ok(
            ControlActionView::Send(
                channel::bare(
                    if value != 0 {
                        CommandType::TeachMode
                    } else {
                        CommandType::EndTeachMode
                    },
                ),
            ),
        ),
        ControlParams::JogStart => if s.new_jog {
            match channel::checked(
                s.jog_acceleration,
                channel::ZERO,
                channel::TOOL_ACCELERATION_MAX,
                Ok(
                    (
                        channel::RECIPE_SETP,
                        CommandType::SpeedL,
                        PayloadView::Vector(
                            s.jog_speeds@.push(s.jog_acceleration).push(JOG_TIME),
                        ),
                    ),
                ),
            ) {
                Ok(c) => Ok(ControlActionView::StartJog(c)),
                Err(e) => Err(WriteFault::Failed(e)),
            }
        } else {
            Ok(ControlActionView::Nothing)
        },
        ControlParams::JogStop => Ok(
            ControlActionView::StopJog(
                (
                    channel::RECIPE_FORCE_MODE_PARAMETERS,
                    CommandType::SpeedStop,
                    PayloadView::Vector(seq![STOP_L]),
                ),
            ),
        ),
        _ => Ok(ControlActionView::Nothing),
    }
}

/// Whether a write only stages state for a later command.
pub open spec fn stages(p: ControlParams) -> bool {
    p is WaypointMove || p is WaypointActionDone
}

/// What a write of an integer asks for, or why it is refused.
pub open spec fn requested(
    s: ControlInner,
    p: ControlParams,
    value: i32,
    initialised: bool,
    connected: bool,
) -> Result<ControlActionView, WriteFault> {
    if p.commands() && value == 0 {
        Ok(ControlActionView::Nothing)
    } else if p is Reconnect {
        Ok(ControlActionView::Connect)
    } else if p is RunCustomScriptFile {
        Ok(ControlActionView::RunFile)
    } else if p is Disconnect {
        if initialised {
            Ok(ControlActionView::Disconnect)
        } else {
            Err(WriteFault::Refused("the RTDE control interface is not initialised"@))
        }
    } else if stages(p) {
        Ok(ControlActionView::Nothing)
    } else if !connected {
        Err(WriteFault::Refused("the RTDE control interface is not connected"@))
    } else {
        connected_request(s, p, value)
    }
}

/// Whether a write ends the motion that is under way.
pub open spec fn stops(p: ControlParams, value: i32, connected: bool) -> bool {
    (p is StopJ || p is StopL) && value != 0 && connected
}

/// What a write of an integer leaves behind.
pub open spec fn after_write(s: ControlInner, p: ControlParams, value: i32, connected: bool) -> ControlInner {
    if p is WaypointMove {
        ControlInner { waypoint_move: value != 0, ..s }
    } else if p is WaypointActionDone {
        ControlInner { waypoint_action_done: value != 0, ..s }
    } else if stops(p, value, connected) {
        over(s)
    } else {
        s
    }
}

/// What a write of an integer publishes at once.
pub open spec fn write_updates(s: ControlInner, p: ControlParams, value: i32, connected: bool) -> Seq<
    UpdateView<ControlParams>,
> {
    if stops(p, value, connected) {
        over_updates(s)
    } else if p is JogStart && value != 0 && connected && !s.new_jog {
        seq![super::int_update(ControlParams::Jogging, 1)]
    } else {
        Seq::empty()
    }
}

/// The action, or why there is none.
pub open spec fn action_outcome(r: Result<ControlAction, WriteError>) -> Result<
    ControlActionView,
    WriteFault,
> {
    match r {
        Ok(a) => Ok(a@),
        Err(e) => Err(e@),
    }
}

impl ControlInner {
    fn move_request(&self, motion: MotionType) -> (r: ControlAction)
        ensures
            r@ == if self.pending_motion is Some {
                ControlActionView::Nothing
            } else {
                ControlActionView::CheckTarget(motion, target_question(*self, motion))
            },
    {
        match self.pending_motion {
            Some(_) => ControlAction::Nothing,
            None => match motion {
                MotionType::Joint => ControlAction::CheckTarget(
                    motion,
                    channel::is_joints_within_safety_limits(&self.cmd_joints),
                ),
                MotionType::Cartesian => ControlAction::CheckTarget(
                    motion,
                    channel::is_pose_within_safety_limits(&self.cmd_pose),
                ),
            },
        }
    }

    fn connected_write(&mut self, p: ControlParams, value: i32, out: &mut Vec<Update<ControlParams>>) -> (r:
        Result<ControlAction, WriteError>)
        requires
            p.commands() ==> value != 0,
            !stages(p),
        ensures
            *final(self) == after_write(*old(self), p, value, true),
            super::views(final(out)@) == super::views(old(out)@) + write_updates(
                *old(self),
                p,
                value,
                true,
            ),
            action_outcome(r) == connected_request(*old(self), p, value),
    {
        let ghost before = super::views(out@);
        proof {
            assert(before =~= before + Seq::empty());
        }
        match p {
            ControlParams::MoveJ => Ok(self.move_request(MotionType::Joint)),
            ControlParams::MoveL => Ok(self.move_request(MotionType::Cartesian)),
            ControlParams::StopJ => {
                self.motion_task_done(out);
                Ok(ControlAction::Send(channel::stop_j(STOP_J, false)))
            },
            ControlParams::StopL => {
                self.motion_task_done(out);
                Ok(ControlAction::Send(channel::stop_l(STOP_L, false)))
            },
            ControlParams::ReuploadControlScript => Ok(ControlAction::Reupload),
            ControlParams::StopControlScript => Ok(ControlAction::Send(channel::stop_script())),
            ControlParams::TriggerProtStop => Ok(
                ControlAction::Send(channel::trigger_protective_stop()),
            ),
            ControlParams::TeachMode => {
                if value != 0 {
                    Ok(ControlAction::Send(channel::teach_mode()))
                } else {
                    Ok(ControlAction::Send(channel::end_teach_mode()))
                }
            },
            ControlParams::JogStart => {
                if self.new_jog {
                    match channel::speed_l(&self.jog_speeds, self.jog_acceleration, JOG_TIME) {
                        Ok(c) => Ok(ControlAction::StartJog(c)),
                        Err(e) => Err(WriteError::Failed(e)),
                    }
                } else {
                    super::push_int(out, ControlParams::Jogging, 1);
                    proof {
                        assert(super::views(out@) =~= before + seq![
                            super::int_update(ControlParams::Jogging, 1),
                        ]);
                    }
                    Ok(ControlAction::Nothing)
                }
            },
            ControlParams::JogStop => Ok(ControlAction::StopJog(channel::speed_stop(STOP_L))),
            _ => Ok(ControlAction::Nothing),
        }
    }

    /// What a write of an integer asks for, and what it publishes at once.
    pub fn write_int32(&mut self, p: ControlParams, value: i32, initialised: bool, connected: bool) -> (r:
        (Vec<Update<ControlParams>>, Result<ControlAction, WriteError>))
        ensures
            *final(self) == after_write(*old(self), p, value, connected),
            super::views(r.0@) == write_updates(*old(self), p, value, connected),
            action_outcome(r.1) == requested(*old(self), p, value, initialised, connected),
    {
        let mut out: Vec<Update<ControlParams>> = Vec::new();
        proof {
            assert(super::views(out@) =~= Seq::empty());
        }
        if p.is_command() && value == 0 {
            return (out, Ok(ControlAction::Nothing));
        }
        match p {
            ControlParams::Reconnect => {
                return (out, Ok(ControlAction::Connect));
            },
            ControlParams::RunCustomScriptFile => {
                return (out, Ok(ControlAction::RunFile));
            },
            ControlParams::Disconnect => {
                if initialised {
                    return (out, Ok(ControlAction::Disconnect));
                }
                return (
                    out,
                    Err(super::refusal("the RTDE control interface is not initialised")),
                );
            },
            ControlParams::WaypointMove => {
                self.waypoint_move = value != 0;
                return (out, Ok(ControlAction::Nothing));
            },
            ControlParams::WaypointActionDone => {
                self.waypoint_action_done = value != 0;
                return (out, Ok(ControlAction::Nothing));
            },
            _ => {},
        }
        if !connected {
            return (out, Err(super::refusal("the RTDE control interface is not connected")));
        }
        let r = self.connected_write(p, value, &mut out);
        proof {
            let w = write_updates(*old(self), p, value, true);
            assert(Seq::<UpdateView<ControlParams>>::empty() + w =~= w);
        }
        (out, r)
    }

    /// Takes the answer whether the target is within the limits: the motion is
    /// queued, or nothing happens.
    pub fn target_checked(&mut self, motion: MotionType, within: bool) -> (r: Vec<
        Update<ControlParams>,
    >)
        ensures
            if within {
                &&& *final(self) == (ControlInner {
                    pending_motion: Some(MotionTask { motion, action: old(self).waypoint_move }),
                    waypoint_move: false,
                    ..*old(self)
                })
                &&& super::views(r@) == seq![super::int_update(ControlParams::AsyncMoveDone, 0)]
            } else {
                *final(self) == *old(self) && r@.len() == 0
            },
            old(self).wf() ==> final(self).wf(),
    {
        let mut r: Vec<Update<ControlParams>> = Vec::new();
        if within {
            self.pending_motion = Some(MotionTask { motion, action: self.waypoint_move });
            self.waypoint_move = false;
            super::push_int(&mut r, ControlParams::AsyncMoveDone, 0);
            proof {
                assert(super::views(r@) =~= seq![
                    super::int_update(ControlParams::AsyncMoveDone, 0),
                ]);
            }
        }
        r
    }

    /// Notes that a jog speed was sent.
    pub fn jog_started(&mut self) -> (r: Vec<Update<ControlParams>>)
        ensures
            *final(self) == (ControlInner { new_jog: false, ..*old(self) }),
            super::views(r@) == seq![super::int_update(ControlParams::Jogging, 1)],
    {
        self.new_jog = false;
        let mut r: Vec<Update<ControlParams>> = Vec::new();
        super::push_int(&mut r, ControlParams::Jogging, 1);
        proof {
            assert(super::views(r@) =~= seq![super::int_update(ControlParams::Jogging, 1)]);
        }
        r
    }
}

/// What is published when a jog was stopped.
pub fn jog_stopped() -> (r: Vec<Update<ControlParams>>)
    ensures
        super::views(r@) == seq![super::int_update(ControlParams::Jogging, 0)],
{
    let mut r: Vec<Update<ControlParams>> = Vec::new();
    super::push_int(&mut r, ControlParams::Jogging, 0);
    proof {
        assert(super::views(r@) =~= seq![super::int_update(ControlParams::Jogging, 0)]);
    }
    r
}

/// Law: a zero written to a command does nothing, whatever the link.
pub proof fn law_zero_to_a_command_does_nothing(
    s: ControlInner,
    p: ControlParams,
    initialised: bool,
    connected: bool,
)
    requires
        p.commands(),
    ensures
        requested(s, p, 0, initialised, connected) == Ok::<ControlActionView, WriteFault>(
            ControlActionView::Nothing,
        ),
        after_write(s, p, 0, connected) == s,
        write_updates(s, p, 0, connected) == Seq::<UpdateView<ControlParams>>::empty(),
{
}

/// Law: while a motion is pending no other is taken.
pub proof fn law_one_motion_at_a_time(s: ControlInner, value: i32, initialised: bool)
    requires
        s.pending_motion is Some,
    ensures
        requested(s, ControlParams::MoveJ, value, initialised, true) == Ok::<
            ControlActionView,
            WriteFault,
        >(ControlActionView::Nothing),
        requested(s, ControlParams::MoveL, value, initialised, true) == Ok::<
            ControlActionView,
            WriteFault,
        >(ControlActionView::Nothing),
{
}

/// How a number that is written is scaled before it is kept.
pub open spec fn scale_of(p: ControlParams, index: int) -> Scale {
    match p {
        ControlParams::JointCmd
        | ControlParams::JointSpeed
        | ControlParams::JointAcceleration => Scale::DegreesToRadians,
        ControlParams::PoseCmd | ControlParams::JogSpeed => if index >= 3 {
            Scale::DegreesToRadians
        } else {
            Scale::MmToMetres
        },
        ControlParams::TcpOffset => if index >= 3 {
            Scale::Raw
        } else {
            Scale::MmToMetres
        },
        ControlParams::JointBlend
        | ControlParams::LinearSpeed
        | ControlParams::LinearAcceleration
        | ControlParams::LinearBlend => Scale::MmToMetres,
        _ => Scale::Raw,
    }
}

/// How a number that is written is scaled before it is kept: angles come in
/// degrees and lengths in millimetres; the rotation of the tool offset is kept
/// as it is.
pub fn float_scale(p: ControlParams, index: i32) -> (r: Scale)
    ensures
        r == scale_of(p, index as int),
{
    match p {
        ControlParams::JointCmd
        | ControlParams::JointSpeed
        | ControlParams::JointAcceleration => Scale::DegreesToRadians,
        ControlParams::PoseCmd | ControlParams::JogSpeed => {
            if index >= 3 {
                Scale::DegreesToRadians
            } else {
                Scale::MmToMetres
            }
        },
        ControlParams::TcpOffset => {
            if index >= 3 {
                Scale::Raw
            } else {
                Scale::MmToMetres
            }
        },
        ControlParams::JointBlend
        | ControlParams::LinearSpeed
        | ControlParams::LinearAcceleration
        | ControlParams::LinearBlend => Scale::MmToMetres,
        _ => Scale::Raw,
    }
}

/// Whether an array is another with one element replaced.
pub open spec fn replaced(new: [u64; 6], old: [u64; 6], i: int, v: u64) -> bool {
    new@ == old@.update(i, v)
}

/// What a write of a number leaves behind. `scaled` is the number after its
/// scaling, or, for the time of a script, in nanoseconds.
pub open spec fn after_float(
    s: ControlInner,
    t: ControlInner,
    p: ControlParams,
    i: int,
    value: u64,
    scaled: u64,
    connected: bool,
) -> bool {
    match p {
        ControlParams::CustomScriptTimeout => t == (ControlInner {
            custom_script_timeout: scaled,
            ..s
        }),
        ControlParams::JogAcceleration => t == (ControlInner {
            jog_acceleration: value,
            new_jog: true,
            ..s
        }),
        _ => if !connected {
            t == s
        } else {
            match p {
                ControlParams::JointCmd => replaced(t.cmd_joints, s.cmd_joints, i, scaled) && t == (
                ControlInner { cmd_joints: t.cmd_joints, ..s }),
                ControlParams::PoseCmd => replaced(t.cmd_pose, s.cmd_pose, i, scaled) && t == (
                ControlInner { cmd_pose: t.cmd_pose, ..s }),
                ControlParams::JogSpeed => replaced(t.jog_speeds, s.jog_speeds, i, scaled) && t == (
                ControlInner { jog_speeds: t.jog_speeds, new_jog: true, ..s }),
                ControlParams::TcpOffset => replaced(t.tcp_offset, s.tcp_offset, i, scaled) && t
                    == (ControlInner { tcp_offset: t.tcp_offset, ..s }),
                ControlParams::JointSpeed => t == (ControlInner { joint_speed: scaled, ..s }),
                ControlParams::JointAcceleration => t == (ControlInner {
                    joint_accel: scaled,
                    ..s
                }),
                ControlParams::JointBlend => t == (ControlInner { joint_blend: scaled, ..s }),
                ControlParams::LinearSpeed => t == (ControlInner { linear_speed: scaled, ..s }),
                ControlParams::LinearAcceleration => t == (ControlInner {
                    linear_accel: scaled,
                    ..s
                }),
                ControlParams::LinearBlend => t == (ControlInner { linear_blend: scaled, ..s }),
                _ => t == s,
            }
        },
    }
}

impl ControlInner {
    /// What a write of a number sends, if anything. `scaled` is the number
    /// after its scaling, or, for the time of a script, in nanoseconds.
    pub fn write_float64(
        &mut self,
        p: ControlParams,
        addr: i32,
        value: u64,
        scaled: u64,
        connected: bool,
    ) -> (r: Result<Option<RobotCommand>, WriteError>)
        ensures
            if !(0 <= addr < 6) {
                &&& *final(self) == *old(self)
                &&& r is Err && r->Err_0@ == WriteFault::Refused(
                    "address "@ + text::signed_decimal(addr as int) + " is out of range"@,
                )
            } else {
                &&& after_float(
                    *old(self),
                    *final(self),
                    p,
                    addr as int,
                    value,
                    scaled,
                    connected,
                )
                &&& if p is CustomScriptTimeout || p is JogAcceleration {
                    r matches Ok(None)
                } else if !connected {
                    r is Err && r->Err_0@ == WriteFault::Refused(
                        "the RTDE control interface is not connected"@,
                    )
                } else if p is TcpOffset {
                    r matches Ok(Some(c)) && channel::command_view(c) == (
                        channel::RECIPE_WRENCH,
                        CommandType::SetTcp,
                        PayloadView::Vector(final(self).tcp_offset@),
                    )
                } else {
                    r matches Ok(None)
                }
            },
            old(self).wf() ==> final(self).wf(),
    {
        if addr < 0 || addr >= 6 {
            return Err(super::bad_address("address ", addr, " is out of range"));
        }
        let i: usize = addr as usize;
        match p {
            ControlParams::CustomScriptTimeout => {
                self.custom_script_timeout = scaled;
                return Ok(None);
            },
            ControlParams::JogAcceleration => {
                self.jog_acceleration = value;
                self.new_jog = true;
                return Ok(None);
            },
            _ => {},
        }
        if !connected {
            return Err(super::refusal("the RTDE control interface is not connected"));
        }
        match p {
            ControlParams::JointCmd => {
                self.cmd_joints[i] = scaled;
            },
            ControlParams::PoseCmd => {
                self.cmd_pose[i] = scaled;
            },
            ControlParams::JogSpeed => {
                self.jog_speeds[i] = scaled;
                self.new_jog = true;
            },
            ControlParams::TcpOffset => {
                self.tcp_offset[i] = scaled;
                return Ok(Some(channel::set_tcp(&self.tcp_offset)));
            },
            ControlParams::JointSpeed => {
                self.joint_speed = scaled;
            },
            ControlParams::JointAcceleration => {
                self.joint_accel = scaled;
            },
            ControlParams::JointBlend => {
                self.joint_blend = scaled;
            },
            ControlParams::LinearSpeed => {
                self.linear_speed = scaled;
            },
            ControlParams::LinearAcceleration => {
                self.linear_accel = scaled;
            },
            ControlParams::LinearBlend => {
                self.linear_blend = scaled;
            },
            _ => {},
        }
        Ok(None)
    }
}

/// How the link is made.
#[derive(Debug, Clone, Copy, PartialEq, Eq, Structural)]
pub enum ConnectStep {
    /// The robot is not in a state to be commanded.
    Refuse,
    /// It is there.
    Done,
    Reconnect,
    Connect,
}

/// How the link is made: only while the safety word is normal and the robot
/// runs. A link that is there is a success.
pub fn connect_step(
    receive: &ReceiveState,
    dashboard: &DashboardState,
    initialised: bool,
    connected: bool,
) -> (r: ConnectStep)
    ensures
        r == if !receive.connected || receive.safety_status_bits != SAFETY_NORMAL
            || !dashboard@.is_running() {
            ConnectStep::Refuse
        } else if !initialised {
            ConnectStep::Connect
        } else if connected {
            ConnectStep::Done
        } else {
            ConnectStep::Reconnect
        },
{
    if !receive.connected || receive.safety_status_bits != SAFETY_NORMAL {
        return ConnectStep::Refuse;
    }
    if !dashboard.robot_running() {
        return ConnectStep::Refuse;
    }
    if !initialised {
        ConnectStep::Connect
    } else if connected {
        ConnectStep::Done
    } else {
        ConnectStep::Reconnect
    }
}

/// What stands against a command on the link, if anything.
pub open spec fn link_fault(initialised: bool, connected: bool) -> Option<UrFault> {
    if !initialised {
        Some(UrFault::NotConnected("RTDE control (not initialised)"@))
    } else if !connected {
        Some(UrFault::NotConnected("RTDE control"@))
    } else {
        None
    }
}

/// Checks that there is a link.
pub fn check_link(initialised: bool, connected: bool) -> (r: UrResult<()>)
    ensures
        match link_fault(initialised, connected) {
            Some(e) => r is Err && r->Err_0@ == e,
            None => r is Ok,
        },
{
    if !initialised {
        Err(UrError::NotConnected("RTDE control (not initialised)".to_owned()))
    } else if !connected {
        Err(UrError::NotConnected("RTDE control".to_owned()))
    } else {
        Ok(())
    }
}

impl ControlInner {
    /// Whether a script of the user's may run: not while a motion is under way,
    /// unless it is the action of that motion.
    pub fn may_run_script(&self, initialised: bool, connected: bool) -> (r: Result<(), WriteError>)
        ensures
            if self.pending_motion is Some && !(self.motion_status is WaitingAction) {
                r is Err && r->Err_0@ == WriteFault::Refused(
                    "a motion task is in progress; the URScript was not run"@,
                )
            } else {
                match link_fault(initialised, connected) {
                    Some(e) => r is Err && r->Err_0@ == WriteFault::Failed(e),
                    None => r is Ok,
                }
            },
    {
        let waiting_action = match self.motion_status {
            MotionStatus::WaitingAction => true,
            _ => false,
        };
        match self.pending_motion {
            Some(_) => {
                if !waiting_action {
                    return Err(
                        super::refusal("a motion task is in progress; the URScript was not run"),
                    );
                }
            },
            None => {},
        }
        match check_link(initialised, connected) {
            Ok(_) => Ok(()),
            Err(e) => Err(WriteError::Failed(e)),
        }
    }

    /// Notes that a script of the user's was sent. `count` is the register that
    /// it will count up.
    pub fn script_started(&mut self, count: i32, now: u64) -> (r: Vec<Update<ControlParams>>)
        ensures
            *final(self) == (ControlInner {
                custom_script: Some(
                    CustomScript {
                        started: now,
                        start_count: count,
                        timeout: old(self).custom_script_timeout,
                    },
                ),
                ..*old(self)
            }),
            super::views(r@) == seq![
                super::int_update(ControlParams::CustomScriptError, 0),
                super::int_update(ControlParams::CustomScriptRunning, 1),
            ],
    {
        self.custom_script = Some(
            CustomScript { started: now, start_count: count, timeout: self.custom_script_timeout },
        );
        let mut r: Vec<Update<ControlParams>> = Vec::new();
        super::push_int(&mut r, ControlParams::CustomScriptError, 0);
        super::push_int(&mut r, ControlParams::CustomScriptRunning, 1);
        proof {
            assert(super::views(r@) =~= seq![
                super::int_update(ControlParams::CustomScriptError, 0),
                super::int_update(ControlParams::CustomScriptRunning, 1),
            ]);
        }
        r
    }

    /// What a write of a text asks for: `true` where the text is a script to be
    /// run. `is_file` is whether the text names a file.
    pub fn write_octet(&mut self, p: ControlParams, t: String, is_file: bool) -> (r: (
        Vec<Update<ControlParams>>,
        Result<bool, String>,
    ))
        ensures
            match p {
                ControlParams::CustomScriptFile => {
                    &&& super::views(r.0@) == seq![
                        super::int_update(ControlParams::CustomScriptError, super::flag(!is_file)),
                    ]
                    &&& if is_file {
                        r.1 == Ok::<bool, String>(false) && *final(self) == (ControlInner {
                            custom_script_path: t,
                            ..*old(self)
                        })
                    } else {
                        r.1 is Err && r.1->Err_0@ == "no such URScript file: "@ + t@ && *final(self)
                            == *old(self)
                    }
                },
                _ => {
                    &&& r.0@.len() == 0
                    &&& r.1 == Ok::<bool, String>(p is CustomInlineScript)
                    &&& *final(self) == *old(self)
                },
            },
    {
        let mut out: Vec<Update<ControlParams>> = Vec::new();
        match p {
            ControlParams::CustomScriptFile => {
                super::push_int(
                    &mut out,
                    ControlParams::CustomScriptError,
                    super::to_flag(!is_file),
                );
                proof {
                    assert(super::views(out@) =~= seq![
                        super::int_update(ControlParams::CustomScriptError, super::flag(!is_file)),
                    ]);
                }
                if is_file {
                    self.custom_script_path = t;
                    (out, Ok(false))
                } else {
                    let mut m = "no such URScript file: ".to_owned();
                    m.append(t.as_str());
                    (out, Err(m))
                }
            },
            ControlParams::CustomInlineScript => (out, Ok(true)),
            _ => (out, Ok(false)),
        }
    }
}

/// What is published, and said, when the file of a script cannot be read.
pub fn file_unreadable(path: &str, why: &str) -> (r: (Vec<Update<ControlParams>>, String))
    ensures
        super::views(r.0@) == seq![super::int_update(ControlParams::CustomScriptError, 1)],
        r.1@ == "could not read the URScript file "@ + path@ + ": "@ + why@,
{
    let mut out: Vec<Update<ControlParams>> = Vec::new();
    super::push_int(&mut out, ControlParams::CustomScriptError, 1);
    proof {
        assert(super::views(out@) =~= seq![
            super::int_update(ControlParams::CustomScriptError, 1),
        ]);
    }
    let mut m = "could not read the URScript file ".to_owned();
    m.append(path);
    m.append(": ");
    m.append(why);
    (out, m)
}

/// What stands before the reason when a script could not be sent.
pub fn script_failure(source: &str) -> (r: String)
    ensures
        r@ == "failed to run the URScript "@ + source@ + ": "@,
{
    let mut m = "failed to run the URScript ".to_owned();
    m.append(source);
    m.append(": ");
    m
}

/// What a look leads to.
#[derive(Debug)]
pub enum PollNext {
    Nothing,
    /// Send this motion and note whether it started.
    Start(RobotCommand),
    /// Read how far the motion is.
    ReadProgress,
    /// Bring the control script again.
    Reupload,
}

/// What a look leads to, with the command as it is sent.
pub enum PollNextView {
    Nothing,
    Start((u8, CommandType, PayloadView)),
    ReadProgress,
    Reupload,
}

impl View for PollNext {
    type V = PollNextView;

    open spec fn view(&self) -> PollNextView {
        match *self {
            PollNext::Nothing => PollNextView::Nothing,
            PollNext::Start(c) => PollNextView::Start(channel::command_view(c)),
            PollNext::ReadProgress => PollNextView::ReadProgress,
            PollNext::Reupload => PollNextView::Reupload,
        }
    }
}

/// What a look leaves, publishes, and leads to.
pub struct Looked {
    pub state: ControlInner,
    pub updates: Seq<UpdateView<ControlParams>>,
    pub next: PollNextView,
}

/// How long a script ran.
pub open spec fn ran(c: CustomScript, now: u64) -> int {
    if now >= c.started {
        now - c.started
    } else {
        0
    }
}

/// A look at a script of the user's: over once its register moved, given up
/// once its time is over.
pub open spec fn script_look(s: ControlInner, count: i32, now: u64) -> Looked {
    match s.custom_script {
        None => Looked { state: s, updates: Seq::empty(), next: PollNextView::Nothing },
        Some(c) => if count != c.start_count {
            Looked {
                state: ControlInner { custom_script: None, ..s },
                updates: seq![super::int_update(ControlParams::CustomScriptRunning, 0)],
                next: PollNextView::Reupload,
            }
        } else if ran(c, now) >= c.timeout {
            Looked {
                state: ControlInner { custom_script: None, ..s },
                updates: seq![
                    super::int_update(ControlParams::CustomScriptRunning, 0),
                    super::int_update(ControlParams::CustomScriptError, 1),
                ],
                next: PollNextView::Nothing,
            }
        } else {
            Looked { state: s, updates: Seq::empty(), next: PollNextView::Nothing }
        },
    }
}

/// The command that starts a motion, or what stands against it.
pub open spec fn start_command(s: ControlInner, motion: MotionType) -> Result<
    (u8, CommandType, PayloadView),
    UrFault,
> {
    match motion {
        MotionType::Joint => channel::checked(
            s.joint_speed,
            channel::ZERO,
            channel::JOINT_VELOCITY_MAX,
            channel::checked(
                s.joint_accel,
                channel::ZERO,
                channel::JOINT_ACCELERATION_MAX,
                Ok(
                    (
                        channel::RECIPE_ASYNC_SETP,
                        CommandType::MoveJ,
                        PayloadView::VectorAsync {
                            val: s.cmd_joints@.push(s.joint_speed).push(s.joint_accel),
                            asynchronous: true,
                        },
                    ),
                ),
            ),
        ),
        MotionType::Cartesian => channel::checked(
            s.linear_speed,
            channel::ZERO,
            channel::TOOL_VELOCITY_MAX,
            channel::checked(
                s.linear_accel,
                channel::ZERO,
                channel::TOOL_ACCELERATION_MAX,
                Ok(
                    (
                        channel::RECIPE_ASYNC_SETP,
                        CommandType::MoveL,
                        PayloadView::VectorAsync {
                            val: s.cmd_pose@.push(s.linear_speed).push(s.linear_accel),
                            asynchronous: true,
                        },
                    ),
                ),
            ),
        ),
    }
}

/// A look at a motion that is pending.
pub open spec fn motion_look(s: ControlInner, task: MotionTask, count: i32, now: u64) -> Looked {
    match s.motion_status {
        MotionStatus::Done => match start_command(s, task.motion) {
            Ok(c) => Looked { state: s, updates: Seq::empty(), next: PollNextView::Start(c) },
            Err(_) => Looked {
                state: over(s),
                updates: over_updates(s),
                next: PollNextView::Nothing,
            },
        },
        MotionStatus::WaitingMotion => Looked {
            state: s,
            updates: Seq::empty(),
            next: PollNextView::ReadProgress,
        },
        MotionStatus::WaitingAction => {
            let l = script_look(s, count, now);
            if l.state.waypoint_action_done {
                Looked {
                    state: over(l.state),
                    updates: l.updates + over_updates(l.state),
                    next: l.next,
                }
            } else {
                l
            }
        },
    }
}

/// A look at the robot.
pub open spec fn look(
    s: ControlInner,
    connected: bool,
    steady: bool,
    receive: ReceiveState,
    now: u64,
) -> Looked {
    if !connected {
        Looked {
            state: s,
            updates: seq![super::int_update(ControlParams::IsConnected, 0)],
            next: PollNextView::Nothing,
        }
    } else {
        let head = seq![
            super::int_update(ControlParams::IsConnected, 1),
            super::int_update(
                ControlParams::IsSteady,
                super::flag(steady && s.custom_script is None),
            ),
        ];
        if receive.safety_status_bits != SAFETY_NORMAL {
            if s.pending_motion is Some {
                Looked {
                    state: over(s),
                    updates: head + over_updates(s),
                    next: PollNextView::Nothing,
                }
            } else {
                Looked { state: s, updates: head, next: PollNextView::Nothing }
            }
        } else {
            let l = match s.pending_motion {
                Some(task) => motion_look(s, task, receive.output_int_register_12, now),
                None => script_look(s, receive.output_int_register_12, now),
            };
            Looked { updates: head + l.updates, ..l }
        }
    }
}

impl ControlInner {
    /// Whether the look asks the robot if it stands still: not while a script
    /// of the user's runs.
    pub fn asks_steady(&self, connected: bool) -> (r: bool)
        ensures
            r == (connected && self.custom_script is None),
    {
        match self.custom_script {
            Some(_) => false,
            None => connected,
        }
    }

    /// A look at a script of the user's.
    pub fn poll_custom_script(&mut self, count: i32, now: u64, out: &mut Vec<Update<ControlParams>>) -> (r:
        PollNext)
        ensures
            ({
                let l = script_look(*old(self), count, now);
                &&& *final(self) == l.state
                &&& super::views(final(out)@) == super::views(old(out)@) + l.updates
                &&& r@ == l.next
            }),
    {
        let ghost before = super::views(out@);
        proof {
            assert(before =~= before + Seq::empty());
        }
        let c = match self.custom_script {
            None => {
                return PollNext::Nothing;
            },
            Some(c) => c,
        };
        if count != c.start_count {
            self.custom_script = None;
            super::push_int(out, ControlParams::CustomScriptRunning, 0);
            proof {
                assert(super::views(out@) =~= before + seq![
                    super::int_update(ControlParams::CustomScriptRunning, 0),
                ]);
            }
            return PollNext::Reupload;
        }
        let elapsed: u64 = if now >= c.started {
            now - c.started
        } else {
            0
        };
        if elapsed >= c.timeout {
            self.custom_script = None;
            super::push_int(out, ControlParams::CustomScriptRunning, 0);
            super::push_int(out, ControlParams::CustomScriptError, 1);
            proof {
                assert(super::views(out@) =~= before + seq![
                    super::int_update(ControlParams::CustomScriptRunning, 0),
                    super::int_update(ControlParams::CustomScriptError, 1),
                ]);
            }
        }
        PollNext::Nothing
    }

    fn start_motion(&self, motion: MotionType) -> (r: UrResult<RobotCommand>)
        ensures
            channel::command_outcome(r) == start_command(*self, motion),
    {
        match motion {
            MotionType::Joint => channel::move_j(
                &self.cmd_joints,
                self.joint_speed,
                self.joint_accel,
                true,
            ),
            MotionType::Cartesian => channel::move_l(
                &self.cmd_pose,
                self.linear_speed,
                self.linear_accel,
                true,
            ),
        }
    }

    /// A look at a motion that is pending: start it, wait for it, or wait for
    /// its action.
    pub fn drive_motion(
        &mut self,
        task: MotionTask,
        count: i32,
        now: u64,
        out: &mut Vec<Update<ControlParams>>,
    ) -> (r: PollNext)
        ensures
            ({
                let l = motion_look(*old(self), task, count, now);
                &&& *final(self) == l.state
                &&& super::views(final(out)@) == super::views(old(out)@) + l.updates
                &&& r@ == l.next
            }),
    {
        let ghost before = super::views(out@);
        proof {
            assert(before =~= before + Seq::empty());
        }
        match self.motion_status {
            MotionStatus::Done => match self.start_motion(task.motion) {
                Ok(c) => PollNext::Start(c),
                Err(_) => {
                    self.motion_task_done(out);
                    PollNext::Nothing
                },
            },
            MotionStatus::WaitingMotion => PollNext::ReadProgress,
            MotionStatus::WaitingAction => {
                let next = self.poll_custom_script(count, now, out);
                let ghost l = script_look(*old(self), count, now);
                if self.waypoint_action_done {
                    self.motion_task_done(out);
                    proof {
                        assert(super::views(out@) =~= before + (l.updates + over_updates(l.state)));
                    }
                }
                next
            },
        }
    }

    /// One look at the robot. `steady` is whether the robot stands still;
    /// `receive` is what the receive port publishes.
    pub fn poll_once(&mut self, connected: bool, steady: bool, receive: &ReceiveState, now: u64) -> (r:
        (Vec<Update<ControlParams>>, PollNext))
        ensures
            ({
                let l = look(*old(self), connected, steady, *receive, now);
                &&& *final(self) == l.state
                &&& super::views(r.0@) == l.updates
                &&& r.1@ == l.next
            }),
            r.1@ matches PollNextView::Start(c) ==> (old(self).pending_motion matches Some(task)
                && match task.motion {
                MotionType::Cartesian => c.1 == CommandType::MoveL && carries(
                    c.2,
                    old(self).cmd_pose@,
                    old(self).linear_speed,
                    old(self).linear_accel,
                ),
                MotionType::Joint => c.1 == CommandType::MoveJ && carries(
                    c.2,
                    old(self).cmd_joints@,
                    old(self).joint_speed,
                    old(self).joint_accel,
                ),
            }),
    {
        proof {
            law_started_motion_is_the_staged_one(*self, connected, steady, *receive, now);
        }
        let mut out: Vec<Update<ControlParams>> = Vec::new();
        if !connected {
            super::push_int(&mut out, ControlParams::IsConnected, 0);
            proof {
                assert(super::views(out@) =~= seq![
                    super::int_update(ControlParams::IsConnected, 0),
                ]);
            }
            return (out, PollNext::Nothing);
        }
        let script_runs = match self.custom_script {
            Some(_) => true,
            None => false,
        };
        super::push_int(&mut out, ControlParams::IsConnected, 1);
        super::push_int(
            &mut out,
            ControlParams::IsSteady,
            super::to_flag(steady && !script_runs),
        );
        let ghost head = seq![
            super::int_update(ControlParams::IsConnected, 1),
            super::int_update(
                ControlParams::IsSteady,
                super::flag(steady && self.custom_script is None),
            ),
        ];
        proof {
            assert(super::views(out@) =~= head);
        }
        if receive.safety_status_bits != SAFETY_NORMAL {
            match self.pending_motion {
                Some(_) => self.motion_task_done(&mut out),
                None => {},
            }
            return (out, PollNext::Nothing);
        }
        let next = match self.pending_motion {
            Some(task) => self.drive_motion(task, receive.output_int_register_12, now, &mut out),
            None => self.poll_custom_script(receive.output_int_register_12, now, &mut out),
        };
        (out, next)
    }

    /// Notes whether a motion started.
    pub fn motion_started(&mut self, ok: bool) -> (r: Vec<Update<ControlParams>>)
        ensures
            if ok {
                *final(self) == (ControlInner {
                    motion_status: MotionStatus::WaitingMotion,
                    ..*old(self)
                }) && r@.len() == 0
            } else {
                *final(self) == over(*old(self)) && super::views(r@) == over_updates(*old(self))
            },
            old(self).pending_motion is Some ==> final(self).wf(),
    {
        let mut r: Vec<Update<ControlParams>> = Vec::new();
        if ok {
            self.motion_status = MotionStatus::WaitingMotion;
        } else {
            self.motion_task_done(&mut r);
            proof {
                assert(super::views(r@) =~= over_updates(*old(self)));
            }
        }
        r
    }

    /// Takes how far the motion is; `None` where it could not be read. A motion
    /// that is over is followed by its action, or done.
    pub fn progress_read(&mut self, progress: Option<AsyncOperationStatus>) -> (r: Vec<
        Update<ControlParams>,
    >)
        ensures
            match (progress, old(self).pending_motion) {
                (Some(s), Some(task)) => if s.runs() {
                    *final(self) == *old(self) && r@.len() == 0
                } else if task.action {
                    &&& *final(self) == (ControlInner {
                        run_action: !old(self).run_action,
                        waypoint_action_done: false,
                        motion_status: MotionStatus::WaitingAction,
                        ..*old(self)
                    })
                    &&& super::views(r@) == seq![
                        super::int_update(ControlParams::WaypointActionDone, 0),
                        super::int_update(
                            ControlParams::RunWaypointAction,
                            super::flag(!old(self).run_action),
                        ),
                    ]
                } else {
                    *final(self) == over(*old(self)) && super::views(r@) == over_updates(*old(self))
                },
                _ => *final(self) == *old(self) && r@.len() == 0,
            },
            old(self).wf() ==> final(self).wf(),
    {
        let mut r: Vec<Update<ControlParams>> = Vec::new();
        let status = match progress {
            Some(s) => s,
            None => {
                return r;
            },
        };
        let task = match self.pending_motion {
            Some(t) => t,
            None => {
                return r;
            },
        };
        if status.is_running() {
            return r;
        }
        if task.action {
            self.run_action = !self.run_action;
            self.waypoint_action_done = false;
            super::push_int(&mut r, ControlParams::WaypointActionDone, 0);
            super::push_int(
                &mut r,
                ControlParams::RunWaypointAction,
                super::to_flag(self.run_action),
            );
            self.motion_status = MotionStatus::WaitingAction;
            proof {
                assert(super::views(r@) =~= seq![
                    super::int_update(ControlParams::WaypointActionDone, 0),
                    super::int_update(
                        ControlParams::RunWaypointAction,
                        super::flag(!old(self).run_action),
                    ),
                ]);
            }
        } else {
            self.motion_task_done(&mut r);
            proof {
                assert(super::views(r@) =~= over_updates(*old(self)));
            }
        }
        r
    }
}

/// Whether the wait for the control script to run again is over: `Some` with
/// its outcome, or `None` while it goes on.
pub fn program_restarted(running: bool, expired: bool) -> (r: Option<UrResult<()>>)
    ensures
        if running {
            r == Some(Ok::<(), UrError>(()))
        } else if expired {
            r matches Some(Err(e)) && e@ == UrFault::Timeout(
                REUPLOAD_TIMEOUT_MS,
                "the control script did not restart"@,
            )
        } else {
            r is None
        },
{
    if running {
        Some(Ok(()))
    } else if expired {
        Some(
            Err(
                UrError::Timeout(
                    REUPLOAD_TIMEOUT_MS,
                    "the control script did not restart".to_owned(),
                ),
            ),
        )
    } else {
        None
    }
}

/// Law: a look keeps the state sound: a motion is under way only while one is
/// pending. So does a write.
pub proof fn law_motion_state_stays_sound(
    s: ControlInner,
    connected: bool,
    steady: bool,
    receive: ReceiveState,
    now: u64,
    p: ControlParams,
    value: i32,
)
    requires
        s.wf(),
    ensures
        look(s, connected, steady, receive, now).state.wf(),
        after_write(s, p, value, connected).wf(),
{
}

/// Law: a motion under way is aborted by the first look that finds the safety
/// word other than normal, and its end is published.
pub proof fn law_safety_event_aborts_the_motion(
    s: ControlInner,
    steady: bool,
    receive: ReceiveState,
    now: u64,
)
    requires
        s.pending_motion is Some,
        receive.safety_status_bits != SAFETY_NORMAL,
    ensures
        look(s, true, steady, receive, now).state == over(s),
        look(s, true, steady, receive, now).updates.contains(
            super::int_update(ControlParams::AsyncMoveDone, 1),
        ),
{
    let u = look(s, true, steady, receive, now).updates;
    assert(u[2] == super::int_update(ControlParams::AsyncMoveDone, 1));
}

/// Law: no look starts a motion, or waits on one, while the safety word is not
/// normal or there is no link.
pub proof fn law_no_motion_out_of_normal(
    s: ControlInner,
    connected: bool,
    steady: bool,
    receive: ReceiveState,
    now: u64,
)
    requires
        !connected || receive.safety_status_bits != SAFETY_NORMAL,
    ensures
        look(s, connected, steady, receive, now).next is Nothing,
{
}

/// Law: every motion that ends is counted once: a look leaves the count alone,
/// or adds one and leaves no motion pending.
pub proof fn law_ends_are_counted_once(
    s: ControlInner,
    connected: bool,
    steady: bool,
    receive: ReceiveState,
    now: u64,
)
    ensures
        ({
            let t = look(s, connected, steady, receive, now).state;
            ||| t.motion_done_count == s.motion_done_count && t.pending_motion == s.pending_motion
            ||| t.motion_done_count == counted(s.motion_done_count) && t.pending_motion is None
        }),
{
}

/// What a command for a staged motion holds: the six numbers of the target,
/// then the speed and the acceleration, to be run while the controller goes on.
pub open spec fn carries(payload: PayloadView, target: Seq<u64>, speed: u64, accel: u64) -> bool {
    payload matches PayloadView::VectorAsync { val, asynchronous } && {
        &&& asynchronous
        &&& val.len() == 8
        &&& forall|i: int| 0 <= i < 6 ==> #[trigger] val[i] == target[i]
        &&& val[6] == speed
        &&& val[7] == accel
    }
}

/// A motion that a look starts is the one that is pending: a Cartesian one with
/// the staged pose and the linear speed and acceleration, a joint one with the
/// staged joints and the joint speed and acceleration.
pub proof fn law_started_motion_is_the_staged_one(
    s: ControlInner,
    connected: bool,
    steady: bool,
    receive: ReceiveState,
    now: u64,
)
    ensures
        look(s, connected, steady, receive, now).next matches PollNextView::Start(c) ==> {
            &&& connected && receive.safety_status_bits == 1
            &&& s.motion_status is Done
            &&& s.pending_motion matches Some(task) && match task.motion {
                MotionType::Cartesian => c.1 == CommandType::MoveL && carries(
                    c.2,
                    s.cmd_pose@,
                    s.linear_speed,
                    s.linear_accel,
                ),
                MotionType::Joint => c.1 == CommandType::MoveJ && carries(
                    c.2,
                    s.cmd_joints@,
                    s.joint_speed,
                    s.joint_accel,
                ),
            }
        },
{
}

/// What a Cartesian motion starts with does not depend on the joint settings,
/// nor a joint motion on the linear ones.
pub proof fn law_motions_ignore_the_other_settings(
    s: ControlInner,
    t: ControlInner,
    connected: bool,
    steady: bool,
    receive: ReceiveState,
    now: u64,
)
    requires
        s.pending_motion matches Some(task) && match task.motion {
            MotionType::Cartesian => t == (ControlInner {
                joint_speed: t.joint_speed,
                joint_accel: t.joint_accel,
                joint_blend: t.joint_blend,
                cmd_joints: t.cmd_joints,
                ..s
            }),
            MotionType::Joint => t == (ControlInner {
                linear_speed: t.linear_speed,
                linear_accel: t.linear_accel,
                linear_blend: t.linear_blend,
                cmd_pose: t.cmd_pose,
                ..s
            }),
        },
    ensures
        look(s, connected, steady, receive, now).next == look(t, connected, steady, receive, now).next,
        look(s, connected, steady, receive, now).updates == look(
            t,
            connected,
            steady,
            receive,
            now,
        ).updates,
{
}

/// What was written last to a setting is what the next motion carries, at the
/// place of that setting; the rest of the motion is as it was staged before.
pub proof fn law_settings_reach_the_motion(
    s: ControlInner,
    t: ControlInner,
    p: ControlParams,
    i: int,
    value: u64,
    scaled: u64,
    steady: bool,
    receive: ReceiveState,
    now: u64,
)
    requires
        after_float(s, t, p, i, value, scaled, true),
        0 <= i < 6,
    ensures
        look(t, true, steady, receive, now).next matches PollNextView::Start(c) ==> (
        s.pending_motion matches Some(task) ==> ({
            let linear = task.motion is Cartesian;
            let target = if linear {
                s.cmd_pose@
            } else {
                s.cmd_joints@
            };
            carries(
                c.2,
                if (linear && p is PoseCmd) || (!linear && p is JointCmd) {
                    target.update(i, scaled)
                } else {
                    target
                },
                if (linear && p is LinearSpeed) || (!linear && p is JointSpeed) {
                    scaled
                } else if linear {
                    s.linear_speed
                } else {
                    s.joint_speed
                },
                if (linear && p is LinearAcceleration) || (!linear && p is JointAcceleration) {
                    scaled
                } else if linear {
                    s.linear_accel
                } else {
                    s.joint_accel
                },
            )
        })),
{
}

/// A pending motion is started at the first look in normal safety, provided
/// that its speed and acceleration are in range; otherwise it is over, and
/// nothing is sent.
pub proof fn law_pending_motion_starts_in_range(
    s: ControlInner,
    task: MotionTask,
    steady: bool,
    receive: ReceiveState,
    now: u64,
)
    requires
        s.pending_motion == Some(task),
        s.motion_status is Done,
        receive.safety_status_bits == 1,
    ensures
        ({
            let l = look(s, true, steady, receive, now);
            let in_range = match task.motion {
                MotionType::Cartesian => super::super::error::within(
                    s.linear_speed,
                    0,
                    0x4008_0000_0000_0000,
                ) && super::super::error::within(s.linear_accel, 0, 0x4062_c000_0000_0000),
                MotionType::Joint => super::super::error::within(
                    s.joint_speed,
                    0,
                    0x4009_1eb8_51eb_851f,
                ) && super::super::error::within(s.joint_accel, 0, 0x4044_0000_0000_0000),
            };
            if in_range {
                l.next is Start && l.state == s
            } else {
                l.next is Nothing && l.state.pending_motion is None && l.state.motion_done_count
                    == counted(s.motion_done_count)
            }
        }),
{
}

/// A request to move asks about exactly the target that the motion then goes
/// to, with the question for its kind.
pub proof fn law_checked_target_is_moved_to(
    s: ControlInner,
    p: ControlParams,
    value: i32,
    initialised: bool,
    steady: bool,
    receive: ReceiveState,
    now: u64,
)
    requires
        p is MoveJ || p is MoveL,
        value != 0,
        s.pending_motion is None,
    ensures
        requested(s, p, value, initialised, true) matches Ok(a) && a
            matches ControlActionView::CheckTarget(motion, q) && ({
            let t = ControlInner {
                pending_motion: Some(MotionTask { motion, action: s.waypoint_move }),
                waypoint_move: false,
                ..s
            };
            &&& motion == if p is MoveJ {
                MotionType::Joint
            } else {
                MotionType::Cartesian
            }
            &&& q.1 == if p is MoveJ {
                CommandType::IsJointsWithinSafetyLimits
            } else {
                CommandType::IsPoseWithinSafetyLimits
            }
            &&& q.2 matches PayloadView::Vector(target) && target.len() == 6 && (look(
                t,
                true,
                steady,
                receive,
                now,
            ).next matches PollNextView::Start(c) ==> c.2 matches PayloadView::VectorAsync {
                val,
                ..
            } && val.take(6) == target)
        }),
{
    assert(s.cmd_joints@.push(s.joint_speed).push(s.joint_accel).take(6) =~= s.cmd_joints@);
    assert(s.cmd_pose@.push(s.linear_speed).push(s.linear_accel).take(6) =~= s.cmd_pose@);
}

/// A stop is sent with its own command and deceleration, and ends the motion
/// and its count at once.
pub proof fn law_stop_ends_the_motion(s: ControlInner, p: ControlParams, value: i32, initialised: bool)
    requires
        p is StopJ || p is StopL,
        value != 0,
    ensures
        requested(s, p, value, initialised, true) matches Ok(a) && a
            matches ControlActionView::Send(c) && c.1 == if p is StopJ {
            CommandType::StopJ
        } else {
            CommandType::StopL
        } && c.2 == (PayloadView::VectorAsync {
            val: seq![
                if p is StopJ {
                    0x4000_0000_0000_0000u64
                } else {
                    0x4024_0000_0000_0000u64
                },
            ],
            asynchronous: false,
        }),
        after_write(s, p, value, true).pending_motion is None,
        after_write(s, p, value, true).motion_status is Done,
        after_write(s, p, value, true).motion_done_count == counted(s.motion_done_count),
        write_updates(s, p, value, true).contains(super::int_update(ControlParams::AsyncMoveDone, 1)),
{
    assert(write_updates(s, p, value, true)[0] == super::int_update(
        ControlParams::AsyncMoveDone,
        1,
    ));
}

/// A jog is sent with the six staged speeds, the staged acceleration and a time
/// of a hundredth of a second, and only where a speed is new.
pub proof fn law_jog_carries_its_speeds(s: ControlInner, value: i32, initialised: bool)
    requires
        value != 0,
    ensures
        requested(s, ControlParams::JogStart, value, initialised, true) matches Ok(a) ==> match a {
            ControlActionView::StartJog(c) => s.new_jog && c.1 == CommandType::SpeedL && (c.2
                matches PayloadView::Vector(val) && val.len() == 8 && (forall|i: int|
                0 <= i < 6 ==> #[trigger] val[i] == s.jog_speeds@[i]) && val[6]
                == s.jog_acceleration && val[7] == 0x3f84_7ae1_47ae_147b),
            _ => !s.new_jog && a is Nothing,
        },
        requested(s, ControlParams::JogStart, value, initialised, true) is Err <==> s.new_jog
            && !super::super::error::within(s.jog_acceleration, 0, 0x4062_c000_0000_0000),
        requested(s, ControlParams::JogStop, value, initialised, true) matches Ok(a) && a
            matches ControlActionView::StopJog(c) && c.1 == CommandType::SpeedStop && c.2
            == PayloadView::Vector(seq![0x4024_0000_0000_0000u64]),
{
}

/// Teaching is switched on by a number and off by zero; the other plain
/// commands are sent as they are named.
pub proof fn law_plain_commands_are_sent(s: ControlInner, value: i32, initialised: bool)
    ensures
        requested(s, ControlParams::TeachMode, value, initialised, true) == Ok::<
            ControlActionView,
            WriteFault,
        >(
            ControlActionView::Send(
                channel::bare(
                    if value == 0 {
                        CommandType::EndTeachMode
                    } else {
                        CommandType::TeachMode
                    },
                ),
            ),
        ),
        value != 0 ==> requested(s, ControlParams::StopControlScript, value, initialised, true)
            == Ok::<ControlActionView, WriteFault>(
            ControlActionView::Send(channel::bare(CommandType::StopScript)),
        ),
        value != 0 ==> requested(s, ControlParams::TriggerProtStop, value, initialised, true)
            == Ok::<ControlActionView, WriteFault>(
            ControlActionView::Send(channel::bare(CommandType::ProtectiveStop)),
        ),
        value != 0 ==> requested(s, ControlParams::ReuploadControlScript, value, initialised, true)
            == Ok::<ControlActionView, WriteFault>(ControlActionView::Reupload),
        value != 0 ==> requested(s, ControlParams::Reconnect, value, initialised, false) == Ok::<
            ControlActionView,
            WriteFault,
        >(ControlActionView::Connect),
        value != 0 ==> requested(s, ControlParams::RunCustomScriptFile, value, initialised, false)
            == Ok::<ControlActionView, WriteFault>(ControlActionView::RunFile),
        value != 0 ==> (requested(s, ControlParams::Disconnect, value, initialised, false)
            is Ok <==> initialised),
{
}

/// Without a connection nothing that goes to the robot is asked for.
pub proof fn law_nothing_is_sent_without_a_connection(
    s: ControlInner,
    p: ControlParams,
    value: i32,
    initialised: bool,
)
    ensures
        requested(s, p, value, initialised, false) matches Ok(a) ==> !(a is Send) && !(
        a is CheckTarget) && !(a is StartJog) && !(a is StopJog) && !(a is Reupload),
        value != 0 && (p is MoveJ || p is MoveL || p is StopJ || p is StopL || p is JogStart
            || p is JogStop || p is TeachMode || p is TriggerProtStop) ==> requested(
            s,
            p,
            value,
            initialised,
            false,
        ) is Err,
        !(p is WaypointMove) && !(p is WaypointActionDone) ==> after_write(s, p, value, false) == s,
{
}

/// The units in which settings are taken: angles in degrees, lengths in
/// millimetres, everything else as it is.
pub proof fn law_settings_are_scaled_by_their_unit(p: ControlParams, i: int)
    ensures
        scale_of(p, i) is DegreesToRadians <==> p is JointCmd || p is JointSpeed
            || p is JointAcceleration || ((p is PoseCmd || p is JogSpeed) && i >= 3),
        scale_of(p, i) is MmToMetres <==> p is JointBlend || p is LinearSpeed
            || p is LinearAcceleration || p is LinearBlend || ((p is PoseCmd || p is JogSpeed
            || p is TcpOffset) && i < 3),
        scale_of(p, i) is DegreesToRadians || scale_of(p, i) is MmToMetres || scale_of(
            p,
            i,
        ) is Raw,
{
}

/// A write to a setting leaves every other setting as it was, and what is
/// pending too.
pub proof fn law_setting_leaves_the_rest(
    s: ControlInner,
    t: ControlInner,
    p: ControlParams,
    i: int,
    value: u64,
    scaled: u64,
    connected: bool,
)
    requires
        after_float(s, t, p, i, value, scaled, connected),
        0 <= i < 6,
    ensures
        t.pending_motion == s.pending_motion,
        t.motion_status == s.motion_status,
        t.motion_done_count == s.motion_done_count,
        t.custom_script == s.custom_script,
        t.joint_speed == if p is JointSpeed && connected {
            scaled
        } else {
            s.joint_speed
        },
        t.joint_accel == if p is JointAcceleration && connected {
            scaled
        } else {
            s.joint_accel
        },
        t.linear_speed == if p is LinearSpeed && connected {
            scaled
        } else {
            s.linear_speed
        },
        t.linear_accel == if p is LinearAcceleration && connected {
            scaled
        } else {
            s.linear_accel
        },
        t.jog_acceleration == if p is JogAcceleration {
            value
        } else {
            s.jog_acceleration
        },
        t.custom_script_timeout == if p is CustomScriptTimeout {
            scaled
        } else {
            s.custom_script_timeout
        },
        t.cmd_joints@ == if p is JointCmd && connected {
            s.cmd_joints@.update(i, scaled)
        } else {
            s.cmd_joints@
        },
        t.cmd_pose@ == if p is PoseCmd && connected {
            s.cmd_pose@.update(i, scaled)
        } else {
            s.cmd_pose@
        },
        t.tcp_offset@ == if p is TcpOffset && connected {
            s.tcp_offset@.update(i, scaled)
        } else {
            s.tcp_offset@
        },
        t.jog_speeds@ == if p is JogSpeed && connected {
            s.jog_speeds@.update(i, scaled)
        } else {
            s.jog_speeds@
        },
        t.new_jog == (s.new_jog || p is JogAcceleration || (p is JogSpeed && connected)),
{
}

/// A custom script is over when its register has moved, and the control script
/// is then brought again; failed when it has not within the time allowed; and
/// left alone otherwise.
pub proof fn law_custom_script_ends_by_register_or_time(
    s: ControlInner,
    c: CustomScript,
    steady: bool,
    receive: ReceiveState,
    now: u64,
)
    requires
        s.custom_script == Some(c),
        s.pending_motion is None,
        receive.safety_status_bits == 1,
    ensures
        ({
            let l = look(s, true, steady, receive, now);
            let moved = receive.output_int_register_12 != c.start_count;
            let late = now >= c.started + c.timeout || c.timeout == 0;
            &&& l.state.custom_script is None <==> moved || late
            &&& l.next is Reupload <==> moved
            &&& l.next is Reupload || l.next is Nothing
            &&& l.updates.contains(super::int_update(ControlParams::CustomScriptError, 1)) <==> late
                && !moved
            &&& l.updates.contains(super::int_update(ControlParams::CustomScriptRunning, 0)) <==> late
                || moved
            &&& l.state == (ControlInner { custom_script: l.state.custom_script, ..s })
        }),
{
    let l = look(s, true, steady, receive, now);
    let moved = receive.output_int_register_12 != c.start_count;
    let late = now >= c.started + c.timeout || c.timeout == 0;
    if moved || late {
        assert(l.updates[2] == super::int_update(ControlParams::CustomScriptRunning, 0));
    }
    if late && !moved {
        assert(l.updates[3] == super::int_update(ControlParams::CustomScriptError, 1));
    }
}

/// Every look says whether there is a connection, and, over one, whether the
/// robot is steady.
pub proof fn law_look_reports_the_link(
    s: ControlInner,
    connected: bool,
    steady: bool,
    receive: ReceiveState,
    now: u64,
)
    ensures
        ({
            let u = look(s, connected, steady, receive, now).updates;
            &&& u.len() > 0
            &&& u[0] == super::int_update(
                ControlParams::IsConnected,
                if connected {
                    1i32
                } else {
                    0i32
                },
            )
            &&& connected ==> u.len() > 1 && u[1] == super::int_update(
                ControlParams::IsSteady,
                if steady && s.custom_script is None {
                    1i32
                } else {
                    0i32
                },
            )
        }),
{
}

/// The count of ended motions goes up by one with each, around the end of its
/// range.
pub proof fn law_ended_motions_are_counted_up(s: ControlInner)
    ensures
        over(s).motion_done_count == s.motion_done_count + 1 || (s.motion_done_count == i32::MAX
            && over(s).motion_done_count == i32::MIN),
        over(s).pending_motion is None,
        over(s).motion_status is Done,
        over(s).cmd_joints == s.cmd_joints && over(s).cmd_pose == s.cmd_pose,
        over_updates(s).len() == 2,
        over_updates(s)[0] == super::int_update(ControlParams::AsyncMoveDone, 1),
        over_updates(s)[1] == super::int_update(
            ControlParams::MotionDoneCount,
            over(s).motion_done_count,
        ),
{
}

/// The names under which records find the parameters.
pub proof fn law_parameters_have_their_names()
    ensures
        ControlParams::Disconnect.text() == "DISCONNECT"@,
        ControlParams::Reconnect.text() == "RECONNECT"@,
        ControlParams::IsConnected.text() == "IS_CONNECTED"@,
        ControlParams::IsSteady.text() == "IS_STEADY"@,
        ControlParams::MoveJ.text() == "MOVEJ"@,
        ControlParams::StopJ.text() == "STOPJ"@,
        ControlParams::ActualQ.text() == "ACTUAL_Q"@,
        ControlParams::JointCmd.text() == "JOINT_CMD"@,
        ControlParams::MoveL.text() == "MOVEL"@,
        ControlParams::StopL.text() == "STOPL"@,
        ControlParams::ActualTcpPose.text() == "ACTUAL_TCP_POSE"@,
        ControlParams::PoseCmd.text() == "POSE_CMD"@,
        ControlParams::TcpOffset.text() == "TCP_OFFSET"@,
        ControlParams::ReuploadControlScript.text() == "REUPLOAD_CONTROL_SCRIPT"@,
        ControlParams::StopControlScript.text() == "STOP_CONTROL_SCRIPT"@,
        ControlParams::JointSpeed.text() == "JOINT_SPEED"@,
        ControlParams::JointAcceleration.text() == "JOINT_ACCELERATION"@,
        ControlParams::JointBlend.text() == "JOINT_BLEND"@,
        ControlParams::LinearSpeed.text() == "LINEAR_SPEED"@,
        ControlParams::LinearAcceleration.text() == "LINEAR_ACCELERATION"@,
        ControlParams::LinearBlend.text() == "LINEAR_BLEND"@,
        ControlParams::AsyncMoveDone.text() == "ASYNC_MOVE_DONE"@,
        ControlParams::WaypointMove.text() == "WAYPOINT_MOVE"@,
        ControlParams::RunWaypointAction.text() == "RUN_WAYPOINT_ACTION"@,
        ControlParams::WaypointActionDone.text() == "WAYPOINT_ACTION_DONE"@,
        ControlParams::TeachMode.text() == "TEACH_MODE"@,
        ControlParams::TriggerProtStop.text() == "TRIGGER_PROT_STOP"@,
        ControlParams::MotionDoneCount.text() == "MOTION_DONE_COUNT"@,
        ControlParams::CustomScriptFile.text() == "CUSTOM_SCRIPT_FILE"@,
        ControlParams::CustomInlineScript.text() == "CUSTOM_INLINE_SCRIPT"@,
        ControlParams::RunCustomScriptFile.text() == "RUN_CUSTOM_SCRIPT_FILE"@,
        ControlParams::CustomScriptRunning.text() == "CUSTOM_SCRIPT_RUNNING"@,
        ControlParams::CustomScriptError.text() == "CUSTOM_SCRIPT_ERROR"@,
        ControlParams::CustomScriptTimeout.text() == "CUSTOM_SCRIPT_TIMEOUT"@,
        ControlParams::JogStart.text() == "JOG_START"@,
        ControlParams::JogStop.text() == "JOG_STOP"@,
        ControlParams::JogSpeed.text() == "JOG_SPEED"@,
        ControlParams::JogAcceleration.text() == "JOG_ACCELERATION"@,
        ControlParams::Jogging.text() == "JOGGING"@,
{
}

/// The kinds of value that the parameters hold.
pub proof fn law_parameters_have_their_kinds()
    ensures
        ControlParams::Disconnect.kind() == ParamType::Int32,
        ControlParams::Reconnect.kind() == ParamType::Int32,
        ControlParams::IsConnected.kind() == ParamType::Int32,
        ControlParams::IsSteady.kind() == ParamType::Int32,
        ControlParams::MoveJ.kind() == ParamType::Int32,
        ControlParams::StopJ.kind() == ParamType::Int32,
        ControlParams::ActualQ.kind() == ParamType::Float64Array,
        ControlParams::JointCmd.kind() == ParamType::Float64,
        ControlParams::MoveL.kind() == ParamType::Int32,
        ControlParams::StopL.kind() == ParamType::Int32,
        ControlParams::ActualTcpPose.kind() == ParamType::Float64Array,
        ControlParams::PoseCmd.kind() == ParamType::Float64,
        ControlParams::TcpOffset.kind() == ParamType::Float64,
        ControlParams::ReuploadControlScript.kind() == ParamType::Int32,
        ControlParams::StopControlScript.kind() == ParamType::Int32,
        ControlParams::JointSpeed.kind() == ParamType::Float64,
        ControlParams::JointAcceleration.kind() == ParamType::Float64,
        ControlParams::JointBlend.kind() == ParamType::Float64,
        ControlParams::LinearSpeed.kind() == ParamType::Float64,
        ControlParams::LinearAcceleration.kind() == ParamType::Float64,
        ControlParams::LinearBlend.kind() == ParamType::Float64,
        ControlParams::AsyncMoveDone.kind() == ParamType::Int32,
        ControlParams::WaypointMove.kind() == ParamType::Int32,
        ControlParams::RunWaypointAction.kind() == ParamType::Int32,
        ControlParams::WaypointActionDone.kind() == ParamType::Int32,
        ControlParams::TeachMode.kind() == ParamType::Int32,
        ControlParams::TriggerProtStop.kind() == ParamType::Int32,
        ControlParams::MotionDoneCount.kind() == ParamType::Int32,
        ControlParams::CustomScriptFile.kind() == ParamType::Octet,
        ControlParams::CustomInlineScript.kind() == ParamType::Octet,
        ControlParams::RunCustomScriptFile.kind() == ParamType::Int32,
        ControlParams::CustomScriptRunning.kind() == ParamType::Int32,
        ControlParams::CustomScriptError.kind() == ParamType::Int32,
        ControlParams::CustomScriptTimeout.kind() == ParamType::Float64,
        ControlParams::JogStart.kind() == ParamType::Int32,
        ControlParams::JogStop.kind() == ParamType::Int32,
        ControlParams::JogSpeed.kind() == ParamType::Float64,
        ControlParams::JogAcceleration.kind() == ParamType::Float64,
        ControlParams::Jogging.kind() == ParamType::Int32,
{
}

/// The parameters that are commands: a number other than zero acts, zero does
/// nothing.
pub proof fn law_these_parameters_are_commands(p: ControlParams)
    ensures
        p.commands() <==> p is Disconnect || p is Reconnect || p is MoveJ || p is StopJ || p is MoveL || p is StopL || p is ReuploadControlScript || p is StopControlScript || p is TriggerProtStop || p is RunCustomScriptFile || p is JogStart || p is JogStop,
{
}

/// What a refused write says.
pub proof fn law_refusals_say_what_is_missing(
    s: ControlInner,
    p: ControlParams,
    value: i32,
    initialised: bool,
)
    ensures
        value != 0 ==> requested(s, ControlParams::Disconnect, value, false, false) == Err::<
            ControlActionView,
            WriteFault,
        >(WriteFault::Refused("the RTDE control interface is not initialised"@)),
        requested(s, p, value, true, false) matches Err(e) ==> e == WriteFault::Refused(
            "the RTDE control interface is not connected"@,
        ),
        link_fault(false, initialised) == Some(
            UrFault::NotConnected("RTDE control (not initialised)"@),
        ),
        link_fault(true, false) == Some(UrFault::NotConnected("RTDE control"@)),
        link_fault(true, true) is None,
{
}

/// What a waypoint asks for is noted without a connection, and read back as it
/// was written; nothing is sent or published for it.
pub proof fn law_waypoints_are_only_noted(
    s: ControlInner,
    value: i32,
    initialised: bool,
    connected: bool,
)
    ensures
        requested(s, ControlParams::WaypointMove, value, initialised, connected) == Ok::<
            ControlActionView,
            WriteFault,
        >(ControlActionView::Nothing),
        requested(s, ControlParams::WaypointActionDone, value, initialised, connected) == Ok::<
            ControlActionView,
            WriteFault,
        >(ControlActionView::Nothing),
        ({
            let t = after_write(s, ControlParams::WaypointMove, value, connected);
            t.waypoint_move <==> value != 0
        }),
        ({
            let t = after_write(s, ControlParams::WaypointMove, value, connected);
            t == ControlInner { waypoint_move: t.waypoint_move, ..s }
        }),
        ({
            let t = after_write(s, ControlParams::WaypointActionDone, value, connected);
            t.waypoint_action_done <==> value != 0
        }),
        ({
            let t = after_write(s, ControlParams::WaypointActionDone, value, connected);
            t == ControlInner { waypoint_action_done: t.waypoint_action_done, ..s }
        }),
        write_updates(s, ControlParams::WaypointMove, value, connected).len() == 0,
        write_updates(s, ControlParams::WaypointActionDone, value, connected).len() == 0,
{
}

} // verus!
