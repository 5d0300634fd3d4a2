//! The dashboard port: the commands of the dashboard server as parameters, and
//! what the server answers about the robot.

use super::super::dashboard::{DashboardClient, PolyScopeVersion, ReplyRule, Request};
use super::super::error::UrResult;
use super::super::registry::{DashboardState, DashboardStateView};
use super::{Published, PublishedView, Update, UpdateView};
use crate::param::ParamType;
use crate::text;
use vstd::prelude::*;
use vstd::string::*;

verus! {

/// The parameters of the dashboard port.
#[derive(Debug, Clone, Copy, PartialEq, Eq, Structural)]
pub enum DashboardParams {
    IsConnected,
    LoadUrp,
    Play,
    Stop,
    Pause,
    Connect,
    Disconnect,
    Shutdown,
    IsRunning,
    ClosePopup,
    Popup,
    CloseSafetyPopup,
    PowerOn,
    PowerOff,
    BrakeRelease,
    UnlockProtectiveStop,
    RestartSafety,
    PolyscopeVersion,
    SerialNumber,
    RobotMode,
    ProgramState,
    RobotModel,
    LoadedProgram,
    SafetyStatus,
    IsProgramSaved,
    IsInRemoteControl,
}

impl DashboardParams {
    /// The name under which a record finds the parameter.
    pub open spec fn text(self) -> Seq<char> {
        match self {
            DashboardParams::IsConnected => "IS_CONNECTED"@,
            DashboardParams::LoadUrp => "LOAD_URP"@,
            DashboardParams::Play => "PLAY"@,
            DashboardParams::Stop => "STOP"@,
            DashboardParams::Pause => "PAUSE"@,
            DashboardParams::Connect => "CONNECT"@,
            DashboardParams::Disconnect => "DISCONNECT"@,
            DashboardParams::Shutdown => "SHUTDOWN"@,
            DashboardParams::IsRunning => "IS_RUNNING"@,
            DashboardParams::ClosePopup => "CLOSE_POPUP"@,
            DashboardParams::Popup => "POPUP"@,
            DashboardParams::CloseSafetyPopup => "CLOSE_SAFETY_POPUP"@,
            DashboardParams::PowerOn => "POWER_ON"@,
            DashboardParams::PowerOff => "POWER_OFF"@,
            DashboardParams::BrakeRelease => "BRAKE_RELEASE"@,
            DashboardParams::UnlockProtectiveStop => "UNLOCK_PROTECTIVE_STOP"@,
            DashboardParams::RestartSafety => "RESTART_SAFETY"@,
            DashboardParams::PolyscopeVersion => "POLYSCOPE_VERSION"@,
            DashboardParams::SerialNumber => "SERIAL_NUMBER"@,
            DashboardParams::RobotMode => "ROBOT_MODE"@,
            DashboardParams::ProgramState => "PROGRAM_STATE"@,
            DashboardParams::RobotModel => "ROBOT_MODEL"@,
            DashboardParams::LoadedProgram => "LOADED_PROGRAM"@,
            DashboardParams::SafetyStatus => "SAFETY_STATUS"@,
            DashboardParams::IsProgramSaved => "IS_PROGRAM_SAVED"@,
            DashboardParams::IsInRemoteControl => "IS_IN_REMOTE_CONTROL"@,
        }
    }

    /// The name under which a record finds the parameter.
    pub fn name(self) -> (r: &'static str)
        ensures
            r@ == self.text(),
    {
        match self {
            DashboardParams::IsConnected => "IS_CONNECTED",
            DashboardParams::LoadUrp => "LOAD_URP",
            DashboardParams::Play => "PLAY",
            DashboardParams::Stop => "STOP",
            DashboardParams::Pause => "PAUSE",
            DashboardParams::Connect => "CONNECT",
            DashboardParams::Disconnect => "DISCONNECT",
            DashboardParams::Shutdown => "SHUTDOWN",
            DashboardParams::IsRunning => "IS_RUNNING",
            DashboardParams::ClosePopup => "CLOSE_POPUP",
            DashboardParams::Popup => "POPUP",
            DashboardParams::CloseSafetyPopup => "CLOSE_SAFETY_POPUP",
            DashboardParams::PowerOn => "POWER_ON",
            DashboardParams::PowerOff => "POWER_OFF",
            DashboardParams::BrakeRelease => "BRAKE_RELEASE",
            DashboardParams::UnlockProtectiveStop => "UNLOCK_PROTECTIVE_STOP",
            DashboardParams::RestartSafety => "RESTART_SAFETY",
            DashboardParams::PolyscopeVersion => "POLYSCOPE_VERSION",
            DashboardParams::SerialNumber => "SERIAL_NUMBER",
            DashboardParams::RobotMode => "ROBOT_MODE",
            DashboardParams::ProgramState => "PROGRAM_STATE",
            DashboardParams::RobotModel => "ROBOT_MODEL",
            DashboardParams::LoadedProgram => "LOADED_PROGRAM",
            DashboardParams::SafetyStatus => "SAFETY_STATUS",
            DashboardParams::IsProgramSaved => "IS_PROGRAM_SAVED",
            DashboardParams::IsInRemoteControl => "IS_IN_REMOTE_CONTROL",
        }
    }

    /// The type of the parameter.
    pub open spec fn kind(self) -> ParamType {
        match self {
            DashboardParams::LoadUrp => ParamType::Octet,
            DashboardParams::Popup => ParamType::Octet,
            DashboardParams::PolyscopeVersion => ParamType::Octet,
            DashboardParams::SerialNumber => ParamType::Octet,
            DashboardParams::RobotMode => ParamType::Octet,
            DashboardParams::ProgramState => ParamType::Octet,
            DashboardParams::RobotModel => ParamType::Octet,
            DashboardParams::LoadedProgram => ParamType::Octet,
            DashboardParams::SafetyStatus => ParamType::Octet,
            _ => ParamType::Int32,
        }
    }

    /// The type of the parameter.
    pub fn param_type(self) -> (r: ParamType)
        ensures
            r == self.kind(),
    {
        match self {
            DashboardParams::LoadUrp => ParamType::Octet,
            DashboardParams::Popup => ParamType::Octet,
            DashboardParams::PolyscopeVersion => ParamType::Octet,
            DashboardParams::SerialNumber => ParamType::Octet,
            DashboardParams::RobotMode => ParamType::Octet,
            DashboardParams::ProgramState => ParamType::Octet,
            DashboardParams::RobotModel => ParamType::Octet,
            DashboardParams::LoadedProgram => ParamType::Octet,
            DashboardParams::SafetyStatus => ParamType::Octet,
            _ => ParamType::Int32,
        }
    }

    /// All parameters, in the order in which they are created.
    pub fn create() -> (r: Vec<DashboardParams>)
        ensures
            r@ == all_params(),
    {
        let r: Vec<DashboardParams> = vec![
            DashboardParams::IsConnected,
            DashboardParams::LoadUrp,
            DashboardParams::Play,
            DashboardParams::Stop,
            DashboardParams::Pause,
            DashboardParams::Connect,
            DashboardParams::Disconnect,
            DashboardParams::Shutdown,
            DashboardParams::IsRunning,
            DashboardParams::ClosePopup,
            DashboardParams::Popup,
            DashboardParams::CloseSafetyPopup,
            DashboardParams::PowerOn,
            DashboardParams::PowerOff,
            DashboardParams::BrakeRelease,
            DashboardParams::UnlockProtectiveStop,
            DashboardParams::RestartSafety,
            DashboardParams::PolyscopeVersion,
            DashboardParams::SerialNumber,
            DashboardParams::RobotMode,
            DashboardParams::ProgramState,
            DashboardParams::RobotModel,
            DashboardParams::LoadedProgram,
            DashboardParams::SafetyStatus,
            DashboardParams::IsProgramSaved,
            DashboardParams::IsInRemoteControl,
        ];
        proof {
            assert(r@ =~= all_params());
        }
        r
    }
}

/// All parameters, in the order in which they are created.
pub open spec fn all_params() -> Seq<DashboardParams> {
    seq![
        DashboardParams::IsConnected,
        DashboardParams::LoadUrp,
        DashboardParams::Play,
        DashboardParams::Stop,
        DashboardParams::Pause,
        DashboardParams::Connect,
        DashboardParams::Disconnect,
        DashboardParams::Shutdown,
        DashboardParams::IsRunning,
        DashboardParams::ClosePopup,
        DashboardParams::Popup,
        DashboardParams::CloseSafetyPopup,
        DashboardParams::PowerOn,
        DashboardParams::PowerOff,
        DashboardParams::BrakeRelease,
        DashboardParams::UnlockProtectiveStop,
        DashboardParams::RestartSafety,
        DashboardParams::PolyscopeVersion,
        DashboardParams::SerialNumber,
        DashboardParams::RobotMode,
        DashboardParams::ProgramState,
        DashboardParams::RobotModel,
        DashboardParams::LoadedProgram,
        DashboardParams::SafetyStatus,
        DashboardParams::IsProgramSaved,
        DashboardParams::IsInRemoteControl,
    ]
}

/// Law: every parameter is created.
pub proof fn law_every_parameter_is_created(p: DashboardParams)
    ensures
        exists|i: int| 0 <= i < all_params().len() && #[trigger] all_params()[i] == p,
{
    let i: int = match p {
        DashboardParams::IsConnected => 0,
        DashboardParams::LoadUrp => 1,
        DashboardParams::Play => 2,
        DashboardParams::Stop => 3,
        DashboardParams::Pause => 4,
        DashboardParams::Connect => 5,
        DashboardParams::Disconnect => 6,
        DashboardParams::Shutdown => 7,
        DashboardParams::IsRunning => 8,
        DashboardParams::ClosePopup => 9,
        DashboardParams::Popup => 10,
        DashboardParams::CloseSafetyPopup => 11,
        DashboardParams::PowerOn => 12,
        DashboardParams::PowerOff => 13,
        DashboardParams::BrakeRelease => 14,
        DashboardParams::UnlockProtectiveStop => 15,
        DashboardParams::RestartSafety => 16,
        DashboardParams::PolyscopeVersion => 17,
        DashboardParams::SerialNumber => 18,
        DashboardParams::RobotMode => 19,
        DashboardParams::ProgramState => 20,
        DashboardParams::RobotModel => 21,
        DashboardParams::LoadedProgram => 22,
        DashboardParams::SafetyStatus => 23,
        DashboardParams::IsProgramSaved => 24,
        DashboardParams::IsInRemoteControl => 25,
    };
    assert(all_params()[i] == p);
}

impl DashboardParams {
    /// Whether the parameter is a momentary command.
    pub open spec fn commands(self) -> bool {
        match self {
            DashboardParams::Play => true,
            DashboardParams::Stop => true,
            DashboardParams::Pause => true,
            DashboardParams::Connect => true,
            DashboardParams::Disconnect => true,
            DashboardParams::Shutdown => true,
            DashboardParams::ClosePopup => true,
            DashboardParams::CloseSafetyPopup => true,
            DashboardParams::PowerOn => true,
            DashboardParams::PowerOff => true,
            DashboardParams::BrakeRelease => true,
            DashboardParams::UnlockProtectiveStop => true,
            DashboardParams::RestartSafety => true,
            _ => false,
        }
    }

    /// Whether the parameter is a momentary command.
    pub fn is_command(self) -> (r: bool)
        ensures
            r == self.commands(),
    {
        match self {
            DashboardParams::Play => true,
            DashboardParams::Stop => true,
            DashboardParams::Pause => true,
            DashboardParams::Connect => true,
            DashboardParams::Disconnect => true,
            DashboardParams::Shutdown => true,
            DashboardParams::ClosePopup => true,
            DashboardParams::CloseSafetyPopup => true,
            DashboardParams::PowerOn => true,
            DashboardParams::PowerOff => true,
            DashboardParams::BrakeRelease => true,
            DashboardParams::UnlockProtectiveStop => true,
            DashboardParams::RestartSafety => true,
            _ => false,
        }
    }
}

/// What a write asks for.
#[derive(Debug)]
pub enum DashboardAction {
    Nothing,
    Connect,
    Disconnect,
    /// Send this and check the reply.
    Send(Request),
}

/// What a write asks for, with the texts as sequences.
pub enum DashboardActionView {
    Nothing,
    Connect,
    Disconnect,
    Send(Seq<char>, ReplyRule),
}

impl View for DashboardAction {
    type V = DashboardActionView;

    open spec fn view(&self) -> DashboardActionView {
        match *self {
            DashboardAction::Nothing => DashboardActionView::Nothing,
            DashboardAction::Connect => DashboardActionView::Connect,
            DashboardAction::Disconnect => DashboardActionView::Disconnect,
            DashboardAction::Send(r) => DashboardActionView::Send(r.command@, r.rule),
        }
    }
}

/// The command of a parameter and what its reply has to be.
pub open spec fn command_of(p: DashboardParams) -> Option<(Seq<char>, ReplyRule)> {
    match p {
        DashboardParams::Play => Some(("play"@, ReplyRule::Equals("Starting program"))),
        DashboardParams::Stop => Some(("stop"@, ReplyRule::Equals("Stopped"))),
        DashboardParams::Pause => Some(("pause"@, ReplyRule::Equals("Pausing program"))),
        DashboardParams::Shutdown => Some(("shutdown"@, ReplyRule::Any)),
        DashboardParams::ClosePopup => Some(("close popup"@, ReplyRule::Any)),
        DashboardParams::CloseSafetyPopup => Some(("close safety popup"@, ReplyRule::Any)),
        DashboardParams::PowerOn => Some(("power on"@, ReplyRule::Any)),
        DashboardParams::PowerOff => Some(("power off"@, ReplyRule::Any)),
        DashboardParams::BrakeRelease => Some(("brake release"@, ReplyRule::Any)),
        DashboardParams::UnlockProtectiveStop => Some(("unlock protective stop"@, ReplyRule::Equals("Protective stop releasing"))),
        DashboardParams::RestartSafety => Some(("restart safety"@, ReplyRule::Any)),
        _ => None,
    }
}

/// What a write of an integer asks for, or why it is refused.
pub open spec fn requested(p: DashboardParams, value: i32, connected: bool) -> Result<
    DashboardActionView,
    Seq<char>,
> {
    if p.commands() && value == 0 {
        Ok(DashboardActionView::Nothing)
    } else if p is Connect {
        Ok(DashboardActionView::Connect)
    } else if !connected {
        Err("the dashboard is not connected"@)
    } else if p is Disconnect {
        Ok(DashboardActionView::Disconnect)
    } else {
        match command_of(p) {
            Some((c, rule)) => Ok(DashboardActionView::Send(c, rule)),
            None => Ok(DashboardActionView::Nothing),
        }
    }
}

/// The action, or why there is none.
pub open spec fn action_outcome(r: Result<DashboardAction, String>) -> Result<
    DashboardActionView,
    Seq<char>,
> {
    match r {
        Ok(a) => Ok(a@),
        Err(e) => Err(e@),
    }
}

fn sent(r: UrResult<Request>) -> (a: Result<DashboardAction, String>)
    ensures
        match r {
            Ok(q) => a == Ok::<DashboardAction, String>(DashboardAction::Send(q)),
            Err(_) => a is Err && a->Err_0@ == "the dashboard is not connected"@,
        },
{
    match r {
        Ok(q) => Ok(DashboardAction::Send(q)),
        Err(_) => Err("the dashboard is not connected".to_owned()),
    }
}

/// What a write of an integer asks for.
pub fn write_int32(client: &DashboardClient, p: DashboardParams, value: i32) -> (r: Result<
    DashboardAction,
    String,
>)
    ensures
        action_outcome(r) == requested(p, value, client.connected),
{
    if p.is_command() && value == 0 {
        return Ok(DashboardAction::Nothing);
    }
    match p {
        DashboardParams::Connect => {
            return Ok(DashboardAction::Connect);
        },
        _ => {},
    }
    if !client.is_connected() {
        return Err("the dashboard is not connected".to_owned());
    }
    match p {
        DashboardParams::Disconnect => Ok(DashboardAction::Disconnect),
        DashboardParams::Play => sent(client.play()),
        DashboardParams::Stop => sent(client.stop()),
        DashboardParams::Pause => sent(client.pause()),
        DashboardParams::Shutdown => sent(client.shutdown()),
        DashboardParams::ClosePopup => sent(client.close_popup()),
        DashboardParams::CloseSafetyPopup => sent(client.close_safety_popup()),
        DashboardParams::PowerOn => sent(client.power_on()),
        DashboardParams::PowerOff => sent(client.power_off()),
        DashboardParams::BrakeRelease => sent(client.brake_release()),
        DashboardParams::UnlockProtectiveStop => sent(client.unlock_protective_stop()),
        DashboardParams::RestartSafety => sent(client.restart_safety()),
        _ => Ok(DashboardAction::Nothing),
    }
}

/// Law: a zero written to a command does nothing, whatever the link.
pub proof fn law_zero_to_a_command_does_nothing(p: DashboardParams, connected: bool)
    requires
        p.commands(),
    ensures
        requested(p, 0, connected) == Ok::<DashboardActionView, Seq<char>>(
            DashboardActionView::Nothing,
        ),
{
}

/// The outcome of a command that was sent.
pub fn command_outcome(r: UrResult<()>) -> (o: Result<(), String>)
    ensures
        match r {
            Ok(_) => o is Ok,
            Err(_) => o is Err && o->Err_0@ == "dashboard command failed"@,
        },
{
    match r {
        Ok(_) => Ok(()),
        Err(_) => Err("dashboard command failed".to_owned()),
    }
}

/// Notes how an attempt to connect ended: the port shows the link, and a
/// failure is an error.
pub fn connect_outcome(ok: bool, state: &mut DashboardState) -> (r: (
    Vec<Update<DashboardParams>>,
    Result<(), String>,
))
    ensures
        final(state)@ == (DashboardStateView { connected: ok, ..old(state)@ }),
        super::views(r.0@) == seq![
            super::int_update(DashboardParams::IsConnected, super::flag(ok)),
        ],
        if ok {
            r.1 is Ok
        } else {
            r.1 is Err && r.1->Err_0@ == "could not connect to the dashboard server"@
        },
{
    let mut updates: Vec<Update<DashboardParams>> = Vec::new();
    super::push_int(&mut updates, DashboardParams::IsConnected, super::to_flag(ok));
    state.connected = ok;
    proof {
        assert(super::views(updates@) =~= seq![
            super::int_update(DashboardParams::IsConnected, super::flag(ok)),
        ]);
    }
    if ok {
        (updates, Ok(()))
    } else {
        (updates, Err("could not connect to the dashboard server".to_owned()))
    }
}

/// The text in bytes that a record wrote: without the zeros at its end.
pub fn written_text(data: &[u8]) -> (r: String)
    ensures
        r@ == text::without_trailing(text::lossy(data@), '\0'),
{
    let t = text::from_utf8_lossy(data);
    let chars = text::chars_of(t.as_str());
    let n: usize = text::trim_trailing(chars.as_slice(), chars.len(), '\0');
    proof {
        assert(chars@.take(chars@.len() as int) =~= t@);
    }
    let r = text::string_of(chars.as_slice(), 0, n);
    proof {
        assert(chars@.subrange(0, n as int) =~= chars@.take(n as int));
    }
    r
}

/// What a write of a text asks for, or why it is refused.
pub open spec fn requested_text(p: DashboardParams, t: Seq<char>, connected: bool) -> Result<
    DashboardActionView,
    Seq<char>,
> {
    if !connected {
        Err("the dashboard is not connected"@)
    } else if p is Popup {
        Ok(DashboardActionView::Send("popup "@ + t, ReplyRule::Any))
    } else if p is LoadUrp {
        Ok(DashboardActionView::Send("load "@ + t, ReplyRule::Contains("Loading program:")))
    } else {
        Ok(DashboardActionView::Nothing)
    }
}

/// What a write of a text asks for.
pub fn write_octet(client: &DashboardClient, p: DashboardParams, t: &str) -> (r: Result<
    DashboardAction,
    String,
>)
    ensures
        action_outcome(r) == requested_text(p, t@, client.connected),
{
    if !client.is_connected() {
        return Err("the dashboard is not connected".to_owned());
    }
    match p {
        DashboardParams::Popup => sent(client.popup(t)),
        DashboardParams::LoadUrp => sent(client.load_urp(t)),
        _ => Ok(DashboardAction::Nothing),
    }
}

/// A version as a text.
pub open spec fn version_text(v: PolyScopeVersion) -> Seq<char> {
    text::decimal(v.major as nat) + "."@ + text::decimal(v.minor as nat) + "."@ + text::decimal(
        v.patch as nat,
    ) + "."@ + text::decimal(v.build as nat)
}

/// The text at address 0.
pub open spec fn text_update(p: DashboardParams, t: Seq<char>) -> UpdateView<DashboardParams> {
    UpdateView { param: p, addr: 0, value: PublishedView::Octet(t) }
}

fn push_text(out: &mut Vec<Update<DashboardParams>>, p: DashboardParams, t: String)
    ensures
        super::views(final(out)@) == super::views(old(out)@).push(text_update(p, t@)),
{
    super::push_update(out, p, 0, Published::Octet(t));
}

/// The text, if there is one.
pub open spec fn opt_text(p: DashboardParams, r: UrResult<String>) -> Seq<
    UpdateView<DashboardParams>,
> {
    match r {
        Ok(t) => seq![text_update(p, t@)],
        Err(_) => Seq::empty(),
    }
}

/// The version that was read, or zeros.
pub open spec fn version_or_zero(r: UrResult<PolyScopeVersion>) -> PolyScopeVersion {
    match r {
        Ok(v) => v,
        Err(_) => PolyScopeVersion { major: 0, minor: 0, patch: 0, build: 0 },
    }
}

/// What a first connection publishes: the version, and the serial number and
/// the model where the robot tells them.
pub fn first_connected(
    version: UrResult<PolyScopeVersion>,
    serial: UrResult<String>,
    model: UrResult<String>,
) -> (r: (Vec<Update<DashboardParams>>, DashboardState))
    ensures
        super::views(r.0@) == seq![
            text_update(
                DashboardParams::PolyscopeVersion,
                version_text(version_or_zero(version)),
            ),
        ] + opt_text(DashboardParams::SerialNumber, serial) + opt_text(
            DashboardParams::RobotModel,
            model,
        ) + seq![super::int_update(DashboardParams::IsConnected, 1)],
        r.1@ == (DashboardStateView {
            connected: true,
            robot_mode: Seq::empty(),
            polyscope: version_or_zero(version),
        }),
{
    let v = match version {
        Ok(v) => v,
        Err(_) => PolyScopeVersion::default(),
    };
    let mut updates: Vec<Update<DashboardParams>> = Vec::new();
    let mut t = String::new();
    text::push_decimal(&mut t, v.major as u64);
    t.append(".");
    text::push_decimal(&mut t, v.minor as u64);
    t.append(".");
    text::push_decimal(&mut t, v.patch as u64);
    t.append(".");
    text::push_decimal(&mut t, v.build as u64);
    proof {
        assert(t@ =~= version_text(v));
    }
    push_text(&mut updates, DashboardParams::PolyscopeVersion, t);
    match serial {
        Ok(s) => push_text(&mut updates, DashboardParams::SerialNumber, s),
        Err(_) => {},
    }
    match model {
        Ok(s) => push_text(&mut updates, DashboardParams::RobotModel, s),
        Err(_) => {},
    }
    super::push_int(&mut updates, DashboardParams::IsConnected, 1);
    proof {
        assert(super::views(updates@) =~= seq![
            text_update(DashboardParams::PolyscopeVersion, version_text(v)),
        ] + opt_text(DashboardParams::SerialNumber, serial) + opt_text(
            DashboardParams::RobotModel,
            model,
        ) + seq![super::int_update(DashboardParams::IsConnected, 1)]);
    }
    (updates, DashboardState { connected: true, robot_mode: String::new(), polyscope: v })
}

/// What the dashboard answered in one look.
#[derive(Debug, Clone, PartialEq, Eq)]
pub struct Answers {
    pub running: bool,
    pub program_state: String,
    pub robot_mode: String,
    pub loaded_program: String,
    pub safety_status: String,
    pub program_saved: bool,
    pub remote: bool,
}

/// What the answers publish.
pub open spec fn answered(a: Answers) -> Seq<UpdateView<DashboardParams>> {
    seq![
        super::int_update(DashboardParams::IsConnected, 1),
        super::int_update(DashboardParams::IsRunning, super::flag(a.running)),
        text_update(DashboardParams::ProgramState, a.program_state@),
        text_update(DashboardParams::RobotMode, a.robot_mode@),
        text_update(DashboardParams::LoadedProgram, a.loaded_program@),
        text_update(DashboardParams::SafetyStatus, a.safety_status@),
        super::int_update(DashboardParams::IsProgramSaved, super::flag(a.program_saved)),
        super::int_update(DashboardParams::IsInRemoteControl, super::flag(a.remote)),
    ]
}

/// What a look at the dashboard found.
#[derive(Debug)]
pub enum Looked {
    /// There is no connection.
    Unconnected,
    Answered(Answers),
    /// The connection broke.
    Failed,
}

/// One look at the dashboard: what the port publishes for the others and for
/// records, and whether the connection is to be closed.
pub fn polled(found: Looked, state: &mut DashboardState) -> (r: (Vec<Update<DashboardParams>>, bool))
    ensures
        match found {
            Looked::Unconnected => {
                &&& super::views(r.0@) == seq![super::int_update(DashboardParams::IsConnected, 0)]
                &&& !r.1
                &&& final(state)@ == (DashboardStateView { connected: false, ..old(state)@ })
            },
            Looked::Answered(a) => {
                &&& super::views(r.0@) == answered(a)
                &&& !r.1
                &&& final(state)@ == (DashboardStateView {
                    connected: true,
                    robot_mode: a.robot_mode@,
                    ..old(state)@
                })
            },
            Looked::Failed => {
                &&& super::views(r.0@) == seq![
                    super::int_update(DashboardParams::IsConnected, 0),
                    super::int_update(DashboardParams::IsInRemoteControl, 0),
                ]
                &&& r.1
                &&& final(state)@ == (DashboardStateView { connected: false, ..old(state)@ })
            },
        },
{
    let mut updates: Vec<Update<DashboardParams>> = Vec::new();
    match found {
        Looked::Unconnected => {
            state.connected = false;
            super::push_int(&mut updates, DashboardParams::IsConnected, 0);
            proof {
                assert(super::views(updates@) =~= seq![
                    super::int_update(DashboardParams::IsConnected, 0),
                ]);
            }
            (updates, false)
        },
        Looked::Failed => {
            state.connected = false;
            super::push_int(&mut updates, DashboardParams::IsConnected, 0);
            super::push_int(&mut updates, DashboardParams::IsInRemoteControl, 0);
            proof {
                assert(super::views(updates@) =~= seq![
                    super::int_update(DashboardParams::IsConnected, 0),
                    super::int_update(DashboardParams::IsInRemoteControl, 0),
                ]);
            }
            (updates, true)
        },
        Looked::Answered(a) => {
            let ghost said = a;
            super::push_int(&mut updates, DashboardParams::IsConnected, 1);
            super::push_int(&mut updates, DashboardParams::IsRunning, super::to_flag(a.running));
            push_text(&mut updates, DashboardParams::ProgramState, a.program_state);
            push_text(&mut updates, DashboardParams::RobotMode, a.robot_mode.clone());
            push_text(&mut updates, DashboardParams::LoadedProgram, a.loaded_program);
            push_text(&mut updates, DashboardParams::SafetyStatus, a.safety_status);
            super::push_int(
                &mut updates,
                DashboardParams::IsProgramSaved,
                super::to_flag(a.program_saved),
            );
            super::push_int(
                &mut updates,
                DashboardParams::IsInRemoteControl,
                super::to_flag(a.remote),
            );
            state.connected = true;
            state.robot_mode = a.robot_mode;
            proof {
                assert(super::views(updates@) =~= answered(said));
            }
            (updates, false)
        },
    }
}

/// The names under which records find the parameters.
pub proof fn law_parameters_have_their_names()
    ensures
        DashboardParams::IsConnected.text() == "IS_CONNECTED"@,
        DashboardParams::LoadUrp.text() == "LOAD_URP"@,
        DashboardParams::Play.text() == "PLAY"@,
        DashboardParams::Stop.text() == "STOP"@,
        DashboardParams::Pause.text() == "PAUSE"@,
        DashboardParams::Connect.text() == "CONNECT"@,
        DashboardParams::Disconnect.text() == "DISCONNECT"@,
        DashboardParams::Shutdown.text() == "SHUTDOWN"@,
        DashboardParams::IsRunning.text() == "IS_RUNNING"@,
        DashboardParams::ClosePopup.text() == "CLOSE_POPUP"@,
        DashboardParams::Popup.text() == "POPUP"@,
        DashboardParams::CloseSafetyPopup.text() == "CLOSE_SAFETY_POPUP"@,
        DashboardParams::PowerOn.text() == "POWER_ON"@,
        DashboardParams::PowerOff.text() == "POWER_OFF"@,
        DashboardParams::BrakeRelease.text() == "BRAKE_RELEASE"@,
        DashboardParams::UnlockProtectiveStop.text() == "UNLOCK_PROTECTIVE_STOP"@,
        DashboardParams::RestartSafety.text() == "RESTART_SAFETY"@,
        DashboardParams::PolyscopeVersion.text() == "POLYSCOPE_VERSION"@,
        DashboardParams::SerialNumber.text() == "SERIAL_NUMBER"@,
        DashboardParams::RobotMode.text() == "ROBOT_MODE"@,
        DashboardParams::ProgramState.text() == "PROGRAM_STATE"@,
        DashboardParams::RobotModel.text() == "ROBOT_MODEL"@,
        DashboardParams::LoadedProgram.text() == "LOADED_PROGRAM"@,
        DashboardParams::SafetyStatus.text() == "SAFETY_STATUS"@,
        DashboardParams::IsProgramSaved.text() == "IS_PROGRAM_SAVED"@,
        DashboardParams::IsInRemoteControl.text() == "IS_IN_REMOTE_CONTROL"@,
{
}

/// The kinds of value that the parameters hold.
pub proof fn law_parameters_have_their_kinds()
    ensures
        DashboardParams::IsConnected.kind() == ParamType::Int32,
        DashboardParams::LoadUrp.kind() == ParamType::Octet,
        DashboardParams::Play.kind() == ParamType::Int32,
        DashboardParams::Stop.kind() == ParamType::Int32,
        DashboardParams::Pause.kind() == ParamType::Int32,
        DashboardParams::Connect.kind() == ParamType::Int32,
        DashboardParams::Disconnect.kind() == ParamType::Int32,
        DashboardParams::Shutdown.kind() == ParamType::Int32,
        DashboardParams::IsRunning.kind() == ParamType::Int32,
        DashboardParams::ClosePopup.kind() == ParamType::Int32,
        DashboardParams::Popup.kind() == ParamType::Octet,
        DashboardParams::CloseSafetyPopup.kind() == ParamType::Int32,
        DashboardParams::PowerOn.kind() == ParamType::Int32,
        DashboardParams::PowerOff.kind() == ParamType::Int32,
        DashboardParams::BrakeRelease.kind() == ParamType::Int32,
        DashboardParams::UnlockProtectiveStop.kind() == ParamType::Int32,
        DashboardParams::RestartSafety.kind() == ParamType::Int32,
        DashboardParams::PolyscopeVersion.kind() == ParamType::Octet,
        DashboardParams::SerialNumber.kind() == ParamType::Octet,
        DashboardParams::RobotMode.kind() == ParamType::Octet,
        DashboardParams::ProgramState.kind() == ParamType::Octet,
        DashboardParams::RobotModel.kind() == ParamType::Octet,
        DashboardParams::LoadedProgram.kind() == ParamType::Octet,
        DashboardParams::SafetyStatus.kind() == ParamType::Octet,
        DashboardParams::IsProgramSaved.kind() == ParamType::Int32,
        DashboardParams::IsInRemoteControl.kind() == ParamType::Int32,
{
}

/// The parameters that are commands: a number other than zero acts, zero does
/// nothing.
pub proof fn law_these_parameters_are_commands(p: DashboardParams)
    ensures
        p.commands() <==> p is Play || p is Stop || p is Pause || p is Connect || p is Disconnect || p is Shutdown || p is ClosePopup || p is CloseSafetyPopup || p is PowerOn || p is PowerOff || p is BrakeRelease || p is UnlockProtectiveStop || p is RestartSafety,
{
}

/// The line that each command sends, and what the robot answers where it
/// agrees.
pub proof fn law_commands_send_their_lines(p: DashboardParams, value: i32)
    requires
        value != 0,
    ensures
        requested(DashboardParams::Play, value, true) == Ok::<DashboardActionView, Seq<char>>(
            DashboardActionView::Send("play"@, ReplyRule::Equals("Starting program")),
        ),
        requested(DashboardParams::Stop, value, true) == Ok::<DashboardActionView, Seq<char>>(
            DashboardActionView::Send("stop"@, ReplyRule::Equals("Stopped")),
        ),
        requested(DashboardParams::Pause, value, true) == Ok::<DashboardActionView, Seq<char>>(
            DashboardActionView::Send("pause"@, ReplyRule::Equals("Pausing program")),
        ),
        requested(DashboardParams::Shutdown, value, true) == Ok::<DashboardActionView, Seq<char>>(
            DashboardActionView::Send("shutdown"@, ReplyRule::Any),
        ),
        requested(DashboardParams::ClosePopup, value, true) == Ok::<DashboardActionView, Seq<char>>(
            DashboardActionView::Send("close popup"@, ReplyRule::Any),
        ),
        requested(DashboardParams::CloseSafetyPopup, value, true) == Ok::<
            DashboardActionView,
            Seq<char>,
        >(DashboardActionView::Send("close safety popup"@, ReplyRule::Any)),
        requested(DashboardParams::PowerOn, value, true) == Ok::<DashboardActionView, Seq<char>>(
            DashboardActionView::Send("power on"@, ReplyRule::Any),
        ),
        requested(DashboardParams::PowerOff, value, true) == Ok::<DashboardActionView, Seq<char>>(
            DashboardActionView::Send("power off"@, ReplyRule::Any),
        ),
        requested(DashboardParams::BrakeRelease, value, true) == Ok::<
            DashboardActionView,
            Seq<char>,
        >(DashboardActionView::Send("brake release"@, ReplyRule::Any)),
        requested(DashboardParams::UnlockProtectiveStop, value, true) == Ok::<
            DashboardActionView,
            Seq<char>,
        >(
            DashboardActionView::Send(
                "unlock protective stop"@,
                ReplyRule::Equals("Protective stop releasing"),
            ),
        ),
        requested(DashboardParams::RestartSafety, value, true) == Ok::<
            DashboardActionView,
            Seq<char>,
        >(DashboardActionView::Send("restart safety"@, ReplyRule::Any)),
        requested(DashboardParams::Connect, value, false) == Ok::<DashboardActionView, Seq<char>>(
            DashboardActionView::Connect,
        ),
        requested(DashboardParams::Disconnect, value, true) == Ok::<DashboardActionView, Seq<char>>(
            DashboardActionView::Disconnect,
        ),
        requested(p, value, false) is Ok <==> p is Connect,
{
}

/// A text is sent behind its own word.
pub proof fn law_texts_are_sent_behind_their_word(p: DashboardParams, t: Seq<char>)
    ensures
        requested_text(DashboardParams::Popup, t, true) == Ok::<DashboardActionView, Seq<char>>(
            DashboardActionView::Send("popup "@ + t, ReplyRule::Any),
        ),
        requested_text(DashboardParams::LoadUrp, t, true) == Ok::<DashboardActionView, Seq<char>>(
            DashboardActionView::Send("load "@ + t, ReplyRule::Contains("Loading program:")),
        ),
        requested_text(p, t, false) is Err,
        !(p is Popup) && !(p is LoadUrp) ==> requested_text(p, t, true) == Ok::<
            DashboardActionView,
            Seq<char>,
        >(DashboardActionView::Nothing),
{
}

/// Each answer is shown under its own parameter.
pub proof fn law_answers_are_shown_under_their_names(a: Answers, i: int)
    requires
        0 <= i < answered(a).len(),
    ensures
        ({
            let u = answered(a)[i];
            match u.param {
                DashboardParams::IsConnected => u.value == PublishedView::Int32(1),
                DashboardParams::IsRunning => u.value == PublishedView::Int32(
                    if a.running {
                        1
                    } else {
                        0
                    },
                ),
                DashboardParams::ProgramState => u.value == PublishedView::Octet(a.program_state@),
                DashboardParams::RobotMode => u.value == PublishedView::Octet(a.robot_mode@),
                DashboardParams::LoadedProgram => u.value == PublishedView::Octet(
                    a.loaded_program@,
                ),
                DashboardParams::SafetyStatus => u.value == PublishedView::Octet(a.safety_status@),
                DashboardParams::IsProgramSaved => u.value == PublishedView::Int32(
                    if a.program_saved {
                        1
                    } else {
                        0
                    },
                ),
                DashboardParams::IsInRemoteControl => u.value == PublishedView::Int32(
                    if a.remote {
                        1
                    } else {
                        0
                    },
                ),
                _ => false,
            }
        }),
        answered(a).len() == 8,
        answered(a)[i].addr == 0,
{
}

/// The version that is shown reads back as the version that the robot runs.
pub proof fn law_shown_version_reads_back(v: PolyScopeVersion)
    ensures
        super::super::dashboard::version_in(version_text(v)) == Some(v),
{
    let t = version_text(v);
    reveal_strlit(".");
    super::super::dashboard::law_version_is_found(Seq::empty(), v, Seq::empty());
    assert(t =~= Seq::<char>::empty() + super::super::dashboard::dotted(v) + Seq::<char>::empty());
}

/// What a refused write says.
pub proof fn law_refusals_say_what_is_missing(p: DashboardParams, value: i32, t: Seq<char>)
    ensures
        requested(p, value, false) matches Err(e) ==> e == "the dashboard is not connected"@,
        requested_text(p, t, false) == Err::<DashboardActionView, Seq<char>>(
            "the dashboard is not connected"@,
        ),
        requested(p, value, true) is Ok && requested_text(p, t, true) is Ok,
{
}

} // verus!
