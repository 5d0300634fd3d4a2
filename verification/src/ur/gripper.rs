//! The gripper dialogue: text requests for variables, and the sequences of
//! them that make the gripper do something.
//!
//! ```text
//!   GET <VAR>\n                     answers "<VAR> <value>\n"
//!   SET <VAR> <val> [<VAR> <val>]\n answers "ack\n"
//! ```
//!
//! Every wait is bounded. The connection, the clock and the arithmetic of the
//! user's units are the caller's.

use super::error::{UrError, UrFault, UrResult};
use crate::ieee;
use crate::text;
use vstd::prelude::*;
use vstd::string::*;

verus! {

/// The TCP port of the gripper.
pub const GRIPPER_PORT: u16 = 63352;

/// The status of the gripper.
#[derive(Debug, Clone, Copy, PartialEq, Eq, Structural)]
pub enum Status {
    Reset,
    Activating,
    Active,
    /// Any other number.
    Other(i32),
}

/// The status with this number.
pub open spec fn status_of(v: i32) -> Status {
    match v {
        0 => Status::Reset,
        1 => Status::Activating,
        3 => Status::Active,
        _ => Status::Other(v),
    }
}

impl Status {
    /// The status with this number.
    pub fn from_raw(v: i32) -> (r: Status)
        ensures
            r == status_of(v),
    {
        match v {
            0 => Status::Reset,
            1 => Status::Activating,
            3 => Status::Active,
            other => Status::Other(other),
        }
    }
}

/// What the gripper holds.
#[derive(Debug, Clone, Copy, PartialEq, Eq, Structural)]
pub enum ObjectStatus {
    Moving,
    StoppedOuterObject,
    StoppedInnerObject,
    AtDest,
    Other(i32),
}

/// The object status with this number.
pub open spec fn object_of(v: i32) -> ObjectStatus {
    match v {
        0 => ObjectStatus::Moving,
        1 => ObjectStatus::StoppedOuterObject,
        2 => ObjectStatus::StoppedInnerObject,
        3 => ObjectStatus::AtDest,
        _ => ObjectStatus::Other(v),
    }
}

impl ObjectStatus {
    /// The number of the object status.
    pub open spec fn number(self) -> i32 {
        match self {
            ObjectStatus::Moving => 0,
            ObjectStatus::StoppedOuterObject => 1,
            ObjectStatus::StoppedInnerObject => 2,
            ObjectStatus::AtDest => 3,
            ObjectStatus::Other(v) => v,
        }
    }

    /// The object status with this number.
    pub fn from_raw(v: i32) -> (r: ObjectStatus)
        ensures
            r == object_of(v),
            r.number() == v,
    {
        match v {
            0 => ObjectStatus::Moving,
            1 => ObjectStatus::StoppedOuterObject,
            2 => ObjectStatus::StoppedInnerObject,
            3 => ObjectStatus::AtDest,
            other => ObjectStatus::Other(other),
        }
    }

    /// The number of the object status.
    pub fn raw(self) -> (r: i32)
        ensures
            r == self.number(),
    {
        match self {
            ObjectStatus::Moving => 0,
            ObjectStatus::StoppedOuterObject => 1,
            ObjectStatus::StoppedInnerObject => 2,
            ObjectStatus::AtDest => 3,
            ObjectStatus::Other(v) => v,
        }
    }
}

/// Whether a move returns at once or when it is done.
#[derive(Debug, Clone, Copy, PartialEq, Eq, Structural)]
pub enum MoveMode {
    StartMove,
    WaitFinished,
}

/// A unit of the user.
#[derive(Debug, Clone, Copy, PartialEq, Eq, Structural)]
pub enum Unit {
    /// 0 to 255; 255 is closed.
    Device,
    /// 0.0 to 1.0; for a position 0.0 is closed.
    Normalized,
    /// 0 to 100 percent.
    Percent,
    /// Millimetres over the configured range; positions only.
    Mm,
}

/// A quantity of a move.
#[derive(Debug, Clone, Copy, PartialEq, Eq, Structural)]
pub enum MoveParameter {
    Position,
    Speed,
    Force,
}

/// The direction of an emergency release.
#[derive(Debug, Clone, Copy, PartialEq, Eq, Structural)]
pub enum PositionId {
    Open,
    Close,
}

/// The fault that tells of an emergency release under way.
pub const FAULT_EMCY_RELEASE_ACTIVE: i32 = 0x0B;

/// The fault that tells of a finished emergency release.
pub const FAULT_EMCY_RELEASE_FINISHED: i32 = 0x0F;

/// The slowest speed: none at all makes no sense.
pub const MIN_SPEED: i32 = 1;

/// The highest speed.
pub const MAX_SPEED: i32 = 255;

/// The smallest force.
pub const MIN_FORCE: i32 = 0;

/// The greatest force.
pub const MAX_FORCE: i32 = 255;

/// What is added to the open end where the jaws stopped on an object there.
pub const MIN_POSITION_STOP_ADJUST: i32 = -5;

/// What is added to the closed end where the jaws stopped on an object there.
pub const MAX_POSITION_STOP_ADJUST: i32 = -5;

/// Units and calibration.
#[derive(Debug, Clone, Copy, PartialEq, Eq, Structural)]
pub struct GripperConfig {
    pub position_unit: Unit,
    pub speed_unit: Unit,
    pub force_unit: Unit,
    pub range_mm: i32,
    pub min_position: i32,
    pub max_position: i32,
}

/// The configuration to begin with.
pub open spec fn default_config() -> GripperConfig {
    GripperConfig {
        position_unit: Unit::Normalized,
        speed_unit: Unit::Normalized,
        force_unit: Unit::Normalized,
        range_mm: 40,
        min_position: 0,
        max_position: 255,
    }
}

impl Default for GripperConfig {
    fn default() -> (r: GripperConfig)
        ensures
            r == default_config(),
    {
        GripperConfig {
            position_unit: Unit::Normalized,
            speed_unit: Unit::Normalized,
            force_unit: Unit::Normalized,
            range_mm: 40,
            min_position: 0,
            max_position: 255,
        }
    }
}

/// `v` if it lies between `lo` and `hi`, else the nearer of the two; where `lo`
/// is above `hi`, always `hi`.
pub open spec fn clamped(v: int, lo: int, hi: int) -> int {
    if lo > hi || v > hi {
        hi
    } else if v < lo {
        lo
    } else {
        v
    }
}

/// `v` if it lies between `lo` and `hi`, else the nearer of the two.
pub fn clamp(v: i32, lo: i32, hi: i32) -> (r: i32)
    ensures
        r == clamped(v as int, lo as int, hi as int),
{
    if lo > hi || v > hi {
        hi
    } else if v < lo {
        lo
    } else {
        v
    }
}

impl GripperConfig {
    /// The unit of a quantity.
    pub open spec fn unit(self, param: MoveParameter) -> Unit {
        match param {
            MoveParameter::Position => self.position_unit,
            MoveParameter::Speed => self.speed_unit,
            MoveParameter::Force => self.force_unit,
        }
    }

    /// The unit of a quantity.
    pub fn unit_of(&self, param: MoveParameter) -> (r: Unit)
        ensures
            r == self.unit(param),
    {
        match param {
            MoveParameter::Position => self.position_unit,
            MoveParameter::Speed => self.speed_unit,
            MoveParameter::Force => self.force_unit,
        }
    }

    /// Whether a quantity counts against the device: the user's units count
    /// the opening, the device the closing.
    pub open spec fn inverts(self, param: MoveParameter) -> bool {
        param is Position && !(self.position_unit is Device)
    }

    /// The device value for a value that was scaled to device counts. A
    /// position in a unit of the user's is counted from the closed end.
    pub fn from_scaled(&self, scaled: i32, param: MoveParameter) -> (r: i32)
        requires
            self.inverts(param) ==> i32::MIN <= self.max_position - scaled <= i32::MAX,
        ensures
            r == if self.inverts(param) {
                self.max_position - scaled
            } else {
                scaled as int
            },
    {
        match (param, self.position_unit) {
            (MoveParameter::Position, Unit::Device) => scaled,
            (MoveParameter::Position, _) => self.max_position - scaled,
            _ => scaled,
        }
    }
}

/// The line that asks for a variable.
pub fn get_request(var: &str) -> (r: String)
    ensures
        r@ == "GET "@ + var@ + "\n"@,
{
    let mut out = "GET ".to_owned();
    out.append(var);
    out.append("\n");
    out
}

/// What the reply to a question for `var` says.
pub open spec fn value_in(var: Seq<char>, reply: Seq<char>) -> Result<i32, UrFault> {
    match text::first_word(reply) {
        None => Err(UrFault::Protocol("gripper sent an empty response"@)),
        Some((name, rest)) => if name != var {
            Err(
                UrFault::Protocol(
                    "gripper answered '"@ + name + "' to a GET of '"@ + var + "'"@,
                ),
            )
        } else {
            match text::first_word(rest) {
                None => Err(
                    UrFault::Protocol(
                        "gripper sent no value for '"@ + var + "': "@ + text::quoted(reply),
                    ),
                ),
                Some((value, _)) => if value.len() > 0 && value[0] == '?' {
                    Err(
                        UrFault::Protocol(
                            "reading gripper values is not possible in the current device state"@,
                        ),
                    )
                } else {
                    match text::signed_numeral(value, i32::MIN as int, i32::MAX as int) {
                        Some(v) => Ok(v as i32),
                        None => Err(
                            UrFault::Protocol(
                                "gripper sent a non-integer '"@ + var + "' value: "@ + text::quoted(
                                    value,
                                ),
                            ),
                        ),
                    }
                },
            }
        },
    }
}

/// Reads the reply to a question for `var`.
pub fn get_reply(var: &str, reply: &str) -> (r: UrResult<i32>)
    ensures
        match r {
            Ok(v) => value_in(var@, reply@) == Ok::<i32, UrFault>(v),
            Err(e) => value_in(var@, reply@) == Err::<i32, UrFault>(e@),
        },
{
    let chars = text::chars_of(reply);
    let c = chars.as_slice();
    proof {
        assert(c@.skip(0) =~= reply@);
    }
    let (a, b) = match text::find_word(c, 0) {
        Some(w) => w,
        None => {
            return Err(UrError::Protocol("gripper sent an empty response".to_owned()));
        },
    };
    let name = text::string_of(c, a, b);
    if !text::same(name.as_str(), var) {
        let mut m = "gripper answered '".to_owned();
        m.append(name.as_str());
        m.append("' to a GET of '");
        m.append(var);
        m.append("'");
        return Err(UrError::Protocol(m));
    }
    let (d, e) = match text::find_word(c, b) {
        Some(w) => w,
        None => {
            let mut m = "gripper sent no value for '".to_owned();
            m.append(var);
            m.append("': ");
            m.append(text::quote(reply).as_str());
            return Err(UrError::Protocol(m));
        },
    };
    if d < e && c[d] == '?' {
        return Err(
            UrError::Protocol(
                "reading gripper values is not possible in the current device state".to_owned(),
            ),
        );
    }
    match text::parse_signed(c, d, e, i32::MIN as i64, i32::MAX as i64) {
        Some(v) => Ok(v as i32),
        None => {
            let word = text::string_of(c, d, e);
            let mut m = "gripper sent a non-integer '".to_owned();
            m.append(var);
            m.append("' value: ");
            m.append(text::quote(word.as_str()).as_str());
            Err(UrError::Protocol(m))
        },
    }
}

/// The texts of a list of settings.
pub open spec fn setting_views(v: Seq<(&'static str, i32)>) -> Seq<(Seq<char>, i32)> {
    v.map_values(|p: (&'static str, i32)| (p.0@, p.1))
}

/// The settings, each behind a space.
pub open spec fn settings_text(v: Seq<(Seq<char>, i32)>) -> Seq<char>
    decreases v.len(),
{
    if v.len() == 0 {
        Seq::empty()
    } else {
        settings_text(v.drop_last()) + " "@ + v.last().0 + " "@ + text::signed_decimal(
            v.last().1 as int,
        )
    }
}

/// The command that makes settings, without the line feed.
pub open spec fn set_command(v: Seq<(Seq<char>, i32)>) -> Seq<char> {
    "SET"@ + settings_text(v)
}

/// The line that makes settings.
pub fn set_request(vars: &Vec<(&'static str, i32)>) -> (r: String)
    ensures
        r@ == set_command(setting_views(vars@)) + "\n"@,
{
    let ghost all = setting_views(vars@);
    let mut out = "SET".to_owned();
    let ghost head = out@;
    let mut i: usize = 0;
    proof {
        assert(out@ =~= head + settings_text(all.take(0)));
    }
    while i < vars.len()
        invariant
            i <= vars@.len(),
            all == setting_views(vars@),
            out@ == head + settings_text(all.take(i as int)),
        decreases vars@.len() - i,
    {
        out.append(" ");
        out.append(vars[i].0);
        out.append(" ");
        text::push_signed(&mut out, vars[i].1 as i64);
        proof {
            assert(all.take(i + 1).drop_last() =~= all.take(i as int));
            assert(all.take(i + 1).last() == (vars@[i as int].0@, vars@[i as int].1));
            assert(out@ =~= head + settings_text(all.take(i + 1)));
        }
        i = i + 1;
    }
    proof {
        assert(all.take(all.len() as int) =~= all);
    }
    out.append("\n");
    out
}

/// Checks the reply to settings. `request` is the line that was sent.
pub fn set_reply(request: &str, reply: &str) -> (r: UrResult<()>)
    ensures
        if text::trimmed(reply@) == "ack"@ {
            r is Ok
        } else {
            r is Err && r->Err_0@ == UrFault::Protocol(
                "gripper did not ack '"@ + text::trimmed(request@) + "': "@ + text::quoted(reply@),
            )
        },
{
    let chars = text::chars_of(reply);
    let (a, b) = text::trim(chars.as_slice(), 0, chars.len());
    let word = text::string_of(chars.as_slice(), a, b);
    proof {
        assert(chars@.subrange(0, chars@.len() as int) =~= reply@);
    }
    if text::same(word.as_str(), "ack") {
        return Ok(());
    }
    let sent = text::chars_of(request);
    let (d, e) = text::trim(sent.as_slice(), 0, sent.len());
    let line = text::string_of(sent.as_slice(), d, e);
    proof {
        assert(sent@.subrange(0, sent@.len() as int) =~= request@);
    }
    let mut m = "gripper did not ack '".to_owned();
    m.append(line.as_str());
    m.append("': ");
    m.append(text::quote(reply).as_str());
    Err(UrError::Protocol(m))
}

/// A variable of the gripper.
#[derive(Debug, Clone, Copy, PartialEq, Eq, Structural)]
pub enum Var {
    /// Activation.
    Act,
    /// Automatic release.
    Atr,
    /// Direction of the automatic release.
    Ard,
    /// Fault.
    Flt,
    /// Object detection.
    Obj,
    /// Position.
    Pos,
    /// Echo of the requested position.
    Pre,
    /// Status.
    Sta,
}

impl Var {
    /// The name of the variable in a request.
    pub open spec fn text(self) -> Seq<char> {
        match self {
            Var::Act => "ACT"@,
            Var::Atr => "ATR"@,
            Var::Ard => "ARD"@,
            Var::Flt => "FLT"@,
            Var::Obj => "OBJ"@,
            Var::Pos => "POS"@,
            Var::Pre => "PRE"@,
            Var::Sta => "STA"@,
        }
    }

    /// The name of the variable in a request.
    pub fn name(self) -> (r: &'static str)
        ensures
            r@ == self.text(),
    {
        match self {
            Var::Act => "ACT",
            Var::Atr => "ATR",
            Var::Ard => "ARD",
            Var::Flt => "FLT",
            Var::Obj => "OBJ",
            Var::Pos => "POS",
            Var::Pre => "PRE",
            Var::Sta => "STA",
        }
    }
}

/// Something to wait for.
#[derive(Debug, Clone, Copy, PartialEq, Eq, Structural)]
pub enum Condition {
    IsReset,
    IsActivated,
    /// The gripper echoes this position.
    PositionAccepted(i32),
    ReleaseStarted,
    ReleaseFinished,
    MotionEnded,
}

/// What comes next in a look at a condition.
#[derive(Debug, Clone, Copy, PartialEq, Eq, Structural)]
pub enum Look {
    Read(Var),
    Met,
    Unmet,
}

/// `Met` if `b`, else `Unmet`.
pub open spec fn verdict(b: bool) -> Look {
    if b {
        Look::Met
    } else {
        Look::Unmet
    }
}

impl Condition {
    /// How long to wait, in milliseconds.
    pub open spec fn limit(self) -> u64 {
        match self {
            Condition::IsReset => 5_000,
            Condition::IsActivated => 10_000,
            Condition::PositionAccepted(_) => 5_000,
            Condition::ReleaseStarted => 5_000,
            Condition::ReleaseFinished => 30_000,
            Condition::MotionEnded => 30_000,
        }
    }

    /// How long to wait, in milliseconds.
    pub fn limit_ms(self) -> (r: u64)
        ensures
            r == self.limit(),
    {
        match self {
            Condition::IsReset => 5_000,
            Condition::IsActivated => 10_000,
            Condition::PositionAccepted(_) => 5_000,
            Condition::ReleaseStarted => 5_000,
            Condition::ReleaseFinished => 30_000,
            Condition::MotionEnded => 30_000,
        }
    }

    /// The pause between two looks, in milliseconds.
    pub fn interval_ms(self) -> (r: u64)
        ensures
            r == if self is PositionAccepted || self is ReleaseStarted {
                1u64
            } else {
                10u64
            },
    {
        match self {
            Condition::PositionAccepted(_) => 1,
            Condition::ReleaseStarted => 1,
            _ => 10,
        }
    }

    /// What is waited for, in words.
    pub open spec fn words(self) -> Seq<char> {
        match self {
            Condition::IsReset => "gripper reset"@,
            Condition::IsActivated => "gripper activation"@,
            Condition::PositionAccepted(_) => "gripper to accept the commanded position"@,
            Condition::ReleaseStarted => "gripper to start the emergency release"@,
            Condition::ReleaseFinished => "gripper emergency release to finish"@,
            Condition::MotionEnded => "gripper motion to finish"@,
        }
    }

    /// What is waited for, in words.
    pub fn what(self) -> (r: &'static str)
        ensures
            r@ == self.words(),
    {
        match self {
            Condition::IsReset => "gripper reset",
            Condition::IsActivated => "gripper activation",
            Condition::PositionAccepted(_) => "gripper to accept the commanded position",
            Condition::ReleaseStarted => "gripper to start the emergency release",
            Condition::ReleaseFinished => "gripper emergency release to finish",
            Condition::MotionEnded => "gripper motion to finish",
        }
    }

    /// Whether activation and automatic release are switched off again before
    /// each look.
    pub fn repeats_reset(self) -> (r: bool)
        ensures
            r == (self is IsReset),
    {
        match self {
            Condition::IsReset => true,
            _ => false,
        }
    }

    /// What comes next when nothing was read yet (`None`), or when `first` and
    /// perhaps a second value were read.
    pub open spec fn next_look(self, first: Option<i32>, second: Option<i32>) -> Look {
        match (self, first, second) {
            (Condition::IsReset, None, _) => Look::Read(Var::Act),
            (Condition::IsReset, Some(a), None) => if a == 0 {
                Look::Read(Var::Sta)
            } else {
                Look::Unmet
            },
            (Condition::IsReset, Some(a), Some(s)) => verdict(a == 0 && s == 0),
            (Condition::IsActivated, None, _) => Look::Read(Var::Act),
            (Condition::IsActivated, Some(a), None) => if a == 1 {
                Look::Read(Var::Sta)
            } else {
                Look::Unmet
            },
            (Condition::IsActivated, Some(a), Some(s)) => verdict(a == 1 && s == 3),
            (Condition::PositionAccepted(_), None, _) => Look::Read(Var::Pre),
            (Condition::PositionAccepted(p), Some(v), _) => verdict(v == p),
            (Condition::ReleaseStarted, None, _) => Look::Read(Var::Flt),
            (Condition::ReleaseStarted, Some(f), _) => verdict(
                f == FAULT_EMCY_RELEASE_ACTIVE || f == FAULT_EMCY_RELEASE_FINISHED,
            ),
            (Condition::ReleaseFinished, None, _) => Look::Read(Var::Flt),
            (Condition::ReleaseFinished, Some(f), _) => verdict(f == FAULT_EMCY_RELEASE_FINISHED),
            (Condition::MotionEnded, None, _) => Look::Read(Var::Obj),
            (Condition::MotionEnded, Some(o), _) => verdict(!(object_of(o) is Moving)),
        }
    }

    /// What comes next when nothing was read yet (`None`), or when `first` and
    /// perhaps a second value were read. The second value is asked for only
    /// where the first leaves the matter open.
    pub fn look(self, first: Option<i32>, second: Option<i32>) -> (r: Look)
        ensures
            r == self.next_look(first, second),
    {
        let a: i32 = match first {
            None => {
                return match self {
                    Condition::IsReset => Look::Read(Var::Act),
                    Condition::IsActivated => Look::Read(Var::Act),
                    Condition::PositionAccepted(_) => Look::Read(Var::Pre),
                    Condition::ReleaseStarted => Look::Read(Var::Flt),
                    Condition::ReleaseFinished => Look::Read(Var::Flt),
                    Condition::MotionEnded => Look::Read(Var::Obj),
                };
            },
            Some(v) => v,
        };
        let met = match self {
            Condition::IsReset => {
                if a != 0 {
                    false
                } else {
                    match second {
                        None => {
                            return Look::Read(Var::Sta);
                        },
                        Some(s) => s == 0,
                    }
                }
            },
            Condition::IsActivated => {
                if a != 1 {
                    false
                } else {
                    match second {
                        None => {
                            return Look::Read(Var::Sta);
                        },
                        Some(s) => s == 3,
                    }
                }
            },
            Condition::PositionAccepted(p) => a == p,
            Condition::ReleaseStarted => a == FAULT_EMCY_RELEASE_ACTIVE || a
                == FAULT_EMCY_RELEASE_FINISHED,
            Condition::ReleaseFinished => a == FAULT_EMCY_RELEASE_FINISHED,
            Condition::MotionEnded => a != 0,
        };
        if met {
            Look::Met
        } else {
            Look::Unmet
        }
    }

    /// Whether a wait goes on after a look. It ends when the condition is met,
    /// and fails when it is not met once the time is over.
    pub fn wait_on(self, met: bool, expired: bool) -> (r: UrResult<bool>)
        ensures
            match r {
                Ok(again) => (met || !expired) && again == !met,
                Err(e) => !met && expired && e@ == UrFault::Timeout(self.limit(), self.words()),
            },
    {
        if met {
            return Ok(false);
        }
        if expired {
            return Err(UrError::Timeout(self.limit_ms(), self.what().to_owned()));
        }
        Ok(true)
    }
}

/// A step of a sequence.
#[derive(Debug, Clone, Copy, PartialEq, Eq, Structural)]
pub enum Step {
    Assign(Var, i32),
    /// One request that sets position, speed and force, and starts the motion.
    Move { position: i32, speed: i32, force: i32 },
    /// A pause in milliseconds.
    Sleep(u64),
    Await(Condition),
}

/// The settings that a motion starts with.
pub fn move_settings(position: i32, speed: i32, force: i32) -> (r: Vec<(&'static str, i32)>)
    ensures
        setting_views(r@) == seq![
            ("POS"@, position),
            ("SPE"@, speed),
            ("FOR"@, force),
            ("GTO"@, 1i32),
        ],
{
    let r: Vec<(&'static str, i32)> = vec![
        ("POS", position),
        ("SPE", speed),
        ("FOR", force),
        ("GTO", 1),
    ];
    proof {
        assert(setting_views(r@) =~= seq![
            ("POS"@, position),
            ("SPE"@, speed),
            ("FOR"@, force),
            ("GTO"@, 1i32),
        ]);
    }
    r
}

/// The sequence that deactivates the gripper.
pub open spec fn reset_sequence() -> Seq<Step> {
    seq![
        Step::Assign(Var::Act, 0),
        Step::Assign(Var::Atr, 0),
        Step::Await(Condition::IsReset),
        Step::Sleep(500),
    ]
}

/// The sequence that deactivates the gripper and waits until it says so.
pub fn reset() -> (r: Vec<Step>)
    ensures
        r@ == reset_sequence(),
{
    let r: Vec<Step> = vec![
        Step::Assign(Var::Act, 0),
        Step::Assign(Var::Atr, 0),
        Step::Await(Condition::IsReset),
        Step::Sleep(500),
    ];
    proof {
        assert(r@ =~= reset_sequence());
    }
    r
}

/// The sequence that activates a gripper with this status.
pub open spec fn activate_sequence(status: Status) -> Seq<Step> {
    if status is Active {
        Seq::empty()
    } else {
        reset_sequence() + seq![
            Step::Assign(Var::Act, 1),
            Step::Sleep(1_000),
            Step::Await(Condition::IsActivated),
        ]
    }
}

/// The sequence that activates a gripper with this status: an active one is
/// left alone, any other is reset first.
pub fn activate(status: Status) -> (r: Vec<Step>)
    ensures
        r@ == activate_sequence(status),
{
    if is_active(status) {
        return Vec::new();
    }
    let mut r = reset();
    r.push(Step::Assign(Var::Act, 1));
    r.push(Step::Sleep(1_000));
    r.push(Step::Await(Condition::IsActivated));
    proof {
        assert(r@ =~= activate_sequence(status));
    }
    r
}

/// Whether a gripper with this status is active.
pub fn is_active(status: Status) -> (r: bool)
    ensures
        r == (status is Active),
{
    match status {
        Status::Active => true,
        _ => false,
    }
}

/// The sequence of a motion.
pub open spec fn move_sequence(position: i32, speed: i32, force: i32, mode: MoveMode) -> Seq<Step> {
    let start = seq![
        Step::Move { position, speed, force },
        Step::Await(Condition::PositionAccepted(position)),
    ];
    if mode is WaitFinished {
        start.push(Step::Await(Condition::MotionEnded))
    } else {
        start
    }
}

/// The sequence of a motion, in device counts: the request, the wait for the
/// echo of the position, and, if asked for, the wait for the end. The object
/// status read last is the outcome.
pub fn move_device(position: i32, speed: i32, force: i32, mode: MoveMode) -> (r: Vec<Step>)
    ensures
        r@ == move_sequence(position, speed, force, mode),
{
    let mut r: Vec<Step> = vec![
        Step::Move { position, speed, force },
        Step::Await(Condition::PositionAccepted(position)),
    ];
    match mode {
        MoveMode::WaitFinished => {
            r.push(Step::Await(Condition::MotionEnded));
        },
        MoveMode::StartMove => {},
    }
    proof {
        assert(r@ =~= move_sequence(position, speed, force, mode));
    }
    r
}

/// The sequence of an emergency release.
pub open spec fn release_sequence(direction: PositionId, mode: MoveMode) -> Seq<Step> {
    let start = seq![
        Step::Assign(Var::Atr, 0),
        Step::Assign(
            Var::Ard,
            if direction is Open {
                0
            } else {
                1
            },
        ),
        Step::Assign(Var::Act, 1),
        Step::Sleep(100),
        Step::Assign(Var::Atr, 1),
        Step::Sleep(100),
        Step::Await(Condition::ReleaseStarted),
    ];
    if mode is WaitFinished {
        start.push(Step::Await(Condition::ReleaseFinished))
    } else {
        start
    }
}

/// The sequence of an emergency release.
pub fn emergency_release(direction: PositionId, mode: MoveMode) -> (r: Vec<Step>)
    ensures
        r@ == release_sequence(direction, mode),
{
    let d: i32 = match direction {
        PositionId::Open => 0,
        PositionId::Close => 1,
    };
    let mut r: Vec<Step> = vec![
        Step::Assign(Var::Atr, 0),
        Step::Assign(Var::Ard, d),
        Step::Assign(Var::Act, 1),
        Step::Sleep(100),
        Step::Assign(Var::Atr, 1),
        Step::Sleep(100),
        Step::Await(Condition::ReleaseStarted),
    ];
    match mode {
        MoveMode::WaitFinished => {
            r.push(Step::Await(Condition::ReleaseFinished));
        },
        MoveMode::StartMove => {},
    }
    proof {
        assert(r@ =~= release_sequence(direction, mode));
    }
    r
}

/// A way through a calibration.
#[derive(Debug, Clone, Copy, PartialEq, Eq, Structural)]
pub enum Calibration {
    /// Opening, in case an object is held.
    Freeing,
    Closing,
    /// Closed, with this outcome; the position is to be read.
    Closed(ObjectStatus),
    Opening,
    /// Open, with this outcome; the position is to be read.
    Opened(ObjectStatus),
    Done,
}

/// The speed of a calibration unless another is given.
pub const CALIBRATION_SPEED: i32 = 64;

/// The force of a calibration.
pub const CALIBRATION_FORCE: i32 = 1;

/// The message of a calibration that failed at `stage`.
pub open spec fn calibration_failure(stage: Seq<char>, status: ObjectStatus) -> Seq<char> {
    "gripper calibration failed "@ + stage + " (object status "@ + text::signed_decimal(
        status.number() as int,
    ) + ")"@
}

fn calibration_error(stage: &str, status: ObjectStatus) -> (r: UrError)
    ensures
        r@ == UrFault::Protocol(calibration_failure(stage@, status)),
{
    let mut m = "gripper calibration failed ".to_owned();
    m.append(stage);
    m.append(" (object status ");
    text::push_signed(&mut m, status.raw() as i64);
    m.append(")");
    UrError::Protocol(m)
}

/// The way after a motion of a calibration ended with `status`.
pub open spec fn calibration_moved(at: Calibration, status: ObjectStatus) -> Result<
    Calibration,
    UrFault,
> {
    match at {
        Calibration::Freeing => if status is AtDest {
            Ok(Calibration::Closing)
        } else {
            Err(UrFault::Protocol(calibration_failure("to start"@, status)))
        },
        Calibration::Closing => if status is AtDest || status is StoppedInnerObject {
            Ok(Calibration::Closed(status))
        } else {
            Err(UrFault::Protocol(calibration_failure("while closing"@, status)))
        },
        Calibration::Opening => if status is AtDest || status is StoppedOuterObject {
            Ok(Calibration::Opened(status))
        } else {
            Err(UrFault::Protocol(calibration_failure("while opening"@, status)))
        },
        _ => Ok(at),
    }
}

impl Calibration {
    /// The position to go to, if a motion is due.
    pub fn target(self) -> (r: Option<i32>)
        ensures
            r == match self {
                Calibration::Freeing => Some(0i32),
                Calibration::Closing => Some(255i32),
                Calibration::Opening => Some(0i32),
                _ => None,
            },
    {
        match self {
            Calibration::Freeing => Some(0),
            Calibration::Closing => Some(255),
            Calibration::Opening => Some(0),
            _ => None,
        }
    }

    /// The way after a motion ended with `status`. The jaws must first open
    /// freely; then they may stop on an object at the end they go to.
    pub fn moved(self, status: ObjectStatus) -> (r: UrResult<Calibration>)
        ensures
            match r {
                Ok(c) => calibration_moved(self, status) == Ok::<Calibration, UrFault>(c),
                Err(e) => calibration_moved(self, status) == Err::<Calibration, UrFault>(e@),
            },
    {
        match self {
            Calibration::Freeing => match status {
                ObjectStatus::AtDest => Ok(Calibration::Closing),
                _ => Err(calibration_error("to start", status)),
            },
            Calibration::Closing => match status {
                ObjectStatus::AtDest | ObjectStatus::StoppedInnerObject => Ok(
                    Calibration::Closed(status),
                ),
                _ => Err(calibration_error("while closing", status)),
            },
            Calibration::Opening => match status {
                ObjectStatus::AtDest | ObjectStatus::StoppedOuterObject => Ok(
                    Calibration::Opened(status),
                ),
                _ => Err(calibration_error("while opening", status)),
            },
            _ => Ok(self),
        }
    }
}

/// The end that is recorded where the jaws came to stand at `position`.
pub open spec fn recorded_end(position: i32, on_object: bool, adjust: int) -> int {
    clamped(
        if on_object {
            position + adjust
        } else {
            position as int
        },
        0,
        255,
    )
}

/// The end that is recorded where the jaws came to stand at `position`: where
/// they stopped on an object, the adjustment is added to what was read.
fn record_end(position: i32, on_object: bool, adjust: i32) -> (r: i32)
    requires
        -255 <= adjust <= 255,
    ensures
        r == recorded_end(position, on_object, adjust as int),
{
    let p: i64 = if on_object {
        position as i64 + adjust as i64
    } else {
        position as i64
    };
    if p < 0 {
        0
    } else if p > 255 {
        255
    } else {
        p as i32
    }
}

/// What is kept of a gripper between requests. Speed and force are those set
/// last, in device counts.
#[derive(Debug, Clone, Copy, PartialEq, Eq, Structural)]
pub struct RobotiqGripper {
    pub cfg: GripperConfig,
    pub speed: i32,
    pub force: i32,
}

impl RobotiqGripper {
    pub fn new() -> (r: RobotiqGripper)
        ensures
            r == (RobotiqGripper { cfg: default_config(), speed: 255, force: 0 }),
    {
        RobotiqGripper { cfg: GripperConfig::default(), speed: 255, force: 0 }
    }

    pub fn config(&self) -> (r: GripperConfig)
        ensures
            r == self.cfg,
    {
        self.cfg
    }

    /// Whether the jaws are open at this device position.
    pub fn is_open(&self, position: i32) -> (r: bool)
        ensures
            r == (position <= self.cfg.min_position),
    {
        position <= self.cfg.min_position
    }

    /// Whether the jaws are closed at this device position.
    pub fn is_closed(&self, position: i32) -> (r: bool)
        ensures
            r == (position >= self.cfg.max_position),
    {
        position >= self.cfg.max_position
    }

    pub fn set_unit(&mut self, param: MoveParameter, unit: Unit)
        ensures
            final(self).cfg.unit(param) == unit,
            forall|p: MoveParameter|
                p != param ==> final(self).cfg.unit(p) == old(self).cfg.unit(p),
            *final(self) == (RobotiqGripper {
                cfg: GripperConfig {
                    position_unit: final(self).cfg.position_unit,
                    speed_unit: final(self).cfg.speed_unit,
                    force_unit: final(self).cfg.force_unit,
                    ..old(self).cfg
                },
                ..*old(self)
            }),
    {
        match param {
            MoveParameter::Position => {
                self.cfg.position_unit = unit;
            },
            MoveParameter::Speed => {
                self.cfg.speed_unit = unit;
            },
            MoveParameter::Force => {
                self.cfg.force_unit = unit;
            },
        }
    }

    pub fn set_position_range_mm(&mut self, range: i32)
        ensures
            *final(self) == (RobotiqGripper {
                cfg: GripperConfig { range_mm: range, ..old(self).cfg },
                ..*old(self)
            }),
    {
        self.cfg.range_mm = range;
    }

    /// The open and the closed end, in device counts.
    pub fn native_position_range(&self) -> (r: (i32, i32))
        ensures
            r == (self.cfg.min_position, self.cfg.max_position),
    {
        (self.cfg.min_position, self.cfg.max_position)
    }

    pub fn set_native_position_range(&mut self, min: i32, max: i32)
        ensures
            *final(self) == (RobotiqGripper {
                cfg: GripperConfig { min_position: min, max_position: max, ..old(self).cfg },
                ..*old(self)
            }),
    {
        self.cfg.min_position = min;
        self.cfg.max_position = max;
    }

    /// Keeps a speed in device counts, brought into range, and gives it back.
    pub fn set_speed(&mut self, speed: i32) -> (r: i32)
        ensures
            r == clamped(speed as int, 1, 255),
            *final(self) == (RobotiqGripper { speed: r, ..*old(self) }),
    {
        self.speed = clamp(speed, MIN_SPEED, MAX_SPEED);
        self.speed
    }

    /// Keeps a force in device counts, brought into range, and gives it back.
    pub fn set_force(&mut self, force: i32) -> (r: i32)
        ensures
            r == clamped(force as int, 0, 255),
            *final(self) == (RobotiqGripper { force: r, ..*old(self) }),
    {
        self.force = clamp(force, MIN_FORCE, MAX_FORCE);
        self.force
    }

    /// The sequence of a motion to `position`, in device counts. `speed` and
    /// `force` are what was asked for, as the bits of the user's number and as
    /// device counts: a negative number keeps what was set last.
    pub fn move_to(
        &self,
        position: i32,
        speed: (u64, i32),
        force: (u64, i32),
        mode: MoveMode,
    ) -> (r: Vec<Step>)
        ensures
            r@ == move_sequence(
                clamped(position as int, 0, 255) as i32,
                clamped(asked(speed.0, speed.1, self.speed) as int, 1, 255) as i32,
                clamped(asked(force.0, force.1, self.force) as int, 0, 255) as i32,
                mode,
            ),
    {
        let pos = clamp(position, 0, 255);
        let spd = if ieee::is_below_zero(speed.0) {
            self.speed
        } else {
            speed.1
        };
        let frc = if ieee::is_below_zero(force.0) {
            self.force
        } else {
            force.1
        };
        move_device(
            pos,
            clamp(spd, MIN_SPEED, MAX_SPEED),
            clamp(frc, MIN_FORCE, MAX_FORCE),
            mode,
        )
    }

    /// The sequence that opens the jaws with the speed and force set last.
    pub fn open(&self, mode: MoveMode) -> (r: Vec<Step>)
        ensures
            r@ == move_sequence(0, self.speed, self.force, mode),
    {
        move_device(0, self.speed, self.force, mode)
    }

    /// The sequence that closes the jaws with the speed and force set last.
    pub fn close(&self, mode: MoveMode) -> (r: Vec<Step>)
        ensures
            r@ == move_sequence(255, self.speed, self.force, mode),
    {
        move_device(255, self.speed, self.force, mode)
    }

    /// The sequence of the motion that a calibration is at, if one is due.
    /// `speed` is in device counts.
    pub fn calibrate(&self, at: Calibration, speed: Option<i32>) -> (r: Option<Vec<Step>>)
        ensures
            match r {
                Some(steps) => ({
                    &&& at is Freeing || at is Closing || at is Opening
                    &&& steps@ == move_sequence(
                        if at is Closing {
                            255
                        } else {
                            0
                        },
                        match speed {
                            Some(s) => s,
                            None => CALIBRATION_SPEED,
                        },
                        CALIBRATION_FORCE,
                        MoveMode::WaitFinished,
                    )
                }),
                None => !(at is Freeing || at is Closing || at is Opening),
            },
    {
        let dev_speed: i32 = match speed {
            Some(s) => s,
            None => CALIBRATION_SPEED,
        };
        match at.target() {
            Some(p) => Some(
                move_device(p, dev_speed, CALIBRATION_FORCE, MoveMode::WaitFinished),
            ),
            None => None,
        }
    }

    /// Records the position read at an end, and gives the way on.
    pub fn calibrated(&mut self, at: Calibration, position: i32) -> (r: Calibration)
        ensures
            match at {
                Calibration::Closed(status) => r == Calibration::Opening && *final(self) == (
                RobotiqGripper {
                    cfg: GripperConfig {
                        max_position: recorded_end(
                            position,
                            status is StoppedInnerObject,
                            MAX_POSITION_STOP_ADJUST as int,
                        ) as i32,
                        ..old(self).cfg
                    },
                    ..*old(self)
                }),
                Calibration::Opened(status) => r == Calibration::Done && *final(self) == (
                RobotiqGripper {
                    cfg: GripperConfig {
                        min_position: recorded_end(
                            position,
                            status is StoppedOuterObject,
                            MIN_POSITION_STOP_ADJUST as int,
                        ) as i32,
                        ..old(self).cfg
                    },
                    ..*old(self)
                }),
                _ => r == at && *final(self) == *old(self),
            },
    {
        match at {
            Calibration::Closed(status) => {
                let on_object = match status {
                    ObjectStatus::StoppedInnerObject => true,
                    _ => false,
                };
                self.cfg.max_position = record_end(position, on_object, MAX_POSITION_STOP_ADJUST);
                Calibration::Opening
            },
            Calibration::Opened(status) => {
                let on_object = match status {
                    ObjectStatus::StoppedOuterObject => true,
                    _ => false,
                };
                self.cfg.min_position = record_end(position, on_object, MIN_POSITION_STOP_ADJUST);
                Calibration::Done
            },
            _ => at,
        }
    }
}

/// The device counts that a request with this number means.
pub open spec fn asked(bits: u64, counts: i32, kept: i32) -> i32 {
    if !ieee::is_nan64(bits) && ieee::order64(bits) < 0 {
        kept
    } else {
        counts
    }
}

/// Law: a calibration whose motions all end as they may passes through
/// freeing, closing and opening in this order, reads the position after the
/// closing and after the opening, and then is done.
pub proof fn law_calibration_runs_to_its_end(closed: ObjectStatus, opened: ObjectStatus)
    requires
        closed is AtDest || closed is StoppedInnerObject,
        opened is AtDest || opened is StoppedOuterObject,
    ensures
        calibration_moved(Calibration::Freeing, ObjectStatus::AtDest) == Ok::<
            Calibration,
            UrFault,
        >(Calibration::Closing),
        calibration_moved(Calibration::Closing, closed) == Ok::<Calibration, UrFault>(
            Calibration::Closed(closed),
        ),
        calibration_moved(Calibration::Opening, opened) == Ok::<Calibration, UrFault>(
            Calibration::Opened(opened),
        ),
{
}

/// Law: what a motion asks of the gripper is always in the gripper's range,
/// whatever the user asked for.
pub proof fn law_motion_stays_in_range(position: int, speed: int, force: int)
    ensures
        0 <= clamped(position, 0, 255) <= 255,
        1 <= clamped(speed, MIN_SPEED as int, MAX_SPEED as int) <= 255,
        0 <= clamped(force, MIN_FORCE as int, MAX_FORCE as int) <= 255,
{
}

/// Law: the stop adjustment survives the reading of the position: a jaw that
/// stopped on an object well inside the range is recorded five counts lower.
pub proof fn law_stop_adjustment_is_kept(position: i32)
    requires
        5 <= position <= 255,
    ensures
        recorded_end(position, true, MAX_POSITION_STOP_ADJUST as int) == position - 5,
        recorded_end(position, true, MIN_POSITION_STOP_ADJUST as int) == position - 5,
        recorded_end(position, false, MAX_POSITION_STOP_ADJUST as int) == position,
{
}

/// Law: every wait comes to an end. Once the time is over, a look that finds
/// the condition unmet is the last.
pub proof fn law_looks_are_short(c: Condition, a: i32, s: i32)
    ensures
        c.next_look(None, None) is Read,
        !(c.next_look(Some(a), Some(s)) is Read),
        c.limit() <= 30_000,
{
}

/// The value that a run of steps last assigns to a variable.
pub open spec fn last_assigned(steps: Seq<Step>, var: Var) -> Option<i32>
    decreases steps.len(),
{
    if steps.len() == 0 {
        None
    } else {
        match steps.last() {
            Step::Assign(v, x) => if v == var {
                Some(x)
            } else {
                last_assigned(steps.drop_last(), var)
            },
            _ => last_assigned(steps.drop_last(), var),
        }
    }
}

/// Whether the steps before the wait at `k` ask the gripper for the state that
/// the wait is for.
pub open spec fn wait_is_due(steps: Seq<Step>, k: int) -> bool {
    let before = steps.take(k);
    match steps[k] {
        Step::Await(Condition::IsReset) => last_assigned(before, Var::Act) == Some(0i32)
            && last_assigned(before, Var::Atr) == Some(0i32),
        Step::Await(Condition::IsActivated) => last_assigned(before, Var::Act) == Some(1i32)
            && last_assigned(before, Var::Atr) == Some(0i32),
        Step::Await(Condition::ReleaseStarted) => last_assigned(before, Var::Act) == Some(1i32)
            && last_assigned(before, Var::Atr) == Some(1i32) && last_assigned(
            before,
            Var::Ard,
        ) is Some,
        Step::Await(Condition::ReleaseFinished) => before.contains(
            Step::Await(Condition::ReleaseStarted),
        ),
        Step::Await(Condition::PositionAccepted(p)) => before.len() > 0 && (
        before.last() matches Step::Move { position, .. } && position == p),
        Step::Await(Condition::MotionEnded) => before.len() > 0 && (
        before.last() matches Step::Await(Condition::PositionAccepted(_))),
        _ => true,
    }
}

/// An activation resets the gripper first, waits for the reset, sets ACT to 1
/// behind it for good, and waits for the activation at the very end. An active
/// gripper is left alone.
pub proof fn law_activation_sets_act_behind_the_reset(status: Status)
    ensures
        status is Active ==> activate_sequence(status).len() == 0,
        !(status is Active) ==> ({
            let steps = activate_sequence(status);
            &&& steps.last() == Step::Await(Condition::IsActivated)
            &&& last_assigned(steps, Var::Act) == Some(1i32)
            &&& last_assigned(steps, Var::Atr) == Some(0i32)
            &&& exists|i: int, j: int, k: int|
                0 <= i < j < k < steps.len() - 1 && #[trigger] steps[i] == Step::Assign(Var::Act, 0)
                    && #[trigger] steps[j] == Step::Await(Condition::IsReset) && #[trigger] steps[k]
                    == Step::Assign(Var::Act, 1) && forall|n: int|
                    k < n < steps.len() ==> !(#[trigger] steps[n] is Assign)
            &&& forall|k: int| 0 <= k < steps.len() ==> #[trigger] wait_is_due(steps, k)
        }),
{
    if !(status is Active) {
        let steps = activate_sequence(status);
        assert(steps.len() == 7);
        reveal_with_fuel(last_assigned, 8);
        assert(steps[0] == Step::Assign(Var::Act, 0));
        assert(steps[2] == Step::Await(Condition::IsReset));
        assert(steps[4] == Step::Assign(Var::Act, 1));
        assert forall|n: int| 4 < n < steps.len() implies !(#[trigger] steps[n] is Assign) by {
            assert(n == 5 || n == 6);
        }
        assert forall|k: int| 0 <= k < steps.len() implies #[trigger] wait_is_due(steps, k) by {
            lemma_drop_takes(steps, k);
        }
        lemma_drop_takes(steps, 7);
        assert(steps.take(7) =~= steps);
    }
}

proof fn lemma_drop_takes(steps: Seq<Step>, k: int)
    requires
        0 <= k <= steps.len(),
    ensures
        forall|n: int| 0 < n <= k ==> #[trigger] steps.take(n).drop_last() == steps.take(n - 1),
        forall|n: int| 0 < n <= k ==> (#[trigger] steps.take(n)).last() == steps[n - 1],
{
    assert forall|n: int| 0 < n <= k implies #[trigger] steps.take(n).drop_last() == steps.take(
        n - 1,
    ) by {
        assert(steps.take(n).drop_last() =~= steps.take(n - 1));
    }
}

proof fn lemma_assigned_step(steps: Seq<Step>, n: int)
    requires
        0 < n <= steps.len(),
    ensures
        forall|var: Var|
            #[trigger] last_assigned(steps.take(n), var) == match steps[n - 1] {
                Step::Assign(v, x) => if v == var {
                    Some(x)
                } else {
                    last_assigned(steps.take(n - 1), var)
                },
                _ => last_assigned(steps.take(n - 1), var),
            },
{
    assert(steps.take(n).drop_last() =~= steps.take(n - 1));
}

/// A reset clears ACT and ATR and waits for the gripper to be reset.
pub proof fn law_reset_clears_the_gripper()
    ensures
        last_assigned(reset_sequence(), Var::Act) == Some(0i32),
        last_assigned(reset_sequence(), Var::Atr) == Some(0i32),
        reset_sequence().contains(Step::Await(Condition::IsReset)),
        forall|k: int| 0 <= k < reset_sequence().len() ==> wait_is_due(reset_sequence(), k),
{
    let steps = reset_sequence();
    assert(steps.len() == 4);
    reveal_with_fuel(last_assigned, 5);
    assert(steps[2] == Step::Await(Condition::IsReset));
    lemma_drop_takes(steps, 4);
    assert(steps.take(4) =~= steps);
    assert forall|k: int| 0 <= k < steps.len() implies wait_is_due(steps, k) by {
        lemma_drop_takes(steps, k);
    }
}

/// A motion sends the position, speed and force it was asked for once, and
/// then waits for the gripper to echo that very position. The end of the motion
/// is waited for only where that was asked.
pub proof fn law_motion_is_sent_once_and_echoed(
    position: i32,
    speed: i32,
    force: i32,
    mode: MoveMode,
)
    ensures
        ({
            let steps = move_sequence(position, speed, force, mode);
            &&& forall|k: int|
                0 <= k < steps.len() ==> (#[trigger] steps[k] matches Step::Move {
                    position: p,
                    speed: s,
                    force: f,
                } ==> k == 0 && p == position && s == speed && f == force)
            &&& steps[0] is Move
            &&& steps.contains(Step::Await(Condition::PositionAccepted(position)))
            &&& steps.contains(Step::Await(Condition::MotionEnded)) <==> mode is WaitFinished
            &&& forall|k: int| 0 <= k < steps.len() ==> #[trigger] wait_is_due(steps, k)
        }),
{
    let steps = move_sequence(position, speed, force, mode);
    assert(steps[1] == Step::Await(Condition::PositionAccepted(position)));
    if mode is WaitFinished {
        assert(steps[2] == Step::Await(Condition::MotionEnded));
    }
    assert forall|k: int| 0 <= k < steps.len() implies #[trigger] wait_is_due(steps, k) by {
        lemma_drop_takes(steps, k);
    }
}

/// An emergency release chooses its direction while ATR is cleared, raises ATR
/// last, and waits for the release to start; for its end only where that was
/// asked.
pub proof fn law_release_raises_atr_last(direction: PositionId, mode: MoveMode)
    ensures
        ({
            let steps = release_sequence(direction, mode);
            &&& last_assigned(steps, Var::Atr) == Some(1i32)
            &&& last_assigned(steps, Var::Act) == Some(1i32)
            &&& last_assigned(steps, Var::Ard) == Some(
                if direction is Open {
                    0i32
                } else {
                    1i32
                },
            )
            &&& forall|k: int|
                0 <= k < steps.len() && #[trigger] steps[k] == Step::Assign(Var::Atr, 1)
                    ==> last_assigned(steps.take(k), Var::Ard) is Some && last_assigned(
                    steps.take(k),
                    Var::Act,
                ) == Some(1i32) && last_assigned(steps.take(k), Var::Atr) == Some(0i32)
            &&& steps.last() == Step::Await(
                if mode is WaitFinished {
                    Condition::ReleaseFinished
                } else {
                    Condition::ReleaseStarted
                },
            )
            &&& forall|k: int| 0 <= k < steps.len() ==> #[trigger] wait_is_due(steps, k)
        }),
{
    let steps = release_sequence(direction, mode);
    let ard: i32 = if direction is Open {
        0
    } else {
        1
    };
    assert(steps.len() == if mode is WaitFinished {
        8int
    } else {
        7
    });
    assert(steps[0] == Step::Assign(Var::Atr, 0));
    assert(steps[1] == Step::Assign(Var::Ard, ard));
    assert(steps[2] == Step::Assign(Var::Act, 1));
    assert(steps[3] is Sleep);
    assert(steps[4] == Step::Assign(Var::Atr, 1));
    assert(steps[5] is Sleep);
    assert(steps[6] == Step::Await(Condition::ReleaseStarted));
    assert(steps.take(steps.len() as int) =~= steps);
    lemma_assigned_step(steps, 1);
    lemma_assigned_step(steps, 2);
    lemma_assigned_step(steps, 3);
    lemma_assigned_step(steps, 4);
    lemma_assigned_step(steps, 5);
    lemma_assigned_step(steps, 6);
    lemma_assigned_step(steps, 7);
    if mode is WaitFinished {
        lemma_assigned_step(steps, 8);
        assert(steps.take(7)[6] == steps[6]);
    }
    assert forall|k: int| 0 <= k < steps.len() implies #[trigger] wait_is_due(steps, k) by {
        assert(k == 0 || k == 1 || k == 2 || k == 3 || k == 4 || k == 5 || k == 6 || k == 7);
    }
}

/// What a wait comes to on a gripper whose variables read as `device` says.
pub open spec fn outcome(c: Condition, device: spec_fn(Var) -> i32) -> Look {
    match c.next_look(None, None) {
        Look::Read(v) => match c.next_look(Some(device(v)), None) {
            Look::Read(w) => c.next_look(Some(device(v)), Some(device(w))),
            l => l,
        },
        l => l,
    }
}

/// Each wait is met exactly in the device state that it is named after.
pub proof fn law_waits_are_met_by_their_state(c: Condition, device: spec_fn(Var) -> i32)
    ensures
        outcome(c, device) == Look::Met || outcome(c, device) == Look::Unmet,
        outcome(c, device) is Met <==> match c {
            Condition::IsReset => device(Var::Act) == 0 && device(Var::Sta) == 0,
            Condition::IsActivated => device(Var::Act) == 1 && device(Var::Sta) == 3,
            Condition::PositionAccepted(p) => device(Var::Pre) == p,
            Condition::ReleaseStarted => device(Var::Flt) == 11 || device(Var::Flt) == 15,
            Condition::ReleaseFinished => device(Var::Flt) == 15,
            Condition::MotionEnded => device(Var::Obj) != 0,
        },
{
}

/// A gripper that shows ACT as it was last assigned and reports itself active
/// meets the wait at the end of an activation.
pub proof fn law_activation_can_end(status: Status, device: spec_fn(Var) -> i32)
    requires
        !(status is Active),
        last_assigned(activate_sequence(status), Var::Act) == Some(device(Var::Act)),
        device(Var::Sta) == 3,
    ensures
        activate_sequence(status).last() matches Step::Await(c) && outcome(c, device) is Met,
{
    law_activation_sets_act_behind_the_reset(status);
}

/// The numbers of the states survive a round trip, and are told apart.
pub proof fn law_object_numbers_read_back(v: i32, o: ObjectStatus)
    ensures
        object_of(v).number() == v,
        !(o is Other) ==> object_of(o.number()) == o,
        object_of(v) is Other <==> v < 0 || v > 3,
        object_of(v) is AtDest <==> v == 3,
        object_of(v) is StoppedOuterObject <==> v == 1,
        object_of(v) is StoppedInnerObject <==> v == 2,
        status_of(v) is Reset <==> v == 0,
        status_of(v) is Activating <==> v == 1,
        status_of(v) is Active <==> v == 3,
        status_of(v) matches Status::Other(n) ==> n == v,
{
}

/// Every wait that a user sees is bounded: a reset, an echo and the start of a
/// release by five seconds, an activation by ten, a motion by thirty.
pub proof fn law_waits_are_bounded(c: Condition)
    ensures
        c.limit() == if c is IsActivated {
            10_000u64
        } else if c is ReleaseFinished || c is MotionEnded {
            30_000
        } else {
            5_000
        },
{
}

/// Bringing a number into a range gives the nearest number of the range, and
/// gives back one that is in it.
pub proof fn law_clamping_gives_the_nearest(v: int, lo: int, hi: int, other: int)
    requires
        lo <= hi,
        lo <= other <= hi,
    ensures
        lo <= clamped(v, lo, hi) <= hi,
        lo <= v <= hi ==> clamped(v, lo, hi) == v,
        (if clamped(v, lo, hi) >= v {
            clamped(v, lo, hi) - v
        } else {
            v - clamped(v, lo, hi)
        }) <= (if other >= v {
            other - v
        } else {
            v - other
        }),
{
}

/// A calibration goes on only from a motion that ended where it may: opening
/// first with nothing in the way, closing at the end or on an object inside,
/// opening at the end or on an object outside.
pub proof fn law_calibration_stops_on_a_bad_end(at: Calibration, status: ObjectStatus)
    ensures
        at is Freeing ==> (calibration_moved(at, status) is Ok <==> status is AtDest),
        at is Closing ==> (calibration_moved(at, status) is Ok <==> status is AtDest
            || status is StoppedInnerObject),
        at is Opening ==> (calibration_moved(at, status) is Ok <==> status is AtDest
            || status is StoppedOuterObject),
        calibration_moved(at, status) matches Ok(next) ==> next != at || !(at is Freeing
            || at is Closing || at is Opening),
{
}

/// The end of the range is recorded five counts short of an object, within the
/// counts of the device.
pub proof fn law_recorded_end_is_in_range(position: i32, on_object: bool)
    ensures
        0 <= recorded_end(position, on_object, -5) <= 255,
        0 <= position <= 255 && !on_object ==> recorded_end(position, on_object, -5) == position,
        5 <= position <= 260 && on_object ==> recorded_end(position, on_object, -5) == position
            - 5,
{
}

/// The variables have different names.
pub proof fn law_variables_have_their_own_names(a: Var, b: Var)
    ensures
        a.text() == b.text() ==> a == b,
        a.text().len() == 3,
{
    reveal_strlit("ACT");
    reveal_strlit("ATR");
    reveal_strlit("ARD");
    reveal_strlit("FLT");
    reveal_strlit("OBJ");
    reveal_strlit("POS");
    reveal_strlit("PRE");
    reveal_strlit("STA");
    assert(a.text()[0] == b.text()[0] && a.text()[1] == b.text()[1] && a.text()[2] == b.text()[2]
        ==> a == b);
}

proof fn lemma_word_leads(word: Seq<char>, rest: Seq<char>)
    requires
        word.len() > 0,
        forall|i: int| 0 <= i < word.len() ==> !text::is_space(#[trigger] word[i]),
        rest.len() == 0 || text::is_space(rest[0]),
    ensures
        text::word_run(word + rest) == word.len(),
        text::trimmed_start(word + rest) == word + rest,
        text::first_word(word + rest) == Some((word, rest)),
    decreases word.len(),
{
    let s = word + rest;
    assert(s[0] == word[0]);
    if word.len() > 1 {
        let short = word.skip(1);
        assert forall|i: int| 0 <= i < short.len() implies !text::is_space(#[trigger] short[i]) by {
            assert(short[i] == word[i + 1]);
        }
        lemma_word_leads(short, rest);
        assert(s.skip(1) =~= short + rest);
    } else {
        assert(s.skip(1) =~= rest);
        assert(text::word_run(rest) == 0);
    }
    assert(s.take(word.len() as int) =~= word);
    assert(s.skip(word.len() as int) =~= rest);
}

/// An answer that names the variable gives the number behind it.
pub proof fn law_answer_gives_the_number(var: Seq<char>, n: i32, rest: Seq<char>)
    requires
        var.len() > 0,
        forall|i: int| 0 <= i < var.len() ==> !text::is_space(#[trigger] var[i]),
        rest.len() == 0 || text::is_space(rest[0]),
    ensures
        value_in(var, var + seq![' '] + (text::signed_decimal(n as int) + rest)) == Ok::<
            i32,
            UrFault,
        >(n),
{
    let d = text::signed_decimal(n as int);
    let more = d + rest;
    let tail = seq![' '] + more;
    assert(var + seq![' '] + more =~= var + tail);
    lemma_word_leads(var, tail);
    let m: nat = if n < 0 {
        -n as nat
    } else {
        n as nat
    };
    text::lemma_decimal_is_digits(m);
    assert forall|i: int| 0 <= i < d.len() implies !text::is_space(#[trigger] d[i]) && d[i] != '?' by {
        if n < 0 && i > 0 {
            assert(d[i] == text::decimal(m)[i - 1]);
            assert(text::is_digit(text::decimal(m)[i - 1]));
        } else if n >= 0 {
            assert(text::is_digit(text::decimal(m)[i]));
        }
    }
    lemma_word_leads(d, rest);
    assert(tail.skip(1) =~= more);
    assert(text::trimmed_start(tail) == text::trimmed_start(more));
    assert(text::first_word(tail) == Some((d, rest)));
    text::lemma_signed_numeral_of_decimal(n as int, i32::MIN as int, i32::MAX as int);
}

/// An answer that names another variable is refused.
pub proof fn law_answer_must_name_the_variable(var: Seq<char>, other: Seq<char>, rest: Seq<char>)
    requires
        other != var,
        other.len() > 0,
        forall|i: int| 0 <= i < other.len() ==> !text::is_space(#[trigger] other[i]),
        rest.len() == 0 || text::is_space(rest[0]),
    ensures
        value_in(var, other + rest) is Err,
{
    lemma_word_leads(other, rest);
}

/// Settings are sent in order behind one word, each as its name and its number.
pub proof fn law_settings_are_sent_in_order(v: Seq<(Seq<char>, i32)>, name: Seq<char>, n: i32)
    ensures
        set_command(Seq::empty()) == "SET"@,
        set_command(v.push((name, n))) == set_command(v) + " "@ + name + " "@
            + text::signed_decimal(n as int),
{
    assert(v.push((name, n)).drop_last() =~= v);
    let a = settings_text(v);
    assert("SET"@ + settings_text(Seq::<(Seq<char>, i32)>::empty()) =~= "SET"@);
    assert("SET"@ + (a + " "@ + name + " "@ + text::signed_decimal(n as int)) =~= "SET"@ + a + " "@
        + name + " "@ + text::signed_decimal(n as int));
}

/// A speed or force below zero keeps what was set last; any other number counts,
/// zero of either sign among them.
pub proof fn law_negative_settings_keep_the_last(bits: u64, counts: i32, kept: i32)
    ensures
        asked(0, counts, kept) == counts,
        asked(0x8000_0000_0000_0000, counts, kept) == counts,
        bits < 0x8000_0000_0000_0000 ==> asked(bits, counts, kept) == counts,
        0x8000_0000_0000_0000 < bits <= 0xfff0_0000_0000_0000 ==> asked(bits, counts, kept) == kept,
{
}

/// Out of the box the user's units run from 0 to 1 and the whole stroke is used;
/// only positions in a unit of the user's count against the device.
pub proof fn law_units_out_of_the_box(c: GripperConfig, p: MoveParameter)
    ensures
        default_config().position_unit is Normalized && default_config().speed_unit is Normalized
            && default_config().force_unit is Normalized,
        default_config().min_position == 0 && default_config().max_position == 255,
        default_config().range_mm == 40,
        c.inverts(p) <==> p is Position && !(c.position_unit is Device),
        c.unit(MoveParameter::Position) == c.position_unit,
        c.unit(MoveParameter::Speed) == c.speed_unit,
        c.unit(MoveParameter::Force) == c.force_unit,
{
}

/// What a wait is called where it takes too long.
pub proof fn law_waits_have_their_names(p: i32)
    ensures
        Condition::IsReset.words() == "gripper reset"@,
        Condition::IsActivated.words() == "gripper activation"@,
        Condition::PositionAccepted(p).words() == "gripper to accept the commanded position"@,
        Condition::ReleaseStarted.words() == "gripper to start the emergency release"@,
        Condition::ReleaseFinished.words() == "gripper emergency release to finish"@,
        Condition::MotionEnded.words() == "gripper motion to finish"@,
{
}

/// What a failed calibration says: where it failed, and how the motion ended.
pub proof fn law_failed_calibration_says_where(status: ObjectStatus, e: UrFault)
    ensures
        calibration_moved(Calibration::Freeing, status) == Err::<Calibration, UrFault>(e) ==> e
            == UrFault::Protocol(
            "gripper calibration failed "@ + "to start"@ + " (object status "@
                + text::signed_decimal(status.number() as int) + ")"@,
        ),
        calibration_moved(Calibration::Closing, status) == Err::<Calibration, UrFault>(e) ==> e
            == UrFault::Protocol(
            "gripper calibration failed "@ + "while closing"@ + " (object status "@
                + text::signed_decimal(status.number() as int) + ")"@,
        ),
        calibration_moved(Calibration::Opening, status) == Err::<Calibration, UrFault>(e) ==> e
            == UrFault::Protocol(
            "gripper calibration failed "@ + "while opening"@ + " (object status "@
                + text::signed_decimal(status.number() as int) + ")"@,
        ),
{
}

} // verus!
