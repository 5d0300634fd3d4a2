//! Errors raised by the UR interfaces.

use super::state;
use super::state::{DecodeError, DecodeFault};
use crate::ieee;
use crate::text;
use vstd::prelude::*;
use vstd::string::*;

verus! {

/// What can go wrong with any of the UR interfaces. Doubles are held as their
/// bits.
#[derive(Debug, Clone, PartialEq, Eq)]
pub enum UrError {
    Connect(String),
    NotConnected(String),
    Io(String),
    Protocol(String),
    Script(String),
    Decode(DecodeError),
    /// The robot answered a dashboard command with something other than the
    /// line that the command requires.
    Dashboard { command: String, reply: String },
    /// The controller does not know a requested variable.
    VariablesNotFound(String),
    /// Another fieldbus already owns an input register.
    InputRegistersInUse,
    /// Something did not happen within so many milliseconds.
    Timeout(u64, String),
    OutOfRange { value: u64, min: u64, max: u64 },
    /// The control script refused a command.
    CommandRefused { reason: RefusalReason },
}

/// What an error says.
pub enum UrFault {
    Connect(Seq<char>),
    NotConnected(Seq<char>),
    Io(Seq<char>),
    Protocol(Seq<char>),
    Script(Seq<char>),
    Decode(DecodeFault),
    Dashboard { command: Seq<char>, reply: Seq<char> },
    VariablesNotFound(Seq<char>),
    InputRegistersInUse,
    Timeout(u64, Seq<char>),
    OutOfRange { value: u64, min: u64, max: u64 },
    CommandRefused { reason: RefusalReason },
}

impl View for UrError {
    type V = UrFault;

    open spec fn view(&self) -> UrFault {
        match *self {
            UrError::Connect(s) => UrFault::Connect(s@),
            UrError::NotConnected(s) => UrFault::NotConnected(s@),
            UrError::Io(s) => UrFault::Io(s@),
            UrError::Protocol(s) => UrFault::Protocol(s@),
            UrError::Script(s) => UrFault::Script(s@),
            UrError::Decode(d) => UrFault::Decode(d@),
            UrError::Dashboard { command, reply } => UrFault::Dashboard {
                command: command@,
                reply: reply@,
            },
            UrError::VariablesNotFound(s) => UrFault::VariablesNotFound(s@),
            UrError::InputRegistersInUse => UrFault::InputRegistersInUse,
            UrError::Timeout(ms, s) => UrFault::Timeout(ms, s@),
            UrError::OutOfRange { value, min, max } => UrFault::OutOfRange { value, min, max },
            UrError::CommandRefused { reason } => UrFault::CommandRefused { reason },
        }
    }
}

/// The view of an outcome that carries nothing.
pub open spec fn unit_outcome(r: UrResult<()>) -> Result<(), UrFault> {
    match r {
        Ok(_) => Ok(()),
        Err(e) => Err(e@),
    }
}

/// Why the control script refused a command.
#[derive(Debug, Clone, Copy, PartialEq, Eq, Structural)]
pub enum RefusalReason {
    /// The program is stopped, or the control script is not running.
    NotRunning,
    /// A protective or emergency stop is active.
    SafetyStop,
    /// The script did not become ready, or did not finish, in time.
    Timeout,
}

impl RefusalReason {
    /// The reason in words.
    pub open spec fn words(self) -> Seq<char> {
        match self {
            RefusalReason::NotRunning => "the control script is not running"@,
            RefusalReason::SafetyStop => "a protective or emergency stop is active"@,
            RefusalReason::Timeout => "the control script did not respond in time"@,
        }
    }

    /// The reason in words.
    pub fn as_str(self) -> (r: &'static str)
        ensures
            r@ == self.words(),
    {
        match self {
            RefusalReason::NotRunning => "the control script is not running",
            RefusalReason::SafetyStop => "a protective or emergency stop is active",
            RefusalReason::Timeout => "the control script did not respond in time",
        }
    }
}

/// The result of an operation on a UR interface.
pub type UrResult<T> = Result<T, UrError>;

/// Three digits without the zeros at their end.
pub open spec fn thousandths(ms: nat) -> Seq<char> {
    if ms % 10 != 0 {
        seq![
            text::digit_char(ms / 100 % 10),
            text::digit_char(ms / 10 % 10),
            text::digit_char(ms % 10),
        ]
    } else if ms % 100 != 0 {
        seq![text::digit_char(ms / 100 % 10), text::digit_char(ms / 10 % 10)]
    } else {
        seq![text::digit_char(ms / 100 % 10)]
    }
}

/// A time in milliseconds, in the largest unit that has a whole part.
pub open spec fn duration_text(ms: nat) -> Seq<char> {
    if ms == 0 {
        "0ns"@
    } else if ms < 1000 {
        text::decimal(ms) + "ms"@
    } else if ms % 1000 == 0 {
        text::decimal(ms / 1000) + "s"@
    } else {
        text::decimal(ms / 1000) + "."@ + thousandths(ms % 1000) + "s"@
    }
}

/// The message of an error. That of a number out of range is left to the
/// caller, who can print the numbers.
pub open spec fn error_text(e: UrFault) -> Option<Seq<char>> {
    match e {
        UrFault::Connect(s) => Some("connect failed: "@ + s),
        UrFault::NotConnected(s) => Some(s + " is not connected"@),
        UrFault::Io(s) => Some("i/o error: "@ + s),
        UrFault::Protocol(s) => Some("protocol error: "@ + s),
        UrFault::Script(s) => Some("control script error: "@ + s),
        UrFault::Decode(d) => Some("RTDE data package: "@ + state::decode_error_text(d)),
        UrFault::Dashboard { command, reply } => Some(
            "dashboard command '"@ + command + "' failed: "@ + reply,
        ),
        UrFault::VariablesNotFound(s) => Some("controller does not provide RTDE variable(s): "@ + s),
        UrFault::InputRegistersInUse => Some(
            "an RTDE input register is already in use; disable the EtherNet/IP adapter, PROFINET or any MODBUS unit configured on the robot"@,
        ),
        UrFault::Timeout(ms, s) => Some(
            "timed out after "@ + duration_text(ms as nat) + ": "@ + s,
        ),
        UrFault::OutOfRange { .. } => None,
        UrFault::CommandRefused { reason } => Some("command refused: "@ + reason.words()),
    }
}

fn joined(a: &str, b: &str) -> (r: String)
    ensures
        r@ == a@ + b@,
{
    let mut out = a.to_owned();
    out.append(b);
    out
}

fn push_digit(out: &mut String, d: u64)
    requires
        d < 10,
    ensures
        final(out)@ == old(out)@.push(text::digit_char(d as nat)),
{
    out.push((48 + d as u8) as char);
}

fn push_duration(out: &mut String, ms: u64)
    ensures
        final(out)@ == old(out)@ + duration_text(ms as nat),
{
    let ghost before = out@;
    if ms == 0 {
        out.append("0ns");
    } else if ms < 1000 {
        text::push_decimal(out, ms);
        out.append("ms");
    } else {
        text::push_decimal(out, ms / 1000);
        let rest: u64 = ms % 1000;
        if rest > 0 {
            out.append(".");
            push_digit(out, rest / 100 % 10);
            if rest % 100 != 0 {
                push_digit(out, rest / 10 % 10);
                if rest % 10 != 0 {
                    push_digit(out, rest % 10);
                }
            }
        }
        out.append("s");
    }
    proof {
        assert(out@ =~= before + duration_text(ms as nat));
    }
}

impl UrError {
    /// The message that describes the error, unless it holds numbers that only
    /// the caller can print.
    pub fn message(&self) -> (r: Option<String>)
        ensures
            match r {
                Some(s) => error_text(self@) == Some(s@),
                None => error_text(self@) is None,
            },
    {
        match self {
            UrError::Connect(s) => Some(joined("connect failed: ", s.as_str())),
            UrError::NotConnected(s) => Some(joined(s.as_str(), " is not connected")),
            UrError::Io(s) => Some(joined("i/o error: ", s.as_str())),
            UrError::Protocol(s) => Some(joined("protocol error: ", s.as_str())),
            UrError::Script(s) => Some(joined("control script error: ", s.as_str())),
            UrError::Decode(d) => Some(joined("RTDE data package: ", d.message().as_str())),
            UrError::Dashboard { command, reply } => {
                let mut out = "dashboard command '".to_owned();
                out.append(command.as_str());
                out.append("' failed: ");
                out.append(reply.as_str());
                Some(out)
            },
            UrError::VariablesNotFound(s) => Some(
                joined("controller does not provide RTDE variable(s): ", s.as_str()),
            ),
            UrError::InputRegistersInUse => Some(
                "an RTDE input register is already in use; disable the EtherNet/IP adapter, PROFINET or any MODBUS unit configured on the robot".to_owned(),
            ),
            UrError::Timeout(ms, s) => {
                let mut out = "timed out after ".to_owned();
                push_duration(&mut out, *ms);
                out.append(": ");
                out.append(s.as_str());
                Some(out)
            },
            UrError::OutOfRange { .. } => None,
            UrError::CommandRefused { reason } => Some(joined("command refused: ", reason.as_str())),
        }
    }
}

/// Whether a double is a number between two others.
pub open spec fn within(value: u64, min: u64, max: u64) -> bool {
    ieee::at_most(min, value) && ieee::at_most(value, max)
}

/// Checks that a double is a number between two others.
pub fn verify_within(value: u64, min: u64, max: u64) -> (r: UrResult<()>)
    ensures
        if within(value, min, max) {
            r is Ok
        } else {
            r == Err::<(), UrError>(UrError::OutOfRange { value, min, max })
        },
{
    if ieee::le(min, value) && ieee::le(value, max) {
        Ok(())
    } else {
        Err(UrError::OutOfRange { value, min, max })
    }
}

/// The fraction of a second is written without trailing zeros, and spells the
/// milliseconds.
pub proof fn law_fraction_spells_the_milliseconds(ms: nat)
    requires
        0 < ms < 1000,
    ensures
        ({
            let t = thousandths(ms);
            let scale: nat = if t.len() == 1 {
                100
            } else if t.len() == 2 {
                10
            } else {
                1
            };
            &&& 1 <= t.len() <= 3
            &&& text::digits_value(t) * scale == ms
            &&& t.last() != '0'
        }),
{
    let t = thousandths(ms);
    reveal_with_fuel(text::digits_value, 4);
    assert(t.len() == 3 ==> t.drop_last().drop_last().drop_last().len() == 0);
    assert(t.len() == 2 ==> t.drop_last().drop_last().len() == 0);
    assert(t.len() == 1 ==> t.drop_last().len() == 0);
    if t.len() == 3 {
        assert(t.drop_last().last() == t[1]);
        assert(t.drop_last().drop_last().last() == t[0]);
    } else if t.len() == 2 {
        assert(t.drop_last().last() == t[0]);
    }
}

/// What each error says, with the text it carries in its place.
pub proof fn law_errors_say_what_failed(a: Seq<char>, b: Seq<char>)
    ensures
        error_text(UrFault::Connect(a)) == Some("connect failed: "@ + a),
        error_text(UrFault::NotConnected(a)) == Some(a + " is not connected"@),
        error_text(UrFault::Io(a)) == Some("i/o error: "@ + a),
        error_text(UrFault::Protocol(a)) == Some("protocol error: "@ + a),
        error_text(UrFault::Script(a)) == Some("control script error: "@ + a),
        error_text(UrFault::Dashboard { command: a, reply: b }) == Some(
            "dashboard command '"@ + a + "' failed: "@ + b,
        ),
        error_text(UrFault::VariablesNotFound(a)) == Some(
            "controller does not provide RTDE variable(s): "@ + a,
        ),
        error_text(UrFault::CommandRefused { reason: RefusalReason::NotRunning }) == Some(
            "command refused: "@ + "the control script is not running"@,
        ),
        error_text(UrFault::CommandRefused { reason: RefusalReason::SafetyStop }) == Some(
            "command refused: "@ + "a protective or emergency stop is active"@,
        ),
        error_text(UrFault::CommandRefused { reason: RefusalReason::Timeout }) == Some(
            "command refused: "@ + "the control script did not respond in time"@,
        ),
{
}

/// A number is within a range exactly where it is no smaller than the lower
/// and no greater than the upper end; what is not a number is in no range.
pub proof fn law_range_holds_its_ends(value: u64, min: u64, max: u64)
    requires
        !ieee::is_nan64(min) && !ieee::is_nan64(max),
    ensures
        within(value, min, max) ==> !ieee::is_nan64(value),
        !ieee::is_nan64(value) ==> (within(value, min, max) <==> ieee::order64(min)
            <= ieee::order64(value) <= ieee::order64(max)),
{
}

/// A duration is written in the unit that keeps it short.
pub proof fn law_durations_are_written_short(ms: nat)
    requires
        ms > 0,
    ensures
        ms < 1000 ==> duration_text(ms) == text::decimal(ms) + "ms"@,
        duration_text(ms * 1000) == text::decimal(ms) + "s"@,
        ms >= 1000 && ms % 1000 != 0 ==> duration_text(ms) == text::decimal(ms / 1000) + "."@
            + thousandths(ms % 1000) + "s"@,
        duration_text(0) == "0ns"@,
{
    assert(ms * 1000 % 1000 == 0 && ms * 1000 / 1000 == ms && ms * 1000 >= 1000);
}

} // verus!
