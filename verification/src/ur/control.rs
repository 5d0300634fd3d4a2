//! The command channel to the control script.
//!
//! The script waits on an input register for a command and answers on an
//! output register: 1 when it is ready for a command, 2 when it is done with
//! one. Commands are addressed by the number of an input recipe, which the
//! controller gives in the order of registration.

use super::error;
use super::error::{UrError, UrFault, UrResult};
use super::rtde;
use super::rtde::{CommandType, ControllerVersion, Payload, PayloadView, RobotCommand};
use crate::bytes;
use crate::text;
use vstd::prelude::*;
use vstd::string::*;

pub mod handshake;

verus! {

/// The script is ready for a command.
pub const CONTROLLER_RDY_FOR_CMD: i32 = 1;

/// The script is done with a command.
pub const CONTROLLER_DONE_WITH_CMD: i32 = 2;

/// How long a command may take, in milliseconds.
pub const EXECUTION_TIMEOUT_MS: u64 = 300_000;

/// How long the script may take to be ready, in milliseconds.
pub const GET_READY_TIMEOUT_MS: u64 = 3_000;

/// The pause between two looks at the script, in milliseconds.
pub const HANDSHAKE_POLL_MS: u64 = 1;

/// How long the script may take to start, in milliseconds.
pub const PROGRAM_RUNNING_TIMEOUT_MS: u64 = 5_000;

/// How long the first state may take, in milliseconds.
pub const FIRST_STATE_TIMEOUT_MS: u64 = 5_000;

/// The bits of 0.0.
pub const ZERO: u64 = 0;

/// The bits of 3.14, in radians per second. It is below half a turn, and so
/// is what the robot takes.
pub const JOINT_VELOCITY_MAX: u64 = 0x4009_1eb8_51eb_851f;

/// The bits of 40.0.
pub const JOINT_ACCELERATION_MAX: u64 = 0x4044_0000_0000_0000;

/// The bits of 3.0.
pub const TOOL_VELOCITY_MAX: u64 = 0x4008_0000_0000_0000;

/// The bits of 150.0.
pub const TOOL_ACCELERATION_MAX: u64 = 0x4062_c000_0000_0000;

/// The bits of 0.03.
pub const SERVO_LOOKAHEAD_TIME_MIN: u64 = 0x3f9e_b851_eb85_1eb8;

/// The bits of 0.2.
pub const SERVO_LOOKAHEAD_TIME_MAX: u64 = 0x3fc9_9999_9999_999a;

/// The bits of 100.0.
pub const SERVO_GAIN_MIN: u64 = 0x4059_0000_0000_0000;

/// The bits of 2000.0.
pub const SERVO_GAIN_MAX: u64 = 0x409f_4000_0000_0000;

/// The program runs.
pub const RUNTIME_PLAYING: u32 = 2;

/// The program stands.
pub const RUNTIME_STOPPED: u32 = 1;

/// The place of the protective stop in the safety word.
pub const SAFETY_BIT_PROTECTIVE_STOPPED: u32 = 2;

/// The place of the emergency stop in the safety word.
pub const SAFETY_BIT_EMERGENCY_STOPPED: u32 = 7;

/// The recipe of moves.
pub const RECIPE_ASYNC_SETP: u8 = 1;

/// The recipe of servo setpoints.
pub const RECIPE_SERVOJ: u8 = 2;

/// The recipe of the force mode.
pub const RECIPE_FORCE_MODE: u8 = 3;

/// The recipe of commands without fields.
pub const RECIPE_NO_CMD: u8 = 4;

/// The recipe of commands with one pose.
pub const RECIPE_WRENCH: u8 = 6;

/// The recipe of commands with one number.
pub const RECIPE_FORCE_MODE_PARAMETERS: u8 = 8;

/// The recipe of inverse kinematics with a seed.
pub const RECIPE_GET_INVERSE_KIN: u8 = 10;

/// The recipe of the watchdog.
pub const RECIPE_WATCHDOG: u8 = 11;

/// The recipe of speeds.
pub const RECIPE_SETP: u8 = 13;

/// The recipe of a move until contact.
pub const RECIPE_MOVE_UNTIL_CONTACT: u8 = 16;

/// The recipe of stops.
pub const RECIPE_STOP: u8 = 19;

/// The number of input recipes.
pub const RECIPE_COUNT: u8 = 23;

/// The status word of an asynchronous operation.
#[derive(Debug, Clone, Copy, PartialEq, Eq, Structural)]
pub struct AsyncOperationStatus(pub u32);

impl AsyncOperationStatus {
    /// The running bit.
    pub open spec fn runs(self) -> bool {
        self.0 / 0x8000 % 2 == 1
    }

    pub fn value(self) -> (r: u32)
        ensures
            r == self.0,
    {
        self.0
    }

    /// Whether an operation runs.
    pub fn is_running(self) -> (r: bool)
        ensures
            r == self.runs(),
    {
        self.0 / 0x8000 % 2 == 1
    }

    /// Counts the operations that were started.
    pub fn operation_id(self) -> (r: u32)
        ensures
            r == self.0 / 0x100_0000 % 0x80,
    {
        self.0 / 0x100_0000 % 0x80
    }

    /// Counts the changes of the status.
    pub fn change_count(self) -> (r: u32)
        ensures
            r == self.0 / 0x1_0000 % 0x100,
    {
        self.0 / 0x1_0000 % 0x100
    }

    /// The progress in percent, or -1 while nothing runs.
    pub fn progress(self) -> (r: i32)
        ensures
            r == if self.runs() {
                (self.0 % 0x8000) as int
            } else {
                -1int
            },
    {
        if self.is_running() {
            (self.0 % 0x8000) as i32
        } else {
            -1
        }
    }
}

/// Law: the fields of a status word do not overlap and leave out only the
/// highest bit.
pub proof fn law_status_word_is_its_fields(s: AsyncOperationStatus)
    ensures
        s.0 == s.0 / 0x8000_0000 * 0x8000_0000 + s.0 / 0x100_0000 % 0x80 * 0x100_0000 + s.0
            / 0x1_0000 % 0x100 * 0x1_0000 + s.0 / 0x8000 % 2 * 0x8000 + s.0 % 0x8000,
{
    assert(s.0 / 0x100_0000 == s.0 / 0x8000_0000 * 0x80 + s.0 / 0x100_0000 % 0x80);
    assert(s.0 / 0x1_0000 == s.0 / 0x100_0000 * 0x100 + s.0 / 0x1_0000 % 0x100);
    assert(s.0 / 0x8000 == s.0 / 0x1_0000 * 2 + s.0 / 0x8000 % 2);
}

/// Whether the safety word tells of a protective or an emergency stop.
pub open spec fn stopped_by_safety(bits: u32) -> bool {
    bits / 4 % 2 == 1 || bits / 128 % 2 == 1
}

/// Whether the safety word tells of a protective or an emergency stop.
pub fn is_stopped_by_safety(bits: u32) -> (r: bool)
    ensures
        r == stopped_by_safety(bits),
{
    bits / 4 % 2 == 1 || bits / 128 % 2 == 1
}

/// Which registers the script uses, on which controller.
#[derive(Debug, Clone, Copy, PartialEq, Eq, Structural)]
pub struct ControlInterface {
    pub version: ControllerVersion,
    pub use_upper_range_registers: bool,
}

/// The fields of an input recipe: integer registers from 0 on, double
/// registers from 0 on, perhaps integer register 1 once more at the end, and
/// perhaps the external force.
#[derive(Debug, Clone, Copy, PartialEq, Eq, Structural)]
pub struct Layout {
    pub ints: usize,
    pub doubles: usize,
    pub tail: bool,
    pub force: bool,
}

/// The layout with so many integer and double registers.
pub open spec fn plain(ints: usize, doubles: usize) -> Layout {
    Layout { ints, doubles, tail: false, force: false }
}

/// The layout of the input recipe with this number.
pub open spec fn layout(id: u8) -> Layout {
    match id {
        1 => Layout { tail: true, ..plain(1, 8) },
        2 => plain(1, 11),
        3 => plain(8, 18),
        4 => plain(1, 0),
        5 => plain(1, 9),
        6 => plain(1, 6),
        7 => plain(1, 4),
        8 => plain(1, 1),
        9 => plain(2, 0),
        10 => plain(1, 14),
        11 => plain(1, 0),
        12 => plain(1, 12),
        13 => plain(1, 8),
        14 => plain(1, 14),
        15 => plain(2, 0),
        16 => plain(1, 13),
        17 => plain(7, 6),
        18 => plain(2, 7),
        19 => Layout { tail: true, ..plain(1, 1) },
        20 => plain(1, 10),
        21 => Layout { tail: true, ..plain(1, 6) },
        22 => plain(1, 18),
        _ => Layout { force: true, ..plain(1, 0) },
    }
}

/// The number of bytes that a command on this recipe fills.
pub open spec fn width(l: Layout) -> nat {
    (4 * l.ints + 8 * l.doubles + (if l.tail {
        4int
    } else {
        0int
    }) + (if l.force {
        48int
    } else {
        0int
    })) as nat
}

fn plain_layout(ints: usize, doubles: usize) -> (r: Layout)
    ensures
        r == plain(ints, doubles),
{
    Layout { ints, doubles, tail: false, force: false }
}

/// The layout of the input recipe with this number.
pub fn layout_of(id: u8) -> (r: Layout)
    ensures
        r == layout(id),
{
    match id {
        1 => Layout { ints: 1, doubles: 8, tail: true, force: false },
        2 => plain_layout(1, 11),
        3 => plain_layout(8, 18),
        4 => plain_layout(1, 0),
        5 => plain_layout(1, 9),
        6 => plain_layout(1, 6),
        7 => plain_layout(1, 4),
        8 => plain_layout(1, 1),
        9 => plain_layout(2, 0),
        10 => plain_layout(1, 14),
        11 => plain_layout(1, 0),
        12 => plain_layout(1, 12),
        13 => plain_layout(1, 8),
        14 => plain_layout(1, 14),
        15 => plain_layout(2, 0),
        16 => plain_layout(1, 13),
        17 => plain_layout(7, 6),
        18 => plain_layout(2, 7),
        19 => Layout { ints: 1, doubles: 1, tail: true, force: false },
        20 => plain_layout(1, 10),
        21 => Layout { ints: 1, doubles: 6, tail: true, force: false },
        22 => plain_layout(1, 18),
        _ => Layout { ints: 1, doubles: 0, tail: false, force: true },
    }
}

/// The names of `n` registers from `first` on.
pub open spec fn registers(prefix: Seq<char>, first: int, n: nat) -> Seq<Seq<char>> {
    Seq::new(n, |i: int| prefix + text::signed_decimal(first + i))
}

/// The names of an input recipe.
pub open spec fn layout_names(l: Layout, offset: int) -> Seq<Seq<char>> {
    registers("input_int_register_"@, offset, l.ints as nat) + registers(
        "input_double_register_"@,
        offset,
        l.doubles as nat,
    ) + (if l.tail {
        registers("input_int_register_"@, offset + 1, 1)
    } else {
        Seq::empty()
    }) + (if l.force {
        seq!["external_force_torque"@]
    } else {
        Seq::empty()
    })
}

/// Appends the names of `n` registers from `first` on.
pub(crate) fn push_registers(out: &mut Vec<String>, prefix: &str, first: i32, n: usize)
    requires
        0 <= first <= 100,
        n <= 100,
    ensures
        text::texts(final(out)@) == text::texts(old(out)@) + registers(
            prefix@,
            first as int,
            n as nat,
        ),
{
    let ghost all = registers(prefix@, first as int, n as nat);
    let mut i: usize = 0;
    proof {
        assert(text::texts(out@) =~= text::texts(old(out)@) + all.take(0));
    }
    while i < n
        invariant
            i <= n <= 100,
            0 <= first <= 100,
            all == registers(prefix@, first as int, n as nat),
            text::texts(out@) == text::texts(old(out)@) + all.take(i as int),
        decreases n - i,
    {
        let mut name = prefix.to_owned();
        text::push_signed(&mut name, first as i64 + i as i64);
        let ghost before = out@;
        out.push(name);
        proof {
            assert(text::texts(out@) =~= text::texts(before).push(name@));
            assert(all.take(i + 1) =~= all.take(i as int).push(all[i as int]));
            assert(text::texts(out@) =~= text::texts(old(out)@) + all.take(i + 1));
        }
        i = i + 1;
    }
    proof {
        assert(all.take(n as int) =~= all);
    }
}

/// Whether the controller has the output registers that the handshake needs.
pub open spec fn registers_supported(version: ControllerVersion, upper: bool) -> bool {
    if version.major == 3 {
        version.minor >= if upper {
            9int
        } else {
            4int
        }
    } else {
        version.major >= 5 && (upper ==> version.minor >= 3)
    }
}

/// What is registered with the controller.
#[derive(Debug, Clone, PartialEq, Eq)]
pub struct Setup {
    pub outputs: Vec<String>,
    /// The bits of the frequency of the outputs.
    pub frequency: u64,
    pub inputs: Vec<Vec<String>>,
}

/// The names of the outputs.
pub open spec fn output_names(offset: int) -> Seq<Seq<char>> {
    seq!["timestamp"@, "robot_status_bits"@, "safety_status_bits"@, "runtime_state"@]
        + registers("output_int_register_"@, offset, 3) + registers(
        "output_double_register_"@,
        offset,
        6,
    )
}

/// The texts of a list of lists.
pub open spec fn text_lists(v: Seq<Vec<String>>) -> Seq<Seq<Seq<char>>> {
    v.map_values(|l: Vec<String>| text::texts(l@))
}

/// The names of all input recipes, in the order of their numbers.
pub open spec fn input_names(offset: int) -> Seq<Seq<Seq<char>>> {
    Seq::new(23, |i: int| layout_names(layout((i + 1) as u8), offset))
}

/// The message that the controller lacks registers.
pub open spec fn unsupported(version: ControllerVersion, upper: bool) -> Seq<char> {
    "PolyScope "@ + text::decimal(version.major as nat) + "."@ + text::decimal(version.minor as nat)
        + " does not provide the "@ + (if upper {
        "upper"@
    } else {
        "lower"@
    })
        + " range of RTDE output registers, which the control interface needs"@
}

impl ControlInterface {
    pub fn new(version: ControllerVersion, use_upper_range_registers: bool) -> (r: ControlInterface)
        ensures
            r.version == version,
            r.use_upper_range_registers == use_upper_range_registers,
    {
        ControlInterface { version, use_upper_range_registers }
    }

    pub fn controller_version(&self) -> (r: ControllerVersion)
        ensures
            r == self.version,
    {
        self.version
    }

    /// The number of the first register.
    pub open spec fn offset(self) -> i32 {
        if self.use_upper_range_registers {
            24
        } else {
            0
        }
    }

    /// The number of the first register.
    pub fn register_offset(&self) -> (r: i32)
        ensures
            r == self.offset(),
    {
        if self.use_upper_range_registers {
            24
        } else {
            0
        }
    }

    /// The names of an input recipe.
    pub fn recipe_names(&self, id: u8) -> (r: Vec<String>)
        ensures
            text::texts(r@) == layout_names(layout(id), self.offset() as int),
    {
        let l = layout_of(id);
        let first = self.register_offset();
        let mut r: Vec<String> = Vec::new();
        push_registers(&mut r, "input_int_register_", first, l.ints);
        push_registers(&mut r, "input_double_register_", first, l.doubles);
        if l.tail {
            push_registers(&mut r, "input_int_register_", first + 1, 1);
        }
        let ghost before = r@;
        if l.force {
            r.push("external_force_torque".to_owned());
            proof {
                assert(text::texts(r@) =~= text::texts(before) + seq!["external_force_torque"@]);
            }
        }
        proof {
            assert(text::texts(r@) =~= layout_names(layout(id), first as int));
        }
        r
    }

    /// What to register: the outputs, and every input recipe in the order of
    /// its number. A controller without the registers is an error.
    pub fn setup_recipes(&self) -> (r: UrResult<Setup>)
        ensures
            match r {
                Ok(s) => {
                    &&& registers_supported(self.version, self.use_upper_range_registers)
                    &&& text::texts(s.outputs@) == output_names(self.offset() as int)
                    &&& s.frequency == if self.version.major < 5 {
                        rtde::HZ_125
                    } else {
                        rtde::HZ_500
                    }
                    &&& text_lists(s.inputs@) == input_names(self.offset() as int)
                },
                Err(e) => {
                    &&& !registers_supported(self.version, self.use_upper_range_registers)
                    &&& e@ == UrFault::Protocol(
                        unsupported(self.version, self.use_upper_range_registers),
                    )
                },
            },
    {
        let upper = self.use_upper_range_registers;
        let v = self.version;
        let supported = if v.major == 3 {
            if upper {
                v.minor >= 9
            } else {
                v.minor >= 4
            }
        } else {
            v.major >= 5 && (!upper || v.minor >= 3)
        };
        if !supported {
            let mut m = "PolyScope ".to_owned();
            text::push_decimal(&mut m, v.major as u64);
            m.append(".");
            text::push_decimal(&mut m, v.minor as u64);
            m.append(" does not provide the ");
            if upper {
                m.append("upper");
            } else {
                m.append("lower");
            }
            m.append(" range of RTDE output registers, which the control interface needs");
            return Err(UrError::Protocol(m));
        }
        let mut outputs: Vec<String> = Vec::new();
        outputs.push("timestamp".to_owned());
        outputs.push("robot_status_bits".to_owned());
        outputs.push("safety_status_bits".to_owned());
        outputs.push("runtime_state".to_owned());
        proof {
            assert(text::texts(outputs@) =~= seq![
                "timestamp"@,
                "robot_status_bits"@,
                "safety_status_bits"@,
                "runtime_state"@,
            ]);
        }
        push_registers(&mut outputs, "output_int_register_", self.register_offset(), 3);
        push_registers(&mut outputs, "output_double_register_", self.register_offset(), 6);
        let ghost all = input_names(self.offset() as int);
        let mut inputs: Vec<Vec<String>> = Vec::new();
        let mut id: u8 = 1;
        while id <= RECIPE_COUNT
            invariant
                1 <= id <= 24,
                all == input_names(self.offset() as int),
                text_lists(inputs@) =~= all.take(id - 1),
            decreases 24 - id,
        {
            let names = self.recipe_names(id);
            let ghost before = inputs@;
            inputs.push(names);
            proof {
                assert(text_lists(inputs@) =~= text_lists(before).push(text::texts(names@)));
                assert(all.take(id as int) =~= all.take(id - 1).push(all[id - 1]));
            }
            id = id + 1;
        }
        proof {
            assert(all.take(23) =~= all);
        }
        Ok(Setup { outputs, frequency: rtde::default_frequency(v), inputs })
    }
}

/// Checks the number that the controller gave to the input recipe `expected`.
pub fn check_assigned(expected: u8, assigned: u8) -> (r: UrResult<()>)
    ensures
        error::unit_outcome(r) == if assigned == expected {
            Ok::<(), UrFault>(())
        } else {
            Err(
                UrFault::Protocol(
                    "controller assigned recipe id "@ + text::decimal(assigned as nat)
                        + " to input recipe "@ + text::decimal(expected as nat)
                        + "; the control interface addresses recipes positionally"@,
                ),
            )
        },
{
    if assigned == expected {
        return Ok(());
    }
    let mut m = "controller assigned recipe id ".to_owned();
    text::push_decimal(&mut m, assigned as u64);
    m.append(" to input recipe ");
    text::push_decimal(&mut m, expected as u64);
    m.append("; the control interface addresses recipes positionally");
    Err(UrError::Protocol(m))
}

/// `check`, and after it `rest`.
pub open spec fn checked<T>(value: u64, min: u64, max: u64, rest: Result<T, UrFault>) -> Result<
    T,
    UrFault,
> {
    if error::within(value, min, max) {
        rest
    } else {
        Err(UrFault::OutOfRange { value, min, max })
    }
}

/// A command as it is sent.
pub open spec fn command_view(c: RobotCommand) -> (u8, CommandType, PayloadView) {
    (c.recipe_id, c.command, c.payload@)
}

/// The command, or what stands against it.
pub open spec fn command_outcome(r: UrResult<RobotCommand>) -> Result<
    (u8, CommandType, PayloadView),
    UrFault,
> {
    match r {
        Ok(c) => Ok(command_view(c)),
        Err(e) => Err(e@),
    }
}

/// The numbers of a pose or of the joints.
pub fn six(q: &[u64; 6]) -> (r: Vec<u64>)
    ensures
        r@ == q@,
{
    let mut r: Vec<u64> = Vec::new();
    let mut i: usize = 0;
    while i < 6
        invariant
            i <= 6,
            r@ =~= q@.take(i as int),
        decreases 6 - i,
    {
        r.push(q[i]);
        i = i + 1;
    }
    proof {
        assert(q@.take(6) =~= q@);
    }
    r
}

/// Moves the joints.
pub fn move_j(q: &[u64; 6], speed: u64, acceleration: u64, asynchronous: bool) -> (r: UrResult<
    RobotCommand,
>)
    ensures
        command_outcome(r) == checked(
            speed,
            ZERO,
            JOINT_VELOCITY_MAX,
            checked(
                acceleration,
                ZERO,
                JOINT_ACCELERATION_MAX,
                Ok(
                    (
                        RECIPE_ASYNC_SETP,
                        CommandType::MoveJ,
                        PayloadView::VectorAsync {
                            val: q@.push(speed).push(acceleration),
                            asynchronous,
                        },
                    ),
                ),
            ),
        ),
{
    match error::verify_within(speed, ZERO, JOINT_VELOCITY_MAX) {
        Ok(_) => {},
        Err(e) => {
            return Err(e);
        },
    }
    match error::verify_within(acceleration, ZERO, JOINT_ACCELERATION_MAX) {
        Ok(_) => {},
        Err(e) => {
            return Err(e);
        },
    }
    let mut val = six(q);
    val.push(speed);
    val.push(acceleration);
    Ok(
        RobotCommand::new(
            RECIPE_ASYNC_SETP,
            CommandType::MoveJ,
            Payload::VectorAsync { val, asynchronous },
        ),
    )
}

/// Moves the tool in a straight line.
pub fn move_l(pose: &[u64; 6], speed: u64, acceleration: u64, asynchronous: bool) -> (r: UrResult<
    RobotCommand,
>)
    ensures
        command_outcome(r) == checked(
            speed,
            ZERO,
            TOOL_VELOCITY_MAX,
            checked(
                acceleration,
                ZERO,
                TOOL_ACCELERATION_MAX,
                Ok(
                    (
                        RECIPE_ASYNC_SETP,
                        CommandType::MoveL,
                        PayloadView::VectorAsync {
                            val: pose@.push(speed).push(acceleration),
                            asynchronous,
                        },
                    ),
                ),
            ),
        ),
{
    match error::verify_within(speed, ZERO, TOOL_VELOCITY_MAX) {
        Ok(_) => {},
        Err(e) => {
            return Err(e);
        },
    }
    match error::verify_within(acceleration, ZERO, TOOL_ACCELERATION_MAX) {
        Ok(_) => {},
        Err(e) => {
            return Err(e);
        },
    }
    let mut val = six(pose);
    val.push(speed);
    val.push(acceleration);
    Ok(
        RobotCommand::new(
            RECIPE_ASYNC_SETP,
            CommandType::MoveL,
            Payload::VectorAsync { val, asynchronous },
        ),
    )
}

/// Stops a motion of the joints.
pub fn stop_j(acceleration: u64, asynchronous: bool) -> (r: RobotCommand)
    ensures
        command_view(r) == (
            RECIPE_STOP,
            CommandType::StopJ,
            PayloadView::VectorAsync { val: seq![acceleration], asynchronous },
        ),
{
    let val: Vec<u64> = vec![acceleration];
    proof {
        assert(val@ =~= seq![acceleration]);
    }
    RobotCommand::new(RECIPE_STOP, CommandType::StopJ, Payload::VectorAsync { val, asynchronous })
}

/// Stops a straight motion of the tool.
pub fn stop_l(acceleration: u64, asynchronous: bool) -> (r: RobotCommand)
    ensures
        command_view(r) == (
            RECIPE_STOP,
            CommandType::StopL,
            PayloadView::VectorAsync { val: seq![acceleration], asynchronous },
        ),
{
    let val: Vec<u64> = vec![acceleration];
    proof {
        assert(val@ =~= seq![acceleration]);
    }
    RobotCommand::new(RECIPE_STOP, CommandType::StopL, Payload::VectorAsync { val, asynchronous })
}

/// Moves the tool at a speed.
pub fn speed_l(xd: &[u64; 6], acceleration: u64, time: u64) -> (r: UrResult<RobotCommand>)
    ensures
        command_outcome(r) == checked(
            acceleration,
            ZERO,
            TOOL_ACCELERATION_MAX,
            Ok(
                (
                    RECIPE_SETP,
                    CommandType::SpeedL,
                    PayloadView::Vector(xd@.push(acceleration).push(time)),
                ),
            ),
        ),
{
    match error::verify_within(acceleration, ZERO, TOOL_ACCELERATION_MAX) {
        Ok(_) => {},
        Err(e) => {
            return Err(e);
        },
    }
    let mut val = six(xd);
    val.push(acceleration);
    val.push(time);
    Ok(RobotCommand::new(RECIPE_SETP, CommandType::SpeedL, Payload::Vector(val)))
}

/// Ends a motion at a speed.
pub fn speed_stop(acceleration: u64) -> (r: RobotCommand)
    ensures
        command_view(r) == (
            RECIPE_FORCE_MODE_PARAMETERS,
            CommandType::SpeedStop,
            PayloadView::Vector(seq![acceleration]),
        ),
{
    let val: Vec<u64> = vec![acceleration];
    proof {
        assert(val@ =~= seq![acceleration]);
    }
    RobotCommand::new(
        RECIPE_FORCE_MODE_PARAMETERS,
        CommandType::SpeedStop,
        Payload::Vector(val),
    )
}

/// Sets the offset of the tool.
pub fn set_tcp(tcp_offset: &[u64; 6]) -> (r: RobotCommand)
    ensures
        command_view(r) == (RECIPE_WRENCH, CommandType::SetTcp, PayloadView::Vector(tcp_offset@)),
{
    RobotCommand::new(RECIPE_WRENCH, CommandType::SetTcp, Payload::Vector(six(tcp_offset)))
}

/// Whether a pose is within the safety limits: a question.
pub fn is_pose_within_safety_limits(pose: &[u64; 6]) -> (r: RobotCommand)
    ensures
        command_view(r) == (
            RECIPE_WRENCH,
            CommandType::IsPoseWithinSafetyLimits,
            PayloadView::Vector(pose@),
        ),
{
    RobotCommand::new(
        RECIPE_WRENCH,
        CommandType::IsPoseWithinSafetyLimits,
        Payload::Vector(six(pose)),
    )
}

/// Whether joints are within the safety limits: a question.
pub fn is_joints_within_safety_limits(q: &[u64; 6]) -> (r: RobotCommand)
    ensures
        command_view(r) == (
            RECIPE_WRENCH,
            CommandType::IsJointsWithinSafetyLimits,
            PayloadView::Vector(q@),
        ),
{
    RobotCommand::new(
        RECIPE_WRENCH,
        CommandType::IsJointsWithinSafetyLimits,
        Payload::Vector(six(q)),
    )
}

/// A command without fields.
pub open spec fn bare(command: CommandType) -> (u8, CommandType, PayloadView) {
    (RECIPE_NO_CMD, command, PayloadView::Empty)
}

fn bare_command(command: CommandType) -> (r: RobotCommand)
    ensures
        command_view(r) == bare(command),
{
    RobotCommand::new(RECIPE_NO_CMD, command, Payload::Empty)
}

/// Clears the command register.
pub fn clear_command() -> (r: RobotCommand)
    ensures
        command_view(r) == bare(CommandType::NoCmd),
{
    bare_command(CommandType::NoCmd)
}

/// Stops the control script.
pub fn stop_script() -> (r: RobotCommand)
    ensures
        command_view(r) == bare(CommandType::StopScript),
{
    bare_command(CommandType::StopScript)
}

/// Begins to follow the hand.
pub fn teach_mode() -> (r: RobotCommand)
    ensures
        command_view(r) == bare(CommandType::TeachMode),
{
    bare_command(CommandType::TeachMode)
}

/// Ends following the hand.
pub fn end_teach_mode() -> (r: RobotCommand)
    ensures
        command_view(r) == bare(CommandType::EndTeachMode),
{
    bare_command(CommandType::EndTeachMode)
}

/// Stops the robot protectively.
pub fn trigger_protective_stop() -> (r: RobotCommand)
    ensures
        command_view(r) == bare(CommandType::ProtectiveStop),
{
    bare_command(CommandType::ProtectiveStop)
}

/// Whether the robot stands still: a question.
pub fn is_steady() -> (r: RobotCommand)
    ensures
        command_view(r) == bare(CommandType::IsSteady),
{
    bare_command(CommandType::IsSteady)
}

/// A streamed or supporting command, whose type on the wire the caller knows.
#[derive(Debug, Clone, Copy, PartialEq, Eq, Structural)]
pub enum StreamCommand {
    ServoJ,
    SpeedJ,
    ServoStop,
    Watchdog,
    ForceMode,
    ForceModeStop,
    ZeroFtSensor,
    GetInverseKinematicsArgs,
    GetInverseKinematicsDefault,
    MoveUntilContact,
}

impl StreamCommand {
    /// Whether the command is a setpoint in a stream.
    pub open spec fn realtime(self) -> bool {
        self is ServoJ || self is SpeedJ || self is Watchdog || self is ForceMode
    }

    /// Whether the command is a setpoint in a stream: it is sent without a wait
    /// for its end, and the command register is left as it is.
    pub fn is_realtime(self) -> (r: bool)
        ensures
            r == self.realtime(),
    {
        match self {
            StreamCommand::ServoJ => true,
            StreamCommand::SpeedJ => true,
            StreamCommand::Watchdog => true,
            StreamCommand::ForceMode => true,
            _ => false,
        }
    }
}

/// The fields of a streamed command. Doubles are held as their bits.
#[derive(Debug, Clone, PartialEq, Eq)]
pub struct StreamRequest {
    pub recipe_id: u8,
    pub command: StreamCommand,
    /// The type of the force mode and the axes it is for.
    pub force_mode: Option<(i32, Vec<i32>)>,
    pub val: Vec<u64>,
}

/// The recipe, the command and the numbers of a request.
pub open spec fn request_view(r: StreamRequest) -> (u8, StreamCommand, Seq<u64>) {
    (r.recipe_id, r.command, r.val@)
}

/// The request, or what stands against it.
pub open spec fn request_outcome(r: UrResult<StreamRequest>) -> Result<
    (u8, StreamCommand, Seq<u64>),
    UrFault,
> {
    match r {
        Ok(q) => Ok(request_view(q)),
        Err(e) => Err(e@),
    }
}

fn request(recipe_id: u8, command: StreamCommand, val: Vec<u64>) -> (r: StreamRequest)
    ensures
        request_view(r) == (recipe_id, command, val@),
        r.force_mode is None,
{
    StreamRequest { recipe_id, command, force_mode: None, val }
}

/// Follows a joint setpoint. Speed and acceleration are checked, though the
/// controller does not use them.
pub fn servo_j(
    q: &[u64; 6],
    speed: u64,
    acceleration: u64,
    time: u64,
    lookahead_time: u64,
    gain: u64,
) -> (r: UrResult<StreamRequest>)
    ensures
        request_outcome(r) == checked(
            speed,
            ZERO,
            JOINT_VELOCITY_MAX,
            checked(
                acceleration,
                ZERO,
                JOINT_ACCELERATION_MAX,
                checked(
                    lookahead_time,
                    SERVO_LOOKAHEAD_TIME_MIN,
                    SERVO_LOOKAHEAD_TIME_MAX,
                    checked(
                        gain,
                        SERVO_GAIN_MIN,
                        SERVO_GAIN_MAX,
                        Ok(
                            (
                                RECIPE_SERVOJ,
                                StreamCommand::ServoJ,
                                q@ + seq![speed, acceleration, time, lookahead_time, gain],
                            ),
                        ),
                    ),
                ),
            ),
        ),
        r is Ok ==> r->Ok_0.force_mode is None,
{
    match error::verify_within(speed, ZERO, JOINT_VELOCITY_MAX) {
        Ok(_) => {},
        Err(e) => {
            return Err(e);
        },
    }
    match error::verify_within(acceleration, ZERO, JOINT_ACCELERATION_MAX) {
        Ok(_) => {},
        Err(e) => {
            return Err(e);
        },
    }
    match error::verify_within(lookahead_time, SERVO_LOOKAHEAD_TIME_MIN, SERVO_LOOKAHEAD_TIME_MAX) {
        Ok(_) => {},
        Err(e) => {
            return Err(e);
        },
    }
    match error::verify_within(gain, SERVO_GAIN_MIN, SERVO_GAIN_MAX) {
        Ok(_) => {},
        Err(e) => {
            return Err(e);
        },
    }
    let mut val = six(q);
    val.push(speed);
    val.push(acceleration);
    val.push(time);
    val.push(lookahead_time);
    val.push(gain);
    proof {
        assert(val@ =~= q@ + seq![speed, acceleration, time, lookahead_time, gain]);
    }
    Ok(request(RECIPE_SERVOJ, StreamCommand::ServoJ, val))
}

/// Moves the joints at a speed.
pub fn speed_j(qd: &[u64; 6], acceleration: u64, time: u64) -> (r: UrResult<StreamRequest>)
    ensures
        request_outcome(r) == checked(
            acceleration,
            ZERO,
            JOINT_ACCELERATION_MAX,
            Ok((RECIPE_SETP, StreamCommand::SpeedJ, qd@ + seq![acceleration, time])),
        ),
        r is Ok ==> r->Ok_0.force_mode is None,
{
    match error::verify_within(acceleration, ZERO, JOINT_ACCELERATION_MAX) {
        Ok(_) => {},
        Err(e) => {
            return Err(e);
        },
    }
    let mut val = six(qd);
    val.push(acceleration);
    val.push(time);
    proof {
        assert(val@ =~= qd@ + seq![acceleration, time]);
    }
    Ok(request(RECIPE_SETP, StreamCommand::SpeedJ, val))
}

/// Ends following joint setpoints.
pub fn servo_stop(acceleration: u64) -> (r: StreamRequest)
    ensures
        request_view(r) == (
            RECIPE_FORCE_MODE_PARAMETERS,
            StreamCommand::ServoStop,
            seq![acceleration],
        ),
        r.force_mode is None,
{
    let val: Vec<u64> = vec![acceleration];
    proof {
        assert(val@ =~= seq![acceleration]);
    }
    request(RECIPE_FORCE_MODE_PARAMETERS, StreamCommand::ServoStop, val)
}

/// Feeds the watchdog of the script.
pub fn kick_watchdog() -> (r: StreamRequest)
    ensures
        request_view(r) == (RECIPE_WATCHDOG, StreamCommand::Watchdog, Seq::<u64>::empty()),
        r.force_mode is None,
{
    request(RECIPE_WATCHDOG, StreamCommand::Watchdog, Vec::new())
}

/// Yields to forces along the selected axes.
pub fn force_mode(
    task_frame: &[u64; 6],
    selection_vector: &[i32; 6],
    wrench: &[u64; 6],
    force_mode_type: i32,
    limits: &[u64; 6],
) -> (r: StreamRequest)
    ensures
        request_view(r) == (
            RECIPE_FORCE_MODE,
            StreamCommand::ForceMode,
            task_frame@ + wrench@ + limits@,
        ),
        r.force_mode matches Some((t, axes)) && t == force_mode_type && axes@ == selection_vector@,
{
    let mut val = six(task_frame);
    let mut w = six(wrench);
    val.append(&mut w);
    let mut l = six(limits);
    val.append(&mut l);
    let mut axes: Vec<i32> = Vec::new();
    let mut i: usize = 0;
    while i < 6
        invariant
            i <= 6,
            axes@ =~= selection_vector@.take(i as int),
        decreases 6 - i,
    {
        axes.push(selection_vector[i]);
        i = i + 1;
    }
    proof {
        assert(selection_vector@.take(6) =~= selection_vector@);
        assert(val@ =~= task_frame@ + wrench@ + limits@);
    }
    StreamRequest {
        recipe_id: RECIPE_FORCE_MODE,
        command: StreamCommand::ForceMode,
        force_mode: Some((force_mode_type, axes)),
        val,
    }
}

/// Ends yielding to forces.
pub fn force_mode_stop() -> (r: StreamRequest)
    ensures
        request_view(r) == (RECIPE_NO_CMD, StreamCommand::ForceModeStop, Seq::<u64>::empty()),
        r.force_mode is None,
{
    request(RECIPE_NO_CMD, StreamCommand::ForceModeStop, Vec::new())
}

/// Zeroes the force sensor.
pub fn zero_ft_sensor() -> (r: StreamRequest)
    ensures
        request_view(r) == (RECIPE_NO_CMD, StreamCommand::ZeroFtSensor, Seq::<u64>::empty()),
        r.force_mode is None,
{
    request(RECIPE_NO_CMD, StreamCommand::ZeroFtSensor, Vec::new())
}

/// Asks for the joints of a pose. The error bounds reach the script only with
/// a seed.
pub fn get_inverse_kinematics(
    x: &[u64; 6],
    qnear: Option<&[u64; 6]>,
    max_position_error: u64,
    max_orientation_error: u64,
) -> (r: StreamRequest)
    ensures
        request_view(r) == match qnear {
            Some(near) => (
                RECIPE_GET_INVERSE_KIN,
                StreamCommand::GetInverseKinematicsArgs,
                x@ + near@ + seq![max_position_error, max_orientation_error],
            ),
            None => (RECIPE_WRENCH, StreamCommand::GetInverseKinematicsDefault, x@),
        },
        r.force_mode is None,
{
    match qnear {
        Some(near) => {
            let mut val = six(x);
            let mut n = six(near);
            val.append(&mut n);
            val.push(max_position_error);
            val.push(max_orientation_error);
            proof {
                assert(val@ =~= x@ + near@ + seq![max_position_error, max_orientation_error]);
            }
            request(RECIPE_GET_INVERSE_KIN, StreamCommand::GetInverseKinematicsArgs, val)
        },
        None => request(RECIPE_WRENCH, StreamCommand::GetInverseKinematicsDefault, six(x)),
    }
}

/// Moves the tool until it touches something.
pub fn move_until_contact(xd: &[u64; 6], direction: &[u64; 6], acceleration: u64) -> (r: UrResult<
    StreamRequest,
>)
    ensures
        request_outcome(r) == checked(
            acceleration,
            ZERO,
            TOOL_ACCELERATION_MAX,
            Ok(
                (
                    RECIPE_MOVE_UNTIL_CONTACT,
                    StreamCommand::MoveUntilContact,
                    xd@ + direction@ + seq![acceleration],
                ),
            ),
        ),
        r is Ok ==> r->Ok_0.force_mode is None,
{
    match error::verify_within(acceleration, ZERO, TOOL_ACCELERATION_MAX) {
        Ok(_) => {},
        Err(e) => {
            return Err(e);
        },
    }
    let mut val = six(xd);
    let mut d = six(direction);
    val.append(&mut d);
    val.push(acceleration);
    proof {
        assert(val@ =~= xd@ + direction@ + seq![acceleration]);
    }
    Ok(request(RECIPE_MOVE_UNTIL_CONTACT, StreamCommand::MoveUntilContact, val))
}

proof fn lemma_vector_len(v: Seq<u64>)
    ensures
        rtde::vector_bytes(v).len() == 8 * v.len(),
    decreases v.len(),
{
    if v.len() > 0 {
        lemma_vector_len(v.drop_last());
        bytes::lemma_be_len(v.last() as nat, 8);
    }
}

/// Law: a command fills exactly the registers of the recipe it is sent on: a
/// move fills recipe 1, a stop recipe 19, a pose recipe 6, a speed recipe 13, a
/// single number recipe 8, and a command without fields recipe 4.
pub proof fn law_command_fills_its_recipe(six: Seq<u64>, a: u64, b: u64, asynchronous: bool)
    requires
        six.len() == 6,
    ensures
        4 + rtde::payload_bytes(
            PayloadView::VectorAsync { val: six.push(a).push(b), asynchronous },
        ).len() == width(layout(RECIPE_ASYNC_SETP)),
        4 + rtde::payload_bytes(PayloadView::VectorAsync { val: seq![a], asynchronous }).len()
            == width(layout(RECIPE_STOP)),
        4 + rtde::payload_bytes(PayloadView::Vector(six)).len() == width(layout(RECIPE_WRENCH)),
        4 + rtde::payload_bytes(PayloadView::Vector(six.push(a).push(b))).len() == width(
            layout(RECIPE_SETP),
        ),
        4 + rtde::payload_bytes(PayloadView::Vector(seq![a])).len() == width(
            layout(RECIPE_FORCE_MODE_PARAMETERS),
        ),
        4 + rtde::payload_bytes(PayloadView::Empty).len() == width(layout(RECIPE_NO_CMD)),
{
    lemma_vector_len(six);
    lemma_vector_len(six.push(a).push(b));
    lemma_vector_len(seq![a]);
    bytes::lemma_be_len(1, 4);
    bytes::lemma_be_len(0, 4);
}

/// Law: every recipe begins with the command register, which the script waits
/// on.
pub proof fn law_recipes_begin_with_the_command(id: u8, offset: int)
    requires
        1 <= id <= RECIPE_COUNT,
    ensures
        layout_names(layout(id), offset).len() > 0,
        layout_names(layout(id), offset)[0] == "input_int_register_"@ + text::signed_decimal(
            offset,
        ),
{
    let l = layout(id);
    assert(layout_names(l, offset)[0] == registers(
        "input_int_register_"@,
        offset,
        l.ints as nat,
    )[0]);
}

/// The bytes of every recipe behind its number, as the script reads them: four
/// for each integer, eight for each double, and 48 for an external wrench.
pub proof fn law_recipes_have_their_widths()
    ensures
        width(layout(1)) == 72 && layout(1).ints == 1 && layout(1).doubles == 8,
        width(layout(2)) == 92 && layout(2).ints == 1 && layout(2).doubles == 11,
        width(layout(3)) == 176 && layout(3).ints == 8 && layout(3).doubles == 18,
        width(layout(4)) == 4 && layout(4).ints == 1 && layout(4).doubles == 0,
        width(layout(5)) == 76 && layout(5).ints == 1 && layout(5).doubles == 9,
        width(layout(6)) == 52 && layout(6).ints == 1 && layout(6).doubles == 6,
        width(layout(7)) == 36 && layout(7).ints == 1 && layout(7).doubles == 4,
        width(layout(8)) == 12 && layout(8).ints == 1 && layout(8).doubles == 1,
        width(layout(9)) == 8 && layout(9).ints == 2 && layout(9).doubles == 0,
        width(layout(10)) == 116 && layout(10).ints == 1 && layout(10).doubles == 14,
        width(layout(11)) == 4 && layout(11).ints == 1 && layout(11).doubles == 0,
        width(layout(12)) == 100 && layout(12).ints == 1 && layout(12).doubles == 12,
        width(layout(13)) == 68 && layout(13).ints == 1 && layout(13).doubles == 8,
        width(layout(14)) == 116 && layout(14).ints == 1 && layout(14).doubles == 14,
        width(layout(15)) == 8 && layout(15).ints == 2 && layout(15).doubles == 0,
        width(layout(16)) == 108 && layout(16).ints == 1 && layout(16).doubles == 13,
        width(layout(17)) == 76 && layout(17).ints == 7 && layout(17).doubles == 6,
        width(layout(18)) == 64 && layout(18).ints == 2 && layout(18).doubles == 7,
        width(layout(19)) == 16 && layout(19).ints == 1 && layout(19).doubles == 1,
        width(layout(20)) == 84 && layout(20).ints == 1 && layout(20).doubles == 10,
        width(layout(21)) == 56 && layout(21).ints == 1 && layout(21).doubles == 6,
        width(layout(22)) == 148 && layout(22).ints == 1 && layout(22).doubles == 18,
        width(layout(23)) == 52 && layout(23).ints == 1 && layout(23).doubles == 0,
{
}

/// The last name of a recipe is the one that its shape says: a trailing flag
/// goes to the integer register behind the command's, a wrench to its own
/// variable, and otherwise the registers are used without a gap.
pub proof fn law_recipe_names_are_consecutive(id: u8, offset: int, i: int)
    requires
        1 <= id <= 23,
        0 <= i < layout_names(layout(id), offset).len(),
    ensures
        ({
            let l = layout(id);
            let names = layout_names(l, offset);
            &&& names.len() == l.ints + l.doubles + (if l.tail {
                1int
            } else {
                0
            }) + (if l.force {
                1int
            } else {
                0
            })
            &&& i < l.ints ==> names[i] == "input_int_register_"@ + text::signed_decimal(offset + i)
            &&& l.ints <= i < l.ints + l.doubles ==> names[i] == "input_double_register_"@
                + text::signed_decimal(offset + i - l.ints)
            &&& l.tail ==> names.last() == "input_int_register_"@ + text::signed_decimal(offset + 1)
            &&& l.tail <==> id == 1 || id == 19 || id == 21
            &&& l.force <==> id == 23
            &&& l.force ==> names.last() == "external_force_torque"@
        }),
{
}

/// The lower registers came with 3.4, the upper ones with 3.9 and 5.3; every
/// version from 5.0 on has the lower ones.
pub proof fn law_registers_come_with_versions(v: ControllerVersion)
    ensures
        v.major == 3 ==> (registers_supported(v, false) <==> v.minor >= 4),
        v.major == 3 ==> (registers_supported(v, true) <==> v.minor >= 9),
        v.major >= 5 ==> registers_supported(v, false),
        v.major >= 5 ==> (registers_supported(v, true) <==> v.minor >= 3),
        v.major < 3 || v.major == 4 ==> !registers_supported(v, false) && !registers_supported(
            v,
            true,
        ),
        registers_supported(v, true) ==> registers_supported(v, false),
{
}

/// The bits of the safety status that stop a program: a protective stop and an
/// emergency stop, and no other.
pub proof fn law_two_safety_bits_stop(bits: u32)
    ensures
        stopped_by_safety(bits) <==> bits & 4 != 0 || bits & 128 != 0,
{
    assert((bits / 4 % 2 == 1 || bits / 128 % 2 == 1) <==> (bits & 4 != 0 || bits & 128 != 0))
        by (bit_vector);
}

/// What the setup asks the controller for: the clock, the three states, three
/// integers and six doubles of the script.
pub proof fn law_setup_asks_for_the_registers(offset: int)
    ensures
        output_names(offset).len() == 13,
        output_names(offset)[0] == "timestamp"@,
        output_names(offset)[1] == "robot_status_bits"@,
        output_names(offset)[2] == "safety_status_bits"@,
        output_names(offset)[3] == "runtime_state"@,
        forall|i: int|
            0 <= i < 3 ==> #[trigger] output_names(offset)[4 + i] == "output_int_register_"@
                + text::signed_decimal(offset + i),
        forall|i: int|
            0 <= i < 6 ==> #[trigger] output_names(offset)[7 + i] == "output_double_register_"@
                + text::signed_decimal(offset + i),
        input_names(offset).len() == 23,
        forall|i: int|
            0 <= i < 23 ==> #[trigger] input_names(offset)[i] == layout_names(
                layout((i + 1) as u8),
                offset,
            ),
{
}

} // verus!
