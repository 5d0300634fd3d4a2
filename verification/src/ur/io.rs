//! The outputs of the robot: digital and analog outputs, the speed slider, and
//! the input registers. Nothing is read here; each request is one package on
//! one of sixteen input recipes, which the controller numbers in the order of
//! registration.

use super::control;
use super::error;
use super::error::{UrError, UrFault, UrResult};
use super::rtde::{CommandType, Payload, PayloadView, RobotCommand};
use crate::ieee;
use crate::text;
use vstd::prelude::*;
use vstd::string::*;

verus! {

/// The register of the command, in the lower range.
pub const COMMAND_REGISTER: i32 = 23;

/// The first of the five input registers, in the lower range.
pub const FIRST_SLOT: i32 = 18;

/// The number of input registers.
pub const SLOTS: u8 = 5;

/// The recipe of the standard digital outputs.
pub const RECIPE_STD_DIGITAL_OUT: u8 = 2;

/// The recipe of the tool's digital outputs.
pub const RECIPE_TOOL_DIGITAL_OUT: u8 = 3;

/// The recipe of the speed slider.
pub const RECIPE_SPEED_SLIDER: u8 = 4;

/// The recipe of the analog outputs.
pub const RECIPE_STD_ANALOG_OUT: u8 = 5;

/// The recipe of the configurable digital outputs.
pub const RECIPE_CONF_DIGITAL_OUT: u8 = 6;

/// The first recipe of the integer input registers.
pub const RECIPE_INPUT_INT_BASE: u8 = 7;

/// The first recipe of the double input registers.
pub const RECIPE_INPUT_DOUBLE_BASE: u8 = 12;

/// The bits of 1.0.
pub const ONE: u64 = 0x3ff0_0000_0000_0000;

/// Which range of registers is used.
#[derive(Debug, Clone, Copy, PartialEq, Eq, Structural)]
pub struct IoInterface {
    pub use_upper_range_registers: bool,
}

/// The names of an input recipe, behind the command register.
pub open spec fn fields(id: int, offset: int) -> Seq<Seq<char>> {
    if id == 2 {
        seq!["standard_digital_output_mask"@, "standard_digital_output"@]
    } else if id == 3 {
        seq!["tool_digital_output_mask"@, "tool_digital_output"@]
    } else if id == 4 {
        seq!["speed_slider_mask"@, "speed_slider_fraction"@]
    } else if id == 5 {
        seq![
            "standard_analog_output_mask"@,
            "standard_analog_output_type"@,
            "standard_analog_output_0"@,
            "standard_analog_output_1"@,
        ]
    } else if id == 6 {
        seq!["configurable_digital_output_mask"@, "configurable_digital_output"@]
    } else if 7 <= id < 12 {
        control::registers("input_int_register_"@, offset + FIRST_SLOT + id - 7, 1)
    } else if 12 <= id {
        control::registers("input_double_register_"@, offset + FIRST_SLOT + id - 12, 1)
    } else {
        Seq::empty()
    }
}

/// The names of an input recipe.
pub open spec fn recipe(id: int, offset: int) -> Seq<Seq<char>> {
    control::registers("input_int_register_"@, offset + COMMAND_REGISTER, 1) + fields(id, offset)
}

/// The names of all input recipes, in the order of their numbers.
pub open spec fn recipes(offset: int) -> Seq<Seq<Seq<char>>> {
    Seq::new(16, |i: int| recipe(i + 1, offset))
}

/// What stands against a number outside a range.
pub open spec fn out_of_range(value: int, min: int, max: int) -> UrFault {
    UrFault::OutOfRange {
        value: ieee::double_of_int(value) as u64,
        min: ieee::double_of_int(min) as u64,
        max: ieee::double_of_int(max) as u64,
    }
}

fn range_error(value: i32, min: i32, max: i32) -> (r: UrError)
    ensures
        r@ == out_of_range(value as int, min as int, max as int),
{
    UrError::OutOfRange {
        value: ieee::from_signed(value as i128),
        min: ieee::from_signed(min as i128),
        max: ieee::from_signed(max as i128),
    }
}

fn push_text(out: &mut Vec<String>, name: &str)
    ensures
        text::texts(final(out)@) == text::texts(old(out)@).push(name@),
{
    out.push(name.to_owned());
    proof {
        assert(text::texts(out@) =~= text::texts(old(out)@).push(name@));
    }
}

impl IoInterface {
    pub fn new(use_upper_range_registers: bool) -> (r: IoInterface)
        ensures
            r.use_upper_range_registers == use_upper_range_registers,
    {
        IoInterface { use_upper_range_registers }
    }

    /// The number that the range begins with.
    pub open spec fn offset(self) -> i32 {
        if self.use_upper_range_registers {
            24
        } else {
            0
        }
    }

    fn register_offset(&self) -> (r: i32)
        ensures
            r == self.offset(),
    {
        if self.use_upper_range_registers {
            24
        } else {
            0
        }
    }

    /// The name of an integer register.
    pub fn in_int_reg(&self, reg: i32) -> (r: String)
        ensures
            r@ == "input_int_register_"@ + text::signed_decimal(self.offset() + reg),
    {
        let mut name = "input_int_register_".to_owned();
        text::push_signed(&mut name, self.register_offset() as i64 + reg as i64);
        name
    }

    /// The place of a register among the five.
    pub fn register_slot(&self, input_id: i32) -> (r: UrResult<u8>)
        ensures
            if self.offset() + 18 <= input_id <= self.offset() + 22 {
                r == Ok::<u8, UrError>((input_id - self.offset() - 18) as u8)
            } else {
                r is Err && r->Err_0@ == out_of_range(
                    input_id as int,
                    self.offset() + 18,
                    self.offset() + 22,
                )
            },
    {
        let first: i32 = self.register_offset() + FIRST_SLOT;
        if first <= input_id && input_id <= first + 4 {
            Ok((input_id - first) as u8)
        } else {
            Err(range_error(input_id, first, first + 4))
        }
    }

    fn recipe_names(&self, id: u8) -> (r: Vec<String>)
        requires
            1 <= id <= 16,
        ensures
            text::texts(r@) == recipe(id as int, self.offset() as int),
    {
        let first: i32 = self.register_offset();
        let mut r: Vec<String> = Vec::new();
        control::push_registers(&mut r, "input_int_register_", first + COMMAND_REGISTER, 1);
        if id == 2 {
            push_text(&mut r, "standard_digital_output_mask");
            push_text(&mut r, "standard_digital_output");
        } else if id == 3 {
            push_text(&mut r, "tool_digital_output_mask");
            push_text(&mut r, "tool_digital_output");
        } else if id == 4 {
            push_text(&mut r, "speed_slider_mask");
            push_text(&mut r, "speed_slider_fraction");
        } else if id == 5 {
            push_text(&mut r, "standard_analog_output_mask");
            push_text(&mut r, "standard_analog_output_type");
            push_text(&mut r, "standard_analog_output_0");
            push_text(&mut r, "standard_analog_output_1");
        } else if id == 6 {
            push_text(&mut r, "configurable_digital_output_mask");
            push_text(&mut r, "configurable_digital_output");
        } else if 7 <= id && id < 12 {
            control::push_registers(
                &mut r,
                "input_int_register_",
                first + FIRST_SLOT + (id as i32 - 7),
                1,
            );
        } else if 12 <= id {
            control::push_registers(
                &mut r,
                "input_double_register_",
                first + FIRST_SLOT + (id as i32 - 12),
                1,
            );
        }
        proof {
            assert(text::texts(r@) =~= recipe(id as int, first as int));
        }
        r
    }

    /// The names of the sixteen input recipes, in the order of registration.
    pub fn setup_recipes(&self) -> (r: Vec<Vec<String>>)
        ensures
            control::text_lists(r@) == recipes(self.offset() as int),
    {
        let ghost all = recipes(self.offset() as int);
        let mut r: Vec<Vec<String>> = Vec::new();
        let mut id: u8 = 1;
        while id <= 16
            invariant
                1 <= id <= 17,
                all == recipes(self.offset() as int),
                control::text_lists(r@) =~= all.take(id - 1),
            decreases 17 - id,
        {
            let names = self.recipe_names(id);
            let ghost before = r@;
            r.push(names);
            proof {
                assert(control::text_lists(r@) =~= control::text_lists(before).push(
                    text::texts(names@),
                ));
                assert(all.take(id as int) =~= all.take(id - 1).push(all[id - 1]));
            }
            id = id + 1;
        }
        proof {
            assert(all.take(16) =~= all);
        }
        r
    }

    /// Sets an integer input register.
    pub fn set_input_int_register(&self, input_id: i32, value: i32) -> (r: UrResult<RobotCommand>)
        ensures
            control::command_outcome(r) == if self.offset() + 18 <= input_id <= self.offset() + 22 {
                Ok(
                    (
                        (7 + input_id - self.offset() - 18) as u8,
                        CommandType::SetInputIntRegister,
                        PayloadView::InputIntRegister(value),
                    ),
                )
            } else {
                Err(out_of_range(input_id as int, self.offset() + 18, self.offset() + 22))
            },
    {
        match self.register_slot(input_id) {
            Ok(slot) => Ok(
                RobotCommand::new(
                    RECIPE_INPUT_INT_BASE + slot,
                    CommandType::SetInputIntRegister,
                    Payload::InputIntRegister(value),
                ),
            ),
            Err(e) => Err(e),
        }
    }

    /// Sets a double input register.
    pub fn set_input_double_register(&self, input_id: i32, value: u64) -> (r: UrResult<RobotCommand>)
        ensures
            control::command_outcome(r) == if self.offset() + 18 <= input_id <= self.offset() + 22 {
                Ok(
                    (
                        (12 + input_id - self.offset() - 18) as u8,
                        CommandType::SetInputDoubleRegister,
                        PayloadView::InputDoubleRegister(value),
                    ),
                )
            } else {
                Err(out_of_range(input_id as int, self.offset() + 18, self.offset() + 22))
            },
    {
        match self.register_slot(input_id) {
            Ok(slot) => Ok(
                RobotCommand::new(
                    RECIPE_INPUT_DOUBLE_BASE + slot,
                    CommandType::SetInputDoubleRegister,
                    Payload::InputDoubleRegister(value),
                ),
            ),
            Err(e) => Err(e),
        }
    }
}

/// A list of texts in quotes.
pub open spec fn quoted_all(names: Seq<Seq<char>>) -> Seq<Seq<char>> {
    names.map_values(|s: Seq<char>| text::quoted(s))
}

/// Checks the number that the controller gave to the input recipe `expected`.
pub fn check_assigned(expected: u8, assigned: u8, names: &Vec<String>) -> (r: UrResult<()>)
    ensures
        error::unit_outcome(r) == if assigned == expected {
            Ok::<(), UrFault>(())
        } else {
            Err(
                UrFault::Protocol(
                    "controller assigned recipe id "@ + text::decimal(assigned as nat)
                        + " to input recipe "@ + text::decimal(expected as nat) + " (["@
                        + text::join(quoted_all(text::texts(names@)), ", "@)
                        + "]); the interface addresses recipes positionally"@,
                ),
            )
        },
{
    if assigned == expected {
        return Ok(());
    }
    let ghost all = quoted_all(text::texts(names@));
    let mut parts: Vec<String> = Vec::new();
    let mut i: usize = 0;
    while i < names.len()
        invariant
            i <= names@.len(),
            all == quoted_all(text::texts(names@)),
            text::texts(parts@) =~= all.take(i as int),
        decreases names@.len() - i,
    {
        let q = text::quote(names[i].as_str());
        let ghost before = parts@;
        parts.push(q);
        proof {
            assert(text::texts(parts@) =~= text::texts(before).push(q@));
            assert(all.take(i + 1) =~= all.take(i as int).push(all[i as int]));
        }
        i = i + 1;
    }
    proof {
        assert(all.take(names@.len() as int) =~= all);
    }
    let mut m = "controller assigned recipe id ".to_owned();
    text::push_decimal(&mut m, assigned as u64);
    m.append(" to input recipe ");
    text::push_decimal(&mut m, expected as u64);
    m.append(" ([");
    m.append(text::join_texts(&parts, ", ").as_str());
    m.append("]); the interface addresses recipes positionally");
    Err(UrError::Protocol(m))
}

/// The byte with only this bit set.
pub open spec fn one_bit(n: nat) -> nat
    decreases n,
{
    if n == 0 {
        1
    } else {
        2 * one_bit((n - 1) as nat)
    }
}

/// The mask of an output. An output beyond the mask is an error, not a mask
/// that addresses nothing.
pub fn digital_mask(output_id: u8) -> (r: UrResult<u8>)
    ensures
        if output_id <= 7 {
            r is Ok && r->Ok_0 == one_bit(output_id as nat)
        } else {
            r is Err && r->Err_0@ == out_of_range(output_id as int, 0, 7)
        },
{
    if output_id > 7 {
        return Err(range_error(output_id as i32, 0, 7));
    }
    let mut mask: u8 = 1;
    let mut i: u8 = 0;
    while i < output_id
        invariant
            i <= output_id <= 7,
            mask == one_bit(i as nat),
        decreases output_id - i,
    {
        proof {
            reveal_with_fuel(one_bit, 9);
        }
        mask = mask * 2;
        i = i + 1;
    }
    Ok(mask)
}

/// The command that sets one digital output.
pub open spec fn digital_command(
    recipe_id: u8,
    command: CommandType,
    output_id: u8,
    level: bool,
) -> Result<(u8, CommandType, PayloadView), UrFault> {
    if output_id <= 7 {
        let mask = one_bit(output_id as nat) as u8;
        Ok(
            (
                recipe_id,
                command,
                PayloadView::DigitalOut {
                    mask,
                    value: if level {
                        mask
                    } else {
                        0
                    },
                },
            ),
        )
    } else {
        Err(out_of_range(output_id as int, 0, 7))
    }
}

fn digital_out(recipe_id: u8, command: CommandType, output_id: u8, level: bool) -> (r: UrResult<
    RobotCommand,
>)
    ensures
        control::command_outcome(r) == digital_command(recipe_id, command, output_id, level),
{
    match digital_mask(output_id) {
        Ok(mask) => Ok(
            RobotCommand::new(
                recipe_id,
                command,
                Payload::DigitalOut {
                    mask,
                    value: if level {
                        mask
                    } else {
                        0
                    },
                },
            ),
        ),
        Err(e) => Err(e),
    }
}

/// Sets a standard digital output.
pub fn set_standard_digital_out(output_id: u8, level: bool) -> (r: UrResult<RobotCommand>)
    ensures
        control::command_outcome(r) == digital_command(
            RECIPE_STD_DIGITAL_OUT,
            CommandType::SetStdDigitalOut,
            output_id,
            level,
        ),
{
    digital_out(RECIPE_STD_DIGITAL_OUT, CommandType::SetStdDigitalOut, output_id, level)
}

/// Sets a configurable digital output.
pub fn set_configurable_digital_out(output_id: u8, level: bool) -> (r: UrResult<RobotCommand>)
    ensures
        control::command_outcome(r) == digital_command(
            RECIPE_CONF_DIGITAL_OUT,
            CommandType::SetConfDigitalOut,
            output_id,
            level,
        ),
{
    digital_out(RECIPE_CONF_DIGITAL_OUT, CommandType::SetConfDigitalOut, output_id, level)
}

/// Sets a digital output of the tool.
pub fn set_tool_digital_out(output_id: u8, level: bool) -> (r: UrResult<RobotCommand>)
    ensures
        control::command_outcome(r) == digital_command(
            RECIPE_TOOL_DIGITAL_OUT,
            CommandType::SetToolDigitalOut,
            output_id,
            level,
        ),
{
    digital_out(RECIPE_TOOL_DIGITAL_OUT, CommandType::SetToolDigitalOut, output_id, level)
}

/// Sets the speed slider.
pub fn set_speed_slider(fraction: u64) -> (r: RobotCommand)
    ensures
        control::command_view(r) == (
            RECIPE_SPEED_SLIDER,
            CommandType::SetSpeedSlider,
            PayloadView::SpeedSlider { mask: 1, fraction },
        ),
{
    RobotCommand::new(
        RECIPE_SPEED_SLIDER,
        CommandType::SetSpeedSlider,
        Payload::SpeedSlider { mask: 1, fraction },
    )
}

/// What an analog output gives.
#[derive(Debug, Clone, Copy, PartialEq, Eq, Structural)]
pub enum AnalogKind {
    Voltage,
    Current,
}

/// The command that sets an analog output. The channel that is not addressed
/// is zero.
pub open spec fn analog_command(output_id: u8, ratio: u64, kind: AnalogKind) -> Result<
    (u8, CommandType, PayloadView),
    UrFault,
> {
    if !error::within(ratio, control::ZERO, ONE) {
        Err(UrFault::OutOfRange { value: ratio, min: control::ZERO, max: ONE })
    } else if output_id > 7 {
        Err(out_of_range(output_id as int, 0, 7))
    } else if output_id > 1 {
        Err(out_of_range(output_id as int, 0, 1))
    } else {
        let mask = one_bit(output_id as nat) as u8;
        Ok(
            (
                RECIPE_STD_ANALOG_OUT,
                CommandType::SetStdAnalogOut,
                PayloadView::AnalogOut {
                    mask,
                    output_type: if kind is Voltage {
                        mask
                    } else {
                        0
                    },
                    ch0: if output_id == 0 {
                        ratio
                    } else {
                        control::ZERO
                    },
                    ch1: if output_id == 1 {
                        ratio
                    } else {
                        control::ZERO
                    },
                },
            ),
        )
    }
}

/// Sets an analog output.
pub fn analog_out(output_id: u8, ratio: u64, kind: AnalogKind) -> (r: UrResult<RobotCommand>)
    ensures
        control::command_outcome(r) == analog_command(output_id, ratio, kind),
{
    match error::verify_within(ratio, control::ZERO, ONE) {
        Ok(_) => {},
        Err(e) => {
            return Err(e);
        },
    }
    let mask = match digital_mask(output_id) {
        Ok(m) => m,
        Err(e) => {
            return Err(e);
        },
    };
    let output_type: u8 = match kind {
        AnalogKind::Voltage => mask,
        AnalogKind::Current => 0,
    };
    if output_id > 1 {
        return Err(range_error(output_id as i32, 0, 1));
    }
    let (ch0, ch1) = if output_id == 0 {
        (ratio, control::ZERO)
    } else {
        (control::ZERO, ratio)
    };
    Ok(
        RobotCommand::new(
            RECIPE_STD_ANALOG_OUT,
            CommandType::SetStdAnalogOut,
            Payload::AnalogOut { mask, output_type, ch0, ch1 },
        ),
    )
}

/// Sets the voltage of an analog output.
pub fn set_analog_output_voltage(output_id: u8, ratio: u64) -> (r: UrResult<RobotCommand>)
    ensures
        control::command_outcome(r) == analog_command(output_id, ratio, AnalogKind::Voltage),
{
    analog_out(output_id, ratio, AnalogKind::Voltage)
}

/// Sets the current of an analog output.
pub fn set_analog_output_current(output_id: u8, ratio: u64) -> (r: UrResult<RobotCommand>)
    ensures
        control::command_outcome(r) == analog_command(output_id, ratio, AnalogKind::Current),
{
    analog_out(output_id, ratio, AnalogKind::Current)
}

proof fn lemma_one_bit_monotone(a: nat, b: nat)
    requires
        a <= b,
    ensures
        0 < one_bit(a) <= one_bit(b),
        a < b ==> one_bit(a) < one_bit(b),
    decreases b,
{
    if b > 0 {
        if a < b {
            lemma_one_bit_monotone(a, (b - 1) as nat);
        } else {
            lemma_one_bit_monotone((a - 1) as nat, (b - 1) as nat);
        }
    }
}

/// Law: a digital command always addresses an output, and two different
/// outputs have different masks.
pub proof fn law_masks_address_one_output(a: u8, b: u8)
    requires
        a <= 7,
        b <= 7,
        a != b,
    ensures
        0 < one_bit(a as nat) <= 128,
        one_bit(a as nat) != one_bit(b as nat),
{
    assert(one_bit(7) == 128) by {
        reveal_with_fuel(one_bit, 9);
    }
    lemma_one_bit_monotone(a as nat, 7);
    if a < b {
        lemma_one_bit_monotone(a as nat, b as nat);
    } else {
        lemma_one_bit_monotone(b as nat, a as nat);
    }
}

/// Law: the recipe on which a register is set is the one that holds that
/// register.
pub proof fn law_register_recipe_holds_the_register(input_id: int, offset: int)
    requires
        offset + 18 <= input_id <= offset + 22,
    ensures
        recipe(7 + input_id - offset - 18, offset)[1] == "input_int_register_"@
            + text::signed_decimal(input_id),
        recipe(12 + input_id - offset - 18, offset)[1] == "input_double_register_"@
            + text::signed_decimal(input_id),
{
}

/// The bit of each of the eight outputs.
pub proof fn law_output_bits()
    ensures
        one_bit(0) == 1,
        one_bit(1) == 2,
        one_bit(2) == 4,
        one_bit(3) == 8,
        one_bit(4) == 16,
        one_bit(5) == 32,
        one_bit(6) == 64,
        one_bit(7) == 128,
{
    reveal_with_fuel(one_bit, 9);
}

/// A controller that takes the masked bits over sets exactly the output that was
/// named, to the level that was asked, and keeps the seven others.
pub proof fn law_digital_command_sets_one_output(
    recipe_id: u8,
    command: CommandType,
    output_id: u8,
    level: bool,
    outputs: u8,
    k: u8,
)
    requires
        output_id <= 7,
        k <= 7,
    ensures
        digital_command(recipe_id, command, output_id, level) matches Ok(c) && c.0 == recipe_id
            && c.1 == command && (c.2 matches PayloadView::DigitalOut { mask, value } && ({
            let after = (outputs & !mask) | (value & mask);
            ((after >> k) & 1 == 1) == if k == output_id {
                level
            } else {
                (outputs >> k) & 1 == 1
            }
        })),
{
    law_output_bits();
    let mask: u8 = one_bit(output_id as nat) as u8;
    let value: u8 = if level {
        mask
    } else {
        0
    };
    assert(mask == 1u8 << output_id) by {
        assert(1u8 << 0u8 == 1u8 && 1u8 << 1u8 == 2u8 && 1u8 << 2u8 == 4u8 && 1u8 << 3u8 == 8u8
            && 1u8 << 4u8 == 16u8 && 1u8 << 5u8 == 32u8 && 1u8 << 6u8 == 64u8 && 1u8 << 7u8
            == 128u8) by (bit_vector);
    }
    assert(((((outputs & !mask) | (value & mask)) >> k) & 1 == 1) == (if k == output_id {
        level
    } else {
        (outputs >> k) & 1 == 1
    })) by (bit_vector)
        requires
            mask == 1u8 << output_id,
            value == (if level {
                mask
            } else {
                0u8
            }),
            output_id <= 7,
            k <= 7,
    ;
}

/// Only outputs 0 to 7 exist.
pub proof fn law_digital_output_must_exist(
    recipe_id: u8,
    command: CommandType,
    output_id: u8,
    level: bool,
)
    ensures
        digital_command(recipe_id, command, output_id, level) is Ok <==> output_id <= 7,
{
}

/// An analog command carries its ratio in the channel that was named, and the
/// mask and the kind of that channel alone.
pub proof fn law_analog_command_sets_one_channel(output_id: u8, ratio: u64, kind: AnalogKind)
    ensures
        analog_command(output_id, ratio, kind) is Ok <==> output_id <= 1 && error::within(
            ratio,
            0,
            0x3ff0_0000_0000_0000,
        ),
        analog_command(output_id, ratio, kind) matches Ok(c) ==> c.0 == 5 && c.1
            == CommandType::SetStdAnalogOut && (c.2 matches PayloadView::AnalogOut {
            mask,
            output_type,
            ch0,
            ch1,
        } && {
            &&& mask == 1 + output_id
            &&& output_type == if kind is Voltage {
                mask
            } else {
                0
            }
            &&& (if output_id == 0 {
                ch0
            } else {
                ch1
            }) == ratio
            &&& (if output_id == 0 {
                ch1
            } else {
                ch0
            }) == 0
        }),
{
    law_output_bits();
}

/// What each recipe holds behind the command: a mask before its values.
pub proof fn law_recipes_hold_their_fields(offset: int)
    ensures
        forall|id: int|
            #[trigger] recipe(id, offset).len() > 0 && recipe(id, offset)[0]
                == "input_int_register_"@ + text::signed_decimal(offset + 23),
        recipes(offset).len() == 16,
        forall|id: int| 1 <= id <= 16 ==> recipes(offset)[id - 1] == #[trigger] recipe(id, offset),
        recipe(1, offset).len() == 1,
        recipe(2, offset).skip(1) == seq![
            "standard_digital_output_mask"@,
            "standard_digital_output"@,
        ],
        recipe(3, offset).skip(1) == seq!["tool_digital_output_mask"@, "tool_digital_output"@],
        recipe(4, offset).skip(1) == seq!["speed_slider_mask"@, "speed_slider_fraction"@],
        recipe(5, offset).skip(1) == seq![
            "standard_analog_output_mask"@,
            "standard_analog_output_type"@,
            "standard_analog_output_0"@,
            "standard_analog_output_1"@,
        ],
        recipe(6, offset).skip(1) == seq![
            "configurable_digital_output_mask"@,
            "configurable_digital_output"@,
        ],
{
    assert(recipe(2, offset).skip(1) =~= fields(2, offset));
    assert(recipe(3, offset).skip(1) =~= fields(3, offset));
    assert(recipe(4, offset).skip(1) =~= fields(4, offset));
    assert(recipe(5, offset).skip(1) =~= fields(5, offset));
    assert(recipe(6, offset).skip(1) =~= fields(6, offset));
}

} // verus!
