//! The output port: what a write to an output sends. The address of the
//! parameter is the channel.

use super::super::control as commands;
use super::super::io as outputs;
use super::super::rtde::{CommandType, PayloadView, RobotCommand};
use super::super::error::UrResult;
use super::{WriteError, WriteFault};
use crate::param::ParamType;
use crate::text;
use vstd::prelude::*;
use vstd::string::*;

verus! {

/// The number of channels.
pub const NUM_CHANNELS: usize = 8;

/// The parameters of the output port.
#[derive(Debug, Clone, Copy, PartialEq, Eq, Structural)]
pub enum IoParams {
    SpeedSlider,
    SetStandardDigitalOut,
    SetConfigDigitalOut,
    SetToolDigitalOut,
    SetVoltageAnalogOut,
    SetCurrentAnalogOut,
}

impl IoParams {
    /// The name under which a record finds the parameter.
    pub open spec fn text(self) -> Seq<char> {
        match self {
            IoParams::SpeedSlider => "SPEED_SLIDER"@,
            IoParams::SetStandardDigitalOut => "SET_STANDARD_DIGITAL_OUT"@,
            IoParams::SetConfigDigitalOut => "SET_CONFIG_DIGITAL_OUT"@,
            IoParams::SetToolDigitalOut => "SET_TOOL_DIGITAL_OUT"@,
            IoParams::SetVoltageAnalogOut => "SET_VOLTAGE_ANALOG_OUT"@,
            IoParams::SetCurrentAnalogOut => "SET_CURRENT_ANALOG_OUT"@,
        }
    }

    /// The name under which a record finds the parameter.
    pub fn name(self) -> (r: &'static str)
        ensures
            r@ == self.text(),
    {
        match self {
            IoParams::SpeedSlider => "SPEED_SLIDER",
            IoParams::SetStandardDigitalOut => "SET_STANDARD_DIGITAL_OUT",
            IoParams::SetConfigDigitalOut => "SET_CONFIG_DIGITAL_OUT",
            IoParams::SetToolDigitalOut => "SET_TOOL_DIGITAL_OUT",
            IoParams::SetVoltageAnalogOut => "SET_VOLTAGE_ANALOG_OUT",
            IoParams::SetCurrentAnalogOut => "SET_CURRENT_ANALOG_OUT",
        }
    }

    /// The type of the parameter.
    pub open spec fn kind(self) -> ParamType {
        match self {
            IoParams::SetStandardDigitalOut => ParamType::Int32,
            IoParams::SetConfigDigitalOut => ParamType::Int32,
            IoParams::SetToolDigitalOut => ParamType::Int32,
            _ => ParamType::Float64,
        }
    }

    /// The type of the parameter.
    pub fn param_type(self) -> (r: ParamType)
        ensures
            r == self.kind(),
    {
        match self {
            IoParams::SetStandardDigitalOut => ParamType::Int32,
            IoParams::SetConfigDigitalOut => ParamType::Int32,
            IoParams::SetToolDigitalOut => ParamType::Int32,
            _ => ParamType::Float64,
        }
    }

    /// All parameters, in the order in which they are created.
    pub fn create() -> (r: Vec<IoParams>)
        ensures
            r@ == all_params(),
    {
        let r: Vec<IoParams> = vec![
            IoParams::SpeedSlider,
            IoParams::SetStandardDigitalOut,
            IoParams::SetConfigDigitalOut,
            IoParams::SetToolDigitalOut,
            IoParams::SetVoltageAnalogOut,
            IoParams::SetCurrentAnalogOut,
        ];
        proof {
            assert(r@ =~= all_params());
        }
        r
    }
}

/// All parameters, in the order in which they are created.
pub open spec fn all_params() -> Seq<IoParams> {
    seq![
        IoParams::SpeedSlider,
        IoParams::SetStandardDigitalOut,
        IoParams::SetConfigDigitalOut,
        IoParams::SetToolDigitalOut,
        IoParams::SetVoltageAnalogOut,
        IoParams::SetCurrentAnalogOut,
    ]
}

/// Law: every parameter is created.
pub proof fn law_every_parameter_is_created(p: IoParams)
    ensures
        exists|i: int| 0 <= i < all_params().len() && #[trigger] all_params()[i] == p,
{
    let i: int = match p {
        IoParams::SpeedSlider => 0,
        IoParams::SetStandardDigitalOut => 1,
        IoParams::SetConfigDigitalOut => 2,
        IoParams::SetToolDigitalOut => 3,
        IoParams::SetVoltageAnalogOut => 4,
        IoParams::SetCurrentAnalogOut => 5,
    };
    assert(all_params()[i] == p);
}

/// What a write sends, if anything, or why it came to nothing.
pub open spec fn write_outcome(r: Result<Option<RobotCommand>, WriteError>) -> Result<
    Option<(u8, CommandType, PayloadView)>,
    WriteFault,
> {
    match r {
        Ok(Some(c)) => Ok(Some(commands::command_view(c))),
        Ok(None) => Ok(None),
        Err(e) => Err(e@),
    }
}

/// What a command that was made sends, or why it was not made.
pub open spec fn made(r: Result<(u8, CommandType, PayloadView), super::super::error::UrFault>) -> Result<
    Option<(u8, CommandType, PayloadView)>,
    WriteFault,
> {
    match r {
        Ok(c) => Ok(Some(c)),
        Err(e) => Err(WriteFault::Failed(e)),
    }
}

fn make(r: UrResult<RobotCommand>) -> (o: Result<Option<RobotCommand>, WriteError>)
    ensures
        write_outcome(o) == made(commands::command_outcome(r)),
{
    match r {
        Ok(c) => Ok(Some(c)),
        Err(e) => Err(WriteError::Failed(e)),
    }
}

/// `rest`, unless the channel or the link stands against it.
pub open spec fn gated(
    addr: i32,
    initialised: bool,
    rest: Result<Option<(u8, CommandType, PayloadView)>, WriteFault>,
) -> Result<Option<(u8, CommandType, PayloadView)>, WriteFault> {
    if !(0 <= addr <= 255) {
        Err(
            WriteFault::Refused(
                "I/O channel "@ + text::signed_decimal(addr as int) + " is out of range"@,
            ),
        )
    } else if !initialised {
        Err(WriteFault::Refused("the RTDE I/O interface is not initialised"@))
    } else {
        rest
    }
}

/// What a write of an integer sends: a digital output.
pub fn write_int32(p: IoParams, addr: i32, value: i32, initialised: bool) -> (r: Result<
    Option<RobotCommand>,
    WriteError,
>)
    ensures
        write_outcome(r) == gated(
            addr,
            initialised,
            match p {
                IoParams::SetStandardDigitalOut => made(
                    outputs::digital_command(
                        outputs::RECIPE_STD_DIGITAL_OUT,
                        CommandType::SetStdDigitalOut,
                        addr as u8,
                        value != 0,
                    ),
                ),
                IoParams::SetConfigDigitalOut => made(
                    outputs::digital_command(
                        outputs::RECIPE_CONF_DIGITAL_OUT,
                        CommandType::SetConfDigitalOut,
                        addr as u8,
                        value != 0,
                    ),
                ),
                IoParams::SetToolDigitalOut => made(
                    outputs::digital_command(
                        outputs::RECIPE_TOOL_DIGITAL_OUT,
                        CommandType::SetToolDigitalOut,
                        addr as u8,
                        value != 0,
                    ),
                ),
                _ => Ok(None),
            },
        ),
{
    if addr < 0 || addr > 255 {
        return Err(super::bad_address("I/O channel ", addr, " is out of range"));
    }
    if !initialised {
        return Err(super::refusal("the RTDE I/O interface is not initialised"));
    }
    let channel: u8 = addr as u8;
    let level = value != 0;
    match p {
        IoParams::SetStandardDigitalOut => make(outputs::set_standard_digital_out(channel, level)),
        IoParams::SetConfigDigitalOut => make(
            outputs::set_configurable_digital_out(channel, level),
        ),
        IoParams::SetToolDigitalOut => make(outputs::set_tool_digital_out(channel, level)),
        _ => Ok(None),
    }
}

/// What a write of a number sends: the speed slider or an analog output. The
/// number is held as its bits.
pub fn write_float64(p: IoParams, addr: i32, value: u64, initialised: bool) -> (r: Result<
    Option<RobotCommand>,
    WriteError,
>)
    ensures
        write_outcome(r) == gated(
            addr,
            initialised,
            match p {
                IoParams::SpeedSlider => Ok(
                    Some(
                        (
                            outputs::RECIPE_SPEED_SLIDER,
                            CommandType::SetSpeedSlider,
                            PayloadView::SpeedSlider { mask: 1, fraction: value },
                        ),
                    ),
                ),
                IoParams::SetVoltageAnalogOut => made(
                    outputs::analog_command(addr as u8, value, outputs::AnalogKind::Voltage),
                ),
                IoParams::SetCurrentAnalogOut => made(
                    outputs::analog_command(addr as u8, value, outputs::AnalogKind::Current),
                ),
                _ => Ok(None),
            },
        ),
{
    if addr < 0 || addr > 255 {
        return Err(super::bad_address("I/O channel ", addr, " is out of range"));
    }
    if !initialised {
        return Err(super::refusal("the RTDE I/O interface is not initialised"));
    }
    let channel: u8 = addr as u8;
    match p {
        IoParams::SpeedSlider => Ok(Some(outputs::set_speed_slider(value))),
        IoParams::SetVoltageAnalogOut => make(outputs::set_analog_output_voltage(channel, value)),
        IoParams::SetCurrentAnalogOut => make(outputs::set_analog_output_current(channel, value)),
        _ => Ok(None),
    }
}

/// The names under which records find the parameters.
pub proof fn law_parameters_have_their_names()
    ensures
        IoParams::SpeedSlider.text() == "SPEED_SLIDER"@,
        IoParams::SetStandardDigitalOut.text() == "SET_STANDARD_DIGITAL_OUT"@,
        IoParams::SetConfigDigitalOut.text() == "SET_CONFIG_DIGITAL_OUT"@,
        IoParams::SetToolDigitalOut.text() == "SET_TOOL_DIGITAL_OUT"@,
        IoParams::SetVoltageAnalogOut.text() == "SET_VOLTAGE_ANALOG_OUT"@,
        IoParams::SetCurrentAnalogOut.text() == "SET_CURRENT_ANALOG_OUT"@,
{
}

/// The kinds of value that the parameters hold.
pub proof fn law_parameters_have_their_kinds()
    ensures
        IoParams::SpeedSlider.kind() == ParamType::Float64,
        IoParams::SetStandardDigitalOut.kind() == ParamType::Int32,
        IoParams::SetConfigDigitalOut.kind() == ParamType::Int32,
        IoParams::SetToolDigitalOut.kind() == ParamType::Int32,
        IoParams::SetVoltageAnalogOut.kind() == ParamType::Float64,
        IoParams::SetCurrentAnalogOut.kind() == ParamType::Float64,
{
}

/// A write needs a channel that exists and an interface, in this order, and says
/// which is missing.
pub proof fn law_writes_need_a_channel_and_a_link(
    addr: i32,
    initialised: bool,
    rest: Result<Option<(u8, CommandType, PayloadView)>, WriteFault>,
)
    ensures
        addr < 0 || addr > 255 ==> gated(addr, initialised, rest) == Err::<
            Option<(u8, CommandType, PayloadView)>,
            WriteFault,
        >(
            WriteFault::Refused(
                "I/O channel "@ + text::signed_decimal(addr as int) + " is out of range"@,
            ),
        ),
        0 <= addr <= 255 && !initialised ==> gated(addr, initialised, rest) == Err::<
            Option<(u8, CommandType, PayloadView)>,
            WriteFault,
        >(WriteFault::Refused("the RTDE I/O interface is not initialised"@)),
        0 <= addr <= 255 && initialised ==> gated(addr, initialised, rest) == rest,
{
}

} // verus!
