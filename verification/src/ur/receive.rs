//! Which variables the state of the robot is asked for.

use super::control;
use super::rtde::ControllerVersion;
use super::state;
use crate::text;
use vstd::prelude::*;
use vstd::string::*;

verus! {

/// The variables that every controller has.
pub open spec fn base_variables() -> Seq<Seq<char>> {
    seq![
        "timestamp"@,
        "target_q"@,
        "target_qd"@,
        "target_qdd"@,
        "target_current"@,
        "target_moment"@,
        "actual_q"@,
        "actual_qd"@,
        "actual_current"@,
        "joint_control_output"@,
        "actual_TCP_pose"@,
        "actual_TCP_speed"@,
        "actual_TCP_force"@,
        "target_TCP_pose"@,
        "target_TCP_speed"@,
        "actual_digital_input_bits"@,
        "joint_temperatures"@,
        "actual_execution_time"@,
        "robot_mode"@,
        "joint_mode"@,
        "safety_mode"@,
        "actual_tool_accelerometer"@,
        "speed_scaling"@,
        "target_speed_fraction"@,
        "actual_momentum"@,
        "actual_main_voltage"@,
        "actual_robot_voltage"@,
        "actual_robot_current"@,
        "actual_joint_voltage"@,
        "actual_digital_output_bits"@,
        "runtime_state"@,
        "standard_analog_input0"@,
        "standard_analog_input1"@,
        "standard_analog_output0"@,
        "standard_analog_output1"@,
        "robot_status_bits"@,
        "safety_status_bits"@,
    ]
}

/// The variables that every controller has.
pub fn base() -> (r: Vec<String>)
    ensures
        text::texts(r@) == base_variables(),
{
    let r: Vec<String> = vec![
        "timestamp".to_owned(),
        "target_q".to_owned(),
        "target_qd".to_owned(),
        "target_qdd".to_owned(),
        "target_current".to_owned(),
        "target_moment".to_owned(),
        "actual_q".to_owned(),
        "actual_qd".to_owned(),
        "actual_current".to_owned(),
        "joint_control_output".to_owned(),
        "actual_TCP_pose".to_owned(),
        "actual_TCP_speed".to_owned(),
        "actual_TCP_force".to_owned(),
        "target_TCP_pose".to_owned(),
        "target_TCP_speed".to_owned(),
        "actual_digital_input_bits".to_owned(),
        "joint_temperatures".to_owned(),
        "actual_execution_time".to_owned(),
        "robot_mode".to_owned(),
        "joint_mode".to_owned(),
        "safety_mode".to_owned(),
        "actual_tool_accelerometer".to_owned(),
        "speed_scaling".to_owned(),
        "target_speed_fraction".to_owned(),
        "actual_momentum".to_owned(),
        "actual_main_voltage".to_owned(),
        "actual_robot_voltage".to_owned(),
        "actual_robot_current".to_owned(),
        "actual_joint_voltage".to_owned(),
        "actual_digital_output_bits".to_owned(),
        "runtime_state".to_owned(),
        "standard_analog_input0".to_owned(),
        "standard_analog_input1".to_owned(),
        "standard_analog_output0".to_owned(),
        "standard_analog_output1".to_owned(),
        "robot_status_bits".to_owned(),
        "safety_status_bits".to_owned(),
    ];
    proof {
        assert(text::texts(r@) =~= base_variables());
    }
    r
}

/// Whether a version is at least `major.minor`.
pub open spec fn at_least_version(v: ControllerVersion, major: u32, minor: u32) -> bool {
    v.major > major || (v.major == major && v.minor >= minor)
}

/// Whether a version is at least `major.minor`.
pub fn at_least(v: ControllerVersion, major: u32, minor: u32) -> (r: bool)
    ensures
        r == at_least_version(v, major, minor),
{
    v.major > major || (v.major == major && v.minor >= minor)
}

/// Whether a controller has the output registers. The lower range came with
/// 3.4, and every later generation has it; the upper range came with 3.9 and
/// with 5.3.
pub open spec fn has_registers(v: ControllerVersion, upper: bool) -> bool {
    if upper {
        (v.major == 3 && v.minor >= 9) || (v.major >= 5 && v.minor >= 3)
    } else {
        at_least_version(v, 3, 4)
    }
}

/// Whether a controller has the output registers.
pub fn registers_supported(v: ControllerVersion, upper: bool) -> (r: bool)
    ensures
        r == has_registers(v, upper),
{
    if upper {
        (v.major == 3 && v.minor >= 9) || (v.major >= 5 && v.minor >= 3)
    } else {
        at_least(v, 3, 4)
    }
}

/// `v` if `b`, else nothing.
pub open spec fn only_if(b: bool, v: Seq<Seq<char>>) -> Seq<Seq<char>> {
    if b {
        v
    } else {
        Seq::empty()
    }
}

/// Whether a controller knows the payload.
pub open spec fn has_payload(v: ControllerVersion) -> bool {
    (v.major == 3 && v.minor >= 11) || (v.major == 5 && v.minor >= 5 && v.bugfix >= 1) || (v.major
        == 5 && v.minor >= 6)
}

/// The output registers that are asked for.
pub open spec fn register_block(offset: int) -> Seq<Seq<char>> {
    control::registers("output_int_register_"@, offset + 2, 1) + control::registers(
        "output_int_register_"@,
        offset + 12,
        8,
    ) + control::registers("output_double_register_"@, offset + 12, 8)
}

/// The variables that a controller is asked for.
pub open spec fn variables(v: ControllerVersion, upper: bool) -> Seq<Seq<char>> {
    base_variables() + only_if(
        v.major == 5 && v.minor >= 23,
        seq!["actual_current_as_torque"@],
    ) + only_if(v.major == 5 && v.minor >= 9, seq!["ft_raw_wrench"@]) + only_if(
        has_payload(v),
        seq!["payload"@, "payload_cog"@],
    ) + only_if(
        (v.major == 3 && v.minor >= 15) || (v.major == 5 && v.minor >= 11),
        seq!["payload_inertia"@],
    ) + only_if(
        has_registers(v, upper),
        register_block(
            if upper {
                24
            } else {
                0
            },
        ),
    )
}

fn push_text(out: &mut Vec<String>, name: &str)
    ensures
        text::texts(final(out)@) == text::texts(old(out)@) + seq![name@],
{
    out.push(name.to_owned());
    proof {
        assert(text::texts(out@) =~= text::texts(old(out)@) + seq![name@]);
    }
}

/// The variables that a controller is asked for.
pub fn output_variables(version: ControllerVersion, use_upper_range_registers: bool) -> (r: Vec<
    String,
>)
    ensures
        text::texts(r@) == variables(version, use_upper_range_registers),
{
    let v = version;
    let mut r = base();
    if v.major == 5 && v.minor >= 23 {
        push_text(&mut r, "actual_current_as_torque");
    }
    if v.major == 5 && v.minor >= 9 {
        push_text(&mut r, "ft_raw_wrench");
    }
    if (v.major == 3 && v.minor >= 11) || (v.major == 5 && v.minor >= 5 && v.bugfix >= 1) || (v.major
        == 5 && v.minor >= 6) {
        push_text(&mut r, "payload");
        push_text(&mut r, "payload_cog");
    }
    if (v.major == 3 && v.minor >= 15) || (v.major == 5 && v.minor >= 11) {
        push_text(&mut r, "payload_inertia");
    }
    if registers_supported(v, use_upper_range_registers) {
        let offset: i32 = if use_upper_range_registers {
            24
        } else {
            0
        };
        control::push_registers(&mut r, "output_int_register_", offset + 2, 1);
        control::push_registers(&mut r, "output_int_register_", offset + 12, 8);
        control::push_registers(&mut r, "output_double_register_", offset + 12, 8);
    }
    proof {
        assert(text::texts(r@) =~= variables(version, use_upper_range_registers));
    }
    r
}

/// Law: whatever the controller, the base variables come first, in their
/// order.
pub proof fn law_base_variables_come_first(v: ControllerVersion, upper: bool)
    ensures
        variables(v, upper).take(base_variables().len() as int) == base_variables(),
{
    assert(variables(v, upper).take(base_variables().len() as int) =~= base_variables());
}

/// Law: a controller that has the lower registers keeps them with every later
/// version.
pub proof fn law_lower_registers_stay(v: ControllerVersion, w: ControllerVersion)
    requires
        has_registers(v, false),
        at_least_version(w, v.major, v.minor),
    ensures
        has_registers(w, false),
{
}

/// Every variable that is asked for has a type, so that none of a package is
/// misread.
pub proof fn law_every_variable_has_a_type(v: ControllerVersion, upper: bool, i: int)
    requires
        0 <= i < variables(v, upper).len(),
    ensures
        state::type_of(variables(v, upper)[i]) is Some,
{
    let all = variables(v, upper);
    let n = base_variables().len() as int;
    if i < n {
        lemma_base_variables_have_types(i);
        assert(all[i] == base_variables()[i]);
    } else {
        state::law_six_double_variables();
        state::law_double_variables();
        state::law_point_variables();
        let offset: int = if upper {
            24
        } else {
            0
        };
        let block = register_block(offset);
        let front = all.len() - if has_registers(v, upper) {
            block.len() as int
        } else {
            0
        };
        if i >= front {
            assert(all[i] == block[i - front]);
            let k = i - front;
            let r: nat = (if k == 0 {
                offset + 2
            } else if k < 9 {
                offset + 12 + k - 1
            } else {
                offset + 12 + k - 9
            }) as nat;
            state::law_registers_are_numbered(r);
        }
    }
}

proof fn lemma_base_variables_have_types(i: int)
    requires
        0 <= i < base_variables().len(),
    ensures
        state::type_of(base_variables()[i]) is Some,
{
    let b = base_variables();
    state::law_double_variables();
    state::law_integer_variables();
    state::law_word_variables();
    state::law_long_word_variables();
    state::law_point_variables();
    state::law_six_double_variables();
    state::law_six_integer_variables();
    assert(b[0] == "timestamp"@);
    assert(b[1] == "target_q"@);
    assert(b[2] == "target_qd"@);
    assert(b[3] == "target_qdd"@);
    assert(b[4] == "target_current"@);
    assert(b[5] == "target_moment"@);
    assert(b[6] == "actual_q"@);
    assert(b[7] == "actual_qd"@);
    assert(b[8] == "actual_current"@);
    assert(b[9] == "joint_control_output"@);
    assert(b[10] == "actual_TCP_pose"@);
    assert(b[11] == "actual_TCP_speed"@);
    assert(b[12] == "actual_TCP_force"@);
    assert(b[13] == "target_TCP_pose"@);
    assert(b[14] == "target_TCP_speed"@);
    assert(b[15] == "actual_digital_input_bits"@);
    assert(b[16] == "joint_temperatures"@);
    assert(b[17] == "actual_execution_time"@);
    assert(b[18] == "robot_mode"@);
    assert(b[19] == "joint_mode"@);
    assert(b[20] == "safety_mode"@);
    assert(b[21] == "actual_tool_accelerometer"@);
    assert(b[22] == "speed_scaling"@);
    assert(b[23] == "target_speed_fraction"@);
    assert(b[24] == "actual_momentum"@);
    assert(b[25] == "actual_main_voltage"@);
    assert(b[26] == "actual_robot_voltage"@);
    assert(b[27] == "actual_robot_current"@);
    assert(b[28] == "actual_joint_voltage"@);
    assert(b[29] == "actual_digital_output_bits"@);
    assert(b[30] == "runtime_state"@);
    assert(b[31] == "standard_analog_input0"@);
    assert(b[32] == "standard_analog_input1"@);
    assert(b[33] == "standard_analog_output0"@);
    assert(b[34] == "standard_analog_output1"@);
    assert(b[35] == "robot_status_bits"@);
    assert(b[36] == "safety_status_bits"@);
}

/// What is asked for behind the variables that every version has, in order: by
/// version the torque currents, the raw wrench, the payload with its centre, its
/// inertia, and the registers.
pub proof fn law_later_variables_come_with_versions(v: ControllerVersion, upper: bool)
    ensures
        ({
            let all = variables(v, upper);
            let torque: int = if v.major == 5 && v.minor >= 23 {
                1
            } else {
                0
            };
            let wrench: int = if v.major == 5 && v.minor >= 9 {
                1
            } else {
                0
            };
            let load: int = if (v.major == 3 && v.minor >= 11) || (v.major == 5 && (v.minor >= 6 || (
            v.minor == 5 && v.bugfix >= 1))) {
                2
            } else {
                0
            };
            let inertia: int = if (v.major == 3 && v.minor >= 15) || (v.major == 5 && v.minor
                >= 11) {
                1
            } else {
                0
            };
            let registers: int = if (!upper && (v.major > 3 || (v.major == 3 && v.minor >= 4))) || (
            upper && ((v.major == 3 && v.minor >= 9) || (v.major >= 5 && v.minor >= 3))) {
                17
            } else {
                0
            };
            let front = 37 + torque + wrench + load + inertia;
            let offset: int = if upper {
                24
            } else {
                0
            };
            &&& all.len() == front + registers
            &&& torque == 1 ==> all[37] == "actual_current_as_torque"@
            &&& wrench == 1 ==> all[37 + torque] == "ft_raw_wrench"@
            &&& load == 2 ==> all[37 + torque + wrench] == "payload"@ && all[38 + torque + wrench]
                == "payload_cog"@
            &&& inertia == 1 ==> all[37 + torque + wrench + load] == "payload_inertia"@
            &&& registers == 17 ==> {
                &&& all[front] == "output_int_register_"@ + text::signed_decimal(offset + 2)
                &&& forall|k: int|
                    0 <= k < 8 ==> #[trigger] all[front + 1 + k] == "output_int_register_"@
                        + text::signed_decimal(offset + 12 + k)
                &&& forall|k: int|
                    0 <= k < 8 ==> #[trigger] all[front + 9 + k] == "output_double_register_"@
                        + text::signed_decimal(offset + 12 + k)
            }
        }),
{
    let all = variables(v, upper);
    assert(base_variables().len() == 37);
}

/// A version is at least another exactly where it comes no earlier in the order
/// of versions.
pub proof fn law_versions_are_ordered(v: ControllerVersion, major: u32, minor: u32)
    ensures
        at_least_version(v, major, minor) <==> v.major * 0x1_0000_0000 + v.minor >= major
            * 0x1_0000_0000 + minor,
{
}

} // verus!
