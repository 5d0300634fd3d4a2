//! Outputs and input registers of the controller.

use ioc_drivers::ur::error::UrError;
use ioc_drivers::ur::io::{
    analog_out, check_assigned, digital_mask, set_analog_output_current,
    set_analog_output_voltage, set_configurable_digital_out, set_speed_slider,
    set_standard_digital_out, set_tool_digital_out, AnalogKind, IoInterface, COMMAND_REGISTER,
    RECIPE_CONF_DIGITAL_OUT, RECIPE_INPUT_DOUBLE_BASE, RECIPE_INPUT_INT_BASE, RECIPE_SPEED_SLIDER,
    RECIPE_STD_ANALOG_OUT, RECIPE_STD_DIGITAL_OUT, RECIPE_TOOL_DIGITAL_OUT,
};
use ioc_drivers::ur::rtde::{CommandType, Payload};

fn bits(v: f64) -> u64 {
    v.to_bits()
}

#[test]
fn command_register_is_23_offset_by_the_range() {
    assert_eq!(
        IoInterface::new(false).in_int_reg(COMMAND_REGISTER),
        "input_int_register_23"
    );
    assert_eq!(
        IoInterface::new(true).in_int_reg(COMMAND_REGISTER),
        "input_int_register_47"
    );
}

#[test]
fn register_slots_map_onto_recipes_7_to_16() {
    let lower = IoInterface::new(false);
    assert_eq!(lower.register_slot(18).unwrap(), 0);
    assert_eq!(lower.register_slot(22).unwrap(), 4);
    assert!(lower.register_slot(17).is_err());
    assert!(lower.register_slot(23).is_err());
    assert!(lower.register_slot(42).is_err());

    let upper = IoInterface::new(true);
    assert_eq!(upper.register_slot(42).unwrap(), 0);
    assert_eq!(upper.register_slot(46).unwrap(), 4);
    assert!(upper.register_slot(18).is_err());

    assert_eq!(RECIPE_INPUT_INT_BASE, 7);
    assert_eq!(RECIPE_INPUT_INT_BASE + 4, 11);
    assert_eq!(RECIPE_INPUT_DOUBLE_BASE, 12);
    assert_eq!(RECIPE_INPUT_DOUBLE_BASE + 4, 16);
}

#[test]
fn digital_mask_is_one_shifted_and_bounded() {
    assert_eq!(digital_mask(0).unwrap(), 0x01);
    assert_eq!(digital_mask(7).unwrap(), 0x80);
    assert!(digital_mask(8).is_err());
}

#[test]
fn analog_voltage_sets_the_type_bit_and_zeroes_the_other_channel() {
    let cmd = analog_out(1, bits(0.25), AnalogKind::Voltage).unwrap();
    assert_eq!(cmd.recipe_id, RECIPE_STD_ANALOG_OUT);
    assert_eq!(cmd.command, CommandType::SetStdAnalogOut);
    assert_eq!(
        cmd.payload,
        Payload::AnalogOut {
            mask: 0x02,
            output_type: 0x02,
            ch0: bits(0.0),
            ch1: bits(0.25),
        }
    );
}

#[test]
fn analog_current_clears_the_type_bit() {
    let cmd = analog_out(0, bits(0.5), AnalogKind::Current).unwrap();
    assert_eq!(
        cmd.payload,
        Payload::AnalogOut {
            mask: 0x01,
            output_type: 0x00,
            ch0: bits(0.5),
            ch1: bits(0.0),
        }
    );
}

#[test]
fn analog_rejects_a_ratio_outside_zero_to_one_and_a_third_channel() {
    assert!(analog_out(0, bits(1.5), AnalogKind::Voltage).is_err());
    assert!(analog_out(0, bits(-0.1), AnalogKind::Current).is_err());
    assert!(analog_out(2, bits(0.5), AnalogKind::Voltage).is_err());
}

#[test]
fn each_recipe_begins_with_the_command_register() {
    let recipes = IoInterface::new(true).setup_recipes();
    for r in &recipes {
        assert_eq!(r[0], "input_int_register_47");
    }
    assert_eq!(
        recipes[usize::from(RECIPE_INPUT_DOUBLE_BASE) - 1],
        vec!["input_int_register_47", "input_double_register_42"]
    );
    assert_eq!(
        recipes[usize::from(RECIPE_INPUT_INT_BASE) + 4 - 1],
        vec!["input_int_register_47", "input_int_register_46"]
    );
}

#[test]
fn a_recipe_with_another_number_is_refused() {
    let names = vec!["speed_slider_mask".to_string()];
    assert!(check_assigned(4, 4, &names).is_ok());
    assert!(matches!(
        check_assigned(4, 5, &names),
        Err(UrError::Protocol(_))
    ));
}

#[test]
fn a_digital_output_is_written_under_its_own_recipe() {
    let on = set_standard_digital_out(3, true).unwrap();
    assert_eq!(on.recipe_id, RECIPE_STD_DIGITAL_OUT);
    assert_eq!(on.command, CommandType::SetStdDigitalOut);
    assert_eq!(on.payload, Payload::DigitalOut { mask: 8, value: 8 });
    let off = set_configurable_digital_out(0, false).unwrap();
    assert_eq!(off.recipe_id, RECIPE_CONF_DIGITAL_OUT);
    assert_eq!(off.payload, Payload::DigitalOut { mask: 1, value: 0 });
    let tool = set_tool_digital_out(1, true).unwrap();
    assert_eq!(tool.recipe_id, RECIPE_TOOL_DIGITAL_OUT);
    assert_eq!(tool.command, CommandType::SetToolDigitalOut);
    assert_eq!(tool.payload, Payload::DigitalOut { mask: 2, value: 2 });
    assert!(set_standard_digital_out(8, true).is_err());
}

#[test]
fn registers_are_written_under_the_recipe_of_their_slot() {
    let io = IoInterface::new(false);
    let c = io.set_input_int_register(20, -7).unwrap();
    assert_eq!(c.recipe_id, RECIPE_INPUT_INT_BASE + 2);
    assert_eq!(c.payload, Payload::InputIntRegister(-7));
    let c = io.set_input_double_register(18, bits(0.5)).unwrap();
    assert_eq!(c.recipe_id, RECIPE_INPUT_DOUBLE_BASE);
    assert_eq!(c.payload, Payload::InputDoubleRegister(bits(0.5)));
    assert!(io.set_input_int_register(0, 1).is_err());
}

#[test]
fn the_speed_slider_sets_its_mask() {
    let c = set_speed_slider(bits(0.5));
    assert_eq!(c.recipe_id, RECIPE_SPEED_SLIDER);
    assert_eq!(
        c.payload,
        Payload::SpeedSlider {
            mask: 1,
            fraction: bits(0.5),
        }
    );
    assert_eq!(
        set_analog_output_voltage(1, bits(0.25)),
        analog_out(1, bits(0.25), AnalogKind::Voltage)
    );
    assert_eq!(
        set_analog_output_current(0, bits(0.25)),
        analog_out(0, bits(0.25), AnalogKind::Current)
    );
}
