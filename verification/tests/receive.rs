//! The variables that a receiver asks for.

use ioc_drivers::ur::receive::{base, output_variables};
use ioc_drivers::ur::rtde::ControllerVersion;
use ioc_drivers::ur::state::OutputRecipe;

fn v(major: u32, minor: u32, bugfix: u32) -> ControllerVersion {
    ControllerVersion {
        major,
        minor,
        bugfix,
        build: 0,
    }
}

#[test]
fn base_variables_are_always_requested() {
    let vars = output_variables(v(3, 3, 0), false);
    assert_eq!(vars[..base().len()], base());
    assert!(!vars.iter().any(|s| s.starts_with("output_int_register_")));
}

#[test]
fn lower_register_block_is_present_on_polyscope_5_0() {
    let vars = output_variables(v(5, 0, 0), false);
    assert!(vars.contains(&"output_int_register_12".to_string()));
    assert!(vars.contains(&"output_int_register_2".to_string()));
    assert!(vars.contains(&"output_int_register_19".to_string()));
    assert!(vars.contains(&"output_double_register_12".to_string()));
    assert!(vars.contains(&"output_double_register_19".to_string()));
    assert!(!vars.contains(&"output_int_register_20".to_string()));
}

#[test]
fn lower_register_block_present_from_3_4() {
    assert!(
        output_variables(v(3, 4, 0), false).contains(&"output_int_register_12".to_string())
    );
    assert!(
        !output_variables(v(3, 3, 9), false).contains(&"output_int_register_12".to_string())
    );
}

#[test]
fn upper_register_block_needs_3_9_or_5_3() {
    let vars = output_variables(v(5, 11, 0), true);
    assert!(vars.contains(&"output_int_register_26".to_string()));
    assert!(vars.contains(&"output_int_register_36".to_string()));
    assert!(vars.contains(&"output_double_register_43".to_string()));

    assert!(
        !output_variables(v(5, 2, 0), true).contains(&"output_int_register_36".to_string())
    );
    assert!(
        !output_variables(v(3, 8, 0), true).contains(&"output_int_register_36".to_string())
    );
    assert!(output_variables(v(3, 9, 0), true).contains(&"output_int_register_36".to_string()));
}

#[test]
fn version_gated_variables() {
    assert!(!output_variables(v(5, 8, 0), false).contains(&"ft_raw_wrench".to_string()));
    assert!(output_variables(v(5, 9, 0), false).contains(&"ft_raw_wrench".to_string()));

    assert!(
        !output_variables(v(5, 22, 0), false).contains(&"actual_current_as_torque".to_string())
    );
    assert!(
        output_variables(v(5, 23, 0), false).contains(&"actual_current_as_torque".to_string())
    );

    assert!(output_variables(v(3, 11, 0), false).contains(&"payload".to_string()));
    assert!(!output_variables(v(3, 10, 0), false).contains(&"payload".to_string()));
    assert!(output_variables(v(5, 5, 1), false).contains(&"payload".to_string()));
    assert!(!output_variables(v(5, 5, 0), false).contains(&"payload".to_string()));
    assert!(output_variables(v(5, 6, 0), false).contains(&"payload".to_string()));

    assert!(output_variables(v(5, 11, 0), false).contains(&"payload_inertia".to_string()));
    assert!(!output_variables(v(5, 10, 0), false).contains(&"payload_inertia".to_string()));
}

#[test]
fn the_timestamp_is_the_first_variable() {
    let all = base();
    assert_eq!(all[0], "timestamp");
    assert_eq!(OutputRecipe::new(&all).names().len(), all.len());
}

#[test]
fn every_requested_variable_has_a_known_type() {
    for upper in [false, true] {
        let vars = output_variables(v(5, 23, 0), upper);
        let recipe = OutputRecipe::new(&vars);
        let unknown: Vec<&String> = vars.iter().filter(|n| !recipe.names().contains(n)).collect();
        assert!(unknown.is_empty(), "{unknown:?}");
    }
}
