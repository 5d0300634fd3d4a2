//! The variables of a data package.

use ioc_drivers::ur::state::{var_type, DecodeError, OutputRecipe, RobotValues, Value, VarType};

#[test]
fn type_table_matches_robot_state_cpp() {
    assert_eq!(var_type("timestamp"), Some(VarType::Double));
    assert_eq!(var_type("robot_mode"), Some(VarType::Int32));
    assert_eq!(var_type("safety_mode"), Some(VarType::Int32));
    assert_eq!(var_type("runtime_state"), Some(VarType::Uint32));
    assert_eq!(var_type("safety_status_bits"), Some(VarType::Uint32));
    assert_eq!(var_type("actual_digital_input_bits"), Some(VarType::Uint64));
    assert_eq!(
        var_type("actual_digital_output_bits"),
        Some(VarType::Uint64)
    );
    assert_eq!(var_type("actual_q"), Some(VarType::Vector6d));
    assert_eq!(var_type("joint_mode"), Some(VarType::Vector6Int32));
    assert_eq!(
        var_type("actual_tool_accelerometer"),
        Some(VarType::Vector3d)
    );
    assert_eq!(var_type("payload_cog"), Some(VarType::Vector3d));
    assert_eq!(var_type("output_int_register_12"), Some(VarType::Int32));
    assert_eq!(var_type("output_double_register_47"), Some(VarType::Double));
    assert_eq!(var_type("output_int_register_48"), None);
    assert_eq!(var_type("no_such_variable"), None);
}

#[test]
fn vector3d_variables_are_24_bytes_not_48() {
    assert_eq!(VarType::Vector3d.size(), 24);
    assert_eq!(VarType::Vector6d.size(), 48);
    assert_eq!(VarType::Vector6Int32.size(), 24);
}

#[test]
fn recipe_drops_unknown_names() {
    let r = OutputRecipe::new(&vec![
        "timestamp".into(),
        "bogus_variable".into(),
        "robot_mode".into(),
    ]);
    assert_eq!(r.names(), &["timestamp".to_string(), "robot_mode".into()]);
    assert_eq!(r.encoded_len(), 8 + 4);
}

#[test]
fn decode_walks_fields_in_recipe_order() {
    let r = OutputRecipe::new(&vec![
        "timestamp".into(),
        "actual_q".into(),
        "robot_mode".into(),
        "runtime_state".into(),
        "actual_digital_input_bits".into(),
        "joint_mode".into(),
        "actual_tool_accelerometer".into(),
    ]);

    let mut p = vec![1u8];
    p.extend_from_slice(&12.5f64.to_be_bytes());
    for v in [
        0.0f64,
        -std::f64::consts::FRAC_PI_2,
        0.0,
        -std::f64::consts::FRAC_PI_2,
        0.0,
        0.5,
    ] {
        p.extend_from_slice(&v.to_be_bytes());
    }
    p.extend_from_slice(&7i32.to_be_bytes());
    p.extend_from_slice(&2u32.to_be_bytes());
    p.extend_from_slice(&0x0000_0000_dead_beefu64.to_be_bytes());
    for v in [253i32, 253, 253, 253, 253, 253] {
        p.extend_from_slice(&v.to_be_bytes());
    }
    for v in [0.1f64, 0.2, 9.8] {
        p.extend_from_slice(&v.to_be_bytes());
    }
    assert_eq!(p.len(), 1 + r.encoded_len());

    let s = r.decode(&p).unwrap();
    assert_eq!(s.get("timestamp"), Some(&Value::Double(12.5f64.to_bits())));
    assert_eq!(
        s.get("actual_q")
            .unwrap()
            .as_f64s()
            .unwrap()
            .iter()
            .map(|v| f64::from_bits(*v))
            .collect::<Vec<f64>>(),
        [
            0.0,
            -std::f64::consts::FRAC_PI_2,
            0.0,
            -std::f64::consts::FRAC_PI_2,
            0.0,
            0.5
        ]
    );
    assert_eq!(s.get("robot_mode"), Some(&Value::Int32(7)));
    assert_eq!(s.get("runtime_state"), Some(&Value::Uint32(2)));
    assert_eq!(s.get("actual_digital_input_bits"), Some(&Value::Uint64(0xdead_beef)));
    assert_eq!(s.get("joint_mode").unwrap().as_i32s().unwrap(), &[253; 6]);
    assert_eq!(s.get("actual_tool_accelerometer").unwrap().as_f64s().unwrap().len(), 3);
}

#[test]
fn decode_rejects_truncated_package() {
    let r = OutputRecipe::new(&vec!["timestamp".into(), "actual_q".into()]);
    let mut p = vec![1u8];
    p.extend_from_slice(&1.0f64.to_be_bytes());
    p.extend_from_slice(&[0u8; 40]);
    match r.decode(&p) {
        Err(DecodeError::Truncated { name, need, have }) => {
            assert_eq!(name, "actual_q");
            assert_eq!(need, 48);
            assert_eq!(have, 40);
        }
        other => panic!("expected Truncated, got {other:?}"),
    }
    assert_eq!(r.decode(&[]), Err(DecodeError::Empty));
}

#[test]
fn safety_status_bits_keep_high_bit() {
    let r = OutputRecipe::new(&vec!["safety_status_bits".into()]);
    let mut p = vec![1u8];
    p.extend_from_slice(&0x8000_0001u32.to_be_bytes());
    let s = r.decode(&p).unwrap();
    assert_eq!(s.get("safety_status_bits").unwrap().as_u32(), Some(0x8000_0001));
    assert_eq!(s.get("safety_status_bits").unwrap().as_i32(), Some(-2147483647));
}

#[test]
fn a_scalar_is_read_as_a_number_and_a_vector_as_one() {
    let d = Value::Double(1.5f64.to_bits());
    assert_eq!(d.as_f64(), Some(1.5f64.to_bits()));
    assert_eq!(d.as_i32(), Some(1));
    assert_eq!(d.as_u32(), Some(1));
    assert_eq!(Value::Double((-3e9f64).to_bits()).as_i32(), Some(i32::MIN));
    assert_eq!(Value::Double(f64::NAN.to_bits()).as_u32(), Some(0));
    assert_eq!(Value::Uint64(0x1_0000_0002).as_u32(), Some(2));
    assert_eq!(Value::Int32s(vec![1]).as_i32(), None);
    assert_eq!(d.as_f64s(), None);
    assert_eq!(d.as_i32s(), None);
    assert_eq!(Value::Int32(-1).as_i32(), Some(-1));
    assert_eq!(Value::Uint32(u32::MAX).as_i32(), Some(-1));
    assert_eq!(Value::Int32s(vec![1, 2]).as_i32s(), Some(&vec![1, 2]));
}

#[test]
fn a_decode_error_names_the_variable_and_the_bytes() {
    let e = DecodeError::Truncated {
        name: "actual_q".to_string(),
        need: 48,
        have: 40,
    };
    let m = e.message();
    assert!(m.contains("actual_q") && m.contains("48") && m.contains("40"), "{m}");
    assert_eq!(
        DecodeError::Empty.message(),
        "data package is empty (no recipe-id byte)"
    );
}

#[test]
fn the_last_value_of_a_name_counts() {
    let mut v = RobotValues::new();
    assert!(v.is_empty());
    v.insert("a".to_string(), Value::Int32(1));
    v.insert("b".to_string(), Value::Int32(2));
    v.insert("a".to_string(), Value::Int32(3));
    assert_eq!(v.get("a"), Some(&Value::Int32(3)));
    assert_eq!(v.get("b"), Some(&Value::Int32(2)));
    assert_eq!(v.get("c"), None);
    assert!(!v.is_empty());
}

#[test]
fn a_recipe_of_no_variables_decodes_its_number_alone() {
    let r = OutputRecipe::new(&vec![]);
    assert_eq!(r.encoded_len(), 0);
    assert!(r.decode(&[1]).unwrap().is_empty());
}
