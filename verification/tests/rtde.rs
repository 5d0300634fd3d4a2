//! Frames of the real-time data exchange.

use ioc_drivers::ur::rtde::{
    cmd, decode_success, default_frequency, encode_frame, encode_get_controller_version,
    encode_input_setup, encode_output_setup, encode_pause, encode_protocol_version, encode_start,
    input_setup_in_use, mentions_in_use, CommandType, ControllerVersion, Header, OutputSetupReply,
    Payload, RobotCommand, HEADER_SIZE, PROTOCOL_VERSION, RTDE_PORT,
};

#[test]
fn frame_header_counts_itself() {
    let f = encode_frame(cmd::CONTROL_PACKAGE_START, &[]);
    assert_eq!(f, vec![0x00, 0x03, 83]);

    let f = encode_frame(cmd::DATA_PACKAGE, &[1, 2, 3, 4]);
    assert_eq!(f, vec![0x00, 0x07, 85, 1, 2, 3, 4]);
}

#[test]
fn header_decode_matches_read_rtde_header() {
    let h = Header::decode(&[0x00, 0x1f, 0x55]).unwrap();
    assert_eq!(h.size, 31);
    assert_eq!(h.cmd, cmd::DATA_PACKAGE);
    assert_eq!(h.payload_len(), 28);
}

#[test]
fn header_rejects_short_and_undersized() {
    assert!(Header::decode(&[0x00]).is_none());
    assert!(Header::decode(&[0x00, 0x02, 0x55]).is_none());
    assert!(Header::decode(&[0x00, 0x03, 0x55]).is_some());
}

#[test]
fn protocol_version_payload() {
    assert_eq!(encode_protocol_version(), vec![0x00, 0x05, 86, 0x00, 0x02]);
}

#[test]
fn empty_control_frames() {
    assert_eq!(encode_get_controller_version(), vec![0x00, 0x03, 118]);
    assert_eq!(encode_start(), vec![0x00, 0x03, 83]);
    assert_eq!(encode_pause(), vec![0x00, 0x03, 80]);
}

#[test]
fn output_setup_frequency_is_big_endian_f64() {
    let f = encode_output_setup(&vec!["timestamp".into(), "robot_mode".into()], 125.0f64.to_bits());
    assert_eq!(&f[0..2], &[0x00, 0x20]);
    assert_eq!(f[2], cmd::CONTROL_PACKAGE_SETUP_OUTPUTS);
    assert_eq!(&f[3..11], &[0x40, 0x5f, 0x40, 0x00, 0x00, 0x00, 0x00, 0x00]);
    assert_eq!(&f[11..], b"timestamp,robot_mode,");
    assert_eq!(f.len(), u16::from_be_bytes([f[0], f[1]]) as usize);
}

#[test]
fn output_setup_500hz() {
    let f = encode_output_setup(&vec!["timestamp".into()], 500.0f64.to_bits());
    assert_eq!(&f[3..11], &[0x40, 0x7f, 0x40, 0x00, 0x00, 0x00, 0x00, 0x00]);
}

#[test]
fn input_setup_has_no_frequency() {
    let f = encode_input_setup(&vec!["input_int_register_0".into()]);
    assert_eq!(f[2], cmd::CONTROL_PACKAGE_SETUP_INPUTS);
    assert_eq!(&f[3..], b"input_int_register_0,");
}

#[test]
fn no_cmd_clear_command() {
    let c = RobotCommand::new(4, CommandType::NoCmd, Payload::Empty);
    let f = c.encode();
    assert_eq!(f, vec![0x00, 0x08, 85, 4, 0x00, 0x00, 0x00, 0x00]);
}

#[test]
fn movej_appends_speed_accel_then_async() {
    let q: Vec<f64> = vec![
        0.0,
        -std::f64::consts::FRAC_PI_2,
        0.0,
        -std::f64::consts::FRAC_PI_2,
        0.0,
        0.0,
    ];
    let mut val = q.clone();
    val.push(1.05);
    val.push(1.4);
    let c = RobotCommand::new(
        1,
        CommandType::MoveJ,
        Payload::VectorAsync {
            val: bits(&val),
            asynchronous: true,
        },
    );
    let f = c.encode();

    assert_eq!(f[2], cmd::DATA_PACKAGE);
    assert_eq!(f[3], 1);
    assert_eq!(&f[4..8], &1i32.to_be_bytes());

    let q_hex = "0000000000000000bff921fb54442d180000000000000000bff921fb54442d1800000000000000000000000000000000";
    assert_eq!(hex(&f[8..8 + 48]), q_hex);
    assert_eq!(hex(&f[56..64]), "3ff0cccccccccccd");
    assert_eq!(hex(&f[64..72]), "3ff6666666666666");
    assert_eq!(&f[72..76], &1i32.to_be_bytes());
    assert_eq!(f.len(), 76);
    assert_eq!(f.len(), u16::from_be_bytes([f[0], f[1]]) as usize);
}

#[test]
fn stopj_is_accel_then_async_on_recipe_19() {
    let c = RobotCommand::new(
        19,
        CommandType::StopJ,
        Payload::VectorAsync {
            val: vec![2.0f64.to_bits()],
            asynchronous: false,
        },
    );
    let f = c.encode();
    assert_eq!(f[3], 19);
    assert_eq!(&f[4..8], &34i32.to_be_bytes());
    assert_eq!(hex(&f[8..16]), "4000000000000000");
    assert_eq!(&f[16..20], &0i32.to_be_bytes());
}

#[test]
fn set_std_digital_out_is_mask_then_value() {
    let c = RobotCommand::new(
        2,
        CommandType::SetStdDigitalOut,
        Payload::DigitalOut {
            mask: 1 << 3,
            value: 1 << 3,
        },
    );
    let f = c.encode();
    assert_eq!(f, vec![0x00, 0x0a, 85, 2, 0, 0, 0, 13, 0x08, 0x08]);

    let c = RobotCommand::new(
        2,
        CommandType::SetStdDigitalOut,
        Payload::DigitalOut {
            mask: 1 << 3,
            value: 0,
        },
    );
    assert_eq!(c.encode()[8..], [0x08, 0x00]);
}

#[test]
fn speed_slider_is_int32_mask_then_double() {
    let c = RobotCommand::new(
        4,
        CommandType::SetSpeedSlider,
        Payload::SpeedSlider {
            mask: 1,
            fraction: 0.5f64.to_bits(),
        },
    );
    let f = c.encode();
    assert_eq!(f[3], 4);
    assert_eq!(&f[4..8], &22i32.to_be_bytes());
    assert_eq!(&f[8..12], &1i32.to_be_bytes());
    assert_eq!(hex(&f[12..20]), "3fe0000000000000");
}

#[test]
fn analog_out_voltage_and_current_types() {
    let c = RobotCommand::new(
        5,
        CommandType::SetStdAnalogOut,
        Payload::AnalogOut {
            mask: 1 << 1,
            output_type: 1 << 1,
            ch0: 0.0f64.to_bits(),
            ch1: 0.25f64.to_bits(),
        },
    );
    let f = c.encode();
    assert_eq!(&f[4..8], &23i32.to_be_bytes());
    assert_eq!(f[8], 0x02);
    assert_eq!(f[9], 0x02);
    assert_eq!(hex(&f[10..18]), "0000000000000000");
    assert_eq!(hex(&f[18..26]), "3fd0000000000000");

    let c = RobotCommand::new(
        5,
        CommandType::SetStdAnalogOut,
        Payload::AnalogOut {
            mask: 1,
            output_type: 0,
            ch0: 0.25f64.to_bits(),
            ch1: 0.0f64.to_bits(),
        },
    );
    let f = c.encode();
    assert_eq!(f[8], 0x01);
    assert_eq!(f[9], 0x00);
    assert_eq!(hex(&f[10..18]), "3fd0000000000000");
}

#[test]
fn input_registers_carry_one_scalar() {
    let c = RobotCommand::new(
        7,
        CommandType::SetInputIntRegister,
        Payload::InputIntRegister(7),
    );
    let f = c.encode();
    assert_eq!(f, vec![0x00, 0x0c, 85, 7, 0, 0, 0, 49, 0, 0, 0, 7]);

    let c = RobotCommand::new(
        12,
        CommandType::SetInputDoubleRegister,
        Payload::InputDoubleRegister(0.5f64.to_bits()),
    );
    let f = c.encode();
    assert_eq!(f[3], 12);
    assert_eq!(&f[4..8], &50i32.to_be_bytes());
    assert_eq!(hex(&f[8..16]), "3fe0000000000000");
    assert_eq!(f.len(), 16);
}

#[test]
fn controller_version_decode() {
    let mut body = Vec::new();
    for v in [5u32, 11, 3, 108355] {
        body.extend_from_slice(&v.to_be_bytes());
    }
    let v = ControllerVersion::decode(&body).unwrap();
    assert_eq!(
        v,
        ControllerVersion {
            major: 5,
            minor: 11,
            bugfix: 3,
            build: 108355
        }
    );
    assert!(ControllerVersion::decode(&body[..15]).is_none());
}

#[test]
fn frequency_follows_controller_generation() {
    let cb3 = ControllerVersion {
        major: 3,
        ..Default::default()
    };
    let e_series = ControllerVersion {
        major: 5,
        ..Default::default()
    };
    assert_eq!(default_frequency(cb3), 125.0f64.to_bits());
    assert_eq!(default_frequency(e_series), 500.0f64.to_bits());
}

#[test]
fn output_setup_reply_reports_missing_names() {
    let mut body = vec![1u8];
    body.extend_from_slice(b"DOUBLE,NOT_FOUND,UINT32");
    let reply = OutputSetupReply::decode(&body).unwrap();
    assert_eq!(reply.recipe_id, 1);
    assert_eq!(reply.types.len(), 3);

    let requested = vec![
        "timestamp".to_string(),
        "no_such_var".to_string(),
        "runtime_state".to_string(),
    ];
    assert_eq!(reply.not_found(&requested), vec!["no_such_var"]);
}

#[test]
fn input_setup_detects_in_use() {
    let mut body = vec![1u8];
    body.extend_from_slice(b"IN_USE");
    assert!(input_setup_in_use(&body));

    let mut ok = vec![1u8];
    ok.extend_from_slice(b"INT32,DOUBLE");
    assert!(!input_setup_in_use(&ok));
}

#[test]
fn start_pause_success_byte() {
    assert!(decode_success(&[1]));
    assert!(!decode_success(&[0]));
    assert!(!decode_success(&[]));
}

fn hex(bytes: &[u8]) -> String {
    bytes.iter().map(|b| format!("{b:02x}")).collect()
}

fn bits(values: &[f64]) -> Vec<u64> {
    values.iter().map(|v| v.to_bits()).collect()
}

#[test]
fn a_header_is_three_bytes_big_endian() {
    assert_eq!(HEADER_SIZE, 3);
    let f = encode_frame(cmd::TEXT_MESSAGE, &[0u8; 300]);
    assert_eq!(&f[..HEADER_SIZE], &[0x01, 0x2f, 77]);
    let h = Header::decode(&f).unwrap();
    assert_eq!(h.payload_len(), 300);
    assert_eq!(PROTOCOL_VERSION, 2);
    assert_eq!(RTDE_PORT, 30004);
}

#[test]
fn a_vector_command_without_a_flag_ends_with_its_last_double() {
    let c = RobotCommand::new(
        6,
        CommandType::SetTcp,
        Payload::Vector(bits(&[1.0, -1.0])),
    );
    let f = c.encode();
    assert_eq!(f.len(), 8 + 16);
    assert_eq!(&f[4..8], &CommandType::SetTcp.code().to_be_bytes());
    assert_eq!(hex(&f[8..]), "3ff0000000000000bff0000000000000");
}

#[test]
fn no_command_has_the_number_zero() {
    assert_eq!(CommandType::NoCmd.code(), 0);
    assert_eq!(CommandType::MoveJ.code(), 1);
    assert_eq!(CommandType::StopScript.code(), 255);
}

#[test]
fn an_empty_setup_reply_has_no_recipe() {
    assert!(OutputSetupReply::decode(&[]).is_none());
    let reply = OutputSetupReply::decode(&[4]).unwrap();
    assert_eq!(reply.recipe_id, 4);
    assert!(reply.not_found(&vec!["timestamp".to_string()]).is_empty());
}

#[test]
fn a_reply_that_is_not_utf8_is_read_with_replacement_marks() {
    let reply = OutputSetupReply::decode(&[1, b'A', 0xff, b',', b'B']).unwrap();
    assert_eq!(reply.types, vec!["A\u{fffd}".to_string(), "B".to_string()]);
    assert!(input_setup_in_use(&[1, 0xff, b'I', b'N', b'_', b'U', b'S', b'E']));
    assert!(mentions_in_use("INT32,IN_USE"));
    assert!(!mentions_in_use("INT32"));
}
