//! A session of the real-time data exchange.

use ioc_drivers::ur::error::UrError;
use ioc_drivers::ur::rtde::{
    cmd, encode_frame, encode_get_controller_version, encode_output_setup,
    encode_protocol_version, encode_start, CommandType, ControllerVersion, Payload, RobotCommand,
};
use ioc_drivers::ur::session::{controller_version, package_header, Session, DEFAULT_TIMEOUT_MS};
use ioc_drivers::ur::state::{OutputRecipe, Value};

fn connected() -> Session {
    let mut s = Session::new();
    s.connected();
    s
}

fn names(list: &[&str]) -> Vec<String> {
    list.iter().map(|n| n.to_string()).collect()
}

fn with_outputs(list: &[&str], types: &[u8]) -> Session {
    let mut s = connected();
    let mut reply = vec![1u8];
    reply.extend_from_slice(types);
    s.output_setup_reply(
        OutputRecipe::new(&names(list)),
        cmd::CONTROL_PACKAGE_SETUP_OUTPUTS,
        &reply,
    )
    .unwrap();
    s
}

#[test]
fn handshake_negotiate_version_and_output_setup() {
    let mut version_body = Vec::new();
    for v in [5u32, 11, 3, 108355] {
        version_body.extend_from_slice(&v.to_be_bytes());
    }
    let mut setup_reply = vec![1u8];
    setup_reply.extend_from_slice(b"DOUBLE,VECTOR6D");

    let mut s = connected();
    s.apply_control_package(cmd::REQUEST_PROTOCOL_VERSION, &[1])
        .unwrap();
    let v = controller_version(cmd::GET_URCONTROL_VERSION, &version_body);
    assert_eq!((v.major, v.minor), (5, 11));

    let wanted = names(&["timestamp", "actual_q"]);
    s.output_setup_reply(
        OutputRecipe::new(&wanted),
        cmd::CONTROL_PACKAGE_SETUP_OUTPUTS,
        &setup_reply,
    )
    .unwrap();
    assert!(!s.is_started());
    s.apply_control_package(cmd::CONTROL_PACKAGE_START, &[1])
        .unwrap();
    assert!(s.is_started());

    assert_eq!(encode_protocol_version(), vec![0x00, 0x05, 86, 0x00, 0x02]);
    assert_eq!(encode_get_controller_version(), vec![0x00, 0x03, 118]);
    let sent = encode_output_setup(&wanted, 500.0f64.to_bits());
    assert_eq!(sent[2], cmd::CONTROL_PACKAGE_SETUP_OUTPUTS);
    assert_eq!(&sent[3..11], &500.0f64.to_be_bytes());
    assert_eq!(&sent[11..], b"timestamp,actual_q,");
    assert_eq!(encode_start(), vec![0x00, 0x03, 83]);
}

#[test]
fn output_setup_rejects_not_found_variables() {
    let mut setup_reply = vec![1u8];
    setup_reply.extend_from_slice(b"DOUBLE,NOT_FOUND");
    let mut s = connected();
    let err = s
        .output_setup_reply(
            OutputRecipe::new(&names(&["timestamp", "payload_inertia"])),
            cmd::CONTROL_PACKAGE_SETUP_OUTPUTS,
            &setup_reply,
        )
        .unwrap_err();
    assert!(
        matches!(&err, UrError::VariablesNotFound(v) if v == "payload_inertia"),
        "got {err:?}"
    );
}

#[test]
fn input_setup_in_use_is_an_error() {
    let mut reply = vec![7u8];
    reply.extend_from_slice(b"IN_USE");
    let mut s = connected();
    let err = s
        .input_setup_reply(cmd::CONTROL_PACKAGE_SETUP_INPUTS, &reply)
        .unwrap_err();
    assert!(matches!(err, UrError::InputRegistersInUse), "got {err:?}");
}

#[test]
fn input_setup_returns_the_recipe_id() {
    let mut s = connected();
    assert_eq!(
        s.input_setup_reply(cmd::CONTROL_PACKAGE_SETUP_INPUTS, &[3, b'I'])
            .unwrap(),
        3
    );
}

#[test]
fn receive_data_decodes_and_collapses_to_newest() {
    let pkg = |ts: f64, mode: i32| {
        let mut body = vec![1u8];
        body.extend_from_slice(&ts.to_be_bytes());
        body.extend_from_slice(&mode.to_be_bytes());
        encode_frame(cmd::DATA_PACKAGE, &body)
    };
    let mut s = with_outputs(&["timestamp", "robot_mode"], b"DOUBLE,INT32");
    let mut chunk = pkg(1.0, 3);
    chunk.extend_from_slice(&pkg(2.0, 7));

    let state = s.receive_data(&chunk).unwrap().expect("a data package");
    assert_eq!(
        state.get("timestamp"),
        Some(&Value::Double(2.0f64.to_bits()))
    );
    assert_eq!(state.get("robot_mode"), Some(&Value::Int32(7)));
}

#[test]
fn receive_data_reassembles_a_split_package() {
    let mut body = vec![1u8];
    body.extend_from_slice(&42.5f64.to_be_bytes());
    let frame = encode_frame(cmd::DATA_PACKAGE, &body);
    let (a, b) = frame.split_at(5);

    let mut s = with_outputs(&["timestamp"], b"DOUBLE");
    assert_eq!(s.receive_data(a).unwrap(), None);
    let got = s.receive_data(b).unwrap();
    assert_eq!(
        got.expect("package").get("timestamp"),
        Some(&Value::Double(42.5f64.to_bits()))
    );
}

#[test]
fn send_command_writes_the_encoded_frame() {
    let s = connected();
    let cmd = RobotCommand::new(4, CommandType::NoCmd, Payload::Empty);
    assert_eq!(
        s.send_command(&cmd).unwrap(),
        vec![0x00, 0x08, 85, 4, 0x00, 0x00, 0x00, 0x00]
    );
}

#[test]
fn write_when_disconnected_is_an_error_not_a_silent_drop() {
    let s = Session::new();
    let cmd = RobotCommand::new(4, CommandType::NoCmd, Payload::Empty);
    assert!(matches!(
        s.send_command(&cmd),
        Err(UrError::NotConnected(_))
    ));
}

#[test]
fn a_frame_cut_anywhere_gives_the_same_package() {
    let mut body = vec![1u8];
    body.extend_from_slice(&7i32.to_be_bytes());
    let frame = encode_frame(cmd::DATA_PACKAGE, &body);
    for cut in 1..frame.len() {
        let mut s = with_outputs(&["robot_mode"], b"INT32");
        assert_eq!(s.receive_data(&frame[..cut]).unwrap(), None, "{cut}");
        let state = s.receive_data(&frame[cut..]).unwrap().unwrap();
        assert_eq!(state.get("robot_mode"), Some(&Value::Int32(7)), "{cut}");
    }
}

#[test]
fn a_closed_connection_and_a_bad_length_are_errors() {
    let mut s = with_outputs(&["robot_mode"], b"INT32");
    assert!(matches!(s.receive_data(&[]), Err(UrError::Io(_))));
    assert!(matches!(
        s.receive_data(&[0, 2, 85]),
        Err(UrError::Protocol(_))
    ));
}

#[test]
fn a_short_package_is_a_decode_error() {
    let mut s = with_outputs(&["robot_mode"], b"INT32");
    let frame = encode_frame(cmd::DATA_PACKAGE, &[1, 0, 0]);
    assert!(matches!(s.receive_data(&frame), Err(UrError::Decode(_))));
}

#[test]
fn a_refused_start_is_a_protocol_error() {
    let mut s = connected();
    assert!(matches!(
        s.apply_control_package(cmd::CONTROL_PACKAGE_START, &[0]),
        Err(UrError::Protocol(_))
    ));
    assert!(matches!(
        s.apply_control_package(cmd::CONTROL_PACKAGE_PAUSE, &[]),
        Err(UrError::Protocol(_))
    ));
    assert!(!s.is_started());
    assert!(s.is_connected());
}

#[test]
fn a_session_pauses_only_when_there_is_a_connection() {
    let mut s = Session::new();
    assert!(!s.wants_pause(true));
    s.connected();
    assert!(s.wants_pause(true));
    assert!(!s.wants_pause(false));
    s.disconnect();
    assert!(!s.is_connected());
    assert!(!s.wants_pause(true));
}

#[test]
fn an_empty_setup_reply_is_a_protocol_error() {
    let mut s = connected();
    assert!(matches!(
        s.input_setup_reply(cmd::CONTROL_PACKAGE_SETUP_INPUTS, &[]),
        Err(UrError::Protocol(_))
    ));
    assert!(matches!(
        s.output_setup_reply(
            OutputRecipe::new(&vec![]),
            cmd::CONTROL_PACKAGE_SETUP_OUTPUTS,
            &[]
        ),
        Err(UrError::Protocol(_))
    ));
}

#[test]
fn a_bad_header_is_shown_in_hex() {
    assert_eq!(package_header(&[0, 31, 85]).unwrap().payload_len(), 28);
    let e = package_header(&[0, 2, 0xab]).unwrap_err();
    assert_eq!(
        e,
        UrError::Protocol("bad RTDE header [00, 02, ab]".to_string())
    );
}

#[test]
fn another_reply_leaves_the_version_unknown() {
    assert_eq!(
        controller_version(cmd::TEXT_MESSAGE, &[0; 16]),
        ControllerVersion::default()
    );
    assert_eq!(
        controller_version(cmd::GET_URCONTROL_VERSION, &[0; 15]),
        ControllerVersion::default()
    );
    assert_eq!(DEFAULT_TIMEOUT_MS, 2500);
}

#[test]
fn what_follows_a_package_that_cannot_be_decoded_stays() {
    let mut s = with_outputs(&["robot_mode"], b"INT32");
    let mut chunk = encode_frame(cmd::CONTROL_PACKAGE_PAUSE, &[1]);
    chunk.extend(encode_frame(cmd::DATA_PACKAGE, &[1, 0, 0]));
    chunk.extend(encode_frame(cmd::CONTROL_PACKAGE_START, &[1]));
    assert!(matches!(s.receive_data(&chunk), Err(UrError::Decode(_))));
    assert!(!s.is_started());
    let mut body = vec![1u8];
    body.extend_from_slice(&7i32.to_be_bytes());
    let state = s
        .receive_data(&encode_frame(cmd::DATA_PACKAGE, &body))
        .unwrap()
        .unwrap();
    assert_eq!(state.get("robot_mode"), Some(&Value::Int32(7)));
    assert!(s.is_started());
}

#[test]
fn a_package_that_cannot_be_decoded_comes_before_a_bad_length() {
    let mut s = with_outputs(&["robot_mode"], b"INT32");
    let mut chunk = encode_frame(cmd::DATA_PACKAGE, &[1, 0, 0]);
    chunk.extend([0, 2, 85]);
    assert!(matches!(s.receive_data(&chunk), Err(UrError::Decode(_))));
    assert!(matches!(s.receive_data(&[0]), Err(UrError::Protocol(_))));
}
