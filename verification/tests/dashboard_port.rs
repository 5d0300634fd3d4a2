//! The dashboard and I/O ports of a robot, and the latch of their pollers.

use ioc_drivers::ur::dashboard::{DashboardClient, PolyScopeVersion};
use ioc_drivers::ur::drivers::dashboard::{
    command_outcome, connect_outcome, first_connected, polled, write_int32, write_octet,
    written_text, Answers, DashboardAction, DashboardParams, Looked,
};
use ioc_drivers::ur::drivers::ioc_ready::IocReady;
use ioc_drivers::ur::drivers::{io, Published, WriteError};
use ioc_drivers::ur::error::UrError;
use ioc_drivers::ur::io::RECIPE_CONF_DIGITAL_OUT;
use ioc_drivers::ur::registry::DashboardState;
use ioc_drivers::ur::rtde::Payload;

#[test]
fn the_gate_stays_shut_until_it_is_opened() {
    let mut gate = IocReady::default();
    assert!(gate.wait());
    gate.open();
    assert!(!gate.wait());
}

#[test]
fn waiting_on_an_open_gate_returns_at_once() {
    let mut gate = IocReady::default();
    gate.open();
    gate.open();
    assert!(!gate.wait());
}

fn client() -> DashboardClient {
    let mut c = DashboardClient::new();
    c.connect();
    c
}

#[test]
fn a_dashboard_command_goes_out_on_one_and_not_on_zero() {
    let c = client();
    match write_int32(&c, DashboardParams::Play, 1) {
        Ok(DashboardAction::Send(r)) => assert_eq!(r.command, "play"),
        other => panic!("{other:?}"),
    }
    for p in DashboardParams::create() {
        if p.is_command() {
            assert!(
                matches!(write_int32(&c, p, 0), Ok(DashboardAction::Nothing)),
                "{p:?}"
            );
        }
    }
    assert!(write_int32(&DashboardClient::new(), DashboardParams::Play, 1).is_err());
    assert!(matches!(
        write_int32(&DashboardClient::new(), DashboardParams::Connect, 1),
        Ok(DashboardAction::Connect)
    ));
}

#[test]
fn a_text_comes_without_the_zeros_at_its_end() {
    assert_eq!(written_text(b"demo.urp\0\0"), "demo.urp");
    assert_eq!(written_text(&[b'a', 0xff]), "a\u{fffd}");
    match write_octet(&client(), DashboardParams::LoadUrp, "demo.urp") {
        Ok(DashboardAction::Send(r)) => assert_eq!(r.command, "load demo.urp"),
        other => panic!("{other:?}"),
    }
}

#[test]
fn a_first_connection_publishes_who_is_there() {
    let v = PolyScopeVersion {
        major: 5,
        minor: 11,
        patch: 3,
        build: 108355,
    };
    let (updates, state) = first_connected(
        Ok(v),
        Ok("20195500926".to_string()),
        Err(UrError::Io("x".to_string())),
    );
    assert_eq!(state.polyscope, v);
    assert!(updates
        .iter()
        .any(|u| u.param == DashboardParams::SerialNumber
            && u.value == Published::Octet("20195500926".to_string())));
}

#[test]
fn a_look_shares_the_mode_and_a_failed_one_drops_the_link() {
    let mut state = DashboardState {
        connected: true,
        robot_mode: String::new(),
        polyscope: PolyScopeVersion::default(),
    };
    let (updates, _) = polled(
        Looked::Answered(Answers {
            running: true,
            program_state: "PLAYING".to_string(),
            robot_mode: "Robotmode: RUNNING".to_string(),
            loaded_program: "demo.urp".to_string(),
            safety_status: "NORMAL".to_string(),
            program_saved: true,
            remote: false,
        }),
        &mut state,
    );
    assert!(state.robot_running());
    assert!(updates
        .iter()
        .any(|u| u.param == DashboardParams::IsRunning && u.value == Published::Int32(1)));
    polled(Looked::Failed, &mut state);
    assert!(!state.robot_on());
}

#[test]
fn an_outcome_is_a_message() {
    assert!(command_outcome(Ok(())).is_ok());
    let e = command_outcome(Err(UrError::Io("x".to_string()))).unwrap_err();
    assert_eq!(e, "dashboard command failed");
    let mut state = DashboardState::default();
    let (updates, r) = connect_outcome(false, &mut state);
    assert!(r.is_err());
    assert!(updates
        .iter()
        .any(|u| u.param == DashboardParams::IsConnected && u.value == Published::Int32(0)));
}

#[test]
fn an_output_is_written_at_its_address() {
    let c = io::write_int32(io::IoParams::SetConfigDigitalOut, 2, 1, true)
        .unwrap()
        .unwrap();
    assert_eq!(c.recipe_id, RECIPE_CONF_DIGITAL_OUT);
    assert_eq!(c.payload, Payload::DigitalOut { mask: 4, value: 4 });
    assert!(matches!(
        io::write_int32(io::IoParams::SetConfigDigitalOut, 8, 1, true),
        Err(WriteError::Refused(_)) | Err(WriteError::Failed(_))
    ));
    assert!(io::write_int32(io::IoParams::SetConfigDigitalOut, 2, 1, false).is_err());
    let c = io::write_float64(io::IoParams::SpeedSlider, 0, 0.5f64.to_bits(), true)
        .unwrap()
        .unwrap();
    assert_eq!(
        c.payload,
        Payload::SpeedSlider {
            mask: 1,
            fraction: 0.5f64.to_bits(),
        }
    );
}
