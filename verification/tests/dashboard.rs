//! Requests to the dashboard server, and its replies.

use ioc_drivers::ur::dashboard::{
    is_running, parse_polyscope_version, received_line, says_remote, says_saved,
    serial_number_reply, version_reply, DashboardClient, PolyScopeVersion, DASHBOARD_PORT,
};
use ioc_drivers::ur::error::UrError;

#[test]
fn version_parse_pulls_four_part_number() {
    assert_eq!(
        parse_polyscope_version("URSoftware 5.11.3.108355 (Aug 09 2021)"),
        Some(PolyScopeVersion {
            major: 5,
            minor: 11,
            patch: 3,
            build: 108355
        })
    );
    assert_eq!(
        parse_polyscope_version("3.15.8.106339"),
        Some(PolyScopeVersion {
            major: 3,
            minor: 15,
            patch: 8,
            build: 106339
        })
    );
    assert_eq!(parse_polyscope_version("no version here"), None);
    assert_eq!(parse_polyscope_version("5.11.3"), None);
}

#[test]
fn remote_control_query_gated_on_5_6() {
    let v = |major, minor| PolyScopeVersion {
        major,
        minor,
        ..Default::default()
    };
    assert!(!v(5, 5).supports_remote_control_query());
    assert!(v(5, 6).supports_remote_control_query());
    assert!(v(5, 11).supports_remote_control_query());
    assert!(!v(3, 15).supports_remote_control_query());
}

fn client() -> DashboardClient {
    let mut c = DashboardClient::new();
    c.connect();
    c
}

#[test]
fn connect_consumes_the_banner_then_commands_line_up() {
    let c = client();
    assert_eq!(
        received_line("Connected: Universal Robots Dashboard Server\n").unwrap(),
        "Connected: Universal Robots Dashboard Server"
    );

    let mode = c.robot_mode().unwrap();
    let program = c.program_state().unwrap();
    let running = c.running().unwrap();
    assert_eq!(
        received_line("Robotmode: RUNNING\n").unwrap(),
        "Robotmode: RUNNING"
    );
    assert!(mode.check("Robotmode: RUNNING").is_ok());
    assert_eq!(received_line("STOPPED\n").unwrap(), "STOPPED");
    assert!(program.check("STOPPED").is_ok());
    assert!(is_running(&received_line("true\n").unwrap()));

    assert_eq!(
        vec![mode.command, program.command, running.command],
        vec!["robotmode", "programState", "running"]
    );
}

#[test]
fn play_requires_the_success_line() {
    let request = client().play().unwrap();
    assert!(request.check("Starting program").is_ok());

    let err = request.check("Failed to execute: play").unwrap_err();
    assert!(
        matches!(&err, UrError::Dashboard { command, reply }
            if command == "play" && reply == "Failed to execute: play"),
        "got {err:?}"
    );
}

#[test]
fn load_urp_matches_on_prefix() {
    let request = client().load_urp("demo.urp").unwrap();
    assert!(request.check("Loading program: /programs/demo.urp").is_ok());
    assert_eq!(request.command, "load demo.urp");

    let request = client().load_urp("nope.urp").unwrap();
    assert!(request.check("File not found: nope.urp").is_err());
}

#[test]
fn running_is_case_insensitive_but_program_saved_is_not() {
    assert!(is_running("Program running: True"));
    assert!(says_saved("True demo.urp"));

    assert!(!is_running("Program running: false"));
    assert!(!says_saved("False demo.urp"));
}

#[test]
fn remote_control_skips_the_wire_on_old_polyscope() {
    let cb3 = PolyScopeVersion {
        major: 3,
        minor: 15,
        ..Default::default()
    };
    assert!(client().is_in_remote_control(cb3).unwrap().is_none());
}

#[test]
fn serial_number_must_be_numeric() {
    let v = PolyScopeVersion {
        major: 5,
        minor: 11,
        ..Default::default()
    };
    assert!(client().serial_number(v).is_ok());
    assert_eq!(serial_number_reply("20195500926").unwrap(), "20195500926");
    assert!(serial_number_reply("not a number").is_err());
}

#[test]
fn unlock_protective_stop_checks_the_reply() {
    let request = client().unlock_protective_stop().unwrap();
    assert!(request.check("Protective stop releasing").is_ok());
    assert_eq!(request.command, "unlock protective stop");
}

#[test]
fn a_request_goes_out_as_one_line() {
    assert_eq!(client().power_on().unwrap().line(), "power on\n");
    assert_eq!(client().popup("hello").unwrap().line(), "popup hello\n");
}

#[test]
fn a_closed_connection_has_no_line() {
    assert!(received_line("").is_err());
    assert_eq!(received_line("a b\r\n").unwrap(), "a b");
}

#[test]
fn no_request_without_a_connection() {
    let mut c = client();
    assert!(c.is_connected());
    c.disconnect();
    assert!(!c.is_connected());
    for r in [c.stop(), c.pause(), c.shutdown(), c.brake_release(), c.load_urp("a")] {
        assert!(matches!(r, Err(UrError::NotConnected(_))));
    }
}

#[test]
fn the_remote_control_query_has_a_plain_answer() {
    let v = PolyScopeVersion {
        major: 5,
        minor: 11,
        ..Default::default()
    };
    let request = client().is_in_remote_control(v).unwrap().unwrap();
    assert_eq!(request.command, "is in remote control");
    assert!(says_remote("true"));
    assert!(!says_remote("false"));
}

#[test]
fn a_version_reply_without_a_number_is_an_error() {
    assert_eq!(
        version_reply("URSoftware 5.11.3.108355 (Aug 09 2021)").unwrap().minor,
        11
    );
    assert!(version_reply("no version here").is_err());
}

#[test]
fn the_dashboard_has_a_port_of_its_own() {
    assert_eq!(DASHBOARD_PORT, 29999);
}
