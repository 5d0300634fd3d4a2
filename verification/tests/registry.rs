//! What the ports of one robot know of each other.

use ioc_drivers::ur::dashboard::PolyScopeVersion;
use ioc_drivers::ur::registry::{DashboardHandle, DashboardState, ReceiveState, Registry};

#[test]
fn a_dashboard_is_found_by_its_port_name() {
    let mut dashboards = Registry::new();
    let mut h = DashboardHandle::new("192.168.1.10");
    h.set(DashboardState {
        connected: true,
        robot_mode: "Robotmode: RUNNING".into(),
        polyscope: PolyScopeVersion {
            major: 5,
            minor: 11,
            patch: 3,
            build: 108355,
        },
    });
    dashboards.register("UR_DASH_TEST", h);

    let found = dashboards.get("UR_DASH_TEST").expect("registered dashboard");
    assert_eq!(found.ip, "192.168.1.10");
    assert!(found.get().robot_on());
    assert!(found.get().robot_running());
    assert_eq!(found.get().polyscope.major, 5);
    assert!(dashboards.get("NO_SUCH_PORT").is_none());
}

#[test]
fn robot_on_requires_a_connected_dashboard_and_a_powered_mode() {
    let mut s = DashboardState {
        connected: true,
        robot_mode: "Robotmode: IDLE".into(),
        polyscope: PolyScopeVersion::default(),
    };
    assert!(s.robot_on());
    assert!(!s.robot_running());

    s.robot_mode = "Robotmode: POWER_OFF".into();
    assert!(!s.robot_on());

    s.robot_mode = "Robotmode: RUNNING".into();
    assert!(s.robot_on());
    s.connected = false;
    assert!(!s.robot_on());
}

#[test]
fn a_receiver_publishes_safety_bits_and_the_script_counter() {
    let mut receivers = Registry::new();
    receivers.register("UR_RECV_TEST", ReceiveState::default());
    receivers.register(
        "UR_RECV_TEST",
        ReceiveState {
            connected: true,
            safety_status_bits: 1,
            output_int_register_12: 7,
        },
    );

    let s = receivers.get("UR_RECV_TEST").expect("registered receiver");
    assert_eq!(s.safety_status_bits, 1);
    assert_eq!(s.output_int_register_12, 7);
    assert!(receivers.get("NO_SUCH_PORT").is_none());
}

#[test]
fn a_later_registration_replaces_the_earlier_one() {
    let mut r = Registry::new();
    r.register("a", 1);
    r.register("b", 2);
    r.register("a", 3);
    assert_eq!(r.get("a"), Some(&3));
    assert_eq!(r.get("b"), Some(&2));
    assert_eq!(r.get("c"), None);
}

#[test]
fn a_new_dashboard_is_not_connected() {
    let h = DashboardHandle::new("10.0.0.1");
    assert_eq!(h.get(), &DashboardState::default());
    assert!(!h.get().robot_on());
    assert!(!h.get().robot_running());
}
