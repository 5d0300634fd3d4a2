//! Scripts for the controller.

use ioc_drivers::ur::error::UrError;
use ioc_drivers::ur::script::{
    build_control_script, inject, remove_unsupported_functions, wrap_custom_script, Injection,
    INJECT_FLOAT_OFFSET, INJECT_INT_OFFSET, SCRIPT_PORT,
};

#[test]
fn keeps_supported_line_and_blanks_marker_to_five_chars() {
    let s = "$5.4  while step_back > 0:\n";
    let out = remove_unsupported_functions(s, 5, 11).unwrap();
    assert_eq!(out, "      while step_back > 0:\n");
    assert_eq!(out.len(), s.len());
}

#[test]
fn drops_line_when_controller_too_old() {
    let s = "keep me\n$5.23  direct_torque()\nkeep me too\n";
    let out = remove_unsupported_functions(s, 5, 11).unwrap();
    assert_eq!(out, "keep me\nkeep me too\n");
}

#[test]
fn five_char_marker_blanks_exactly_five() {
    let s = "$5.10 foo()\n";
    let out = remove_unsupported_functions(s, 5, 11).unwrap();
    assert_eq!(out, "      foo()\n");
    assert_eq!(out.len(), s.len());
}

#[test]
fn dual_version_marker_blanks_ten_and_accepts_either_line() {
    let s = "$5.10|3.15 foo()\n";
    assert_eq!(
        remove_unsupported_functions(s, 5, 11).unwrap(),
        "           foo()\n"
    );
    assert_eq!(
        remove_unsupported_functions(s, 3, 15).unwrap(),
        "           foo()\n"
    );
    assert_eq!(remove_unsupported_functions(s, 3, 14).unwrap(), "");
}

#[test]
fn newer_major_satisfies_any_marker() {
    let s = "$3.5  foo()\n";
    assert_eq!(
        remove_unsupported_functions(s, 5, 0).unwrap(),
        "      foo()\n"
    );
}

#[test]
fn polyscope_x_below_10_9_strips_direct_torque_lines() {
    let s = "$5.23  direct_torque()\nplain\n";
    assert_eq!(
        remove_unsupported_functions(s, 10, 8).unwrap(),
        "plain\n",
        "PolyScopeX 10.8 must not receive direct-torque script code"
    );
    assert_eq!(
        remove_unsupported_functions(s, 10, 9).unwrap(),
        "       direct_torque()\nplain\n"
    );
    assert_eq!(
        remove_unsupported_functions("$5.4  foo()\n", 10, 8).unwrap(),
        "      foo()\n"
    );
}

#[test]
fn malformed_marker_is_an_error_not_a_panic() {
    assert!(remove_unsupported_functions("$ oops\n", 5, 11).is_err());
    assert!(remove_unsupported_functions("$x.y foo\n", 5, 11).is_err());
}

#[test]
fn injection_splices_after_the_anchor() {
    let script = "a\n# int register offset\nb\n";
    let out = inject(
        script,
        &vec![Injection {
            search: INJECT_INT_OFFSET.into(),
            inject: "24".into(),
        }],
    );
    assert_eq!(out, "a\n# int register offset\n24b\n");
}

#[test]
fn missing_anchor_is_skipped() {
    let out = inject(
        "nothing here\n",
        &vec![Injection {
            search: "# absent\n".into(),
            inject: "X".into(),
        }],
    );
    assert_eq!(out, "nothing here\n");
}

#[test]
fn wrap_custom_script_indents_and_bumps_register_12() {
    let out = wrap_custom_script("movej([0,0,0,0,0,0])\ntextmsg(\"hi\")");
    assert_eq!(
        out,
        "def custom_func():\n\
         \tmovej([0,0,0,0,0,0])\n\
         \ttextmsg(\"hi\")\n\
         \twrite_output_integer_register(12, read_output_integer_register(12)+1)\n\
         end\n"
    );
}

const BODY: &str = "# int register offset\n\
global reg = 1\n\
$5.23  direct_torque()\n\
$3.5  popup()\n";

#[test]
fn a_control_script_is_the_header_and_the_filtered_body_with_its_values() {
    let script = build_control_script(
        BODY,
        5,
        11,
        &vec![Injection {
            search: INJECT_INT_OFFSET.into(),
            inject: "24".into(),
        }],
    )
    .unwrap();
    assert!(script.starts_with("def rtde_control():\n"));
    assert!(script.ends_with("end\n"));
    assert!(!script.contains('$'));
    assert!(script.contains("# int register offset\n24"));
    assert!(!script.contains("direct_torque"));
    assert!(script.contains("popup()"));
}

#[test]
fn a_newer_controller_gets_the_longer_script() {
    let cb3 = build_control_script(BODY, 3, 15, &vec![]).unwrap();
    let e_series = build_control_script(BODY, 5, 23, &vec![]).unwrap();
    assert!(!cb3.contains('$'));
    assert!(!e_series.contains('$'));
    assert!(cb3.len() < e_series.len());
}

#[test]
fn a_script_without_markers_is_left_as_it_is() {
    let s = "def f():\n\tg()\nend";
    assert_eq!(remove_unsupported_functions(s, 3, 0).unwrap(), s);
    assert_eq!(remove_unsupported_functions("", 3, 0).unwrap(), "");
}

#[test]
fn a_bad_marker_is_a_script_error() {
    let e = remove_unsupported_functions("$ oops\n", 5, 11).unwrap_err();
    assert!(matches!(e, UrError::Script(_)));
    assert!(build_control_script("$x.y foo\n", 5, 11, &vec![]).is_err());
}

#[test]
fn injections_apply_in_order() {
    let out = inject(
        "a# float register offset\nb# int register offset\n",
        &vec![
            Injection {
                search: INJECT_FLOAT_OFFSET.into(),
                inject: "1".into(),
            },
            Injection {
                search: INJECT_INT_OFFSET.into(),
                inject: "2".into(),
            },
        ],
    );
    assert_eq!(out, "a# float register offset\n1b# int register offset\n2");
}

#[test]
fn the_script_port_is_the_real_time_client_port() {
    assert_eq!(SCRIPT_PORT, 30003);
}

#[test]
fn a_bar_counts_at_the_fifth_byte_only() {
    let s = "a\n$9.2\u{e9}|x\nb\n";
    assert_eq!(remove_unsupported_functions(s, 5, 0).unwrap(), "a\nb\n");
    assert!(remove_unsupported_functions("$9.2e|x\n", 5, 0).is_err());
    assert_eq!(
        remove_unsupported_functions("$9.2e|5.0 y\n", 5, 0).unwrap(),
        format!("{}y\n", " ".repeat(10))
    );
}
