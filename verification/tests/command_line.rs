use lib::cli::{
    daemon_mode_arg, gesture_node_value, long_values, parse_cli_options, parse_subcommand, req_i32,
    req_mode, req_mode_legacy, resolve_value, setting_from_output, sync_step, CliStart, Subcommand,
};
use lib::daemon::{parse_daemon_args, DaemonArgs, TextOutcome, WatchState};
use lib::ioctl::Cmd;
use lib::tool::{parse_tool_options, ToolStart, Version};
use lib::request::Layout;

fn args(v: &[&str]) -> Vec<String> {
    v.iter().map(|s| s.to_string()).collect()
}

#[test]
fn resolve_value_raises_enable_of_modes_2_to_5() {
    assert_eq!(resolve_value(2, 1), 5);
    assert_eq!(resolve_value(5, 1), 5);
    assert_eq!(resolve_value(6, 1), 1);
    assert_eq!(resolve_value(1, 1), 1);
    assert_eq!(resolve_value(3, 0), 0);
    assert_eq!(resolve_value(3, 2), 2);
}

#[test]
fn gesture_nodes_only_for_doubletap() {
    assert_eq!(gesture_node_value(14, 1), Some("1"));
    assert_eq!(gesture_node_value(14, 7), Some("1"));
    assert_eq!(gesture_node_value(14, 0), Some("0"));
    assert_eq!(gesture_node_value(14, -3), Some("0"));
    assert_eq!(gesture_node_value(13, 1), None);
}

#[test]
fn settings_output() {
    assert_eq!(setting_from_output(b"1\n"), Some(1));
    assert_eq!(setting_from_output(b"0\n"), Some(0));
    assert_eq!(setting_from_output(b"10"), Some(1));
    assert_eq!(setting_from_output(b"null\n"), None);
    assert_eq!(setting_from_output(b""), None);
}

#[test]
fn sync_applies_each_reading_once() {
    assert_eq!(sync_step(14, -1, 1), (1, Some(1)));
    assert_eq!(sync_step(14, 1, 1), (1, None));
    assert_eq!(sync_step(14, 1, -1), (1, None));
    assert_eq!(sync_step(3, 0, 1), (1, Some(5)));
    assert_eq!(sync_step(3, 1, 0), (0, Some(0)));
}

#[test]
fn mode_and_integer_arguments() {
    let a = args(&["x", "set", "game", "12", "oops"]);
    assert_eq!(req_mode(&a, 2), Ok(0));
    assert_eq!(req_mode(&a, 9), Err("missing <mode> argument".to_string()));
    assert!(req_mode(&a, 4).unwrap_err().starts_with("unknown mode 'oops'"));
    assert_eq!(req_mode_legacy(&a, 2), Ok(0));
    assert_eq!(req_i32(&a, 3, "value"), Ok(12));
    assert_eq!(req_i32(&a, 4, "value"), Err("<value> must be integer, got 'oops'".to_string()));
    assert_eq!(req_i32(&a, 5, "value"), Err("missing <value> argument".to_string()));
}

#[test]
fn long_argument_values() {
    let a = args(&["x", "long", "grip", "1", "-2", "3"]);
    assert_eq!(long_values(&a, 3), Ok(vec![1, -2, 3]));
    assert_eq!(long_values(&a, 6), Err("'long' requires at least one value".to_string()));
    let b = args(&["x", "long", "grip", "1", "z", "y"]);
    assert_eq!(long_values(&b, 3), Err("expected integer, got 'z'".to_string()));
}

#[test]
fn daemon_mode_defaults_to_doubletap() {
    let a = args(&["x", "daemon"]);
    assert_eq!(daemon_mode_arg(&a, 2), Ok(14));
    let b = args(&["x", "daemon", "aod"]);
    assert_eq!(daemon_mode_arg(&b, 2), Ok(11));
}

#[test]
fn cli_options() {
    match parse_cli_options(&args(&["x", "--touch-id", "2", "get", "game"])) {
        CliStart::Run { touch_id, next } => {
            assert_eq!(touch_id, 2);
            assert_eq!(next, 3);
        }
        _ => panic!("expected run"),
    }
    match parse_cli_options(&args(&["x"])) {
        CliStart::Run { touch_id, next } => {
            assert_eq!(touch_id, 0);
            assert_eq!(next, 1);
        }
        _ => panic!("expected run"),
    }
    assert!(matches!(parse_cli_options(&args(&["x", "-h", "set"])), CliStart::Help));
    match parse_cli_options(&args(&["x", "--touch-id", "-1"])) {
        CliStart::Fail(e) => assert_eq!(e, "--touch-id needs a non-negative integer"),
        _ => panic!("expected failure"),
    }
    assert!(matches!(parse_cli_options(&args(&["x", "--touch-id"])), CliStart::Fail(_)));
}

#[test]
fn subcommands() {
    assert_eq!(parse_subcommand("get", false), Subcommand::Get(Cmd::GetCurValue));
    assert_eq!(parse_subcommand("max", true), Subcommand::Get(Cmd::GetMaxValue));
    assert_eq!(parse_subcommand("--e", false), Subcommand::Enable);
    assert_eq!(parse_subcommand("--e", true), Subcommand::Unknown);
    assert_eq!(parse_subcommand("detect", true), Subcommand::Detect);
    assert_eq!(parse_subcommand("detect", false), Subcommand::Unknown);
    assert_eq!(parse_subcommand("status", false), Subcommand::Status);
    assert_eq!(parse_subcommand("set", false), Subcommand::SetValue);
    assert_eq!(parse_subcommand("frobnicate", false), Subcommand::Unknown);
}

#[test]
fn daemon_arguments() {
    match parse_daemon_args(&args(&["d"]), "/cfg") {
        DaemonArgs::Run { touch_id, config_path, poll_ms } => {
            assert_eq!((touch_id, config_path.as_str(), poll_ms), (0, "/cfg", 500));
        }
        _ => panic!("expected run"),
    }
    match parse_daemon_args(&args(&["d", "--poll-ms", "250", "--file", "/x", "--touch-id", "1"]), "/cfg") {
        DaemonArgs::Run { touch_id, config_path, poll_ms } => {
            assert_eq!((touch_id, config_path.as_str(), poll_ms), (1, "/x", 250));
        }
        _ => panic!("expected run"),
    }
    assert!(matches!(parse_daemon_args(&args(&["d", "-h"]), "/cfg"), DaemonArgs::Help));
    match parse_daemon_args(&args(&["d", "--bogus"]), "/cfg") {
        DaemonArgs::Fail(e) => assert_eq!(e, "unknown argument '--bogus'"),
        _ => panic!("expected failure"),
    }
    match parse_daemon_args(&args(&["d", "--file"]), "/cfg") {
        DaemonArgs::Fail(e) => assert_eq!(e, "--file needs a path"),
        _ => panic!("expected failure"),
    }
    match parse_daemon_args(&args(&["d", "--poll-ms", "x"]), "/cfg") {
        DaemonArgs::Fail(e) => assert_eq!(e, "--poll-ms needs an integer"),
        _ => panic!("expected failure"),
    }
    match parse_daemon_args(&args(&["d", "--touch-id"]), "/cfg") {
        DaemonArgs::Fail(e) => assert_eq!(e, "--touch-id needs an integer"),
        _ => panic!("expected failure"),
    }
}

#[test]
fn watcher_reads_on_change_and_applies_new_text_once() {
    let mut w = WatchState::new();
    assert!(!w.poll(None));
    assert!(w.poll(Some(10)));
    assert!(!w.poll(Some(10)));
    assert!(!w.poll(None));
    assert_eq!(w.last_mtime, Some(10));
    assert!(w.poll(Some(11)));
    assert!(w.accept("0 1"));
    assert!(!w.accept("0 1"));
    assert!(w.accept("0 0"));
    assert_eq!(w.last_content.as_deref(), Some("0 0"));
}

#[test]
fn tool_options() {
    match parse_tool_options(&args(&["t", "--v1", "--v3", "--touch-id", "1", "--detect", "get", "x"])) {
        ToolStart::Run { version, touch_id, detect_only, next } => {
            assert_eq!(version, Some(Version::V3));
            assert_eq!(touch_id, 1);
            assert!(detect_only);
            assert_eq!(next, 6);
        }
        _ => panic!("expected run"),
    }
    assert!(matches!(parse_tool_options(&args(&["t", "--help"])), ToolStart::Help));
    assert!(matches!(parse_tool_options(&args(&["t", "--touch-id", "q"])), ToolStart::Fail(_)));
    assert_eq!(Version::detect(true, 0), Version::V3);
    assert_eq!(Version::detect(true, -1), Version::V2);
    assert_eq!(Version::detect(false, 0), Version::V2);
    assert_eq!(Version::V1.layout(), Layout::V1);
}

#[test]
fn settings_daemon_over_a_run() {
    // readings as polled; applied iff known and different from the last known one
    let readings = [-1, 1, 1, -1, 1, 0, 0, -1, 1];
    let mut last = -1;
    let mut applied = Vec::new();
    for &r in &readings {
        let (next, apply) = sync_step(14, last, r);
        if let Some(v) = apply {
            applied.push(v);
        }
        last = next;
    }
    assert_eq!(applied, vec![1, 0, 1]);
}

#[test]
fn watcher_over_a_run() {
    let mut w = WatchState::new();
    // poll 0: file appears, text A applied
    assert!(w.poll(Some(1)));
    assert!(w.accept("A"));
    // poll 1: touched, same text: nothing applied
    assert!(w.poll(Some(2)));
    assert!(!w.accept("A"));
    // poll 2: touched, read fails (no accept), then touched again with A: still nothing
    assert!(w.poll(Some(3)));
    assert!(w.poll(Some(4)));
    assert!(!w.accept("A"));
    // poll: file gone, then back with the last time seen: not read
    assert!(!w.poll(None));
    assert!(!w.poll(Some(4)));
    // new text B applied once
    assert!(w.poll(Some(5)));
    assert!(w.accept("B"));
}

#[test]
fn watcher_takes_text_once_and_parses_it() {
    let mut w = WatchState::new();
    assert!(w.poll(Some(1)));
    match w.take_text("0 1\n4 3") {
        TextOutcome::Apply(cfg) => assert_eq!(cfg.modes, vec![(0, 1), (4, 3)]),
        _ => panic!("expected a configuration"),
    }
    assert!(w.poll(Some(2)));
    assert!(matches!(w.take_text("0 1\n4 3"), TextOutcome::Unchanged));
    assert!(w.poll(Some(3)));
    match w.take_text("x 1") {
        TextOutcome::Invalid(e) => assert_eq!(e, "bad mode id 'x'"),
        _ => panic!("expected a parse error"),
    }
    // the failed text is not retried until the text changes
    assert!(w.poll(Some(4)));
    assert!(matches!(w.take_text("x 1"), TextOutcome::Unchanged));
}
