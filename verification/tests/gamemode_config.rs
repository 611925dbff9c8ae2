use lib::config::{parse_gamemode_config, GAMEMODE_CONFIG_PATH, GAMEMODE_DEFAULT_POLL_MS, MODE_GRIP_LONG_ID};
use lib::gamemode::{first_game_mode, gamemode_actions, TouchAction};

fn grip96(start: i32) -> Vec<i32> {
    (0..96).map(|i| start + i).collect()
}

fn grip_text(vals: &[i32], sep: &str) -> String {
    vals.iter().map(|v| v.to_string()).collect::<Vec<_>>().join(sep)
}

#[test]
fn parses_pairs_comments_and_grip() {
    let g = grip96(-4);
    let text = format!("# game profile\n\n0 1\n  4   3  \n15 {}\r\n9 -2\n", grip_text(&g, " , "));
    let cfg = parse_gamemode_config(&text).unwrap();
    assert_eq!(cfg.modes, vec![(0, 1), (4, 3), (9, -2)]);
    assert_eq!(cfg.grip, Some(g));
}

#[test]
fn grip_needs_96_values() {
    assert_eq!(parse_gamemode_config("15 1,2,3").unwrap_err(), "bad grip values: '1,2,3'");
    let g95 = grip_text(&grip96(0)[..95], ",");
    assert_eq!(parse_gamemode_config(&format!("15 {}", g95)).unwrap_err(), format!("bad grip values: '{}'", g95));
    let mut v97 = grip96(0);
    v97.push(1);
    assert!(parse_gamemode_config(&format!("15 {}", grip_text(&v97, ","))).is_err());
}

#[test]
fn empty_text_is_empty_config() {
    let cfg = parse_gamemode_config("").unwrap();
    assert!(cfg.modes.is_empty());
    assert_eq!(cfg.grip, None);
}

#[test]
fn last_grip_line_wins() {
    let text = format!("15 {}\n15 {}\n", grip_text(&grip96(0), ","), grip_text(&grip96(100), ","));
    let cfg = parse_gamemode_config(&text).unwrap();
    assert_eq!(cfg.grip, Some(grip96(100)));
}

#[test]
fn tab_separated_fields() {
    // the mode field ends at the first space only; tabs are trimmed
    let cfg = parse_gamemode_config("\t7\t 12").unwrap();
    assert_eq!(cfg.modes, vec![(7, 12)]);
}

#[test]
fn bad_mode_id() {
    assert_eq!(parse_gamemode_config("x 1").unwrap_err(), "bad mode id 'x'");
    assert_eq!(parse_gamemode_config("0 1\n70000 1").unwrap_err(), "bad mode id '70000'");
}

#[test]
fn bad_value() {
    assert_eq!(parse_gamemode_config("3 abc").unwrap_err(), "bad value 'abc' for mode 3");
    assert_eq!(parse_gamemode_config("12").unwrap_err(), "bad value '' for mode 12");
    assert_eq!(parse_gamemode_config("3 2147483648").unwrap_err(), "bad value '2147483648' for mode 3");
    assert_eq!(parse_gamemode_config("3 -2147483648").unwrap().modes, vec![(3, i32::MIN)]);
}

#[test]
fn bad_grip() {
    assert_eq!(parse_gamemode_config("15 1,,2").unwrap_err(), "bad grip values: '1,,2'");
    assert_eq!(parse_gamemode_config("15").unwrap_err(), "bad grip values: ''");
}

#[test]
fn first_error_wins() {
    assert_eq!(parse_gamemode_config("a 1\nb 2").unwrap_err(), "bad mode id 'a'");
}

#[test]
fn game_mode_off_only_resets() {
    let cfg = parse_gamemode_config(&format!("4 3\n0 0\n15 {}\n0 1", grip_text(&grip96(1), ","))).unwrap();
    assert_eq!(first_game_mode(&cfg.modes), Some(0));
    let acts = gamemode_actions(&cfg);
    assert_eq!(acts.len(), 1);
    assert!(matches!(acts[0], TouchAction::Reset { mode: 0 }));
}

#[test]
fn grip_goes_first_then_values_in_order() {
    let cfg = parse_gamemode_config(&format!("0 1\n4 3\n15 {}", grip_text(&grip96(9), ","))).unwrap();
    let acts = gamemode_actions(&cfg);
    assert_eq!(acts.len(), 3);
    match &acts[0] {
        TouchAction::SetLong { mode, values } => {
            assert_eq!(*mode, MODE_GRIP_LONG_ID);
            assert_eq!(values, &grip96(9));
        }
        other => panic!("unexpected {:?}", other),
    }
    assert!(matches!(acts[1], TouchAction::SetValue { mode: 0, value: 1 }));
    assert!(matches!(acts[2], TouchAction::SetValue { mode: 4, value: 3 }));
}

#[test]
fn no_game_mode_entry_applies_everything() {
    let cfg = parse_gamemode_config("5 5").unwrap();
    assert_eq!(first_game_mode(&cfg.modes), None);
    let acts = gamemode_actions(&cfg);
    assert_eq!(acts.len(), 1);
    assert!(matches!(acts[0], TouchAction::SetValue { mode: 5, value: 5 }));
}

#[test]
fn defaults() {
    assert_eq!(GAMEMODE_CONFIG_PATH, "/data/oofcontrol/gamemode.txt");
    assert_eq!(GAMEMODE_DEFAULT_POLL_MS, 500);
}

#[test]
fn comment_appended_changes_nothing() {
    let a = parse_gamemode_config("1 2\n3 4").unwrap();
    let b = parse_gamemode_config("1 2\n3 4\n   # note").unwrap();
    assert_eq!(a.modes, b.modes);
    assert_eq!(a.grip, b.grip);
}

#[test]
fn written_pair_reads_back() {
    for (m, v) in [(0u16, 1i32), (4, -7), (65535, i32::MIN), (14, i32::MAX)] {
        let cfg = parse_gamemode_config(&format!("{} {}", m, v)).unwrap();
        assert_eq!(cfg.modes, vec![(m, v)]);
        assert_eq!(cfg.grip, None);
    }
}

#[test]
fn written_grip_reads_back() {
    let vals: Vec<i32> = (0..96).map(|i| i * 7 - 300).collect();
    let line = format!("15 {}", vals.iter().map(|v| v.to_string()).collect::<Vec<_>>().join(","));
    let cfg = parse_gamemode_config(&line).unwrap();
    assert!(cfg.modes.is_empty());
    assert_eq!(cfg.grip, Some(vals));
}

#[test]
fn inserted_comments_and_whitespace_change_nothing() {
    let base = parse_gamemode_config("1 2\n3 4").unwrap();
    for text in ["# head\n1 2\n\n   \n3 4", "1 2\n  # mid\n3 4", "  1 2\t\n\t3 4   "] {
        let cfg = parse_gamemode_config(text).unwrap();
        assert_eq!(cfg.modes, base.modes);
        assert_eq!(cfg.grip, base.grip);
    }
    assert_eq!(parse_gamemode_config("# x\nq 1").unwrap_err(), parse_gamemode_config("q 1").unwrap_err());
}

struct FailingProtocol {
    calls: std::cell::RefCell<Vec<String>>,
}

impl lib::protocol::TouchIoctlProtocol for FailingProtocol {
    fn set_post(&self, _fd: i32, _touch_id: u32, _mode: u16, _value: i32, _r: Result<(), String>) -> bool {
        true
    }

    fn get_post(&self, _fd: i32, _touch_id: u32, _mode: u16, _cmd: lib::ioctl::Cmd, _r: Result<i32, String>) -> bool {
        true
    }

    fn get_mode_all_post(&self, _fd: i32, _touch_id: u32, _mode: u16, _r: Result<[i32; 6], String>) -> bool {
        true
    }

    fn reset_post(&self, _fd: i32, _touch_id: u32, _mode: u16, _r: Result<(), String>) -> bool {
        true
    }

    fn set_long_post(&self, _fd: i32, _touch_id: u32, _mode: u16, _values: &[i32], _r: Result<(), String>) -> bool {
        true
    }

    fn set(&self, _fd: i32, tid: u32, mode: u16, value: i32) -> Result<(), String> {
        self.calls.borrow_mut().push(format!("set {} {} {}", tid, mode, value));
        Err("no device".to_string())
    }
    fn get(&self, _fd: i32, _tid: u32, _mode: u16, _cmd: lib::ioctl::Cmd) -> Result<i32, String> {
        Err("unused".to_string())
    }
    fn get_mode_all(&self, _fd: i32, _tid: u32, _mode: u16) -> Result<[i32; 6], String> {
        Err("unused".to_string())
    }
    fn reset(&self, _fd: i32, tid: u32, mode: u16) -> Result<(), String> {
        self.calls.borrow_mut().push(format!("reset {} {}", tid, mode));
        Err("no device".to_string())
    }
    fn set_long(&self, _fd: i32, tid: u32, mode: u16, values: &[i32]) -> Result<(), String> {
        self.calls.borrow_mut().push(format!("long {} {} {}", tid, mode, values.len()));
        Err("no device".to_string())
    }
    fn print_specific_ioctl_codes(&self) {}
}

#[test]
fn failing_calls_never_skip_later_ones() {
    let p = FailingProtocol { calls: std::cell::RefCell::new(Vec::new()) };
    let cfg = parse_gamemode_config(&format!("0 1\n15 {}\n4 3", grip_text(&grip96(0), ","))).unwrap();
    let (actions, outcomes) = lib::gamemode::apply_gamemode_config(&p, 3, 1, &cfg);
    assert_eq!(actions.len(), 3);
    assert_eq!(outcomes.len(), 3);
    assert!(outcomes.iter().all(|o| o.is_err()));
    assert_eq!(*p.calls.borrow(), vec!["long 1 15 96", "set 1 0 1", "set 1 4 3"]);

    let p = FailingProtocol { calls: std::cell::RefCell::new(Vec::new()) };
    let cfg = parse_gamemode_config("0 0\n4 3").unwrap();
    let (_, outcomes) = lib::gamemode::apply_gamemode_config(&p, 3, 2, &cfg);
    assert_eq!(outcomes.len(), 1);
    assert_eq!(*p.calls.borrow(), vec!["reset 2 0"]);
}

struct RecordingProtocol {
    calls: std::cell::RefCell<Vec<String>>,
}

impl lib::protocol::TouchIoctlProtocol for RecordingProtocol {
    fn set_post(&self, _fd: i32, _touch_id: u32, _mode: u16, _value: i32, _r: Result<(), String>) -> bool {
        true
    }

    fn get_post(&self, _fd: i32, _touch_id: u32, _mode: u16, _cmd: lib::ioctl::Cmd, _r: Result<i32, String>) -> bool {
        true
    }

    fn get_mode_all_post(&self, _fd: i32, _touch_id: u32, _mode: u16, _r: Result<[i32; 6], String>) -> bool {
        true
    }

    fn reset_post(&self, _fd: i32, _touch_id: u32, _mode: u16, _r: Result<(), String>) -> bool {
        true
    }

    fn set_long_post(&self, _fd: i32, _touch_id: u32, _mode: u16, _values: &[i32], _r: Result<(), String>) -> bool {
        true
    }

    fn set(&self, fd: i32, tid: u32, mode: u16, value: i32) -> Result<(), String> {
        self.calls.borrow_mut().push(format!("set {} {} {} {}", fd, tid, mode, value));
        Ok(())
    }
    fn get(&self, _fd: i32, _tid: u32, _mode: u16, _cmd: lib::ioctl::Cmd) -> Result<i32, String> {
        Ok(0)
    }
    fn get_mode_all(&self, _fd: i32, _tid: u32, _mode: u16) -> Result<[i32; 6], String> {
        Ok([0; 6])
    }
    fn reset(&self, fd: i32, tid: u32, mode: u16) -> Result<(), String> {
        self.calls.borrow_mut().push(format!("reset {} {} {}", fd, tid, mode));
        Ok(())
    }
    fn set_long(&self, fd: i32, tid: u32, mode: u16, values: &[i32]) -> Result<(), String> {
        let vals: Vec<String> = values.iter().map(|v| v.to_string()).collect();
        self.calls.borrow_mut().push(format!("long {} {} {} {}", fd, tid, mode, vals.join(",")));
        Ok(())
    }
    fn print_specific_ioctl_codes(&self) {}
}

#[test]
fn game_mode_off_makes_only_the_reset_call() {
    let p = RecordingProtocol { calls: std::cell::RefCell::new(Vec::new()) };
    let cfg = lib::config::GamemodeConfig { modes: vec![(9, 2), (0, 0), (0, 1)], grip: Some(vec![1; 96]) };
    let (_, outcomes) = lib::gamemode::apply_gamemode_config(&p, 3, 1, &cfg);
    assert_eq!(outcomes, vec![Ok(())]);
    assert_eq!(*p.calls.borrow(), vec!["reset 3 1 0"]);
}

#[test]
fn grip_call_comes_before_the_value_calls() {
    let p = RecordingProtocol { calls: std::cell::RefCell::new(Vec::new()) };
    let cfg = lib::config::GamemodeConfig { modes: vec![(0, 1), (9, 2)], grip: Some(vec![7; 96]) };
    let (_, outcomes) = lib::gamemode::apply_gamemode_config(&p, 5, 1, &cfg);
    assert_eq!(outcomes, vec![Ok(()), Ok(()), Ok(())]);
    let sevens = vec!["7"; 96].join(",");
    assert_eq!(*p.calls.borrow(), vec![format!("long 5 1 15 {}", sevens), "set 5 1 0 1".to_string(), "set 5 1 9 2".to_string()]);
}

#[test]
fn failed_open_makes_no_call() {
    let p = RecordingProtocol { calls: std::cell::RefCell::new(Vec::new()) };
    let cfg = lib::config::GamemodeConfig { modes: vec![(4, 3)], grip: None };
    assert!(lib::daemon::apply_to_open_device(&p, -1, 0, &cfg).is_none());
    assert!(p.calls.borrow().is_empty());
    let (actions, outcomes) = lib::daemon::apply_to_open_device(&p, 6, 0, &cfg).unwrap();
    assert_eq!(actions.len(), 1);
    assert_eq!(outcomes, vec![Ok(())]);
    assert_eq!(*p.calls.borrow(), vec!["set 6 0 4 3"]);
}
