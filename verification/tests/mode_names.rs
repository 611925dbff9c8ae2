use lib::modes::{all_modes, mode_from_lowercase, mode_name, mode_name_legacy, parse_mode, parse_mode_legacy};

#[test]
fn parse_mode_numbers() {
    assert_eq!(parse_mode("0"), Ok(0));
    assert_eq!(parse_mode("21"), Ok(21));
    assert_eq!(parse_mode("+7"), Ok(7));
    assert_eq!(parse_mode("007"), Ok(7));
}

#[test]
fn parse_mode_refuses_numbers_beyond_table() {
    for s in ["22", "999", "65535", "65536"] {
        let e = parse_mode(s).unwrap_err();
        assert!(e.starts_with(&format!("unknown mode '{}' \u{2014} use an integer (0-21)", s)));
    }
    assert!(parse_mode_legacy("21").is_err());
}

#[test]
fn parse_mode_names_and_aliases() {
    assert_eq!(parse_mode("game"), Ok(0));
    assert_eq!(parse_mode("GAME_MODE"), Ok(0));
    assert_eq!(parse_mode("Up_Threshold"), Ok(2));
    assert_eq!(parse_mode("upthreshold"), Ok(2));
    assert_eq!(parse_mode("dt2w"), Ok(14));
    assert_eq!(parse_mode("grip"), Ok(15));
    assert_eq!(parse_mode("rate"), Ok(9));
    assert_eq!(parse_mode("mode-num"), Ok(21));
    assert_eq!(parse_mode("MODE_NUM"), Ok(21));
}

#[test]
fn parse_mode_unknown_message() {
    let e = parse_mode("bogus").unwrap_err();
    assert_eq!(
        e,
        "unknown mode 'bogus' \u{2014} use an integer (0-21) or: game active up-threshold tolerance aim tap expert edge orientation rate fod aod resist-rf idle-time doubletap grip fod-icon nonui debug-level power-status pen mode-num"
    );
    assert!(parse_mode("65536").is_err());
    assert!(parse_mode("-1").is_err());
    assert!(parse_mode("").is_err());
    assert!(parse_mode("+").is_err());
}

#[test]
fn legacy_table_has_no_mode_num() {
    assert_eq!(parse_mode_legacy("pen"), Ok(20));
    assert_eq!(parse_mode_legacy("20"), Ok(20));
    let e = parse_mode_legacy("mode-num").unwrap_err();
    assert!(e.starts_with("unknown mode 'mode-num' \u{2014} use an integer (0-20) or:"));
    assert!(e.ends_with("power-status pen"));
    assert_eq!(mode_name_legacy(21), "?");
    assert_eq!(mode_name(21), "mode-num");
}

#[test]
fn mode_names() {
    assert_eq!(mode_name(0), "game-mode");
    assert_eq!(mode_name(4), "aim-sensitivity");
    assert_eq!(mode_name(14), "doubletap");
    assert_eq!(mode_name(22), "?");
    assert_eq!(mode_name(u16::MAX), "?");
}

#[test]
fn every_name_parses_back() {
    for n in 0..=21u16 {
        assert_eq!(parse_mode(mode_name(n)), Ok(n));
        assert_eq!(parse_mode(&mode_name(n).to_uppercase()), Ok(n));
        assert_eq!(parse_mode(&n.to_string()), Ok(n));
    }
    for n in 0..=20u16 {
        assert_eq!(parse_mode_legacy(mode_name_legacy(n)), Ok(n));
    }
}

#[test]
fn all_modes_tables() {
    let full = all_modes(true);
    assert_eq!(full.len(), 22);
    assert_eq!(full[15], (15, "grip-mode"));
    assert_eq!(full[21], (21, "mode-num"));
    let legacy = all_modes(false);
    assert_eq!(legacy.len(), 21);
    assert_eq!(legacy[20], (20, "pen"));
}

#[test]
fn lowercase_lookup() {
    assert_eq!(mode_from_lowercase("edge_filter", true), Some(7));
    assert_eq!(mode_from_lowercase("mode_num", false), None);
    assert_eq!(mode_from_lowercase("Game", true), None);
}
