use vstd::prelude::*;
use crate::text::{
    decimal, lemma_decimal_parses,
    parse_u16_spec, unicode_lowercase, ascii_lower, all_ascii, str_chars, range_eq, parse_u16,
    str_to_lowercase,
};

verus! {

/// Tail of the message for an unknown mode name (modes 0 to 21).
pub const UNKNOWN_MODE_HINT: &'static str = "' \u{2014} use an integer (0-21) or: game active up-threshold tolerance aim tap expert edge orientation rate fod aod resist-rf idle-time doubletap grip fod-icon nonui debug-level power-status pen mode-num";

/// Tail of the message for an unknown mode name in the table without
/// `mode-num` (modes 0 to 20).
pub const UNKNOWN_MODE_HINT_LEGACY: &'static str = "' \u{2014} use an integer (0-20) or: game active up-threshold tolerance aim tap expert edge orientation rate fod aod resist-rf idle-time doubletap grip fod-icon nonui debug-level power-status pen";

/// The mode numbered by a name (after lowercasing and `_` to `-`), with or
/// without the `mode-num` entry (21).
pub open spec fn mode_code(name: Seq<char>, with_mode_num: bool) -> Option<u16> {
    if name == "game"@ || name == "game-mode"@ {
        Some(0u16)
    } else if name == "active"@ {
        Some(1u16)
    } else if name == "up-threshold"@ || name == "upthreshold"@ {
        Some(2u16)
    } else if name == "tolerance"@ {
        Some(3u16)
    } else if name == "aim"@ || name == "aim-sensitivity"@ {
        Some(4u16)
    } else if name == "tap"@ || name == "tap-stability"@ {
        Some(5u16)
    } else if name == "expert"@ {
        Some(6u16)
    } else if name == "edge"@ || name == "edge-filter"@ {
        Some(7u16)
    } else if name == "orientation"@ {
        Some(8u16)
    } else if name == "rate"@ || name == "report-rate"@ {
        Some(9u16)
    } else if name == "fod"@ {
        Some(10u16)
    } else if name == "aod"@ {
        Some(11u16)
    } else if name == "resist-rf"@ {
        Some(12u16)
    } else if name == "idle-time"@ {
        Some(13u16)
    } else if name == "doubletap"@ || name == "dt2w"@ {
        Some(14u16)
    } else if name == "grip"@ || name == "grip-mode"@ {
        Some(15u16)
    } else if name == "fod-icon"@ {
        Some(16u16)
    } else if name == "nonui"@ {
        Some(17u16)
    } else if name == "debug-level"@ {
        Some(18u16)
    } else if name == "power-status"@ {
        Some(19u16)
    } else if name == "pen"@ {
        Some(20u16)
    } else if with_mode_num && name == "mode-num"@ {
        Some(21u16)
    } else {
        None
    }
}

/// The canonical name of mode `n`, or `?`.
pub open spec fn mode_label(n: u16, with_mode_num: bool) -> Seq<char> {
    if n == 0 {
        "game-mode"@
    } else if n == 1 {
        "active"@
    } else if n == 2 {
        "up-threshold"@
    } else if n == 3 {
        "tolerance"@
    } else if n == 4 {
        "aim-sensitivity"@
    } else if n == 5 {
        "tap-stability"@
    } else if n == 6 {
        "expert"@
    } else if n == 7 {
        "edge-filter"@
    } else if n == 8 {
        "orientation"@
    } else if n == 9 {
        "report-rate"@
    } else if n == 10 {
        "fod"@
    } else if n == 11 {
        "aod"@
    } else if n == 12 {
        "resist-rf"@
    } else if n == 13 {
        "idle-time"@
    } else if n == 14 {
        "doubletap"@
    } else if n == 15 {
        "grip-mode"@
    } else if n == 16 {
        "fod-icon"@
    } else if n == 17 {
        "nonui"@
    } else if n == 18 {
        "debug-level"@
    } else if n == 19 {
        "power-status"@
    } else if n == 20 {
        "pen"@
    } else if n == 21 && with_mode_num {
        "mode-num"@
    } else {
        "?"@
    }
}

/// The highest named mode of a table.
pub open spec fn last_mode(with_mode_num: bool) -> u16 {
    if with_mode_num { 21 } else { 20 }
}

/// `s` with every `_` replaced by `-`.
pub open spec fn dashed(s: Seq<char>) -> Seq<char> {
    s.map_values(|c: char| if c == '_' { '-' } else { c })
}

/// The message for an unknown mode name `s`.
pub open spec fn unknown_mode_message(s: Seq<char>, with_mode_num: bool) -> Seq<char> {
    "unknown mode '"@ + s + if with_mode_num { UNKNOWN_MODE_HINT@ } else { UNKNOWN_MODE_HINT_LEGACY@ }
}

/// What parsing a mode argument gives, once its lowercase form is `lowered`:
/// a decimal number of the table (0 to 21, or 0 to 20 without `mode-num`)
/// as itself, else the mode named by `lowered`, else an error.
pub open spec fn mode_arg_spec(s: Seq<char>, lowered: Seq<char>, with_mode_num: bool) -> Result<u16, Seq<char>> {
    if parse_u16_spec(s) matches Some(n) && n <= last_mode(with_mode_num) {
        Ok(parse_u16_spec(s)->0)
    } else {
        match mode_code(dashed(lowered), with_mode_num) {
            Some(n) => Ok(n),
            None => Err(unknown_mode_message(s, with_mode_num)),
        }
    }
}

/// A `Result` with its error string taken by its view.
pub open spec fn res_view<T>(r: Result<T, String>) -> Result<T, Seq<char>> {
    match r {
        Ok(v) => Ok(v),
        Err(e) => Err(e@),
    }
}

/// The mode named by `lowered` (an already lowercased argument) after `_`
/// is replaced by `-`.
pub fn mode_from_lowercase(lowered: &str, with_mode_num: bool) -> (r: Option<u16>)
    ensures
        r == mode_code(dashed(lowered@), with_mode_num),
{
    let mut c = str_chars(lowered);
    let n = c.len();
    let mut i: usize = 0;
    while i < n
        invariant
            n == c@.len(),
            n == lowered@.len(),
            i <= n,
            forall|j: int| 0 <= j < i ==> #[trigger] c@[j] == (if lowered@[j] == '_' { '-' } else { lowered@[j] }),
            forall|j: int| i <= j < n ==> #[trigger] c@[j] == lowered@[j],
        decreases n - i,
    {
        if c[i] == '_' {
            c.set(i, '-');
        }
        i = i + 1;
    }
    let ghost d = dashed(lowered@);
    assert(c@.subrange(0, n as int) =~= d);
    if range_eq(&c, 0, n, "game") || range_eq(&c, 0, n, "game-mode") {
        Some(0)
    } else if range_eq(&c, 0, n, "active") {
        Some(1)
    } else if range_eq(&c, 0, n, "up-threshold") || range_eq(&c, 0, n, "upthreshold") {
        Some(2)
    } else if range_eq(&c, 0, n, "tolerance") {
        Some(3)
    } else if range_eq(&c, 0, n, "aim") || range_eq(&c, 0, n, "aim-sensitivity") {
        Some(4)
    } else if range_eq(&c, 0, n, "tap") || range_eq(&c, 0, n, "tap-stability") {
        Some(5)
    } else if range_eq(&c, 0, n, "expert") {
        Some(6)
    } else if range_eq(&c, 0, n, "edge") || range_eq(&c, 0, n, "edge-filter") {
        Some(7)
    } else if range_eq(&c, 0, n, "orientation") {
        Some(8)
    } else if range_eq(&c, 0, n, "rate") || range_eq(&c, 0, n, "report-rate") {
        Some(9)
    } else if range_eq(&c, 0, n, "fod") {
        Some(10)
    } else if range_eq(&c, 0, n, "aod") {
        Some(11)
    } else if range_eq(&c, 0, n, "resist-rf") {
        Some(12)
    } else if range_eq(&c, 0, n, "idle-time") {
        Some(13)
    } else if range_eq(&c, 0, n, "doubletap") || range_eq(&c, 0, n, "dt2w") {
        Some(14)
    } else if range_eq(&c, 0, n, "grip") || range_eq(&c, 0, n, "grip-mode") {
        Some(15)
    } else if range_eq(&c, 0, n, "fod-icon") {
        Some(16)
    } else if range_eq(&c, 0, n, "nonui") {
        Some(17)
    } else if range_eq(&c, 0, n, "debug-level") {
        Some(18)
    } else if range_eq(&c, 0, n, "power-status") {
        Some(19)
    } else if range_eq(&c, 0, n, "pen") {
        Some(20)
    } else if with_mode_num && range_eq(&c, 0, n, "mode-num") {
        Some(21)
    } else {
        None
    }
}

fn parse_mode_in(s: &str, with_mode_num: bool) -> (r: Result<u16, String>)
    ensures
        res_view(r) == mode_arg_spec(s@, unicode_lowercase(s@), with_mode_num),
        all_ascii(s@) ==> res_view(r) == mode_arg_spec(
            s@,
            s@.map_values(|c: char| ascii_lower(c)),
            with_mode_num,
        ),
{
    let last: u16 = if with_mode_num { 21 } else { 20 };
    if let Some(n) = parse_u16(s) {
        if n <= last {
            return Ok(n);
        }
    }
    let lowered = str_to_lowercase(s);
    match mode_from_lowercase(lowered.as_str(), with_mode_num) {
        Some(n) => Ok(n),
        None => {
            let mut msg = String::from_str("unknown mode '");
            msg.append(s);
            if with_mode_num {
                msg.append(UNKNOWN_MODE_HINT);
            } else {
                msg.append(UNKNOWN_MODE_HINT_LEGACY);
            }
            Err(msg)
        },
    }
}

/// Parses a mode argument: a mode number from 0 to 21, or one of the mode names
/// (case-insensitive, `_` accepted for `-`) of the 22-mode table.
pub fn parse_mode(s: &str) -> (r: Result<u16, String>)
    ensures
        res_view(r) == mode_arg_spec(s@, unicode_lowercase(s@), true),
        all_ascii(s@) ==> res_view(r) == mode_arg_spec(s@, s@.map_values(|c: char| ascii_lower(c)), true),
{
    parse_mode_in(s, true)
}

/// Parses a mode argument against the 21-mode table (without `mode-num`)
/// of the standalone tool.
pub fn parse_mode_legacy(s: &str) -> (r: Result<u16, String>)
    ensures
        res_view(r) == mode_arg_spec(s@, unicode_lowercase(s@), false),
        all_ascii(s@) ==> res_view(r) == mode_arg_spec(s@, s@.map_values(|c: char| ascii_lower(c)), false),
{
    parse_mode_in(s, false)
}

fn mode_name_in(n: u16, with_mode_num: bool) -> (r: &'static str)
    ensures
        r@ == mode_label(n, with_mode_num),
{
    match n {
        0 => "game-mode",
        1 => "active",
        2 => "up-threshold",
        3 => "tolerance",
        4 => "aim-sensitivity",
        5 => "tap-stability",
        6 => "expert",
        7 => "edge-filter",
        8 => "orientation",
        9 => "report-rate",
        10 => "fod",
        11 => "aod",
        12 => "resist-rf",
        13 => "idle-time",
        14 => "doubletap",
        15 => "grip-mode",
        16 => "fod-icon",
        17 => "nonui",
        18 => "debug-level",
        19 => "power-status",
        20 => "pen",
        21 => if with_mode_num { "mode-num" } else { "?" },
        _ => "?",
    }
}

/// The canonical name of mode `n` in the 22-mode table, `?` past it.
pub fn mode_name(n: u16) -> (r: &'static str)
    ensures
        r@ == mode_label(n, true),
{
    mode_name_in(n, true)
}

/// The canonical name of mode `n` in the 21-mode table, `?` past it.
pub fn mode_name_legacy(n: u16) -> (r: &'static str)
    ensures
        r@ == mode_label(n, false),
{
    mode_name_in(n, false)
}

/// Every named mode with its canonical name, in order: the table that
/// `dump` walks.
pub fn all_modes(with_mode_num: bool) -> (r: Vec<(u16, &'static str)>)
    ensures
        r@.len() == last_mode(with_mode_num) + 1,
        forall|i: int| 0 <= i < r@.len() ==> (#[trigger] r@[i]).0 == i && r@[i].1@ == mode_label(i as u16, with_mode_num),
{
    let last: u16 = if with_mode_num { 21 } else { 20 };
    let mut r: Vec<(u16, &'static str)> = Vec::new();
    let mut m: u16 = 0;
    while m <= last
        invariant
            last == last_mode(with_mode_num),
            m <= last + 1,
            r@.len() == m,
            forall|i: int| 0 <= i < r@.len() ==> (#[trigger] r@[i]).0 == i && r@[i].1@ == mode_label(i as u16, with_mode_num),
        decreases last + 1 - m,
    {
        r.push((m, mode_name_in(m, with_mode_num)));
        m = m + 1;
    }
    r
}

/// Law: the decimal representation of every mode number of the table
/// parses as that mode, whatever its lowercase form is.
pub proof fn lemma_mode_numbers_parse(n: u16, lowered: Seq<char>, with_mode_num: bool)
    requires
        n <= last_mode(with_mode_num),
    ensures
        mode_arg_spec(decimal(n as nat), lowered, with_mode_num) == Ok::<u16, Seq<char>>(n),
{
    lemma_decimal_parses(n as nat);
}

/// Law: a number beyond the table is refused with the unknown-mode message.
pub proof fn lemma_mode_numbers_beyond_table(n: u16, with_mode_num: bool)
    requires
        n > last_mode(with_mode_num),
    ensures
        ({
            let d = decimal(n as nat);
            &&& all_ascii(d)
            &&& mode_arg_spec(d, d.map_values(|c: char| ascii_lower(c)), with_mode_num)
                == Err::<u16, Seq<char>>(unknown_mode_message(d, with_mode_num))
        }),
{
    reveal_strlit("game");
    reveal_strlit("game-mode");
    reveal_strlit("active");
    reveal_strlit("up-threshold");
    reveal_strlit("upthreshold");
    reveal_strlit("tolerance");
    reveal_strlit("aim");
    reveal_strlit("aim-sensitivity");
    reveal_strlit("tap");
    reveal_strlit("tap-stability");
    reveal_strlit("expert");
    reveal_strlit("edge");
    reveal_strlit("edge-filter");
    reveal_strlit("orientation");
    reveal_strlit("rate");
    reveal_strlit("report-rate");
    reveal_strlit("fod");
    reveal_strlit("aod");
    reveal_strlit("resist-rf");
    reveal_strlit("idle-time");
    reveal_strlit("doubletap");
    reveal_strlit("dt2w");
    reveal_strlit("grip");
    reveal_strlit("grip-mode");
    reveal_strlit("fod-icon");
    reveal_strlit("nonui");
    reveal_strlit("debug-level");
    reveal_strlit("power-status");
    reveal_strlit("pen");
    reveal_strlit("mode-num");
    let d = decimal(n as nat);
    lemma_decimal_parses(n as nat);
    assert forall|i: int| 0 <= i < d.len() implies (#[trigger] d[i] as u32) < 128 by {
        assert(crate::text::is_digit(d[i]));
    }
    assert(d.map_values(|c: char| ascii_lower(c)) =~= d) by {
        assert forall|i: int| 0 <= i < d.len() implies ascii_lower(d[i]) == d[i] by {
            assert(crate::text::is_digit(d[i]));
        }
    }
    assert(dashed(d) =~= d) by {
        assert forall|i: int| 0 <= i < d.len() implies d[i] != '_' by {
            assert(crate::text::is_digit(d[i]));
        }
    }
    assert(crate::text::is_digit(d[0]));
    assert(mode_code(d, with_mode_num) is None);
}

/// Whether `s` is a lowercase ASCII word: a letter, then letters, digits
/// and `-`.
pub open spec fn plain_name(s: Seq<char>) -> bool {
    &&& s.len() > 0
    &&& 'a' <= s[0] <= 'z'
    &&& forall|i: int| 0 <= i < s.len() ==> ('a' <= #[trigger] s[i] <= 'z' || '0' <= s[i] <= '9' || s[i] == '-')
}

proof fn lemma_plain_name(s: Seq<char>)
    requires
        plain_name(s),
    ensures
        all_ascii(s),
        s.map_values(|c: char| ascii_lower(c)) == s,
        dashed(s) == s,
        parse_u16_spec(s) is None,
{
    assert(s.map_values(|c: char| ascii_lower(c)) =~= s);
    assert(dashed(s) =~= s);
    assert(!crate::text::is_digit(s[0]));
}

/// Law: every canonical mode name (as `mode_name` prints it) parses back to
/// its mode number, whichever table is used.
pub proof fn lemma_mode_names_parse(n: u16, with_mode_num: bool)
    requires
        n <= last_mode(with_mode_num),
    ensures
        all_ascii(mode_label(n, with_mode_num)),
        mode_arg_spec(
            mode_label(n, with_mode_num),
            mode_label(n, with_mode_num).map_values(|c: char| ascii_lower(c)),
            with_mode_num,
        ) == Ok::<u16, Seq<char>>(n),
{
        reveal_strlit("game");
        reveal_strlit("game-mode");
        reveal_strlit("active");
        reveal_strlit("up-threshold");
        reveal_strlit("upthreshold");
        reveal_strlit("tolerance");
        reveal_strlit("aim");
        reveal_strlit("aim-sensitivity");
        reveal_strlit("tap");
        reveal_strlit("tap-stability");
        reveal_strlit("expert");
        reveal_strlit("edge");
        reveal_strlit("edge-filter");
        reveal_strlit("orientation");
        reveal_strlit("rate");
        reveal_strlit("report-rate");
        reveal_strlit("fod");
        reveal_strlit("aod");
        reveal_strlit("resist-rf");
        reveal_strlit("idle-time");
        reveal_strlit("doubletap");
        reveal_strlit("dt2w");
        reveal_strlit("grip");
        reveal_strlit("grip-mode");
        reveal_strlit("fod-icon");
        reveal_strlit("nonui");
        reveal_strlit("debug-level");
        reveal_strlit("power-status");
        reveal_strlit("pen");
        reveal_strlit("mode-num");
        let l = mode_label(n, with_mode_num);
        assert(plain_name(l));
        lemma_plain_name(l);
        if n == 0 {
            assert(mode_code(l, with_mode_num) == Some(0u16));
        } else if n == 1 {
            assert(l.len() == "active"@.len());
            assert(mode_code(l, with_mode_num) == Some(1u16));
        } else if n == 2 {
            assert(l.len() == "up-threshold"@.len());
            assert(mode_code(l, with_mode_num) == Some(2u16));
        } else if n == 3 {
            assert(l.len() == "tolerance"@.len());
            assert(mode_code(l, with_mode_num) == Some(3u16));
        } else if n == 4 {
            assert(l.len() == "aim-sensitivity"@.len());
            assert(mode_code(l, with_mode_num) == Some(4u16));
        } else if n == 5 {
            assert(l.len() == "tap-stability"@.len());
            assert(mode_code(l, with_mode_num) == Some(5u16));
        } else if n == 6 {
            assert(l.len() == "expert"@.len());
            assert(mode_code(l, with_mode_num) == Some(6u16));
        } else if n == 7 {
            assert(l.len() == "edge-filter"@.len());
            assert(mode_code(l, with_mode_num) == Some(7u16));
        } else if n == 8 {
            assert(l.len() == "orientation"@.len());
            assert(mode_code(l, with_mode_num) == Some(8u16));
        } else if n == 9 {
            assert(l.len() == "report-rate"@.len());
            assert(mode_code(l, with_mode_num) == Some(9u16));
        } else if n == 10 {
            assert(l.len() == "fod"@.len());
            assert(mode_code(l, with_mode_num) == Some(10u16));
        } else if n == 11 {
            assert(l.len() == "aod"@.len());
            assert(l[0] != "fod"@[0] && l[1] != "aim"@[1] && l[0] != "tap"@[0]);
            assert(mode_code(l, with_mode_num) == Some(11u16));
        } else if n == 12 {
            assert(l.len() == "resist-rf"@.len());
            assert(mode_code(l, with_mode_num) == Some(12u16));
        } else if n == 13 {
            assert(l.len() == "idle-time"@.len());
            assert(mode_code(l, with_mode_num) == Some(13u16));
        } else if n == 14 {
            assert(l.len() == "doubletap"@.len());
            assert(mode_code(l, with_mode_num) == Some(14u16));
        } else if n == 15 {
            assert(l.len() == "grip-mode"@.len());
            assert(l[1] != "game-mode"@[1] && l[0] != "tolerance"@[0] && l[0] != "resist-rf"@[0]);
            assert(l[0] != "idle-time"@[0] && l[0] != "doubletap"@[0]);
            assert(mode_code(l, with_mode_num) == Some(15u16));
        } else if n == 16 {
            assert(l.len() == "fod-icon"@.len());
            assert(mode_code(l, with_mode_num) == Some(16u16));
        } else if n == 17 {
            assert(l.len() == "nonui"@.len());
            assert(mode_code(l, with_mode_num) == Some(17u16));
        } else if n == 18 {
            assert(l.len() == "debug-level"@.len());
            assert(mode_code(l, with_mode_num) == Some(18u16));
        } else if n == 19 {
            assert(l.len() == "power-status"@.len());
            assert(mode_code(l, with_mode_num) == Some(19u16));
        } else if n == 20 {
            assert(l.len() == "pen"@.len());
            assert(mode_code(l, with_mode_num) == Some(20u16));
        } else if n == 21 {
            assert(l.len() == "mode-num"@.len());
            assert(mode_code(l, with_mode_num) == Some(21u16));
        }
}

/// The short name of a mode, where it has one besides its canonical name
/// (the usage text lists most of them).
pub open spec fn mode_short_name(n: u16) -> Option<Seq<char>> {
    if n == 0 {
        Some("game"@)
    } else if n == 2 {
        Some("upthreshold"@)
    } else if n == 4 {
        Some("aim"@)
    } else if n == 5 {
        Some("tap"@)
    } else if n == 7 {
        Some("edge"@)
    } else if n == 9 {
        Some("rate"@)
    } else if n == 14 {
        Some("dt2w"@)
    } else if n == 15 {
        Some("grip"@)
    } else {
        None
    }
}

/// Law: every short name of a mode parses to that mode, in both tables,
/// whatever case it is written in once lowercased.
pub proof fn lemma_mode_short_names_parse(n: u16, with_mode_num: bool)
    requires
        mode_short_name(n) is Some,
    ensures
        ({
            let a = mode_short_name(n)->0;
            &&& all_ascii(a)
            &&& mode_arg_spec(a, a.map_values(|c: char| ascii_lower(c)), with_mode_num) == Ok::<u16, Seq<char>>(n)
        }),
{
    reveal_strlit("game");
    reveal_strlit("game-mode");
    reveal_strlit("active");
    reveal_strlit("up-threshold");
    reveal_strlit("upthreshold");
    reveal_strlit("tolerance");
    reveal_strlit("aim");
    reveal_strlit("aim-sensitivity");
    reveal_strlit("tap");
    reveal_strlit("tap-stability");
    reveal_strlit("expert");
    reveal_strlit("edge");
    reveal_strlit("edge-filter");
    reveal_strlit("orientation");
    reveal_strlit("rate");
    reveal_strlit("report-rate");
    reveal_strlit("fod");
    reveal_strlit("aod");
    reveal_strlit("resist-rf");
    reveal_strlit("idle-time");
    reveal_strlit("doubletap");
    reveal_strlit("dt2w");
    reveal_strlit("grip");
    let a = mode_short_name(n)->0;
    assert(plain_name(a));
    lemma_plain_name(a);
    if n == 0 {
        assert(mode_code(a, with_mode_num) == Some(0u16));
    } else if n == 2 {
        assert(a.len() == "upthreshold"@.len());
        assert(mode_code(a, with_mode_num) == Some(2u16));
    } else if n == 4 {
        assert(a.len() == "aim"@.len());
        assert(a[0] != "game"@[0]);
        assert(mode_code(a, with_mode_num) == Some(4u16));
    } else if n == 5 {
        assert(a.len() == "tap"@.len());
        assert(a[0] != "aim"@[0]);
        assert(mode_code(a, with_mode_num) == Some(5u16));
    } else if n == 7 {
        assert(a.len() == "edge"@.len());
        assert(a[0] != "game"@[0]);
        assert(mode_code(a, with_mode_num) == Some(7u16));
    } else if n == 9 {
        assert(a.len() == "rate"@.len());
        assert(a[0] != "game"@[0] && a[0] != "edge"@[0]);
        assert(mode_code(a, with_mode_num) == Some(9u16));
    } else if n == 14 {
        assert(a.len() == "dt2w"@.len());
        assert(a[0] != "game"@[0] && a[0] != "edge"@[0] && a[0] != "rate"@[0]);
        assert(mode_code(a, with_mode_num) == Some(14u16));
    } else {
        assert(a.len() == "grip"@.len());
        assert(a[1] != "game"@[1] && a[0] != "edge"@[0] && a[0] != "rate"@[0] && a[0] != "dt2w"@[0]);
        assert(mode_code(a, with_mode_num) == Some(15u16));
    }
}

/// The name by which the unknown-mode message lists mode `n`: its short
/// name where it has one listed there, else its canonical name.
pub open spec fn listed_mode_name(n: u16, with_mode_num: bool) -> Seq<char> {
    if n == 0 || n == 4 || n == 5 || n == 7 || n == 9 || n == 15 {
        mode_short_name(n)->0
    } else {
        mode_label(n, with_mode_num)
    }
}

/// The listed names of modes 0 to `k`, separated by spaces.
pub open spec fn listed_mode_names(k: nat, with_mode_num: bool) -> Seq<char>
    decreases k,
{
    if k == 0 {
        listed_mode_name(0, with_mode_num)
    } else {
        listed_mode_names((k - 1) as nat, with_mode_num) + " "@ + listed_mode_name(k as u16, with_mode_num)
    }
}

/// Law: the unknown-mode message lists, after the range of numbers, the
/// modes of its table in order, each by a name that parses to it.
pub proof fn lemma_hint_lists_modes(n: u16, with_mode_num: bool)
    requires
        n <= last_mode(with_mode_num),
    ensures
        UNKNOWN_MODE_HINT@ == "' \u{2014} use an integer (0-21) or: "@ + listed_mode_names(21, true),
        UNKNOWN_MODE_HINT_LEGACY@ == "' \u{2014} use an integer (0-20) or: "@ + listed_mode_names(20, false),
        ({
            let a = listed_mode_name(n, with_mode_num);
            &&& all_ascii(a)
            &&& mode_arg_spec(a, a.map_values(|c: char| ascii_lower(c)), with_mode_num) == Ok::<u16, Seq<char>>(n)
        }),
{
    reveal_strlit("' \u{2014} use an integer (0-21) or: game active up-threshold tolerance aim tap expert edge orientation rate fod aod resist-rf idle-time doubletap grip fod-icon nonui debug-level power-status pen mode-num");
    reveal_strlit("' \u{2014} use an integer (0-20) or: game active up-threshold tolerance aim tap expert edge orientation rate fod aod resist-rf idle-time doubletap grip fod-icon nonui debug-level power-status pen");
    reveal_strlit("' \u{2014} use an integer (0-21) or: ");
    reveal_strlit("' \u{2014} use an integer (0-20) or: ");
    reveal_strlit(" ");
    reveal_strlit("game");
    reveal_strlit("game-mode");
    reveal_strlit("active");
    reveal_strlit("up-threshold");
    reveal_strlit("tolerance");
    reveal_strlit("aim");
    reveal_strlit("aim-sensitivity");
    reveal_strlit("tap");
    reveal_strlit("tap-stability");
    reveal_strlit("expert");
    reveal_strlit("edge");
    reveal_strlit("edge-filter");
    reveal_strlit("orientation");
    reveal_strlit("rate");
    reveal_strlit("report-rate");
    reveal_strlit("fod");
    reveal_strlit("aod");
    reveal_strlit("resist-rf");
    reveal_strlit("idle-time");
    reveal_strlit("doubletap");
    reveal_strlit("grip");
    reveal_strlit("grip-mode");
    reveal_strlit("fod-icon");
    reveal_strlit("nonui");
    reveal_strlit("debug-level");
    reveal_strlit("power-status");
    reveal_strlit("pen");
    reveal_strlit("mode-num");
    reveal_with_fuel(listed_mode_names, 22);
    assert(UNKNOWN_MODE_HINT@ =~= "' \u{2014} use an integer (0-21) or: "@ + listed_mode_names(21, true));
    assert(UNKNOWN_MODE_HINT_LEGACY@ =~= "' \u{2014} use an integer (0-20) or: "@ + listed_mode_names(20, false));
    if n == 0 || n == 4 || n == 5 || n == 7 || n == 9 || n == 15 {
        lemma_mode_short_names_parse(n, with_mode_num);
    } else {
        lemma_mode_names_parse(n, with_mode_num);
    }
}

} // verus!
