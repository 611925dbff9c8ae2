use vstd::prelude::*;
use crate::ioctl::Cmd;
use crate::modes::{mode_arg_spec, res_view, parse_mode, parse_mode_legacy};
use crate::text::{all_ascii, ascii_lower, unicode_lowercase, parse_i32_spec, parse_u32_spec, parse_i32, parse_u32, str_eq};

verus! {

/// The mode that `daemon` keeps in sync when none is given: double-tap.
pub const DEFAULT_DAEMON_MODE: u16 = 14;

/// The arguments of a command line, each taken by its view.
pub open spec fn args_view(args: Seq<String>) -> Seq<Seq<char>> {
    args.map_values(|s: String| s@)
}

/// The value that enabling a mode sends: modes 2 to 5 (thresholds and
/// sensitivities) take 5 where 1 is asked; every other request is sent as is.
pub open spec fn resolve_value_spec(mode: u16, raw: i32) -> i32 {
    if raw == 1 && 2 <= mode <= 5 {
        5
    } else {
        raw
    }
}

/// Law: enabling a threshold or sensitivity mode (2 to 5) with 1 sends 5;
/// every other value, and every value of every other mode, is sent as it
/// was asked.
pub proof fn lemma_resolve_value(mode: u16, raw: i32)
    ensures
        2 <= mode <= 5 ==> resolve_value_spec(mode, 1) == 5,
        raw != 1 ==> resolve_value_spec(mode, raw) == raw,
        !(2 <= mode <= 5) ==> resolve_value_spec(mode, raw) == raw,
{
}

/// The value sent to the driver for a requested value of `mode`.
pub fn resolve_value(mode: u16, raw: i32) -> (r: i32)
    ensures
        r == resolve_value_spec(mode, raw),
{
    if raw == 1 && mode >= 2 && mode <= 5 {
        5
    } else {
        raw
    }
}

/// What is written to the gesture nodes after `value` is set on `mode`:
/// only the double-tap mode (14) is mirrored, as `"1"` when the value is
/// positive and `"0"` otherwise.
pub fn gesture_node_value(mode: u16, value: i32) -> (r: Option<&'static str>)
    ensures
        mode != 14 ==> r is None,
        mode == 14 && value > 0 ==> (r matches Some(s) && s@ == "1"@),
        mode == 14 && value <= 0 ==> (r matches Some(s) && s@ == "0"@),
{
    if mode == 14 {
        if value > 0 {
            Some("1")
        } else {
            Some("0")
        }
    } else {
        None
    }
}

/// Whether `b` holds the byte `x`.
fn contains_byte(b: &[u8], x: u8) -> (r: bool)
    ensures
        r == b@.contains(x),
{
    let mut i: usize = 0;
    while i < b.len()
        invariant
            i <= b@.len(),
            forall|j: int| 0 <= j < i ==> b@[j] != x,
        decreases b@.len() - i,
    {
        if b[i] == x {
            assert(b@[i as int] == x);
            return true;
        }
        i = i + 1;
    }
    false
}

/// The state of a setting from the output of `settings get`: `1` when the
/// output holds the character `1`, else `0` when it holds `0`, else unknown.
/// The output is read as bytes; ASCII digits are kept as they are by lossy
/// UTF-8 decoding, so this is the same as searching the decoded text.
pub fn setting_from_output(out: &[u8]) -> (r: Option<i32>)
    ensures
        r == if out@.contains(0x31u8) {
            Some(1i32)
        } else if out@.contains(0x30u8) {
            Some(0i32)
        } else {
            None::<i32>
        },
{
    if contains_byte(out, 0x31) {
        Some(1)
    } else if contains_byte(out, 0x30) {
        Some(0)
    } else {
        None
    }
}

/// One polling step of the settings daemon: the last applied reading and
/// the value to send now, if any.
pub open spec fn sync_step_spec(mode: u16, last: i32, cur: i32) -> (i32, Option<i32>) {
    if cur != -1 && cur != last {
        (cur, Some(resolve_value_spec(mode, cur)))
    } else {
        (last, None)
    }
}

/// Decides one polling step of the settings daemon from the last applied
/// reading and the current one (`-1` when unknown): a known reading that
/// differs from the last one is applied (through `resolve_value`) and
/// becomes the last one.
pub fn sync_step(mode: u16, last: i32, cur: i32) -> (r: (i32, Option<i32>))
    ensures
        r == sync_step_spec(mode, last, cur),
{
    if cur != -1 && cur != last {
        (cur, Some(resolve_value(mode, cur)))
    } else {
        (last, None)
    }
}

/// Law: the settings daemon applies a reading once: polling the same
/// reading again sends nothing and keeps the state.
pub proof fn lemma_sync_step_idempotent(mode: u16, last: i32, cur: i32)
    ensures
        ({
            let (next, _) = sync_step_spec(mode, last, cur);
            sync_step_spec(mode, next, cur) == (next, None::<i32>)
        }),
        cur == -1 ==> sync_step_spec(mode, last, cur) == (last, None::<i32>),
{
}

/// The settings daemon's state after a run of readings (starting from -1).
pub open spec fn sync_state(mode: u16, readings: Seq<i32>) -> i32
    decreases readings.len(),
{
    if readings.len() == 0 {
        -1i32
    } else {
        sync_step_spec(mode, sync_state(mode, readings.drop_last()), readings.last()).0
    }
}

/// The last known reading (not -1) of a run, or -1 when there is none.
pub open spec fn last_known(readings: Seq<i32>) -> i32
    decreases readings.len(),
{
    if readings.len() == 0 {
        -1i32
    } else if readings.last() != -1 {
        readings.last()
    } else {
        last_known(readings.drop_last())
    }
}

proof fn lemma_sync_state(mode: u16, readings: Seq<i32>)
    ensures
        sync_state(mode, readings) == last_known(readings),
    decreases readings.len(),
{
    if readings.len() > 0 {
        lemma_sync_state(mode, readings.drop_last());
    }
}

/// Law: over any run of readings, poll `k` applies
/// `resolve_value(mode, reading)` exactly when its reading is known (not
/// -1) and differs from the last known reading before it; the decision
/// depends on the readings alone, so a failed apply is not retried until
/// the setting changes.
pub proof fn lemma_sync_run(mode: u16, readings: Seq<i32>, k: int)
    requires
        0 <= k < readings.len(),
    ensures
        sync_state(mode, readings.take(k)) == last_known(readings.take(k)),
        sync_step_spec(mode, sync_state(mode, readings.take(k)), readings[k]).1 == if readings[k] != -1
            && readings[k] != last_known(readings.take(k)) {
            Some(resolve_value_spec(mode, readings[k]))
        } else {
            None::<i32>
        },
{
    lemma_sync_state(mode, readings.take(k));
}

/// What the mode argument at `idx` gives: its parse, or an error when it is
/// missing.
pub open spec fn req_mode_spec(args: Seq<Seq<char>>, idx: int, with_mode_num: bool) -> Result<u16, Seq<char>> {
    if 0 <= idx < args.len() {
        mode_arg_spec(args[idx], unicode_lowercase(args[idx]), with_mode_num)
    } else {
        Err("missing <mode> argument"@)
    }
}

/// The mode argument at `idx` (22-mode table).
pub fn req_mode(args: &[String], idx: usize) -> (r: Result<u16, String>)
    ensures
        res_view(r) == req_mode_spec(args_view(args@), idx as int, true),
        idx < args@.len() && all_ascii(args@[idx as int]@) ==> res_view(r) == mode_arg_spec(
            args@[idx as int]@,
            args@[idx as int]@.map_values(|c: char| ascii_lower(c)),
            true,
        ),
{
    if idx < args.len() {
        parse_mode(args[idx].as_str())
    } else {
        Err(String::from_str("missing <mode> argument"))
    }
}

/// The mode argument at `idx` (21-mode table of the standalone tool).
pub fn req_mode_legacy(args: &[String], idx: usize) -> (r: Result<u16, String>)
    ensures
        res_view(r) == req_mode_spec(args_view(args@), idx as int, false),
        idx < args@.len() && all_ascii(args@[idx as int]@) ==> res_view(r) == mode_arg_spec(
            args@[idx as int]@,
            args@[idx as int]@.map_values(|c: char| ascii_lower(c)),
            false,
        ),
{
    if idx < args.len() {
        parse_mode_legacy(args[idx].as_str())
    } else {
        Err(String::from_str("missing <mode> argument"))
    }
}

/// What the integer argument `label` at `idx` gives.
pub open spec fn req_i32_spec(args: Seq<Seq<char>>, idx: int, label: Seq<char>) -> Result<i32, Seq<char>> {
    if 0 <= idx < args.len() {
        match parse_i32_spec(args[idx]) {
            Some(v) => Ok(v),
            None => Err("<"@ + label + "> must be integer, got '"@ + args[idx] + "'"@),
        }
    } else {
        Err("missing <"@ + label + "> argument"@)
    }
}

/// The integer argument `label` at `idx`.
pub fn req_i32(args: &[String], idx: usize, label: &str) -> (r: Result<i32, String>)
    ensures
        res_view(r) == req_i32_spec(args_view(args@), idx as int, label@),
{
    if idx < args.len() {
        match parse_i32(args[idx].as_str()) {
            Some(v) => Ok(v),
            None => {
                let mut msg = String::from_str("<");
                msg.append(label);
                msg.append("> must be integer, got '");
                msg.append(args[idx].as_str());
                msg.append("'");
                Err(msg)
            },
        }
    } else {
        let mut msg = String::from_str("missing <");
        msg.append(label);
        msg.append("> argument");
        Err(msg)
    }
}

/// The values of `long`, read in order; the first non-integer gives the error.
pub open spec fn long_values_spec(vals: Seq<Seq<char>>) -> Result<Seq<i32>, Seq<char>>
    decreases vals.len(),
{
    if vals.len() == 0 {
        Ok(Seq::empty())
    } else {
        match long_values_spec(vals.drop_last()) {
            Ok(v) => match parse_i32_spec(vals.last()) {
                Some(x) => Ok(v.push(x)),
                None => Err("expected integer, got '"@ + vals.last() + "'"@),
            },
            Err(e) => Err(e),
        }
    }
}

/// What the values of `long` from `start` on give: at least one integer.
pub open spec fn long_args_spec(args: Seq<Seq<char>>, start: int) -> Result<Seq<i32>, Seq<char>> {
    match long_values_spec(args.skip(start)) {
        Ok(v) => if v.len() == 0 {
            Err("'long' requires at least one value"@)
        } else {
            Ok(v)
        },
        Err(e) => Err(e),
    }
}

/// A `Result` of values with its parts taken by their views.
pub open spec fn values_view(r: Result<Vec<i32>, String>) -> Result<Seq<i32>, Seq<char>> {
    match r {
        Ok(v) => Ok(v@),
        Err(e) => Err(e@),
    }
}

/// The values given to `long`, from argument `start` on.
pub fn long_values(args: &[String], start: usize) -> (r: Result<Vec<i32>, String>)
    requires
        start <= args@.len(),
    ensures
        values_view(r) == long_args_spec(args_view(args@), start as int),
{
    let ghost all = args_view(args@);
    let mut out: Vec<i32> = Vec::new();
    let mut i = start;
    assert(all.skip(start as int).take(0) =~= Seq::<Seq<char>>::empty());
    while i < args.len()
        invariant
            start <= i <= args@.len(),
            all == args_view(args@),
            long_values_spec(all.skip(start as int).take(i - start)) == Ok::<Seq<i32>, Seq<char>>(out@),
        decreases args@.len() - i,
    {
        let ghost done = all.skip(start as int).take(i - start);
        let ghost next = all.skip(start as int).take(i + 1 - start);
        assert(next.drop_last() =~= done);
        assert(next.last() == args@[i as int]@);
        match parse_i32(args[i].as_str()) {
            Some(x) => {
                out.push(x);
            },
            None => {
                let mut msg = String::from_str("expected integer, got '");
                msg.append(args[i].as_str());
                msg.append("'");
                proof {
                    lemma_long_values_fail_prefix(next, all.skip(start as int).skip(i + 1 - start));
                    assert(next + all.skip(start as int).skip(i + 1 - start) =~= all.skip(start as int));
                }
                return Err(msg);
            },
        }
        i = i + 1;
    }
    assert(all.skip(start as int).take(i - start) =~= all.skip(start as int));
    if out.len() == 0 {
        return Err(String::from_str("'long' requires at least one value"));
    }
    Ok(out)
}

proof fn lemma_long_values_fail_prefix(pre: Seq<Seq<char>>, more: Seq<Seq<char>>)
    requires
        long_values_spec(pre) is Err,
    ensures
        long_values_spec(pre + more) == long_values_spec(pre),
    decreases more.len(),
{
    if more.len() == 0 {
        assert(pre + more =~= pre);
    } else {
        lemma_long_values_fail_prefix(pre, more.drop_last());
        assert((pre + more).drop_last() =~= pre + more.drop_last());
    }
}

/// The mode of `daemon`: the argument at `idx` when there is one, else
/// double-tap.
pub fn daemon_mode_arg(args: &[String], idx: usize) -> (r: Result<u16, String>)
    ensures
        idx < args@.len() ==> res_view(r) == req_mode_spec(args_view(args@), idx as int, true),
        idx < args@.len() && all_ascii(args@[idx as int]@) ==> res_view(r) == mode_arg_spec(
            args@[idx as int]@,
            args@[idx as int]@.map_values(|c: char| ascii_lower(c)),
            true,
        ),
        idx >= args@.len() ==> r == Ok::<u16, String>(DEFAULT_DAEMON_MODE),
{
    if args.len() > idx {
        req_mode(args, idx)
    } else {
        Ok(DEFAULT_DAEMON_MODE)
    }
}

/// How the command line of the controller starts.
pub enum CliStart {
    /// Go on with the subcommand at `next`, for panel `touch_id`.
    Run { touch_id: u32, next: usize },
    /// Print the usage and stop.
    Help,
    /// Stop with this error.
    Fail(String),
}

/// `CliStart` as a mathematical value.
pub ghost enum CliStartView {
    Run(u32, int),
    Help,
    Fail(Seq<char>),
}

impl View for CliStart {
    type V = CliStartView;

    open spec fn view(&self) -> CliStartView {
        match self {
            CliStart::Run { touch_id, next } => CliStartView::Run(*touch_id, *next as int),
            CliStart::Help => CliStartView::Help,
            CliStart::Fail(e) => CliStartView::Fail(e@),
        }
    }
}

/// The leading options from position `i` on, with panel `touch_id` so far:
/// `--touch-id N` (a `u32`), `--help`/`-h`; anything else starts the
/// subcommand.
pub open spec fn cli_options_from(args: Seq<Seq<char>>, i: int, touch_id: u32) -> CliStartView
    decreases args.len() - i,
{
    if i >= args.len() || i < 0 {
        CliStartView::Run(touch_id, i)
    } else if args[i] == "--touch-id"@ {
        if i + 1 < args.len() {
            match parse_u32_spec(args[i + 1]) {
                Some(t) => cli_options_from(args, i + 2, t),
                None => CliStartView::Fail("--touch-id needs a non-negative integer"@),
            }
        } else {
            CliStartView::Fail("--touch-id needs a non-negative integer"@)
        }
    } else if args[i] == "--help"@ || args[i] == "-h"@ {
        CliStartView::Help
    } else {
        CliStartView::Run(touch_id, i)
    }
}

/// Reads the leading options of the controller's command line (after the
/// program name).
pub fn parse_cli_options(args: &[String]) -> (r: CliStart)
    ensures
        r@ == cli_options_from(args_view(args@), 1, 0),
{
    let ghost all = args_view(args@);
    let mut touch_id: u32 = 0;
    let mut i: usize = 1;
    while i < args.len()
        invariant
            all == args_view(args@),
            1 <= i <= args@.len() + 1,
            cli_options_from(all, 1, 0) == cli_options_from(all, i as int, touch_id),
        decreases args@.len() + 1 - i,
    {
        let a = args[i].as_str();
        if str_eq(a, "--touch-id") {
            if i + 1 < args.len() {
                match parse_u32(args[i + 1].as_str()) {
                    Some(t) => {
                        touch_id = t;
                        i = i + 2;
                    },
                    None => {
                        return CliStart::Fail(String::from_str("--touch-id needs a non-negative integer"));
                    },
                }
            } else {
                return CliStart::Fail(String::from_str("--touch-id needs a non-negative integer"));
            }
        } else if str_eq(a, "--help") || str_eq(a, "-h") {
            return CliStart::Help;
        } else {
            return CliStart::Run { touch_id, next: i };
        }
    }
    CliStart::Run { touch_id, next: i }
}

/// The subcommands of the controllers.
#[derive(Debug, Clone, Copy, PartialEq, Eq, Structural)]
pub enum Subcommand {
    IoctlCodes,
    Status,
    Detect,
    SetValue,
    Get(Cmd),
    ModeVal,
    Reset,
    Long,
    Dump,
    Daemon,
    Enable,
    Disable,
    Unknown,
}

/// The subcommand named `s`. The standalone tool knows `detect` and not
/// `status`, `daemon`, `--e`, `--d`; the protocol controllers the reverse.
pub open spec fn subcommand_spec(s: Seq<char>, standalone: bool) -> Subcommand {
    if s == "ioctl-codes"@ {
        Subcommand::IoctlCodes
    } else if s == "status"@ && !standalone {
        Subcommand::Status
    } else if s == "detect"@ && standalone {
        Subcommand::Detect
    } else if s == "set"@ {
        Subcommand::SetValue
    } else if s == "get"@ {
        Subcommand::Get(Cmd::GetCurValue)
    } else if s == "def"@ {
        Subcommand::Get(Cmd::GetDefValue)
    } else if s == "min"@ {
        Subcommand::Get(Cmd::GetMinValue)
    } else if s == "max"@ {
        Subcommand::Get(Cmd::GetMaxValue)
    } else if s == "mode-val"@ {
        Subcommand::ModeVal
    } else if s == "reset"@ {
        Subcommand::Reset
    } else if s == "long"@ {
        Subcommand::Long
    } else if s == "dump"@ {
        Subcommand::Dump
    } else if s == "daemon"@ && !standalone {
        Subcommand::Daemon
    } else if s == "--e"@ && !standalone {
        Subcommand::Enable
    } else if s == "--d"@ && !standalone {
        Subcommand::Disable
    } else {
        Subcommand::Unknown
    }
}

/// The subcommand named `s`.
pub fn parse_subcommand(s: &str, standalone: bool) -> (r: Subcommand)
    ensures
        r == subcommand_spec(s@, standalone),
{
    if str_eq(s, "ioctl-codes") {
        Subcommand::IoctlCodes
    } else if str_eq(s, "status") && !standalone {
        Subcommand::Status
    } else if str_eq(s, "detect") && standalone {
        Subcommand::Detect
    } else if str_eq(s, "set") {
        Subcommand::SetValue
    } else if str_eq(s, "get") {
        Subcommand::Get(Cmd::GetCurValue)
    } else if str_eq(s, "def") {
        Subcommand::Get(Cmd::GetDefValue)
    } else if str_eq(s, "min") {
        Subcommand::Get(Cmd::GetMinValue)
    } else if str_eq(s, "max") {
        Subcommand::Get(Cmd::GetMaxValue)
    } else if str_eq(s, "mode-val") {
        Subcommand::ModeVal
    } else if str_eq(s, "reset") {
        Subcommand::Reset
    } else if str_eq(s, "long") {
        Subcommand::Long
    } else if str_eq(s, "dump") {
        Subcommand::Dump
    } else if str_eq(s, "daemon") && !standalone {
        Subcommand::Daemon
    } else if str_eq(s, "--e") && !standalone {
        Subcommand::Enable
    } else if str_eq(s, "--d") && !standalone {
        Subcommand::Disable
    } else {
        Subcommand::Unknown
    }
}

/// Law: in both tables the subcommands `get`, `def`, `min` and `max` read
/// the current, default, minimum and maximum value of a mode, each the
/// value whose name it abbreviates, and no other word reads a single value.
pub proof fn lemma_value_subcommands(s: Seq<char>, standalone: bool)
    ensures
        subcommand_spec("get"@, standalone) == Subcommand::Get(Cmd::GetCurValue),
        subcommand_spec("def"@, standalone) == Subcommand::Get(Cmd::GetDefValue),
        subcommand_spec("min"@, standalone) == Subcommand::Get(Cmd::GetMinValue),
        subcommand_spec("max"@, standalone) == Subcommand::Get(Cmd::GetMaxValue),
        subcommand_spec(s, standalone) is Get ==> s == "get"@ || s == "def"@ || s == "min"@ || s == "max"@,
{
    reveal_strlit("ioctl-codes");
    reveal_strlit("status");
    reveal_strlit("detect");
    reveal_strlit("set");
    reveal_strlit("get");
    reveal_strlit("def");
    reveal_strlit("min");
    reveal_strlit("max");
    assert("get"@.len() != "ioctl-codes"@.len() && "get"@.len() != "status"@.len() && "get"@.len() != "detect"@.len());
    assert("get"@[0] != "set"@[0]);
    assert("def"@.len() != "ioctl-codes"@.len() && "def"@.len() != "status"@.len() && "def"@.len() != "detect"@.len());
    assert("def"@[0] != "set"@[0] && "def"@[0] != "get"@[0]);
    assert("min"@.len() != "ioctl-codes"@.len() && "min"@.len() != "status"@.len() && "min"@.len() != "detect"@.len());
    assert("min"@[0] != "set"@[0] && "min"@[0] != "get"@[0] && "min"@[0] != "def"@[0]);
    assert("max"@.len() != "ioctl-codes"@.len() && "max"@.len() != "status"@.len() && "max"@.len() != "detect"@.len());
    assert("max"@[0] != "set"@[0] && "max"@[0] != "get"@[0] && "max"@[0] != "def"@[0] && "max"@[1] != "min"@[1]);
}

/// Law: every subcommand word names its subcommand. `ioctl-codes`, `set`,
/// `mode-val`, `reset`, `long` and `dump` are known in both tables;
/// `detect` only to the standalone tool; `status`, `daemon`, `--e` and
/// `--d` only to the protocol controllers, and the standalone tool treats
/// them as unknown.
pub proof fn lemma_subcommand_words(standalone: bool)
    ensures
        subcommand_spec("ioctl-codes"@, standalone) == Subcommand::IoctlCodes,
        subcommand_spec("set"@, standalone) == Subcommand::SetValue,
        subcommand_spec("mode-val"@, standalone) == Subcommand::ModeVal,
        subcommand_spec("reset"@, standalone) == Subcommand::Reset,
        subcommand_spec("long"@, standalone) == Subcommand::Long,
        subcommand_spec("dump"@, standalone) == Subcommand::Dump,
        subcommand_spec("detect"@, standalone) == if standalone { Subcommand::Detect } else { Subcommand::Unknown },
        subcommand_spec("status"@, standalone) == if standalone { Subcommand::Unknown } else { Subcommand::Status },
        subcommand_spec("daemon"@, standalone) == if standalone { Subcommand::Unknown } else { Subcommand::Daemon },
        subcommand_spec("--e"@, standalone) == if standalone { Subcommand::Unknown } else { Subcommand::Enable },
        subcommand_spec("--d"@, standalone) == if standalone { Subcommand::Unknown } else { Subcommand::Disable },
{
    reveal_strlit("ioctl-codes");
    reveal_strlit("status");
    reveal_strlit("detect");
    reveal_strlit("set");
    reveal_strlit("get");
    reveal_strlit("def");
    reveal_strlit("min");
    reveal_strlit("max");
    reveal_strlit("mode-val");
    reveal_strlit("reset");
    reveal_strlit("long");
    reveal_strlit("dump");
    reveal_strlit("daemon");
    reveal_strlit("--e");
    reveal_strlit("--d");
    assert("status"@[0] != "detect"@[0]);
    assert("set"@[0] != "get"@[0] && "set"@[0] != "def"@[0] && "set"@[0] != "min"@[0] && "set"@[0] != "max"@[0]);
    assert("reset"@.len() != "ioctl-codes"@.len() && "reset"@.len() != "status"@.len() && "reset"@.len() != "set"@.len());
    assert("reset"@.len() != "mode-val"@.len() && "reset"@.len() != "detect"@.len());
    assert("long"@.len() != "ioctl-codes"@.len() && "long"@.len() != "status"@.len() && "long"@.len() != "set"@.len());
    assert("long"@.len() != "mode-val"@.len() && "long"@.len() != "reset"@.len() && "long"@.len() != "detect"@.len());
    assert("dump"@[0] != "long"@[0]);
    assert("dump"@.len() != "ioctl-codes"@.len() && "dump"@.len() != "status"@.len() && "dump"@.len() != "set"@.len());
    assert("dump"@.len() != "mode-val"@.len() && "dump"@.len() != "reset"@.len() && "dump"@.len() != "detect"@.len());
    assert("daemon"@[0] != "status"@[0] && "daemon"@[1] != "detect"@[1]);
    assert("daemon"@.len() != "ioctl-codes"@.len() && "daemon"@.len() != "set"@.len() && "daemon"@.len() != "mode-val"@.len());
    assert("daemon"@.len() != "reset"@.len() && "daemon"@.len() != "long"@.len() && "daemon"@.len() != "dump"@.len());
    assert("--e"@[0] != "set"@[0] && "--e"@[0] != "get"@[0] && "--e"@[0] != "def"@[0] && "--e"@[0] != "min"@[0]);
    assert("--e"@[0] != "max"@[0]);
    assert("--e"@.len() != "ioctl-codes"@.len() && "--e"@.len() != "status"@.len() && "--e"@.len() != "detect"@.len());
    assert("--e"@.len() != "mode-val"@.len() && "--e"@.len() != "reset"@.len() && "--e"@.len() != "long"@.len());
    assert("--e"@.len() != "dump"@.len() && "--e"@.len() != "daemon"@.len());
    assert("--d"@[0] != "set"@[0] && "--d"@[0] != "get"@[0] && "--d"@[0] != "def"@[0] && "--d"@[0] != "min"@[0]);
    assert("--d"@[0] != "max"@[0] && "--d"@[2] != "--e"@[2]);
    assert("--d"@.len() != "ioctl-codes"@.len() && "--d"@.len() != "status"@.len() && "--d"@.len() != "detect"@.len());
    assert("--d"@.len() != "mode-val"@.len() && "--d"@.len() != "reset"@.len() && "--d"@.len() != "long"@.len());
    assert("--d"@.len() != "dump"@.len() && "--d"@.len() != "daemon"@.len());
    assert("mode-val"@.len() != "ioctl-codes"@.len() && "mode-val"@.len() != "status"@.len() && "mode-val"@.len() != "detect"@.len());
    assert("mode-val"@.len() != "set"@.len() && "mode-val"@.len() != "get"@.len());
    assert("reset"@.len() != "get"@.len() && "long"@.len() != "get"@.len() && "dump"@.len() != "get"@.len());
    assert("daemon"@.len() != "get"@.len());
    assert("ioctl-codes"@.len() != "status"@.len() && "ioctl-codes"@.len() != "detect"@.len());
}

} // verus!
