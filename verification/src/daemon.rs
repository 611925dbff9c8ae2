use vstd::prelude::*;
use crate::cli::args_view;
use crate::config::{GAMEMODE_DEFAULT_POLL_MS, GamemodeConfig, ConfigView, parse_config_spec, parse_gamemode_config};
use crate::gamemode::{apply_gamemode_config, gamemode_plan, performed, TouchAction};
use crate::protocol::TouchIoctlProtocol;
use crate::text::{parse_u32_spec, parse_u64_spec, parse_u32, parse_u64, str_eq};

verus! {

/// What the command line of a gamemode daemon asks for.
pub enum DaemonArgs {
    /// Watch `config_path` every `poll_ms` milliseconds for panel `touch_id`.
    Run { touch_id: u32, config_path: String, poll_ms: u64 },
    /// Print the help text and stop successfully.
    Help,
    /// Stop with this error.
    Fail(String),
}

/// `DaemonArgs` as a mathematical value.
pub ghost enum DaemonArgsView {
    Run(u32, Seq<char>, u64),
    Help,
    Fail(Seq<char>),
}

impl View for DaemonArgs {
    type V = DaemonArgsView;

    open spec fn view(&self) -> DaemonArgsView {
        match self {
            DaemonArgs::Run { touch_id, config_path, poll_ms } => DaemonArgsView::Run(
                *touch_id,
                config_path@,
                *poll_ms,
            ),
            DaemonArgs::Help => DaemonArgsView::Help,
            DaemonArgs::Fail(e) => DaemonArgsView::Fail(e@),
        }
    }
}

/// The daemon options from position `i` on, with the settings read so far:
/// `--touch-id N` (a `u32`), `--file PATH`, `--poll-ms N` (a `u64`),
/// `--help`/`-h`; anything else is an error.
pub open spec fn daemon_args_from(
    args: Seq<Seq<char>>,
    i: int,
    touch_id: u32,
    path: Seq<char>,
    poll_ms: u64,
) -> DaemonArgsView
    decreases args.len() - i,
{
    if i >= args.len() || i < 0 {
        DaemonArgsView::Run(touch_id, path, poll_ms)
    } else if args[i] == "--touch-id"@ {
        if i + 1 < args.len() && parse_u32_spec(args[i + 1]) is Some {
            daemon_args_from(args, i + 2, parse_u32_spec(args[i + 1])->0, path, poll_ms)
        } else {
            DaemonArgsView::Fail("--touch-id needs an integer"@)
        }
    } else if args[i] == "--file"@ {
        if i + 1 < args.len() {
            daemon_args_from(args, i + 2, touch_id, args[i + 1], poll_ms)
        } else {
            DaemonArgsView::Fail("--file needs a path"@)
        }
    } else if args[i] == "--poll-ms"@ {
        if i + 1 < args.len() && parse_u64_spec(args[i + 1]) is Some {
            daemon_args_from(args, i + 2, touch_id, path, parse_u64_spec(args[i + 1])->0)
        } else {
            DaemonArgsView::Fail("--poll-ms needs an integer"@)
        }
    } else if args[i] == "--help"@ || args[i] == "-h"@ {
        DaemonArgsView::Help
    } else {
        DaemonArgsView::Fail("unknown argument '"@ + args[i] + "'"@)
    }
}

/// Reads a daemon's command line (`args[0]` is the program name): panel 0,
/// `default_config` and a 500 ms period unless the options say otherwise.
pub fn parse_daemon_args(args: &[String], default_config: &str) -> (r: DaemonArgs)
    requires
        args@.len() >= 1,
    ensures
        r@ == daemon_args_from(args_view(args@), 1, 0, default_config@, GAMEMODE_DEFAULT_POLL_MS),
{
    let ghost all = args_view(args@);
    let mut touch_id: u32 = 0;
    let mut config_path = String::from_str(default_config);
    let mut poll_ms: u64 = GAMEMODE_DEFAULT_POLL_MS;
    let mut i: usize = 1;
    while i < args.len()
        invariant
            all == args_view(args@),
            1 <= i <= args@.len() + 1,
            daemon_args_from(all, 1, 0, default_config@, GAMEMODE_DEFAULT_POLL_MS) == daemon_args_from(
                all,
                i as int,
                touch_id,
                config_path@,
                poll_ms,
            ),
        decreases args@.len() + 1 - i,
    {
        let a = args[i].as_str();
        if str_eq(a, "--touch-id") {
            let parsed = if i + 1 < args.len() {
                parse_u32(args[i + 1].as_str())
            } else {
                None
            };
            match parsed {
                Some(t) => {
                    touch_id = t;
                },
                None => {
                    return DaemonArgs::Fail(String::from_str("--touch-id needs an integer"));
                },
            }
        } else if str_eq(a, "--file") {
            if i + 1 < args.len() {
                config_path = args[i + 1].clone();
            } else {
                return DaemonArgs::Fail(String::from_str("--file needs a path"));
            }
        } else if str_eq(a, "--poll-ms") {
            let parsed = if i + 1 < args.len() {
                parse_u64(args[i + 1].as_str())
            } else {
                None
            };
            match parsed {
                Some(p) => {
                    poll_ms = p;
                },
                None => {
                    return DaemonArgs::Fail(String::from_str("--poll-ms needs an integer"));
                },
            }
        } else if str_eq(a, "--help") || str_eq(a, "-h") {
            return DaemonArgs::Help;
        } else {
            let mut msg = String::from_str("unknown argument '");
            msg.append(a);
            msg.append("'");
            return DaemonArgs::Fail(msg);
        }
        i = i + 2;
    }
    DaemonArgs::Run { touch_id, config_path, poll_ms }
}

/// What the configuration watcher remembers between polls.
pub struct WatchState {
    /// Modification time seen at the last change (nanoseconds from the epoch).
    pub last_mtime: Option<i128>,
    /// Text read at the last change.
    pub last_content: Option<String>,
}

/// Whether a poll that sees modification time `current` reports a change:
/// a file that appeared, or whose time differs from the last one seen.
pub open spec fn mtime_changed(current: Option<i128>, last: Option<i128>) -> bool {
    match (current, last) {
        (Some(c), Some(l)) => c != l,
        (Some(_), None) => true,
        _ => false,
    }
}

/// An optional string taken by its view.
pub open spec fn opt_str_view(o: Option<String>) -> Option<Seq<char>> {
    match o {
        Some(s) => Some(s@),
        None => None,
    }
}

/// What the watcher remembers, as values: the last modification time seen
/// and the last text read.
pub type WatchView = (Option<i128>, Option<Seq<char>>);

/// A poll that sees modification time `m`: the next state and whether the
/// file is to be read.
pub open spec fn poll_spec(st: WatchView, m: Option<i128>) -> (WatchView, bool) {
    let changed = mtime_changed(m, st.0);
    (if changed { (m, st.1) } else { st }, changed)
}

/// Accepting the text `c` after a read: the next state and whether the text
/// is new.
pub open spec fn accept_spec(st: WatchView, c: Seq<char>) -> (WatchView, bool) {
    ((st.0, Some(c)), st.1 != Some(c))
}

/// One poll of the watcher: the modification time seen and, when the file
/// was read, the text read (`None` when the read failed or did not happen).
/// Gives the next state and whether the text is to be parsed and applied.
pub open spec fn watch_step(st: WatchView, m: Option<i128>, read: Option<Seq<char>>) -> (WatchView, bool) {
    let (s1, changed) = poll_spec(st, m);
    if changed && read is Some {
        accept_spec(s1, read->0)
    } else {
        (s1, false)
    }
}

/// The state after a run of polls, from a watcher that has seen nothing.
pub open spec fn watch_state(obs: Seq<(Option<i128>, Option<Seq<char>>)>) -> WatchView
    decreases obs.len(),
{
    if obs.len() == 0 {
        (None, None)
    } else {
        watch_step(watch_state(obs.drop_last()), obs.last().0, obs.last().1).0
    }
}

/// Whether poll `k` of a run reads the file.
pub open spec fn watch_reads(obs: Seq<(Option<i128>, Option<Seq<char>>)>, k: int) -> bool {
    poll_spec(watch_state(obs.take(k)), obs[k].0).1
}

/// Whether poll `k` of a run parses and applies what it read.
pub open spec fn watch_applies(obs: Seq<(Option<i128>, Option<Seq<char>>)>, k: int) -> bool {
    watch_step(watch_state(obs.take(k)), obs[k].0, obs[k].1).1
}

/// The last modification time that was seen at all in a run of polls.
pub open spec fn last_seen_mtime(obs: Seq<(Option<i128>, Option<Seq<char>>)>) -> Option<i128>
    decreases obs.len(),
{
    if obs.len() == 0 {
        None
    } else if obs.last().0 is Some {
        obs.last().0
    } else {
        last_seen_mtime(obs.drop_last())
    }
}

/// The last text read in a run of polls: the text of the latest poll that
/// read the file successfully, if any.
pub open spec fn last_text_read(obs: Seq<(Option<i128>, Option<Seq<char>>)>) -> Option<Seq<char>>
    decreases obs.len(),
{
    if obs.len() == 0 {
        None
    } else if watch_reads(obs, obs.len() - 1) && obs.last().1 is Some {
        obs.last().1
    } else {
        last_text_read(obs.drop_last())
    }
}

/// The configuration that poll `k` of a run applies, if any: the text it
/// read, when it is to be applied and parses.
pub open spec fn watch_config(obs: Seq<(Option<i128>, Option<Seq<char>>)>, k: int) -> Option<ConfigView> {
    if watch_applies(obs, k) {
        match parse_config_spec(obs[k].1->0) {
            Ok(cfg) => Some(cfg),
            Err(_) => None,
        }
    } else {
        None
    }
}

/// Law: over any run of polls, the watcher remembers the last time seen and
/// the last text read; so poll `k` reads the file exactly when it sees a
/// time that differs from the last time seen before it (or none was seen),
/// and it applies a configuration exactly when, moreover, the read
/// succeeded with a text that differs from the last text read before it
/// and that text parses; what it applies is then that text's configuration.
pub proof fn lemma_watch_polls(obs: Seq<(Option<i128>, Option<Seq<char>>)>, k: int)
    requires
        0 <= k < obs.len(),
    ensures
        watch_state(obs.take(k)).0 == last_seen_mtime(obs.take(k)),
        watch_state(obs.take(k)).1 == last_text_read(obs.take(k)),
        watch_reads(obs, k) == mtime_changed(obs[k].0, last_seen_mtime(obs.take(k))),
        watch_applies(obs, k) == (watch_reads(obs, k) && obs[k].1 is Some && last_text_read(obs.take(k))
            != obs[k].1),
        watch_config(obs, k) is Some == (watch_applies(obs, k) && parse_config_spec(obs[k].1->0) is Ok),
        watch_config(obs, k) matches Some(cfg) ==> parse_config_spec(obs[k].1->0) == Ok::<
            ConfigView,
            Seq<char>,
        >(cfg),
{
    lemma_watch_mtime(obs.take(k));
    lemma_watch_text(obs.take(k));
}

proof fn lemma_watch_text(obs: Seq<(Option<i128>, Option<Seq<char>>)>)
    ensures
        watch_state(obs).1 == last_text_read(obs),
    decreases obs.len(),
{
    if obs.len() > 0 {
        lemma_watch_text(obs.drop_last());
        assert(obs.take(obs.len() - 1) =~= obs.drop_last());
        assert(obs[obs.len() - 1] == obs.last());
    }
}

proof fn lemma_watch_mtime(obs: Seq<(Option<i128>, Option<Seq<char>>)>)
    ensures
        watch_state(obs).0 == last_seen_mtime(obs),
    decreases obs.len(),
{
    if obs.len() > 0 {
        lemma_watch_mtime(obs.drop_last());
    }
}

/// Law: a text is applied at most once in a row: once poll `j` has read
/// `c`, as long as no later poll reads a different text, the watcher keeps
/// `c` as its last text, and a poll that reads `c` again applies nothing,
/// whether `c` was applied, failed to parse or failed to reach the device.
pub proof fn lemma_watch_applies_once(obs: Seq<(Option<i128>, Option<Seq<char>>)>, j: int, k: int, c: Seq<char>)
    requires
        0 <= j < k <= obs.len(),
        watch_reads(obs, j),
        obs[j].1 == Some(c),
        forall|i: int| j < i < k ==> !(#[trigger] watch_reads(obs, i) && obs[i].1 is Some && obs[i].1 != Some(c)),
    ensures
        watch_state(obs.take(k)).1 == Some(c),
        k < obs.len() && obs[k].1 == Some(c) ==> !watch_applies(obs, k),
    decreases k - j,
{
    if k == j + 1 {
        assert(obs.take(k).drop_last() =~= obs.take(j));
        assert(obs.take(k).last() == obs[j]);
    } else {
        lemma_watch_applies_once(obs, j, k - 1, c);
        assert(obs.take(k).drop_last() =~= obs.take(k - 1));
        assert(obs.take(k).last() == obs[k - 1]);
        assert(!(watch_reads(obs, k - 1) && obs[k - 1].1 is Some && obs[k - 1].1 != Some(c)));
    }
}

/// Applies a new configuration once the device has been opened: nothing
/// when the open failed (`fd` negative); otherwise every planned call, as
/// `apply_gamemode_config` makes them, with their outcomes.
pub fn apply_to_open_device<P: TouchIoctlProtocol>(
    protocol: &P,
    fd: i32,
    touch_id: u32,
    cfg: &GamemodeConfig,
) -> (r: Option<(Vec<TouchAction>, Vec<Result<(), String>>)>)
    ensures
        r is Some <==> fd >= 0,
        r matches Some(x) ==> {
            &&& x.0@.map_values(|a: TouchAction| a@) == gamemode_plan(cfg@)
            &&& x.1@.len() == x.0@.len()
            &&& forall|i: int| 0 <= i < x.0@.len() ==> performed(protocol, fd, touch_id, #[trigger] x.0@[i]@, x.1@[i])
        },
{
    if fd < 0 {
        None
    } else {
        Some(apply_gamemode_config(protocol, fd, touch_id, cfg))
    }
}

/// What a text read after a change comes to.
pub enum TextOutcome {
    /// The same text as the last one read: nothing to do.
    Unchanged,
    /// A new text that does not parse, with the parser's error.
    Invalid(String),
    /// A new text and its configuration, to apply.
    Apply(GamemodeConfig),
}

/// The watcher's state as values.
pub open spec fn watch_view(w: WatchState) -> WatchView {
    (w.last_mtime, opt_str_view(w.last_content))
}

impl WatchState {
    /// A watcher that has seen nothing yet.
    pub fn new() -> (r: WatchState)
        ensures
            r.last_mtime is None,
            r.last_content is None,
    {
        WatchState { last_mtime: None, last_content: None }
    }

    /// Records a poll that sees modification time `current` (`None` when the
    /// file cannot be examined); returns whether the file is to be read. A
    /// change replaces the remembered time; otherwise nothing changes.
    pub fn poll(&mut self, current: Option<i128>) -> (changed: bool)
        ensures
            changed == mtime_changed(current, old(self).last_mtime),
            final(self).last_mtime == if changed { current } else { old(self).last_mtime },
            opt_str_view(final(self).last_content) == opt_str_view(old(self).last_content),
            current is Some ==> final(self).last_mtime == current,
            (watch_view(*final(self)), changed) == poll_spec(watch_view(*old(self)), current),
    {
        let changed = match (current, self.last_mtime) {
            (Some(c), Some(l)) => c != l,
            (Some(_), None) => true,
            _ => false,
        };
        if changed {
            self.last_mtime = current;
        }
        changed
    }

    /// Records the text read after a change (as `accept` does) and, when it
    /// is new, parses it.
    pub fn take_text(&mut self, content: &str) -> (r: TextOutcome)
        ensures
            (watch_view(*final(self)), !(r is Unchanged)) == accept_spec(watch_view(*old(self)), content@),
            r matches TextOutcome::Invalid(e) ==> parse_config_spec(content@) == Err::<ConfigView, Seq<char>>(e@),
            r matches TextOutcome::Apply(cfg) ==> parse_config_spec(content@) == Ok::<ConfigView, Seq<char>>(cfg@),
            !(r is Unchanged) ==> (r is Apply <==> parse_config_spec(content@) is Ok),
    {
        if !self.accept(content) {
            return TextOutcome::Unchanged;
        }
        match parse_gamemode_config(content) {
            Ok(cfg) => TextOutcome::Apply(cfg),
            Err(e) => TextOutcome::Invalid(e),
        }
    }

    /// Records the text read after a change; returns whether it is new
    /// (different from the text read last), in which case it is remembered
    /// and is to be parsed and applied.
    pub fn accept(&mut self, content: &str) -> (fresh: bool)
        ensures
            fresh == (opt_str_view(old(self).last_content) != Some(content@)),
            fresh ==> opt_str_view(final(self).last_content) == Some(content@),
            !fresh ==> opt_str_view(final(self).last_content) == opt_str_view(old(self).last_content),
            opt_str_view(final(self).last_content) == Some(content@),
            final(self).last_mtime == old(self).last_mtime,
            (watch_view(*final(self)), fresh) == accept_spec(watch_view(*old(self)), content@),
    {
        let same = match &self.last_content {
            Some(last) => str_eq(last.as_str(), content),
            None => false,
        };
        if same {
            false
        } else {
            self.last_content = Some(String::from_str(content));
            true
        }
    }
}

} // verus!
