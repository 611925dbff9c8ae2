use vstd::prelude::*;
use crate::text::{
    signed_decimal, lemma_signed_decimal_parses, lemma_trim_unchanged, lemma_index_of_absent,
    lemma_decimal_parses, is_digit, is_ws,
    trim, index_of, split_on, parse_u16_spec, parse_i32_spec, decimal, str_chars, trim_bounds,
    find_char, parse_u16_at, parse_i32_at, push_decimal, lemma_index_of,
};

verus! {

/// Where the gamemode daemons read their configuration by default.
pub const GAMEMODE_CONFIG_PATH: &'static str = "/data/oofcontrol/gamemode.txt";
/// Default polling period of the gamemode daemons, in milliseconds.
pub const GAMEMODE_DEFAULT_POLL_MS: u64 = 500;
/// The mode whose configuration line carries the grip-zone array.
pub const MODE_GRIP_LONG_ID: u16 = 15;
/// The number of values in the grip array.
pub const GRIP_LEN: usize = 96;
/// The game-mode switch.
pub const MODE_GAME_MODE_ID: u16 = 0;

/// Parsed representation of the gamemode configuration file.
#[derive(Debug, Clone)]
pub struct GamemodeConfig {
    /// (mode_id, value) pairs for SET_CUR_VALUE
    pub modes: Vec<(u16, i32)>,
    /// Optional 96-element grip array for SET_LONG_VALUE on mode 15
    pub grip: Option<Vec<i32>>,
}

/// The content of a configuration: its `(mode, value)` pairs in order and
/// its grip array, if any.
pub type ConfigView = (Seq<(u16, i32)>, Option<Seq<i32>>);

/// An optional vector taken by its view.
pub open spec fn opt_view(o: Option<Vec<i32>>) -> Option<Seq<i32>> {
    match o {
        Some(v) => Some(v@),
        None => None,
    }
}

impl View for GamemodeConfig {
    type V = ConfigView;

    open spec fn view(&self) -> ConfigView {
        (self.modes@, opt_view(self.grip))
    }
}

/// Each piece trimmed and parsed as an `i32`; `None` when any piece fails.
pub open spec fn parse_i32_list(pieces: Seq<Seq<char>>) -> Option<Seq<i32>>
    decreases pieces.len(),
{
    if pieces.len() == 0 {
        Some(Seq::empty())
    } else {
        match parse_i32_list(pieces.drop_last()) {
            Some(v) => match parse_i32_spec(trim(pieces.last())) {
                Some(x) => Some(v.push(x)),
                None => None,
            },
            None => None,
        }
    }
}

/// The mode field of a trimmed line: up to the first space, trimmed.
pub open spec fn mode_field(t: Seq<char>) -> Seq<char> {
    trim(t.take(index_of(t, ' ')))
}

/// The value field of a trimmed line: after the first space, trimmed;
/// empty when there is no space.
pub open spec fn value_field(t: Seq<char>) -> Seq<char> {
    let k = index_of(t, ' ');
    if k < t.len() {
        trim(t.skip(k + 1))
    } else {
        Seq::empty()
    }
}

/// The error for an unparsable mode field.
pub open spec fn bad_mode_message(m: Seq<char>) -> Seq<char> {
    "bad mode id '"@ + m + "'"@
}

/// The error for an unparsable grip array.
pub open spec fn bad_grip_message(v: Seq<char>) -> Seq<char> {
    "bad grip values: '"@ + v + "'"@
}

/// The error for an unparsable value of mode `mode`.
pub open spec fn bad_value_message(v: Seq<char>, mode: u16) -> Seq<char> {
    "bad value '"@ + v + "' for mode "@ + decimal(mode as nat)
}

/// The effect of one configuration line on the configuration read so far:
/// blank and `#` lines are skipped; a mode-15 line sets the grip array,
/// which must hold exactly `GRIP_LEN` values; any
/// other line appends a `(mode, value)` pair.
pub open spec fn config_line(st: ConfigView, line: Seq<char>) -> Result<ConfigView, Seq<char>> {
    let t = trim(line);
    if t.len() == 0 || t[0] == '#' {
        Ok(st)
    } else {
        let m = mode_field(t);
        let v = value_field(t);
        match parse_u16_spec(m) {
            None => Err(bad_mode_message(m)),
            Some(mode) => if mode == MODE_GRIP_LONG_ID {
                match parse_i32_list(split_on(v, ',')) {
                    Some(g) => if g.len() == GRIP_LEN {
                        Ok((st.0, Some(g)))
                    } else {
                        Err(bad_grip_message(v))
                    },
                    None => Err(bad_grip_message(v)),
                }
            } else {
                match parse_i32_spec(v) {
                    None => Err(bad_value_message(v, mode)),
                    Some(x) => Ok((st.0.push((mode, x)), st.1)),
                }
            },
        }
    }
}

/// Lines applied in order from `st`; the first failing line gives the error.
pub open spec fn config_from(st: ConfigView, lines: Seq<Seq<char>>) -> Result<ConfigView, Seq<char>>
    decreases lines.len(),
{
    if lines.len() == 0 {
        Ok(st)
    } else {
        match config_from(st, lines.drop_last()) {
            Ok(s) => config_line(s, lines.last()),
            Err(e) => Err(e),
        }
    }
}

/// The empty configuration.
pub open spec fn empty_config() -> ConfigView {
    (Seq::empty(), None)
}

/// What parsing a configuration text gives.
pub open spec fn parse_config_spec(content: Seq<char>) -> Result<ConfigView, Seq<char>> {
    config_from(empty_config(), split_on(content, '\n'))
}

/// A configuration result with its parts taken by their views.
pub open spec fn config_result_view(r: Result<GamemodeConfig, String>) -> Result<ConfigView, Seq<char>> {
    match r {
        Ok(c) => Ok(c@),
        Err(e) => Err(e@),
    }
}

proof fn lemma_split_step(s: Seq<char>, sep: char)
    ensures
        ({
            let i = index_of(s, sep);
            &&& 0 <= i <= s.len()
            &&& i < s.len() ==> split_on(s, sep) == seq![s.take(i)] + split_on(s.skip(i + 1), sep)
            &&& i == s.len() ==> split_on(s, sep) == seq![s]
        }),
{
    lemma_index_of(s, sep);
}

/// `s[lo..hi]` split at commas, each piece trimmed and parsed as an `i32`.
fn parse_i32_list_at(c: &Vec<char>, lo: usize, hi: usize) -> (r: Option<Vec<i32>>)
    requires
        lo <= hi <= c@.len(),
    ensures
        opt_view(r) == parse_i32_list(split_on(c@.subrange(lo as int, hi as int), ',')),
{
    let ghost whole = c@.subrange(lo as int, hi as int);
    let ghost mut done: Seq<Seq<char>> = Seq::empty();
    let mut out: Vec<i32> = Vec::new();
    let mut start = lo;
    assert(whole =~= c@.subrange(start as int, hi as int));
    assert(split_on(whole, ',') =~= done + split_on(c@.subrange(start as int, hi as int), ','));
    loop
        invariant
            lo <= start <= hi <= c@.len(),
            whole == c@.subrange(lo as int, hi as int),
            split_on(whole, ',') == done + split_on(c@.subrange(start as int, hi as int), ','),
            parse_i32_list(done) == Some(out@),
        decreases hi - start,
    {
        let ghost rest = c@.subrange(start as int, hi as int);
        let end = find_char(c, start, hi, ',');
        proof {
            lemma_split_step(rest, ',');
        }
        let ghost piece = c@.subrange(start as int, end as int);
        assert(rest.take(end - start) =~= piece);
        let (a, b) = trim_bounds(c, start, end);
        let v = parse_i32_at(c, a, b);
        proof {
            assert(done.push(piece).drop_last() =~= done);
        }
        match v {
            None => {
                proof {
                    assert(parse_i32_list(done.push(piece)) is None);
                    if end < hi {
                        let more = split_on(rest.skip(end - start + 1), ',');
                        lemma_list_fails_on_prefix(done.push(piece), more);
                        assert(split_on(whole, ',') =~= done.push(piece) + more);
                    } else {
                        assert(rest =~= piece);
                        assert(split_on(whole, ',') =~= done.push(piece));
                    }
                }
                return None;
            },
            Some(x) => {
                out.push(x);
                proof {
                    done = done.push(piece);
                }
                if end == hi {
                    proof {
                        assert(rest =~= piece);
                        assert(split_on(whole, ',') =~= done);
                    }
                    return Some(out);
                }
                proof {
                    assert(rest.skip(end - start + 1) =~= c@.subrange(end + 1, hi as int));
                    assert(split_on(whole, ',') =~= done + split_on(c@.subrange(end + 1, hi as int), ','));
                }
                start = end + 1;
            },
        }
    }
}

/// A failing prefix makes the whole list fail.
proof fn lemma_list_fails_on_prefix(pre: Seq<Seq<char>>, more: Seq<Seq<char>>)
    requires
        parse_i32_list(pre) is None,
    ensures
        parse_i32_list(pre + more) is None,
    decreases more.len(),
{
    if more.len() == 0 {
        assert(pre + more =~= pre);
    } else {
        lemma_list_fails_on_prefix(pre, more.drop_last());
        assert((pre + more).drop_last() =~= pre + more.drop_last());
    }
}

/// Applies the line `content[lo..hi]` to `modes` and `grip`, or returns the
/// error that the line gives.
fn apply_line(
    content: &str,
    c: &Vec<char>,
    lo: usize,
    hi: usize,
    modes: &mut Vec<(u16, i32)>,
    grip: &mut Option<Vec<i32>>,
) -> (r: Result<(), String>)
    requires
        c@ == content@,
        lo <= hi <= c@.len(),
    ensures
        match config_line((old(modes)@, opt_view(*old(grip))), c@.subrange(lo as int, hi as int)) {
            Ok(st) => r is Ok && (final(modes)@, opt_view(*final(grip))) == st,
            Err(e) => r matches Err(m) && m@ == e,
        },
{
    let ghost line = c@.subrange(lo as int, hi as int);
    let (a, b) = trim_bounds(c, lo, hi);
    let ghost t = c@.subrange(a as int, b as int);
    if a == b || c[a] == '#' {
        return Ok(());
    }
    let k = find_char(c, a, b, ' ');
    proof {
        lemma_index_of(t, ' ');
        assert(t.take(k - a) =~= c@.subrange(a as int, k as int));
    }
    let (ma, mb) = trim_bounds(c, a, k);
    let (va, vb) = if k < b {
        proof {
            assert(t.skip(k - a + 1) =~= c@.subrange(k + 1, b as int));
        }
        trim_bounds(c, k + 1, b)
    } else {
        (b, b)
    };
    let ghost m = c@.subrange(ma as int, mb as int);
    let ghost v = c@.subrange(va as int, vb as int);
    assert(m == mode_field(t));
    assert(v =~= value_field(t));
    match parse_u16_at(c, ma, mb) {
        None => {
            let mut msg = String::from_str("bad mode id '");
            msg.append(content.substring_char(ma, mb));
            msg.append("'");
            Err(msg)
        },
        Some(mode) => {
            if mode == MODE_GRIP_LONG_ID {
                match parse_i32_list_at(c, va, vb) {
                    Some(g) if g.len() == GRIP_LEN => {
                        *grip = Some(g);
                        Ok(())
                    },
                    _ => {
                        let mut msg = String::from_str("bad grip values: '");
                        msg.append(content.substring_char(va, vb));
                        msg.append("'");
                        Err(msg)
                    },
                }
            } else {
                match parse_i32_at(c, va, vb) {
                    None => {
                        let mut msg = String::from_str("bad value '");
                        msg.append(content.substring_char(va, vb));
                        msg.append("' for mode ");
                        push_decimal(&mut msg, mode as u64);
                        Err(msg)
                    },
                    Some(x) => {
                        modes.push((mode, x));
                        Ok(())
                    },
                }
            }
        },
    }
}

/// Parses the gamemode configuration text: one `mode value` pair per line,
/// blank lines and `#` comments skipped, mode 15 carrying a comma-separated
/// grip array of exactly 96 values (the last such line wins); the first bad
/// line gives the error.
pub fn parse_gamemode_config(content: &str) -> (r: Result<GamemodeConfig, String>)
    ensures
        config_result_view(r) == parse_config_spec(content@),
{
    let c = str_chars(content);
    let n = c.len();
    let mut modes: Vec<(u16, i32)> = Vec::new();
    let mut grip: Option<Vec<i32>> = None;
    let ghost whole = content@;
    let ghost mut done: Seq<Seq<char>> = Seq::empty();
    let mut start: usize = 0;
    assert(whole =~= c@.subrange(0, n as int));
    assert(split_on(whole, '\n') =~= done + split_on(c@.subrange(0, n as int), '\n'));
    loop
        invariant
            c@ == content@,
            n == c@.len(),
            whole == content@,
            start <= n,
            split_on(whole, '\n') == done + split_on(c@.subrange(start as int, n as int), '\n'),
            config_from(empty_config(), done) == Ok::<ConfigView, Seq<char>>((modes@, opt_view(grip))),
        decreases n - start,
    {
        let ghost rest = c@.subrange(start as int, n as int);
        let ghost before = (modes@, opt_view(grip));
        let end = find_char(&c, start, n, '\n');
        proof {
            lemma_split_step(rest, '\n');
        }
        let ghost line = c@.subrange(start as int, end as int);
        assert(rest.take(end - start) =~= line);
        let step = apply_line(content, &c, start, end, &mut modes, &mut grip);
        proof {
            assert(done.push(line).drop_last() =~= done);
        }
        match step {
            Err(e) => {
                proof {
                    if end < n {
                        let more = split_on(rest.skip(end - start + 1), '\n');
                        lemma_config_fails_on_prefix(done.push(line), more);
                        assert(split_on(whole, '\n') =~= done.push(line) + more);
                    } else {
                        assert(rest =~= line);
                        assert(split_on(whole, '\n') =~= done.push(line));
                    }
                }
                return Err(e);
            },
            Ok(()) => {},
        }
        proof {
            done = done.push(line);
        }
        if end == n {
            proof {
                assert(rest =~= line);
                assert(split_on(whole, '\n') =~= done);
            }
            return Ok(GamemodeConfig { modes, grip });
        }
        proof {
            assert(rest.skip(end - start + 1) =~= c@.subrange(end + 1, n as int));
            assert(split_on(whole, '\n') =~= done + split_on(c@.subrange(end + 1, n as int), '\n'));
        }
        start = end + 1;
    }
}

/// A failing prefix of lines makes the whole text fail with the same error.
proof fn lemma_config_fails_on_prefix(pre: Seq<Seq<char>>, more: Seq<Seq<char>>)
    requires
        config_from(empty_config(), pre) is Err,
    ensures
        config_from(empty_config(), pre + more) == config_from(empty_config(), pre),
    decreases more.len(),
{
    if more.len() == 0 {
        assert(pre + more =~= pre);
    } else {
        lemma_config_fails_on_prefix(pre, more.drop_last());
        assert((pre + more).drop_last() =~= pre + more.drop_last());
    }
}

proof fn lemma_index_of_concat(a: Seq<char>, x: Seq<char>, c: char)
    ensures
        index_of(a, c) < a.len() ==> index_of(a + x, c) == index_of(a, c),
        index_of(a, c) == a.len() ==> index_of(a + x, c) == a.len() + index_of(x, c),
    decreases a.len(),
{
    lemma_index_of(a, c);
    if a.len() > 0 {
        assert((a + x).drop_first() =~= a.drop_first() + x);
        assert((a + x)[0] == a[0]);
        lemma_index_of_concat(a.drop_first(), x, c);
    } else {
        assert(a + x =~= x);
    }
}

/// Splitting at a separator placed between two texts splits each of them.
proof fn lemma_split_concat(a: Seq<char>, b: Seq<char>, sep: char)
    ensures
        split_on(a + seq![sep] + b, sep) == split_on(a, sep) + split_on(b, sep),
    decreases a.len(),
{
    let s = a + seq![sep] + b;
    let i = index_of(a, sep);
    lemma_index_of(a, sep);
    lemma_index_of_concat(a, seq![sep] + b, sep);
    assert(s =~= a + (seq![sep] + b));
    lemma_split_step(s, sep);
    lemma_split_step(a, sep);
    if i < a.len() {
        assert(s.take(i) =~= a.take(i));
        assert(s.skip(i + 1) =~= a.skip(i + 1) + seq![sep] + b);
        lemma_split_concat(a.skip(i + 1), b, sep);
        assert(split_on(s, sep) =~= split_on(a, sep) + split_on(b, sep));
    } else {
        assert(index_of(seq![sep] + b, sep) == 0);
        assert(s.take(i) =~= a);
        assert(s.skip(i + 1) =~= b);
        assert(split_on(s, sep) =~= split_on(a, sep) + split_on(b, sep));
    }
}

/// Applying two runs of lines is applying the first, then the second.
proof fn lemma_config_from_concat(st: ConfigView, l1: Seq<Seq<char>>, l2: Seq<Seq<char>>)
    ensures
        config_from(st, l1 + l2) == match config_from(st, l1) {
            Ok(s) => config_from(s, l2),
            Err(e) => Err(e),
        },
    decreases l2.len(),
{
    if l2.len() == 0 {
        assert(l1 + l2 =~= l1);
    } else {
        lemma_config_from_concat(st, l1, l2.drop_last());
        assert((l1 + l2).drop_last() =~= l1 + l2.drop_last());
        assert((l1 + l2).last() == l2.last());
    }
}

/// Law: the lines of a configuration are read in order: the text `a`, a
/// newline, then `b` reads as `a`, continued with the lines of `b` (and
/// fails as `a` does when `a` fails).
pub proof fn lemma_config_concat(a: Seq<char>, b: Seq<char>)
    ensures
        parse_config_spec(a + seq!['\n'] + b) == match parse_config_spec(a) {
            Ok(st) => config_from(st, split_on(b, '\n')),
            Err(e) => Err(e),
        },
{
    lemma_split_concat(a, b, '\n');
    lemma_config_from_concat(empty_config(), split_on(a, '\n'), split_on(b, '\n'));
}

/// Law: appending a blank line or a `#` comment line leaves the parsed
/// configuration unchanged.
pub proof fn lemma_config_comment_ignored(a: Seq<char>, comment: Seq<char>)
    requires
        index_of(comment, '\n') == comment.len(),
        trim(comment).len() == 0 || trim(comment)[0] == '#',
    ensures
        parse_config_spec(a + seq!['\n'] + comment) == parse_config_spec(a),
{
    lemma_config_concat(a, comment);
    lemma_split_step(comment, '\n');
    let one = seq![comment];
    assert(split_on(comment, '\n') == one);
    assert(one.drop_last() =~= Seq::<Seq<char>>::empty());
    match parse_config_spec(a) {
        Ok(st) => {
            assert(config_from(st, one.drop_last()) == Ok::<ConfigView, Seq<char>>(st));
            assert(config_line(st, comment) == Ok::<ConfigView, Seq<char>>(st));
            assert(config_from(st, one) == Ok::<ConfigView, Seq<char>>(st));
        },
        Err(_) => {},
    }
}

/// Whether a line is skipped: blank, all white space, or a `#` comment.
pub open spec fn ignorable(line: Seq<char>) -> bool {
    trim(line).len() == 0 || trim(line)[0] == '#'
}

/// Law: a skipped line, wherever it stands among the lines, changes nothing.
pub proof fn lemma_config_from_ignorable(st: ConfigView, a: Seq<Seq<char>>, c: Seq<char>, b: Seq<Seq<char>>)
    requires
        ignorable(c),
    ensures
        config_from(st, a + seq![c] + b) == config_from(st, a + b),
{
    let one = seq![c];
    lemma_config_from_concat(st, a + one, b);
    lemma_config_from_concat(st, a, one);
    lemma_config_from_concat(st, a, b);
    assert(one.drop_last() =~= Seq::<Seq<char>>::empty());
    match config_from(st, a) {
        Ok(s) => {
            assert(config_from(s, one.drop_last()) == Ok::<ConfigView, Seq<char>>(s));
            assert(config_from(s, one) == Ok::<ConfigView, Seq<char>>(s));
        },
        Err(_) => {},
    }
}

/// Whether two runs of lines are the same once each line is trimmed.
pub open spec fn same_trimmed(l1: Seq<Seq<char>>, l2: Seq<Seq<char>>) -> bool {
    &&& l1.len() == l2.len()
    &&& forall|i: int| 0 <= i < l1.len() ==> trim(#[trigger] l1[i]) == trim(l2[i])
}

/// Law: white space added or removed at the start or end of lines changes
/// nothing.
pub proof fn lemma_config_from_trimmed(st: ConfigView, l1: Seq<Seq<char>>, l2: Seq<Seq<char>>)
    requires
        same_trimmed(l1, l2),
    ensures
        config_from(st, l1) == config_from(st, l2),
    decreases l1.len(),
{
    if l1.len() > 0 {
        let p1 = l1.drop_last();
        let p2 = l2.drop_last();
        assert(same_trimmed(p1, p2)) by {
            assert forall|i: int| 0 <= i < p1.len() implies trim(#[trigger] p1[i]) == trim(p2[i]) by {
                assert(p1[i] == l1[i] && p2[i] == l2[i]);
            }
        }
        lemma_config_from_trimmed(st, p1, p2);
        assert(trim(l1.last()) == trim(l2.last()));
    }
}

/// Law: inserting a blank, white-space or `#` comment line between two
/// parts of a configuration text, or before it, leaves the parse unchanged
/// (the same configuration or the same error).
pub proof fn lemma_config_insert_ignorable(x: Seq<char>, c: Seq<char>, y: Seq<char>)
    requires
        index_of(c, '\n') == c.len(),
        ignorable(c),
    ensures
        parse_config_spec(x + seq!['\n'] + c + seq!['\n'] + y) == parse_config_spec(x + seq!['\n'] + y),
        parse_config_spec(c + seq!['\n'] + y) == parse_config_spec(y),
{
    lemma_split_step(c, '\n');
    assert(split_on(c, '\n') == seq![c]);
    lemma_split_concat(c, y, '\n');
    lemma_split_concat(x, c + seq!['\n'] + y, '\n');
    assert(x + seq!['\n'] + c + seq!['\n'] + y =~= x + seq!['\n'] + (c + seq!['\n'] + y));
    lemma_split_concat(x, y, '\n');
    let a = split_on(x, '\n');
    let b = split_on(y, '\n');
    assert(a + (seq![c] + b) =~= a + seq![c] + b);
    lemma_config_from_ignorable(empty_config(), a, c, b);
    lemma_config_from_ignorable(empty_config(), Seq::empty(), c, b);
    assert(Seq::<Seq<char>>::empty() + seq![c] + b =~= seq![c] + b);
    assert(Seq::<Seq<char>>::empty() + b =~= b);
}

/// Law: two configuration texts whose lines are the same once trimmed
/// (white space added or removed at either end of lines) parse alike.
pub proof fn lemma_config_whitespace(x: Seq<char>, y: Seq<char>)
    requires
        same_trimmed(split_on(x, '\n'), split_on(y, '\n')),
    ensures
        parse_config_spec(x) == parse_config_spec(y),
{
    lemma_config_from_trimmed(empty_config(), split_on(x, '\n'), split_on(y, '\n'));
}

/// The lines that are not skipped, in order.
pub open spec fn kept_lines(lines: Seq<Seq<char>>) -> Seq<Seq<char>>
    decreases lines.len(),
{
    if lines.len() == 0 {
        Seq::empty()
    } else if ignorable(lines.last()) {
        kept_lines(lines.drop_last())
    } else {
        kept_lines(lines.drop_last()).push(lines.last())
    }
}

proof fn lemma_config_from_kept(st: ConfigView, lines: Seq<Seq<char>>)
    ensures
        config_from(st, lines) == config_from(st, kept_lines(lines)),
    decreases lines.len(),
{
    if lines.len() > 0 {
        let p = lines.drop_last();
        lemma_config_from_kept(st, p);
        if !ignorable(lines.last()) {
            let k = kept_lines(p).push(lines.last());
            assert(k.drop_last() =~= kept_lines(p));
            assert(k.last() == lines.last());
        } else {
            match config_from(st, p) {
                Ok(s) => {
                    assert(config_line(s, lines.last()) == Ok::<ConfigView, Seq<char>>(s));
                },
                Err(_) => {},
            }
        }
    }
}

/// Law: two configuration texts parse alike (the same configuration or the
/// same error) when, once blank, white-space and `#` lines are left out,
/// they have the same lines up to white space at either end of each line:
/// any number of skipped lines may be added or removed anywhere, and white
/// space added or removed around any lines.
pub proof fn lemma_config_equivalent_texts(x: Seq<char>, y: Seq<char>)
    requires
        same_trimmed(kept_lines(split_on(x, '\n')), kept_lines(split_on(y, '\n'))),
    ensures
        parse_config_spec(x) == parse_config_spec(y),
{
    lemma_config_from_kept(empty_config(), split_on(x, '\n'));
    lemma_config_from_kept(empty_config(), split_on(y, '\n'));
    lemma_config_from_trimmed(
        empty_config(),
        kept_lines(split_on(x, '\n')),
        kept_lines(split_on(y, '\n')),
    );
}

/// Whether no pair of `modes` is for the grip mode.
pub open spec fn no_grip_pairs(modes: Seq<(u16, i32)>) -> bool {
    forall|i: int| 0 <= i < modes.len() ==> (#[trigger] modes[i]).0 != MODE_GRIP_LONG_ID
}

proof fn lemma_config_from_no_grip_pairs(st: ConfigView, lines: Seq<Seq<char>>)
    requires
        no_grip_pairs(st.0),
        st.1 matches Some(g) ==> g.len() == GRIP_LEN,
    ensures
        config_from(st, lines) matches Ok(r) ==> no_grip_pairs(r.0),
        config_from(st, lines) matches Ok(r) ==> (r.1 matches Some(g) ==> g.len() == GRIP_LEN),
    decreases lines.len(),
{
    if lines.len() > 0 {
        lemma_config_from_no_grip_pairs(st, lines.drop_last());
        match config_from(st, lines.drop_last()) {
            Ok(s) => {
                if let Ok(r) = config_line(s, lines.last()) {
                    assert forall|i: int| 0 <= i < r.0.len() implies (#[trigger] r.0[i]).0 != MODE_GRIP_LONG_ID by {
                        if i < s.0.len() {
                            assert(r.0[i] == s.0[i]);
                        }
                    }
                }
            },
            Err(_) => {},
        }
    }
}

/// Law: a parsed configuration never holds a `(15, value)` pair: the grip
/// mode's line always goes to the grip array, which always holds 96 values.
pub proof fn lemma_config_grip_separate(content: Seq<char>)
    ensures
        parse_config_spec(content) matches Ok(r) ==> no_grip_pairs(r.0),
        parse_config_spec(content) matches Ok(r) ==> (r.1 matches Some(g) ==> g.len() == GRIP_LEN),
{
    lemma_config_from_no_grip_pairs(empty_config(), split_on(content, '\n'));
}

/// Law: a line `MODE VALUE` written in decimal (for any mode but the grip
/// mode) reads back as exactly that pair, with no grip array.
pub proof fn lemma_config_pair_roundtrip(m: u16, v: i32)
    requires
        m != MODE_GRIP_LONG_ID,
    ensures
        parse_config_spec(decimal(m as nat) + seq![' '] + signed_decimal(v as int))
            == Ok::<ConfigView, Seq<char>>((seq![(m, v)], None)),
{
    let dm = decimal(m as nat);
    let dv = signed_decimal(v as int);
    let line = dm + seq![' '] + dv;
    lemma_decimal_parses(m as nat);
    lemma_signed_decimal_parses(v);
    assert(is_digit(dm[0]));
    assert(is_digit(dm.last()));
    // the line has no newline: it is the only line
    assert forall|i: int| 0 <= i < line.len() implies line[i] != '\n' by {
        if i < dm.len() {
            assert(is_digit(dm[i]));
        } else if i > dm.len() {
            assert(line[i] == dv[i - dm.len() - 1]);
        }
    }
    lemma_index_of_absent(line, '\n');
    lemma_split_step(line, '\n');
    let lines = seq![line];
    assert(lines.drop_last() =~= Seq::<Seq<char>>::empty());
    // the line is already trimmed
    assert(line[0] == dm[0]);
    assert(line.last() == dv.last());
    assert(!is_ws(line[0]));
    assert(!is_ws(line.last()));
    lemma_trim_unchanged(line);
    // the first space ends the mode field
    assert forall|i: int| 0 <= i < dm.len() implies dm[i] != ' ' by {
        assert(is_digit(dm[i]));
    }
    lemma_index_of_absent(dm, ' ');
    lemma_index_of_concat(dm, seq![' '] + dv, ' ');
    assert(line =~= dm + (seq![' '] + dv));
    assert(index_of(seq![' '] + dv, ' ') == 0);
    assert(index_of(line, ' ') == dm.len());
    assert(line.take(dm.len() as int) =~= dm);
    assert(line.skip(dm.len() as int + 1) =~= dv);
    lemma_trim_unchanged(dm);
    assert(!is_ws(dv[0]));
    assert(!is_ws(dv.last()));
    lemma_trim_unchanged(dv);
    assert(mode_field(line) == dm);
    assert(value_field(line) == dv);
    assert(line[0] != '#');
    assert(parse_u16_spec(dm) == Some(m));
    let e: Seq<(u16, i32)> = Seq::empty();
    assert(e.push((m, v)) =~= seq![(m, v)]);
    assert(config_line(empty_config(), line) == Ok::<ConfigView, Seq<char>>((seq![(m, v)], None)));
    assert(split_on(line, '\n') == lines);
    assert(config_from(empty_config(), lines.drop_last()) == Ok::<ConfigView, Seq<char>>(empty_config()));
    assert(lines.last() == line);
}

/// The values written in decimal and joined by commas.
pub open spec fn join_values(vals: Seq<i32>) -> Seq<char>
    decreases vals.len(),
{
    if vals.len() <= 1 {
        if vals.len() == 1 { signed_decimal(vals[0] as int) } else { Seq::empty() }
    } else {
        join_values(vals.drop_last()) + seq![','] + signed_decimal(vals.last() as int)
    }
}

proof fn lemma_join_values(vals: Seq<i32>)
    requires
        vals.len() > 0,
    ensures
        split_on(join_values(vals), ',') == vals.map_values(|x: i32| signed_decimal(x as int)),
        parse_i32_list(split_on(join_values(vals), ',')) == Some(vals),
        join_values(vals).len() > 0,
        !is_ws(join_values(vals)[0]),
        !is_ws(join_values(vals).last()),
        forall|i: int| 0 <= i < join_values(vals).len() ==> #[trigger] join_values(vals)[i] != '\n'
            && join_values(vals)[i] != ' ',
    decreases vals.len(),
{
    let j = join_values(vals);
    let pieces = vals.map_values(|x: i32| signed_decimal(x as int));
    let last = signed_decimal(vals.last() as int);
    lemma_signed_decimal_parses(vals.last());
    lemma_trim_unchanged(last);
    if vals.len() == 1 {
        assert(j == last);
        assert forall|i: int| 0 <= i < last.len() implies last[i] != ',' by {}
        lemma_index_of_absent(last, ',');
        lemma_split_step(last, ',');
        assert(pieces =~= seq![last]);
        assert(pieces.drop_last() =~= Seq::<Seq<char>>::empty());
        assert(vals =~= Seq::<i32>::empty().push(vals[0]));
        assert(parse_i32_list(pieces.drop_last()) == Some(Seq::<i32>::empty()));
        assert(pieces.last() == last);
        assert(parse_i32_spec(trim(pieces.last())) == Some(vals.last()));
        assert(parse_i32_list(pieces) == Some(vals));
    } else {
        let pre = vals.drop_last();
        lemma_join_values(pre);
        let jp = join_values(pre);
        lemma_split_concat(jp, last, ',');
        assert forall|i: int| 0 <= i < last.len() implies last[i] != ',' by {}
        lemma_index_of_absent(last, ',');
        lemma_split_step(last, ',');
        assert(split_on(last, ',') == seq![last]);
        assert(pieces =~= pre.map_values(|x: i32| signed_decimal(x as int)) + seq![last]);
        assert(split_on(j, ',') == pieces);
        assert(pieces.drop_last() =~= pre.map_values(|x: i32| signed_decimal(x as int)));
        assert(pieces.last() == last);
        assert(vals =~= pre.push(vals.last()));
        assert(parse_i32_list(pieces.drop_last()) == Some(pre));
        assert(parse_i32_spec(trim(pieces.last())) == Some(vals.last()));
        assert(parse_i32_list(pieces) == Some(vals));
        assert(j[0] == jp[0]);
        assert(j.last() == last.last());
        assert forall|i: int| 0 <= i < j.len() implies #[trigger] j[i] != '\n' && j[i] != ' ' by {
            if i < jp.len() {
                assert(j[i] == jp[i]);
            } else if i > jp.len() {
                assert(j[i] == last[i - jp.len() - 1]);
            }
        }
    }
}

/// Law: a grip line `15 V1,V2,...` of 96 values written in decimal reads
/// back as exactly that grip array, with no pairs.
pub proof fn lemma_config_grip_roundtrip(vals: Seq<i32>)
    requires
        vals.len() == GRIP_LEN,
    ensures
        parse_config_spec(decimal(MODE_GRIP_LONG_ID as nat) + seq![' '] + join_values(vals))
            == Ok::<ConfigView, Seq<char>>((Seq::empty(), Some(vals))),
{
    let dm = decimal(MODE_GRIP_LONG_ID as nat);
    let dv = join_values(vals);
    let line = dm + seq![' '] + dv;
    lemma_decimal_parses(MODE_GRIP_LONG_ID as nat);
    lemma_join_values(vals);
    assert(is_digit(dm[0]));
    assert(is_digit(dm.last()));
    assert forall|i: int| 0 <= i < line.len() implies line[i] != '\n' by {
        if i < dm.len() {
            assert(is_digit(dm[i]));
        } else if i > dm.len() {
            assert(line[i] == dv[i - dm.len() - 1]);
        }
    }
    lemma_index_of_absent(line, '\n');
    lemma_split_step(line, '\n');
    let lines = seq![line];
    assert(lines.drop_last() =~= Seq::<Seq<char>>::empty());
    assert(line[0] == dm[0]);
    assert(line.last() == dv.last());
    lemma_trim_unchanged(line);
    assert forall|i: int| 0 <= i < dm.len() implies dm[i] != ' ' by {
        assert(is_digit(dm[i]));
    }
    lemma_index_of_absent(dm, ' ');
    lemma_index_of_concat(dm, seq![' '] + dv, ' ');
    assert(line =~= dm + (seq![' '] + dv));
    assert(index_of(seq![' '] + dv, ' ') == 0);
    assert(line.take(dm.len() as int) =~= dm);
    assert(line.skip(dm.len() as int + 1) =~= dv);
    lemma_trim_unchanged(dm);
    lemma_trim_unchanged(dv);
    assert(mode_field(line) == dm);
    assert(value_field(line) == dv);
    assert(line[0] != '#');
    assert(config_line(empty_config(), line) == Ok::<ConfigView, Seq<char>>((Seq::empty(), Some(vals))));
    assert(split_on(line, '\n') == lines);
    assert(config_from(empty_config(), lines.drop_last()) == Ok::<ConfigView, Seq<char>>(empty_config()));
    assert(lines.last() == line);
}

} // verus!
