use vstd::prelude::*;
use crate::protocol::TouchIoctlProtocol;
use crate::config::{GamemodeConfig, ConfigView, MODE_GAME_MODE_ID, MODE_GRIP_LONG_ID};

verus! {

/// One call that applying a configuration makes on the protocol.
#[derive(Debug, Clone)]
pub enum TouchAction {
    /// Reset a mode to its default.
    Reset { mode: u16 },
    /// Send an array of values to a mode (SET_LONG_VALUE).
    SetLong { mode: u16, values: Vec<i32> },
    /// Set the current value of a mode (SET_CUR_VALUE).
    SetValue { mode: u16, value: i32 },
}

/// A protocol call, as a mathematical value.
pub ghost enum ActionView {
    Reset(u16),
    SetLong(u16, Seq<i32>),
    SetValue(u16, i32),
}

impl View for TouchAction {
    type V = ActionView;

    open spec fn view(&self) -> ActionView {
        match self {
            TouchAction::Reset { mode } => ActionView::Reset(*mode),
            TouchAction::SetLong { mode, values } => ActionView::SetLong(*mode, values@),
            TouchAction::SetValue { mode, value } => ActionView::SetValue(*mode, *value),
        }
    }
}

/// The value of the first game-mode entry, if there is one.
pub open spec fn first_game_mode_value(modes: Seq<(u16, i32)>) -> Option<i32>
    decreases modes.len(),
{
    if modes.len() == 0 {
        None
    } else if modes[0].0 == MODE_GAME_MODE_ID {
        Some(modes[0].1)
    } else {
        first_game_mode_value(modes.drop_first())
    }
}

/// The calls that apply a configuration: only a reset of the game mode when
/// its first entry switches it off; otherwise the grip array first (the
/// driver needs it before game mode is enabled), then every pair in order.
pub open spec fn gamemode_plan(cfg: ConfigView) -> Seq<ActionView> {
    if first_game_mode_value(cfg.0) == Some(0i32) {
        seq![ActionView::Reset(MODE_GAME_MODE_ID)]
    } else {
        let grip = match cfg.1 {
            Some(g) => seq![ActionView::SetLong(MODE_GRIP_LONG_ID, g)],
            None => Seq::empty(),
        };
        grip + cfg.0.map_values(|p: (u16, i32)| ActionView::SetValue(p.0, p.1))
    }
}

/// The value of the first game-mode entry of `modes`, if there is one.
pub fn first_game_mode(modes: &Vec<(u16, i32)>) -> (r: Option<i32>)
    ensures
        r == first_game_mode_value(modes@),
{
    let mut i: usize = 0;
    assert(modes@.skip(0) =~= modes@);
    while i < modes.len()
        invariant
            i <= modes@.len(),
            first_game_mode_value(modes@) == first_game_mode_value(modes@.skip(i as int)),
        decreases modes@.len() - i,
    {
        let ghost rest = modes@.skip(i as int);
        assert(rest.drop_first() =~= modes@.skip(i + 1));
        if modes[i].0 == MODE_GAME_MODE_ID {
            return Some(modes[i].1);
        }
        i = i + 1;
    }
    assert(modes@.skip(i as int).len() == 0);
    None
}

fn copy_values(v: &Vec<i32>) -> (r: Vec<i32>)
    ensures
        r@ == v@,
{
    let mut r: Vec<i32> = Vec::new();
    let mut i: usize = 0;
    while i < v.len()
        invariant
            i <= v@.len(),
            r@ == v@.take(i as int),
        decreases v@.len() - i,
    {
        r.push(v[i]);
        i = i + 1;
        assert(r@ =~= v@.take(i as int));
    }
    assert(v@.take(i as int) =~= v@);
    r
}

/// The protocol calls that apply a parsed configuration, in order.
pub fn gamemode_actions(cfg: &GamemodeConfig) -> (r: Vec<TouchAction>)
    ensures
        r@.map_values(|a: TouchAction| a@) == gamemode_plan(cfg@),
{
    let mut out: Vec<TouchAction> = Vec::new();
    if first_game_mode(&cfg.modes) == Some(0i32) {
        out.push(TouchAction::Reset { mode: MODE_GAME_MODE_ID });
        assert(out@.map_values(|a: TouchAction| a@) =~= gamemode_plan(cfg@));
        return out;
    }
    match &cfg.grip {
        Some(g) => {
            out.push(TouchAction::SetLong { mode: MODE_GRIP_LONG_ID, values: copy_values(g) });
        },
        None => {},
    }
    let ghost head = out@.map_values(|a: TouchAction| a@);
    let ghost pairs = cfg.modes@.map_values(|p: (u16, i32)| ActionView::SetValue(p.0, p.1));
    assert(gamemode_plan(cfg@) == head + pairs);
    let g: usize = out.len();
    let mut i: usize = 0;
    while i < cfg.modes.len()
        invariant
            i <= cfg.modes@.len(),
            g <= 1,
            out@.len() == g + i,
            head.len() == g,
            pairs == cfg.modes@.map_values(|p: (u16, i32)| ActionView::SetValue(p.0, p.1)),
            out@.map_values(|a: TouchAction| a@) == head + pairs.take(i as int),
        decreases cfg.modes@.len() - i,
    {
        let (m, v) = cfg.modes[i];
        let ghost before = out@;
        out.push(TouchAction::SetValue { mode: m, value: v });
        proof {
            assert(out@ == before.push(TouchAction::SetValue { mode: m, value: v }));
            assert(out@.map_values(|a: TouchAction| a@) =~= before.map_values(|a: TouchAction| a@).push(
                ActionView::SetValue(m, v),
            ));
            assert(pairs[i as int] == ActionView::SetValue(m, v));
            assert(pairs.take(i + 1) =~= pairs.take(i as int).push(pairs[i as int]));
        }
        i = i + 1;
        assert(out@.map_values(|a: TouchAction| a@) =~= head + pairs.take(i as int));
    }
    assert(pairs.take(i as int) =~= pairs);
    out
}

/// Whether `r` is what `protocol` gives for the call that performs
/// `action` on the device `fd`, panel `touch_id`: `reset` or `set` with
/// the action's mode and value, or `set_long` with its mode and a slice
/// holding its values.
pub open spec fn performed<P: TouchIoctlProtocol>(
    protocol: &P,
    fd: i32,
    touch_id: u32,
    action: ActionView,
    r: Result<(), String>,
) -> bool {
    match action {
        ActionView::Reset(m) => protocol.reset_post(fd, touch_id, m, r),
        ActionView::SetLong(m, v) => forall|s: &[i32]| s@ == v ==> #[trigger] protocol.set_long_post(fd, touch_id, m, s, r),
        ActionView::SetValue(m, v) => protocol.set_post(fd, touch_id, m, v, r),
    }
}

/// Makes the call of one planned action on the device `fd`: `reset`,
/// `set_long` or `set` with the action's mode and values.
pub fn apply_action<P: TouchIoctlProtocol>(protocol: &P, fd: i32, touch_id: u32, action: &TouchAction) -> (r: Result<
    (),
    String,
>)
    ensures
        performed(protocol, fd, touch_id, action@, r),
{
    match action {
        TouchAction::Reset { mode } => protocol.reset(fd, touch_id, *mode),
        TouchAction::SetLong { mode, values } => {
            let s = values.as_slice();
            let r = protocol.set_long(fd, touch_id, *mode, s);
            assert(action@ == ActionView::SetLong(*mode, s@));
            assert forall|t: &[i32]| t@ == s@ implies #[trigger] protocol.set_long_post(fd, touch_id, *mode, t, r) by {
                assert(t =~= s);
            }
            r
        },
        TouchAction::SetValue { mode, value } => protocol.set(fd, touch_id, *mode, *value),
    }
}

/// Applies a parsed configuration to the device `fd` through `protocol`:
/// makes every planned call in order, whatever the earlier calls returned,
/// and gives back the plan with the outcome of each call.
pub fn apply_gamemode_config<P: TouchIoctlProtocol>(
    protocol: &P,
    fd: i32,
    touch_id: u32,
    cfg: &GamemodeConfig,
) -> (r: (Vec<TouchAction>, Vec<Result<(), String>>))
    ensures
        r.0@.map_values(|a: TouchAction| a@) == gamemode_plan(cfg@),
        r.1@.len() == r.0@.len(),
        forall|i: int| 0 <= i < r.0@.len() ==> performed(protocol, fd, touch_id, #[trigger] r.0@[i]@, r.1@[i]),
{
    let actions = gamemode_actions(cfg);
    let mut outcomes: Vec<Result<(), String>> = Vec::new();
    let mut i: usize = 0;
    while i < actions.len()
        invariant
            i <= actions@.len(),
            outcomes@.len() == i,
            forall|j: int| 0 <= j < i ==> performed(protocol, fd, touch_id, #[trigger] actions@[j]@, outcomes@[j]),
        decreases actions@.len() - i,
    {
        let outcome = apply_action(protocol, fd, touch_id, &actions[i]);
        outcomes.push(outcome);
        i = i + 1;
    }
    (actions, outcomes)
}

/// Law: a configuration whose first game-mode entry switches it off only
/// resets the game mode; otherwise the grip array, if any, is sent before
/// every value, and the values are sent in the order of the file.
pub proof fn lemma_plan_order(cfg: ConfigView)
    ensures
        first_game_mode_value(cfg.0) == Some(0i32) ==> gamemode_plan(cfg) == seq![ActionView::Reset(MODE_GAME_MODE_ID)],
        first_game_mode_value(cfg.0) != Some(0i32) ==> {
            let plan = gamemode_plan(cfg);
            let g: int = if cfg.1 is Some { 1 } else { 0 };
            &&& plan.len() == g + cfg.0.len()
            &&& forall|i: int, j: int| 0 <= i < plan.len() && 0 <= j < plan.len()
                && plan[i] is SetLong && plan[j] is SetValue ==> i < j
            &&& forall|k: int| 0 <= k < cfg.0.len() ==> plan[g + k] == ActionView::SetValue(cfg.0[k].0, cfg.0[k].1)
        },
{
    if first_game_mode_value(cfg.0) != Some(0i32) {
        let plan = gamemode_plan(cfg);
        let g: int = if cfg.1 is Some { 1 } else { 0 };
        let grip = match cfg.1 {
            Some(v) => seq![ActionView::SetLong(MODE_GRIP_LONG_ID, v)],
            None => Seq::<ActionView>::empty(),
        };
        let pairs = cfg.0.map_values(|p: (u16, i32)| ActionView::SetValue(p.0, p.1));
        assert(plan == grip + pairs);
        assert forall|i: int, j: int| 0 <= i < plan.len() && 0 <= j < plan.len()
            && plan[i] is SetLong && plan[j] is SetValue implies i < j by {
            if i >= g {
                assert(plan[i] == pairs[i - g]);
            }
            if j < g {
                assert(plan[j] == grip[j]);
            }
        }
        assert forall|k: int| 0 <= k < cfg.0.len() implies plan[g + k] == ActionView::SetValue(cfg.0[k].0, cfg.0[k].1) by {
            assert(plan[g + k] == pairs[k]);
        }
    }
}

} // verus!
