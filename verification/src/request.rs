use vstd::prelude::*;
use crate::ioctl::{Cmd, req1024_spec};
use crate::wire::{
    word_at, clamp, lemma_word_buffer_readback, lemma_v3_readback, lemma_u16_roundtrip,
    word_buffer, v1_words, v2_words, v3_buffer, set_long_words, v1_request_buffer,
    v2_request_buffer, v3_common_buffer, set_long_extra,
};

verus! {

/// The buffer layouts that the programs use to talk to the driver.
#[derive(Debug, Clone, Copy, PartialEq, Eq, Structural)]
pub enum Layout {
    /// `[mode | values...]` in 1024 bytes, results from offset 0.
    V1,
    /// `[touch_id | mode | values...]` in 1024 bytes, results from offset 0.
    V2,
    /// `[touch_id | mode | values...]` in 1024 bytes with one value slot
    /// fewer, results from offset 8 (the gamemode daemon's variant).
    V2Daemon,
    /// `SELECT_TOUCH_ID`, then the 520-byte common-data structure, results
    /// from offset 8.
    V3,
}

/// One request to the driver, ready to send.
pub enum Request {
    /// A single ioctl `req` on a 1024-byte buffer.
    Words { req: u64, buf: [u8; 1024] },
    /// `SELECT_TOUCH_ID touch_id`, then `COMMON_DATA` on a 520-byte buffer.
    Common { touch_id: u32, data: [u8; 520] },
}

/// `Request` as a mathematical value.
pub ghost enum RequestView {
    Words(u64, Seq<u8>),
    Common(u32, Seq<u8>),
}

impl View for Request {
    type V = RequestView;

    open spec fn view(&self) -> RequestView {
        match self {
            Request::Words { req, buf } => RequestView::Words(*req, buf@),
            Request::Common { touch_id, data } => RequestView::Common(*touch_id, data@),
        }
    }
}

/// How many extra words a 1024-byte request of the layout carries.
pub open spec fn extra_cap(layout: Layout) -> int {
    match layout {
        Layout::V1 => 255,
        Layout::V2 => 254,
        _ => 253,
    }
}

/// How many values a SET_LONG request of the layout carries (one word goes
/// to the count).
pub open spec fn long_cap(layout: Layout) -> int {
    extra_cap(layout) - 1
}

/// The words sent after the mode for command `cmd`: `values` for SET_CUR
/// (the one value) and, in V3, for SET_LONG; the count and at most
/// `long_cap` values for SET_LONG in the 1024-byte layouts; nothing for the
/// other commands, except one zero word in V3.
pub open spec fn payload(layout: Layout, cmd: Cmd, values: Seq<i32>) -> Seq<i32> {
    match cmd {
        Cmd::SetCurValue => values,
        Cmd::SetLongValue => if layout == Layout::V3 {
            values
        } else {
            set_long_words(values, long_cap(layout))
        },
        _ => if layout == Layout::V3 {
            seq![0i32]
        } else {
            Seq::empty()
        },
    }
}

/// The request for command `cmd` on `mode` of panel `touch_id`.
pub open spec fn request_spec(layout: Layout, touch_id: u32, cmd: Cmd, mode: u16, values: Seq<i32>) -> RequestView {
    let p = payload(layout, cmd, values);
    match layout {
        Layout::V1 => RequestView::Words(req1024_spec(cmd.code()), word_buffer(v1_words(mode, p), 1024)),
        Layout::V3 => RequestView::Common(touch_id, v3_buffer(touch_id as u8, cmd.code(), mode, p)),
        _ => RequestView::Words(
            req1024_spec(cmd.code()),
            word_buffer(v2_words(touch_id as i32, mode, p, extra_cap(layout)), 1024),
        ),
    }
}

/// Where the result words start in the buffer the driver hands back.
pub open spec fn result_offset_spec(layout: Layout) -> int {
    match layout {
        Layout::V1 | Layout::V2 => 0,
        _ => 8,
    }
}

/// Builds the request for command `cmd` on `mode` of panel `touch_id`;
/// `values` is the value to set (SET_CUR) or the array (SET_LONG), and is
/// not read for the other commands.
pub fn build_request(layout: Layout, touch_id: u32, cmd: Cmd, mode: u16, values: &[i32]) -> (r: Request)
    ensures
        r@ == request_spec(layout, touch_id, cmd, mode, values@),
{
    let zero: [i32; 1] = [0];
    let empty: [i32; 0] = [];
    let long_extra: Vec<i32>;
    let p: &[i32] = match cmd {
        Cmd::SetCurValue => values,
        Cmd::SetLongValue => {
            match layout {
                Layout::V3 => values,
                Layout::V1 => {
                    long_extra = set_long_extra(values, 254);
                    long_extra.as_slice()
                },
                Layout::V2 => {
                    long_extra = set_long_extra(values, 253);
                    long_extra.as_slice()
                },
                Layout::V2Daemon => {
                    long_extra = set_long_extra(values, 252);
                    long_extra.as_slice()
                },
            }
        },
        _ => {
            match layout {
                Layout::V3 => zero.as_slice(),
                _ => empty.as_slice(),
            }
        },
    };
    assert(p@ == payload(layout, cmd, values@)) by {
        assert(empty@ =~= Seq::<i32>::empty());
        assert(zero@ =~= seq![0i32]);
    }
    match layout {
        Layout::V1 => Request::Words { req: cmd.req(), buf: v1_request_buffer(mode, p) },
        Layout::V2 => Request::Words { req: cmd.req(), buf: v2_request_buffer(touch_id as i32, mode, p, 254) },
        Layout::V2Daemon => Request::Words {
            req: cmd.req(),
            buf: v2_request_buffer(touch_id as i32, mode, p, 253),
        },
        Layout::V3 => Request::Common { touch_id, data: v3_common_buffer(touch_id as u8, cmd, mode, p) },
    }
}

/// Where the result words start in the buffer the driver hands back.
pub fn result_offset(layout: Layout) -> (r: usize)
    ensures
        r == result_offset_spec(layout),
{
    match layout {
        Layout::V1 | Layout::V2 => 0,
        _ => 8,
    }
}

/// Law: a request carries what it is about: the panel (where the layout
/// has one), the mode, and, for SET_CUR, the value, each readable back from
/// its place in the buffer.
pub proof fn lemma_request_readback(layout: Layout, touch_id: u32, cmd: Cmd, mode: u16, value: i32)
    requires
        cmd == Cmd::SetCurValue,
    ensures
        match request_spec(layout, touch_id, cmd, mode, seq![value]) {
            RequestView::Words(req, buf) => {
                &&& req == req1024_spec(cmd.code())
                &&& layout == Layout::V1 ==> word_at(buf, 0) == mode as i32 && word_at(buf, 4) == value
                &&& layout != Layout::V1 ==> word_at(buf, 0) == touch_id as i32 && word_at(buf, 4) == mode as i32
                    && word_at(buf, 8) == value
            },
            RequestView::Common(t, buf) => {
                &&& t == touch_id
                &&& buf[0] == touch_id as u8
                &&& buf[1] as u64 == cmd.code()
                &&& ((buf[2] as u16) | ((buf[3] as u16) << 8u16)) == mode
                &&& word_at(buf, 8) == value
            },
        },
{
    let p = seq![value];
    assert(payload(layout, cmd, p) == p);
    assert(p.take(clamp(1, 255)) =~= p);
    assert(p.take(clamp(1, 254)) =~= p);
    assert(p.take(clamp(1, 253)) =~= p);
    match layout {
        Layout::V1 => {
            let w = v1_words(mode, p);
            assert(w =~= seq![mode as i32, value]);
            lemma_word_buffer_readback(w, 1024, 0);
            lemma_word_buffer_readback(w, 1024, 1);
        },
        Layout::V3 => {
            lemma_v3_readback(touch_id as u8, cmd, mode, p, 0);
        },
        _ => {
            let w = v2_words(touch_id as i32, mode, p, extra_cap(layout));
            assert(w =~= seq![touch_id as i32, mode as i32, value]);
            lemma_word_buffer_readback(w, 1024, 0);
            lemma_word_buffer_readback(w, 1024, 1);
            lemma_word_buffer_readback(w, 1024, 2);
        },
    }
}

/// Law: the 1024-byte layouts (V1 and both V2 variants) use the same
/// request code for a command; only the buffer differs.
pub proof fn lemma_word_layouts_share_codes(
    l1: Layout,
    l2: Layout,
    t1: u32,
    t2: u32,
    cmd: Cmd,
    mode: u16,
    values: Seq<i32>,
)
    requires
        l1 != Layout::V3,
        l2 != Layout::V3,
    ensures
        request_spec(l1, t1, cmd, mode, values) matches RequestView::Words(r1, _)
            && request_spec(l2, t2, cmd, mode, values) matches RequestView::Words(r2, _)
            && r1 == r2,
{
}

/// Law: a SET_LONG request in a 1024-byte layout carries, after the header
/// words, the number of values sent (at most `long_cap`) and then those
/// values, each readable back from its slot.
pub proof fn lemma_set_long_readback(layout: Layout, touch_id: u32, mode: u16, values: Seq<i32>, k: int)
    requires
        layout != Layout::V3,
        0 <= k < clamp(values.len() as int, long_cap(layout)),
    ensures
        ({
            let h: int = if layout == Layout::V1 { 1 } else { 2 };
            let count = clamp(values.len() as int, long_cap(layout));
            request_spec(layout, touch_id, Cmd::SetLongValue, mode, values) matches RequestView::Words(_, buf)
                && word_at(buf, 4 * h) == count as i32
                && word_at(buf, 4 * (h + 1 + k)) == values[k]
        }),
{
    let count = clamp(values.len() as int, long_cap(layout));
    let p = set_long_words(values, long_cap(layout));
    assert(p.len() == count + 1);
    let h: int = if layout == Layout::V1 { 1 } else { 2 };
    let w = if layout == Layout::V1 {
        v1_words(mode, p)
    } else {
        v2_words(touch_id as i32, mode, p, extra_cap(layout))
    };
    assert(p.take(clamp(p.len() as int, extra_cap(layout))) =~= p);
    assert(w[h] == count as i32);
    assert(w[h + 1 + k] == values[k]);
    lemma_word_buffer_readback(w, 1024, h);
    lemma_word_buffer_readback(w, 1024, h + 1 + k);
}

/// Law: a V3 SET_LONG request carries the values themselves, with no
/// count word before them: its header names the panel, the command and the
/// mode and counts the values sent (at most 128), and value `k` is readable
/// back from byte `8 + 4k`.
pub proof fn lemma_v3_set_long_readback(touch_id: u32, mode: u16, values: Seq<i32>, k: int)
    ensures
        request_spec(Layout::V3, touch_id, Cmd::SetLongValue, mode, values) matches RequestView::Common(t, buf)
            && t == touch_id
            && buf.len() == 520
            && buf[0] == touch_id as u8
            && buf[1] as u64 == Cmd::SetLongValue.code()
            && ((buf[2] as u16) | ((buf[3] as u16) << 8u16)) == mode
            && ((buf[4] as u16) | ((buf[5] as u16) << 8u16)) as int == clamp(values.len() as int, 128)
            && (0 <= k < clamp(values.len() as int, 128) ==> word_at(buf, 8 + 4 * k) == values[k]),
{
    assert(payload(Layout::V3, Cmd::SetLongValue, values) == values);
    if 0 <= k < clamp(values.len() as int, 128) {
        lemma_v3_readback(touch_id as u8, Cmd::SetLongValue, mode, values, k);
    } else if values.len() > 0 {
        lemma_v3_readback(touch_id as u8, Cmd::SetLongValue, mode, values, 0);
    } else {
        lemma_u16_roundtrip(mode);
        lemma_u16_roundtrip(0u16);
    }
}

/// Law: a request for any other command (a read or a reset) carries no
/// value: in the 1024-byte layouts the slot after the header words is
/// zero, and V3 counts one value, a zero.
pub proof fn lemma_query_request(layout: Layout, touch_id: u32, cmd: Cmd, mode: u16, values: Seq<i32>)
    requires
        cmd != Cmd::SetCurValue,
        cmd != Cmd::SetLongValue,
    ensures
        match request_spec(layout, touch_id, cmd, mode, values) {
            RequestView::Words(req, buf) => {
                let h: int = if layout == Layout::V1 { 1 } else { 2 };
                &&& req == req1024_spec(cmd.code())
                &&& word_at(buf, 4 * h) == 0
            },
            RequestView::Common(t, buf) => {
                &&& t == touch_id
                &&& ((buf[4] as u16) | ((buf[5] as u16) << 8u16)) == 1
                &&& word_at(buf, 8) == 0
            },
        },
{
    let p = payload(layout, cmd, values);
    match layout {
        Layout::V1 => {
            let w = v1_words(mode, p);
            assert(p =~= Seq::<i32>::empty());
            assert(w =~= seq![mode as i32]);
            lemma_word_buffer_readback(w, 1024, 1);
        },
        Layout::V3 => {
            assert(p =~= seq![0i32]);
            lemma_v3_readback(touch_id as u8, cmd, mode, p, 0);
        },
        _ => {
            let w = v2_words(touch_id as i32, mode, p, extra_cap(layout));
            assert(p =~= Seq::<i32>::empty());
            assert(w =~= seq![touch_id as i32, mode as i32]);
            lemma_word_buffer_readback(w, 1024, 2);
        },
    }
}

} // verus!
