use vstd::prelude::*;
use crate::ioctl::Cmd;

verus! {

/// Byte `j` (0 = least significant) of the little-endian encoding of `v`.
pub open spec fn le_byte(v: i32, j: int) -> u8 {
    if j == 0 {
        (v as u32) as u8
    } else if j == 1 {
        ((v as u32) >> 8u32) as u8
    } else if j == 2 {
        ((v as u32) >> 16u32) as u8
    } else {
        ((v as u32) >> 24u32) as u8
    }
}

/// The `i32` whose little-endian bytes are `b0 b1 b2 b3`.
pub open spec fn i32_from_le(b0: u8, b1: u8, b2: u8, b3: u8) -> i32 {
    ((b0 as u32) | ((b1 as u32) << 8u32) | ((b2 as u32) << 16u32) | ((b3 as u32) << 24u32)) as i32
}

/// The little-endian `i32` stored in `b` at byte offset `o`.
pub open spec fn word_at(b: Seq<u8>, o: int) -> i32 {
    i32_from_le(b[o], b[o + 1], b[o + 2], b[o + 3])
}

/// Byte `k` of a buffer that holds `words` as consecutive little-endian
/// `i32`s from offset 0 and zeros after them.
pub open spec fn word_byte(words: Seq<i32>, k: int) -> u8 {
    if k / 4 < words.len() {
        le_byte(words[k / 4], k % 4)
    } else {
        0
    }
}

/// An `n`-byte buffer holding `words` from offset 0, zero-filled after them.
pub open spec fn word_buffer(words: Seq<i32>, n: nat) -> Seq<u8> {
    Seq::new(n, |k: int| word_byte(words, k))
}

/// `min(n, cap)`
pub open spec fn clamp(n: int, cap: int) -> int {
    if n < cap { n } else { cap }
}

/// The words of a V1 request: the mode, then at most 255 extra values.
pub open spec fn v1_words(mode: u16, extra: Seq<i32>) -> Seq<i32> {
    seq![mode as i32] + extra.take(clamp(extra.len() as int, 255))
}

/// The words of a V2 request: the panel, the mode, then at most `cap` extra values.
pub open spec fn v2_words(touch_id: i32, mode: u16, extra: Seq<i32>, cap: int) -> Seq<i32> {
    seq![touch_id, mode as i32] + extra.take(clamp(extra.len() as int, cap))
}

/// The 8-byte header of the V3 common-data structure: panel, command,
/// mode (u16 LE), value count (u16 LE), two zero bytes.
pub open spec fn v3_header(touch_id: u8, nr: u64, mode: u16, count: u16) -> Seq<u8> {
    seq![touch_id, nr as u8, mode as u8, (mode >> 8u16) as u8, count as u8, (count >> 8u16) as u8, 0u8, 0u8]
}

/// The V3 common-data structure: the header, then at most 128 values as
/// little-endian `i32`s, zero-filled to 520 bytes.
pub open spec fn v3_buffer(touch_id: u8, nr: u64, mode: u16, values: Seq<i32>) -> Seq<u8> {
    let count = clamp(values.len() as int, 128);
    v3_header(touch_id, nr, mode, count as u16) + word_buffer(values.take(count), 512)
}

/// The extra words of a SET_LONG request: the count, then that many values.
pub open spec fn set_long_words(values: Seq<i32>, cap: int) -> Seq<i32> {
    let count = clamp(values.len() as int, cap);
    seq![count as i32] + values.take(count)
}

/// Writes `v` as a little-endian `u16` at offset `o`.
pub fn pu16(b: &mut [u8], o: usize, v: u16)
    requires
        o + 2 <= old(b)@.len(),
    ensures
        final(b)@ == old(b)@.update(o as int, v as u8).update(o + 1, (v >> 8u16) as u8),
{
    b[o] = v as u8;
    b[o + 1] = (v >> 8) as u8;
}

/// Writes `v` as a little-endian `i32` at offset `o`.
pub fn pi32(b: &mut [u8], o: usize, v: i32)
    requires
        o + 4 <= old(b)@.len(),
    ensures
        final(b)@ == old(b)@.update(o as int, le_byte(v, 0)).update(o + 1, le_byte(v, 1)).update(
            o + 2,
            le_byte(v, 2),
        ).update(o + 3, le_byte(v, 3)),
{
    let u: u32 = v as u32;
    b[o] = u as u8;
    b[o + 1] = (u >> 8) as u8;
    b[o + 2] = (u >> 16) as u8;
    b[o + 3] = (u >> 24) as u8;
}

/// Reads the little-endian `i32` at offset `o`.
pub fn gi32(b: &[u8], o: usize) -> (r: i32)
    requires
        o + 4 <= b@.len(),
    ensures
        r == word_at(b@, o as int),
{
    let b0: u32 = b[o] as u32;
    let b1: u32 = b[o + 1] as u32;
    let b2: u32 = b[o + 2] as u32;
    let b3: u32 = b[o + 3] as u32;
    (b0 | (b1 << 8) | (b2 << 16) | (b3 << 24)) as i32
}

/// Law: decoding the four little-endian bytes of `v` gives back `v`.
pub proof fn lemma_le_roundtrip(v: i32)
    ensures
        i32_from_le(le_byte(v, 0), le_byte(v, 1), le_byte(v, 2), le_byte(v, 3)) == v,
{
    let x = v as u32;
    assert(((((x as u8) as u32) | ((((x >> 8u32) as u8) as u32) << 8u32) | ((((x >> 16u32) as u8)
        as u32) << 16u32) | ((((x >> 24u32) as u8) as u32) << 24u32)) as i32) == v) by (bit_vector)
        requires
            x == v as u32,
    ;
}

/// Law: what `pi32` writes at an offset, `gi32` reads back from it, and
/// the bytes outside the four written ones are unchanged.
pub proof fn lemma_pi32_gi32(b: Seq<u8>, o: int, v: i32)
    requires
        0 <= o,
        o + 4 <= b.len(),
    ensures
        ({
            let w = b.update(o, le_byte(v, 0)).update(o + 1, le_byte(v, 1)).update(o + 2, le_byte(v, 2)).update(
                o + 3,
                le_byte(v, 3),
            );
            &&& word_at(w, o) == v
            &&& w.len() == b.len()
            &&& forall|k: int| 0 <= k < b.len() && !(o <= k < o + 4) ==> w[k] == b[k]
        }),
{
    lemma_le_roundtrip(v);
}

/// Law: `pu16` stores the two little-endian bytes of its value, from which
/// the value is recovered.
pub proof fn lemma_u16_roundtrip(v: u16)
    ensures
        ((v as u8) as u16) | ((((v >> 8u16) as u8) as u16) << 8u16) == v,
{
    assert(((v as u8) as u16) | ((((v >> 8u16) as u8) as u16) << 8u16) == v) by (bit_vector);
}

/// Law: every word of a word buffer reads back as the word placed there,
/// and every slot past the words reads as zero.
pub proof fn lemma_word_buffer_readback(words: Seq<i32>, n: nat, i: int)
    requires
        0 <= i,
        4 * i + 4 <= n,
    ensures
        word_at(word_buffer(words, n), 4 * i) == if i < words.len() { words[i] } else { 0i32 },
{
    let b = word_buffer(words, n);
    assert((4 * i) / 4 == i && (4 * i) % 4 == 0);
    assert((4 * i + 1) / 4 == i && (4 * i + 1) % 4 == 1);
    assert((4 * i + 2) / 4 == i && (4 * i + 2) % 4 == 2);
    assert((4 * i + 3) / 4 == i && (4 * i + 3) % 4 == 3);
    if i < words.len() {
        lemma_le_roundtrip(words[i]);
    } else {
        assert(i32_from_le(0, 0, 0, 0) == 0i32) by (bit_vector);
    }
}

proof fn lemma_word_buffer_push(words: Seq<i32>, x: i32, n: nat)
    requires
        4 * words.len() + 4 <= n,
    ensures
        ({
            let l = words.len() as int;
            word_buffer(words.push(x), n) == word_buffer(words, n).update(4 * l, le_byte(x, 0)).update(
                4 * l + 1,
                le_byte(x, 1),
            ).update(4 * l + 2, le_byte(x, 2)).update(4 * l + 3, le_byte(x, 3))
        }),
{
    let l = words.len() as int;
    let a = word_buffer(words.push(x), n);
    let b = word_buffer(words, n).update(4 * l, le_byte(x, 0)).update(4 * l + 1, le_byte(x, 1)).update(
        4 * l + 2,
        le_byte(x, 2),
    ).update(4 * l + 3, le_byte(x, 3));
    assert forall|k: int| 0 <= k < n implies a[k] == b[k] by {
        if 4 * l <= k < 4 * l + 4 {
            assert(k / 4 == l);
            assert(k % 4 == k - 4 * l);
        } else if k < 4 * l {
            assert(k / 4 < l);
        } else {
            assert(k / 4 > l);
        }
    }
    assert(a =~= b);
}

/// Builds the 1024-byte V1 request buffer: `[mode | extra...]`, at most 255
/// extra values, zero-filled.
pub fn v1_request_buffer(mode: u16, extra: &[i32]) -> (buf: [u8; 1024])
    ensures
        buf@ == word_buffer(v1_words(mode, extra@), 1024),
{
    let mut buf = [0u8; 1024];
    proof {
        lemma_word_buffer_push(Seq::empty(), mode as i32, 1024);
        assert(buf@ =~= word_buffer(Seq::empty(), 1024));
    }
    pi32(&mut buf, 0, mode as i32);
    let n: usize = if extra.len() < 255 { extra.len() } else { 255 };
    let mut i: usize = 0;
    assert(seq![mode as i32] =~= Seq::<i32>::empty().push(mode as i32));
    while i < n
        invariant
            n == clamp(extra@.len() as int, 255),
            i <= n,
            buf@ == word_buffer(seq![mode as i32] + extra@.take(i as int), 1024),
        decreases n - i,
    {
        let ghost words = seq![mode as i32] + extra@.take(i as int);
        proof {
            lemma_word_buffer_push(words, extra@[i as int], 1024);
            assert(words.push(extra@[i as int]) =~= seq![mode as i32] + extra@.take(i + 1));
        }
        pi32(&mut buf, 4 + i * 4, extra[i]);
        i = i + 1;
    }
    buf
}

/// Builds the 1024-byte V2 request buffer: `[touch_id | mode | extra...]`,
/// at most `cap` extra values, zero-filled.
pub fn v2_request_buffer(touch_id: i32, mode: u16, extra: &[i32], cap: usize) -> (buf: [u8; 1024])
    requires
        cap <= 254,
    ensures
        buf@ == word_buffer(v2_words(touch_id, mode, extra@, cap as int), 1024),
{
    let mut buf = [0u8; 1024];
    proof {
        lemma_word_buffer_push(Seq::empty(), touch_id, 1024);
        assert(buf@ =~= word_buffer(Seq::empty(), 1024));
        assert(Seq::<i32>::empty().push(touch_id) =~= seq![touch_id]);
        lemma_word_buffer_push(seq![touch_id], mode as i32, 1024);
        assert(seq![touch_id].push(mode as i32) =~= seq![touch_id, mode as i32]);
    }
    pi32(&mut buf, 0, touch_id);
    pi32(&mut buf, 4, mode as i32);
    let n: usize = if extra.len() < cap { extra.len() } else { cap };
    let mut i: usize = 0;
    assert(seq![touch_id, mode as i32] =~= seq![touch_id, mode as i32] + extra@.take(0));
    while i < n
        invariant
            n == clamp(extra@.len() as int, cap as int),
            cap <= 254,
            i <= n,
            buf@ == word_buffer(seq![touch_id, mode as i32] + extra@.take(i as int), 1024),
        decreases n - i,
    {
        let ghost words = seq![touch_id, mode as i32] + extra@.take(i as int);
        proof {
            lemma_word_buffer_push(words, extra@[i as int], 1024);
            assert(words.push(extra@[i as int]) =~= seq![touch_id, mode as i32] + extra@.take(i + 1));
        }
        pi32(&mut buf, 8 + i * 4, extra[i]);
        i = i + 1;
    }
    buf
}

/// Builds the 520-byte V3 common-data structure: panel, command number,
/// mode and value count in the 8-byte header, then at most 128 values.
pub fn v3_common_buffer(touch_id: u8, cmd: Cmd, mode: u16, values: &[i32]) -> (buf: [u8; 520])
    ensures
        buf@ == v3_buffer(touch_id, cmd.code(), mode, values@),
{
    let mut buf = [0u8; 520];
    let n: usize = if values.len() < 128 { values.len() } else { 128 };
    buf[0] = touch_id;
    buf[1] = cmd.nr() as u8;
    pu16(&mut buf, 2, mode);
    pu16(&mut buf, 4, n as u16);
    let ghost header = v3_header(touch_id, cmd.code(), mode, n as u16);
    proof {
        assert(buf@ =~= header + word_buffer(values@.take(0), 512));
    }
    let mut i: usize = 0;
    while i < n
        invariant
            n == clamp(values@.len() as int, 128),
            i <= n,
            header == v3_header(touch_id, cmd.code(), mode, n as u16),
            buf@ == header + word_buffer(values@.take(i as int), 512),
        decreases n - i,
    {
        let ghost words = values@.take(i as int);
        let ghost w0 = word_buffer(words, 512);
        proof {
            lemma_word_buffer_push(words, values@[i as int], 512);
            assert(words.push(values@[i as int]) =~= values@.take(i + 1));
        }
        pi32(&mut buf, 8 + i * 4, values[i]);
        proof {
            let x = values@[i as int];
            let o = 4 * i as int;
            assert(buf@ =~= header + w0.update(o, le_byte(x, 0)).update(o + 1, le_byte(x, 1)).update(
                o + 2,
                le_byte(x, 2),
            ).update(o + 3, le_byte(x, 3)));
        }
        i = i + 1;
    }
    buf
}

/// Law: the V3 header fields read back as the panel, the command number,
/// the mode and the clamped value count, and each sent value reads back from
/// its slot.
pub proof fn lemma_v3_readback(touch_id: u8, cmd: Cmd, mode: u16, values: Seq<i32>, i: int)
    requires
        0 <= i < clamp(values.len() as int, 128),
    ensures
        ({
            let b = v3_buffer(touch_id, cmd.code(), mode, values);
            &&& b.len() == 520
            &&& b[0] == touch_id
            &&& b[1] as u64 == cmd.code()
            &&& ((b[2] as u16) | ((b[3] as u16) << 8u16)) == mode
            &&& ((b[4] as u16) | ((b[5] as u16) << 8u16)) as int == clamp(values.len() as int, 128)
            &&& word_at(b, 8 + 4 * i) == values[i]
        }),
{
    let count = clamp(values.len() as int, 128);
    let b = v3_buffer(touch_id, cmd.code(), mode, values);
    let w = word_buffer(values.take(count), 512);
    lemma_u16_roundtrip(mode);
    lemma_u16_roundtrip(count as u16);
    lemma_word_buffer_readback(values.take(count), 512, i);
    assert(b[8 + 4 * i] == w[4 * i]);
    assert(b[8 + 4 * i + 1] == w[4 * i + 1]);
    assert(b[8 + 4 * i + 2] == w[4 * i + 2]);
    assert(b[8 + 4 * i + 3] == w[4 * i + 3]);
}

/// Reads the six little-endian words from offset `base`: current, default,
/// minimum, maximum and two extra values of a mode.
pub fn mode_all_at(buf: &[u8], base: usize) -> (out: [i32; 6])
    requires
        base + 24 <= buf@.len(),
    ensures
        forall|i: int| 0 <= i < 6 ==> #[trigger] out@[i] == word_at(buf@, base + 4 * i),
{
    let mut out = [0i32; 6];
    let mut i: usize = 0;
    while i < 6
        invariant
            i <= 6,
            base + 24 <= buf.len(),
            out@.len() == 6,
            forall|j: int| 0 <= j < i ==> #[trigger] out@[j] == word_at(buf@, base + 4 * j),
        decreases 6 - i,
    {
        out[i] = gi32(buf, base + i * 4);
        i = i + 1;
    }
    out
}

/// The extra words of a SET_LONG request: `min(values.len(), cap)`, then
/// that many leading values.
pub fn set_long_extra(values: &[i32], cap: usize) -> (extra: Vec<i32>)
    requires
        cap <= i32::MAX,
    ensures
        extra@ == set_long_words(values@, cap as int),
{
    let count: usize = if values.len() < cap { values.len() } else { cap };
    let mut extra: Vec<i32> = Vec::new();
    extra.push(count as i32);
    let mut i: usize = 0;
    while i < count
        invariant
            count == clamp(values@.len() as int, cap as int),
            count <= i32::MAX,
            i <= count,
            extra@ == seq![count as i32] + values@.take(i as int),
        decreases count - i,
    {
        extra.push(values[i]);
        i = i + 1;
        assert(extra@ =~= seq![count as i32] + values@.take(i as int));
    }
    assert(values@.take(count as int) == values@.take(i as int));
    extra
}

} // verus!
