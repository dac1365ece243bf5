use vstd::prelude::*;
use crate::color_order::{permute_rgb, permuted, ColorOrder, RGB8};
use crate::concat::{
    concat_map, lemma_concat_map_all, lemma_concat_map_len, lemma_concat_map_take,
};

verus! {

/// `k` zero bytes.
pub open spec fn zeros(k: nat) -> Seq<u8> {
    Seq::new(k, |i: int| 0u8)
}

/// Size of the all-zero start frame of the clocked protocols.
pub const START_FRAME_LEN: usize = 4;

/// The four bytes that one colour sends in the brightness-framed protocol: the
/// brightness byte at maximum, then the permuted channels last to first.
pub open spec fn apa102_led(c: RGB8, o: ColorOrder) -> Seq<u8> {
    let p = permuted(c, o);
    seq![0xFFu8, p[2], p[1], p[0]]
}

/// The LED frames of the brightness-framed protocol for `colors`, one after another.
pub open spec fn apa102_leds(colors: Seq<RGB8>, o: ColorOrder) -> Seq<u8> {
    concat_map(colors, |c: RGB8| apa102_led(c, o))
}

/// Length of the end frame of the brightness-framed protocol for `n` LEDs: `ceil(n / 16)`.
pub open spec fn apa102_end_len(n: nat) -> nat {
    ((n + 15) / 16) as nat
}

/// Length of a whole brightness-framed frame for `n` LEDs.
pub open spec fn apa102_frame_len(n: nat) -> nat {
    4 + 4 * n + apa102_end_len(n)
}

/// The whole brightness-framed frame for `colors`: start frame, one LED frame per colour,
/// end frame.
pub open spec fn apa102_frame(colors: Seq<RGB8>, o: ColorOrder) -> Seq<u8> {
    zeros(4) + apa102_leds(colors, o) + zeros(apa102_end_len(colors.len()))
}

/// The three bytes that one colour sends in the 7-bit protocol: each channel halved with its
/// top bit set, in the order second, first, third of the permuted channels.
pub open spec fn lpd8806_led(c: RGB8, o: ColorOrder) -> Seq<u8> {
    let p = permuted(c, o);
    seq![(p[1] >> 1u8) | 0x80u8, (p[0] >> 1u8) | 0x80u8, (p[2] >> 1u8) | 0x80u8]
}

/// The LED frames of the 7-bit protocol for `colors`, one after another.
pub open spec fn lpd8806_leds(colors: Seq<RGB8>, o: ColorOrder) -> Seq<u8> {
    concat_map(colors, |c: RGB8| lpd8806_led(c, o))
}

/// Length of the end frame of the 7-bit protocol for `n` LEDs: `ceil(n / 32)`.
pub open spec fn lpd8806_end_len(n: nat) -> nat {
    ((n + 31) / 32) as nat
}

/// Length of a whole 7-bit protocol frame for `n` LEDs.
pub open spec fn lpd8806_frame_len(n: nat) -> nat {
    4 + 3 * n + lpd8806_end_len(n)
}

/// The whole 7-bit protocol frame for `colors`: start frame, one LED frame per colour, end
/// frame.
pub open spec fn lpd8806_frame(colors: Seq<RGB8>, o: ColorOrder) -> Seq<u8> {
    zeros(4) + lpd8806_leds(colors, o) + zeros(lpd8806_end_len(colors.len()))
}

/// A brightness-framed frame for `n` LEDs is `4 + 4n + ceil(n / 16)` bytes long.
pub proof fn lemma_apa102_frame_len(colors: Seq<RGB8>, o: ColorOrder)
    ensures
        apa102_frame(colors, o).len() == apa102_frame_len(colors.len()),
        apa102_frame_len(colors.len()) == 4 + 4 * colors.len() + (colors.len() + 15) / 16,
{
    lemma_concat_map_len(colors, |c: RGB8| apa102_led(c, o), 4);
}

/// A 7-bit protocol frame for `n` LEDs is `4 + 3n + ceil(n / 32)` bytes long.
pub proof fn lemma_lpd8806_frame_len(colors: Seq<RGB8>, o: ColorOrder)
    ensures
        lpd8806_frame(colors, o).len() == lpd8806_frame_len(colors.len()),
        lpd8806_frame_len(colors.len()) == 4 + 3 * colors.len() + (colors.len() + 31) / 32,
{
    lemma_concat_map_len(colors, |c: RGB8| lpd8806_led(c, o), 3);
}

/// Every byte of the LED frames of the 7-bit protocol has its top bit set.
pub proof fn lemma_lpd8806_high_bits(colors: Seq<RGB8>, o: ColorOrder)
    ensures
        forall|i: int|
            0 <= i < lpd8806_leds(colors, o).len() ==> (#[trigger] lpd8806_leds(colors, o)[i]
                & 0x80u8) == 0x80u8,
{
    let f = |c: RGB8| lpd8806_led(c, o);
    let p = |v: u8| v & 0x80u8 == 0x80u8;
    assert forall|x: RGB8, j: int| 0 <= j < f(x).len() implies #[trigger] p(f(x)[j]) by {
        let q = permuted(x, o);
        let (a, b, c) = (q[0], q[1], q[2]);
        assert(((b >> 1u8) | 0x80u8) & 0x80u8 == 0x80u8 && ((a >> 1u8) | 0x80u8) & 0x80u8 == 0x80u8
            && ((c >> 1u8) | 0x80u8) & 0x80u8 == 0x80u8) by (bit_vector);
    }
    lemma_concat_map_all(colors, f, p);
    assert forall|i: int| 0 <= i < concat_map(colors, f).len() implies #[trigger] (concat_map(
        colors,
        f,
    )[i] & 0x80u8) == 0x80u8 by {
        assert(p(concat_map(colors, f)[i]));
    }
}

/// Frames for fewer LEDs are no longer.
pub proof fn lemma_frame_len_monotonic(m: nat, n: nat)
    requires
        m <= n,
    ensures
        apa102_frame_len(m) <= apa102_frame_len(n),
        lpd8806_frame_len(m) <= lpd8806_frame_len(n),
{
    assert((m + 15) / 16 <= (n + 15) / 16) by (nonlinear_arith)
        requires
            m <= n,
    ;
    assert((m + 31) / 32 <= (n + 31) / 32) by (nonlinear_arith)
        requires
            m <= n,
    ;
}

/// Sets `data[from..to]` to zero, leaving the rest as it was.
pub fn fill_zero(data: &mut [u8], from: usize, to: usize)
    requires
        from <= to <= old(data)@.len(),
    ensures
        final(data)@ == old(data)@.take(from as int) + zeros((to - from) as nat) + old(
            data,
        )@.skip(to as int),
{
    let mut i: usize = from;
    while i < to
        invariant
            from <= i <= to,
            to <= old(data)@.len(),
            data@ == old(data)@.take(from as int) + zeros((i - from) as nat) + old(data)@.skip(
                i as int,
            ),
        decreases to - i,
    {
        data[i] = 0;
        i = i + 1;
        assert(data@ =~= old(data)@.take(from as int) + zeros((i - from) as nat) + old(
            data,
        )@.skip(i as int));
    }
}

/// Copies `src` into `data` at `at`, leaving the rest as it was.
fn write_bytes_at(src: &[u8], data: &mut [u8], at: usize)
    requires
        at + src@.len() <= old(data)@.len(),
    ensures
        final(data)@ == old(data)@.take(at as int) + src@ + old(data)@.skip(at + src@.len()),
{
    let data_len = data.len();
    let mut i: usize = 0;
    while i < src.len()
        invariant
            i <= src@.len(),
            at + src@.len() <= old(data)@.len(),
            data_len == old(data)@.len(),
            data@ == old(data)@.take(at as int) + src@.take(i as int) + old(data)@.skip(at + i),
        decreases src@.len() - i,
    {
        data[at + i] = src[i];
        i = i + 1;
        assert(data@ =~= old(data)@.take(at as int) + src@.take(i as int) + old(data)@.skip(
            at + i,
        ));
    }
    assert(src@.take(i as int) =~= src@);
}

/// The LED frame of one colour in the brightness-framed protocol.
pub fn apa102_led_bytes(c: RGB8, o: ColorOrder) -> (r: [u8; 4])
    ensures
        r@ == apa102_led(c, o),
{
    let p = permute_rgb(c, o);
    // The three marker bits, then the 5-bit global brightness at its maximum.
    let flag: u8 = 0xE0 | 0x1F;
    assert(0xE0u8 | 0x1Fu8 == 0xFFu8) by (bit_vector);
    let r = [flag, p[2], p[1], p[0]];
    assert(r@ =~= apa102_led(c, o));
    r
}

/// The LED frame of one colour in the 7-bit protocol.
pub fn lpd8806_led_bytes(c: RGB8, o: ColorOrder) -> (r: [u8; 3])
    ensures
        r@ == lpd8806_led(c, o),
{
    let p = permute_rgb(c, o);
    let r = [(p[1] >> 1) | 0x80, (p[0] >> 1) | 0x80, (p[2] >> 1) | 0x80];
    assert(r@ =~= lpd8806_led(c, o));
    r
}

/// Writes the brightness-framed protocol frame for `colors` at the front of `data` and returns its length.
/// The rest of `data` is left as it was.
pub fn encode_apa102_frame(colors: &[RGB8], color_order: ColorOrder, data: &mut [u8]) -> (len:
    usize)
    requires
        apa102_frame_len(colors@.len()) <= old(data)@.len(),
    ensures
        len == apa102_frame_len(colors@.len()),
        final(data)@ == apa102_frame(colors@, color_order) + old(data)@.skip(len as int),
{
    let ghost f = |c: RGB8| apa102_led(c, color_order);
    let n = colors.len();
    let data_len = data.len();
    fill_zero(data, 0, START_FRAME_LEN);
    assert(data@ =~= zeros(4) + concat_map(colors@.take(0), f) + old(data)@.skip(4));
    let mut k: usize = 0;
    while k < n
        invariant
            n == colors@.len(),
            k <= n,
            apa102_frame_len(n as nat) <= old(data)@.len(),
            data_len == old(data)@.len(),
            f == (|c: RGB8| apa102_led(c, color_order)),
            data@ == zeros(4) + concat_map(colors@.take(k as int), f) + old(data)@.skip(
                4 + 4 * k,
            ),
        decreases n - k,
    {
        let ghost before = data@;
        let led = apa102_led_bytes(colors[k], color_order);
        proof {
            lemma_concat_map_len(colors@.take(k as int), f, 4);
            lemma_concat_map_take(colors@, f, k as int);
        }
        write_bytes_at(&led, data, START_FRAME_LEN + 4 * k);
        proof {
            assert(before.take(4 + 4 * k) =~= zeros(4) + concat_map(colors@.take(k as int), f));
            assert(before.skip(4 + 4 * k + 4) =~= old(data)@.skip(4 + 4 * k + 4));
        }
        k = k + 1;
        assert(data@ =~= zeros(4) + concat_map(colors@.take(k as int), f) + old(data)@.skip(
            4 + 4 * k,
        ));
    }
    assert(colors@.take(n as int) =~= colors@);
    let end_len = (n + 15) / 16;
    let body_end = START_FRAME_LEN + 4 * n;
    let ghost before = data@;
    proof {
        lemma_concat_map_len(colors@, f, 4);
    }
    fill_zero(data, body_end, body_end + end_len);
    assert(before.take(body_end as int) =~= zeros(4) + concat_map(colors@, f));
    assert(data@ =~= apa102_frame(colors@, color_order) + old(data)@.skip(
        (body_end + end_len) as int,
    ));
    body_end + end_len
}

/// Writes the 7-bit protocol frame for `colors` at the front of `data` and returns its length.
/// The rest of `data` is left as it was.
pub fn encode_lpd8806_frame(colors: &[RGB8], color_order: ColorOrder, data: &mut [u8]) -> (len:
    usize)
    requires
        lpd8806_frame_len(colors@.len()) <= old(data)@.len(),
    ensures
        len == lpd8806_frame_len(colors@.len()),
        final(data)@ == lpd8806_frame(colors@, color_order) + old(data)@.skip(len as int),
{
    let ghost f = |c: RGB8| lpd8806_led(c, color_order);
    let n = colors.len();
    let data_len = data.len();
    fill_zero(data, 0, START_FRAME_LEN);
    assert(data@ =~= zeros(4) + concat_map(colors@.take(0), f) + old(data)@.skip(4));
    let mut k: usize = 0;
    while k < n
        invariant
            n == colors@.len(),
            k <= n,
            lpd8806_frame_len(n as nat) <= old(data)@.len(),
            data_len == old(data)@.len(),
            f == (|c: RGB8| lpd8806_led(c, color_order)),
            data@ == zeros(4) + concat_map(colors@.take(k as int), f) + old(data)@.skip(
                4 + 3 * k,
            ),
        decreases n - k,
    {
        let ghost before = data@;
        let led = lpd8806_led_bytes(colors[k], color_order);
        proof {
            lemma_concat_map_len(colors@.take(k as int), f, 3);
            lemma_concat_map_take(colors@, f, k as int);
        }
        write_bytes_at(&led, data, START_FRAME_LEN + 3 * k);
        proof {
            assert(before.take(4 + 3 * k) =~= zeros(4) + concat_map(colors@.take(k as int), f));
            assert(before.skip(4 + 3 * k + 3) =~= old(data)@.skip(4 + 3 * k + 3));
        }
        k = k + 1;
        assert(data@ =~= zeros(4) + concat_map(colors@.take(k as int), f) + old(data)@.skip(
            4 + 3 * k,
        ));
    }
    assert(colors@.take(n as int) =~= colors@);
    let end_len = (n + 31) / 32;
    let body_end = START_FRAME_LEN + 3 * n;
    let ghost before = data@;
    proof {
        lemma_concat_map_len(colors@, f, 3);
    }
    fill_zero(data, body_end, body_end + end_len);
    assert(before.take(body_end as int) =~= zeros(4) + concat_map(colors@, f));
    assert(data@ =~= lpd8806_frame(colors@, color_order) + old(data)@.skip(
        (body_end + end_len) as int,
    ));
    body_end + end_len
}

/// The buffer size that a brightness-framed driver for `num_leds` LEDs needs, or `None`
/// where it does not fit in `usize`.
pub fn apa102_buffer_len(num_leds: usize) -> (r: Option<usize>)
    ensures
        r == (if apa102_frame_len(num_leds as nat) <= usize::MAX {
            Some(apa102_frame_len(num_leds as nat) as usize)
        } else {
            None
        }),
{
    match num_leds.checked_mul(4) {
        None => None,
        Some(body) => match body.checked_add(START_FRAME_LEN) {
            None => None,
            Some(framed) => framed.checked_add((num_leds + 15) / 16),
        },
    }
}

/// The buffer size that a 7-bit protocol driver for `num_leds` LEDs needs, or `None` where it
/// does not fit in `usize`.
pub fn lpd8806_buffer_len(num_leds: usize) -> (r: Option<usize>)
    ensures
        r == (if lpd8806_frame_len(num_leds as nat) <= usize::MAX {
            Some(lpd8806_frame_len(num_leds as nat) as usize)
        } else {
            None
        }),
{
    match num_leds.checked_mul(3) {
        None => None,
        Some(body) => match body.checked_add(START_FRAME_LEN) {
            None => None,
            Some(framed) => framed.checked_add((num_leds + 31) / 32),
        },
    }
}

/// The buffer size that a pulse-encoding driver for `num_leds` LEDs of `bytes_per_led`
/// bytes each, with a reset run of `reset_len` bytes, needs; `None` where it does not fit in
/// `usize`.
pub fn pulse_buffer_len(num_leds: usize, bytes_per_led: usize, reset_len: usize) -> (r: Option<
    usize,
>)
    ensures
        r == (if num_leds * bytes_per_led + reset_len <= usize::MAX {
            Some((num_leds * bytes_per_led + reset_len) as usize)
        } else {
            None
        }),
{
    match num_leds.checked_mul(bytes_per_led) {
        None => {
            assert(num_leds * bytes_per_led + reset_len > usize::MAX) by (nonlinear_arith)
                requires
                    num_leds * bytes_per_led > usize::MAX,
            ;
            None
        },
        Some(body) => body.checked_add(reset_len),
    }
}

} // verus!
