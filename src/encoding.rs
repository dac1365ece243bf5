use vstd::prelude::*;
use crate::color_order::{permute_rgb, permuted, ColorOrder, RGB8};
use crate::concat::{concat_map, lemma_concat_map_len, lemma_concat_map_take};

verus! {

/// Output byte for each 2-bit group value, most significant group first.
pub const PATTERNS: [u8; 4] = [0b1000_1000, 0b1000_1110, 0b1110_1000, 0b1110_1110];

/// The pulse pattern that stands for the 2-bit value `g`.
pub open spec fn pattern(g: u8) -> u8 {
    if g == 0 {
        0b1000_1000u8
    } else if g == 1 {
        0b1000_1110u8
    } else if g == 2 {
        0b1110_1000u8
    } else {
        0b1110_1110u8
    }
}

/// The four output bytes that one input byte expands to.
pub open spec fn pulse_bytes(b: u8) -> Seq<u8> {
    seq![
        pattern(b >> 6u8),
        pattern((b >> 4u8) & 3u8),
        pattern((b >> 2u8) & 3u8),
        pattern(b & 3u8),
    ]
}

/// The pulse expansion of a whole byte sequence: four output bytes per input byte.
pub open spec fn pulse_expand(s: Seq<u8>) -> Seq<u8>
    decreases s.len(),
{
    if s.len() == 0 {
        seq![]
    } else {
        pulse_expand(s.drop_last()) + pulse_bytes(s.last())
    }
}

/// A colour with three chromatic 8-bit channels and one white channel.
#[derive(Clone, Copy, Debug, PartialEq, Eq, Structural)]
pub struct RGBW8 {
    pub r: u8,
    pub g: u8,
    pub b: u8,
    pub w: u8,
}

impl RGBW8 {
    /// Creates a new `RGBW8` color.
    pub fn new(r: u8, g: u8, b: u8, w: u8) -> (c: Self)
        ensures
            c == (RGBW8 { r, g, b, w }),
    {
        RGBW8 { r, g, b, w }
    }
}

/// The channel bytes of `c`: the chromatic ones in the order that `o` selects, white last.
pub open spec fn permuted_w(c: RGBW8, o: ColorOrder) -> Seq<u8> {
    permuted(RGB8 { r: c.r, g: c.g, b: c.b }, o).push(c.w)
}

/// Channel bytes of `color`, ordered as `order` asks, white last.
pub fn permute_rgbw(color: RGBW8, order: ColorOrder) -> (r: [u8; 4])
    ensures
        r@ == permuted_w(color, order),
{
    let r = match order {
        ColorOrder::RGB => [color.r, color.g, color.b, color.w],
        ColorOrder::GRB => [color.g, color.r, color.b, color.w],
    };
    assert(r@ =~= permuted_w(color, order));
    r
}

/// The channel bytes that a run of three-channel colours sends, before pulse expansion.
pub open spec fn rgb_channel_bytes(colors: Seq<RGB8>, o: ColorOrder) -> Seq<u8> {
    concat_map(colors, |c: RGB8| permuted(c, o))
}

/// The channel bytes that a run of four-channel colours sends, before pulse expansion.
pub open spec fn rgbw_channel_bytes(colors: Seq<RGBW8>, o: ColorOrder) -> Seq<u8> {
    concat_map(colors, |c: RGBW8| permuted_w(c, o))
}

/// The data region for three-channel colours: twelve bytes per colour.
pub open spec fn rgb_pulse_data(colors: Seq<RGB8>, o: ColorOrder) -> Seq<u8> {
    pulse_expand(rgb_channel_bytes(colors, o))
}

/// The data region for four-channel colours: sixteen bytes per colour.
pub open spec fn rgbw_pulse_data(colors: Seq<RGBW8>, o: ColorOrder) -> Seq<u8> {
    pulse_expand(rgbw_channel_bytes(colors, o))
}

/// Number of zero bytes that hold the line low for at least `low_time_us` microseconds on a
/// bus clocked at `bus_hz`: `ceil(bus_hz * low_time_us / 8_000_000)`.
pub open spec fn reset_len_spec(bus_hz: nat, low_time_us: nat) -> nat {
    ((bus_hz * low_time_us + 7_999_999) / 8_000_000) as nat
}

/// Number of zero bytes that hold the line low for at least `low_time_us` microseconds on a
/// bus clocked at `bus_hz`, rounded up to whole bytes.
pub fn reset_len_for(bus_hz: u32, low_time_us: u32) -> (r: usize)
    requires
        reset_len_spec(bus_hz as nat, low_time_us as nat) <= usize::MAX,
    ensures
        r == reset_len_spec(bus_hz as nat, low_time_us as nat),
{
    assert((bus_hz as nat) * (low_time_us as nat) <= 0xFFFF_FFFE_0000_0001nat) by (nonlinear_arith)
        requires
            bus_hz <= 0xFFFF_FFFFu32,
            low_time_us <= 0xFFFF_FFFFu32,
    ;
    let bits: u64 = (bus_hz as u64) * (low_time_us as u64);
    ((bits + 7_999_999) / 8_000_000) as usize
}

/// The pattern byte for the top two bits of `color`.
fn top_pattern(color: u8) -> (r: u8)
    ensures
        r == pattern(color >> 6u8),
{
    let idx: u8 = (color & 0b1100_0000) >> 6;
    assert(idx == color >> 6u8 && idx < 4) by (bit_vector)
        requires idx == (color & 0xC0u8) >> 6u8;
    PATTERNS[idx as usize]
}

/// The expansion of `s` is four times as long as `s`.
pub proof fn lemma_pulse_expand_len(s: Seq<u8>)
    ensures
        pulse_expand(s).len() == 4 * s.len(),
    decreases s.len(),
{
    if s.len() > 0 {
        lemma_pulse_expand_len(s.drop_last());
    }
}

/// Expanding a concatenation expands each part in turn.
pub proof fn lemma_pulse_expand_concat(a: Seq<u8>, b: Seq<u8>)
    ensures
        pulse_expand(a + b) == pulse_expand(a) + pulse_expand(b),
    decreases b.len(),
{
    if b.len() == 0 {
        assert(a + b =~= a);
        assert(pulse_expand(a) + pulse_expand(b) =~= pulse_expand(a));
    } else {
        lemma_pulse_expand_concat(a, b.drop_last());
        assert((a + b).drop_last() =~= a + b.drop_last());
        assert((a + b).last() == b.last());
        assert(pulse_expand(a + b) =~= pulse_expand(a) + pulse_expand(b));
    }
}

/// Pulse expansion works byte by byte: each input byte `s[q]` becomes exactly the four
/// output bytes at `4 * q`, and nothing else is emitted.
pub proof fn lemma_pulse_expand_bytewise(s: Seq<u8>)
    ensures
        pulse_expand(s).len() == 4 * s.len(),
        forall|q: int|
            0 <= q < s.len() ==> #[trigger] pulse_expand(s).subrange(4 * q, 4 * q + 4)
                == pulse_bytes(s[q]),
    decreases s.len(),
{
    lemma_pulse_expand_len(s);
    if s.len() > 0 {
        let t = s.drop_last();
        lemma_pulse_expand_bytewise(t);
        assert forall|q: int| 0 <= q < s.len() implies #[trigger] pulse_expand(s).subrange(
            4 * q,
            4 * q + 4,
        ) == pulse_bytes(s[q]) by {
            if q < t.len() {
                assert(pulse_expand(s).subrange(4 * q, 4 * q + 4) =~= pulse_expand(t).subrange(
                    4 * q,
                    4 * q + 4,
                ));
            } else {
                assert(pulse_expand(s).subrange(4 * q, 4 * q + 4) =~= pulse_bytes(s.last()));
            }
        }
    }
}

/// The data region for `n` three-channel colours is `12 * n` bytes long, and for `n`
/// four-channel colours `16 * n` bytes long.
pub proof fn lemma_pulse_data_len(rgb: Seq<RGB8>, rgbw: Seq<RGBW8>, o: ColorOrder)
    ensures
        rgb_pulse_data(rgb, o).len() == 12 * rgb.len(),
        rgbw_pulse_data(rgbw, o).len() == 16 * rgbw.len(),
{
    lemma_concat_map_len(rgb, |c: RGB8| permuted(c, o), 3);
    lemma_pulse_expand_len(rgb_channel_bytes(rgb, o));
    lemma_concat_map_len(rgbw, |c: RGBW8| permuted_w(c, o), 4);
    lemma_pulse_expand_len(rgbw_channel_bytes(rgbw, o));
}

/// Expanding one more input byte appends its four output bytes.
proof fn lemma_pulse_expand_take(s: Seq<u8>, q: int)
    requires
        0 <= q < s.len(),
    ensures
        pulse_expand(s.take(q + 1)) == pulse_expand(s.take(q)) + pulse_bytes(s[q]),
{
    assert(s.take(q + 1).drop_last() =~= s.take(q));
}

/// Writes the four output bytes of `b` at `at`, leaving the rest of `data` as it was.
fn write_pulse_byte(b: u8, data: &mut [u8], at: usize)
    requires
        at + 4 <= old(data)@.len(),
    ensures
        final(data)@ == old(data)@.take(at as int) + pulse_bytes(b) + old(data)@.skip(at + 4),
{
    assert(((b << 2u8) >> 6u8) == ((b >> 4u8) & 3u8) && (((b << 2u8) << 2u8) >> 6u8) == ((b
        >> 2u8) & 3u8) && ((((b << 2u8) << 2u8) << 2u8) >> 6u8) == (b & 3u8)) by (bit_vector);
    let mut color: u8 = b;
    data[at] = top_pattern(color);
    color = color << 2;
    data[at + 1] = top_pattern(color);
    color = color << 2;
    data[at + 2] = top_pattern(color);
    color = color << 2;
    data[at + 3] = top_pattern(color);
    assert(data@ =~= old(data)@.take(at as int) + pulse_bytes(b) + old(data)@.skip(at + 4));
}

/// Pulse-expands every byte of `src` into `data`, starting at `offset`: byte `i` of `src`
/// becomes the four bytes at `offset + 4 * i`. The rest of `data` is left as it was.
pub fn encode_pulse(src: &[u8], data: &mut [u8], offset: usize)
    requires
        offset + 4 * src@.len() <= old(data)@.len(),
    ensures
        final(data)@ == old(data)@.take(offset as int) + pulse_expand(src@) + old(data)@.skip(
            offset + 4 * src@.len(),
        ),
{
    let data_len = data.len();
    let mut q: usize = 0;
    proof {
        assert(src@.take(0) =~= Seq::<u8>::empty());
        assert(data@ =~= old(data)@.take(offset as int) + pulse_expand(src@.take(0)) + old(
            data,
        )@.skip(offset as int));
    }
    while q < src.len()
        invariant
            q <= src@.len(),
            offset + 4 * src@.len() <= old(data)@.len(),
            data_len == old(data)@.len(),
            data@ == old(data)@.take(offset as int) + pulse_expand(src@.take(q as int)) + old(
                data,
            )@.skip(offset + 4 * q),
        decreases src@.len() - q,
    {
        let ghost before = data@;
        proof {
            lemma_pulse_expand_len(src@.take(q as int));
            lemma_pulse_expand_take(src@, q as int);
        }
        write_pulse_byte(src[q], data, offset + 4 * q);
        proof {
            assert(before.take(offset + 4 * q) =~= old(data)@.take(offset as int) + pulse_expand(
                src@.take(q as int),
            ));
            assert(before.skip(offset + 4 * q + 4) =~= old(data)@.skip(offset + 4 * q + 4));
        }
        q = q + 1;
        assert(data@ =~= old(data)@.take(offset as int) + pulse_expand(src@.take(q as int)) + old(
            data,
        )@.skip(offset + 4 * q));
    }
    assert(src@.take(q as int) =~= src@);
}

/// Encodes three-channel colours into `data` as a pulse stream: the channel bytes of each
/// colour, ordered by `color_order`, each expanded to four bytes. The first
/// `12 * colors.len()` bytes of `data` are written; the rest is left as it was.
pub fn encode_rgb8_to_spi_data(colors: &[RGB8], color_order: ColorOrder, data: &mut [u8])
    requires
        12 * colors@.len() <= old(data)@.len(),
    ensures
        final(data)@ == rgb_pulse_data(colors@, color_order) + old(data)@.skip(
            12 * colors@.len() as int,
        ),
{
    let ghost f = |c: RGB8| permuted(c, color_order);
    let data_len = data.len();
    let mut k: usize = 0;
    proof {
        assert(colors@.take(0) =~= Seq::<RGB8>::empty());
        assert(data@ =~= rgb_pulse_data(colors@.take(0), color_order) + old(data)@.skip(0));
    }
    while k < colors.len()
        invariant
            k <= colors@.len(),
            12 * colors@.len() <= old(data)@.len(),
            data_len == old(data)@.len(),
            f == (|c: RGB8| permuted(c, color_order)),
            data@ == rgb_pulse_data(colors@.take(k as int), color_order) + old(data)@.skip(
                12 * k,
            ),
        decreases colors@.len() - k,
    {
        let ghost before = data@;
        let ghost done = rgb_channel_bytes(colors@.take(k as int), color_order);
        let perm = permute_rgb(colors[k], color_order);
        proof {
            lemma_concat_map_len(colors@.take(k as int), f, 3);
            lemma_pulse_expand_len(done);
            lemma_concat_map_take(colors@, f, k as int);
            lemma_pulse_expand_concat(done, perm@);
        }
        encode_pulse(&perm, data, 12 * k);
        proof {
            assert(before.take(12 * k) =~= pulse_expand(done));
            assert(before.skip(12 * k + 12) =~= old(data)@.skip(12 * k + 12));
        }
        k = k + 1;
        assert(data@ =~= rgb_pulse_data(colors@.take(k as int), color_order) + old(data)@.skip(
            12 * k,
        ));
    }
    assert(colors@.take(k as int) =~= colors@);
}

/// Encodes four-channel colours into `data` as a pulse stream: the chromatic channel bytes of
/// each colour, ordered by `color_order`, then its white byte, each expanded to four bytes.
/// The first `16 * colors.len()` bytes of `data` are written; the rest is left as it was.
pub fn encode_rgbw8_to_spi_data(colors: &[RGBW8], color_order: ColorOrder, data: &mut [u8])
    requires
        16 * colors@.len() <= old(data)@.len(),
    ensures
        final(data)@ == rgbw_pulse_data(colors@, color_order) + old(data)@.skip(
            16 * colors@.len() as int,
        ),
{
    let ghost f = |c: RGBW8| permuted_w(c, color_order);
    let data_len = data.len();
    let mut k: usize = 0;
    proof {
        assert(colors@.take(0) =~= Seq::<RGBW8>::empty());
        assert(data@ =~= rgbw_pulse_data(colors@.take(0), color_order) + old(data)@.skip(0));
    }
    while k < colors.len()
        invariant
            k <= colors@.len(),
            16 * colors@.len() <= old(data)@.len(),
            data_len == old(data)@.len(),
            f == (|c: RGBW8| permuted_w(c, color_order)),
            data@ == rgbw_pulse_data(colors@.take(k as int), color_order) + old(data)@.skip(
                16 * k,
            ),
        decreases colors@.len() - k,
    {
        let ghost before = data@;
        let ghost done = rgbw_channel_bytes(colors@.take(k as int), color_order);
        let perm = permute_rgbw(colors[k], color_order);
        proof {
            lemma_concat_map_len(colors@.take(k as int), f, 4);
            lemma_pulse_expand_len(done);
            lemma_concat_map_take(colors@, f, k as int);
            lemma_pulse_expand_concat(done, perm@);
        }
        encode_pulse(&perm, data, 16 * k);
        proof {
            assert(before.take(16 * k) =~= pulse_expand(done));
            assert(before.skip(16 * k + 16) =~= old(data)@.skip(16 * k + 16));
        }
        k = k + 1;
        assert(data@ =~= rgbw_pulse_data(colors@.take(k as int), color_order) + old(data)@.skip(
            16 * k,
        ));
    }
    assert(colors@.take(k as int) =~= colors@);
}

} // verus!
