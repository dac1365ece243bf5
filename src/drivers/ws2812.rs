use vstd::prelude::*;
use crate::color_order::{permuted, ColorOrder, RGB8};
use crate::concat::lemma_concat_map_len;
use crate::drivers::truncated;
use crate::encoding::{
    encode_rgb8_to_spi_data, lemma_pulse_expand_len, rgb_channel_bytes, rgb_pulse_data,
};
use crate::framing::{fill_zero, pulse_buffer_len, zeros};

verus! {

/// Zero bytes sent after the data when no other count is given: 40 µs of low line on a 1 MHz
/// bus. On a faster bus, or for a longer latch time, pass a count from `reset_len_for`.
pub const DEFAULT_RESET_LEN: usize = 5;

/// The buffer size that a driver for `num_leds` LEDs with a reset run of `reset_len` bytes
/// needs, or `None` where it does not fit in `usize`.
pub fn buffer_len(num_leds: usize, reset_len: usize) -> (r: Option<usize>)
    ensures
        r == (if 12 * num_leds + reset_len <= usize::MAX {
            Some((12 * num_leds + reset_len) as usize)
        } else {
            None
        }),
{
    pulse_buffer_len(num_leds, 12, reset_len)
}

/// Driver for LEDs of the clockless protocol with three colours, writing into a buffer that
/// the caller supplies. Each colour takes 12 bytes of pulse data; a run of zero bytes after the
/// data holds the line low so that the LEDs latch the frame.
///
/// The buffer must hold `12 * num_leds` bytes plus the reset run.
pub struct Ws2812<'a, SPI> {
    spi: SPI,
    color_order: ColorOrder,
    num_leds: usize,
    reset_len: usize,
    buffer: &'a mut [u8],
}

impl<'a, SPI> Ws2812<'a, SPI> {
    /// The bus handle.
    pub closed spec fn bus(&self) -> SPI {
        self.spi
    }

    /// The channel order applied on the next write.
    pub closed spec fn order(&self) -> ColorOrder {
        self.color_order
    }

    /// The number of LEDs this driver was made for.
    pub closed spec fn capacity(&self) -> nat {
        self.num_leds as nat
    }

    /// The number of zero bytes sent after the data.
    pub closed spec fn reset_bytes(&self) -> nat {
        self.reset_len as nat
    }

    /// The contents of the frame buffer.
    pub closed spec fn frame(&self) -> Seq<u8> {
        self.buffer@
    }

    /// The buffer holds the data for `capacity()` LEDs and the reset run after it.
    pub open spec fn wf(&self) -> bool {
        12 * self.capacity() + self.reset_bytes() <= self.frame().len()
    }

    /// Creates a driver for `num_leds` LEDs on the bus `spi`, writing its frames into
    /// `buffer`, with a reset run of `DEFAULT_RESET_LEN` bytes. The channel order starts as
    /// `RGB`.
    pub fn new(spi: SPI, num_leds: usize, buffer: &'a mut [u8]) -> (d: Self)
        requires
            12 * num_leds + DEFAULT_RESET_LEN <= old(buffer)@.len(),
        ensures
            d.wf(),
            d.bus() == spi,
            d.order() == ColorOrder::RGB,
            d.capacity() == num_leds,
            d.reset_bytes() == DEFAULT_RESET_LEN,
            d.frame() == old(buffer)@,
    {
        Ws2812 { spi, color_order: ColorOrder::RGB, num_leds, reset_len: DEFAULT_RESET_LEN, buffer }
    }

    /// Creates a driver as `new` does, with a reset run of `reset_len` bytes; see
    /// `reset_len_for` for deriving it from the bus clock.
    pub fn with_reset_len(spi: SPI, num_leds: usize, reset_len: usize, buffer: &'a mut [u8]) -> (d:
        Self)
        requires
            12 * num_leds + reset_len <= old(buffer)@.len(),
        ensures
            d.wf(),
            d.bus() == spi,
            d.order() == ColorOrder::RGB,
            d.capacity() == num_leds,
            d.reset_bytes() == reset_len,
            d.frame() == old(buffer)@,
    {
        Ws2812 { spi, color_order: ColorOrder::RGB, num_leds, reset_len, buffer }
    }

    /// Sets the channel order used from the next write on.
    pub fn set_color_order(&mut self, color_order: ColorOrder)
        ensures
            final(self).order() == color_order,
            final(self).bus() == old(self).bus(),
            final(self).capacity() == old(self).capacity(),
            final(self).reset_bytes() == old(self).reset_bytes(),
            final(self).frame() == old(self).frame(),
    {
        self.color_order = color_order;
    }

    /// The number of zero bytes sent after the data.
    pub fn reset_len(&self) -> (r: usize)
        ensures
            r == self.reset_bytes(),
    {
        self.reset_len
    }

    /// Encodes the pulse data for the first `min(colors.len(), capacity())` colours into the
    /// front of the buffer, zeroes the reset run after it, and returns the length of the data;
    /// colours past the capacity are dropped.
    pub fn encode_frame(&mut self, colors: &[RGB8]) -> (data_len: usize)
        requires
            old(self).wf(),
        ensures
            final(self).wf(),
            final(self).bus() == old(self).bus(),
            final(self).order() == old(self).order(),
            final(self).capacity() == old(self).capacity(),
            final(self).reset_bytes() == old(self).reset_bytes(),
            data_len == 12 * truncated(colors@, old(self).capacity()).len(),
            data_len + old(self).reset_bytes() <= final(self).frame().len(),
            final(self).frame().take(data_len as int) == rgb_pulse_data(
                truncated(colors@, old(self).capacity()),
                old(self).order(),
            ),
            final(self).frame().subrange(data_len as int, data_len + old(self).reset_bytes())
                == zeros(old(self).reset_bytes()),
    {
        let buf_len = self.buffer.len();
        let n = if colors.len() < self.num_leds {
            colors.len()
        } else {
            self.num_leds
        };
        let shown = &colors[0..n];
        assert(shown@ =~= truncated(colors@, self.capacity()));
        let data_len = 12 * n;
        encode_rgb8_to_spi_data(shown, self.color_order, &mut *self.buffer);
        let ghost encoded = self.buffer@;
        proof {
            lemma_concat_map_len(shown@, |c: RGB8| permuted(c, self.color_order), 3);
            lemma_pulse_expand_len(rgb_channel_bytes(shown@, self.color_order));
        }
        fill_zero(&mut *self.buffer, data_len, data_len + self.reset_len);
        assert(self.buffer@.take(data_len as int) =~= encoded.take(data_len as int));
        assert(self.buffer@.subrange(data_len as int, data_len + self.reset_len) =~= zeros(
            self.reset_len as nat,
        ));
        data_len
    }

    /// The bus handle and the frame buffer, borrowed together so that a frame can be sent.
    pub fn bus_and_frame(&mut self) -> (r: (&mut SPI, &[u8]))
        ensures
            *r.0 == old(self).bus(),
            r.1@ == old(self).frame(),
            final(self).bus() == *final(r.0),
            final(self).order() == old(self).order(),
            final(self).capacity() == old(self).capacity(),
            final(self).reset_bytes() == old(self).reset_bytes(),
            final(self).frame() == old(self).frame(),
    {
        (&mut self.spi, &*self.buffer)
    }
}

} // verus!
