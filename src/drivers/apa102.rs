use vstd::prelude::*;
use crate::color_order::{ColorOrder, RGB8};
use crate::drivers::truncated;
use crate::framing::{
    apa102_frame, apa102_frame_len, encode_apa102_frame, lemma_apa102_frame_len,
    lemma_frame_len_monotonic,
};

verus! {

/// Driver for LEDs of the brightness-framed clocked protocol, writing into a buffer that the
/// caller supplies.
///
/// The buffer must hold `4 + 4 * num_leds + ceil(num_leds / 16)` bytes.
pub struct Apa102<'a, SPI> {
    spi: SPI,
    color_order: ColorOrder,
    num_leds: usize,
    buffer: &'a mut [u8],
}

impl<'a, SPI> Apa102<'a, SPI> {
    /// The bus handle.
    pub closed spec fn bus(&self) -> SPI {
        self.spi
    }

    /// The channel order applied on the next write.
    pub closed spec fn order(&self) -> ColorOrder {
        self.color_order
    }

    /// The number of LEDs this driver was made for.
    pub closed spec fn capacity(&self) -> nat {
        self.num_leds as nat
    }

    /// The contents of the frame buffer.
    pub closed spec fn frame(&self) -> Seq<u8> {
        self.buffer@
    }

    /// The buffer holds a whole frame for `capacity()` LEDs.
    pub open spec fn wf(&self) -> bool {
        apa102_frame_len(self.capacity()) <= self.frame().len()
    }

    /// Creates a driver for `num_leds` LEDs on the bus `spi`, writing its frames into
    /// `buffer`. The channel order starts as `RGB`.
    pub fn new(spi: SPI, num_leds: usize, buffer: &'a mut [u8]) -> (d: Self)
        requires
            apa102_frame_len(num_leds as nat) <= old(buffer)@.len(),
        ensures
            d.wf(),
            d.bus() == spi,
            d.order() == ColorOrder::RGB,
            d.capacity() == num_leds,
            d.frame() == old(buffer)@,
    {
        Apa102 { spi, color_order: ColorOrder::RGB, num_leds, buffer }
    }

    /// Sets the channel order used from the next write on.
    pub fn set_color_order(&mut self, color_order: ColorOrder)
        ensures
            final(self).order() == color_order,
            final(self).bus() == old(self).bus(),
            final(self).capacity() == old(self).capacity(),
            final(self).frame() == old(self).frame(),
    {
        self.color_order = color_order;
    }

    /// Encodes the frame for the first `min(colors.len(), capacity())` colours into the
    /// buffer and returns its length; colours past the capacity are dropped.
    pub fn encode_frame(&mut self, colors: &[RGB8]) -> (len: usize)
        requires
            old(self).wf(),
        ensures
            final(self).wf(),
            final(self).bus() == old(self).bus(),
            final(self).order() == old(self).order(),
            final(self).capacity() == old(self).capacity(),
            len == apa102_frame_len(truncated(colors@, old(self).capacity()).len()),
            len <= final(self).frame().len(),
            final(self).frame().take(len as int) == apa102_frame(
                truncated(colors@, old(self).capacity()),
                old(self).order(),
            ),
    {
        let n = if colors.len() < self.num_leds {
            colors.len()
        } else {
            self.num_leds
        };
        let shown = &colors[0..n];
        assert(shown@ =~= truncated(colors@, self.capacity()));
        proof {
            lemma_frame_len_monotonic(n as nat, self.num_leds as nat);
            lemma_apa102_frame_len(shown@, self.color_order);
        }
        let len = encode_apa102_frame(shown, self.color_order, &mut *self.buffer);
        assert(self.buffer@.take(len as int) =~= apa102_frame(shown@, self.color_order));
        len
    }

    /// The bus handle and the frame buffer, borrowed together so that a frame can be sent.
    pub fn bus_and_frame(&mut self) -> (r: (&mut SPI, &[u8]))
        ensures
            *r.0 == old(self).bus(),
            r.1@ == old(self).frame(),
            final(self).bus() == *final(r.0),
            final(self).order() == old(self).order(),
            final(self).capacity() == old(self).capacity(),
            final(self).frame() == old(self).frame(),
    {
        (&mut self.spi, &*self.buffer)
    }
}

} // verus!
