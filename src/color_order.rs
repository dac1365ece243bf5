use vstd::prelude::*;

verus! {

/// The order in which a strip expects the first two colour channels.
#[derive(Clone, Copy, Debug, PartialEq, Eq, Structural)]
pub enum ColorOrder {
    RGB,
    GRB,
}

/// A colour with three 8-bit channels.
#[derive(Clone, Copy, Debug, PartialEq, Eq, Structural)]
pub struct RGB8 {
    pub r: u8,
    pub g: u8,
    pub b: u8,
}

/// The channel bytes of `c` in their natural order.
pub open spec fn channels(c: RGB8) -> Seq<u8> {
    seq![c.r, c.g, c.b]
}

/// The colour whose channels, in their natural order, are the first three bytes of `p`.
pub open spec fn from_channels(p: Seq<u8>) -> RGB8 {
    RGB8 { r: p[0], g: p[1], b: p[2] }
}

/// The channel bytes of `c` in the order that `o` selects.
pub open spec fn permuted(c: RGB8, o: ColorOrder) -> Seq<u8> {
    match o {
        ColorOrder::RGB => seq![c.r, c.g, c.b],
        ColorOrder::GRB => seq![c.g, c.r, c.b],
    }
}

/// Channel bytes of `color`, ordered as `order` asks.
pub fn permute_rgb(color: RGB8, order: ColorOrder) -> (r: [u8; 3])
    ensures
        r@ == permuted(color, order),
{
    let r = match order {
        ColorOrder::RGB => [color.r, color.g, color.b],
        ColorOrder::GRB => [color.g, color.r, color.b],
    };
    assert(r@ =~= permuted(color, order));
    r
}

/// Each channel order is its own inverse: reordering the reordered channels gives back the
/// natural order. The `RGB` order leaves the channels as they are.
pub proof fn lemma_color_order_involutive(c: RGB8, o: ColorOrder)
    ensures
        permuted(from_channels(permuted(c, o)), o) == channels(c),
        permuted(c, ColorOrder::RGB) == channels(c),
{
    assert(permuted(from_channels(permuted(c, o)), o) =~= channels(c));
    assert(permuted(c, ColorOrder::RGB) =~= channels(c));
}

} // verus!
