use vstd::prelude::*;

pub mod apa102;
pub mod lpd8806;
pub mod sk6812;
pub mod ws2812;

verus! {

/// The colours that a driver for `cap` LEDs shows: the first `cap` of `colors`, or all of
/// them where there are fewer.
pub open spec fn truncated<A>(colors: Seq<A>, cap: nat) -> Seq<A> {
    if colors.len() <= cap {
        colors
    } else {
        colors.take(cap as int)
    }
}

} // verus!
