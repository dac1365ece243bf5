//! Byte-exact frame encoding for addressable LED strips driven over a clocked serial bus.
//!
//! - `color_order`: colour values and the channel order a strip expects.
//! - `encoding`: the pulse encoder of the clockless one-wire chips, where every 2-bit group of
//!   a colour byte becomes one bus byte.
//! - `framing`: start, LED and end frames of the clocked chips.
//! - `drivers`: one driver per chip family, each binding an encoder to a caller-supplied
//!   buffer and a bus handle.
//!
//! Sending a frame is left to the caller: each driver hands out its bus handle together with
//! the encoded frame.
pub mod color_order;
pub mod concat;
pub mod drivers;
pub mod encoding;
pub mod framing;
