//! Small building blocks: an indexed collection of independently lockable
//! slots with a FIFO wait protocol, bit packing helpers, conversions inside
//! container types, a byte codec, an n-dimensional vector and a lazily
//! initialised value.
use vstd::prelude::*;

pub mod bits;
pub mod mutec;
pub mod once;
pub mod file_ops;
pub mod split;
pub mod nvec;
pub mod binary;
pub mod as_from;
pub mod input;
pub mod progress_bar;

pub use binary::{Binary, BinaryError, FromBinary, ToBinary};
pub use bits::{u8_decode, u8_encode};

verus! {

} // verus!
