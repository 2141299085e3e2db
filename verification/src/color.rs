//! 24-bit and 32-bit colour values.

use vstd::prelude::*;

verus! {

/// A 24-bit colour: its red, green and blue channel, in that order.
#[derive(Clone, Copy, Debug, PartialEq, Eq, Structural)]
pub struct Color(pub u8, pub u8, pub u8);

/// A 32-bit colour: red, green and blue, followed by alpha.
#[derive(Clone, Copy, Debug, PartialEq, Eq, Structural)]
pub struct ColorA(pub u8, pub u8, pub u8, pub u8);

} // verus!
