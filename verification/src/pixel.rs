//! A single image pixel: three 8-bit colour channels.

use vstd::prelude::*;

verus! {

/// One 24-bit pixel, 8 bits per channel.
#[derive(Clone, Copy, Debug, PartialEq, Eq, Structural)]
pub struct Pixel {
    pub r: u8,
    pub g: u8,
    pub b: u8,
}

impl Pixel {
    /// The sum of the three channel values, in `0 ..= 765`.
    pub open spec fn spec_sum(self) -> int {
        self.r + self.g + self.b
    }

    /// Adds the three channel values.
    pub fn sum_channels(&self) -> (s: usize)
        ensures
            s == self.spec_sum(),
            s <= 765,
    {
        self.r as usize + self.g as usize + self.b as usize
    }
}

} // verus!
