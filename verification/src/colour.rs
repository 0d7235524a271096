//! 24-bit colours and the arithmetic that lighting needs.

use vstd::prelude::*;

verus! {

/// A colour of three 8-bit channels.
#[derive(Clone, Copy, Debug, PartialEq, Eq, Structural)]
pub struct Rgb24 {
    pub r: u8,
    pub g: u8,
    pub b: u8,
}

/// The sum of two channel values, held at 255.
pub open spec fn saturating_sum(a: u8, b: u8) -> u8 {
    if a + b > 255 {
        255u8
    } else {
        (a + b) as u8
    }
}

/// `channel * num / max(1, divisor)`, held at 255.
pub open spec fn scaled_channel(channel: u8, num: u32, divisor: int) -> u8 {
    let d = if divisor < 1 {
        1
    } else {
        divisor
    };
    let q = (channel * num) / d;
    if q > 255 {
        255u8
    } else {
        q as u8
    }
}

/// A channel scaled by a smaller divisor is at least as bright.
pub proof fn lemma_scaled_channel_monotone(channel: u8, num: u32, near: int, far: int)
    requires
        near <= far,
    ensures
        scaled_channel(channel, num, near) >= scaled_channel(channel, num, far),
{
    let dn = if near < 1 {
        1
    } else {
        near
    };
    let df = if far < 1 {
        1
    } else {
        far
    };
    let a = channel * num;
    vstd::arithmetic::div_mod::lemma_div_is_ordered_by_denominator(a, dn, df);
    vstd::arithmetic::div_mod::lemma_div_pos_is_pos(a, df);
}

impl Rgb24 {
    pub fn new(r: u8, g: u8, b: u8) -> (c: Rgb24)
        ensures
            c == (Rgb24 { r, g, b }),
    {
        Rgb24 { r, g, b }
    }

    pub open spec fn black_spec() -> Rgb24 {
        Rgb24 { r: 0, g: 0, b: 0 }
    }

    /// The colour of an unlit cell.
    pub fn black() -> (c: Rgb24)
        ensures
            c == Rgb24::black_spec(),
    {
        Rgb24 { r: 0, g: 0, b: 0 }
    }

    /// The grey whose three channels are `level`.
    pub fn grey(level: u8) -> (c: Rgb24)
        ensures
            c == (Rgb24 { r: level, g: level, b: level }),
    {
        Rgb24 { r: level, g: level, b: level }
    }

    pub fn is_black(self) -> (r: bool)
        ensures
            r == (self == Rgb24::black_spec()),
    {
        self.r == 0 && self.g == 0 && self.b == 0
    }

    pub open spec fn saturating_add_spec(self, other: Rgb24) -> Rgb24 {
        Rgb24 {
            r: saturating_sum(self.r, other.r),
            g: saturating_sum(self.g, other.g),
            b: saturating_sum(self.b, other.b),
        }
    }

    /// The channel-wise sum, each channel held at 255.
    pub fn saturating_add(self, other: Rgb24) -> (c: Rgb24)
        ensures
            c == self.saturating_add_spec(other),
    {
        Rgb24 {
            r: sat_add(self.r, other.r),
            g: sat_add(self.g, other.g),
            b: sat_add(self.b, other.b),
        }
    }

    pub open spec fn scaled_spec(self, num: u32, divisor: int) -> Rgb24 {
        Rgb24 {
            r: scaled_channel(self.r, num, divisor),
            g: scaled_channel(self.g, num, divisor),
            b: scaled_channel(self.b, num, divisor),
        }
    }

    /// Each channel multiplied by `num` and divided by `max(1, divisor)`,
    /// held at 255.
    pub fn scaled(self, num: u32, divisor: u128) -> (c: Rgb24)
        ensures
            c == self.scaled_spec(num, divisor as int),
    {
        Rgb24 {
            r: scale(self.r, num, divisor),
            g: scale(self.g, num, divisor),
            b: scale(self.b, num, divisor),
        }
    }

    /// Whether no channel of `self` is darker than that channel of `other`.
    pub open spec fn at_least(self, other: Rgb24) -> bool {
        self.r >= other.r && self.g >= other.g && self.b >= other.b
    }
}

fn sat_add(a: u8, b: u8) -> (r: u8)
    ensures
        r == saturating_sum(a, b),
{
    let s: u16 = a as u16 + b as u16;
    if s > 255 {
        255
    } else {
        s as u8
    }
}

fn scale(channel: u8, num: u32, divisor: u128) -> (r: u8)
    ensures
        r == scaled_channel(channel, num, divisor as int),
{
    let d: u128 = if divisor < 1 {
        1
    } else {
        divisor
    };
    assert(channel * num <= 255 * 0xffff_ffff) by (nonlinear_arith)
        requires
            channel <= 255,
            num <= 0xffff_ffff,
    ;
    let q: u128 = (channel as u128 * num as u128) / d;
    if q > 255 {
        255
    } else {
        q as u8
    }
}

} // verus!
