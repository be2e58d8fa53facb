//! Colouring iteration counts by hue: HSL with full saturation and half lightness.
use vstd::prelude::*;

verus! {

/// The channel that rises or falls within a 60-degree segment of the hue circle,
/// out of 255: `255 * (1 - |(hue / 60) mod 2 - 1|)`, rounded down.
pub open spec fn ramp(hue: int) -> int {
    let t = hue % 120;
    let d = if t >= 60 {
        t - 60
    } else {
        60 - t
    };
    (60 - d) * 255 / 60
}

/// Red, green and blue of HSL(`hue`, 1, 0.5), for `hue` in `0..360`: six
/// 60-degree segments, in each one channel full, one empty and one ramping.
pub open spec fn hue_channels(hue: int) -> (int, int, int) {
    let x = ramp(hue);
    if hue < 60 {
        (255, x, 0)
    } else if hue < 120 {
        (x, 255, 0)
    } else if hue < 180 {
        (0, 255, x)
    } else if hue < 240 {
        (0, x, 255)
    } else if hue < 300 {
        (x, 0, 255)
    } else {
        (255, 0, x)
    }
}

/// The colour of `hue`, taken modulo 360; when `inverted`, each channel is
/// replaced by 255 less it.
pub open spec fn hue_colour(hue: u16, inverted: bool) -> (u8, u8, u8) {
    let c = hue_channels(hue as int % 360);
    if inverted {
        ((255 - c.0) as u8, (255 - c.1) as u8, (255 - c.2) as u8)
    } else {
        (c.0 as u8, c.1 as u8, c.2 as u8)
    }
}

/// The colour of `hue` (modulo 360) at full saturation and half lightness,
/// or its channel-wise inverse.
pub fn hue_to_rgb(hue: u16, inverted: bool) -> (r: (u8, u8, u8))
    ensures
        r == hue_colour(hue, inverted),
{
    let h: u32 = (hue % 360) as u32;
    let t: u32 = h % 120;
    let d: u32 = if t >= 60 {
        t - 60
    } else {
        60 - t
    };
    let x: u32 = (60 - d) * 255 / 60;
    assert(x <= 255) by (nonlinear_arith)
        requires
            d <= 60,
            x == (60 - d) * 255 / 60,
    ;
    let (rc, gc, bc): (u32, u32, u32) = if h < 60 {
        (255, x, 0)
    } else if h < 120 {
        (x, 255, 0)
    } else if h < 180 {
        (0, 255, x)
    } else if h < 240 {
        (0, x, 255)
    } else if h < 300 {
        (x, 0, 255)
    } else {
        (255, 0, x)
    };
    if inverted {
        ((255 - rc) as u8, (255 - gc) as u8, (255 - bc) as u8)
    } else {
        (rc as u8, gc as u8, bc as u8)
    }
}

/// The colour that the renderer gives an escape after `hue` iterations: the
/// inverse of HSL(`hue` mod 360, 1, 0.5).
pub fn hsl_to_rgb(hue: u16) -> (r: (u8, u8, u8))
    ensures
        r == hue_colour(hue, true),
{
    hue_to_rgb(hue, true)
}

/// Hues that differ by a full turn get the same colour.
pub proof fn hue_period(hue: u16, inverted: bool)
    requires
        hue + 360 <= u16::MAX,
    ensures
        hue_colour((hue + 360) as u16, inverted) == hue_colour(hue, inverted),
{
    assert((hue + 360) % 360 == hue % 360);
}

} // verus!
