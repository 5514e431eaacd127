//! Colours driven onto the status LED: the sound-meter colour of a decision,
//! the rainbow sweep of the periodic light task, and the names of hues.
//! The colour-space work is smart-leds' (`hsv2rgb`, `gamma`, `brightness`).
use vstd::prelude::*;
use smart_leds::hsv::{hsv2rgb, Hsv};
use smart_leds::{brightness, gamma, RGB8};

verus! {

/// A colour as red, green and blue intensities.
#[derive(Clone, Copy, Debug, PartialEq, Eq, Structural)]
pub struct Rgb {
    pub r: u8,
    pub g: u8,
    pub b: u8,
}

/// Brightness cap of the sound-meter light.
pub const METER_BRIGHTNESS: u8 = 150;

/// Brightness cap of the rainbow sweep of the periodic light task.
pub const SWEEP_BRIGHTNESS: u8 = 50;

/// Hue stride between two ticks of the rainbow sweep.
pub const SWEEP_STRIDE: u8 = 4;

/// Colour that smart-leds' `hsv2rgb` gives for a hue, saturation and value.
pub uninterp spec fn hsv_to_rgb(hue: u8, sat: u8, val: u8) -> Rgb;

/// Entry of smart-leds' gamma-correction table for one channel level.
pub uninterp spec fn gamma_level(c: u8) -> u8;

/// A colour with each channel gamma-corrected.
pub open spec fn gamma_rgb(c: Rgb) -> Rgb {
    Rgb { r: gamma_level(c.r), g: gamma_level(c.g), b: gamma_level(c.b) }
}

/// One channel scaled to the brightness cap `level`: `c * (level + 1) / 256`.
pub open spec fn dim_level(c: u8, level: u8) -> u8 {
    ((c as int) * (level as int + 1) / 256) as u8
}

/// A colour scaled to the brightness cap `level`.
pub open spec fn dim_rgb(c: Rgb, level: u8) -> Rgb {
    Rgb { r: dim_level(c.r, level), g: dim_level(c.g, level), b: dim_level(c.b, level) }
}

/// Relies on smart_leds::hsv::hsv2rgb: its result depends on the three
/// components alone, and with zero saturation every channel equals the value.
#[verifier::external_body]
fn hsv_rgb(hue: u8, sat: u8, val: u8) -> (r: Rgb)
    ensures
        r == hsv_to_rgb(hue, sat, val),
        sat == 0 ==> (r == Rgb { r: val, g: val, b: val }),
{
    let o = hsv2rgb(Hsv { hue, sat, val });
    Rgb { r: o.r, g: o.g, b: o.b }
}

/// Relies on smart_leds::gamma: each channel is looked up in one fixed
/// table, whose first entry is 0 and whose last entry is 255.
#[verifier::external_body]
fn gamma_correct(c: Rgb) -> (r: Rgb)
    ensures
        r.r == gamma_level(c.r),
        r.g == gamma_level(c.g),
        r.b == gamma_level(c.b),
        c.r == 0 ==> r.r == 0,
        c.g == 0 ==> r.g == 0,
        c.b == 0 ==> r.b == 0,
        c.r == 255 ==> r.r == 255,
        c.g == 255 ==> r.g == 255,
        c.b == 255 ==> r.b == 255,
{
    let o = gamma([RGB8 { r: c.r, g: c.g, b: c.b }].into_iter()).next().unwrap_or_default();
    Rgb { r: o.r, g: o.g, b: o.b }
}

/// Relies on smart_leds::brightness: each channel becomes
/// `c * (level + 1) / 256`.
#[verifier::external_body]
fn scale_brightness(c: Rgb, level: u8) -> (r: Rgb)
    ensures
        r == dim_rgb(c, level),
{
    let o = brightness([RGB8 { r: c.r, g: c.g, b: c.b }].into_iter(), level).next()
        .unwrap_or_default();
    Rgb { r: o.r, g: o.g, b: o.b }
}

/// Colour of the sound meter for a decision: white at the meter's brightness
/// cap when sound is present, dark otherwise.
pub fn meter_color(active: bool) -> (r: Rgb)
    ensures
        r == (if active {
            Rgb { r: 150, g: 150, b: 150 }
        } else {
            Rgb { r: 0, g: 0, b: 0 }
        }),
{
    let val: u8 = if active {
        255
    } else {
        0
    };
    let base = hsv_rgb(0, 0, val);
    let corrected = gamma_correct(base);
    let r = scale_brightness(corrected, METER_BRIGHTNESS);
    assert(255 * 151 / 256 == 150);
    r
}

/// Fully saturated colour of `hue`, gamma-corrected, at brightness cap
/// `level`.
pub fn rainbow_color(hue: u8, level: u8) -> (r: Rgb)
    ensures
        r == dim_rgb(gamma_rgb(hsv_to_rgb(hue, 255, 255)), level),
{
    let base = hsv_rgb(hue, 255, 255);
    let corrected = gamma_correct(base);
    scale_brightness(corrected, level)
}

/// Hue that follows `hue` in a sweep of stride `stride`: the sweep restarts
/// at 0 once it would pass 255.
pub fn next_hue(hue: u8, stride: u8) -> (r: u8)
    requires
        stride > 0,
    ensures
        r == (if hue as int + stride as int > 255 {
            0
        } else {
            hue as int + stride as int
        }),
{
    if stride > 255 - hue {
        0
    } else {
        hue + stride
    }
}

/// State of the periodic rainbow light: the hue shown at the next tick, the
/// stride between ticks and the brightness cap.
pub struct RainbowSweep {
    hue: u8,
    stride: u8,
    level: u8,
}

impl RainbowSweep {
    /// Hue shown at the next tick.
    pub closed spec fn hue_spec(&self) -> u8 {
        self.hue
    }

    /// Hue stride between ticks.
    pub closed spec fn stride_spec(&self) -> u8 {
        self.stride
    }

    /// Brightness cap.
    pub closed spec fn level_spec(&self) -> u8 {
        self.level
    }

    /// A sweep starting at hue 0.
    pub fn new(stride: u8, level: u8) -> (r: RainbowSweep)
        requires
            stride > 0,
        ensures
            r.hue_spec() == 0,
            r.stride_spec() == stride,
            r.level_spec() == level,
    {
        RainbowSweep { hue: 0, stride, level }
    }

    /// One tick: the colour to show now and the name of its hue band; the
    /// sweep moves on by one stride, restarting at 0 past hue 255.
    pub fn tick(&mut self) -> (r: (Rgb, &'static str))
        requires
            old(self).stride_spec() > 0,
        ensures
            r.0 == dim_rgb(
                gamma_rgb(hsv_to_rgb(old(self).hue_spec(), 255, 255)),
                old(self).level_spec(),
            ),
            r.1@ == color_name(old(self).hue_spec()),
            final(self).stride_spec() == old(self).stride_spec(),
            final(self).level_spec() == old(self).level_spec(),
            final(self).hue_spec() == (if old(self).hue_spec() as int + old(self).stride_spec() as int
                > 255 {
                0
            } else {
                old(self).hue_spec() as int + old(self).stride_spec() as int
            }),
    {
        let hue = self.hue;
        let c = rainbow_color(hue, self.level);
        let name = hue_to_color_name(hue);
        self.hue = next_hue(hue, self.stride);
        (c, name)
    }
}

/// Name of the colour band a hue falls in.
pub open spec fn color_name(hue: u8) -> Seq<char> {
    if hue <= 10 {
        "red"@
    } else if hue <= 40 {
        "orange"@
    } else if hue <= 70 {
        "yellow"@
    } else if hue <= 100 {
        "green"@
    } else if hue <= 130 {
        "cyan"@
    } else if hue <= 160 {
        "blue"@
    } else if hue <= 190 {
        "purple"@
    } else if hue <= 220 {
        "magenta"@
    } else {
        "red"@
    }
}

/// Name of the colour band a hue falls in.
pub fn hue_to_color_name(hue: u8) -> (r: &'static str)
    ensures
        r@ == color_name(hue),
{
    if hue <= 10 {
        "red"
    } else if hue <= 40 {
        "orange"
    } else if hue <= 70 {
        "yellow"
    } else if hue <= 100 {
        "green"
    } else if hue <= 130 {
        "cyan"
    } else if hue <= 160 {
        "blue"
    } else if hue <= 190 {
        "purple"
    } else if hue <= 220 {
        "magenta"
    } else {
        "red"
    }
}

} // verus!
