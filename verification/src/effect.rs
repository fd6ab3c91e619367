//! Effect engine: the configuration record shared by all effects, the
//! frame type, and the four concrete frame generators (solid fill, hue
//! rotation, traveling two-color gradient, per-pixel oscillators) behind
//! one configure/next protocol.
//!
//! Each effect owns its private animation state. `configure` re-derives
//! that state from a fresh [`Params`] record and may be called repeatedly
//! without recreating the instance; `next` produces the next frame and
//! advances the animation phase. Every effect but [`Solid`] produces an
//! infinite sequence of frames; [`Solid`] produces exactly one frame and
//! is then exhausted until it is reconfigured.

use vstd::prelude::*;
use crate::color::RGB;
use crate::color::CIELUV;
use crate::color::HCL;
use crate::color::rgb_wf;
use crate::color::cieluv_wf;
use crate::color::spec_hcl_to_rgb;
use crate::color::spec_rgb_to_cieluv;
use crate::color::spec_cieluv_to_rgb;
use crate::color::spec_interpolate;
use crate::fixed::SCALE;
use crate::fixed::DEG_FULL;
use crate::fixed::ANGLE_STEP_MAX;
use crate::fixed::spec_lerp;
use crate::fixed::spec_sin_deg;
use crate::fixed::spec_div_trunc;
use crate::fixed::lerp;
use crate::fixed::add_angle;
use crate::fixed::div_trunc;
use crate::fixed::lemma_fmul_in_hull;

verus! {

/// Largest strip length an effect accepts.
pub const STRIP_MAX: usize = 100_000;

/// Rainbow hue velocity upper bound: 0.6 degrees per frame at scale.
pub const RAINBOW_VELOCITY_MAX: i64 = 6_000_000;

/// Gradient phase velocity upper bound: 0.33 degrees per frame at scale.
pub const GRADIENT_VELOCITY_MAX: i64 = 3_300_000;

/// Polyrhythm base velocity: one eighth of a degree per frame at scale.
pub const POLY_VELOCITY_UNIT: i64 = 1_250_000;

/// Global effect parameters.
///
/// One common record configures every effect; each effect uses as many of
/// the knobs as it needs. The numeric knobs range over `[0, 1]` at scale;
/// the two colors are full-range RGB values. The record is mutated only by
/// configuration events and read-only to effects during a frame.
#[derive(Clone, Copy, Debug, PartialEq, Eq, Structural)]
pub struct Params {
    pub color1: RGB,
    pub color2: RGB,
    pub chroma: i64,
    pub luminance: i64,
    pub size: i64,
    pub speed: i64,
}

/// A well-formed parameter record: colors in range, knobs in `[0, 1]` at
/// scale.
pub open spec fn params_wf(p: Params) -> bool {
    &&& rgb_wf(p.color1)
    &&& rgb_wf(p.color2)
    &&& 0 <= p.chroma <= SCALE
    &&& 0 <= p.luminance <= SCALE
    &&& 0 <= p.size <= SCALE
    &&& 0 <= p.speed <= SCALE
}

/// The default parameter record: black colors, chroma and luminance 0.6,
/// size and speed 0.5, all at scale.
pub open spec fn spec_default_params() -> Params {
    Params {
        color1: RGB { r: 0, g: 0, b: 0 },
        color2: RGB { r: 0, g: 0, b: 0 },
        chroma: 6_000_000,
        luminance: 6_000_000,
        size: 5_000_000,
        speed: 5_000_000,
    }
}

impl Default for Params {
    /// The default parameter record.
    fn default() -> (r: Params)
        ensures
            r == spec_default_params(),
            params_wf(r),
    {
        Params {
            color1: RGB { r: 0, g: 0, b: 0 },
            color2: RGB { r: 0, g: 0, b: 0 },
            chroma: 6_000_000,
            luminance: 6_000_000,
            size: 5_000_000,
            speed: 5_000_000,
        }
    }
}

/// One pixel of the wire format: 8-bit red, green and blue.
#[derive(Clone, Copy, Debug, PartialEq, Eq, Structural)]
pub struct RGB8 {
    pub r: u8,
    pub g: u8,
    pub b: u8,
}

/// An RGB channel value rounded to the nearest 8-bit wire value.
pub open spec fn spec_channel_to_u8(c: int) -> int {
    (c + (SCALE as int) / 2) / (SCALE as int)
}

/// A fixed-length ordered sequence of RGB pixels: one frame of animation.
/// The producing effect owns it until it is handed to the transport.
#[derive(Debug, PartialEq, Eq)]
pub struct Strip {
    pub pixels: Vec<RGB>,
}

impl Strip {
    /// A strip of `n` copies of one pixel.
    pub fn fill(n: usize, pixel: RGB) -> (r: Strip)
        requires
            n <= STRIP_MAX,
        ensures
            r.pixels@.len() == n as int,
            forall|i: int| 0 <= i < n as int ==> r.pixels@[i] == pixel,
    {
        let mut pixels: Vec<RGB> = Vec::new();
        let mut i: usize = 0;
        while i < n
            invariant
                i <= n,
                pixels@.len() == i as int,
                forall|j: int| 0 <= j < i as int ==> pixels@[j] == pixel,
            decreases n - i,
        {
            pixels.push(pixel);
            i = i + 1;
        }
        Strip { pixels }
    }

    /// The wire form of the strip: every channel of every pixel rounded to
    /// its nearest 8-bit value.
    pub fn to_rgb8(&self) -> (r: Vec<RGB8>)
        requires
            forall|i: int| 0 <= i < self.pixels@.len() ==> rgb_wf(#[trigger] self.pixels@[i]),
        ensures
            r@.len() == self.pixels@.len(),
            forall|i: int|
                0 <= i < r@.len() ==> {
                    &&& (#[trigger] r@[i]).r as int == spec_channel_to_u8(self.pixels@[i].r as int)
                    &&& r@[i].g as int == spec_channel_to_u8(self.pixels@[i].g as int)
                    &&& r@[i].b as int == spec_channel_to_u8(self.pixels@[i].b as int)
                },
    {
        let mut out: Vec<RGB8> = Vec::new();
        let mut i: usize = 0;
        let n: usize = self.pixels.len();
        while i < n
            invariant
                i <= n,
                n as int == self.pixels@.len(),
                forall|k: int| 0 <= k < self.pixels@.len() ==> rgb_wf(#[trigger] self.pixels@[k]),
                out@.len() == i as int,
                forall|k: int|
                    0 <= k < i as int ==> {
                        &&& (#[trigger] out@[k]).r as int == spec_channel_to_u8(
                            self.pixels@[k].r as int,
                        )
                        &&& out@[k].g as int == spec_channel_to_u8(self.pixels@[k].g as int)
                        &&& out@[k].b as int == spec_channel_to_u8(self.pixels@[k].b as int)
                    },
            decreases n - i,
        {
            let p: RGB = self.pixels[i];
            out.push(
                RGB8 {
                    r: channel_to_u8(p.r),
                    g: channel_to_u8(p.g),
                    b: channel_to_u8(p.b),
                },
            );
            i = i + 1;
        }
        out
    }
}

/// One RGB channel rounded to the nearest 8-bit wire value.
fn channel_to_u8(c: i64) -> (r: u8)
    requires
        0 <= c <= crate::color::RGB_MAX,
    ensures
        r as int == spec_channel_to_u8(c as int),
{
    proof {
        vstd::arithmetic::div_mod::lemma_div_is_ordered(
            c as int + 5_000_000,
            2_555_000_000,
            SCALE as int,
        );
        vstd::arithmetic::div_mod::lemma_div_basics_4(c as int + 5_000_000, SCALE as int);
    }
    (((c + 5_000_000) as u64) / (SCALE as u64)) as u8
}

/// The selector for the four effect kinds, as the control channel names
/// them.
#[derive(Clone, Copy, Debug, PartialEq, Eq, Structural)]
pub enum Effect {
    Solid,
    Rainbow,
    Gradient,
    Polyrhythm,
}

/// One unit of control handed from the protocol adapter to the render
/// loop: either select another effect kind or re-configure the live one.
/// Produced by the protocol adapter, consumed exactly once by the render
/// loop.
#[derive(Clone, Copy, Debug, PartialEq, Eq, Structural)]
pub enum LedEffectCommand {
    ChangeEffect(Effect),
    ConfigureParams(Params),
}

/// A well-formed command carries a well-formed parameter record.
pub open spec fn command_wf(c: LedEffectCommand) -> bool {
    match c {
        LedEffectCommand::ChangeEffect(_) => true,
        LedEffectCommand::ConfigureParams(p) => params_wf(p),
    }
}

/// Solid color: produces exactly one frame of the configured color, then
/// signals end of sequence until reconfigured. A static strip does not
/// need repeated writes.
#[derive(Clone, Copy, Debug, PartialEq, Eq, Structural)]
pub struct Solid {
    /// Number of pixels on the strip.
    pub n: usize,
    /// The color of every pixel of the one produced frame.
    pub color: RGB,
    /// Whether the single frame has already been produced.
    pub finished: bool,
}

/// A well-formed solid effect: strip length in range, color in range.
pub open spec fn solid_wf(e: Solid) -> bool {
    &&& e.n <= STRIP_MAX
    &&& rgb_wf(e.color)
}

/// How one `configure` call transforms a solid effect: it adopts `color1`
/// and arms the single frame again.
pub open spec fn solid_configure_rel(pre: Solid, post: Solid, p: Params) -> bool {
    post == (Solid { n: pre.n, color: p.color1, finished: false })
}

/// How one `next` call transforms a solid effect: the one frame of the
/// configured color if it is still armed, end of sequence afterwards.
pub open spec fn solid_next_rel(pre: Solid, post: Solid, r: Option<Strip>) -> bool {
    if pre.finished {
        &&& r is None
        &&& post == pre
    } else {
        &&& post == (Solid { finished: true, ..pre })
        &&& r is Some
        &&& r->Some_0.pixels@.len() == pre.n as int
        &&& forall|i: int| 0 <= i < pre.n as int ==> r->Some_0.pixels@[i] == pre.color
    }
}

impl Solid {
    /// A fresh solid effect over `n` pixels showing `color`.
    pub fn new(n: usize, color: RGB) -> (r: Solid)
        requires
            n <= STRIP_MAX,
            rgb_wf(color),
        ensures
            r == (Solid { n, color, finished: false }),
    {
        Solid { n, color, finished: false }
    }

    /// Adopt `color1` and arm the single frame again.
    pub fn configure(&mut self, params: Params)
        requires
            params_wf(params),
            solid_wf(*old(self)),
        ensures
            solid_configure_rel(*old(self), *final(self), params),
            solid_wf(*final(self)),
    {
        self.color = params.color1;
        self.finished = false;
    }

    /// The single frame, or `None` once it has been produced.
    pub fn next(&mut self) -> (r: Option<Strip>)
        requires
            solid_wf(*old(self)),
        ensures
            solid_next_rel(*old(self), *final(self), r),
            solid_wf(*final(self)),
    {
        if self.finished {
            return None;
        }
        self.finished = true;
        Some(Strip::fill(self.n, self.color))
    }
}

/// Hue rotation: circles through the HCL color space so the strip shows a
/// rainbow that drifts along the hue wheel.
#[derive(Clone, Copy, Debug, PartialEq, Eq, Structural)]
pub struct Rainbow {
    /// Number of pixels on the strip.
    pub n: usize,
    /// Chroma of every pixel, in `[0, 1]` at scale.
    pub chroma: i64,
    /// Luminance of every pixel, in `[0, 1]` at scale.
    pub luminance: i64,
    /// Current hue phase, in fixed-point degrees below one turn.
    pub degrees: i64,
    /// Hue advance per frame, in fixed-point degrees.
    pub degree_velocity: i64,
    /// Hue separation between neighboring pixels, in fixed-point degrees:
    /// spreads the spectrum across the strip.
    pub separation: i64,
}

/// A well-formed rainbow effect: phase below one turn, velocity within its
/// policy bound, separation small enough that the last pixel stays within
/// one extra turn.
pub open spec fn rainbow_wf(e: Rainbow) -> bool {
    &&& 1 <= e.n <= STRIP_MAX
    &&& 0 <= e.chroma <= SCALE
    &&& 0 <= e.luminance <= SCALE
    &&& 0 <= e.degrees < DEG_FULL
    &&& 0 <= e.degree_velocity <= RAINBOW_VELOCITY_MAX
    &&& 0 <= e.separation
    &&& e.separation * (e.n as int) <= DEG_FULL as int
}

/// The hue of pixel `i`: the phase plus `i` separations, wrapped.
pub open spec fn spec_rainbow_hue(e: Rainbow, i: int) -> int {
    (e.degrees as int + e.separation as int * i) % (DEG_FULL as int)
}

/// The color of pixel `i` of the next rainbow frame.
pub open spec fn spec_rainbow_pixel(e: Rainbow, i: int) -> RGB {
    spec_hcl_to_rgb(
        HCL { h: spec_rainbow_hue(e, i) as i64, c: e.chroma, l: e.luminance },
    )
}

/// How one `configure` call transforms a rainbow: chroma and luminance
/// copy over, `speed` maps linearly onto the hue velocity, `size` maps
/// linearly onto the pixel separation (`size = 1` gives separation 0, the
/// whole strip one hue; `size = 0` spreads the full spectrum across the
/// strip), and in-flight phase progress is discarded: configuration is a
/// full reset, not incremental.
pub open spec fn rainbow_configure_rel(pre: Rainbow, post: Rainbow, p: Params) -> bool {
    post == (Rainbow {
        n: pre.n,
        degrees: 0,
        chroma: p.chroma,
        luminance: p.luminance,
        degree_velocity: spec_lerp(0, RAINBOW_VELOCITY_MAX as int, p.speed as int) as i64,
        separation: spec_lerp(
            0,
            spec_div_trunc(DEG_FULL as int, pre.n as int),
            (SCALE - p.size) as int,
        ) as i64,
    })
}

/// How one `next` call transforms a rainbow: pixel `i` of the frame takes
/// the HCL color at the phase plus `i` separations, and the phase advances
/// by the velocity, wrapping at a full turn.
pub open spec fn rainbow_next_rel(pre: Rainbow, post: Rainbow, r: Strip) -> bool {
    &&& r.pixels@.len() == pre.n as int
    &&& (forall|i: int| 0 <= i < pre.n as int ==> r.pixels@[i] == spec_rainbow_pixel(pre, i))
    &&& post == (Rainbow {
        degrees: ((pre.degrees + pre.degree_velocity) % (DEG_FULL as int)) as i64,
        ..pre
    })
}

impl Rainbow {
    /// A fresh rainbow over `n` pixels, at phase zero and standing still
    /// until configured.
    pub fn new(n: usize) -> (r: Rainbow)
        requires
            1 <= n <= STRIP_MAX,
        ensures
            r == (Rainbow {
                n,
                chroma: 0,
                luminance: 0,
                degrees: 0,
                degree_velocity: 0,
                separation: 0,
            }),
            rainbow_wf(r),
    {
        Rainbow { n, chroma: 0, luminance: 0, degrees: 0, degree_velocity: 0, separation: 0 }
    }

    /// Re-derive chroma, luminance, hue velocity and pixel separation from
    /// a fresh parameter record, and discard the in-flight phase. `speed`
    /// maps linearly onto `[0, RAINBOW_VELOCITY_MAX]`; `size` maps
    /// linearly onto a separation between a full spectrum across the
    /// strip (`size = 0`) and a single hue for the whole strip
    /// (`size = 1`).
    pub fn configure(&mut self, params: Params)
        requires
            params_wf(params),
            rainbow_wf(*old(self)),
        ensures
            rainbow_configure_rel(*old(self), *final(self), params),
            rainbow_wf(*final(self)),
    {
        self.degrees = 0;
        self.chroma = params.chroma;
        self.luminance = params.luminance;
        proof {
            lemma_fmul_in_hull(params.speed as int, RAINBOW_VELOCITY_MAX as int);
        }
        self.degree_velocity = lerp(0, RAINBOW_VELOCITY_MAX, params.speed);
        let full_spread: i64 = div_trunc(DEG_FULL, self.n as i64);
        proof {
            lemma_fmul_in_hull((SCALE - params.size) as int, full_spread as int);
            lemma_div_mul_le(DEG_FULL as int, self.n as int);
        }
        self.separation = lerp(0, full_spread, SCALE - params.size);
        proof {
            vstd::arithmetic::mul::lemma_mul_inequality(
                self.separation as int,
                full_spread as int,
                self.n as int,
            );
        }
    }

    /// The next frame: pixel `i` takes the HCL color at the current phase
    /// plus `i` separations, then the phase advances by the velocity.
    pub fn next(&mut self) -> (r: Strip)
        requires
            rainbow_wf(*old(self)),
        ensures
            rainbow_next_rel(*old(self), *final(self), r),
            rainbow_wf(*final(self)),
    {
        let n: usize = self.n;
        let mut pixels: Vec<RGB> = Vec::new();
        let mut i: usize = 0;
        while i < n
            invariant
                i <= n,
                rainbow_wf(*self),
                n == self.n,
                pixels@.len() == i as int,
                forall|j: int| 0 <= j < i as int ==> pixels@[j] == spec_rainbow_pixel(*self, j),
            decreases n - i,
        {
            proof {
                vstd::arithmetic::mul::lemma_mul_inequality(
                    i as int,
                    self.n as int,
                    self.separation as int,
                );
                vstd::arithmetic::mul::lemma_mul_nonnegative(self.separation as int, i as int);
                assert(self.separation as int * (i as int) == (i as int)
                    * (self.separation as int)) by (nonlinear_arith);
            }
            let h: i64 = add_angle(self.degrees, self.separation * (i as i64));
            let pixel: RGB = HCL { h, c: self.chroma, l: self.luminance }.to_rgb();
            pixels.push(pixel);
            i = i + 1;
        }
        self.degrees = add_angle(self.degrees, self.degree_velocity);
        Strip { pixels }
    }
}

/// A quotient times its divisor does not exceed the dividend, for
/// nonnegative dividends.
proof fn lemma_div_mul_le(a: int, n: int)
    requires
        0 <= a,
        1 <= n,
    ensures
        (a / n) * n <= a,
        0 <= a / n,
{
    vstd::arithmetic::div_mod::lemma_fundamental_div_mod(a, n);
    vstd::arithmetic::div_mod::lemma_mod_bound(a, n);
    vstd::arithmetic::div_mod::lemma_div_basics_4(a, n);
    assert(n * (a / n) == (a / n) * n) by (nonlinear_arith);
}

/// The sine amplitude `[-1, 1]` translated to an interpolation factor in
/// `[0, 1]`, all at scale.
pub open spec fn spec_amplitude_factor(a: int) -> int {
    ((SCALE as int) + a) / 2
}

/// Translate a sine amplitude into an interpolation factor.
pub fn amplitude_to_factor(a: i64) -> (r: i64)
    requires
        -SCALE <= a <= SCALE,
    ensures
        r as int == spec_amplitude_factor(a as int),
        0 <= r <= SCALE,
{
    (((SCALE + a) as u64) / 2) as i64
}

/// Traveling two-color gradient: each pixel blends between the two
/// configured colors by the sine of its own phase, so a wave of the second
/// color travels across a bed of the first.
#[derive(Clone, Copy, Debug, PartialEq, Eq, Structural)]
pub struct Gradient {
    /// Number of pixels on the strip.
    pub n: usize,
    /// CIELUV endpoint the blend starts from.
    pub start_color: CIELUV,
    /// CIELUV endpoint the blend runs to.
    pub end_color: CIELUV,
    /// Current global phase, in fixed-point degrees below one turn.
    pub angle: i64,
    /// Phase advance per frame, in fixed-point degrees.
    pub angular_velocity: i64,
    /// Phase separation between neighboring pixels, in fixed-point
    /// degrees: the amount of color difference from one pixel to the next.
    pub spread: i64,
}

/// A well-formed gradient effect.
pub open spec fn gradient_wf(e: Gradient) -> bool {
    &&& 1 <= e.n <= STRIP_MAX
    &&& cieluv_wf(e.start_color)
    &&& cieluv_wf(e.end_color)
    &&& 0 <= e.angle < DEG_FULL
    &&& 0 <= e.angular_velocity <= GRADIENT_VELOCITY_MAX
    &&& 0 <= e.spread
    &&& e.spread * (e.n as int) <= DEG_FULL as int
}

/// The phase of pixel `i`: the global phase plus `i` spreads, wrapped.
pub open spec fn spec_gradient_phase(e: Gradient, i: int) -> int {
    (e.angle as int + e.spread as int * i) % (DEG_FULL as int)
}

/// The color of pixel `i` of the next gradient frame: the sine of its
/// phase, translated to `[0, 1]`, blends the two CIELUV endpoints.
pub open spec fn spec_gradient_pixel(e: Gradient, i: int) -> RGB {
    spec_cieluv_to_rgb(
        spec_interpolate(
            e.start_color,
            e.end_color,
            spec_amplitude_factor(spec_sin_deg(spec_gradient_phase(e, i))),
        ),
    )
}

/// How one `configure` call transforms a gradient: the two colors convert
/// to CIELUV endpoints, `speed` maps linearly onto the phase velocity,
/// `size` maps linearly onto the pixel spread (the same policy as the
/// rainbow, with this effect's own velocity bound), and in-flight phase
/// progress is discarded: configuration is a full reset, not incremental.
pub open spec fn gradient_configure_rel(pre: Gradient, post: Gradient, p: Params) -> bool {
    post == (Gradient {
        n: pre.n,
        angle: 0,
        start_color: spec_rgb_to_cieluv(p.color1),
        end_color: spec_rgb_to_cieluv(p.color2),
        angular_velocity: spec_lerp(0, GRADIENT_VELOCITY_MAX as int, p.speed as int) as i64,
        spread: spec_lerp(
            0,
            spec_div_trunc(DEG_FULL as int, pre.n as int),
            (SCALE - p.size) as int,
        ) as i64,
    })
}

/// How one `next` call transforms a gradient: pixel `i` of the frame
/// blends the endpoints by the sine of its phase, and the global phase
/// advances by the velocity, wrapping at a full turn.
pub open spec fn gradient_next_rel(pre: Gradient, post: Gradient, r: Strip) -> bool {
    &&& r.pixels@.len() == pre.n as int
    &&& (forall|i: int| 0 <= i < pre.n as int ==> r.pixels@[i] == spec_gradient_pixel(pre, i))
    &&& post == (Gradient {
        angle: ((pre.angle + pre.angular_velocity) % (DEG_FULL as int)) as i64,
        ..pre
    })
}

impl Gradient {
    /// A fresh gradient over `n` pixels, black and standing still until
    /// configured.
    pub fn new(n: usize) -> (r: Gradient)
        requires
            1 <= n <= STRIP_MAX,
        ensures
            r == (Gradient {
                n,
                start_color: CIELUV { l: 0, u: 0, v: 0 },
                end_color: CIELUV { l: 0, u: 0, v: 0 },
                angle: 0,
                angular_velocity: 0,
                spread: 0,
            }),
            gradient_wf(r),
    {
        Gradient {
            n,
            start_color: CIELUV { l: 0, u: 0, v: 0 },
            end_color: CIELUV { l: 0, u: 0, v: 0 },
            angle: 0,
            angular_velocity: 0,
            spread: 0,
        }
    }

    /// Re-derive the CIELUV endpoints, phase velocity and pixel spread
    /// from a fresh parameter record, and discard the in-flight phase.
    pub fn configure(&mut self, params: Params)
        requires
            params_wf(params),
            gradient_wf(*old(self)),
        ensures
            gradient_configure_rel(*old(self), *final(self), params),
            gradient_wf(*final(self)),
    {
        self.angle = 0;
        self.start_color = params.color1.to_cieluv();
        self.end_color = params.color2.to_cieluv();
        proof {
            lemma_fmul_in_hull(params.speed as int, GRADIENT_VELOCITY_MAX as int);
        }
        self.angular_velocity = lerp(0, GRADIENT_VELOCITY_MAX, params.speed);
        let full_spread: i64 = div_trunc(DEG_FULL, self.n as i64);
        proof {
            lemma_fmul_in_hull((SCALE - params.size) as int, full_spread as int);
            lemma_div_mul_le(DEG_FULL as int, self.n as int);
        }
        self.spread = lerp(0, full_spread, SCALE - params.size);
        proof {
            vstd::arithmetic::mul::lemma_mul_inequality(
                self.spread as int,
                full_spread as int,
                self.n as int,
            );
        }
    }

    /// The next frame: pixel `i` blends the two endpoints by the sine of
    /// its phase, then the global phase advances by the velocity.
    pub fn next(&mut self) -> (r: Strip)
        requires
            gradient_wf(*old(self)),
        ensures
            gradient_next_rel(*old(self), *final(self), r),
            gradient_wf(*final(self)),
    {
        let n: usize = self.n;
        let mut pixels: Vec<RGB> = Vec::new();
        let mut i: usize = 0;
        while i < n
            invariant
                i <= n,
                gradient_wf(*self),
                n == self.n,
                pixels@.len() == i as int,
                forall|j: int| 0 <= j < i as int ==> pixels@[j] == spec_gradient_pixel(*self, j),
            decreases n - i,
        {
            proof {
                vstd::arithmetic::mul::lemma_mul_inequality(
                    i as int,
                    self.n as int,
                    self.spread as int,
                );
                vstd::arithmetic::mul::lemma_mul_nonnegative(self.spread as int, i as int);
                assert(self.spread as int * (i as int) == (i as int) * (self.spread as int))
                    by (nonlinear_arith);
            }
            let ang: i64 = add_angle(self.angle, self.spread * (i as i64));
            let amplitude: i64 = amplitude_to_factor(crate::fixed::sin_deg(ang));
            let blended: CIELUV = self.start_color.interpolate(&self.end_color, amplitude);
            pixels.push(blended.to_rgb());
            i = i + 1;
        }
        self.angle = add_angle(self.angle, self.angular_velocity);
        Strip { pixels }
    }
}

/// One independent oscillator: an angle that advances by its own velocity
/// each frame, whose sine fades a pixel in and out.
#[derive(Clone, Copy, Debug, PartialEq, Eq, Structural)]
pub struct Spinner {
    /// Phase advance per frame, in fixed-point degrees.
    pub angular_velocity: i64,
    /// Current phase, in fixed-point degrees below one turn.
    pub angle: i64,
}

/// A well-formed spinner: phase below one turn, velocity nonnegative and
/// within the wrap-safe bound.
pub open spec fn spinner_wf(s: Spinner) -> bool {
    &&& 0 <= s.angle < DEG_FULL
    &&& 0 <= s.angular_velocity <= ANGLE_STEP_MAX
}

impl Spinner {
    /// Advance the phase by the velocity, wrapping at a full turn.
    pub fn increment(&mut self)
        requires
            spinner_wf(*old(self)),
        ensures
            final(self).angular_velocity == old(self).angular_velocity,
            final(self).angle as int == (old(self).angle + old(self).angular_velocity) % (
            DEG_FULL as int),
            spinner_wf(*final(self)),
    {
        self.angle = add_angle(self.angle, self.angular_velocity);
    }

    /// The sine of the current phase, at scale.
    pub fn amplitude(&self) -> (r: i64)
        requires
            spinner_wf(*self),
        ensures
            r as int == spec_sin_deg(self.angle as int),
            -SCALE <= r <= SCALE,
    {
        crate::fixed::sin_deg(self.angle)
    }
}

/// Per-pixel oscillators: pixel `i` fades between the two configured
/// colors with a sine wave of its own frequency, proportional to `i + 1`,
/// so the pixels drift in and out of phase with each other — a polyrhythm
/// of color pulses.
#[derive(Debug, PartialEq, Eq)]
pub struct Polyrhythm {
    /// Number of pixels on the strip.
    pub n: usize,
    /// One oscillator per pixel.
    pub spinners: Vec<Spinner>,
    /// CIELUV endpoint the blend starts from.
    pub start_color: CIELUV,
    /// CIELUV endpoint the blend runs to.
    pub end_color: CIELUV,
}

/// A well-formed polyrhythm effect: one well-formed spinner per pixel.
pub open spec fn polyrhythm_wf(e: Polyrhythm) -> bool {
    &&& 1 <= e.n <= STRIP_MAX
    &&& e.spinners@.len() == e.n as int
    &&& (forall|i: int| 0 <= i < e.n as int ==> spinner_wf(#[trigger] e.spinners@[i]))
    &&& cieluv_wf(e.start_color)
    &&& cieluv_wf(e.end_color)
}

/// The velocity pixel `i` receives from a `configure` with speed `speed`:
/// `speed` maps linearly onto `[0, (i + 1)` eighths of a degree`]`.
pub open spec fn spec_poly_velocity(i: int, speed: int) -> int {
    spec_lerp(0, (POLY_VELOCITY_UNIT as int) * (i + 1), speed)
}

/// The color of pixel `i` of the next polyrhythm frame: the sine of its
/// own oscillator, translated to `[0, 1]`, blends the two CIELUV
/// endpoints.
pub open spec fn spec_poly_pixel(e: Polyrhythm, i: int) -> RGB {
    spec_cieluv_to_rgb(
        spec_interpolate(
            e.start_color,
            e.end_color,
            spec_amplitude_factor(spec_sin_deg(e.spinners@[i].angle as int)),
        ),
    )
}

/// How one `configure` call transforms a polyrhythm: the two colors
/// convert to CIELUV endpoints and every oscillator gets its own velocity,
/// proportional to its index plus one; in-flight phase progress is
/// discarded: configuration is a full reset, not incremental.
pub open spec fn polyrhythm_configure_rel(pre: Polyrhythm, post: Polyrhythm, p: Params) -> bool {
    &&& post.n == pre.n
    &&& post.start_color == spec_rgb_to_cieluv(p.color1)
    &&& post.end_color == spec_rgb_to_cieluv(p.color2)
    &&& post.spinners@.len() == pre.spinners@.len()
    &&& (forall|i: int| 0 <= i < pre.spinners@.len() ==> (#[trigger] post.spinners@[i]).angle == 0)
    &&& (forall|i: int|
        0 <= i < pre.spinners@.len() ==> (#[trigger] post.spinners@[i]).angular_velocity as int
            == spec_poly_velocity(i, p.speed as int))
}

/// How one `next` call transforms a polyrhythm: pixel `i` of the frame
/// blends the endpoints by the sine of its own oscillator, and every
/// oscillator advances by its own velocity.
pub open spec fn polyrhythm_next_rel(pre: Polyrhythm, post: Polyrhythm, r: Strip) -> bool {
    &&& r.pixels@.len() == pre.n as int
    &&& (forall|i: int| 0 <= i < pre.n as int ==> r.pixels@[i] == spec_poly_pixel(pre, i))
    &&& post.n == pre.n
    &&& post.start_color == pre.start_color
    &&& post.end_color == pre.end_color
    &&& post.spinners@.len() == pre.spinners@.len()
    &&& (forall|i: int|
        0 <= i < pre.spinners@.len() ==> (#[trigger] post.spinners@[i]).angular_velocity
            == pre.spinners@[i].angular_velocity)
    &&& (forall|i: int|
        0 <= i < pre.spinners@.len() ==> (#[trigger] post.spinners@[i]).angle as int == (
        pre.spinners@[i].angle + pre.spinners@[i].angular_velocity) % (DEG_FULL as int))
}

impl Polyrhythm {
    /// A fresh polyrhythm over `n` pixels, black and standing still until
    /// configured.
    pub fn new(n: usize) -> (r: Polyrhythm)
        requires
            1 <= n <= STRIP_MAX,
        ensures
            r.n == n,
            r.spinners@.len() == n as int,
            forall|i: int|
                0 <= i < n as int ==> #[trigger] r.spinners@[i] == (Spinner {
                    angular_velocity: 0,
                    angle: 0,
                }),
            r.start_color == (CIELUV { l: 0, u: 0, v: 0 }),
            r.end_color == (CIELUV { l: 0, u: 0, v: 0 }),
            polyrhythm_wf(r),
    {
        let mut spinners: Vec<Spinner> = Vec::new();
        let mut i: usize = 0;
        while i < n
            invariant
                i <= n,
                spinners@.len() == i as int,
                forall|j: int|
                    0 <= j < i as int ==> #[trigger] spinners@[j] == (Spinner {
                        angular_velocity: 0,
                        angle: 0,
                    }),
            decreases n - i,
        {
            spinners.push(Spinner { angular_velocity: 0, angle: 0 });
            i = i + 1;
        }
        Polyrhythm {
            n,
            spinners,
            start_color: CIELUV { l: 0, u: 0, v: 0 },
            end_color: CIELUV { l: 0, u: 0, v: 0 },
        }
    }

    /// Re-derive the CIELUV endpoints and every oscillator's velocity from
    /// a fresh parameter record, and discard every oscillator's in-flight
    /// phase: oscillator `i` runs at `speed` scaled into
    /// `[0, (i + 1)` eighths of a degree per frame`]`, a distinct harmonic
    /// per pixel.
    pub fn configure(&mut self, params: Params)
        requires
            params_wf(params),
            polyrhythm_wf(*old(self)),
        ensures
            polyrhythm_configure_rel(*old(self), *final(self), params),
            polyrhythm_wf(*final(self)),
    {
        self.start_color = params.color1.to_cieluv();
        self.end_color = params.color2.to_cieluv();
        let n: usize = self.n;
        let mut i: usize = 0;
        while i < n
            invariant
                i <= n,
                n == self.n,
                params_wf(params),
                polyrhythm_wf(*self),
                self.n == old(self).n,
                self.spinners@.len() == old(self).spinners@.len(),
                forall|j: int|
                    i as int <= j < n as int ==> #[trigger] self.spinners@[j]
                        == old(self).spinners@[j],
                forall|j: int| 0 <= j < i as int ==> (#[trigger] self.spinners@[j]).angle == 0,
                forall|j: int|
                    0 <= j < i as int ==> (#[trigger] self.spinners@[j]).angular_velocity as int
                        == spec_poly_velocity(j, params.speed as int),
                self.start_color == spec_rgb_to_cieluv(params.color1),
                self.end_color == spec_rgb_to_cieluv(params.color2),
            decreases n - i,
        {
            let max_velocity: i64 = POLY_VELOCITY_UNIT * ((i as i64) + 1);
            proof {
                lemma_fmul_in_hull(params.speed as int, max_velocity as int);
            }
            let velocity: i64 = lerp(0, max_velocity, params.speed);
            self.spinners[i] = Spinner { angular_velocity: velocity, angle: 0 };
            i = i + 1;
        }
    }

    /// The next frame: pixel `i` blends the two endpoints by the sine of
    /// its own oscillator, then every oscillator advances by its own
    /// velocity.
    pub fn next(&mut self) -> (r: Strip)
        requires
            polyrhythm_wf(*old(self)),
        ensures
            polyrhythm_next_rel(*old(self), *final(self), r),
            polyrhythm_wf(*final(self)),
    {
        let n: usize = self.n;
        let mut pixels: Vec<RGB> = Vec::new();
        let mut i: usize = 0;
        while i < n
            invariant
                i <= n,
                n == self.n,
                polyrhythm_wf(*self),
                self.n == old(self).n,
                self.start_color == old(self).start_color,
                self.end_color == old(self).end_color,
                self.spinners@.len() == old(self).spinners@.len(),
                pixels@.len() == i as int,
                forall|j: int|
                    i as int <= j < n as int ==> #[trigger] self.spinners@[j]
                        == old(self).spinners@[j],
                forall|j: int|
                    0 <= j < i as int ==> (#[trigger] self.spinners@[j]).angular_velocity
                        == old(self).spinners@[j].angular_velocity,
                forall|j: int|
                    0 <= j < i as int ==> (#[trigger] self.spinners@[j]).angle as int == (old(
                    self).spinners@[j].angle + old(self).spinners@[j].angular_velocity) % (
                    DEG_FULL as int),
                forall|j: int| 0 <= j < i as int ==> pixels@[j] == spec_poly_pixel(*old(self), j),
            decreases n - i,
        {
            let amplitude: i64 = amplitude_to_factor(self.spinners[i].amplitude());
            let blended: CIELUV = self.start_color.interpolate(&self.end_color, amplitude);
            pixels.push(blended.to_rgb());
            self.spinners[i].increment();
            i = i + 1;
        }
        Strip { pixels }
    }
}

/// The live effect: a closed sum over the four effect kinds, each variant
/// holding that kind's private animation state inline. Swapping effects is
/// a plain value replacement; `configure` and `next` dispatch over the
/// tag.
#[derive(Debug, PartialEq, Eq)]
pub enum EffectInstance {
    Solid(Solid),
    Rainbow(Rainbow),
    Gradient(Gradient),
    Polyrhythm(Polyrhythm),
}

/// The kind tag of a live effect.
pub open spec fn spec_kind_of(e: EffectInstance) -> Effect {
    match e {
        EffectInstance::Solid(_) => Effect::Solid,
        EffectInstance::Rainbow(_) => Effect::Rainbow,
        EffectInstance::Gradient(_) => Effect::Gradient,
        EffectInstance::Polyrhythm(_) => Effect::Polyrhythm,
    }
}

/// The strip length a live effect produces frames for.
pub open spec fn spec_instance_len(e: EffectInstance) -> usize {
    match e {
        EffectInstance::Solid(s) => s.n,
        EffectInstance::Rainbow(r) => r.n,
        EffectInstance::Gradient(g) => g.n,
        EffectInstance::Polyrhythm(p) => p.n,
    }
}

/// A well-formed live effect: its state is well-formed for its kind.
pub open spec fn instance_wf(e: EffectInstance) -> bool {
    match e {
        EffectInstance::Solid(s) => solid_wf(s) && 1 <= s.n,
        EffectInstance::Rainbow(r) => rainbow_wf(r),
        EffectInstance::Gradient(g) => gradient_wf(g),
        EffectInstance::Polyrhythm(p) => polyrhythm_wf(p),
    }
}

/// A freshly constructed live effect of kind `kind` over `n` pixels:
/// default internal state, black colors, zero phases and velocities, the
/// solid frame armed.
pub open spec fn instance_fresh(e: EffectInstance, kind: Effect, n: usize) -> bool {
    match e {
        EffectInstance::Solid(s) => kind == Effect::Solid && s == (Solid {
            n,
            color: RGB { r: 0, g: 0, b: 0 },
            finished: false,
        }),
        EffectInstance::Rainbow(r) => kind == Effect::Rainbow && r == (Rainbow {
            n,
            chroma: 0,
            luminance: 0,
            degrees: 0,
            degree_velocity: 0,
            separation: 0,
        }),
        EffectInstance::Gradient(g) => kind == Effect::Gradient && g == (Gradient {
            n,
            start_color: CIELUV { l: 0, u: 0, v: 0 },
            end_color: CIELUV { l: 0, u: 0, v: 0 },
            angle: 0,
            angular_velocity: 0,
            spread: 0,
        }),
        EffectInstance::Polyrhythm(p) => {
            &&& kind == Effect::Polyrhythm
            &&& p.n == n
            &&& p.spinners@.len() == n as int
            &&& (forall|i: int|
                0 <= i < n as int ==> #[trigger] p.spinners@[i] == (Spinner {
                    angular_velocity: 0,
                    angle: 0,
                }))
            &&& p.start_color == (CIELUV { l: 0, u: 0, v: 0 })
            &&& p.end_color == (CIELUV { l: 0, u: 0, v: 0 })
        },
    }
}

/// How one `configure` call transforms a live effect: the variant's own
/// configuration relation, under an unchanged tag.
pub open spec fn instance_configure_rel(
    pre: EffectInstance,
    post: EffectInstance,
    p: Params,
) -> bool {
    match pre {
        EffectInstance::Solid(e) => post is Solid && solid_configure_rel(e, post->Solid_0, p),
        EffectInstance::Rainbow(e) => post is Rainbow && rainbow_configure_rel(
            e,
            post->Rainbow_0,
            p,
        ),
        EffectInstance::Gradient(e) => post is Gradient && gradient_configure_rel(
            e,
            post->Gradient_0,
            p,
        ),
        EffectInstance::Polyrhythm(e) => post is Polyrhythm && polyrhythm_configure_rel(
            e,
            post->Polyrhythm_0,
            p,
        ),
    }
}

/// How one `next` call transforms a live effect: the variant's own frame
/// relation, under an unchanged tag. Only the solid effect ever signals
/// end of sequence.
pub open spec fn instance_next_rel(
    pre: EffectInstance,
    post: EffectInstance,
    r: Option<Strip>,
) -> bool {
    match pre {
        EffectInstance::Solid(e) => post is Solid && solid_next_rel(e, post->Solid_0, r),
        EffectInstance::Rainbow(e) => post is Rainbow && r is Some && rainbow_next_rel(
            e,
            post->Rainbow_0,
            r->Some_0,
        ),
        EffectInstance::Gradient(e) => post is Gradient && r is Some && gradient_next_rel(
            e,
            post->Gradient_0,
            r->Some_0,
        ),
        EffectInstance::Polyrhythm(e) => post is Polyrhythm && r is Some && polyrhythm_next_rel(
            e,
            post->Polyrhythm_0,
            r->Some_0,
        ),
    }
}

impl EffectInstance {
    /// A fresh live effect of the requested kind over `n` pixels, with
    /// default internal state.
    pub fn new(kind: Effect, n: usize) -> (r: EffectInstance)
        requires
            1 <= n <= STRIP_MAX,
        ensures
            instance_fresh(r, kind, n),
            spec_kind_of(r) == kind,
            spec_instance_len(r) == n,
            instance_wf(r),
    {
        match kind {
            Effect::Solid => EffectInstance::Solid(Solid::new(n, RGB { r: 0, g: 0, b: 0 })),
            Effect::Rainbow => EffectInstance::Rainbow(Rainbow::new(n)),
            Effect::Gradient => EffectInstance::Gradient(Gradient::new(n)),
            Effect::Polyrhythm => EffectInstance::Polyrhythm(Polyrhythm::new(n)),
        }
    }

    /// The kind tag of this live effect.
    pub fn kind(&self) -> (k: Effect)
        ensures
            k == spec_kind_of(*self),
    {
        match self {
            EffectInstance::Solid(_) => Effect::Solid,
            EffectInstance::Rainbow(_) => Effect::Rainbow,
            EffectInstance::Gradient(_) => Effect::Gradient,
            EffectInstance::Polyrhythm(_) => Effect::Polyrhythm,
        }
    }

    /// Reconfigure the live effect in place from a fresh parameter record,
    /// without recreating it.
    pub fn configure(&mut self, params: Params)
        requires
            instance_wf(*old(self)),
            params_wf(params),
        ensures
            instance_configure_rel(*old(self), *final(self), params),
            spec_kind_of(*final(self)) == spec_kind_of(*old(self)),
            spec_instance_len(*final(self)) == spec_instance_len(*old(self)),
            instance_wf(*final(self)),
    {
        match self {
            EffectInstance::Solid(e) => e.configure(params),
            EffectInstance::Rainbow(e) => e.configure(params),
            EffectInstance::Gradient(e) => e.configure(params),
            EffectInstance::Polyrhythm(e) => e.configure(params),
        }
    }

    /// Produce the next frame and advance the animation phase, or signal
    /// end of sequence (the solid effect, once its frame is out).
    pub fn next(&mut self) -> (r: Option<Strip>)
        requires
            instance_wf(*old(self)),
        ensures
            instance_next_rel(*old(self), *final(self), r),
            spec_kind_of(*final(self)) == spec_kind_of(*old(self)),
            spec_instance_len(*final(self)) == spec_instance_len(*old(self)),
            instance_wf(*final(self)),
    {
        match self {
            EffectInstance::Solid(e) => e.next(),
            EffectInstance::Rainbow(e) => Some(e.next()),
            EffectInstance::Gradient(e) => Some(e.next()),
            EffectInstance::Polyrhythm(e) => Some(e.next()),
        }
    }
}

} // verus!
