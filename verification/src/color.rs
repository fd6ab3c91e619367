//! Color model: conversions and interpolation between the sRGB, CIE 1931
//! XYZ, CIELUV and cylindrical HCL color spaces.
//!
//! All coordinates are fixed-point `i64` values at [`SCALE`] (see
//! [`crate::fixed`]). Gradient interpolation is performed in CIELUV, where
//! linear steps track human-perceived color change far better than linear
//! RGB steps. Conversions between RGB and CIELUV always route through XYZ,
//! and between HCL and RGB through CIELUV, so there is a single source of
//! truth for the math.
//!
//! Conversions never fail. The divisions of the CIELUV math are guarded:
//! an all-zero (or degenerate nonpositive-denominator) input maps to the
//! all-zero output, and each quotient is clamped into a range that is far
//! wider than any value an in-range color can reach, so the clamps only
//! bite on degenerate inputs that would otherwise overflow the fixed-point
//! range.

use vstd::prelude::*;
use crate::fixed::SCALE;
use crate::fixed::spec_fmul;
use crate::fixed::spec_fdiv;
use crate::fixed::spec_clamp;
use crate::fixed::spec_div_trunc;
use crate::fixed::spec_lerp;
use crate::fixed::spec_pow_frac_up;
use crate::fixed::spec_pow_frac_down;
use crate::fixed::spec_sin_deg;
use crate::fixed::spec_cos_deg;
use crate::fixed::fmul;
use crate::fixed::fdiv_clamp;
use crate::fixed::clamp_i64;
use crate::fixed::div_trunc;
use crate::fixed::lerp;
use crate::fixed::sin_deg;
use crate::fixed::cos_deg;
use crate::fixed::pow_frac_up;
use crate::fixed::pow_frac_down;
use crate::fixed::lemma_fmul_in_hull;
use crate::fixed::lemma_fmul_bound;
use crate::fixed::lemma_lerp_in_hull;
use crate::fixed::DEG_FULL;

verus! {

/// Largest RGB channel value: 255 at scale.
pub const RGB_MAX: i64 = 255 * SCALE;

/// Bound on the magnitude of a well-formed XYZ coordinate.
pub const XYZ_ABS_MAX: i64 = 10_000 * SCALE;

/// Bound on the magnitude of a well-formed CIELUV coordinate.
pub const LUV_ABS_MAX: i64 = 1_000 * SCALE;

/// Clamp bound for the CIELUV lightness.
pub const L_CLAMP: i64 = 100 * SCALE;

/// Clamp bound for the intermediate chromaticity coordinates `u'`, `v'`.
pub const PRIME_CLAMP: i64 = 10 * SCALE;

/// Inverse-companding threshold: sRGB channels at or below 0.04045 are on
/// the linear segment.
pub const SRGB_LINEAR_MAX: i64 = 404_500;

/// Forward-companding threshold: linear channels at or below 0.0031308 are
/// on the linear segment.
pub const LINEAR_SRGB_MAX: i64 = 31_308;

/// The linear-segment slope 12.92 at scale.
pub const GAMMA_SLOPE: i64 = 129_200_000;

/// The companding offset 0.055 at scale.
pub const GAMMA_OFFSET: i64 = 550_000;

/// The companding divisor 1.055 at scale.
pub const GAMMA_DIVISOR: i64 = 10_550_000;

/// The CIE lightness threshold 216/24389 at scale, rounded down.
pub const CIE_EPSILON: i64 = 88_564;

/// The CIE lightness slope 24389/27 at scale, rounded to nearest.
pub const CIE_KAPPA: i64 = 9_032_962_963;

/// Reference-white chromaticity `u'` under D65, at scale.
pub const U_PRIME_REF: i64 = 1_978_300;

/// Reference-white chromaticity `v'` under D65, at scale.
pub const V_PRIME_REF: i64 = 4_683_200;

/// Lightness threshold separating the two inverse-lightness branches:
/// 8 at scale.
pub const L_BRANCH: i64 = 8 * SCALE;

/// Represents a color in the sRGB color space.
///
/// Channel values range over 0..=255 at scale: `r` is the amount of red,
/// `g` of green, `b` of blue.
#[derive(Clone, Copy, Debug, PartialEq, Eq, Structural)]
pub struct RGB {
    pub r: i64,
    pub g: i64,
    pub b: i64,
}

/// CIE 1931 XYZ tristimulus values under the D65 reference white, at
/// scale. An intermediate space: every conversion between RGB and CIELUV
/// routes through it.
#[derive(Clone, Copy, Debug, PartialEq, Eq, Structural)]
pub struct XYZ {
    pub x: i64,
    pub y: i64,
    pub z: i64,
}

/// A color in the CIE 1976 L*, u*, v* space, at scale: `l` is the
/// lightness, `u` the green/red axis, `v` the blue/yellow axis. The space
/// in which all gradient interpolation is performed.
#[derive(Clone, Copy, Debug, PartialEq, Eq, Structural)]
pub struct CIELUV {
    pub l: i64,
    pub u: i64,
    pub v: i64,
}

/// Cylindrical representation of the CIELUV color space: `h` is the hue in
/// fixed-point degrees below one turn, `c` the chromaticity in `[0, 1]` at
/// scale, `l` the luminance in `[0, 1]` at scale.
#[derive(Clone, Copy, Debug, PartialEq, Eq, Structural)]
pub struct HCL {
    pub h: i64,
    pub c: i64,
    pub l: i64,
}

/// Channels of a well-formed RGB color lie in `[0, 255]` at scale.
pub open spec fn rgb_wf(c: RGB) -> bool {
    &&& 0 <= c.r <= RGB_MAX
    &&& 0 <= c.g <= RGB_MAX
    &&& 0 <= c.b <= RGB_MAX
}

/// Coordinates of a well-formed XYZ value are bounded in magnitude.
pub open spec fn xyz_wf(p: XYZ) -> bool {
    &&& -XYZ_ABS_MAX <= p.x <= XYZ_ABS_MAX
    &&& -XYZ_ABS_MAX <= p.y <= XYZ_ABS_MAX
    &&& -XYZ_ABS_MAX <= p.z <= XYZ_ABS_MAX
}

/// Coordinates of a well-formed CIELUV value are bounded in magnitude.
pub open spec fn cieluv_wf(c: CIELUV) -> bool {
    &&& -LUV_ABS_MAX <= c.l <= LUV_ABS_MAX
    &&& -LUV_ABS_MAX <= c.u <= LUV_ABS_MAX
    &&& -LUV_ABS_MAX <= c.v <= LUV_ABS_MAX
}

/// A well-formed HCL value has a hue below one turn and chroma and
/// luminance in `[0, 1]` at scale.
pub open spec fn hcl_wf(c: HCL) -> bool {
    &&& 0 <= c.h < DEG_FULL
    &&& 0 <= c.c <= SCALE
    &&& 0 <= c.l <= SCALE
}

/// Inverse sRGB companding of one channel in `[0, 1]` at scale: the linear
/// segment below the threshold, the 2.4-power law above it.
pub open spec fn spec_srgb_to_linear(c: int) -> int {
    if c <= SRGB_LINEAR_MAX as int {
        spec_clamp(spec_fdiv(c, GAMMA_SLOPE as int), 0, SCALE as int)
    } else {
        spec_pow_frac_up(
            spec_clamp(spec_fdiv(c + GAMMA_OFFSET as int, GAMMA_DIVISOR as int), 0, SCALE as int),
        )
    }
}

/// Forward sRGB companding of one linear channel, clamped into `[0, 1]` at
/// scale first: the linear segment below the threshold, the 1/2.4-power
/// law above it.
pub open spec fn spec_linear_to_srgb(c: int) -> int {
    let cc = spec_clamp(c, 0, SCALE as int);
    if cc <= LINEAR_SRGB_MAX as int {
        spec_fmul(GAMMA_SLOPE as int, cc)
    } else {
        spec_clamp(
            spec_fmul(GAMMA_DIVISOR as int, spec_pow_frac_down(cc)) - GAMMA_OFFSET as int,
            0,
            SCALE as int,
        )
    }
}

/// The XYZ value of an RGB color: inverse companding per channel, then the
/// fixed sRGB-to-XYZ matrix.
pub open spec fn spec_rgb_to_xyz(c: RGB) -> XYZ {
    let r = spec_srgb_to_linear(spec_div_trunc(c.r as int, 255));
    let g = spec_srgb_to_linear(spec_div_trunc(c.g as int, 255));
    let b = spec_srgb_to_linear(spec_div_trunc(c.b as int, 255));
    XYZ {
        x: (spec_fmul(r, 4_124_564) + spec_fmul(g, 3_575_761) + spec_fmul(b, 1_804_375)) as i64,
        y: (spec_fmul(r, 2_126_729) + spec_fmul(g, 7_151_522) + spec_fmul(b, 721_750)) as i64,
        z: (spec_fmul(r, 193_339) + spec_fmul(g, 1_191_920) + spec_fmul(b, 9_503_041)) as i64,
    }
}

/// The RGB color of an XYZ value: the fixed XYZ-to-sRGB matrix, forward
/// companding, and every channel clamped into `[0, 255]` at scale.
pub open spec fn spec_xyz_to_rgb(p: XYZ) -> RGB {
    let rl = spec_fmul(p.x as int, 32_406_255) - spec_fmul(p.y as int, 15_372_080) - spec_fmul(
        p.z as int,
        4_986_286,
    );
    let gl = spec_fmul(p.y as int, 18_758_561) + spec_fmul(p.z as int, 415_175) - spec_fmul(
        p.x as int,
        9_689_307,
    );
    let bl = spec_fmul(p.x as int, 557_101) - spec_fmul(p.y as int, 2_040_211) + spec_fmul(
        p.z as int,
        10_570_959,
    );
    RGB {
        r: (255 * spec_linear_to_srgb(rl)) as i64,
        g: (255 * spec_linear_to_srgb(gl)) as i64,
        b: (255 * spec_linear_to_srgb(bl)) as i64,
    }
}

/// The CIELUV value of an XYZ value. A nonpositive denominator
/// `x + 15y + 3z` (in particular the all-zero input) maps directly to the
/// all-zero output, which avoids the division by zero.
pub open spec fn spec_xyz_to_cieluv(p: XYZ) -> CIELUV {
    let denom = p.x as int + 15 * (p.y as int) + 3 * (p.z as int);
    if denom <= 0 {
        CIELUV { l: 0, u: 0, v: 0 }
    } else {
        let u_prime = spec_clamp(
            spec_fdiv(4 * (p.x as int), denom),
            -(PRIME_CLAMP as int),
            PRIME_CLAMP as int,
        );
        let v_prime = spec_clamp(
            spec_fdiv(9 * (p.y as int), denom),
            -(PRIME_CLAMP as int),
            PRIME_CLAMP as int,
        );
        let y_ratio = spec_clamp(spec_div_trunc(p.y as int, 100), -(SCALE as int), SCALE as int);
        let l = if y_ratio > CIE_EPSILON as int {
            spec_clamp(
                116 * crate::fixed::spec_cbrt(y_ratio) - 160_000_000,
                -(L_CLAMP as int),
                L_CLAMP as int,
            )
        } else {
            spec_clamp(spec_fmul(CIE_KAPPA as int, y_ratio), -(L_CLAMP as int), L_CLAMP as int)
        };
        CIELUV {
            l: l as i64,
            u: spec_clamp(
                13 * spec_fmul(l, u_prime - U_PRIME_REF as int),
                -(LUV_ABS_MAX as int),
                LUV_ABS_MAX as int,
            ) as i64,
            v: spec_clamp(
                13 * spec_fmul(l, v_prime - V_PRIME_REF as int),
                -(LUV_ABS_MAX as int),
                LUV_ABS_MAX as int,
            ) as i64,
        }
    }
}

/// The XYZ value of a CIELUV value: the inverse of [`spec_xyz_to_cieluv`].
/// A nonpositive lightness maps directly to the all-zero output, and a
/// degenerate nonpositive `v'` does too: both guards avoid a division by
/// zero or a sign flip that no real color produces.
pub open spec fn spec_cieluv_to_xyz(c: CIELUV) -> XYZ {
    if c.l <= 0 {
        XYZ { x: 0, y: 0, z: 0 }
    } else {
        let u_prime = spec_clamp(
            spec_fdiv(c.u as int, 13 * (c.l as int)),
            -(PRIME_CLAMP as int),
            PRIME_CLAMP as int,
        ) + U_PRIME_REF as int;
        let v_prime = spec_clamp(
            spec_fdiv(c.v as int, 13 * (c.l as int)),
            -(PRIME_CLAMP as int),
            PRIME_CLAMP as int,
        ) + V_PRIME_REF as int;
        if v_prime <= 0 {
            XYZ { x: 0, y: 0, z: 0 }
        } else {
            let y = if c.l > L_BRANCH as int {
                let t = spec_clamp(spec_div_trunc(c.l as int + 160_000_000, 116), 0, SCALE as int);
                100 * spec_fmul(spec_fmul(t, t), t)
            } else {
                spec_clamp(spec_fdiv(100 * (c.l as int), CIE_KAPPA as int), 0, L_CLAMP as int)
            };
            XYZ {
                x: spec_clamp(
                    spec_fdiv(9 * spec_fmul(y, u_prime), 4 * v_prime),
                    -(XYZ_ABS_MAX as int),
                    XYZ_ABS_MAX as int,
                ) as i64,
                y: y as i64,
                z: spec_clamp(
                    spec_fdiv(
                        spec_fmul(y, 120_000_000 - 3 * u_prime - 20 * v_prime),
                        4 * v_prime,
                    ),
                    -(XYZ_ABS_MAX as int),
                    XYZ_ABS_MAX as int,
                ) as i64,
            }
        }
    }
}

/// The CIELUV value of an HCL value: the cylindrical-to-Cartesian mapping
/// `u = c cos h`, `v = c sin h`, with the luminance unchanged.
pub open spec fn spec_hcl_to_cieluv(c: HCL) -> CIELUV {
    CIELUV {
        l: c.l,
        u: spec_fmul(c.c as int, spec_cos_deg(c.h as int)) as i64,
        v: spec_fmul(c.c as int, spec_sin_deg(c.h as int)) as i64,
    }
}

/// The CIELUV value of an RGB color, through XYZ.
pub open spec fn spec_rgb_to_cieluv(c: RGB) -> CIELUV {
    spec_xyz_to_cieluv(spec_rgb_to_xyz(c))
}

/// The RGB color of a CIELUV value, through XYZ.
pub open spec fn spec_cieluv_to_rgb(c: CIELUV) -> RGB {
    spec_xyz_to_rgb(spec_cieluv_to_xyz(c))
}

/// The RGB color of an HCL value, through CIELUV and XYZ.
pub open spec fn spec_hcl_to_rgb(c: HCL) -> RGB {
    spec_cieluv_to_rgb(spec_hcl_to_cieluv(c))
}

/// Component-wise linear interpolation between two CIELUV colors.
pub open spec fn spec_interpolate(a: CIELUV, b: CIELUV, t: int) -> CIELUV {
    CIELUV {
        l: spec_lerp(a.l as int, b.l as int, t) as i64,
        u: spec_lerp(a.u as int, b.u as int, t) as i64,
        v: spec_lerp(a.v as int, b.v as int, t) as i64,
    }
}

/// Inverse sRGB companding of one channel.
fn srgb_to_linear(c: i64) -> (r: i64)
    requires
        0 <= c <= SCALE,
    ensures
        r as int == spec_srgb_to_linear(c as int),
        0 <= r <= SCALE,
{
    if c <= SRGB_LINEAR_MAX {
        fdiv_clamp(c, GAMMA_SLOPE, 0, SCALE)
    } else {
        let t: i64 = fdiv_clamp(c + GAMMA_OFFSET, GAMMA_DIVISOR, 0, SCALE);
        pow_frac_up(t)
    }
}

/// Forward sRGB companding of one linear channel.
fn linear_to_srgb(c: i64) -> (r: i64)
    requires
        -1_000_000_000_000 <= c <= 1_000_000_000_000,
    ensures
        r as int == spec_linear_to_srgb(c as int),
        0 <= r <= SCALE,
{
    let cc: i64 = clamp_i64(c, 0, SCALE);
    if cc <= LINEAR_SRGB_MAX {
        proof {
            lemma_fmul_bound(GAMMA_SLOPE as int, cc as int, 129_200_000, 31_308);
        }
        fmul(GAMMA_SLOPE, cc)
    } else {
        let p: i64 = pow_frac_down(cc);
        proof {
            lemma_fmul_bound(GAMMA_DIVISOR as int, p as int, 10_550_000, 10_000_000);
        }
        let s: i64 = fmul(GAMMA_DIVISOR, p);
        clamp_i64(s - GAMMA_OFFSET, 0, SCALE)
    }
}

impl RGB {
    /// The XYZ value of this color.
    pub fn to_xyz(&self) -> (r: XYZ)
        requires
            rgb_wf(*self),
        ensures
            r == spec_rgb_to_xyz(*self),
            0 <= r.x <= 11_000_000,
            0 <= r.y <= 11_000_000,
            0 <= r.z <= 11_000_000,
            xyz_wf(r),
    {
        let rn: i64 = div_trunc(self.r, 255);
        let gn: i64 = div_trunc(self.g, 255);
        let bn: i64 = div_trunc(self.b, 255);
        let rl: i64 = srgb_to_linear(rn);
        let gl: i64 = srgb_to_linear(gn);
        let bl: i64 = srgb_to_linear(bn);
        proof {
            lemma_fmul_in_hull(rl as int, 4_124_564);
            lemma_fmul_in_hull(gl as int, 3_575_761);
            lemma_fmul_in_hull(bl as int, 1_804_375);
            lemma_fmul_in_hull(rl as int, 2_126_729);
            lemma_fmul_in_hull(gl as int, 7_151_522);
            lemma_fmul_in_hull(bl as int, 721_750);
            lemma_fmul_in_hull(rl as int, 193_339);
            lemma_fmul_in_hull(gl as int, 1_191_920);
            lemma_fmul_in_hull(bl as int, 9_503_041);
        }
        XYZ {
            x: fmul(rl, 4_124_564) + fmul(gl, 3_575_761) + fmul(bl, 1_804_375),
            y: fmul(rl, 2_126_729) + fmul(gl, 7_151_522) + fmul(bl, 721_750),
            z: fmul(rl, 193_339) + fmul(gl, 1_191_920) + fmul(bl, 9_503_041),
        }
    }

    /// The CIELUV value of this color, through XYZ.
    pub fn to_cieluv(&self) -> (r: CIELUV)
        requires
            rgb_wf(*self),
        ensures
            r == spec_rgb_to_cieluv(*self),
            cieluv_wf(r),
    {
        self.to_xyz().to_cieluv()
    }
}

impl XYZ {
    /// The RGB color of this value: matrix, companding, and a clamp of
    /// every channel into range.
    pub fn to_rgb(&self) -> (r: RGB)
        requires
            xyz_wf(*self),
        ensures
            r == spec_xyz_to_rgb(*self),
            rgb_wf(r),
    {
        proof {
            lemma_fmul_bound(self.x as int, 32_406_255, 100_000_000_000, 32_406_255);
            lemma_fmul_bound(self.y as int, 15_372_080, 100_000_000_000, 15_372_080);
            lemma_fmul_bound(self.z as int, 4_986_286, 100_000_000_000, 4_986_286);
            lemma_fmul_bound(self.y as int, 18_758_561, 100_000_000_000, 18_758_561);
            lemma_fmul_bound(self.z as int, 415_175, 100_000_000_000, 415_175);
            lemma_fmul_bound(self.x as int, 9_689_307, 100_000_000_000, 9_689_307);
            lemma_fmul_bound(self.x as int, 557_101, 100_000_000_000, 557_101);
            lemma_fmul_bound(self.y as int, 2_040_211, 100_000_000_000, 2_040_211);
            lemma_fmul_bound(self.z as int, 10_570_959, 100_000_000_000, 10_570_959);
        }
        let rl: i64 = fmul(self.x, 32_406_255) - fmul(self.y, 15_372_080) - fmul(
            self.z,
            4_986_286,
        );
        let gl: i64 = fmul(self.y, 18_758_561) + fmul(self.z, 415_175) - fmul(self.x, 9_689_307);
        let bl: i64 = fmul(self.x, 557_101) - fmul(self.y, 2_040_211) + fmul(self.z, 10_570_959);
        RGB { r: 255 * linear_to_srgb(rl), g: 255 * linear_to_srgb(gl), b: 255 * linear_to_srgb(bl) }
    }

    /// The CIELUV value of this value.
    pub fn to_cieluv(&self) -> (r: CIELUV)
        requires
            xyz_wf(*self),
        ensures
            r == spec_xyz_to_cieluv(*self),
            cieluv_wf(r),
    {
        let denom: i64 = self.x + 15 * self.y + 3 * self.z;
        if denom <= 0 {
            CIELUV { l: 0, u: 0, v: 0 }
        } else {
            let u_prime: i64 = fdiv_clamp(4 * self.x, denom, -PRIME_CLAMP, PRIME_CLAMP);
            let v_prime: i64 = fdiv_clamp(9 * self.y, denom, -PRIME_CLAMP, PRIME_CLAMP);
            let y_ratio: i64 = clamp_i64(div_trunc(self.y, 100), -SCALE, SCALE);
            let l: i64 = if y_ratio > CIE_EPSILON {
                let cr: i64 = crate::fixed::fcbrt(y_ratio);
                clamp_i64(116 * cr - 160_000_000, -L_CLAMP, L_CLAMP)
            } else {
                proof {
                    lemma_fmul_bound(CIE_KAPPA as int, y_ratio as int, 9_032_962_963, 10_000_000);
                }
                clamp_i64(fmul(CIE_KAPPA, y_ratio), -L_CLAMP, L_CLAMP)
            };
            proof {
                lemma_fmul_bound(
                    l as int,
                    u_prime as int - U_PRIME_REF as int,
                    1_000_000_000,
                    102_000_000,
                );
                lemma_fmul_bound(
                    l as int,
                    v_prime as int - V_PRIME_REF as int,
                    1_000_000_000,
                    105_000_000,
                );
            }
            CIELUV {
                l,
                u: clamp_i64(13 * fmul(l, u_prime - U_PRIME_REF), -LUV_ABS_MAX, LUV_ABS_MAX),
                v: clamp_i64(13 * fmul(l, v_prime - V_PRIME_REF), -LUV_ABS_MAX, LUV_ABS_MAX),
            }
        }
    }
}

impl CIELUV {
    /// Interpolate between two colors based on a parameter `t` in
    /// `[0, SCALE]`: `t = 0` returns the start color exactly, `t = SCALE`
    /// the end color exactly, values between them the component-wise
    /// blend.
    pub fn interpolate(&self, end: &CIELUV, t: i64) -> (r: CIELUV)
        requires
            cieluv_wf(*self),
            cieluv_wf(*end),
            0 <= t <= SCALE,
        ensures
            r == spec_interpolate(*self, *end, t as int),
            cieluv_wf(r),
    {
        proof {
            lemma_lerp_in_hull(self.l as int, end.l as int, t as int, LUV_ABS_MAX as int);
            lemma_lerp_in_hull(self.u as int, end.u as int, t as int, LUV_ABS_MAX as int);
            lemma_lerp_in_hull(self.v as int, end.v as int, t as int, LUV_ABS_MAX as int);
        }
        CIELUV {
            l: lerp(self.l, end.l, t),
            u: lerp(self.u, end.u, t),
            v: lerp(self.v, end.v, t),
        }
    }

    /// The XYZ value of this color: the inverse of [`XYZ::to_cieluv`].
    pub fn to_xyz(&self) -> (r: XYZ)
        requires
            cieluv_wf(*self),
        ensures
            r == spec_cieluv_to_xyz(*self),
            xyz_wf(r),
            0 <= r.y <= L_CLAMP,
    {
        if self.l <= 0 {
            XYZ { x: 0, y: 0, z: 0 }
        } else {
            let u_prime: i64 = fdiv_clamp(self.u, 13 * self.l, -PRIME_CLAMP, PRIME_CLAMP)
                + U_PRIME_REF;
            let v_prime: i64 = fdiv_clamp(self.v, 13 * self.l, -PRIME_CLAMP, PRIME_CLAMP)
                + V_PRIME_REF;
            if v_prime <= 0 {
                XYZ { x: 0, y: 0, z: 0 }
            } else {
                let y: i64 = if self.l > L_BRANCH {
                    let t: i64 = clamp_i64(div_trunc(self.l + 160_000_000, 116), 0, SCALE);
                    proof {
                        lemma_fmul_in_hull(t as int, t as int);
                    }
                    let t2: i64 = fmul(t, t);
                    proof {
                        lemma_fmul_in_hull(t2 as int, t as int);
                    }
                    100 * fmul(t2, t)
                } else {
                    fdiv_clamp(100 * self.l, CIE_KAPPA, 0, L_CLAMP)
                };
                proof {
                    lemma_fmul_bound(y as int, u_prime as int, 1_000_000_000, 102_000_000);
                    lemma_fmul_bound(
                        y as int,
                        120_000_000 - 3 * (u_prime as int) - 20 * (v_prime as int),
                        1_000_000_000,
                        2_500_000_000,
                    );
                }
                XYZ {
                    x: fdiv_clamp(9 * fmul(y, u_prime), 4 * v_prime, -XYZ_ABS_MAX, XYZ_ABS_MAX),
                    y,
                    z: fdiv_clamp(
                        fmul(y, 120_000_000 - 3 * u_prime - 20 * v_prime),
                        4 * v_prime,
                        -XYZ_ABS_MAX,
                        XYZ_ABS_MAX,
                    ),
                }
            }
        }
    }

    /// The RGB color of this value, through XYZ.
    pub fn to_rgb(&self) -> (r: RGB)
        requires
            cieluv_wf(*self),
        ensures
            r == spec_cieluv_to_rgb(*self),
            rgb_wf(r),
    {
        self.to_xyz().to_rgb()
    }
}

impl HCL {
    /// The CIELUV value of this color: a direct cylindrical-to-Cartesian
    /// mapping; the luminance carries over unchanged.
    pub fn to_cieluv(&self) -> (r: CIELUV)
        requires
            hcl_wf(*self),
        ensures
            r == spec_hcl_to_cieluv(*self),
            cieluv_wf(r),
    {
        let co: i64 = cos_deg(self.h);
        let si: i64 = sin_deg(self.h);
        proof {
            lemma_fmul_in_hull(self.c as int, co as int);
            lemma_fmul_in_hull(self.c as int, si as int);
        }
        CIELUV { l: self.l, u: fmul(self.c, co), v: fmul(self.c, si) }
    }

    /// The RGB color of this value, through CIELUV and XYZ.
    pub fn to_rgb(&self) -> (r: RGB)
        requires
            hcl_wf(*self),
        ensures
            r == spec_hcl_to_rgb(*self),
            rgb_wf(r),
    {
        self.to_cieluv().to_rgb()
    }
}

} // verus!
