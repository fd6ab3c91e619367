//! Color model tests: the fixed-point conversions against a floating
//! point reference of the same math, and the exact interpolation laws.

use nuled::color::{CIELUV, HCL, RGB};
use nuled::fixed::SCALE;

const SCALE_F: f64 = 10_000_000.0;

fn rgb(r: f64, g: f64, b: f64) -> RGB {
    RGB {
        r: (r * SCALE_F) as i64,
        g: (g * SCALE_F) as i64,
        b: (b * SCALE_F) as i64,
    }
}

/// Floating-point reference of the RGB -> CIELUV -> RGB round trip.
fn reference_round_trip(r: f64, g: f64, b: f64) -> (f64, f64, f64) {
    fn srgb_to_linear(c: f64) -> f64 {
        if c <= 0.04045 {
            c / 12.92
        } else {
            ((c + 0.055) / 1.055).powf(2.4)
        }
    }
    fn linear_to_srgb(c: f64) -> f64 {
        if c <= 0.0031308 {
            12.92 * c
        } else {
            1.055 * c.powf(1.0 / 2.4) - 0.055
        }
    }
    let rl = srgb_to_linear(r / 255.0);
    let gl = srgb_to_linear(g / 255.0);
    let bl = srgb_to_linear(b / 255.0);
    let x = rl * 0.4124564 + gl * 0.3575761 + bl * 0.1804375;
    let y = rl * 0.2126729 + gl * 0.7151522 + bl * 0.0721750;
    let z = rl * 0.0193339 + gl * 0.1191920 + bl * 0.9503041;
    // straight back out again
    let rr = 3.2406255 * x - 1.5372080 * y - 0.4986286 * z;
    let gg = -0.9689307 * x + 1.8758561 * y + 0.0415175 * z;
    let bb = 0.0557101 * x - 0.2040211 * y + 1.0570959 * z;
    (
        (linear_to_srgb(rr) * 255.0).clamp(0.0, 255.0),
        (linear_to_srgb(gg) * 255.0).clamp(0.0, 255.0),
        (linear_to_srgb(bb) * 255.0).clamp(0.0, 255.0),
    )
}

fn assert_close(actual: i64, expected: f64, tolerance: f64, what: &str) {
    let actual_f = actual as f64 / SCALE_F;
    assert!(
        (actual_f - expected).abs() <= tolerance,
        "{what}: got {actual_f}, expected about {expected}"
    );
}

#[test]
fn rgb_round_trip_reproduces_input() {
    let cases: [(f64, f64, f64); 8] = [
        (255.0, 0.0, 0.0),
        (0.0, 255.0, 0.0),
        (0.0, 0.0, 255.0),
        (255.0, 255.0, 255.0),
        (128.0, 128.0, 128.0),
        (200.0, 100.0, 50.0),
        (12.0, 240.0, 133.0),
        (1.0, 2.0, 3.0),
    ];
    for (r, g, b) in cases {
        let out = rgb(r, g, b).to_cieluv().to_rgb();
        // the round trip must reproduce the input within a small
        // absolute tolerance per channel
        assert_close(out.r, r, 1.0, "round trip red");
        assert_close(out.g, g, 1.0, "round trip green");
        assert_close(out.b, b, 1.0, "round trip blue");
        // and it must agree with the floating-point reference pipeline
        let (er, eg, eb) = reference_round_trip(r, g, b);
        assert_close(out.r, er, 1.0, "reference red");
        assert_close(out.g, eg, 1.0, "reference green");
        assert_close(out.b, eb, 1.0, "reference blue");
    }
}

#[test]
fn black_round_trip_is_exact() {
    let out = rgb(0.0, 0.0, 0.0).to_cieluv().to_rgb();
    assert_eq!(out, RGB { r: 0, g: 0, b: 0 });
}

#[test]
fn interpolate_endpoints_are_exact() {
    let a = CIELUV {
        l: 87_654_321,
        u: -12_345_678,
        v: 99_999_999,
    };
    let b = CIELUV {
        l: 1,
        u: 2,
        v: -3,
    };
    assert_eq!(a.interpolate(&b, 0), a);
    assert_eq!(a.interpolate(&b, SCALE), b);
}

#[test]
fn interpolate_midpoint_blends() {
    let a = CIELUV { l: 0, u: 0, v: 0 };
    let b = CIELUV {
        l: 10_000_000,
        u: -10_000_000,
        v: 20_000_000,
    };
    let mid = a.interpolate(&b, SCALE / 2);
    assert_eq!(mid.l, 5_000_000);
    assert_eq!(mid.u, -5_000_000);
    assert_eq!(mid.v, 10_000_000);
}

#[test]
fn hcl_matches_float_reference() {
    // u = c cos(h), v = c sin(h), l unchanged
    let cases: [(f64, f64, f64); 5] = [
        (0.0, 0.6, 0.6),
        (90.0, 0.5, 0.3),
        (180.0, 1.0, 1.0),
        (270.0, 0.25, 0.75),
        (45.0, 0.3, 0.9),
    ];
    for (h, c, l) in cases {
        let hcl = HCL {
            h: (h * SCALE_F) as i64,
            c: (c * SCALE_F) as i64,
            l: (l * SCALE_F) as i64,
        };
        let luv = hcl.to_cieluv();
        let exp_u = c * h.to_radians().cos();
        let exp_v = c * h.to_radians().sin();
        // the integer sine is a rational approximation: good to ~0.002
        assert_close(luv.u, exp_u, 0.004, "hcl u");
        assert_close(luv.v, exp_v, 0.004, "hcl v");
        assert_eq!(luv.l, hcl.l);
    }
}

#[test]
fn grey_has_near_zero_chroma() {
    let luv = rgb(128.0, 128.0, 128.0).to_cieluv();
    // a neutral grey sits on the white point: u and v nearly vanish
    assert!(luv.l > 0);
    assert!((luv.u as f64 / SCALE_F).abs() < 0.02);
    assert!((luv.v as f64 / SCALE_F).abs() < 0.02);
}

#[test]
fn brighter_channels_give_larger_tristimulus() {
    // forward companding is monotone: raising one channel never lowers
    // the luminance
    let mut last_y = -1_i64;
    for g in [0.0, 5.0, 10.4, 10.5, 40.0, 128.0, 200.0, 255.0] {
        let xyz = rgb(0.0, g, 0.0).to_xyz();
        assert!(xyz.y >= last_y, "luminance must not decrease at g = {g}");
        last_y = xyz.y;
    }
}

#[test]
fn red_luv_matches_reference() {
    // CIELUV of pure red under this library's scaling (Y reference 100
    // against luminance in 0..1): l = 116 * (0.2126729 / 100)^(1/3) - 16
    let luv = rgb(255.0, 0.0, 0.0).to_cieluv();
    let y = 0.2126729_f64;
    // y / 100 is below the CIE threshold 216/24389: the linear branch
    let l = (24389.0 / 27.0) * (y / 100.0);
    let x = 0.4124564_f64;
    let z = 0.0193339_f64;
    let up = 4.0 * x / (x + 15.0 * y + 3.0 * z);
    let vp = 9.0 * y / (x + 15.0 * y + 3.0 * z);
    let u = 13.0 * l * (up - 0.19783);
    let v = 13.0 * l * (vp - 0.46832);
    assert_close(luv.l, l, 0.001, "red l");
    assert_close(luv.u, u, 0.01, "red u");
    assert_close(luv.v, v, 0.01, "red v");
}
