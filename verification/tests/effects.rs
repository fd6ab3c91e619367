//! Effect engine tests: the solid effect's single frame, the still
//! rainbow, the polyrhythm's distinct harmonics, and the shared
//! configure/next protocol of the live-effect sum type.

use nuled::color::RGB;
use nuled::effect::{
    Effect, EffectInstance, Gradient, Params, Polyrhythm, Rainbow, Solid, Spinner, Strip,
};
use nuled::fixed::SCALE;

fn params() -> Params {
    Params::default()
}

fn red() -> RGB {
    RGB {
        r: 255 * SCALE,
        g: 0,
        b: 0,
    }
}

#[test]
fn solid_yields_exactly_one_frame() {
    let mut solid = Solid::new(5, red());
    let first = solid.next().expect("the armed solid effect must yield a frame");
    assert_eq!(first.pixels.len(), 5);
    for p in &first.pixels {
        assert_eq!(*p, red());
    }
    // exhausted from now on, no matter how often it is advanced
    for _ in 0..4 {
        assert!(solid.next().is_none());
    }
    // reconfiguring arms the single frame again
    let mut p = params();
    p.color1 = red();
    solid.configure(p);
    assert!(solid.next().is_some());
    assert!(solid.next().is_none());
}

#[test]
fn rainbow_full_size_zero_speed_is_uniform_forever() {
    let mut rainbow = Rainbow::new(6);
    let mut p = params();
    p.size = SCALE; // separation 0: the whole strip shows one hue
    p.speed = 0; // velocity 0: the hue never moves
    rainbow.configure(p);
    assert_eq!(rainbow.separation, 0);
    assert_eq!(rainbow.degree_velocity, 0);
    let first = rainbow.next();
    for frame in [first, rainbow.next(), rainbow.next()] {
        assert_eq!(frame.pixels.len(), 6);
        for px in &frame.pixels {
            assert_eq!(*px, frame.pixels[0], "every pixel of every frame is identical");
        }
    }
}

#[test]
fn rainbow_spreads_spectrum_at_size_zero() {
    let mut rainbow = Rainbow::new(4);
    let mut p = params();
    p.size = 0; // full spectrum across the strip
    p.speed = 0;
    rainbow.configure(p);
    assert_eq!(rainbow.separation, 360 * SCALE / 4);
    let frame = rainbow.next();
    // neighboring pixels differ: the hue steps a quarter turn each
    assert_ne!(frame.pixels[0], frame.pixels[1]);
}

#[test]
fn rainbow_advances_phase_with_speed() {
    let mut rainbow = Rainbow::new(3);
    let mut p = params();
    p.speed = SCALE;
    rainbow.configure(p);
    assert_eq!(rainbow.degrees, 0);
    let _ = rainbow.next();
    // full speed maps to 0.6 degrees per frame
    assert_eq!(rainbow.degrees, 6_000_000);
    let _ = rainbow.next();
    assert_eq!(rainbow.degrees, 12_000_000);
}

#[test]
fn gradient_full_speed_velocity() {
    let mut gradient = Gradient::new(3);
    let mut p = params();
    p.speed = SCALE;
    gradient.configure(p);
    // full speed maps to this effect's own bound: 0.33 degrees per frame
    assert_eq!(gradient.angular_velocity, 3_300_000);
    let _ = gradient.next();
    assert_eq!(gradient.angle, 3_300_000);
}

#[test]
fn gradient_zero_spread_is_uniform() {
    let mut gradient = Gradient::new(5);
    let mut p = params();
    p.color1 = RGB { r: 0, g: 0, b: 0 };
    p.color2 = red();
    p.size = SCALE;
    p.speed = 0;
    gradient.configure(p);
    assert_eq!(gradient.spread, 0);
    assert_eq!(gradient.angular_velocity, 0);
    let frame = gradient.next();
    assert_eq!(frame.pixels.len(), 5);
    for px in &frame.pixels {
        assert_eq!(*px, frame.pixels[0]);
    }
}

#[test]
fn polyrhythm_velocities_strictly_increase() {
    let mut poly = Polyrhythm::new(8);
    let mut p = params();
    p.speed = SCALE / 2;
    poly.configure(p);
    for i in 1..8 {
        assert!(
            poly.spinners[i].angular_velocity > poly.spinners[i - 1].angular_velocity,
            "pixel {i} must oscillate faster than pixel {}",
            i - 1
        );
    }
    // each velocity is speed scaled into [0, (i + 1) / 8 degree]
    assert_eq!(poly.spinners[0].angular_velocity, 625_000);
    assert_eq!(poly.spinners[7].angular_velocity, 5_000_000);
}

#[test]
fn polyrhythm_phases_advance_independently() {
    let mut poly = Polyrhythm::new(4);
    let mut p = params();
    p.speed = SCALE;
    poly.configure(p);
    let _ = poly.next();
    for i in 0..4 {
        assert_eq!(
            poly.spinners[i].angle,
            poly.spinners[i].angular_velocity,
            "after one frame each oscillator sits at its own velocity"
        );
    }
}

#[test]
fn configure_discards_in_flight_phase() {
    // configuration is a full reset, not incremental: whatever phase an
    // effect has accumulated, a configure call starts it over
    let mut rainbow = Rainbow::new(3);
    let mut p = params();
    p.speed = SCALE;
    rainbow.configure(p);
    let _ = rainbow.next();
    let _ = rainbow.next();
    assert_eq!(rainbow.degrees, 12_000_000);
    rainbow.configure(p);
    assert_eq!(rainbow.degrees, 0);

    let mut gradient = Gradient::new(3);
    gradient.configure(p);
    let _ = gradient.next();
    assert_eq!(gradient.angle, 3_300_000);
    gradient.configure(p);
    assert_eq!(gradient.angle, 0);

    let mut poly = Polyrhythm::new(3);
    poly.configure(p);
    let _ = poly.next();
    assert!(poly.spinners.iter().all(|sp| sp.angle > 0));
    poly.configure(p);
    assert!(poly.spinners.iter().all(|sp| sp.angle == 0));
}

#[test]
fn spinner_wraps_and_reports_amplitude() {
    let mut sp = Spinner {
        angular_velocity: 350 * SCALE,
        angle: 0,
    };
    sp.increment();
    assert_eq!(sp.angle, 350 * SCALE);
    sp.increment();
    // the phase wraps at a full turn
    assert_eq!(sp.angle, 340 * SCALE);
    // the amplitude is the sine of the phase: zero at zero, one at a
    // quarter turn
    let flat = Spinner {
        angular_velocity: 0,
        angle: 0,
    };
    assert_eq!(flat.amplitude(), 0);
    let quarter = Spinner {
        angular_velocity: 0,
        angle: 90 * SCALE,
    };
    assert_eq!(quarter.amplitude(), SCALE);
    let three_quarter = Spinner {
        angular_velocity: 0,
        angle: 270 * SCALE,
    };
    assert_eq!(three_quarter.amplitude(), -SCALE);
}

#[test]
fn instance_changes_kind_as_a_value() {
    let mut instance = EffectInstance::new(Effect::Rainbow, 4);
    assert_eq!(instance.kind(), Effect::Rainbow);
    assert!(instance.next().is_some(), "the rainbow never exhausts");
    instance = EffectInstance::new(Effect::Solid, 4);
    instance.configure(params());
    assert_eq!(instance.kind(), Effect::Solid);
    assert!(instance.next().is_some());
    assert!(instance.next().is_none(), "the solid effect exhausts after one frame");
    instance = EffectInstance::new(Effect::Gradient, 4);
    assert_eq!(instance.kind(), Effect::Gradient);
    assert!(instance.next().is_some());
    instance = EffectInstance::new(Effect::Polyrhythm, 4);
    assert_eq!(instance.kind(), Effect::Polyrhythm);
    assert!(instance.next().is_some());
}

#[test]
fn strip_to_rgb8_rounds_to_nearest() {
    let strip = Strip {
        pixels: vec![
            RGB {
                r: 255 * SCALE,
                g: 0,
                b: SCALE / 2,
            },
            RGB {
                r: 127 * SCALE + SCALE / 2 + 1,
                g: 127 * SCALE + SCALE / 2 - 1,
                b: 4_999_999,
            },
        ],
    };
    let wire = strip.to_rgb8();
    assert_eq!(wire.len(), 2);
    assert_eq!((wire[0].r, wire[0].g, wire[0].b), (255, 0, 1));
    assert_eq!((wire[1].r, wire[1].g, wire[1].b), (128, 127, 0));
}

#[test]
fn default_params_match_the_documented_knobs() {
    let p = params();
    assert_eq!(p.chroma, 6_000_000);
    assert_eq!(p.luminance, 6_000_000);
    assert_eq!(p.size, 5_000_000);
    assert_eq!(p.speed, 5_000_000);
    assert_eq!(p.color1, RGB { r: 0, g: 0, b: 0 });
    assert_eq!(p.color2, RGB { r: 0, g: 0, b: 0 });
}
