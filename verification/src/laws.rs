//! Laws of the library: properties that relate several operations, each
//! proved from the contracts the operations themselves state.

use vstd::prelude::*;
use vstd::string::StringSliceAdditionalSpecFns;
use crate::color::RGB;
use crate::color::CIELUV;
use crate::color::HCL;
use crate::color::spec_rgb_to_cieluv;
use crate::color::spec_cieluv_to_rgb;
use crate::color::spec_hcl_to_rgb;
use crate::color::spec_interpolate;
use crate::effect::Effect;
use crate::effect::Params;
use crate::effect::Solid;
use crate::effect::Rainbow;
use crate::effect::Strip;
use crate::effect::LedEffectCommand;
use crate::effect::rainbow_wf;
use crate::effect::solid_next_rel;
use crate::effect::rainbow_configure_rel;
use crate::effect::rainbow_next_rel;
use crate::effect::spec_rainbow_pixel;
use crate::effect::spec_poly_velocity;
use crate::effect::spec_kind_of;
use crate::effect::instance_next_rel;
use crate::fixed::SCALE;
use crate::fixed::DEG_FULL;
use crate::fixed::spec_clamp;
use crate::fixed::spec_fmul;
use crate::fixed::is_sqrt;
use crate::fixed::is_cbrt;
use crate::fixed::spec_pow_frac_down;
use crate::fixed::lemma_lerp_endpoints;
use crate::fixed::lemma_fmul_monotone_nonneg;
use crate::fixed::lemma_fdiv_monotone_nonneg;
use crate::fixed::lemma_pow_frac_up_monotone;
use crate::fixed::lemma_pow_frac_down_monotone;
use crate::fixed::lemma_sqrt_unique;
use crate::fixed::lemma_cbrt_unique;
use crate::color::spec_srgb_to_linear;
use crate::color::spec_linear_to_srgb;
use crate::color::SRGB_LINEAR_MAX;
use crate::color::LINEAR_SRGB_MAX;
use crate::color::GAMMA_SLOPE;
use crate::color::GAMMA_DIVISOR;
use crate::color::GAMMA_OFFSET;
use crate::text::all_digits;
use crate::text::is_ascii_digit;
use crate::text::spec_parse_decimal;
use crate::text::spec_pow10;
use crate::text::spec_render_decimal;
use crate::text::spec_render_padded;
use crate::text::spec_render_fixed;
use crate::text::spec_strip_zeros;
use crate::text::lemma_pow10_vals;
use crate::text::lemma_render_decimal_parses;
use crate::text::lemma_render_decimal_len;
use crate::text::lemma_render_padded_parses;
use crate::text::lemma_strip_zeros_digits;
use crate::protocol::spec_first_index;
use crate::protocol::lemma_first_index_props;
use crate::protocol::spec_frac_value;
use crate::protocol::spec_parse_unsigned_fixed;
use crate::protocol::spec_parse_signed_fixed;
use crate::protocol::spec_parse_knob;
use crate::render::RenderEngine;
use crate::render::RenderAction;
use crate::render::render_step_rel;
use crate::render::apply_rel;

verus! {

/// Interpolating between two CIELUV colors by zero gives the start color
/// exactly, and by one (at scale) the end color exactly, whatever the
/// colors are.
pub proof fn lemma_interpolate_endpoints(a: CIELUV, b: CIELUV)
    ensures
        spec_interpolate(a, b, 0) == a,
        spec_interpolate(a, b, SCALE as int) == b,
{
    lemma_lerp_endpoints(a.l as int, b.l as int);
    lemma_lerp_endpoints(a.u as int, b.u as int);
    lemma_lerp_endpoints(a.v as int, b.v as int);
}

/// The all-black color survives the full round trip through CIELUV and
/// back exactly: every stage maps zero to zero.
pub proof fn lemma_black_round_trip()
    ensures
        spec_cieluv_to_rgb(spec_rgb_to_cieluv(RGB { r: 0, g: 0, b: 0 })) == (RGB {
            r: 0,
            g: 0,
            b: 0,
        }),
{
    vstd::arithmetic::div_mod::lemma_div_basics_1(255);
    vstd::arithmetic::div_mod::lemma_div_basics_1(crate::color::GAMMA_SLOPE as int);
    vstd::arithmetic::div_mod::lemma_div_basics_1(SCALE as int);
}

/// A rainbow configured with full size and zero speed stands still: the
/// pixel separation and the hue velocity both come out exactly zero, and
/// the phase starts over from zero, as every configuration does.
pub proof fn lemma_rainbow_full_size_zero_speed_is_still(
    pre: Rainbow,
    post: Rainbow,
    p: Params,
)
    requires
        rainbow_configure_rel(pre, post, p),
        p.size == SCALE,
        p.speed == 0,
    ensures
        post.separation == 0,
        post.degree_velocity == 0,
        post.degrees == 0,
        post.n == pre.n,
{
    lemma_lerp_endpoints(0, crate::effect::RAINBOW_VELOCITY_MAX as int);
    lemma_lerp_endpoints(
        0,
        crate::fixed::spec_div_trunc(DEG_FULL as int, pre.n as int),
    );
}

/// A still rainbow (zero separation, zero velocity) paints every pixel of
/// every frame with one and the same hue, and its state does not change:
/// every later frame is identical, forever.
pub proof fn lemma_rainbow_uniform_hue(e: Rainbow, post: Rainbow, s: Strip)
    requires
        rainbow_wf(e),
        e.separation == 0,
        e.degree_velocity == 0,
        rainbow_next_rel(e, post, s),
    ensures
        post == e,
        s.pixels@.len() == e.n as int,
        forall|i: int|
            0 <= i < e.n as int ==> s.pixels@[i] == spec_hcl_to_rgb(
                HCL { h: e.degrees, c: e.chroma, l: e.luminance },
            ),
        forall|i: int, j: int|
            0 <= i < e.n as int && 0 <= j < e.n as int ==> s.pixels@[i] == s.pixels@[j],
{
    vstd::arithmetic::div_mod::lemma_small_mod(e.degrees as nat, DEG_FULL as nat);
    assert forall|i: int| 0 <= i < e.n as int implies s.pixels@[i] == spec_hcl_to_rgb(
        HCL { h: e.degrees, c: e.chroma, l: e.luminance },
    ) by {
        assert(e.separation as int * i == 0) by (nonlinear_arith)
            requires
                e.separation == 0,
        ;
        assert(spec_rainbow_pixel(e, i) == spec_hcl_to_rgb(
            HCL { h: e.degrees, c: e.chroma, l: e.luminance },
        ));
    }
}

/// A freshly armed solid effect yields exactly one frame — every pixel
/// the configured color — and afterwards yields nothing, no matter how
/// often it is advanced, until it is reconfigured.
pub proof fn lemma_solid_yields_exactly_once(
    pre: Solid,
    mid: Solid,
    post: Solid,
    r1: Option<Strip>,
    r2: Option<Strip>,
)
    requires
        !pre.finished,
        solid_next_rel(pre, mid, r1),
        solid_next_rel(mid, post, r2),
    ensures
        r1 is Some,
        r1->Some_0.pixels@.len() == pre.n as int,
        forall|i: int| 0 <= i < pre.n as int ==> r1->Some_0.pixels@[i] == pre.color,
        r2 is None,
        post == mid,
{
}

/// For any positive speed of at least eight scale units, the oscillator
/// velocities of the per-pixel effect are strictly increasing in the
/// pixel index: no two distinct pixels share an oscillation period.
/// (Below eight units — under a millionth of full speed — the fixed-point
/// velocities of neighboring pixels can round to the same value.)
pub proof fn lemma_poly_velocities_strictly_increase(speed: int, i: int, j: int)
    requires
        8 <= speed <= SCALE as int,
        0 <= i < j,
    ensures
        spec_poly_velocity(i, speed) < spec_poly_velocity(j, speed),
{
    let unit = crate::effect::POLY_VELOCITY_UNIT as int;
    let mi = unit * (i + 1);
    let mj = unit * (j + 1);
    let s = SCALE as int;
    vstd::arithmetic::mul::lemma_mul_nonnegative(speed, mi);
    vstd::arithmetic::mul::lemma_mul_nonnegative(speed, mj);
    assert(spec_poly_velocity(i, speed) == (speed * mi) / s);
    assert(spec_poly_velocity(j, speed) == (speed * mj) / s);
    vstd::arithmetic::mul::lemma_mul_is_distributive_sub(speed, mj, mi);
    vstd::arithmetic::mul::lemma_mul_inequality(8, speed, mj - mi);
    assert(8 * (mj - mi) >= s);
    assert(speed * mj >= speed * mi + s);
    vstd::arithmetic::div_mod::lemma_div_is_ordered(speed * mi + s, speed * mj, s);
    lemma_div_plus_one(speed * mi, s);
}

/// Adding the divisor to a dividend raises the quotient by exactly one.
proof fn lemma_div_plus_one(x: int, d: int)
    requires
        0 < d,
    ensures
        (x + d) / d == x / d + 1,
{
    vstd::arithmetic::div_mod::lemma_fundamental_div_mod(x, d);
    vstd::arithmetic::div_mod::lemma_fundamental_div_mod(x + d, d);
    vstd::arithmetic::div_mod::lemma_add_mod_noop(x, d, d);
    vstd::arithmetic::div_mod::lemma_mod_self_0(d);
    vstd::arithmetic::div_mod::lemma_mod_twice(x, d);
    vstd::arithmetic::div_mod::lemma_mod_bound(x, d);
    vstd::arithmetic::div_mod::lemma_mod_bound(x + d, d);
    let q1 = x / d;
    let q2 = (x + d) / d;
    assert(d * q2 == d * q1 + d);
    vstd::arithmetic::mul::lemma_mul_is_distributive_add(d, q1, 1);
    assert(d * q2 == d * (q1 + 1));
    vstd::arithmetic::mul::lemma_mul_equality_converse(d, q2, q1 + 1);
}

/// A render step taken while the engine is not producing never yields a
/// frame: it applies at most one pending command. Together with the
/// preemption probe — which leaves the producing level the moment it
/// sees a command waiting — the live effect is interrupted within one
/// frame period of a command's arrival, and no frame of the superseded
/// configuration is produced once a command is already queued.
pub proof fn lemma_waiting_step_yields_no_frame(
    pre: RenderEngine,
    post: RenderEngine,
    qpre: Seq<LedEffectCommand>,
    qpost: Seq<LedEffectCommand>,
    r: RenderAction,
)
    requires
        !pre.producing,
        render_step_rel(pre, post, qpre, qpost, r),
    ensures
        !(r is Frame),
        !(r is Exhausted),
        qpre.len() > 0 ==> r == RenderAction::CommandApplied(qpre[0]) && apply_rel(
            pre,
            post,
            qpre[0],
        ),
{
}

/// Once a change to the solid effect has been applied, every frame the
/// engine produces is a solid frame: all pixels hold one color, and the
/// live effect stays the solid effect. No frame of the effect that ran
/// before the change can appear again without another change command.
pub proof fn lemma_frames_after_solid_change_are_solid(
    pre: RenderEngine,
    post: RenderEngine,
    qpre: Seq<LedEffectCommand>,
    qpost: Seq<LedEffectCommand>,
    strip: Strip,
)
    requires
        spec_kind_of(pre.effect) == Effect::Solid,
        render_step_rel(pre, post, qpre, qpost, RenderAction::Frame(strip)),
    ensures
        spec_kind_of(post.effect) == Effect::Solid,
        forall|i: int, j: int|
            0 <= i < strip.pixels@.len() && 0 <= j < strip.pixels@.len() ==> strip.pixels@[i]
                == strip.pixels@[j],
{
    let e = pre.effect->Solid_0;
    assert(instance_next_rel(pre.effect, post.effect, Some(strip)));
    assert(solid_next_rel(e, post.effect->Solid_0, Some(strip)));
}

/// Applying a change-effect command sets the live effect's kind to the
/// commanded kind: from the step that applies `ChangeEffect(Solid)` on,
/// the engine holds the solid effect.
pub proof fn lemma_change_effect_sets_kind(
    pre: RenderEngine,
    post: RenderEngine,
    kind: Effect,
)
    requires
        apply_rel(pre, post, LedEffectCommand::ChangeEffect(kind)),
    ensures
        spec_kind_of(post.effect) == kind,
{
}

/// End to end: a rainbow that was configured with full size and zero
/// speed paints every pixel of its next frame with one hue and does not
/// move — so every frame after it is the same, forever.
pub proof fn lemma_rainbow_configured_still_is_uniform(
    pre: Rainbow,
    mid: Rainbow,
    p: Params,
    post: Rainbow,
    s: Strip,
)
    requires
        rainbow_wf(mid),
        rainbow_configure_rel(pre, mid, p),
        p.size == SCALE,
        p.speed == 0,
        rainbow_next_rel(mid, post, s),
    ensures
        post == mid,
        s.pixels@.len() == mid.n as int,
        forall|i: int, j: int|
            0 <= i < mid.n as int && 0 <= j < mid.n as int ==> s.pixels@[i] == s.pixels@[j],
{
    lemma_rainbow_full_size_zero_speed_is_still(pre, mid, p);
    lemma_rainbow_uniform_hue(mid, post, s);
}

/// End to end: while frames are flowing and a change to the solid effect
/// is already queued, the preemption probe stops production, the very
/// next step applies that command and yields no frame, and the engine
/// holds the solid effect from then on — the running effect is
/// interrupted within one frame period, and no frame of the superseded
/// effect appears once the command is queued.
pub proof fn lemma_queued_solid_change_preempts(
    producing: RenderEngine,
    paused: RenderEngine,
    applied: RenderEngine,
    qpre: Seq<LedEffectCommand>,
    qpost: Seq<LedEffectCommand>,
    r: RenderAction,
)
    requires
        producing.producing,
        qpre.len() > 0,
        qpre[0] == LedEffectCommand::ChangeEffect(Effect::Solid),
        paused == (RenderEngine { producing: false, ..producing }),
        render_step_rel(paused, applied, qpre, qpost, r),
    ensures
        !(r is Frame),
        r == RenderAction::CommandApplied(LedEffectCommand::ChangeEffect(Effect::Solid)),
        spec_kind_of(applied.effect) == Effect::Solid,
        qpost == qpre.drop_first(),
{
    lemma_waiting_step_yields_no_frame(paused, applied, qpre, qpost, r);
    lemma_change_effect_sets_kind(paused, applied, Effect::Solid);
}

/// Stripping trailing zeros from a fractional digit string does not
/// change the fraction it denotes.
proof fn lemma_strip_zeros_frac_value(s: Seq<u8>)
    requires
        all_digits(s),
        s.len() <= 7,
    ensures
        spec_frac_value(spec_strip_zeros(s)) == spec_frac_value(s),
    decreases s.len(),
{
    if s.len() > 0 && s.last() == 48 {
        let d = s.drop_last();
        assert(all_digits(d));
        lemma_strip_zeros_frac_value(d);
        let m = 7 - s.len();
        assert(spec_parse_decimal(s) == spec_parse_decimal(d) * 10);
        assert(spec_pow10((m + 1) as nat) == 10 * spec_pow10(m as nat));
        assert((spec_parse_decimal(d) * 10) * spec_pow10(m as nat) == spec_parse_decimal(d) * (10
            * spec_pow10(m as nat))) by (nonlinear_arith);
        assert(spec_frac_value(d) == spec_frac_value(s));
    }
}

/// In a digit string `b` never occurs when it is not a digit, so the
/// first occurrence is the length.
proof fn lemma_first_index_absent_in_digits(s: Seq<u8>, b: u8)
    requires
        all_digits(s),
        !is_ascii_digit(b),
    ensures
        spec_first_index(s, b) == s.len(),
{
    lemma_first_index_props(s, b);
    let d = spec_first_index(s, b);
    if d < s.len() {
        assert(is_ascii_digit(s[d]));
    }
}

/// In a digit string followed by one non-digit byte and a tail, the
/// first occurrence of that byte is right after the digits.
proof fn lemma_first_index_after_digits(a: Seq<u8>, b: u8, z: Seq<u8>)
    requires
        all_digits(a),
        !is_ascii_digit(b),
    ensures
        spec_first_index(a + seq![b] + z, b) == a.len(),
{
    let s = a + seq![b] + z;
    lemma_first_index_props(s, b);
    let d = spec_first_index(s, b);
    assert(s[a.len() as int] == b);
    assert(forall|j: int| 0 <= j < a.len() ==> s[j] == a[j]);
    if d < a.len() {
        assert(is_ascii_digit(s[d]));
    }
    if d > a.len() {
        assert(s[a.len() as int] != b);
    }
}

/// The state echo is self-consistent: the decimal text the library
/// publishes for a nonnegative fixed-point value parses back to exactly
/// that value under the library's own payload grammar.
pub proof fn lemma_render_fixed_parses_back(v: int)
    requires
        0 <= v < 100_000_000_000_000_000,
    ensures
        spec_parse_unsigned_fixed(spec_render_fixed(v)) == Some(v),
        spec_parse_signed_fixed(spec_render_fixed(v)) == Some(v),
        forall|j: int|
            0 <= j < spec_render_fixed(v).len() ==> #[trigger] spec_render_fixed(v)[j] != 44,
{
    let s_ = SCALE as int;
    let ip = v / s_;
    let fp = v % s_;
    vstd::arithmetic::div_mod::lemma_fundamental_div_mod(v, s_);
    vstd::arithmetic::div_mod::lemma_mod_bound(v, s_);
    vstd::arithmetic::div_mod::lemma_div_basics_4(v, s_);
    vstd::arithmetic::div_mod::lemma_div_is_ordered(v, 99_999_999_999_999_999, s_);
    assert(99_999_999_999_999_999int / s_ == 9_999_999_999int);
    lemma_render_decimal_parses(ip);
    lemma_pow10_vals();
    lemma_render_decimal_len(ip, 10);
    let a = spec_render_decimal(ip);
    if fp == 0 {
        let r = spec_render_fixed(v);
        assert(r == a);
        lemma_first_index_absent_in_digits(a, 46);
        assert(a.take(a.len() as int) =~= a);
        assert(spec_frac_value(Seq::<u8>::empty()) == 0);
        assert(spec_parse_unsigned_fixed(r) == Some(spec_parse_decimal(a) * s_ + 0));
        assert(ip * s_ == s_ * ip) by (nonlinear_arith);
    } else {
        lemma_render_padded_parses(fp, 7);
        let padded = spec_render_padded(fp, 7);
        lemma_strip_zeros_digits(padded);
        lemma_strip_zeros_frac_value(padded);
        assert(spec_frac_value(padded) == spec_parse_decimal(padded) * spec_pow10(0));
        let z = spec_strip_zeros(padded);
        let r = spec_render_fixed(v);
        assert(r == a + seq![46u8] + z);
        lemma_first_index_after_digits(a, 46, z);
        let dot = spec_first_index(r, 46);
        assert(dot == a.len());
        assert(r.take(dot) =~= a);
        assert(r.skip(dot + 1) =~= z);
        assert(spec_parse_unsigned_fixed(r) == Some(
            spec_parse_decimal(a) * s_ + spec_frac_value(z),
        ));
        assert(ip * s_ == s_ * ip) by (nonlinear_arith);
    }
    let r = spec_render_fixed(v);
    assert(r.len() >= 1 && is_ascii_digit(r[0]));
    assert(r[0] != 45 && r[0] != 43);
    if fp == 0 {
        assert(forall|j: int| 0 <= j < r.len() ==> is_ascii_digit(#[trigger] r[j]));
    } else {
        let z = spec_strip_zeros(spec_render_padded(fp, 7));
        let ab = a + seq![46u8];
        assert(r =~= ab + z);
        assert forall|j: int| 0 <= j < r.len() implies #[trigger] r[j] != 44 by {
            if j < a.len() {
                assert(r[j] == a[j]);
                assert(is_ascii_digit(a[j]));
            } else if j == a.len() {
                assert(r[j] == 46);
            } else {
                assert(r[j] == z[j - a.len() - 1]);
                assert(is_ascii_digit(z[j - a.len() - 1]));
            }
        }
    }
}

/// In a comma-free prefix followed by a comma and a tail, the first
/// comma sits right after the prefix.
proof fn lemma_first_comma_after_prefix(a: Seq<u8>, z: Seq<u8>)
    requires
        forall|j: int| 0 <= j < a.len() ==> #[trigger] a[j] != 44,
    ensures
        spec_first_index(a + seq![44u8] + z, 44) == a.len(),
{
    let s = a + seq![44u8] + z;
    lemma_first_index_props(s, 44);
    let d = spec_first_index(s, 44);
    assert(s[a.len() as int] == 44);
    assert(forall|j: int| 0 <= j < a.len() ==> s[j] == a[j]);
    if d > a.len() {
        assert(s[a.len() as int] != 44);
    }
}

/// The color echo is self-consistent: the comma-separated text the
/// library publishes for an in-range RGB value parses back to exactly
/// that value under the library's own payload grammar.
pub proof fn lemma_rgb_echo_round_trip(c: RGB)
    requires
        crate::color::rgb_wf(c),
    ensures
        crate::protocol::spec_parse_rgb(crate::protocol::spec_render_rgb(c)) == Some(c),
{
    let fr = spec_render_fixed(c.r as int);
    let fg = spec_render_fixed(c.g as int);
    let fb = spec_render_fixed(c.b as int);
    lemma_render_fixed_parses_back(c.r as int);
    lemma_render_fixed_parses_back(c.g as int);
    lemma_render_fixed_parses_back(c.b as int);
    let s = crate::protocol::spec_render_rgb(c);
    assert(s =~= fr + seq![44u8] + (fg + seq![44u8] + fb));
    lemma_first_comma_after_prefix(fr, fg + seq![44u8] + fb);
    let c1 = spec_first_index(s, 44);
    assert(c1 == fr.len());
    assert(c1 < s.len());
    let rest = s.skip(c1 + 1);
    assert(rest =~= fg + seq![44u8] + fb);
    lemma_first_comma_after_prefix(fg, fb);
    let c2 = spec_first_index(rest, 44);
    assert(c2 == fg.len());
    assert(c2 < rest.len());
    assert(s.take(c1) =~= fr);
    assert(rest.take(c2) =~= fg);
    assert(rest.skip(c2 + 1) =~= fb);
    assert(crate::protocol::spec_parse_channel(fr) == Some(c.r));
    assert(crate::protocol::spec_parse_channel(fg) == Some(c.g));
    assert(crate::protocol::spec_parse_channel(fb) == Some(c.b));
}

/// A knob value the adapter echoes parses back to exactly the stored
/// value: the outbound serialization is the inbound grammar's own.
pub proof fn lemma_knob_echo_round_trip(v: int)
    requires
        0 <= v <= SCALE as int,
    ensures
        spec_parse_knob(spec_render_fixed(v)) == Some(v as i64),
{
    lemma_render_fixed_parses_back(v);
}

/// Inverse sRGB companding is monotone within each of its two segments:
/// a brighter channel never decodes to a smaller linear value. Across the
/// published threshold the fixed-point rounding steps down by a single
/// unit (404500 maps to 31308, 404501 to 31307), so the two inputs must
/// sit on the same side of it.
pub proof fn lemma_srgb_to_linear_monotone(c1: int, c2: int)
    requires
        0 <= c1 <= c2 <= SCALE as int,
        c1 <= SRGB_LINEAR_MAX as int <==> c2 <= SRGB_LINEAR_MAX as int,
    ensures
        spec_srgb_to_linear(c1) <= spec_srgb_to_linear(c2),
{
    if c2 <= SRGB_LINEAR_MAX as int {
        lemma_fdiv_monotone_nonneg(c1, c2, GAMMA_SLOPE as int);
    } else {
        lemma_fdiv_monotone_nonneg(
            c1 + GAMMA_OFFSET as int,
            c2 + GAMMA_OFFSET as int,
            GAMMA_DIVISOR as int,
        );
        let t1 = spec_clamp(
            crate::fixed::spec_fdiv(c1 + GAMMA_OFFSET as int, GAMMA_DIVISOR as int),
            0,
            SCALE as int,
        );
        let t2 = spec_clamp(
            crate::fixed::spec_fdiv(c2 + GAMMA_OFFSET as int, GAMMA_DIVISOR as int),
            0,
            SCALE as int,
        );
        lemma_pow_frac_up_monotone(t1, t2);
    }
}

/// The fifth-power-of-twelfth-root kernel at the fixed point just above
/// the forward threshold, evaluated exactly.
proof fn lemma_pow_frac_down_at_31309()
    ensures
        spec_pow_frac_down(31309) == 904_748,
{
    let s_ = SCALE as int;
    assert(31309 * s_ * s_ == 3_130_900_000_000_000_000) by (nonlinear_arith)
        requires
            s_ == 10_000_000,
    ;
    assert(is_cbrt(31309, 1_462_928));
    lemma_cbrt_unique(31309, 1_462_928);
    assert(1_462_928 * s_ == 14_629_280_000_000);
    assert(is_sqrt(1_462_928, 3_824_824));
    lemma_sqrt_unique(1_462_928, 3_824_824);
    assert(3_824_824 * s_ == 38_248_240_000_000);
    assert(is_sqrt(3_824_824, 6_184_516));
    lemma_sqrt_unique(3_824_824, 6_184_516);
    let r = 6_184_516int;
    assert(spec_fmul(r, r) == 3_824_823);
    assert(spec_fmul(3_824_823, r) == 2_365_467);
    assert(spec_fmul(2_365_467, r) == 1_462_926);
    assert(spec_fmul(1_462_926, r) == 904_748);
}

/// Forward sRGB companding is monotone everywhere: a brighter linear
/// value never encodes to a smaller channel, including across the
/// published threshold.
pub proof fn lemma_linear_to_srgb_monotone(c1: int, c2: int)
    requires
        c1 <= c2,
    ensures
        spec_linear_to_srgb(c1) <= spec_linear_to_srgb(c2),
{
    let s_ = SCALE as int;
    let cc1 = spec_clamp(c1, 0, s_);
    let cc2 = spec_clamp(c2, 0, s_);
    assert(0 <= cc1 <= cc2 <= s_);
    if cc2 <= LINEAR_SRGB_MAX as int {
        lemma_fmul_monotone_nonneg(GAMMA_SLOPE as int, cc1, GAMMA_SLOPE as int, cc2);
    } else if cc1 > LINEAR_SRGB_MAX as int {
        lemma_pow_frac_down_monotone(cc1, cc2);
        lemma_fmul_monotone_nonneg(
            GAMMA_DIVISOR as int,
            spec_pow_frac_down(cc1),
            GAMMA_DIVISOR as int,
            spec_pow_frac_down(cc2),
        );
    } else {
        // the two sides straddle the threshold: the linear segment tops
        // out at 404499 and the power segment starts at 404509
        lemma_fmul_monotone_nonneg(GAMMA_SLOPE as int, cc1, GAMMA_SLOPE as int, 31_308);
        assert(129_200_000 * 31_308int == 4_044_993_600_000) by (nonlinear_arith);
        assert(spec_fmul(GAMMA_SLOPE as int, 31_308) == 404_499);
        lemma_pow_frac_down_monotone(31_309, cc2);
        lemma_pow_frac_down_at_31309();
        lemma_fmul_monotone_nonneg(
            GAMMA_DIVISOR as int,
            904_748,
            GAMMA_DIVISOR as int,
            spec_pow_frac_down(cc2),
        );
        assert(10_550_000 * 904_748int == 9_545_091_400_000) by (nonlinear_arith);
        assert(spec_fmul(GAMMA_DIVISOR as int, 904_748) == 954_509);
    }
}

/// The effect-name echo is self-consistent: the lowercase token the
/// library publishes for an effect kind parses back to exactly that
/// kind under the library's own payload grammar.
pub proof fn lemma_effect_token_round_trip(e: Effect)
    ensures
        crate::protocol::spec_parse_effect(crate::protocol::spec_effect_token(e)) == Some(e),
{
    reveal_strlit("solid");
    reveal_strlit("rainbow");
    reveal_strlit("gradient");
    reveal_strlit("polyrhythm");
    assert(vstd::utf8::is_ascii_chars("solid"@));
    assert(vstd::utf8::is_ascii_chars("rainbow"@));
    assert(vstd::utf8::is_ascii_chars("gradient"@));
    assert(vstd::utf8::is_ascii_chars("polyrhythm"@));
    vstd::utf8::is_ascii_chars_encode_utf8("solid"@);
    vstd::utf8::is_ascii_chars_encode_utf8("rainbow"@);
    vstd::utf8::is_ascii_chars_encode_utf8("gradient"@);
    vstd::utf8::is_ascii_chars_encode_utf8("polyrhythm"@);
    // the four token byte strings have four different lengths, so the
    // parser's comparison chain selects exactly the published token
    assert("solid".spec_bytes().len() == 5);
    assert("rainbow".spec_bytes().len() == 7);
    assert("gradient".spec_bytes().len() == 8);
    assert("polyrhythm".spec_bytes().len() == 10);
}

} // verus!
