//! Command protocol adapter: maps textual topic/payload pairs from the
//! control channel onto parameter updates and effect selection, maintains
//! the authoritative [`ServerState`], enqueues commands for the render
//! loop, and produces the outbound echo of the accepted state.
//!
//! A malformed payload or an unrecognized topic never mutates any state:
//! the message is reported as recoverable and skipped. Payload numbers
//! are decimal integers or fractions (`"255"`, `"0.5"`), comma-separated
//! triples for colors, and lowercase kind names for the effect selector;
//! a parsed value outside its knob's range is brought to the nearest
//! bound. The echo uses exactly the serialization the parser accepts.

use vstd::prelude::*;
use vstd::string::StringSliceAdditionalSpecFns;
use crate::color::RGB;
use crate::color::RGB_MAX;
use crate::color::rgb_wf;
use crate::effect::Effect;
use crate::effect::Params;
use crate::effect::LedEffectCommand;
use crate::effect::params_wf;
use crate::fixed::SCALE;
use crate::fixed::spec_clamp;
use crate::queue::CommandQueue;
use crate::text::all_digits;
use crate::text::is_ascii_digit;
use crate::text::spec_parse_decimal;
use crate::text::spec_pow10;
use crate::text::spec_render_fixed;
use crate::text::parse_decimal_range;
use crate::text::render_fixed;
use crate::text::bytes_eq;
use crate::text::lemma_pow10_vals;

verus! {

/// The index of the first occurrence of `b` in `s`, or the length of `s`
/// when `b` does not occur.
pub open spec fn spec_first_index(s: Seq<u8>, b: u8) -> int
    decreases s.len(),
{
    if s.len() == 0 {
        0
    } else if s[0] == b {
        0
    } else {
        1 + spec_first_index(s.drop_first(), b)
    }
}

/// What [`spec_first_index`] finds: an in-range position holding `b` with
/// no earlier occurrence, or the length when `b` is absent.
pub proof fn lemma_first_index_props(s: Seq<u8>, b: u8)
    ensures
        0 <= spec_first_index(s, b) <= s.len(),
        spec_first_index(s, b) < s.len() ==> s[spec_first_index(s, b)] == b,
        forall|j: int| 0 <= j < spec_first_index(s, b) ==> s[j] != b,
    decreases s.len(),
{
    if s.len() > 0 && s[0] != b {
        lemma_first_index_props(s.drop_first(), b);
        assert(forall|j: int|
            1 <= j < spec_first_index(s, b) ==> s[j] == s.drop_first()[j - 1]);
    }
}

/// Find the first occurrence of `b` in `s[start..end]`: the absolute
/// index, or `end` when absent.
#[verifier::loop_isolation(false)]
fn find_byte(s: &[u8], start: usize, end: usize, b: u8) -> (r: usize)
    requires
        start <= end <= s@.len(),
    ensures
        start <= r <= end,
        r as int - start as int == spec_first_index(
            s@.subrange(start as int, end as int),
            b,
        ),
        r < end ==> s@[r as int] == b,
        forall|j: int| start as int <= j < r as int ==> s@[j] != b,
{
    let ghost sub = s@.subrange(start as int, end as int);
    proof {
        lemma_first_index_props(sub, b);
    }
    let mut i: usize = start;
    while i < end
        invariant
            start <= i <= end <= s@.len(),
            sub == s@.subrange(start as int, end as int),
            forall|j: int| start as int <= j < i as int ==> s@[j] != b,
        decreases end - i,
    {
        if s[i] == b {
            proof {
                assert(sub[i - start] == b);
                assert(forall|j: int| 0 <= j < i - start ==> sub[j] == s@[j + start] && sub[j]
                    != b);
            }
            return i;
        }
        i = i + 1;
    }
    proof {
        assert(forall|j: int| 0 <= j < sub.len() ==> sub[j] == s@[j + start] && sub[j] != b);
    }
    end
}

/// The value of an unsigned decimal number with an optional fractional
/// part, at scale: at most ten integer digits, a single optional dot, at
/// least one digit in all, and fractional digits beyond the scale's seven
/// ignored. Anything else is no number.
pub open spec fn spec_parse_unsigned_fixed(s: Seq<u8>) -> Option<int> {
    let dot = spec_first_index(s, 46);
    let ip = s.take(dot);
    let fp = if dot < s.len() {
        s.skip(dot + 1)
    } else {
        Seq::<u8>::empty()
    };
    if ip.len() + fp.len() < 1 {
        None
    } else if !all_digits(ip) || !all_digits(fp) {
        None
    } else if ip.len() > 10 {
        None
    } else {
        Some(spec_parse_decimal(ip) * (SCALE as int) + spec_frac_value(fp))
    }
}

/// The value of a fractional digit string at scale: its first seven
/// digits, padded with zeros on the right.
pub open spec fn spec_frac_value(fp: Seq<u8>) -> int {
    if fp.len() <= 7 {
        spec_parse_decimal(fp) * spec_pow10((7 - fp.len()) as nat)
    } else {
        spec_parse_decimal(fp.take(7))
    }
}

/// The value of a decimal number with an optional leading sign, at
/// scale.
pub open spec fn spec_parse_signed_fixed(s: Seq<u8>) -> Option<int> {
    if s.len() >= 1 && s[0] == 45 {
        match spec_parse_unsigned_fixed(s.skip(1)) {
            Some(v) => Some(-v),
            None => None,
        }
    } else if s.len() >= 1 && s[0] == 43 {
        spec_parse_unsigned_fixed(s.skip(1))
    } else {
        spec_parse_unsigned_fixed(s)
    }
}

/// Parse `s[start..end]` as an unsigned fixed-point number.
#[verifier::loop_isolation(false)]
fn parse_unsigned_core(s: &[u8], start: usize, end: usize) -> (r: Option<i64>)
    requires
        start <= end <= s@.len(),
    ensures
        r is Some <==> spec_parse_unsigned_fixed(
            s@.subrange(start as int, end as int),
        ) is Some,
        r is Some ==> {
            &&& r->0 as int == spec_parse_unsigned_fixed(
                s@.subrange(start as int, end as int),
            )->0
            &&& 0 <= r->0 < 100_000_000_000_000_000
        },
{
    let ghost sub = s@.subrange(start as int, end as int);
    let dot: usize = find_byte(s, start, end, 46);
    let ghost dot_rel = dot as int - start as int;
    proof {
        assert(sub.take(dot_rel) =~= s@.subrange(start as int, dot as int));
        if dot < end {
            assert(sub.skip(dot_rel + 1) =~= s@.subrange(dot as int + 1, end as int));
        }
    }
    let ip_len: usize = dot - start;
    if ip_len > 10 {
        return None;
    }
    let f_start: usize = if dot < end {
        dot + 1
    } else {
        end
    };
    let f_len: usize = end - f_start;
    proof {
        if dot == end {
            assert(sub.take(dot_rel) =~= sub);
            assert(s@.subrange(f_start as int, end as int) =~= Seq::<u8>::empty());
        }
    }
    if ip_len == 0 && f_len == 0 {
        return None;
    }
    let ip_val: i64 = if ip_len == 0 {
        0
    } else {
        match parse_decimal_range(s, start, dot) {
            Some(v) => v,
            None => {
                return None;
            },
        }
    };
    // every fractional digit must be a digit, however many there are
    let mut j: usize = f_start;
    while j < end
        invariant
            f_start <= j <= end <= s@.len(),
            forall|k: int| f_start as int <= k < j as int ==> is_ascii_digit(#[trigger] s@[k]),
        decreases end - j,
    {
        let b: u8 = s[j];
        if b < 48 || b > 57 {
            proof {
                if dot < end {
                    assert(!is_ascii_digit(s@.subrange(f_start as int, end as int)[j - f_start]));
                }
            }
            return None;
        }
        j = j + 1;
    }
    proof {
        assert(forall|k: int|
            0 <= k < (end - f_start) as int ==> s@.subrange(f_start as int, end as int)[k]
                == s@[k + f_start]);
    }
    let k: usize = if f_len > 7 {
        7
    } else {
        f_len
    };
    let fv: i64 = if k == 0 {
        0
    } else {
        proof {
            assert(s@.subrange(f_start as int, f_start as int + k as int) =~= s@.subrange(
                f_start as int,
                end as int,
            ).take(k as int));
        }
        match parse_decimal_range(s, f_start, f_start + k) {
            Some(v) => v,
            None => {
                // cannot happen: the range is nonempty and was just
                // checked to hold only digits
                proof {
                    assert(false);
                }
                return None;
            },
        }
    };
    proof {
        lemma_pow10_vals();
        if k > 0 {
            crate::text::lemma_parse_decimal_bounds(
                s@.subrange(f_start as int, f_start as int + k as int),
            );
            crate::text::lemma_pow10_le(k as nat, 7);
        }
    }
    let frac: i64 = match 7 - k {
        0 => fv,
        1 => fv * 10,
        2 => fv * 100,
        3 => fv * 1000,
        4 => fv * 10_000,
        5 => fv * 100_000,
        6 => fv * 1_000_000,
        _ => fv * 10_000_000,
    };
    proof {
        lemma_pow10_vals();
        let fp = if dot_rel < sub.len() {
            sub.skip(dot_rel + 1)
        } else {
            Seq::<u8>::empty()
        };
        if dot < end {
            assert(fp.len() == f_len as int);
            if f_len <= 7 {
                assert(k == f_len);
                if k > 0 {
                    assert(s@.subrange(f_start as int, f_start as int + k as int) =~= fp);
                    assert(fv as int == spec_parse_decimal(fp));
                } else {
                    assert(fp =~= Seq::<u8>::empty());
                    assert(fv as int == spec_parse_decimal(fp));
                }
                assert(spec_frac_value(fp) == spec_parse_decimal(fp) * spec_pow10(
                    (7 - f_len) as nat,
                ));
            } else {
                assert(k == 7);
                assert(s@.subrange(f_start as int, f_start as int + 7) =~= s@.subrange(
                    f_start as int,
                    end as int,
                ).take(7));
                assert(s@.subrange(f_start as int, end as int).take(7) =~= fp.take(7));
                assert(fv as int == spec_parse_decimal(fp.take(7)));
            }
        } else {
            assert(fp =~= Seq::<u8>::empty());
            assert(fv == 0);
        }
        assert(frac as int == spec_frac_value(fp));
    }
    Some(ip_val * SCALE + frac)
}

/// Parse `s[start..end]` as a signed fixed-point number and clamp it into
/// `[lo, hi]`.
fn parse_fixed_clamped(s: &[u8], start: usize, end: usize, lo: i64, hi: i64) -> (r: Option<i64>)
    requires
        start <= end <= s@.len(),
        0 <= lo <= hi,
        hi <= 100_000_000_000,
    ensures
        r is Some <==> spec_parse_signed_fixed(s@.subrange(start as int, end as int)) is Some,
        r is Some ==> r->0 as int == spec_clamp(
            spec_parse_signed_fixed(s@.subrange(start as int, end as int))->0,
            lo as int,
            hi as int,
        ),
        r is Some ==> lo <= r->0 <= hi,
{
    let ghost sub = s@.subrange(start as int, end as int);
    if start < end && (s[start] == 45 || s[start] == 43) {
        proof {
            assert(sub.skip(1) =~= s@.subrange(start as int + 1, end as int));
        }
        let negative: bool = s[start] == 45;
        match parse_unsigned_core(s, start + 1, end) {
            None => None,
            Some(v) => {
                if negative {
                    let nv: i64 = -v;
                    Some(crate::fixed::clamp_i64(nv, lo, hi))
                } else {
                    Some(crate::fixed::clamp_i64(v, lo, hi))
                }
            },
        }
    } else {
        match parse_unsigned_core(s, start, end) {
            None => None,
            Some(v) => Some(crate::fixed::clamp_i64(v, lo, hi)),
        }
    }
}

/// A channel of an RGB payload: a signed number brought into
/// `[0, 255]` at scale.
pub open spec fn spec_parse_channel(s: Seq<u8>) -> Option<i64> {
    match spec_parse_signed_fixed(s) {
        Some(v) => Some(spec_clamp(v, 0, RGB_MAX as int) as i64),
        None => None,
    }
}

/// A knob payload: a signed number brought into `[0, 1]` at scale.
pub open spec fn spec_parse_knob(s: Seq<u8>) -> Option<i64> {
    match spec_parse_signed_fixed(s) {
        Some(v) => Some(spec_clamp(v, 0, SCALE as int) as i64),
        None => None,
    }
}

/// An RGB payload: exactly three comma-separated channel numbers.
pub open spec fn spec_parse_rgb(s: Seq<u8>) -> Option<RGB> {
    let c1 = spec_first_index(s, 44);
    if c1 == s.len() {
        None
    } else {
        let rest = s.skip(c1 + 1);
        let c2 = spec_first_index(rest, 44);
        if c2 == rest.len() {
            None
        } else {
            let rp = spec_parse_channel(s.take(c1));
            let gp = spec_parse_channel(rest.take(c2));
            let bp = spec_parse_channel(rest.skip(c2 + 1));
            if rp is Some && gp is Some && bp is Some {
                Some(RGB { r: rp->0, g: gp->0, b: bp->0 })
            } else {
                None
            }
        }
    }
}

/// An effect payload: one of the four lowercase kind names.
pub open spec fn spec_parse_effect(s: Seq<u8>) -> Option<Effect> {
    if s == "solid".spec_bytes() {
        Some(Effect::Solid)
    } else if s == "rainbow".spec_bytes() {
        Some(Effect::Rainbow)
    } else if s == "gradient".spec_bytes() {
        Some(Effect::Gradient)
    } else if s == "polyrhythm".spec_bytes() {
        Some(Effect::Polyrhythm)
    } else {
        None
    }
}

/// Parse an RGB payload.
pub fn parse_rgb(s: &[u8]) -> (r: Option<RGB>)
    ensures
        r == spec_parse_rgb(s@),
        r is Some ==> rgb_wf(r->0),
{
    let len: usize = s.len();
    let ghost whole = s@;
    proof {
        assert(whole =~= s@.subrange(0, len as int));
    }
    let c1: usize = find_byte(s, 0, len, 44);
    if c1 == len {
        return None;
    }
    let ghost rest = s@.skip(c1 as int + 1);
    proof {
        assert(rest =~= s@.subrange(c1 as int + 1, len as int));
    }
    let c2: usize = find_byte(s, c1 + 1, len, 44);
    proof {
        assert(spec_first_index(rest, 44) == c2 as int - (c1 as int + 1));
    }
    if c2 == len {
        return None;
    }
    proof {
        assert(rest.take(c2 as int - (c1 as int + 1)) =~= s@.subrange(c1 as int + 1, c2 as int));
        assert(rest.skip(c2 as int - c1 as int) =~= s@.subrange(c2 as int + 1, len as int));
        assert(s@.take(c1 as int) =~= s@.subrange(0, c1 as int));
    }
    let rp: Option<i64> = parse_fixed_clamped(s, 0, c1, 0, RGB_MAX);
    let gp: Option<i64> = parse_fixed_clamped(s, c1 + 1, c2, 0, RGB_MAX);
    let bp: Option<i64> = parse_fixed_clamped(s, c2 + 1, len, 0, RGB_MAX);
    match (rp, gp, bp) {
        (Some(rv), Some(gv), Some(bv)) => Some(RGB { r: rv, g: gv, b: bv }),
        _ => None,
    }
}

/// Parse a knob payload.
pub fn parse_knob(s: &[u8]) -> (r: Option<i64>)
    ensures
        r == spec_parse_knob(s@),
        r is Some ==> 0 <= r->0 <= SCALE,
{
    proof {
        assert(s@ =~= s@.subrange(0, s@.len() as int));
    }
    parse_fixed_clamped(s, 0, s.len(), 0, SCALE)
}

/// Parse an effect payload.
pub fn parse_effect(s: &[u8]) -> (r: Option<Effect>)
    ensures
        r == spec_parse_effect(s@),
{
    if bytes_eq(s, "solid".as_bytes()) {
        Some(Effect::Solid)
    } else if bytes_eq(s, "rainbow".as_bytes()) {
        Some(Effect::Rainbow)
    } else if bytes_eq(s, "gradient".as_bytes()) {
        Some(Effect::Gradient)
    } else if bytes_eq(s, "polyrhythm".as_bytes()) {
        Some(Effect::Polyrhythm)
    } else {
        None
    }
}

/// The lowercase name of an effect kind: the text the effect selector
/// accepts and the echo publishes.
pub open spec fn spec_effect_token(e: Effect) -> Seq<u8> {
    match e {
        Effect::Solid => "solid".spec_bytes(),
        Effect::Rainbow => "rainbow".spec_bytes(),
        Effect::Gradient => "gradient".spec_bytes(),
        Effect::Polyrhythm => "polyrhythm".spec_bytes(),
    }
}

/// The lowercase name of an effect kind.
pub fn effect_token(e: Effect) -> (r: Vec<u8>)
    ensures
        r@ == spec_effect_token(e),
{
    match e {
        Effect::Solid => vstd::slice::slice_to_vec("solid".as_bytes()),
        Effect::Rainbow => vstd::slice::slice_to_vec("rainbow".as_bytes()),
        Effect::Gradient => vstd::slice::slice_to_vec("gradient".as_bytes()),
        Effect::Polyrhythm => vstd::slice::slice_to_vec("polyrhythm".as_bytes()),
    }
}

/// The topic fields the control channel recognizes.
#[derive(Clone, Copy, Debug, PartialEq, Eq, Structural)]
pub enum TopicField {
    Color1,
    Color2,
    Chroma,
    Luminance,
    Speed,
    Size,
    EffectSel,
}

/// The field a set-topic addresses, or none for an unrecognized topic.
pub open spec fn spec_parse_topic(t: Seq<u8>) -> Option<TopicField> {
    if t == "led/pallet/color1/set".spec_bytes() {
        Some(TopicField::Color1)
    } else if t == "led/pallet/color2/set".spec_bytes() {
        Some(TopicField::Color2)
    } else if t == "led/pallet/chroma/set".spec_bytes() {
        Some(TopicField::Chroma)
    } else if t == "led/pallet/luminance/set".spec_bytes() {
        Some(TopicField::Luminance)
    } else if t == "led/pallet/speed/set".spec_bytes() {
        Some(TopicField::Speed)
    } else if t == "led/pallet/size/set".spec_bytes() {
        Some(TopicField::Size)
    } else if t == "led/pallet/effect/set".spec_bytes() {
        Some(TopicField::EffectSel)
    } else {
        None
    }
}

/// The topic the echo of a field is published on.
pub open spec fn spec_echo_topic(f: TopicField) -> Seq<u8> {
    match f {
        TopicField::Color1 => "led/pallet/color1".spec_bytes(),
        TopicField::Color2 => "led/pallet/color2".spec_bytes(),
        TopicField::Chroma => "led/pallet/chroma".spec_bytes(),
        TopicField::Luminance => "led/pallet/luminance".spec_bytes(),
        TopicField::Speed => "led/pallet/speed".spec_bytes(),
        TopicField::Size => "led/pallet/size".spec_bytes(),
        TopicField::EffectSel => "led/pallet/effect".spec_bytes(),
    }
}

/// Map a set-topic to the field it addresses.
pub fn parse_topic(t: &[u8]) -> (r: Option<TopicField>)
    ensures
        r == spec_parse_topic(t@),
{
    if bytes_eq(t, "led/pallet/color1/set".as_bytes()) {
        Some(TopicField::Color1)
    } else if bytes_eq(t, "led/pallet/color2/set".as_bytes()) {
        Some(TopicField::Color2)
    } else if bytes_eq(t, "led/pallet/chroma/set".as_bytes()) {
        Some(TopicField::Chroma)
    } else if bytes_eq(t, "led/pallet/luminance/set".as_bytes()) {
        Some(TopicField::Luminance)
    } else if bytes_eq(t, "led/pallet/speed/set".as_bytes()) {
        Some(TopicField::Speed)
    } else if bytes_eq(t, "led/pallet/size/set".as_bytes()) {
        Some(TopicField::Size)
    } else if bytes_eq(t, "led/pallet/effect/set".as_bytes()) {
        Some(TopicField::EffectSel)
    } else {
        None
    }
}

/// The topic the echo of a field is published on.
pub fn echo_topic(f: TopicField) -> (r: Vec<u8>)
    ensures
        r@ == spec_echo_topic(f),
{
    match f {
        TopicField::Color1 => vstd::slice::slice_to_vec("led/pallet/color1".as_bytes()),
        TopicField::Color2 => vstd::slice::slice_to_vec("led/pallet/color2".as_bytes()),
        TopicField::Chroma => vstd::slice::slice_to_vec("led/pallet/chroma".as_bytes()),
        TopicField::Luminance => vstd::slice::slice_to_vec("led/pallet/luminance".as_bytes()),
        TopicField::Speed => vstd::slice::slice_to_vec("led/pallet/speed".as_bytes()),
        TopicField::Size => vstd::slice::slice_to_vec("led/pallet/size".as_bytes()),
        TopicField::EffectSel => vstd::slice::slice_to_vec("led/pallet/effect".as_bytes()),
    }
}

/// The rendered text of an RGB value: the three channels, comma
/// separated.
pub open spec fn spec_render_rgb(c: RGB) -> Seq<u8> {
    spec_render_fixed(c.r as int) + seq![44u8] + spec_render_fixed(c.g as int) + seq![44u8]
        + spec_render_fixed(c.b as int)
}

/// Render an RGB value as the text the parser accepts.
pub fn render_rgb(c: &RGB) -> (r: Vec<u8>)
    requires
        rgb_wf(*c),
    ensures
        r@ == spec_render_rgb(*c),
{
    let mut out: Vec<u8> = render_fixed(c.r);
    out.push(44);
    let mut g: Vec<u8> = render_fixed(c.g);
    out.append(&mut g);
    out.push(44);
    let mut b: Vec<u8> = render_fixed(c.b);
    out.append(&mut b);
    proof {
        assert(out@ =~= spec_render_rgb(*c));
    }
    out
}

/// The single source of truth for what should currently be displayed:
/// the selected effect kind and the full parameter record. Owned by the
/// protocol adapter; only copies travel through the command queue.
#[derive(Clone, Copy, Debug, PartialEq, Eq, Structural)]
pub struct ServerState {
    pub effect: Effect,
    pub led_effect_params: Params,
}

/// A well-formed server state carries a well-formed parameter record.
pub open spec fn server_state_wf(s: ServerState) -> bool {
    params_wf(s.led_effect_params)
}

/// The initial server state: the rainbow effect over default parameters.
pub open spec fn spec_default_server_state() -> ServerState {
    ServerState {
        effect: Effect::Rainbow,
        led_effect_params: crate::effect::spec_default_params(),
    }
}

impl Default for ServerState {
    /// The initial server state.
    fn default() -> (r: ServerState)
        ensures
            r == spec_default_server_state(),
            server_state_wf(r),
    {
        ServerState { effect: Effect::Rainbow, led_effect_params: Params::default() }
    }
}

/// Application-level outcomes of one inbound message that leave every
/// piece of state untouched: the message is skipped, not fatal.
#[derive(Clone, Copy, Debug, PartialEq, Eq, Structural)]
pub enum ProtocolError {
    /// The topic is not one of the recognized set-topics.
    InvalidTopic,
    /// The payload does not parse as the topic's expected type.
    ParseParameter,
}

/// One outbound state-echo message.
#[derive(Debug)]
pub struct EchoMessage {
    /// The topic the message is published on.
    pub topic: Vec<u8>,
    /// The payload: the field's value in the parser's own text form.
    pub payload: Vec<u8>,
}

/// The server state after a successful update of `field` from `payload`,
/// or none when the payload does not parse.
pub open spec fn spec_apply_update(
    pre: ServerState,
    field: TopicField,
    payload: Seq<u8>,
) -> Option<ServerState> {
    match field {
        TopicField::Color1 => match spec_parse_rgb(payload) {
            Some(c) => Some(ServerState {
                led_effect_params: Params { color1: c, ..pre.led_effect_params },
                ..pre
            }),
            None => None,
        },
        TopicField::Color2 => match spec_parse_rgb(payload) {
            Some(c) => Some(ServerState {
                led_effect_params: Params { color2: c, ..pre.led_effect_params },
                ..pre
            }),
            None => None,
        },
        TopicField::Chroma => match spec_parse_knob(payload) {
            Some(v) => Some(ServerState {
                led_effect_params: Params { chroma: v, ..pre.led_effect_params },
                ..pre
            }),
            None => None,
        },
        TopicField::Luminance => match spec_parse_knob(payload) {
            Some(v) => Some(ServerState {
                led_effect_params: Params { luminance: v, ..pre.led_effect_params },
                ..pre
            }),
            None => None,
        },
        TopicField::Speed => match spec_parse_knob(payload) {
            Some(v) => Some(ServerState {
                led_effect_params: Params { speed: v, ..pre.led_effect_params },
                ..pre
            }),
            None => None,
        },
        TopicField::Size => match spec_parse_knob(payload) {
            Some(v) => Some(ServerState {
                led_effect_params: Params { size: v, ..pre.led_effect_params },
                ..pre
            }),
            None => None,
        },
        TopicField::EffectSel => match spec_parse_effect(payload) {
            Some(e) => Some(ServerState { effect: e, ..pre }),
            None => None,
        },
    }
}

/// A queue's contents after offering it one command: appended when there
/// is room, dropped silently when full.
pub open spec fn spec_offer(
    q: Seq<LedEffectCommand>,
    cap: int,
    c: LedEffectCommand,
) -> Seq<LedEffectCommand> {
    if q.len() < cap {
        q.push(c)
    } else {
        q
    }
}

/// The commands a successful update of `field` leaves on the queue: an
/// effect change enqueues the new kind first, and every successful
/// update enqueues the full current parameters, so a freshly selected
/// effect receives the latest parameters in the same logical step.
pub open spec fn spec_commands_after(
    q: Seq<LedEffectCommand>,
    cap: int,
    field: TopicField,
    post: ServerState,
) -> Seq<LedEffectCommand> {
    let q1 = if field == TopicField::EffectSel {
        spec_offer(q, cap, LedEffectCommand::ChangeEffect(post.effect))
    } else {
        q
    };
    spec_offer(q1, cap, LedEffectCommand::ConfigureParams(post.led_effect_params))
}

/// The full state echo: one message per field, in the fixed order
/// color1, color2, effect, chroma, luminance, size, speed, each payload
/// in exactly the text form the inbound parser accepts.
pub open spec fn spec_echo_matches(msgs: Seq<EchoMessage>, st: ServerState) -> bool {
    &&& msgs.len() == 7
    &&& msgs[0].topic@ == spec_echo_topic(TopicField::Color1)
    &&& msgs[0].payload@ == spec_render_rgb(st.led_effect_params.color1)
    &&& msgs[1].topic@ == spec_echo_topic(TopicField::Color2)
    &&& msgs[1].payload@ == spec_render_rgb(st.led_effect_params.color2)
    &&& msgs[2].topic@ == spec_echo_topic(TopicField::EffectSel)
    &&& msgs[2].payload@ == spec_effect_token(st.effect)
    &&& msgs[3].topic@ == spec_echo_topic(TopicField::Chroma)
    &&& msgs[3].payload@ == spec_render_fixed(st.led_effect_params.chroma as int)
    &&& msgs[4].topic@ == spec_echo_topic(TopicField::Luminance)
    &&& msgs[4].payload@ == spec_render_fixed(st.led_effect_params.luminance as int)
    &&& msgs[5].topic@ == spec_echo_topic(TopicField::Size)
    &&& msgs[5].payload@ == spec_render_fixed(st.led_effect_params.size as int)
    &&& msgs[6].topic@ == spec_echo_topic(TopicField::Speed)
    &&& msgs[6].payload@ == spec_render_fixed(st.led_effect_params.speed as int)
}

/// Build the outbound echo of the whole server state.
fn build_echo(st: &ServerState) -> (r: Vec<EchoMessage>)
    requires
        server_state_wf(*st),
    ensures
        spec_echo_matches(r@, *st),
{
    let mut msgs: Vec<EchoMessage> = Vec::new();
    msgs.push(
        EchoMessage {
            topic: echo_topic(TopicField::Color1),
            payload: render_rgb(&st.led_effect_params.color1),
        },
    );
    msgs.push(
        EchoMessage {
            topic: echo_topic(TopicField::Color2),
            payload: render_rgb(&st.led_effect_params.color2),
        },
    );
    msgs.push(
        EchoMessage { topic: echo_topic(TopicField::EffectSel), payload: effect_token(st.effect) },
    );
    msgs.push(
        EchoMessage {
            topic: echo_topic(TopicField::Chroma),
            payload: render_fixed(st.led_effect_params.chroma),
        },
    );
    msgs.push(
        EchoMessage {
            topic: echo_topic(TopicField::Luminance),
            payload: render_fixed(st.led_effect_params.luminance),
        },
    );
    msgs.push(
        EchoMessage {
            topic: echo_topic(TopicField::Size),
            payload: render_fixed(st.led_effect_params.size),
        },
    );
    msgs.push(
        EchoMessage {
            topic: echo_topic(TopicField::Speed),
            payload: render_fixed(st.led_effect_params.speed),
        },
    );
    msgs
}

/// Handle one inbound `(topic, payload)` message.
///
/// On a recognized topic whose payload parses, the matching field of the
/// server state is updated, the due commands are offered to the queue
/// (an effect change first, then the full parameters), and the echo of
/// the entire resulting state is returned for publishing. On an
/// unrecognized topic or a malformed payload nothing changes and the
/// error says which of the two happened — both are recoverable: the
/// message is skipped.
pub fn process_message(
    state: &mut ServerState,
    queue: &mut CommandQueue,
    topic: &[u8],
    payload: &[u8],
) -> (r: Result<Vec<EchoMessage>, ProtocolError>)
    requires
        server_state_wf(*old(state)),
        old(queue).wf(),
    ensures
        server_state_wf(*final(state)),
        final(queue).wf(),
        final(queue).capacity() == old(queue).capacity(),
        match spec_parse_topic(topic@) {
            None => {
                &&& r == Result::<Vec<EchoMessage>, ProtocolError>::Err(
                    ProtocolError::InvalidTopic,
                )
                &&& *final(state) == *old(state)
                &&& final(queue).contents() == old(queue).contents()
            },
            Some(field) => match spec_apply_update(*old(state), field, payload@) {
                None => {
                    &&& r == Result::<Vec<EchoMessage>, ProtocolError>::Err(
                        ProtocolError::ParseParameter,
                    )
                    &&& *final(state) == *old(state)
                    &&& final(queue).contents() == old(queue).contents()
                },
                Some(st2) => {
                    &&& r is Ok
                    &&& *final(state) == st2
                    &&& final(queue).contents() == spec_commands_after(
                        old(queue).contents(),
                        old(queue).capacity() as int,
                        field,
                        st2,
                    )
                    &&& spec_echo_matches(r->Ok_0@, st2)
                },
            },
        },
{
    let field: TopicField = match parse_topic(topic) {
        None => {
            return Err(ProtocolError::InvalidTopic);
        },
        Some(f) => f,
    };
    match field {
        TopicField::Color1 => match parse_rgb(payload) {
            None => {
                return Err(ProtocolError::ParseParameter);
            },
            Some(c) => {
                state.led_effect_params.color1 = c;
            },
        },
        TopicField::Color2 => match parse_rgb(payload) {
            None => {
                return Err(ProtocolError::ParseParameter);
            },
            Some(c) => {
                state.led_effect_params.color2 = c;
            },
        },
        TopicField::Chroma => match parse_knob(payload) {
            None => {
                return Err(ProtocolError::ParseParameter);
            },
            Some(v) => {
                state.led_effect_params.chroma = v;
            },
        },
        TopicField::Luminance => match parse_knob(payload) {
            None => {
                return Err(ProtocolError::ParseParameter);
            },
            Some(v) => {
                state.led_effect_params.luminance = v;
            },
        },
        TopicField::Speed => match parse_knob(payload) {
            None => {
                return Err(ProtocolError::ParseParameter);
            },
            Some(v) => {
                state.led_effect_params.speed = v;
            },
        },
        TopicField::Size => match parse_knob(payload) {
            None => {
                return Err(ProtocolError::ParseParameter);
            },
            Some(v) => {
                state.led_effect_params.size = v;
            },
        },
        TopicField::EffectSel => match parse_effect(payload) {
            None => {
                return Err(ProtocolError::ParseParameter);
            },
            Some(e) => {
                state.effect = e;
                let _ = queue.enqueue(LedEffectCommand::ChangeEffect(e));
            },
        },
    }
    let _ = queue.enqueue(LedEffectCommand::ConfigureParams(state.led_effect_params));
    Ok(build_echo(state))
}

} // verus!
