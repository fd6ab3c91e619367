//! Startup configuration values: strict parsers for the numeric settings
//! (broker port, LED count) that the process is given as text at start.
//!
//! These parsers are for values that must be right before anything runs,
//! so a caller may only hand them text that parses: a malformed or
//! out-of-range setting is a build-time mistake, not a runtime input.

use vstd::prelude::*;
use crate::text::all_digits;
use crate::text::spec_parse_decimal;
use crate::text::parse_decimal_range;

verus! {

/// Parse a decimal `u16`, such as the broker port. The text must be one
/// to five ASCII digits denoting a value that fits in sixteen bits.
pub fn must_parse_u16(s: &[u8]) -> (r: u16)
    requires
        1 <= s@.len() <= 5,
        all_digits(s@),
        spec_parse_decimal(s@) <= u16::MAX,
    ensures
        r as int == spec_parse_decimal(s@),
{
    proof {
        assert(s@.subrange(0, s@.len() as int) =~= s@);
    }
    let r: Option<i64> = parse_decimal_range(s, 0, s.len());
    match r {
        Some(v) => v as u16,
        None => 0,
    }
}

/// Parse the LED count: a decimal `u16` that must be greater than zero —
/// a strip with no pixels cannot display anything.
pub fn must_parse_led_count(s: &[u8]) -> (r: usize)
    requires
        1 <= s@.len() <= 5,
        all_digits(s@),
        1 <= spec_parse_decimal(s@) <= u16::MAX,
    ensures
        r as int == spec_parse_decimal(s@),
        1 <= r <= u16::MAX,
{
    let v: u16 = must_parse_u16(s);
    v as usize
}

} // verus!
