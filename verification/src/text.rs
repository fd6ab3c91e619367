//! Decimal text: parsing digit strings into integers and fixed-point
//! values, and rendering them back.
//!
//! The renderer emits exactly the text the parser accepts, so the control
//! channel's outbound state echo is self-consistent for observers: an
//! integer part without leading zeros and, when the fractional part is
//! nonzero, a dot followed by the fraction with trailing zeros stripped.

use vstd::prelude::*;
use crate::fixed::SCALE;

verus! {

/// ASCII codes of the digit characters.
pub open spec fn is_ascii_digit(b: u8) -> bool {
    48 <= b <= 57
}

/// The numeric value of one ASCII digit.
pub open spec fn digit_val(b: u8) -> int {
    b - 48
}

/// Every byte of `s` is an ASCII digit.
pub open spec fn all_digits(s: Seq<u8>) -> bool {
    forall|i: int| 0 <= i < s.len() ==> is_ascii_digit(#[trigger] s[i])
}

/// The value of a most-significant-first digit string.
pub open spec fn spec_parse_decimal(s: Seq<u8>) -> int
    decreases s.len(),
{
    if s.len() == 0 {
        0
    } else {
        spec_parse_decimal(s.drop_last()) * 10 + digit_val(s.last())
    }
}

/// Ten to the `k`.
pub open spec fn spec_pow10(k: nat) -> int
    decreases k,
{
    if k == 0 {
        1
    } else {
        10 * spec_pow10((k - 1) as nat)
    }
}

/// The first few powers of ten, unrolled for concrete arithmetic.
pub proof fn lemma_pow10_vals()
    ensures
        spec_pow10(0) == 1,
        spec_pow10(1) == 10,
        spec_pow10(2) == 100,
        spec_pow10(3) == 1000,
        spec_pow10(4) == 10_000,
        spec_pow10(5) == 100_000,
        spec_pow10(6) == 1_000_000,
        spec_pow10(7) == 10_000_000,
        spec_pow10(8) == 100_000_000,
        spec_pow10(9) == 1_000_000_000,
        spec_pow10(10) == 10_000_000_000,
{
    reveal_with_fuel(spec_pow10, 12);
}

/// A digit string's value is nonnegative and below ten to its length.
pub proof fn lemma_parse_decimal_bounds(s: Seq<u8>)
    requires
        all_digits(s),
    ensures
        0 <= spec_parse_decimal(s) < spec_pow10(s.len()),
    decreases s.len(),
{
    if s.len() > 0 {
        let p = s.drop_last();
        assert(all_digits(p));
        lemma_parse_decimal_bounds(p);
        assert(spec_parse_decimal(p) * 10 <= (spec_pow10(p.len()) - 1) * 10) by (nonlinear_arith)
            requires
                spec_parse_decimal(p) <= spec_pow10(p.len()) - 1,
        ;
    }
}

/// Appending one digit multiplies the value by ten and adds the digit.
pub proof fn lemma_parse_decimal_push(s: Seq<u8>, b: u8)
    ensures
        spec_parse_decimal(s.push(b)) == spec_parse_decimal(s) * 10 + digit_val(b),
{
    assert(s.push(b).drop_last() =~= s);
    assert(s.push(b).last() == b);
}

/// Parse `s[start..end]` as a decimal digit string: `Some` exactly when
/// the range is nonempty and all digits.
pub fn parse_decimal_range(s: &[u8], start: usize, end: usize) -> (r: Option<i64>)
    requires
        start <= end <= s@.len(),
        end - start <= 10,
    ensures
        r is Some <==> (start < end && all_digits(s@.subrange(start as int, end as int))),
        r is Some ==> {
            &&& r->0 as int == spec_parse_decimal(s@.subrange(start as int, end as int))
            &&& 0 <= r->0 < 10_000_000_000
        },
{
    if start == end {
        return None;
    }
    let ghost whole = s@.subrange(start as int, end as int);
    let mut acc: i64 = 0;
    let mut i: usize = start;
    while i < end
        invariant
            start <= i <= end <= s@.len(),
            end - start <= 10,
            whole == s@.subrange(start as int, end as int),
            all_digits(s@.subrange(start as int, i as int)),
            acc as int == spec_parse_decimal(s@.subrange(start as int, i as int)),
            0 <= acc < spec_pow10((i - start) as nat),
            spec_pow10((i - start) as nat) <= 10_000_000_000,
        decreases end - i,
    {
        proof {
            lemma_pow10_vals();
        }
        let b: u8 = s[i];
        if b < 48 || b > 57 {
            proof {
                assert(!is_ascii_digit(whole[i - start]));
            }
            return None;
        }
        proof {
            let pre = s@.subrange(start as int, i as int);
            let ext = s@.subrange(start as int, i as int + 1);
            assert(ext =~= pre.push(s@[i as int]));
            lemma_parse_decimal_push(pre, s@[i as int]);
            assert(forall|j: int|
                0 <= j < ext.len() ==> is_ascii_digit(#[trigger] ext[j]) == (if j < pre.len() {
                    is_ascii_digit(pre[j])
                } else {
                    is_ascii_digit(s@[i as int])
                }));
            lemma_pow10_le((i + 1 - start) as nat, 10);
        }
        acc = acc * 10 + ((b - 48) as i64);
        i = i + 1;
    }
    proof {
        assert(s@.subrange(start as int, i as int) =~= whole);
    }
    Some(acc)
}

/// Powers of ten are monotone in the exponent.
pub proof fn lemma_pow10_le(a: nat, b: nat)
    requires
        a <= b,
    ensures
        spec_pow10(a) <= spec_pow10(b),
        spec_pow10(a) >= 1,
    decreases b,
{
    if a == b {
        if a > 0 {
            lemma_pow10_le((a - 1) as nat, (a - 1) as nat);
        }
    } else {
        lemma_pow10_le(a, (b - 1) as nat);
    }
}

/// The decimal digits of a nonnegative integer, most significant first,
/// without leading zeros.
pub open spec fn spec_render_decimal(n: int) -> Seq<u8>
    decreases n,
{
    if n < 10 {
        seq![(48 + if n >= 0 { n } else { 0 }) as u8]
    } else {
        spec_render_decimal(n / 10).push((48 + n % 10) as u8)
    }
}

/// Exactly `k` decimal digits of `n`, most significant first, with
/// leading zeros.
pub open spec fn spec_render_padded(n: int, k: nat) -> Seq<u8>
    decreases k,
{
    if k == 0 {
        Seq::empty()
    } else {
        spec_render_padded(n / 10, (k - 1) as nat).push((48 + n % 10) as u8)
    }
}

/// `s` with every trailing ASCII zero removed.
pub open spec fn spec_strip_zeros(s: Seq<u8>) -> Seq<u8>
    decreases s.len(),
{
    if s.len() > 0 && s.last() == 48 {
        spec_strip_zeros(s.drop_last())
    } else {
        s
    }
}

/// The text of a nonnegative fixed-point value: the integer part and,
/// when the fraction is nonzero, a dot and the fraction's seven digits
/// with trailing zeros stripped.
pub open spec fn spec_render_fixed(v: int) -> Seq<u8> {
    let ip = v / (SCALE as int);
    let fp = v % (SCALE as int);
    if fp == 0 {
        spec_render_decimal(ip)
    } else {
        spec_render_decimal(ip) + seq![46u8] + spec_strip_zeros(spec_render_padded(fp, 7))
    }
}

/// Render a nonnegative integer as decimal digits.
pub fn render_decimal(n: u64) -> (r: Vec<u8>)
    requires
        n <= 1_000_000_000_000,
    ensures
        r@ == spec_render_decimal(n as int),
        r@.len() >= 1,
    decreases n,
{
    if n < 10 {
        let mut v: Vec<u8> = Vec::new();
        v.push(48 + (n as u8));
        proof {
            assert(v@ =~= spec_render_decimal(n as int));
        }
        v
    } else {
        let mut v: Vec<u8> = render_decimal(n / 10);
        v.push(48 + ((n % 10) as u8));
        v
    }
}

/// Render exactly `k` digits of `n`, most significant first.
fn render_padded(n: u64, k: usize) -> (r: Vec<u8>)
    requires
        k <= 7,
    ensures
        r@ == spec_render_padded(n as int, k as nat),
        r@.len() == k,
    decreases k,
{
    if k == 0 {
        let v: Vec<u8> = Vec::new();
        proof {
            assert(v@ =~= spec_render_padded(n as int, 0));
        }
        v
    } else {
        let mut v: Vec<u8> = render_padded(n / 10, k - 1);
        v.push(48 + ((n % 10) as u8));
        v
    }
}

/// Remove trailing ASCII zeros in place.
fn strip_zeros(v: &mut Vec<u8>)
    ensures
        final(v)@ == spec_strip_zeros(old(v)@),
{
    while v.len() > 0 && v[v.len() - 1] == 48
        invariant
            spec_strip_zeros(v@) == spec_strip_zeros(old(v)@),
        decreases v@.len(),
    {
        let _ = v.pop();
    }
}

/// Render a nonnegative fixed-point value as the decimal text the parser
/// accepts: shortest form, no trailing zeros.
pub fn render_fixed(v: i64) -> (r: Vec<u8>)
    requires
        0 <= v <= 10_000_000_000_000_000,
    ensures
        r@ == spec_render_fixed(v as int),
{
    proof {
        vstd::arithmetic::div_mod::lemma_div_is_ordered(
            v as int,
            10_000_000_000_000_000,
            SCALE as int,
        );
        vstd::arithmetic::div_mod::lemma_div_basics_4(v as int, SCALE as int);
    }
    let ip: u64 = (v as u64) / (SCALE as u64);
    let fp: u64 = (v as u64) % (SCALE as u64);
    if fp == 0 {
        render_decimal(ip)
    } else {
        let mut out: Vec<u8> = render_decimal(ip);
        out.push(46);
        let mut frac: Vec<u8> = render_padded(fp, 7);
        strip_zeros(&mut frac);
        out.append(&mut frac);
        proof {
            assert(out@ =~= spec_render_decimal((v as int) / (SCALE as int)) + seq![46u8]
                + spec_strip_zeros(spec_render_padded((v as int) % (SCALE as int), 7)));
        }
        out
    }
}

/// Whether two byte strings hold the same bytes.
pub fn bytes_eq(a: &[u8], b: &[u8]) -> (r: bool)
    ensures
        r <==> a@ == b@,
{
    if a.len() != b.len() {
        proof {
            assert(a@ !~= b@);
        }
        return false;
    }
    let n: usize = a.len();
    let mut i: usize = 0;
    while i < n
        invariant
            i <= n,
            n == a@.len() == b@.len(),
            forall|j: int| 0 <= j < i as int ==> a@[j] == b@[j],
        decreases n - i,
    {
        if a[i] != b[i] {
            return false;
        }
        i = i + 1;
    }
    proof {
        assert(a@ =~= b@);
    }
    true
}

/// The rendering of a nonnegative integer parses back to it: the digits
/// are digits, there is at least one, and their value is the integer.
pub proof fn lemma_render_decimal_parses(n: int)
    requires
        0 <= n,
    ensures
        all_digits(spec_render_decimal(n)),
        spec_render_decimal(n).len() >= 1,
        spec_parse_decimal(spec_render_decimal(n)) == n,
    decreases n,
{
    if n < 10 {
        let s = spec_render_decimal(n);
        assert(s =~= seq![(48 + n) as u8]);
        assert(s.drop_last() =~= Seq::<u8>::empty());
        assert((48 + n) as u8 == 48 + n);
        assert(s.last() == (48 + n) as u8);
        assert(digit_val(s.last()) == n);
        assert(spec_parse_decimal(s) == spec_parse_decimal(s.drop_last()) * 10 + digit_val(
            s.last(),
        ));
    } else {
        lemma_render_decimal_parses(n / 10);
        vstd::arithmetic::div_mod::lemma_mod_bound(n, 10);
        let p = spec_render_decimal(n / 10);
        let b = (48 + n % 10) as u8;
        lemma_parse_decimal_push(p, b);
        vstd::arithmetic::div_mod::lemma_fundamental_div_mod(n, 10);
        assert(forall|j: int|
            0 <= j < p.push(b).len() ==> p.push(b)[j] == (if j < p.len() {
                p[j]
            } else {
                b
            }));
    }
}

/// An integer below ten to the `k` renders to at most `k` digits.
pub proof fn lemma_render_decimal_len(n: int, k: nat)
    requires
        0 <= n < spec_pow10(k),
        1 <= k,
    ensures
        spec_render_decimal(n).len() <= k,
    decreases k,
{
    if n < 10 {
    } else {
        lemma_pow10_vals();
        lemma_pow10_le(1, k);
        let p = spec_pow10((k - 1) as nat);
        assert(spec_pow10(k) == 10 * p);
        vstd::arithmetic::div_mod::lemma_div_is_ordered(n, 10 * p - 1, 10);
        vstd::arithmetic::div_mod::lemma_fundamental_div_mod_converse_div(
            10 * p - 1,
            10,
            p - 1,
            9,
        );
        assert(n / 10 < p);
        lemma_pow10_le(1, (k - 1) as nat);
        lemma_render_decimal_len(n / 10, (k - 1) as nat);
    }
}

/// The fixed-width rendering of an integer below ten to the `k` is `k`
/// digits whose value is the integer.
pub proof fn lemma_render_padded_parses(n: int, k: nat)
    requires
        0 <= n < spec_pow10(k),
    ensures
        all_digits(spec_render_padded(n, k)),
        spec_render_padded(n, k).len() == k,
        spec_parse_decimal(spec_render_padded(n, k)) == n,
    decreases k,
{
    if k == 0 {
        assert(spec_render_padded(n, 0) =~= Seq::<u8>::empty());
    } else {
        let p = spec_pow10((k - 1) as nat);
        assert(spec_pow10(k) == 10 * p);
        lemma_pow10_le(0, (k - 1) as nat);
        vstd::arithmetic::div_mod::lemma_div_is_ordered(n, 10 * p - 1, 10);
        vstd::arithmetic::div_mod::lemma_fundamental_div_mod_converse_div(
            10 * p - 1,
            10,
            p - 1,
            9,
        );
        vstd::arithmetic::div_mod::lemma_div_basics_4(n, 10);
        assert(0 <= n / 10 < p);
        lemma_render_padded_parses(n / 10, (k - 1) as nat);
        vstd::arithmetic::div_mod::lemma_mod_bound(n, 10);
        let q = spec_render_padded(n / 10, (k - 1) as nat);
        let b = (48 + n % 10) as u8;
        lemma_parse_decimal_push(q, b);
        vstd::arithmetic::div_mod::lemma_fundamental_div_mod(n, 10);
        assert(forall|j: int|
            0 <= j < q.push(b).len() ==> q.push(b)[j] == (if j < q.len() {
                q[j]
            } else {
                b
            }));
    }
}

/// Stripping trailing zeros keeps every remaining byte a digit and never
/// lengthens the string.
pub proof fn lemma_strip_zeros_digits(s: Seq<u8>)
    requires
        all_digits(s),
    ensures
        all_digits(spec_strip_zeros(s)),
        spec_strip_zeros(s).len() <= s.len(),
    decreases s.len(),
{
    if s.len() > 0 && s.last() == 48 {
        assert(all_digits(s.drop_last()));
        lemma_strip_zeros_digits(s.drop_last());
    }
}

} // verus!
