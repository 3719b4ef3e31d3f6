//! Fixed-point decimals: an amount is an integer number of units of 10^-8.
//!
//! Exchanges quote prices and quantities as decimal strings with at most eight
//! fractional digits, so every value they send is represented exactly.

use vstd::prelude::*;
use vstd::string::StringSliceAdditionalSpecFns;

verus! {

/// Number of units in one whole: amounts carry eight decimal places.
pub const SCALE: u64 = 100_000_000;

/// One hundred percent, as a percentage in units.
pub const HUNDRED_PERCENT: u64 = 10_000_000_000;

/// The largest multiple of `step` that does not exceed `value`; zero when the
/// step is zero.
pub open spec fn round_to_step_spec(value: u64, step: u64) -> u64 {
    if step == 0 {
        0
    } else {
        ((value / step) * step) as u64
    }
}

/// Rounds `value` down to a multiple of `step`. A zero step is never divided
/// by: the result is then zero.
pub fn round_to_step(value: u64, step: u64) -> (rounded: u64)
    ensures
        rounded == round_to_step_spec(value, step),
        rounded <= value,
        step == 0 ==> rounded == 0,
        step > 0 ==> rounded % step == 0 && value - rounded < step,
        step > 0 ==> rounded as int == (value as int / step as int) * step as int,
{
    if step == 0 {
        return 0;
    }
    let q: u64 = value / step;
    proof {
        lemma_floor_multiple(value as int, step as int);
    }
    q * step
}

/// For a positive step, `(value / step) * step` is a multiple of the step that
/// lies within one step below `value`.
pub proof fn lemma_floor_multiple(value: int, step: int)
    requires
        value >= 0,
        step > 0,
    ensures
        0 <= (value / step) * step <= value,
        value - (value / step) * step < step,
        ((value / step) * step) % step == 0,
{
    let q = value / step;
    assert(value == step * q + value % step) by {
        vstd::arithmetic::div_mod::lemma_fundamental_div_mod(value, step);
    }
    assert(0 <= value % step < step) by {
        vstd::arithmetic::div_mod::lemma_mod_bound(value, step);
    }
    assert(q * step == step * q) by (nonlinear_arith);
    assert(q >= 0) by {
        vstd::arithmetic::div_mod::lemma_div_pos_is_pos(value, step);
    }
    assert((q * step) % step == 0) by {
        vstd::arithmetic::div_mod::lemma_mod_multiples_basic(q, step);
    }
}

/// Rounding an amount that is already a multiple of the step changes nothing.
pub proof fn lemma_round_to_step_idempotent(value: u64, step: u64)
    ensures
        round_to_step_spec(round_to_step_spec(value, step), step) == round_to_step_spec(
            value,
            step,
        ),
{
    if step > 0 {
        lemma_floor_multiple(value as int, step as int);
        let q = value as int / step as int;
        let d = step as int;
        assert(q * d == d * q) by (nonlinear_arith);
        assert((d * q) / d == q) by {
            vstd::arithmetic::div_mod::lemma_div_multiples_vanish(q, d);
        }
    }
}


/// An ASCII decimal digit.
pub open spec fn is_digit(b: u8) -> bool {
    48 <= b <= 57
}

/// The end of the run of digits that starts at `from`.
pub open spec fn digit_run(s: Seq<u8>, from: int) -> int
    decreases s.len() - from,
{
    if 0 <= from < s.len() && is_digit(s[from]) {
        digit_run(s, from + 1)
    } else {
        from
    }
}

/// The number that a string of digits writes in base ten.
pub open spec fn digits_value(s: Seq<u8>) -> nat
    decreases s.len(),
{
    if s.len() == 0 {
        0
    } else {
        digits_value(s.drop_last()) * 10 + (s.last() - 48) as nat
    }
}

/// The digit at place `k` of a fraction; places past its end read as zero.
pub open spec fn frac_digit(f: Seq<u8>, k: int) -> nat {
    if 0 <= k < f.len() {
        (f[k] - 48) as nat
    } else {
        0
    }
}

/// The first `places` digits of a fraction, read as a whole number. Further
/// digits are dropped.
pub open spec fn frac_units(f: Seq<u8>, places: nat) -> nat
    decreases places,
{
    if places == 0 {
        0
    } else {
        frac_units(f, (places - 1) as nat) * 10 + frac_digit(f, places - 1)
    }
}

/// The amount, in units, that a decimal string writes: digits, then optionally
/// a point and more digits, with at least one digit in all. Anything else
/// (a sign, an exponent, blanks, an empty string) writes no amount.
pub open spec fn amount_of(s: Seq<u8>) -> Option<nat> {
    let d = digit_run(s, 0);
    if d == s.len() {
        if d > 0 {
            Some(digits_value(s) * (SCALE as nat))
        } else {
            None
        }
    } else if s[d] == 46 {
        if digit_run(s, d + 1) == s.len() && s.len() > 1 {
            Some(
                digits_value(s.subrange(0, d)) * (SCALE as nat) + frac_units(
                    s.subrange(d + 1, s.len() as int),
                    8,
                ),
            )
        } else {
            None
        }
    } else {
        None
    }
}

/// The amount that a decimal string with an optional leading minus writes.
pub open spec fn signed_amount_of(s: Seq<u8>) -> Option<int> {
    if s.len() > 0 && s[0] == 45 {
        match amount_of(s.subrange(1, s.len() as int)) {
            Some(v) => Some(-(v as int)),
            None => None,
        }
    } else {
        match amount_of(s) {
            Some(v) => Some(v as int),
            None => None,
        }
    }
}

/// Ten to the power `k`.
pub open spec fn pow10(k: nat) -> nat
    decreases k,
{
    if k == 0 {
        1
    } else {
        10 * pow10((k - 1) as nat)
    }
}

proof fn lemma_pow10_small(k: nat)
    requires
        k <= 8,
    ensures
        1 <= pow10(k) <= 100_000_000,
        k == 8 ==> pow10(k) == 100_000_000,
{
    reveal_with_fuel(pow10, 10);
}

proof fn lemma_digits_value_grows(s: Seq<u8>, i: int)
    requires
        0 <= i < s.len(),
        is_digit(s[i]),
    ensures
        digits_value(s.subrange(0, i + 1)) == digits_value(s.subrange(0, i)) * 10 + (s[i] - 48),
        digits_value(s.subrange(0, i + 1)) >= digits_value(s.subrange(0, i)),
{
    assert(s.subrange(0, i + 1).drop_last() =~= s.subrange(0, i));
}

/// The largest whole part that is carried digit by digit; any larger one
/// already exceeds 128 bits once scaled.
const WHOLE_CAP: u128 = 0x0fff_ffff_ffff_ffff_ffff_ffff_ffff_ffff;

/// Reads a decimal amount from bytes. `None` where the bytes write no amount
/// or the amount does not fit in 128 bits.
pub fn parse_amount_wide(b: &[u8]) -> (parsed: Option<u128>)
    ensures
        parsed == match amount_of(b@) {
            Some(v) => if v <= u128::MAX {
                Some(v as u128)
            } else {
                None
            },
            None => None,
        },
{
    let n = b.len();
    let mut i: usize = 0;
    let mut whole: u128 = 0;
    let mut over = false;
    while i < n && b[i] >= 48 && b[i] <= 57
        invariant
            n == b.len(),
            i <= n,
            digit_run(b@, 0) == digit_run(b@, i as int),
            !over ==> whole == digits_value(b@.subrange(0, i as int)) && whole <= WHOLE_CAP,
            over ==> digits_value(b@.subrange(0, i as int)) > WHOLE_CAP,
        decreases n - i,
    {
        proof {
            lemma_digits_value_grows(b@, i as int);
        }
        if !over {
            whole = whole * 10 + ((b[i] - 48) as u128);
            if whole > WHOLE_CAP {
                over = true;
            }
        }
        i += 1;
    }
    let d = i;
    if d == n {
        proof {
            assert(b@.subrange(0, n as int) =~= b@);
        }
        if d == 0 || over {
            proof {
                if over {
                    lemma_over_cap(digits_value(b@), 0);
                }
            }
            return None;
        }
        return whole.checked_mul(SCALE as u128);
    }
    if b[d] != 46 {
        return None;
    }
    let ghost f = b@.subrange(d as int + 1, n as int);
    let mut e: usize = d + 1;
    let mut frac: u128 = 0;
    let mut taken: usize = 0;
    while e < n && b[e] >= 48 && b[e] <= 57
        invariant
            n == b.len(),
            d < n,
            d + 1 <= e <= n,
            f == b@.subrange(d as int + 1, n as int),
            digit_run(b@, d as int + 1) == digit_run(b@, e as int),
            taken <= 8,
            taken <= e - d - 1,
            taken < 8 ==> taken == e - d - 1,
            frac == frac_units(f, taken as nat),
            frac < pow10(taken as nat),
        decreases n - e,
    {
        if taken < 8 {
            proof {
                lemma_pow10_small(taken as nat);
                assert(frac_digit(f, taken as int) == (b@[e as int] - 48) as nat);
            }
            frac = frac * 10 + ((b[e] - 48) as u128);
            taken += 1;
        }
        e += 1;
    }
    if e != n || n == 1 {
        return None;
    }
    while taken < 8
        invariant
            taken <= 8,
            taken < 8 ==> taken >= f.len(),
            frac == frac_units(f, taken as nat),
            frac < pow10(taken as nat),
        decreases 8 - taken,
    {
        proof {
            lemma_pow10_small(taken as nat);
        }
        frac = frac * 10;
        taken += 1;
    }
    proof {
        lemma_pow10_small(8);
    }
    if over {
        proof {
            lemma_over_cap(digits_value(b@.subrange(0, d as int)), frac as nat);
        }
        return None;
    }
    match whole.checked_mul(SCALE as u128) {
        Some(scaled) => scaled.checked_add(frac),
        None => None,
    }
}

proof fn lemma_over_cap(whole: nat, frac: nat)
    requires
        whole > WHOLE_CAP,
    ensures
        whole * (SCALE as nat) + frac > u128::MAX,
{
    assert(whole * (SCALE as nat) >= 0x1000_0000_0000_0000_0000_0000_0000_0000 * 100_000_000)
        by (nonlinear_arith)
        requires
            whole >= 0x1000_0000_0000_0000_0000_0000_0000_0000,
            SCALE as nat == 100_000_000,
    ;
}

/// Reads a decimal amount from bytes. `None` where the bytes write no amount
/// or the amount does not fit in 64 bits.
pub fn parse_amount_bytes(b: &[u8]) -> (parsed: Option<u64>)
    ensures
        parsed == match amount_of(b@) {
            Some(v) => if v <= u64::MAX {
                Some(v as u64)
            } else {
                None
            },
            None => None,
        },
{
    match parse_amount_wide(b) {
        Some(v) => if v <= u64::MAX as u128 {
            Some(v as u64)
        } else {
            None
        },
        None => None,
    }
}

/// Reads a decimal amount from a string; see [`amount_of`] for the grammar.
pub fn parse_amount(s: &str) -> (parsed: Option<u64>)
    ensures
        parsed == match amount_of(s.spec_bytes()) {
            Some(v) => if v <= u64::MAX {
                Some(v as u64)
            } else {
                None
            },
            None => None,
        },
{
    parse_amount_bytes(s.as_bytes())
}

/// Reads a positive decimal amount: `None` also where the amount is zero.
pub fn parse_price(s: &str) -> (parsed: Option<u64>)
    ensures
        parsed == price_of(s.spec_bytes()),
{
    match parse_amount(s) {
        Some(v) => if v > 0 {
            Some(v)
        } else {
            None
        },
        None => None,
    }
}

/// The positive amount that a string writes, if it writes one that fits.
pub open spec fn price_of(s: Seq<u8>) -> Option<u64> {
    match amount_of(s) {
        Some(v) => if 0 < v <= u64::MAX {
            Some(v as u64)
        } else {
            None
        },
        None => None,
    }
}

/// Reads a decimal amount with an optional leading minus.
pub fn parse_signed_amount(s: &str) -> (parsed: Option<i128>)
    ensures
        parsed == match signed_amount_of(s.spec_bytes()) {
            Some(v) => if -(u64::MAX as int) <= v <= u64::MAX {
                Some(v as i128)
            } else {
                None
            },
            None => None,
        },
{
    let b = s.as_bytes();
    if b.len() > 0 && b[0] == 45 {
        let rest = vstd::slice::slice_subrange(b, 1, b.len());
        match parse_amount_bytes(rest) {
            Some(v) => Some(-(v as i128)),
            None => None,
        }
    } else {
        match parse_amount_bytes(b) {
            Some(v) => Some(v as i128),
            None => None,
        }
    }
}


/// Division rounded toward minus infinity, for a positive divisor.
pub fn floor_div(num: i128, den: u64) -> (q: i128)
    requires
        den > 0,
        -0x4000_0000_0000_0000_0000_0000_0000_0000 <= num <= 0x4000_0000_0000_0000_0000_0000_0000_0000,
    ensures
        q as int == num as int / den as int,
        num >= 0 ==> 0 <= q <= num,
        num < 0 ==> num <= q < 0,
{
    if num >= 0 {
        proof {
            vstd::arithmetic::div_mod::lemma_div_pos_is_pos(num as int, den as int);
            vstd::arithmetic::div_mod::lemma_div_is_ordered_by_denominator(num as int, 1, den as int);
        }
        num / (den as i128)
    } else {
        let a: u128 = (-num) as u128;
        let d: u128 = den as u128;
        proof {
            lemma_floor_of_negative(a as int, d as int);
        }
        let up: u128 = (a + d - 1) / d;
        -(up as i128)
    }
}

/// Growth from `from` to `to` in percent, in units, rounded toward minus
/// infinity.
pub open spec fn growth_percent(from: u64, to: u64) -> int {
    ((to as int - from as int) * (HUNDRED_PERCENT as int)) / (from as int)
}

/// Computes the growth from `from` to `to` in percent.
pub fn growth(from: u64, to: u64) -> (g: i128)
    requires
        from > 0,
    ensures
        g as int == growth_percent(from, to),
        -0x4_0000_0000_0000_0000_0000_0000 <= g <= 0x4_0000_0000_0000_0000_0000_0000,
{
    let diff: i128 = (to as i128) - (from as i128);
    proof {
        assert(-0x4_0000_0000_0000_0000_0000_0000 <= diff as int * 10_000_000_000
            <= 0x4_0000_0000_0000_0000_0000_0000) by (nonlinear_arith)
            requires
                -0xffff_ffff_ffff_ffff <= diff as int <= 0xffff_ffff_ffff_ffff,
        ;
    }
    let num: i128 = diff * (HUNDRED_PERCENT as i128);
    floor_div(num, from)
}


/// For positive `a` and `d`, `-a` divided by `d` toward minus infinity is the
/// negative of `a` divided by `d` toward plus infinity.
pub proof fn lemma_floor_of_negative(a: int, d: int)
    requires
        a > 0,
        d > 0,
    ensures
        (-a) / d == -((a + d - 1) / d),
        1 <= (a + d - 1) / d <= a,
{
    let q = (a + d - 1) / d;
    vstd::arithmetic::div_mod::lemma_fundamental_div_mod(a + d - 1, d);
    vstd::arithmetic::div_mod::lemma_mod_bound(a + d - 1, d);
    let r = (a + d - 1) % d;
    assert(a + d - 1 == d * q + r);
    assert(d * q == q * d) by (nonlinear_arith);
    let back = q * d - a;
    assert(0 <= back < d);
    assert((-q) * d == -(q * d)) by (nonlinear_arith);
    assert(-a == (-q) * d + back);
    vstd::arithmetic::div_mod::lemma_fundamental_div_mod_converse(-a, d, -q, back);
    assert(q >= 1) by (nonlinear_arith)
        requires
            q * d >= a,
            a >= 1,
            d >= 1,
    ;
    assert(q <= a) by (nonlinear_arith)
        requires
            q * d - a < d,
            q >= 1,
            a >= 1,
            d >= 1,
    ;
}

/// The product of a signed and an unsigned amount, in units, rounded toward
/// minus infinity.
pub open spec fn scaled_product_spec(a: int, b: u64) -> int {
    (a * b as int) / (SCALE as int)
}

/// Multiplies a signed amount of at most 64 bits by an unsigned one.
pub fn scaled_product(a: i128, b: u64) -> (p: i128)
    requires
        -(u64::MAX as int) <= a <= u64::MAX,
    ensures
        p as int == scaled_product_spec(a as int, b),
        -0x40_0000_0000_0000_0000_0000_0000 <= p <= 0x40_0000_0000_0000_0000_0000_0000,
{
    if a >= 0 {
        proof {
            assert(0 <= a as int * b as int <= 0xffff_ffff_ffff_ffff * 0xffff_ffff_ffff_ffff)
                by (nonlinear_arith)
                requires
                    0 <= a as int <= 0xffff_ffff_ffff_ffff,
                    0 <= b as int <= 0xffff_ffff_ffff_ffff,
            ;
            vstd::arithmetic::div_mod::lemma_div_pos_is_pos(a as int * b as int, SCALE as int);
            vstd::arithmetic::div_mod::lemma_div_is_ordered(
                a as int * b as int,
                0xffff_ffff_ffff_ffff_int * 0xffff_ffff_ffff_ffff_int,
                SCALE as int,
            );
        }
        let product: u128 = (a as u128) * (b as u128);
        (product / (SCALE as u128)) as i128
    } else {
        let m: u128 = (-a) as u128;
        proof {
            assert(0 <= m as int * b as int <= 0xffff_ffff_ffff_ffff * 0xffff_ffff_ffff_ffff)
                by (nonlinear_arith)
                requires
                    0 <= m as int <= 0xffff_ffff_ffff_ffff,
                    0 <= b as int <= 0xffff_ffff_ffff_ffff,
            ;
            assert(a as int * b as int == -(m as int * b as int)) by (nonlinear_arith)
                requires
                    a as int == -(m as int),
            ;
        }
        let product: u128 = m * (b as u128);
        if product == 0 {
            0
        } else {
            proof {
                lemma_floor_of_negative(product as int, SCALE as int);
                vstd::arithmetic::div_mod::lemma_div_is_ordered(
                    product as int + SCALE as int - 1,
                    0xffff_ffff_ffff_ffff_int * 0xffff_ffff_ffff_ffff_int + 99_999_999,
                    SCALE as int,
                );
            }
            let up: u128 = (product + (SCALE as u128) - 1) / (SCALE as u128);
            -(up as i128)
        }
    }
}

/// The largest size of a running total: two to the power 126.
pub const SUM_LIMIT: i128 = 0x4000_0000_0000_0000_0000_0000_0000_0000;

/// A total lies within the limit, on either side of zero.
pub open spec fn within_limit(total: int) -> bool {
    -SUM_LIMIT <= total <= SUM_LIMIT
}

/// Adds a term to a running total; `None` where the sum leaves the limit.
pub fn add_within(total: i128, term: i128) -> (sum: Option<i128>)
    ensures
        sum == if within_limit(total + term) {
            Some((total + term) as i128)
        } else {
            None
        },
{
    match total.checked_add(term) {
        Some(s) => if s >= -SUM_LIMIT && s <= SUM_LIMIT {
            Some(s)
        } else {
            None
        },
        None => None,
    }
}

} // verus!
