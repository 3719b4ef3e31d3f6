//! Numbers and amounts as decimal text, as the exchange's queries and the
//! ledger carry them.

use vstd::prelude::*;
use vstd::string::StringExecFns;
use crate::decimal::{amount_of, digit_run, digits_value, frac_units, is_digit, pow10, SCALE};

verus! {

/// The decimal digit of a value below ten.
pub open spec fn digit_char(d: int) -> char {
    (48 + d) as u8 as char
}

/// A number in decimal, without leading zeros.
pub open spec fn digits_of(n: nat) -> Seq<char>
    decreases n,
{
    if n < 10 {
        seq![digit_char(n as int)]
    } else {
        digits_of(n / 10).push(digit_char((n % 10) as int))
    }
}

/// The last `width` decimal digits of a number, with leading zeros.
pub open spec fn padded_digits(n: nat, width: nat) -> Seq<char>
    decreases width,
{
    if width == 0 {
        Seq::empty()
    } else {
        padded_digits(n / 10, (width - 1) as nat).push(digit_char((n % 10) as int))
    }
}

/// An amount in decimal with `places` decimals (at most eight); further
/// decimals are cut off, never rounded up.
pub open spec fn amount_text(units: u64, places: nat) -> Seq<char> {
    let whole = digits_of((units / SCALE) as nat);
    if places == 0 {
        whole
    } else {
        whole + seq!['.'] + padded_digits(
            ((units % SCALE) as nat) / pow10((8 - places) as nat),
            places,
        )
    }
}

fn digit_str(d: u64) -> (text: &'static str)
    requires
        d < 10,
    ensures
        text@ == seq![digit_char(d as int)],
{
    proof {
        reveal_strlit("0");
        reveal_strlit("1");
        reveal_strlit("2");
        reveal_strlit("3");
        reveal_strlit("4");
        reveal_strlit("5");
        reveal_strlit("6");
        reveal_strlit("7");
        reveal_strlit("8");
        reveal_strlit("9");
    }
    let text = if d == 0 {
        "0"
    } else if d == 1 {
        "1"
    } else if d == 2 {
        "2"
    } else if d == 3 {
        "3"
    } else if d == 4 {
        "4"
    } else if d == 5 {
        "5"
    } else if d == 6 {
        "6"
    } else if d == 7 {
        "7"
    } else if d == 8 {
        "8"
    } else {
        "9"
    };
    proof {
        assert(text@ =~= seq![digit_char(d as int)]);
    }
    text
}

/// Writes a number in decimal.
pub fn number_text(n: u64) -> (text: String)
    ensures
        text@ == digits_of(n as nat),
    decreases n,
{
    if n < 10 {
        String::from_str(digit_str(n))
    } else {
        let mut text = number_text(n / 10);
        let digit = digit_str(n % 10);
        proof {
            assert(digits_of((n / 10) as nat) + seq![digit_char((n % 10) as int)] =~= digits_of(
                (n / 10) as nat,
            ).push(digit_char((n % 10) as int)));
        }
        text.append(digit);
        text
    }
}

fn padded_text(n: u64, width: u8) -> (text: String)
    ensures
        text@ == padded_digits(n as nat, width as nat),
    decreases width,
{
    if width == 0 {
        String::new()
    } else {
        let mut text = padded_text(n / 10, width - 1);
        let digit = digit_str(n % 10);
        proof {
            let before = padded_digits((n / 10) as nat, (width - 1) as nat);
            assert(before + seq![digit_char((n % 10) as int)] =~= before.push(
                digit_char((n % 10) as int),
            ));
        }
        text.append(digit);
        text
    }
}

fn power_of_ten(k: u8) -> (p: u64)
    requires
        k <= 8,
    ensures
        p == pow10(k as nat),
        1 <= p <= 100_000_000,
    decreases k,
{
    proof {
        reveal_with_fuel(pow10, 10);
    }
    if k == 0 {
        1
    } else {
        10 * power_of_ten(k - 1)
    }
}

/// Writes an amount in decimal with `places` decimals, cutting further ones.
pub fn format_amount(units: u64, places: u8) -> (text: String)
    requires
        places <= 8,
    ensures
        text@ == amount_text(units, places as nat),
{
    let mut text = number_text(units / SCALE);
    if places > 0 {
        text.append(".");
        proof {
            reveal_strlit(".");
            assert("."@ =~= seq!['.']);
        }
        let shown = (units % SCALE) / power_of_ten(8 - places);
        let fraction = padded_text(shown, places);
        text.append(fraction.as_str());
    }
    text
}


/// The bytes of a text of ASCII characters.
pub open spec fn ascii_bytes(text: Seq<char>) -> Seq<u8> {
    Seq::new(text.len(), |i: int| text[i] as u8)
}

/// Every character of a text is a decimal digit.
pub open spec fn all_digit_chars(text: Seq<char>) -> bool {
    forall|i: int|
        0 <= i < text.len() ==> is_digit((#[trigger] text[i]) as u8) && text[i] == digit_char(
            text[i] as u8 - 48,
        )
}

proof fn lemma_digit_char(d: int)
    requires
        0 <= d < 10,
    ensures
        digit_char(d) as u8 == 48 + d,
        digit_char(d) as u32 == 48 + d,
{
}

proof fn lemma_digits_of(n: nat)
    ensures
        digits_of(n).len() >= 1,
        all_digit_chars(digits_of(n)),
        digits_value(ascii_bytes(digits_of(n))) == n,
    decreases n,
{
    if n < 10 {
        lemma_digit_char(n as int);
        let b = ascii_bytes(digits_of(n));
        assert(b.drop_last() =~= Seq::<u8>::empty());
        assert(digits_value(b.drop_last()) == 0);
    } else {
        lemma_digits_of(n / 10);
        lemma_digit_char((n % 10) as int);
        let b = ascii_bytes(digits_of(n));
        assert(b.drop_last() =~= ascii_bytes(digits_of(n / 10)));
        assert(b.last() == 48 + n % 10);
    }
}

proof fn lemma_frac_prefix(s: Seq<u8>, t: Seq<u8>, k: nat)
    requires
        k <= s.len(),
        k <= t.len(),
        forall|i: int| 0 <= i < k ==> s[i] == t[i],
    ensures
        frac_units(s, k) == frac_units(t, k),
    decreases k,
{
    if k > 0 {
        lemma_frac_prefix(s, t, (k - 1) as nat);
    }
}

proof fn lemma_padded_digits(n: nat, width: nat)
    ensures
        padded_digits(n, width).len() == width,
        all_digit_chars(padded_digits(n, width)),
        frac_units(ascii_bytes(padded_digits(n, width)), width) == n % pow10(width),
    decreases width,
{
    if width > 0 {
        let shorter = (width - 1) as nat;
        lemma_padded_digits(n / 10, shorter);
        lemma_digit_char((n % 10) as int);
        let all = ascii_bytes(padded_digits(n, width));
        let before = ascii_bytes(padded_digits(n / 10, shorter));
        assert forall|i: int| 0 <= i < shorter implies all[i] == before[i] by {}
        lemma_frac_prefix(all, before, shorter);
        assert(all[width - 1] == 48 + n % 10);
        lemma_pow10_positive(shorter);
        vstd::arithmetic::div_mod::lemma_mod_breakdown(n as int, 10, pow10(shorter) as int);
        assert(pow10(width) == 10 * pow10(shorter));
    } else {
        assert(n % 1 == 0);
    }
}

proof fn lemma_pow10_positive(k: nat)
    ensures
        pow10(k) > 0,
    decreases k,
{
    if k > 0 {
        lemma_pow10_positive((k - 1) as nat);
    }
}

proof fn lemma_digit_run_to(s: Seq<u8>, from: int, to: int)
    requires
        0 <= from <= to <= s.len(),
        forall|i: int| from <= i < to ==> is_digit(#[trigger] s[i]),
        to < s.len() ==> !is_digit(s[to]),
    ensures
        digit_run(s, from) == to,
    decreases to - from,
{
    if from < to {
        lemma_digit_run_to(s, from + 1, to);
    }
}

/// Round trip: an amount written with all eight decimals reads back as
/// itself.
pub proof fn lemma_amount_text_reads_back(units: u64)
    ensures
        amount_of(ascii_bytes(amount_text(units, 8))) == Some(units as nat),
        amount_of(vstd::utf8::encode_utf8(amount_text(units, 8))) == Some(units as nat),
{
    let whole = (units / SCALE) as nat;
    let part = (units % SCALE) as nat;
    let w = digits_of(whole);
    let f = padded_digits(part, 8);
    lemma_digits_of(whole);
    lemma_padded_digits(part, 8);
    assert(pow10(8) == 100_000_000) by {
        reveal_with_fuel(pow10, 10);
    }
    assert(pow10(0) == 1);
    assert(part / 1 == part);
    let text = amount_text(units, 8);
    assert(text =~= w + seq!['.'] + f);
    let s = ascii_bytes(text);
    let d = w.len() as int;
    assert(s.len() == d + 9);
    assert(s[d] == 46);
    assert(text.len() == d + 9);
    assert forall|i: int| 0 <= i < d implies is_digit(#[trigger] s[i]) by {
        assert(text[i] == w[i]);
        assert(s[i] == text[i] as u8);
    }
    assert forall|i: int| d + 1 <= i < s.len() implies is_digit(#[trigger] s[i]) by {
        assert(text[i] == f[i - d - 1]);
        assert(s[i] == text[i] as u8);
    }
    lemma_digit_run_to(s, 0, d);
    lemma_digit_run_to(s, d + 1, s.len() as int);
    assert(s.subrange(0, d) =~= ascii_bytes(w));
    assert(s.subrange(d + 1, s.len() as int) =~= ascii_bytes(f));
    assert(whole * (SCALE as nat) + part == units) by {
        vstd::arithmetic::div_mod::lemma_fundamental_div_mod(units as int, SCALE as int);
        assert(whole * (SCALE as nat) == (SCALE as int) * (units as int / SCALE as int))
            by (nonlinear_arith)
            requires
                whole == units as int / SCALE as int,
        ;
    }
    assert(part % 100_000_000 == part);
    assert(vstd::utf8::is_ascii_chars(text)) by {
        assert forall|i: int| 0 <= i < text.len() implies '\0' <= #[trigger] text[i] <= '\u{7f}' by {
            if i < d {
                assert(text[i] == w[i]);
                lemma_digit_char(w[i] as u8 - 48);
            } else if i > d {
                assert(text[i] == f[i - d - 1]);
                lemma_digit_char(f[i - d - 1] as u8 - 48);
            } else {
                assert(text[i] == '.');
            }
        }
    }
    vstd::utf8::is_ascii_chars_encode_utf8(text);
    assert(vstd::utf8::encode_utf8(text) =~= s);
}

} // verus!
