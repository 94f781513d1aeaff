//! Exact integer-to-text formatting used for display strings.
use vstd::prelude::*;

use crate::orderbook::level::pow10;

verus! {

/// `String::push`: appends one character to the end of the string.
///
/// The contract claims exactly what the standard library documents: the
/// string afterwards is the old string followed by `c`.
#[verifier::external_body]
pub(crate) fn push_char(s: &mut String, c: char)
    ensures
        final(s)@ == old(s)@.push(c),
{
    s.push(c);
}

/// Appends a string slice to the end of a string.
pub(crate) fn push_str(s: &mut String, t: &str)
    ensures
        final(s)@ == old(s)@ + t@,
{
    s.append(t);
}

/// The ASCII character of decimal digit `d`.
pub open spec fn digit_char(d: nat) -> char {
    ((48 + d) as u8) as char
}

/// Decimal text of `n`, without leading zeros.
pub open spec fn decimal_text(n: nat) -> Seq<char>
    decreases n,
{
    if n < 10 {
        seq![digit_char(n)]
    } else {
        decimal_text(n / 10).push(digit_char(n % 10))
    }
}

/// The `k` lowest decimal digits of `v`, with leading zeros.
pub open spec fn padded_digits(v: nat, k: nat) -> Seq<char>
    decreases k,
{
    if k == 0 {
        Seq::empty()
    } else {
        padded_digits(v / 10, (k - 1) as nat).push(digit_char(v % 10))
    }
}

/// Decimal text of a signed integer: a leading `-` for negative values.
pub open spec fn signed_decimal_text(v: int) -> Seq<char> {
    if v < 0 {
        seq!['-'] + decimal_text((-v) as nat)
    } else {
        decimal_text(v as nat)
    }
}

/// A tick value `t` (value × 1e8) rounded half up to `decimals` places,
/// counted in units of `10^-decimals`.
pub open spec fn rounded_units(t: nat, decimals: nat) -> nat {
    let unit = pow10((8 - decimals) as nat);
    (t + unit / 2) / unit
}

/// Fixed-point text of the tick value `t` with `decimals` places.
pub open spec fn fixed_text(t: nat, decimals: nat) -> Seq<char> {
    let r = rounded_units(t, decimals);
    decimal_text(r / pow10(decimals)) + seq!['.'] + padded_digits(r % pow10(decimals), decimals)
}

fn digit_to_char(d: u8) -> (c: char)
    requires
        d < 10,
    ensures
        c == digit_char(d as nat),
{
    ((48u8 + d) as u8) as char
}

/// Appends the decimal text of `n`.
pub(crate) fn push_decimal(s: &mut String, n: u128)
    ensures
        final(s)@ == old(s)@ + decimal_text(n as nat),
    decreases n,
{
    if n >= 10 {
        push_decimal(s, n / 10);
    }
    let c = digit_to_char((n % 10) as u8);
    push_char(s, c);
}

/// Appends the `k` lowest decimal digits of `v`, zero padded.
pub(crate) fn push_padded(s: &mut String, v: u128, k: usize)
    ensures
        final(s)@ == old(s)@ + padded_digits(v as nat, k as nat),
    decreases k,
{
    if k > 0 {
        push_padded(s, v / 10, k - 1);
        let c = digit_to_char((v % 10) as u8);
        push_char(s, c);
    }
}

/// Appends the decimal text of a signed integer.
pub(crate) fn push_signed(s: &mut String, v: i128)
    ensures
        final(s)@ == old(s)@ + signed_decimal_text(v as int),
{
    if v < 0 {
        push_char(s, '-');
        let m: u128 = if v == i128::MIN {
            170141183460469231731687303715884105728u128
        } else {
            (-v) as u128
        };
        push_decimal(s, m);
        proof {
            assert(seq!['-'] + decimal_text((-v) as nat) =~= seq!['-'].add(decimal_text(m as nat)));
        }
    } else {
        push_decimal(s, v as u128);
    }
}

/// The decimal text of `n` as a new string.
pub fn decimal_string(n: u128) -> (r: String)
    ensures
        r@ == decimal_text(n as nat),
{
    let mut s = String::new();
    push_decimal(&mut s, n);
    s
}

/// Appends the fixed-point text of tick value `t` with `decimals` places.
pub(crate) fn push_fixed(s: &mut String, t: u64, decimals: usize)
    requires
        decimals <= 8,
    ensures
        final(s)@ == old(s)@ + fixed_text(t as nat, decimals as nat),
{
    let unit = pow10_u128(8 - decimals);
    let scale = pow10_u128(decimals);
    let r: u128 = ((t as u128) + unit / 2) / unit;
    push_decimal(s, r / scale);
    push_char(s, '.');
    push_padded(s, r % scale, decimals);
    proof {
        assert(fixed_text(t as nat, decimals as nat) =~= decimal_text((r / scale) as nat) + seq![
            '.',
        ] + padded_digits((r % scale) as nat, decimals as nat));
    }
}

fn pow10_u128(k: usize) -> (r: u128)
    requires
        k <= 8,
    ensures
        r == pow10(k as nat),
        r >= 1,
        r <= 100_000_000,
{
    let mut r: u128 = 1;
    let mut j: usize = 0;
    while j < k
        invariant
            j <= k <= 8,
            r == pow10(j as nat),
            1 <= r <= pow10(j as nat),
            r <= 100_000_000,
        decreases k - j,
    {
        proof {
            crate::orderbook::level::lemma_pow10_small((j + 1) as nat);
        }
        r = r * 10;
        j = j + 1;
    }
    r
}

} // verus!
