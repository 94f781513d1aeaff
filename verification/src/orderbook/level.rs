use vstd::prelude::*;
use vstd::utf8::encode_utf8;

use crate::text::{decimal_text, digit_char, fixed_text, padded_digits, push_fixed};

verus! {

/// Scale factor between a decimal price or quantity and its integer tick value.
///
/// A price of 50000.50 is stored as 5_000_050_000_000.
pub const TICK_SCALE: u64 = 100_000_000;

/// Why a decimal string could not be turned into ticks.
#[derive(Debug, Clone, Copy, PartialEq, Eq)]
pub enum TickParseError {
    /// The text is not a number.
    InvalidNumber,
}

/// Description of a parse error.
pub open spec fn tick_error_text(e: TickParseError) -> Seq<char> {
    match e {
        TickParseError::InvalidNumber => "invalid number"@,
    }
}

impl TickParseError {
    /// Description of the error.
    pub fn message(self) -> (r: &'static str)
        ensures
            r@ == tick_error_text(self),
    {
        match self {
            TickParseError::InvalidNumber => "invalid number",
        }
    }
}

/// A single price level in the order book.
#[derive(Debug, Clone, Copy, PartialEq, Eq)]
pub struct PriceLevel {
    /// The price in integer ticks.
    pub price: u64,
    /// The quantity at this level in integer ticks.
    pub quantity: u64,
}

impl PriceLevel {
    pub fn new(price: u64, quantity: u64) -> (r: Self)
        ensures
            r.price == price,
            r.quantity == quantity,
    {
        PriceLevel { price, quantity }
    }

    /// A level with zero quantity is a removal.
    pub fn is_removal(&self) -> (r: bool)
        ensures
            r == (self.quantity == 0),
    {
        self.quantity == 0
    }
}

// ---------------------------------------------------------------------------
// Decimal text model
// ---------------------------------------------------------------------------

pub open spec fn is_digit(b: u8) -> bool {
    48u8 <= b && b <= 57u8
}

pub open spec fn digit_of(b: u8) -> nat {
    (b - 48u8) as nat
}

/// The value of a string of decimal digits.
pub open spec fn digits_value(s: Seq<u8>) -> nat
    decreases s.len(),
{
    if s.len() == 0 {
        0
    } else {
        digits_value(s.drop_last()) * 10 + digit_of(s.last())
    }
}

/// Index of the first `.` in `s`, or `s.len()` when there is none.
pub open spec fn dot_pos(s: Seq<u8>) -> nat
    decreases s.len(),
{
    if s.len() == 0 {
        0
    } else {
        let p = dot_pos(s.drop_last());
        if p < s.len() - 1 {
            p
        } else if s.last() == 46u8 {
            (s.len() - 1) as nat
        } else {
            s.len()
        }
    }
}

pub open spec fn pow10(n: nat) -> nat
    decreases n,
{
    if n == 0 {
        1
    } else {
        10 * pow10((n - 1) as nat)
    }
}

/// `digits[.digits]` with at least one digit and at most one dot.
pub open spec fn is_decimal_text(s: Seq<u8>) -> bool {
    &&& forall|i: int| 0 <= i < s.len() ==> is_digit(#[trigger] s[i]) || (s[i] == 46u8 && i
        == dot_pos(s))
    &&& s.len() > (if dot_pos(s) < s.len() { 1int } else { 0int })
}

pub open spec fn whole_part(s: Seq<u8>) -> Seq<u8> {
    s.take(dot_pos(s) as int)
}

pub open spec fn fraction_part(s: Seq<u8>) -> Seq<u8> {
    if dot_pos(s) < s.len() {
        s.skip(dot_pos(s) as int + 1)
    } else {
        Seq::empty()
    }
}

/// The first eight fraction digits as ticks, rounded half up on the ninth digit.
pub open spec fn fraction_ticks(f: Seq<u8>) -> nat {
    if f.len() <= 8 {
        digits_value(f) * pow10((8 - f.len()) as nat)
    } else {
        digits_value(f.take(8)) + (if f[8] >= 53u8 {
            1nat
        } else {
            0nat
        })
    }
}

/// The decimal value of `s` scaled by `TICK_SCALE` and rounded half up.
pub open spec fn decimal_ticks(s: Seq<u8>) -> nat {
    digits_value(whole_part(s)) * 100_000_000 + fraction_ticks(fraction_part(s))
}

/// A `+` or `-` in front counts as the sign.
pub open spec fn sign_len(s: Seq<u8>) -> int {
    if s.len() > 0 && (s[0] == 43u8 || s[0] == 45u8) {
        1
    } else {
        0
    }
}

/// Whether the text starts with a minus sign.
pub open spec fn is_negative_text(s: Seq<u8>) -> bool {
    s.len() > 0 && s[0] == 45u8
}

pub open spec fn is_exp_mark(b: u8) -> bool {
    b == 101u8 || b == 69u8
}

/// Index of the first `e` or `E`, or the length when there is none.
pub open spec fn exp_pos(s: Seq<u8>) -> nat
    decreases s.len(),
{
    if s.len() == 0 {
        0
    } else if is_exp_mark(s[0]) {
        0
    } else {
        1 + exp_pos(s.skip(1))
    }
}

/// The text before the exponent mark.
pub open spec fn mantissa(s: Seq<u8>) -> Seq<u8> {
    s.take(exp_pos(s) as int)
}

/// The text after the exponent mark.
pub open spec fn exponent_text(s: Seq<u8>) -> Seq<u8> {
    s.skip(exp_pos(s) as int + 1)
}

/// An exponent: an optional sign, then at least one digit.
pub open spec fn is_exponent_text(t: Seq<u8>) -> bool {
    &&& t.len() > sign_len(t)
    &&& forall|i: int| sign_len(t) <= i < t.len() ==> is_digit(#[trigger] t[i])
}

/// The signed value of an exponent.
pub open spec fn exponent_value(t: Seq<u8>) -> int {
    let m = digits_value(t.skip(sign_len(t))) as int;
    if is_negative_text(t) {
        -m
    } else {
        m
    }
}

/// A decimal mantissa, then optionally `e` or `E` and an exponent.
pub open spec fn is_number_text(s: Seq<u8>) -> bool {
    &&& is_decimal_text(mantissa(s))
    &&& exp_pos(s) < s.len() ==> is_exponent_text(exponent_text(s))
}

/// The power of ten that scales the mantissa (zero without an exponent).
pub open spec fn exponent_of(s: Seq<u8>) -> int {
    if exp_pos(s) < s.len() {
        exponent_value(exponent_text(s))
    } else {
        0
    }
}

/// The digits of a decimal mantissa with the dot taken out.
pub open spec fn mantissa_digits(m: Seq<u8>) -> Seq<u8> {
    whole_part(m) + fraction_part(m)
}

/// The integer `d` times `10^(k - |d|)`, rounded half up: the first `k`
/// digits (zeros appended past the end) are the integer part, the digit at
/// `k` decides the rounding.
pub open spec fn shifted_value(d: Seq<u8>, k: int) -> nat {
    let int_part: nat = if k <= 0 {
        0
    } else if k <= d.len() {
        digits_value(d.take(k))
    } else {
        digits_value(d) * pow10((k - d.len()) as nat)
    };
    int_part + (if 0 <= k < d.len() && d[k] >= 53u8 {
        1nat
    } else {
        0nat
    })
}

/// `x` capped at `u64::MAX`.
pub open spec fn saturate(x: nat) -> u64 {
    if x > u64::MAX {
        u64::MAX
    } else {
        x as u64
    }
}

/// Ticks of unsigned number text: its exact value times `TICK_SCALE`,
/// rounded half up and capped at `u64::MAX`.
pub open spec fn number_ticks(s: Seq<u8>) -> u64 {
    let m = mantissa(s);
    saturate(shifted_value(mantissa_digits(m), whole_part(m).len() + 8 + exponent_of(s)))
}

pub open spec fn word_nan() -> Seq<u8> {
    seq![110u8, 97u8, 110u8]
}

pub open spec fn word_inf() -> Seq<u8> {
    seq![105u8, 110u8, 102u8]
}

pub open spec fn word_infinity() -> Seq<u8> {
    seq![105u8, 110u8, 102u8, 105u8, 110u8, 105u8, 116u8, 121u8]
}

pub open spec fn ascii_lower(b: u8) -> u8 {
    if 65u8 <= b <= 90u8 {
        (b + 32) as u8
    } else {
        b
    }
}

/// `s` spells the lower-case word `w`, in either case.
pub open spec fn matches_word(s: Seq<u8>, w: Seq<u8>) -> bool {
    &&& s.len() == w.len()
    &&& forall|i: int| 0 <= i < s.len() ==> ascii_lower(#[trigger] s[i]) == w[i]
}

/// What parsing the bytes `s` as a tick value gives: a number is an optional
/// sign, then `nan`, `inf`, `infinity` (in any case) or a decimal with an
/// optional exponent. Its exact value times `TICK_SCALE`, rounded half up,
/// is then taken as a `u64` the way a float is cast: negative values and
/// `nan` give 0, values past the top (and `inf`) give `u64::MAX`.
pub open spec fn parse_ticks_spec(s: Seq<u8>) -> Result<u64, TickParseError> {
    let b = s.skip(sign_len(s));
    if matches_word(b, word_nan()) {
        Ok(0)
    } else if matches_word(b, word_inf()) || matches_word(b, word_infinity()) {
        Ok(
            if is_negative_text(s) {
                0
            } else {
                u64::MAX
            },
        )
    } else if !is_number_text(b) {
        Err(TickParseError::InvalidNumber)
    } else if is_negative_text(s) {
        Ok(0)
    } else {
        Ok(number_ticks(b))
    }
}

/// What parsing the text `s` (as UTF-8) gives as a tick value.
pub open spec fn text_ticks(s: Seq<char>) -> Result<u64, TickParseError> {
    parse_ticks_spec(encode_utf8(s))
}

proof fn lemma_dot_pos_bound(s: Seq<u8>)
    ensures
        dot_pos(s) <= s.len(),
        dot_pos(s) < s.len() ==> s[dot_pos(s) as int] == 46u8,
        forall|j: int| 0 <= j < dot_pos(s) ==> s[j] != 46u8,
    decreases s.len(),
{
    if s.len() > 0 {
        let t = s.drop_last();
        lemma_dot_pos_bound(t);
        assert forall|j: int| 0 <= j < dot_pos(s) implies s[j] != 46u8 by {
            if j < t.len() {
                assert(t[j] == s[j]);
            }
        }
    }
}

/// Once a prefix holds a dot, extending it does not move the dot.
proof fn lemma_dot_pos_extend(s: Seq<u8>, i: int)
    requires
        0 <= i < s.len(),
    ensures
        dot_pos(s.take(i + 1)) == (if dot_pos(s.take(i)) < i {
            dot_pos(s.take(i)) as int
        } else if s[i] == 46u8 {
            i
        } else {
            i + 1
        }),
{
    assert(s.take(i + 1).drop_last() =~= s.take(i));
    lemma_dot_pos_bound(s.take(i));
}

proof fn lemma_digits_push(s: Seq<u8>, b: u8)
    ensures
        digits_value(s.push(b)) == digits_value(s) * 10 + digit_of(b),
{
    assert(s.push(b).drop_last() =~= s);
}

proof fn lemma_pow10_eight()
    ensures
        pow10(8) == 100_000_000,
{
    reveal_with_fuel(pow10, 9);
}

proof fn lemma_pow10_mono(k: nat, m: nat)
    requires
        k <= m,
    ensures
        1 <= pow10(k) <= pow10(m),
    decreases m,
{
    if m > k {
        lemma_pow10_mono(k, (m - 1) as nat);
    } else if k > 0 {
        lemma_pow10_mono((k - 1) as nat, (k - 1) as nat);
    }
}

pub(crate) proof fn lemma_pow10_small(k: nat)
    requires
        k <= 8,
    ensures
        pow10(k) <= 100_000_000,
        pow10(k) >= 1,
{
    lemma_pow10_mono(k, 8);
    lemma_pow10_eight();
}

/// Exponent magnitudes are held up to this cap: past it, any text that fits
/// in memory gives the same ticks.
const EXP_CAP: u128 = 36_893_488_147_419_103_232;

/// `exp_pos` is the first index holding a mark.
proof fn lemma_exp_pos(t: Seq<u8>, i: int)
    requires
        0 <= i <= t.len(),
        forall|j: int| 0 <= j < i ==> !is_exp_mark(#[trigger] t[j]),
        i == t.len() || is_exp_mark(t[i]),
    ensures
        exp_pos(t) == i,
    decreases i,
{
    if i > 0 {
        let u = t.skip(1);
        assert forall|j: int| 0 <= j < i - 1 implies !is_exp_mark(#[trigger] u[j]) by {
            assert(u[j] == t[j + 1]);
        }
        if i < t.len() {
            assert(u[i - 1] == t[i]);
        }
        lemma_exp_pos(u, i - 1);
        assert(!is_exp_mark(t[0]));
    }
}

proof fn lemma_digits_step(s: Seq<u8>, a: int, p: int)
    requires
        0 <= a <= p < s.len(),
    ensures
        digits_value(s.subrange(a, p + 1)) == digits_value(s.subrange(a, p)) * 10 + digit_of(s[p]),
{
    assert(s.subrange(a, p + 1) =~= s.subrange(a, p).push(s[p]));
    lemma_digits_push(s.subrange(a, p), s[p]);
}

/// Whether the bytes from `start` on spell the word `w` in either case.
fn matches_word_at(bytes: &[u8], start: usize, w: &Vec<u8>) -> (r: bool)
    requires
        start <= bytes.len(),
    ensures
        r == matches_word(bytes@.skip(start as int), w@),
{
    let ghost t = bytes@.skip(start as int);
    if bytes.len() - start != w.len() {
        return false;
    }
    let mut i: usize = 0;
    while i < w.len()
        invariant
            t == bytes@.skip(start as int),
            t.len() == w.len(),
            start + w.len() == bytes.len(),
            i <= w.len(),
            forall|j: int| 0 <= j < i ==> ascii_lower(#[trigger] t[j]) == w@[j],
        decreases w.len() - i,
    {
        let c = bytes[start + i];
        assert(t[i as int] == c);
        let lc: u8 = if c >= 65u8 && c <= 90u8 {
            c + 32
        } else {
            c
        };
        if lc != w[i] {
            return false;
        }
        i = i + 1;
    }
    true
}

/// Index of the first `e` or `E` from `start` on, or the length.
fn find_exp_mark(bytes: &[u8], start: usize) -> (p: usize)
    requires
        start <= bytes.len(),
    ensures
        start <= p <= bytes.len(),
        p - start == exp_pos(bytes@.skip(start as int)),
{
    let ghost t = bytes@.skip(start as int);
    let mut p = start;
    while p < bytes.len()
        invariant
            t == bytes@.skip(start as int),
            start <= p <= bytes.len(),
            forall|j: int| 0 <= j < p - start ==> !is_exp_mark(#[trigger] t[j]),
        decreases bytes.len() - p,
    {
        let b = bytes[p];
        assert(t[p - start] == b);
        if b == 101u8 || b == 69u8 {
            proof {
                lemma_exp_pos(t, p - start);
            }
            return p;
        }
        p = p + 1;
    }
    proof {
        lemma_exp_pos(t, p - start);
    }
    p
}

/// Checks that `bytes[start..end]` is a decimal mantissa; if so, gives its
/// digits without the dot and the length of its whole part.
#[verifier::rlimit(40)]
fn scan_mantissa(bytes: &[u8], start: usize, end: usize) -> (r: Option<(Vec<u8>, usize)>)
    requires
        start <= end <= bytes.len(),
    ensures
        r is Some <==> is_decimal_text(bytes@.subrange(start as int, end as int)),
        r matches Some((d, wl)) ==> {
            let m = bytes@.subrange(start as int, end as int);
            &&& d@ == mantissa_digits(m)
            &&& wl == whole_part(m).len()
            &&& d.len() <= end - start
            &&& forall|i: int| 0 <= i < d.len() ==> is_digit(#[trigger] d@[i])
        },
{
    let ghost m = bytes@.subrange(start as int, end as int);
    let n = end - start;
    let mut i: usize = 0;
    let mut seen_dot = false;
    let mut dot_at: usize = 0;
    let mut d: Vec<u8> = Vec::new();
    while i < n
        invariant
            m == bytes@.subrange(start as int, end as int),
            start <= end <= bytes.len(),
            n == m.len(),
            n == end - start,
            i <= n,
            !seen_dot ==> dot_pos(m.take(i as int)) == i,
            !seen_dot ==> forall|j: int| 0 <= j < i ==> is_digit(#[trigger] m[j]),
            seen_dot ==> dot_at < i && dot_pos(m.take(i as int)) == dot_at && m[dot_at as int]
                == 46u8,
            seen_dot ==> forall|j: int| 0 <= j < i && j != dot_at ==> is_digit(#[trigger] m[j]),
            d@ == (if seen_dot {
                m.take(dot_at as int) + m.subrange(dot_at + 1, i as int)
            } else {
                m.take(i as int)
            }),
            d.len() <= i,
            forall|j: int| 0 <= j < d.len() ==> is_digit(#[trigger] d@[j]),
        decreases n - i,
    {
        let b = bytes[start + i];
        assert(m[i as int] == b);
        proof {
            lemma_dot_pos_extend(m, i as int);
        }
        if b == 46u8 {
            if seen_dot {
                proof {
                    assert(!is_decimal_text(m)) by {
                        lemma_dot_pos_prefix(m, i as int + 1);
                        assert(!is_digit(m[i as int]));
                    }
                }
                return None;
            }
            proof {
                assert(m.take(i as int) + m.subrange(i + 1, i + 1) =~= m.take(i as int));
            }
            seen_dot = true;
            dot_at = i;
        } else if b >= 48u8 && b <= 57u8 {
            proof {
                if seen_dot {
                    assert(m.take(dot_at as int) + m.subrange(dot_at + 1, i + 1) =~= (m.take(
                        dot_at as int,
                    ) + m.subrange(dot_at + 1, i as int)).push(b));
                } else {
                    assert(m.take(i + 1) =~= m.take(i as int).push(b));
                }
            }
            d.push(b);
        } else {
            proof {
                assert(!is_decimal_text(m)) by {
                    lemma_dot_pos_prefix(m, i as int + 1);
                    assert(!is_digit(m[i as int]));
                    if seen_dot {
                        assert(dot_pos(m) == dot_at);
                    } else {
                        assert(m[i as int] != 46u8);
                    }
                }
            }
            return None;
        }
        i = i + 1;
    }
    proof {
        assert(m.take(n as int) =~= m);
    }
    if n == 0 || (seen_dot && n == 1) {
        return None;
    }
    proof {
        assert(is_decimal_text(m));
        if seen_dot {
            assert(whole_part(m) =~= m.take(dot_at as int));
            assert(fraction_part(m) =~= m.subrange(dot_at + 1, n as int));
        } else {
            assert(whole_part(m) =~= m);
            assert(fraction_part(m) =~= Seq::<u8>::empty());
            assert(m + Seq::<u8>::empty() =~= m);
        }
    }
    let wl = if seen_dot {
        dot_at
    } else {
        n
    };
    Some((d, wl))
}

/// Checks the exponent text from `from` on; if valid, gives whether it is
/// negative and its magnitude, capped at `EXP_CAP`.
fn scan_exponent(bytes: &[u8], from: usize) -> (r: Option<(bool, u128)>)
    requires
        from <= bytes.len(),
    ensures
        ({
            let t = bytes@.skip(from as int);
            let v = digits_value(t.skip(sign_len(t)));
            &&& r is Some <==> is_exponent_text(t)
            &&& r matches Some((neg, mag)) ==> neg == is_negative_text(t) && mag == (if v
                >= EXP_CAP {
                EXP_CAP as nat
            } else {
                v
            })
        }),
{
    let ghost t = bytes@.skip(from as int);
    let n = bytes.len();
    let neg = from < n && bytes[from] == 45u8;
    let first: usize = if from < n && (bytes[from] == 43u8 || bytes[from] == 45u8) {
        from + 1
    } else {
        from
    };
    assert(first - from == sign_len(t));
    let ghost s = bytes@;
    let mut p = first;
    let mut acc: u128 = 0;
    proof {
        assert(s.subrange(first as int, first as int) =~= Seq::<u8>::empty());
    }
    while p < n
        invariant
            s == bytes@,
            t == s.skip(from as int),
            from <= first,
            first - from == sign_len(t),
            n == s.len(),
            first <= p <= n,
            forall|j: int| first <= j < p ==> is_digit(#[trigger] s[j]),
            acc == (if digits_value(s.subrange(first as int, p as int)) >= EXP_CAP {
                EXP_CAP as nat
            } else {
                digits_value(s.subrange(first as int, p as int))
            }),
        decreases n - p,
    {
        let b = bytes[p];
        if b < 48u8 || b > 57u8 {
            proof {
                assert(t[p - from] == b);
            }
            return None;
        }
        proof {
            lemma_digits_step(s, first as int, p as int);
        }
        if acc < EXP_CAP {
            let w = acc * 10 + (b - 48u8) as u128;
            acc = if w >= EXP_CAP {
                EXP_CAP
            } else {
                w
            };
        }
        p = p + 1;
    }
    if first == n {
        return None;
    }
    proof {
        assert(t.skip(sign_len(t)) =~= s.subrange(first as int, n as int));
        assert forall|i: int| sign_len(t) <= i < t.len() implies is_digit(#[trigger] t[i]) by {
            assert(t[i] == s[from + i]);
        }
    }
    Some((neg, acc))
}

proof fn lemma_pow10_twenty(k: nat)
    requires
        k >= 20,
    ensures
        pow10(k) > u64::MAX,
{
    reveal_with_fuel(pow10, 21);
    lemma_pow10_mono(20, k);
}

/// Far enough past the digits the value is 0 or beyond `u64::MAX`.
proof fn lemma_shift_far(d: Seq<u8>, k: int)
    requires
        k >= d.len() + 20,
    ensures
        saturate(shifted_value(d, k)) == (if digits_value(d) == 0 {
            0u64
        } else {
            u64::MAX
        }),
{
    let p = pow10((k - d.len()) as nat);
    lemma_pow10_twenty((k - d.len()) as nat);
    if digits_value(d) != 0 {
        assert(digits_value(d) * p >= p) by (nonlinear_arith)
            requires
                digits_value(d) >= 1,
        ;
    }
}

/// `d` read as an integer, shifted to `k` digits and rounded half up,
/// capped at `u64::MAX`.
#[verifier::rlimit(30)]
fn shifted_ticks(d: &Vec<u8>, k: i128) -> (r: u64)
    requires
        forall|i: int| 0 <= i < d.len() ==> is_digit(#[trigger] d@[i]),
    ensures
        r == saturate(shifted_value(d@, k as int)),
{
    let len = d.len();
    if k < 0 {
        return 0;
    }
    let lim: usize = if k < len as i128 {
        k as usize
    } else {
        len
    };
    let mut acc: u64 = 0;
    let mut big = false;
    let mut j: usize = 0;
    proof {
        assert(d@.take(0) =~= Seq::<u8>::empty());
    }
    while j < lim
        invariant
            lim <= len == d.len(),
            j <= lim,
            forall|i: int| 0 <= i < d.len() ==> is_digit(#[trigger] d@[i]),
            big <==> digits_value(d@.take(j as int)) > u64::MAX,
            !big ==> acc == digits_value(d@.take(j as int)),
        decreases lim - j,
    {
        let b = d[j];
        proof {
            assert(d@.take(j + 1) =~= d@.take(j as int).push(b));
            lemma_digits_push(d@.take(j as int), b);
            assert(is_digit(d@[j as int]));
        }
        if !big {
            let w: u128 = (acc as u128) * 10 + (b - 48u8) as u128;
            if w > u64::MAX as u128 {
                big = true;
            } else {
                acc = w as u64;
            }
        }
        j = j + 1;
    }
    if k <= len as i128 {
        let round = k < len as i128 && d[k as usize] >= 53u8;
        if big {
            return u64::MAX;
        }
        if round {
            if acc == u64::MAX {
                return u64::MAX;
            }
            return acc + 1;
        }
        return acc;
    }
    proof {
        assert(d@.take(len as int) =~= d@);
    }
    let extra: i128 = k - len as i128;
    if big {
        proof {
            let p = pow10(extra as nat);
            lemma_pow10_mono(0, extra as nat);
            assert(digits_value(d@) * p >= digits_value(d@)) by (nonlinear_arith)
                requires
                    p >= 1,
            ;
        }
        return u64::MAX;
    }
    if acc == 0 {
        proof {
            let dv = digits_value(d@);
            let p = pow10(extra as nat);
            assert(dv * p == 0) by (nonlinear_arith)
                requires
                    dv == 0,
            ;
        }
        return 0;
    }
    proof {
        let dv = digits_value(d@);
        assert(pow10(0) == 1);
        assert(dv * pow10(0) == dv) by (nonlinear_arith)
            requires
                pow10(0) == 1,
        ;
    }
    let mut t: i128 = 0;
    while t < extra
        invariant
            0 <= t <= extra,
            extra == k - len,
            k > len,
            len == d.len(),
            acc >= 1,
            acc == digits_value(d@) * pow10(t as nat),
        decreases extra - t,
    {
        let w: u128 = (acc as u128) * 10;
        assert(pow10((t + 1) as nat) == 10 * pow10(t as nat));
        assert(digits_value(d@) * pow10((t + 1) as nat) == 10 * (digits_value(d@) * pow10(
            t as nat,
        ))) by (nonlinear_arith)
            requires
                pow10((t + 1) as nat) == 10 * pow10(t as nat),
        ;
        if w > u64::MAX as u128 {
            proof {
                let a = digits_value(d@) * pow10((t + 1) as nat);
                let q = pow10((extra - t - 1) as nat);
                lemma_pow10_mono(0, (extra - t - 1) as nat);
                lemma_pow10_add((t + 1) as nat, (extra - t - 1) as nat);
                assert(((t + 1) as nat + (extra - t - 1) as nat) as nat == extra as nat);
                assert(digits_value(d@) * pow10(extra as nat) == a * q) by (nonlinear_arith)
                    requires
                        pow10(extra as nat) == pow10((t + 1) as nat) * q,
                        a == digits_value(d@) * pow10((t + 1) as nat),
                ;
                assert(a * q >= a) by (nonlinear_arith)
                    requires
                        q >= 1,
                        a >= 0,
                ;
            }
            return u64::MAX;
        }
        acc = w as u64;
        t = t + 1;
    }
    acc
}

/// Parse number text given as bytes into integer ticks (value × 1e8).
///
/// Accepts what a float parses: an optional sign, then `nan`, `inf`,
/// `infinity` (in any case) or a decimal (`1`, `1.`, `.5`, `1.5`) with an
/// optional exponent (`1e3`, `2.5E-2`). The exact value is scaled, rounded
/// half up and taken as a `u64` the way a float is cast.
#[verifier::rlimit(40)]
pub fn parse_ticks(bytes: &[u8]) -> (r: Result<u64, TickParseError>)
    ensures
        r == parse_ticks_spec(bytes@),
{
    let ghost s = bytes@;
    let n = bytes.len();
    let neg = n > 0 && bytes[0] == 45u8;
    let start: usize = if n > 0 && (bytes[0] == 43u8 || bytes[0] == 45u8) {
        1
    } else {
        0
    };
    let ghost b = s.skip(start as int);
    assert(start == sign_len(s));
    if matches_word_at(bytes, start, &vec![110u8, 97u8, 110u8]) {
        return Ok(0);
    }
    if matches_word_at(bytes, start, &vec![105u8, 110u8, 102u8]) || matches_word_at(
        bytes,
        start,
        &vec![105u8, 110u8, 102u8, 105u8, 110u8, 105u8, 116u8, 121u8],
    ) {
        return Ok(
            if neg {
                0
            } else {
                u64::MAX
            },
        );
    }
    let ep = find_exp_mark(bytes, start);
    proof {
        assert(mantissa(b) =~= s.subrange(start as int, ep as int));
    }
    let scanned = scan_mantissa(bytes, start, ep);
    let (d, wl) = match scanned {
        Some(x) => x,
        None => {
            return Err(TickParseError::InvalidNumber);
        },
    };
    let mut k: i128 = wl as i128 + 8;
    if ep < n {
        proof {
            assert(exponent_text(b) =~= s.skip(ep + 1));
        }
        match scan_exponent(bytes, ep + 1) {
            Some((eneg, mag)) => {
                k = if eneg {
                    k - mag as i128
                } else {
                    k + mag as i128
                };
                proof {
                    let m = mantissa(b);
                    let kt = whole_part(m).len() + 8 + exponent_of(b);
                    let t = exponent_text(b);
                    let v = digits_value(t.skip(sign_len(t)));
                    if v >= EXP_CAP {
                        assert(d.len() <= n);
                        assert(wl <= n);
                        if eneg {
                            assert(kt < 0 && k < 0);
                        } else {
                            lemma_shift_far(d@, kt);
                            lemma_shift_far(d@, k as int);
                        }
                    }
                }
            },
            None => {
                return Err(TickParseError::InvalidNumber);
            },
        }
    }
    if neg {
        return Ok(0);
    }
    Ok(shifted_ticks(&d, k))
}

/// The digits of `a` then `b` read as `a`'s value shifted past `b`.
proof fn lemma_digits_concat(a: Seq<u8>, b: Seq<u8>)
    ensures
        digits_value(a + b) == digits_value(a) * pow10(b.len()) + digits_value(b),
    decreases b.len(),
{
    if b.len() == 0 {
        assert(a + b =~= a);
        assert(pow10(0) == 1);
        assert(digits_value(a) * pow10(0) == digits_value(a)) by (nonlinear_arith)
            requires
                pow10(0) == 1,
        ;
    } else {
        let c = b.drop_last();
        lemma_digits_concat(a, c);
        assert((a + b).drop_last() =~= a + c);
        assert((a + b).last() == b.last());
        let x = digits_value(a);
        let p = pow10(c.len());
        let y = digits_value(c);
        let z = digit_of(b.last());
        assert(digits_value(a + b) == digits_value(a + c) * 10 + z);
        assert(digits_value(a + c) == x * p + y);
        assert(pow10(b.len()) == 10 * p);
        assert(digits_value(b) == y * 10 + z);
        assert((x * p + y) * 10 + z == x * (10 * p) + (y * 10 + z)) by (nonlinear_arith);
    }
}

/// Plain decimal text (`digits[.digits]`) gives its exact value times
/// `TICK_SCALE`, rounded half up on the ninth decimal and capped at
/// `u64::MAX`.
pub proof fn lemma_plain_decimal_ticks(s: Seq<u8>)
    requires
        is_decimal_text(s),
    ensures
        parse_ticks_spec(s) == Ok::<u64, TickParseError>(saturate(decimal_ticks(s))),
{
    lemma_dot_pos_bound(s);
    assert(s[0] == 46u8 || is_digit(s[0]));
    assert(sign_len(s) == 0);
    assert(s.skip(0) =~= s);
    assert(!matches_word(s, word_nan()) && !matches_word(s, word_inf()) && !matches_word(
        s,
        word_infinity(),
    )) by {
        assert(ascii_lower(s[0]) == s[0]);
    }
    assert forall|j: int| 0 <= j < s.len() implies !is_exp_mark(#[trigger] s[j]) by {}
    lemma_exp_pos(s, s.len() as int);
    assert(mantissa(s) =~= s);
    assert(is_number_text(s));
    assert(exponent_of(s) == 0);
    let w = whole_part(s);
    let f = fraction_part(s);
    let d = mantissa_digits(s);
    let k: int = w.len() as int + 8;
    lemma_digits_concat(w, f);
    lemma_pow10_eight();
    if f.len() <= 8 {
        lemma_pow10_add(f.len(), (8 - f.len()) as nat);
        let p = pow10(f.len());
        let q = pow10((8 - f.len()) as nat);
        let e8: nat = f.len() + (8 - f.len()) as nat;
        assert(e8 == 8);
        assert(p * q == 100_000_000);
        assert(d.len() == w.len() + f.len());
        assert(digits_value(d) == digits_value(w) * p + digits_value(f));
        assert(fraction_ticks(f) == digits_value(f) * q);
        assert((digits_value(w) * p + digits_value(f)) * q == digits_value(w) * 100_000_000
            + digits_value(f) * q) by (nonlinear_arith)
            requires
                p * q == 100_000_000,
        ;
        assert(decimal_ticks(s) == digits_value(w) * 100_000_000 + digits_value(f) * q);
        if k <= d.len() {
            assert(d.take(k) =~= d);
            assert(q == 1);
            assert(digits_value(d) * q == digits_value(d)) by (nonlinear_arith)
                requires
                    q == 1,
            ;
            assert(shifted_value(d, k) == digits_value(d));
        } else {
            assert(shifted_value(d, k) == digits_value(d) * q);
        }
        assert(shifted_value(d, k) == decimal_ticks(s));
    } else {
        let f8 = f.take(8);
        assert(d.take(k) =~= w + f8);
        lemma_digits_concat(w, f8);
        assert(d[k] == f[8]);
        assert(0 < k < d.len());
        assert(digits_value(d.take(k)) == digits_value(w) * 100_000_000 + digits_value(f8));
        assert(fraction_ticks(f) == digits_value(f8) + (if f[8] >= 53u8 {
            1nat
        } else {
            0nat
        }));
        assert(shifted_value(d, k) == digits_value(d.take(k)) + (if d[k] >= 53u8 {
            1nat
        } else {
            0nat
        }));
        assert(decimal_ticks(s) == digits_value(w) * 100_000_000 + fraction_ticks(f));
        assert(shifted_value(d, k) == decimal_ticks(s));
    }
}


proof fn lemma_pow10_add(a: nat, b: nat)
    ensures
        pow10(a) * pow10(b) == pow10(a + b),
    decreases a,
{
    if a > 0 {
        lemma_pow10_add((a - 1) as nat, b);
        assert(pow10(a + b) == 10 * pow10((a - 1 + b) as nat));
        assert(pow10(a) * pow10(b) == 10 * (pow10((a - 1) as nat) * pow10(b))) by (nonlinear_arith)
            requires
                pow10(a) == 10 * pow10((a - 1) as nat),
        ;
        assert(pow10((a - 1) as nat) * pow10(b) == pow10(((a - 1) as nat + b) as nat));
        assert(((a - 1) as nat + b) as nat == (a - 1 + b) as nat);
    } else {
        assert(pow10(a) == 1);
        assert(pow10(a) * pow10(b) == pow10(b)) by (nonlinear_arith)
            requires
                pow10(a) == 1,
        ;
        assert(a + b == b);
    }
}

/// `dot_pos` of a prefix agrees with `dot_pos` of the whole when the prefix
/// already holds the first dot, and otherwise is the prefix length.
proof fn lemma_dot_pos_prefix(s: Seq<u8>, k: int)
    requires
        0 <= k <= s.len(),
    ensures
        dot_pos(s.take(k)) < k ==> dot_pos(s) == dot_pos(s.take(k)),
        dot_pos(s.take(k)) == k ==> dot_pos(s) >= k,
    decreases s.len() - k,
{
    lemma_dot_pos_bound(s.take(k));
    if k < s.len() {
        lemma_dot_pos_extend(s, k);
        lemma_dot_pos_prefix(s, k + 1);
    } else {
        assert(s.take(k) =~= s);
    }
}

/// The bytes of ASCII text, one per character.
pub open spec fn ascii_bytes(s: Seq<char>) -> Seq<u8> {
    s.map_values(|c: char| c as u8)
}

/// A decimal digit character.
pub open spec fn is_digit_char(c: char) -> bool {
    48 <= (c as u32) <= 57 && c == digit_char((c as u32 - 48) as nat)
}

/// Text made of digit characters only.
pub open spec fn digit_chars(s: Seq<char>) -> bool {
    forall|i: int| 0 <= i < s.len() ==> is_digit_char(#[trigger] s[i])
}

proof fn lemma_digit_char(d: nat)
    requires
        d < 10,
    ensures
        digit_char(d) as u32 == 48 + d,
        digit_char(d) as u8 == 48 + d,
        is_digit_char(digit_char(d)),
{
    let b: u8 = (48 + d) as u8;
    assert(b == 48 + d);
    assert(digit_char(d) == b as char);
    assert((b as char) as u32 == b);
    assert(((b as char) as u32 - 48) as nat == d);
}

proof fn lemma_digit_char_facts(c: char)
    requires
        is_digit_char(c),
    ensures
        c as u8 == c as u32,
        is_digit(c as u8),
        '\0' <= c <= '\u{7f}',
{
    lemma_digit_char((c as u32 - 48) as nat);
}

proof fn lemma_digit_chars_push(s: Seq<char>, c: char)
    requires
        digit_chars(s),
        is_digit_char(c),
    ensures
        digit_chars(s.push(c)),
        ascii_bytes(s.push(c)) == ascii_bytes(s).push(c as u8),
{
    assert(ascii_bytes(s.push(c)) =~= ascii_bytes(s).push(c as u8));
    assert forall|i: int| 0 <= i < s.push(c).len() implies is_digit_char(#[trigger] s.push(c)[i]) by {
        if i < s.len() {
            assert(s.push(c)[i] == s[i]);
        }
    }
}

/// The decimal text of `n` is digits that read back as `n`.
proof fn lemma_decimal_text_digits(n: nat)
    ensures
        digit_chars(decimal_text(n)),
        decimal_text(n).len() >= 1,
        digits_value(ascii_bytes(decimal_text(n))) == n,
    decreases n,
{
    lemma_digit_char(n % 10);
    if n < 10 {
        assert(decimal_text(n) == seq![digit_char(n)]);
        assert(ascii_bytes(decimal_text(n)) =~= seq![(48 + n) as u8]);
        assert(ascii_bytes(decimal_text(n)).drop_last() =~= Seq::<u8>::empty());
        assert(digit_of((48 + n) as u8) == n);
        assert(digits_value(Seq::<u8>::empty()) == 0);
        assert(digits_value(ascii_bytes(decimal_text(n))) == digits_value(ascii_bytes(decimal_text(n)).drop_last()) * 10 + digit_of(ascii_bytes(decimal_text(n)).last()));
        assert forall|i: int| 0 <= i < decimal_text(n).len() implies is_digit_char(#[trigger] decimal_text(n)[i]) by {
            assert(decimal_text(n)[i] == digit_char(n));
        }
    } else {
        lemma_decimal_text_digits(n / 10);
        let pre = decimal_text(n / 10);
        let c = digit_char(n % 10);
        assert(decimal_text(n) == pre.push(c));
        lemma_digit_chars_push(pre, c);
        lemma_digits_push(ascii_bytes(pre), c as u8);
        assert(digit_of(c as u8) == n % 10);
        assert((n / 10) * 10 + n % 10 == n);
        assert(ascii_bytes(decimal_text(n)) == ascii_bytes(pre).push(c as u8));
        assert(digits_value(ascii_bytes(pre).push(c as u8)) == n);
    }
}

/// The `k` padded digits of `v` read back as `v mod 10^k`.
proof fn lemma_padded_digits(v: nat, k: nat)
    ensures
        digit_chars(padded_digits(v, k)),
        padded_digits(v, k).len() == k,
        digits_value(ascii_bytes(padded_digits(v, k))) == v % pow10(k),
    decreases k,
{
    if k == 0 {
        assert(ascii_bytes(padded_digits(v, k)) =~= Seq::<u8>::empty());
        assert(v % 1 == 0);
    } else {
        lemma_padded_digits(v / 10, (k - 1) as nat);
        lemma_digit_char(v % 10);
        let pre = padded_digits(v / 10, (k - 1) as nat);
        let c = digit_char(v % 10);
        assert(padded_digits(v, k) == pre.push(c));
        lemma_digit_chars_push(pre, c);
        lemma_digits_push(ascii_bytes(pre), c as u8);
        assert(digit_of(c as u8) == v % 10);
        let p = pow10((k - 1) as nat);
        lemma_pow10_mono(0, (k - 1) as nat);
        assert(pow10(k) == 10 * p);
        assert(((v / 10) % p) * 10 + v % 10 == v % (10 * p)) by {
            vstd::arithmetic::div_mod::lemma_breakdown(v as int, 10, p as int);
        }
    }
}

/// Digit bytes hold no dot, so the dot position is the end.
proof fn lemma_dot_pos_none(s: Seq<u8>)
    requires
        forall|i: int| 0 <= i < s.len() ==> is_digit(#[trigger] s[i]),
    ensures
        dot_pos(s) == s.len(),
    decreases s.len(),
{
    if s.len() > 0 {
        assert forall|i: int| 0 <= i < s.drop_last().len() implies is_digit(#[trigger] s.drop_last()[i]) by {
            assert(s.drop_last()[i] == s[i]);
        }
        lemma_dot_pos_none(s.drop_last());
        assert(is_digit(s.last()));
    }
}

proof fn lemma_ascii_digits(s: Seq<char>)
    requires
        digit_chars(s),
    ensures
        forall|i: int| 0 <= i < s.len() ==> is_digit(#[trigger] ascii_bytes(s)[i]),
        forall|i: int| 0 <= i < s.len() ==> '\0' <= #[trigger] s[i] <= '\u{7f}',
        forall|i: int| 0 <= i < s.len() ==> #[trigger] ascii_bytes(s)[i] == s[i] as u8,
        ascii_bytes(s).len() == s.len(),
{
    assert forall|i: int| 0 <= i < s.len() implies is_digit(#[trigger] ascii_bytes(s)[i]) && '\0'
        <= s[i] <= '\u{7f}' by {
        lemma_digit_char_facts(s[i]);
    }
}

/// Two-decimal text reads back exactly: a tick value that is a whole number
/// of cents prints with two decimals and parses back to itself.
pub proof fn lemma_price_text_round_trip(t: u64)
    requires
        t % 1_000_000 == 0,
    ensures
        text_ticks(fixed_text(t as nat, 2)) == Ok::<u64, TickParseError>(t),
{
    let c: nat = (t / 1_000_000) as nat;
    assert(t == c * 1_000_000);
    reveal_with_fuel(pow10, 7);
    assert(pow10(6) == 1_000_000);
    assert(pow10(2) == 100);
    assert((t + 500_000) / 1_000_000 == c) by (nonlinear_arith)
        requires
            t == c * 1_000_000,
    ;
    assert(crate::text::rounded_units(t as nat, 2) == c);
    let w = c / 100;
    let f = c % 100;
    let a = decimal_text(w);
    let d = padded_digits(f, 2);
    let s = a + seq!['.'] + d;
    assert(fixed_text(t as nat, 2) == s);
    lemma_decimal_text_digits(w);
    lemma_padded_digits(f, 2);
    lemma_ascii_digits(a);
    lemma_ascii_digits(d);
    assert(vstd::utf8::is_ascii_chars(s)) by {
        assert forall|i: int| 0 <= i < s.len() implies '\0' <= #[trigger] s[i] <= '\u{7f}' by {
            if i < a.len() {
                assert(s[i] == a[i]);
            } else if i == a.len() {
                assert(s[i] == '.');
            } else {
                assert(s[i] == d[i - a.len() - 1]);
            }
        }
    }
    vstd::utf8::is_ascii_chars_encode_utf8(s);
    let ab = ascii_bytes(a);
    let db = ascii_bytes(d);
    let b = encode_utf8(s);
    assert(b =~= ab + seq![46u8] + db) by {
        assert forall|i: int| 0 <= i < b.len() implies b[i] == (ab + seq![46u8] + db)[i] by {
            assert(s[i] as u8 == b[i]);
            if i < a.len() {
                assert(s[i] == a[i]);
                assert(ab[i] == a[i] as u8);
            } else if i == a.len() {
                assert(s[i] == '.');
            } else {
                assert(s[i] == d[i - a.len() - 1]);
                assert(db[i - a.len() - 1] == d[i - a.len() - 1] as u8);
            }
        }
    }
    lemma_dot_pos_none(ab);
    let k = ab.len() as int;
    assert(b.take(k + 1) =~= ab.push(46u8));
    assert(ab.push(46u8).drop_last() =~= ab);
    assert(dot_pos(b.take(k + 1)) == k);
    lemma_dot_pos_prefix(b, k + 1);
    assert(dot_pos(b) == k);
    assert(is_decimal_text(b)) by {
        assert forall|i: int| 0 <= i < b.len() implies is_digit(#[trigger] b[i]) || (b[i] == 46u8 && i
            == dot_pos(b)) by {
            if i < k {
                assert(b[i] == ab[i]);
            } else if i > k {
                assert(b[i] == db[i - k - 1]);
            }
        }
    }
    assert(whole_part(b) =~= ab);
    assert(fraction_part(b) =~= db);
    assert(f % 100 == f);
    assert(digits_value(db) == f);
    assert(fraction_ticks(db) == f * 1_000_000);
    assert(decimal_ticks(b) == w * 100_000_000 + f * 1_000_000);
    assert(w * 100_000_000 + f * 1_000_000 == t) by (nonlinear_arith)
        requires
            w == c / 100,
            f == c % 100,
            t == c * 1_000_000,
    ;
    lemma_plain_decimal_ticks(b);
}

/// Four-decimal text reads back exactly: a tick value that is a whole number
/// of ten-thousandths prints with four decimals and parses back to itself.
pub proof fn lemma_quantity_text_round_trip(t: u64)
    requires
        t % 10_000 == 0,
    ensures
        text_ticks(fixed_text(t as nat, 4)) == Ok::<u64, TickParseError>(t),
{
    let c: nat = (t / 10_000) as nat;
    assert(t == c * 10_000);
    reveal_with_fuel(pow10, 7);
    assert(pow10(4) == 10_000);
    assert((t + 5_000) / 10_000 == c) by (nonlinear_arith)
        requires
            t == c * 10_000,
    ;
    assert(crate::text::rounded_units(t as nat, 4) == c);
    let w = c / 10_000;
    let f = c % 10_000;
    let a = decimal_text(w);
    let d = padded_digits(f, 4);
    let s = a + seq!['.'] + d;
    assert(fixed_text(t as nat, 4) == s);
    lemma_decimal_text_digits(w);
    lemma_padded_digits(f, 4);
    lemma_ascii_digits(a);
    lemma_ascii_digits(d);
    assert(vstd::utf8::is_ascii_chars(s)) by {
        assert forall|i: int| 0 <= i < s.len() implies '\0' <= #[trigger] s[i] <= '\u{7f}' by {
            if i < a.len() {
                assert(s[i] == a[i]);
            } else if i == a.len() {
                assert(s[i] == '.');
            } else {
                assert(s[i] == d[i - a.len() - 1]);
            }
        }
    }
    vstd::utf8::is_ascii_chars_encode_utf8(s);
    let ab = ascii_bytes(a);
    let db = ascii_bytes(d);
    let b = encode_utf8(s);
    assert(b =~= ab + seq![46u8] + db) by {
        assert forall|i: int| 0 <= i < b.len() implies b[i] == (ab + seq![46u8] + db)[i] by {
            assert(s[i] as u8 == b[i]);
            if i < a.len() {
                assert(s[i] == a[i]);
                assert(ab[i] == a[i] as u8);
            } else if i == a.len() {
                assert(s[i] == '.');
            } else {
                assert(s[i] == d[i - a.len() - 1]);
                assert(db[i - a.len() - 1] == d[i - a.len() - 1] as u8);
            }
        }
    }
    lemma_dot_pos_none(ab);
    let k = ab.len() as int;
    assert(b.take(k + 1) =~= ab.push(46u8));
    assert(ab.push(46u8).drop_last() =~= ab);
    assert(dot_pos(b.take(k + 1)) == k);
    lemma_dot_pos_prefix(b, k + 1);
    assert(dot_pos(b) == k);
    assert(is_decimal_text(b)) by {
        assert forall|i: int| 0 <= i < b.len() implies is_digit(#[trigger] b[i]) || (b[i] == 46u8 && i
            == dot_pos(b)) by {
            if i < k {
                assert(b[i] == ab[i]);
            } else if i > k {
                assert(b[i] == db[i - k - 1]);
            }
        }
    }
    assert(whole_part(b) =~= ab);
    assert(fraction_part(b) =~= db);
    assert(f % 10_000 == f);
    assert(digits_value(db) == f);
    assert(fraction_ticks(db) == f * 10_000);
    assert(decimal_ticks(b) == w * 100_000_000 + f * 10_000);
    assert(w * 100_000_000 + f * 10_000 == t) by (nonlinear_arith)
        requires
            w == c / 10_000,
            f == c % 10_000,
            t == c * 10_000,
    ;
    lemma_plain_decimal_ticks(b);
}

/// Convert a price string like "50000.50" to integer ticks.
pub fn price_str_to_ticks(s: &str) -> (r: Result<u64, TickParseError>)
    ensures
        r == text_ticks(s@),
{
    parse_ticks(s.as_bytes())
}

/// Convert a quantity string like "0.001" to integer ticks.
pub fn quantity_str_to_ticks(s: &str) -> (r: Result<u64, TickParseError>)
    ensures
        r == text_ticks(s@),
{
    parse_ticks(s.as_bytes())
}

/// Convert integer ticks to display text with two decimals (rounded half up).
pub fn ticks_to_price_str(ticks: u64) -> (r: String)
    ensures
        r@ == fixed_text(ticks as nat, 2),
{
    let mut s = String::new();
    push_fixed(&mut s, ticks, 2);
    s
}

/// Convert quantity ticks to display text with four decimals (rounded half up).
pub fn ticks_to_quantity_str(ticks: u64) -> (r: String)
    ensures
        r@ == fixed_text(ticks as nat, 4),
{
    let mut s = String::new();
    push_fixed(&mut s, ticks, 4);
    s
}

} // verus!
