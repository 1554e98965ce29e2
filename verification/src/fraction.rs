//! Exact fractions, and numbers written with a decimal point.

use crate::text;
use vstd::prelude::*;

verus! {

/// The fraction `num / den`.
#[derive(Debug, Clone, Copy, PartialEq, Eq, Structural)]
pub struct Fraction {
    pub num: i64,
    pub den: i64,
}

impl Fraction {
    /// A fraction has a positive denominator.
    pub open spec fn wf(self) -> bool {
        self.den > 0
    }

    /// Whether the fraction is at least the whole number `n`.
    pub open spec fn at_least(self, n: int) -> bool {
        self.num >= n * self.den
    }

    pub fn ge_int(&self, n: i32) -> (r: bool)
        requires
            self.wf(),
        ensures
            r == self.at_least(n as int),
    {
        proof {
            product_bound(n as int, self.den as int);
        }
        (self.num as i128) >= (n as i128) * (self.den as i128)
    }
}

/// The product of two 64-bit numbers fits 128 bits.
pub proof fn product_bound(a: int, b: int)
    requires
        -0x8000_0000_0000_0000 <= a <= 0x8000_0000_0000_0000,
        -0x8000_0000_0000_0000 <= b <= 0x8000_0000_0000_0000,
    ensures
        -0x4000_0000_0000_0000_0000_0000_0000_0000 <= a * b
            <= 0x4000_0000_0000_0000_0000_0000_0000_0000,
{
    assert(-0x4000_0000_0000_0000_0000_0000_0000_0000 <= a * b
        <= 0x4000_0000_0000_0000_0000_0000_0000_0000) by (nonlinear_arith)
        requires
            -0x8000_0000_0000_0000 <= a <= 0x8000_0000_0000_0000,
            -0x8000_0000_0000_0000 <= b <= 0x8000_0000_0000_0000,
    ;
}

// ---------------------------------------------------------------------------
// Numbers with a decimal point

pub open spec fn digit() -> spec_fn(char) -> bool {
    |c: char| text::is_digit(c)
}

/// `s` without one leading `+` or `-`.
pub open spec fn unsigned(s: Seq<char>) -> Seq<char> {
    if s.len() > 0 && (s[0] == '+' || s[0] == '-') {
        s.skip(1)
    } else {
        s
    }
}

/// What follows the leading digits of `s`.
pub open spec fn after_digits(s: Seq<char>) -> Seq<char> {
    text::strip_front(s, digit())
}

/// An exponent: `e` or `E`, an optional sign, digits.
pub open spec fn exponent(s: Seq<char>) -> bool {
    &&& s.len() > 0 && (s[0] == 'e' || s[0] == 'E')
    &&& unsigned(s.skip(1)).len() > 0
    &&& text::all_digits(unsigned(s.skip(1)))
}

/// What follows the digits and the decimal point of `s`.
pub open spec fn after_mantissa(s: Seq<char>) -> Seq<char> {
    let rest = after_digits(s);
    if rest.len() > 0 && rest[0] == '.' {
        after_digits(rest.skip(1))
    } else {
        rest
    }
}

/// The number of digits before the exponent of `s`.
pub open spec fn mantissa_digits(s: Seq<char>) -> int {
    let rest = after_digits(s);
    if rest.len() > 0 && rest[0] == '.' {
        s.len() - 1 - after_digits(rest.skip(1)).len()
    } else {
        s.len() - rest.len()
    }
}

/// The texts that Rust reads as a floating-point number: an optional sign, then `inf`,
/// `infinity` or `nan` in any case, or digits with at most one decimal point among them and an
/// optional exponent.
pub open spec fn float_literal(s: Seq<char>) -> bool {
    let body = unsigned(s);
    ||| text::lowered(body) == "inf"@
    ||| text::lowered(body) == "infinity"@
    ||| text::lowered(body) == "nan"@
    ||| {
        &&& mantissa_digits(body) > 0
        &&& after_mantissa(body).len() == 0 || exponent(after_mantissa(body))
    }
}

fn skip_digits(v: &Vec<char>, i: usize) -> (r: usize)
    requires
        i <= v@.len(),
    ensures
        i <= r <= v@.len(),
        after_digits(v@.skip(i as int)) == v@.skip(r as int),
        forall|k: int| i <= k < r ==> text::is_digit(#[trigger] v@[k]),
{
    let mut k: usize = i;
    while k < v.len() && text::char_is_digit(v[k])
        invariant
            i <= k <= v@.len(),
            after_digits(v@.skip(i as int)) == after_digits(v@.skip(k as int)),
            forall|j: int| i <= j < k ==> text::is_digit(#[trigger] v@[j]),
        decreases v@.len() - k,
    {
        assert(v@.skip(k as int)[0] == v@[k as int]);
        assert(v@.skip(k as int).drop_first() == v@.skip(k + 1));
        k = k + 1;
    }
    proof {
        if k < v@.len() {
            assert(v@.skip(k as int)[0] == v@[k as int]);
        }
    }
    k
}

/// The position after one leading sign at `i`.
fn skip_sign(v: &Vec<char>, i: usize) -> (r: usize)
    requires
        i <= v@.len(),
    ensures
        i <= r <= v@.len(),
        unsigned(v@.skip(i as int)) == v@.skip(r as int),
{
    if i < v.len() && (v[i] == '+' || v[i] == '-') {
        assert(v@.skip(i as int)[0] == v@[i as int]);
        assert(v@.skip(i as int).skip(1) == v@.skip(i + 1));
        i + 1
    } else {
        proof {
            if i < v@.len() {
                assert(v@.skip(i as int)[0] == v@[i as int]);
            }
        }
        i
    }
}

/// Whether a text is a floating-point literal.
pub fn is_float_literal(s: &str) -> (r: bool)
    ensures
        r == float_literal(s@),
{
    let v = text::chars_of(s);
    assert(v@.skip(0) == v@);
    let start: usize = skip_sign(&v, 0);
    let ghost body = unsigned(s@);
    let word = text::text_of(&v, start, v.len());
    proof {
        assert(v@.subrange(start as int, v@.len() as int) == v@.skip(start as int));
    }
    let low = text::lower(word.as_str());
    if text::same(low.as_str(), "inf") || text::same(low.as_str(), "infinity") || text::same(
        low.as_str(),
        "nan",
    ) {
        return true;
    }
    let a: usize = skip_digits(&v, start);
    let mut digits: usize = a - start;
    let mut k: usize = a;
    proof {
        if a < v@.len() {
            assert(v@.skip(a as int)[0] == v@[a as int]);
            assert(v@.skip(a as int).skip(1) == v@.skip(a + 1));
        }
    }
    if a < v.len() && v[a] == '.' {
        k = skip_digits(&v, a + 1);
        digits = digits + (k - a - 1);
    }
    assert(after_mantissa(body) == v@.skip(k as int));
    assert(mantissa_digits(body) == digits);
    if digits == 0 {
        return false;
    }
    if k == v.len() {
        return true;
    }
    let ghost tail = v@.skip(k as int);
    assert(tail[0] == v@[k as int]);
    if v[k] != 'e' && v[k] != 'E' {
        return false;
    }
    assert(tail.skip(1) == v@.skip(k + 1));
    let e: usize = skip_sign(&v, k + 1);
    if e == v.len() {
        return false;
    }
    let f: usize = skip_digits(&v, e);
    let ghost power = v@.skip(e as int);
    proof {
        if f < v@.len() {
            text::strip_front_is_suffix(power, digit());
            assert(v@.skip(f as int)[0] == v@[f as int]);
            assert(!text::is_digit(v@[f as int]));
            assert(power[f - e] == v@[f as int]);
            assert(!text::all_digits(power));
        } else {
            assert forall|i: int| 0 <= i < power.len() implies text::is_digit(#[trigger] power[i]) by {
                assert(power[i] == v@[e + i]);
            }
        }
    }
    f == v.len()
}

/// Ten to the power `n`.
pub open spec fn power10(n: nat) -> int
    decreases n,
{
    if n == 0 {
        1
    } else {
        power10((n - 1) as nat) * 10
    }
}

/// A sign, then digits with at most one decimal point among them: between one and seventeen
/// digits and no exponent.
pub open spec fn plain_decimal(s: Seq<char>) -> bool {
    let body = unsigned(s);
    after_mantissa(body).len() == 0 && 1 <= mantissa_digits(body) <= 17
}

/// The digits of a plain decimal, without its point.
pub open spec fn decimal_digits(s: Seq<char>) -> Seq<char> {
    let body = unsigned(s);
    let rest = after_digits(body);
    if rest.len() > 0 {
        body.take(body.len() - rest.len()) + rest.skip(1)
    } else {
        body
    }
}

/// The number of digits behind the point of a plain decimal.
pub open spec fn decimal_places(s: Seq<char>) -> nat {
    let rest = after_digits(unsigned(s));
    if rest.len() > 0 {
        (rest.len() - 1) as nat
    } else {
        0
    }
}

/// The value of a plain decimal, as numerator and denominator.
pub open spec fn decimal_fraction(s: Seq<char>) -> (int, int) {
    let value = text::digits_value(decimal_digits(s));
    (
        if s.len() > 0 && s[0] == '-' {
            -value
        } else {
            value
        },
        power10(decimal_places(s)),
    )
}

proof fn digits_value_bound(s: Seq<char>)
    requires
        text::all_digits(s),
    ensures
        0 <= text::digits_value(s) < power10(s.len()),
    decreases s.len(),
{
    if s.len() > 0 {
        assert forall|i: int| 0 <= i < s.drop_last().len() implies text::is_digit(
            #[trigger] s.drop_last()[i],
        ) by {
            assert(text::is_digit(s[i]));
        }
        digits_value_bound(s.drop_last());
        assert(text::is_digit(s[s.len() - 1]));
    }
}

proof fn power10_grows(a: nat, b: nat)
    requires
        a <= b,
    ensures
        0 < power10(a) <= power10(b),
    decreases b,
{
    if a < b {
        power10_grows(a, (b - 1) as nat);
    } else if b > 0 {
        power10_grows((a - 1) as nat, (b - 1) as nat);
    }
}

proof fn power10_17()
    ensures
        power10(17) == 100_000_000_000_000_000,
{
    reveal_with_fuel(power10, 18);
}

/// Reads a plain decimal exactly.
pub fn parse_decimal(s: &str) -> (r: Option<Fraction>)
    ensures
        match r {
            Some(f) => plain_decimal(s@) && f.wf() && (f.num as int, f.den as int)
                == decimal_fraction(s@) && s@.len() > 0 && (if s@[0] == '-' {
                f.num <= 0
            } else {
                f.num >= 0
            }),
            None => !plain_decimal(s@),
        },
{
    let v = text::chars_of(s);
    assert(v@.skip(0) == v@);
    let start: usize = skip_sign(&v, 0);
    let ghost body = unsigned(s@);
    let a: usize = skip_digits(&v, start);
    let ghost rest = v@.skip(a as int);
    proof {
        if a < v@.len() {
            assert(rest[0] == v@[a as int]);
            assert(rest.skip(1) == v@.skip(a + 1));
        }
    }
    let mut end: usize = a;
    let mut digits: usize = a - start;
    let mut places: usize = 0;
    if a < v.len() && v[a] == '.' {
        end = skip_digits(&v, a + 1);
        places = end - a - 1;
        digits = digits + places;
    }
    assert(after_mantissa(body) == v@.skip(end as int));
    assert(mantissa_digits(body) == digits);
    if end != v.len() || digits == 0 || digits > 17 {
        return None;
    }
    let ghost all = decimal_digits(s@);
    proof {
        assert(body.take(body.len() - rest.len()) == v@.subrange(start as int, a as int));
        if a < v@.len() {
            assert(all == v@.subrange(start as int, a as int) + v@.skip(a + 1));
        } else {
            assert(all == v@.subrange(start as int, a as int));
        }
        assert(all.len() == digits);
        assert forall|i: int| 0 <= i < all.len() implies text::is_digit(#[trigger] all[i]) by {
            if i < a - start {
                assert(all[i] == v@[start + i]);
            } else {
                assert(all[i] == v@[start + i + 1]);
            }
        }
    }
    let mut num: i64 = 0;
    let mut k: usize = start;
    let ghost mut done: int = 0;
    assert(all.take(0) == Seq::<char>::empty());
    while k < v.len()
        invariant
            start <= a <= v@.len(),
            start <= k <= v@.len(),
            digits <= 17,
            all.len() == digits,
            text::all_digits(all),
            forall|i: int| 0 <= i < a - start ==> all[i] == v@[start + i],
            forall|i: int| a - start <= i < digits ==> all[i] == v@[start + i + 1],
            a < v@.len() ==> digits == v@.len() - start - 1,
            a == v@.len() ==> digits == v@.len() - start,
            done == if k <= a {
                k - start
            } else {
                k - start - 1
            },
            num == text::digits_value(all.take(done)),
            0 <= num < power10(done as nat),
        decreases v@.len() - k,
    {
        if k != a {
            proof {
                assert(all[done] == v@[k as int]);
                assert(text::is_digit(all[done]));
                assert(all.take(done + 1).drop_last() == all.take(done));
                assert(all.take(done + 1).last() == all[done]);
                power10_grows((done + 1) as nat, 17);
                power10_17();
                assert(num * 10 + 9 < power10((done + 1) as nat));
                done = done + 1;
            }
            num = num * 10 + ((v[k] as u32) as i64 - 48);
        }
        k = k + 1;
    }
    proof {
        assert(done == digits);
        assert(all.take(done) == all);
    }
    let mut den: i64 = 1;
    let mut p: usize = 0;
    while p < places
        invariant
            p <= places <= 17,
            den == power10(p as nat),
            den > 0,
        decreases places - p,
    {
        proof {
            power10_grows((p + 1) as nat, 17);
            power10_17();
        }
        den = den * 10;
        p = p + 1;
    }
    proof {
        if a < v@.len() {
            assert(decimal_places(s@) == places);
        } else {
            assert(decimal_places(s@) == 0);
        }
        digits_value_bound(all);
        power10_grows(digits as nat, 17);
        power10_17();
    }
    let negative: bool = v.len() > 0 && v[0] == '-';
    if negative {
        Some(Fraction { num: -num, den })
    } else {
        Some(Fraction { num, den })
    }
}

// ---------------------------------------------------------------------------
// Comparing

impl Fraction {
    /// Whether the fraction is at least another one.
    pub open spec fn reaches(self, other: Fraction) -> bool {
        self.num * other.den >= other.num * self.den
    }

    pub fn ge(&self, other: &Fraction) -> (r: bool)
        ensures
            r == self.reaches(*other),
    {
        proof {
            product_bound(self.num as int, other.den as int);
            product_bound(other.num as int, self.den as int);
        }
        (self.num as i128) * (other.den as i128) >= (other.num as i128) * (self.den as i128)
    }

    /// The fraction, brought between nought and one.
    pub open spec fn within_one(self) -> Fraction {
        if self.num <= 0 {
            Fraction { num: 0, den: 1 }
        } else if self.num >= self.den {
            Fraction { num: 1, den: 1 }
        } else {
            self
        }
    }

    pub fn clamp_one(&self) -> (r: Fraction)
        requires
            self.wf(),
        ensures
            r == self.within_one(),
            r.wf(),
            0 <= r.num <= r.den,
            r.den <= self.den,
    {
        if self.num <= 0 {
            Fraction { num: 0, den: 1 }
        } else if self.num >= self.den {
            Fraction { num: 1, den: 1 }
        } else {
            *self
        }
    }
}

// ---------------------------------------------------------------------------
// Numbers with an exponent

/// A literal that is a number, and neither infinite nor none.
pub open spec fn finite_literal(s: Seq<char>) -> bool {
    let body = unsigned(s);
    &&& mantissa_digits(body) > 0
    &&& after_mantissa(body).len() == 0 || exponent(after_mantissa(body))
}

/// The digits before the decimal point of a literal.
pub open spec fn front_digits(s: Seq<char>) -> Seq<char> {
    let body = unsigned(s);
    body.take(body.len() - after_digits(body).len())
}

/// The digits between the decimal point and the exponent of a literal.
pub open spec fn back_digits(s: Seq<char>) -> Seq<char> {
    let rest = after_digits(unsigned(s));
    if rest.len() > 0 && rest[0] == '.' {
        rest.skip(1).take(rest.len() - 1 - after_digits(rest.skip(1)).len())
    } else {
        Seq::empty()
    }
}

/// All digits of a literal but those of its exponent.
pub open spec fn all_front(s: Seq<char>) -> Seq<char> {
    front_digits(s) + back_digits(s)
}

/// By how many places an exponent moves the point to the right.
pub open spec fn shift_of(tail: Seq<char>) -> int {
    if tail.len() == 0 {
        0
    } else {
        let n = text::digits_value(unsigned(tail.skip(1)));
        if tail[1] == '-' {
            -n
        } else {
            n
        }
    }
}

/// How many digits of a literal stand before the point once its exponent has moved it.
pub open spec fn point(s: Seq<char>) -> int {
    front_digits(s).len() + shift_of(after_mantissa(unsigned(s)))
}

/// The whole number before the point, where the point stands after the first `at` digits.
pub open spec fn whole(digits: Seq<char>, at: int) -> int {
    if at <= 0 {
        0
    } else if at <= digits.len() {
        text::digits_value(digits.take(at))
    } else {
        text::digits_value(digits) * power10((at - digits.len()) as nat)
    }
}

/// Something other than nought stands behind the point.
pub open spec fn has_rest(digits: Seq<char>, at: int) -> bool {
    exists|i: int| 0 <= i < digits.len() && at <= i && #[trigger] digits[i] != '0'
}

/// The number of a literal lies between two whole numbers, the bounds among them. An infinite
/// number, or none, lies nowhere.
pub open spec fn literal_within(s: Seq<char>, lo: int, hi: int) -> bool {
    let w = whole(all_front(s), point(s));
    let more = has_rest(all_front(s), point(s));
    &&& finite_literal(s)
    &&& if s[0] == '-' {
        -hi <= w && (w < -lo || (w == -lo && !more))
    } else {
        lo <= w && (w < hi || (w == hi && !more))
    }
}

proof fn longer_is_larger(s: Seq<char>, n: int)
    requires
        text::all_digits(s),
        0 <= n <= s.len(),
    ensures
        0 <= text::digits_value(s.take(n)) <= text::digits_value(s),
    decreases s.len(),
{
    digits_value_bound(s);
    if n == s.len() {
        assert(s.take(n) =~= s);
    } else {
        assert forall|i: int| 0 <= i < s.drop_last().len() implies text::is_digit(
            #[trigger] s.drop_last()[i],
        ) by {
            assert(text::is_digit(s[i]));
        }
        longer_is_larger(s.drop_last(), n);
        assert(s.drop_last().take(n) =~= s.take(n));
        assert(text::is_digit(s[s.len() - 1]));
    }
}

/// The number of a row of digits, or the limit where it is not below that.
fn capped_value(v: &Vec<char>, from: usize, to: usize, limit: u128) -> (r: u128)
    requires
        from <= to <= v@.len(),
        text::all_digits(v@.subrange(from as int, to as int)),
        0 < limit <= 0x1_0000_0000_0000_0000_0000_0000,
    ensures
        r <= limit,
        r < limit ==> r == text::digits_value(v@.subrange(from as int, to as int)),
        r == limit ==> text::digits_value(v@.subrange(from as int, to as int)) >= limit,
{
    let ghost all = v@.subrange(from as int, to as int);
    let mut n: u128 = 0;
    let mut i: usize = from;
    assert(all.take(0) =~= Seq::<char>::empty());
    while i < to
        invariant
            from <= i <= to <= v@.len(),
            all == v@.subrange(from as int, to as int),
            text::all_digits(all),
            0 < limit <= 0x1_0000_0000_0000_0000_0000_0000,
            n < limit,
            n == text::digits_value(all.take(i - from)),
        decreases to - i,
    {
        let ghost k = i - from;
        proof {
            assert(all.take(k + 1).drop_last() =~= all.take(k));
            assert(all.take(k + 1).last() == v@[i as int]);
            assert(text::is_digit(all[k]));
        }
        n = n * 10 + ((v[i] as u32) as u128 - 48);
        if n >= limit {
            proof {
                longer_is_larger(all, k + 1);
            }
            return limit;
        }
        i = i + 1;
    }
    assert(all.take(i - from) =~= all);
    n
}

proof fn power10_10()
    ensures
        power10(10) == 10_000_000_000,
{
    reveal_with_fuel(power10, 11);
}

proof fn times_power(n: int, k: nat)
    requires
        n > 0,
    ensures
        n * power10(k) >= power10(k),
{
    power10_grows(k, k);
    assert(n * power10(k) >= power10(k)) by (nonlinear_arith)
        requires
            n > 0,
            power10(k) > 0,
    ;
}

/// The whole number before the point, or ten to the tenth where it is not below that. `at` need
/// not be where the point stands: it is enough that both lie before the digits, or both far
/// behind them.
fn capped_whole(digits: &Vec<char>, at: i128, Ghost(true_at): Ghost<int>) -> (r: u128)
    requires
        text::all_digits(digits@),
        at == true_at || (at <= 0 && true_at <= 0) || (at >= digits@.len() + 10 && true_at >= digits@.len()
            + 10),
    ensures
        r <= 10_000_000_000,
        r < 10_000_000_000 ==> r == whole(digits@, true_at),
        r == 10_000_000_000 ==> whole(digits@, true_at) >= 10_000_000_000,
{
    let len: usize = digits.len();
    if at <= 0 {
        return 0;
    }
    assert(digits@.subrange(0, len as int) =~= digits@);
    if at <= len as i128 {
        let to: usize = at as usize;
        assert(digits@.subrange(0, to as int) =~= digits@.take(true_at));
        assert(text::all_digits(digits@.subrange(0, to as int)));
        return capped_value(digits, 0, to, 10_000_000_000);
    }
    let n: u128 = capped_value(digits, 0, len, 10_000_000_000);
    let ghost value = text::digits_value(digits@);
    let ghost more = (true_at - len) as nat;
    proof {
        power10_10();
        power10_grows(0, more);
        if value > 0 {
            times_power(value, more);
        }
    }
    if n == 0 {
        assert(value * power10(more) == 0) by (nonlinear_arith)
            requires
                value == 0,
        ;
        return 0;
    }
    if n == 10_000_000_000 {
        assert(value * power10(more) >= value) by (nonlinear_arith)
            requires
                value >= 0,
                power10(more) >= 1,
        ;
        return n;
    }
    if at - (len as i128) >= 10 {
        proof {
            power10_grows(10, more);
        }
        return 10_000_000_000;
    }
    let places: u128 = (at - (len as i128)) as u128;
    let mut out: u128 = n;
    let mut i: u128 = 0;
    proof {
        assert(value * power10(0) == value) by (nonlinear_arith)
            requires
                power10(0) == 1,
        ;
    }
    while i < places
        invariant
            i <= places < 10,
            value < 10_000_000_000,
            out == value * power10(i as nat),
            out < 10_000_000_000 * power10(i as nat),
        decreases places - i,
    {
        proof {
            power10_grows(i as nat, 10);
            power10_10();
            assert(value * (power10(i as nat) * 10) == (value * power10(i as nat)) * 10)
                by (nonlinear_arith);
            assert(10_000_000_000 * (power10(i as nat) * 10) == (10_000_000_000 * power10(
                i as nat,
            )) * 10) by (nonlinear_arith);
        }
        out = out * 10;
        i = i + 1;
    }
    if out >= 10_000_000_000 {
        10_000_000_000
    } else {
        out
    }
}

fn has_more(digits: &Vec<char>, at: i128, Ghost(true_at): Ghost<int>) -> (r: bool)
    requires
        at == true_at || (at <= 0 && true_at <= 0) || (at >= digits@.len() + 10 && true_at >= digits@.len()
            + 10),
    ensures
        r == has_rest(digits@, true_at),
{
    let mut i: usize = 0;
    while i < digits.len()
        invariant
            i <= digits@.len(),
            at == true_at || (at <= 0 && true_at <= 0) || (at >= digits@.len() + 10 && true_at
                >= digits@.len() + 10),
            forall|k: int| 0 <= k < i && true_at <= k ==> #[trigger] digits@[k] == '0',
        decreases digits@.len() - i,
    {
        if at <= (i as i128) && digits[i] != '0' {
            assert(digits@[i as int] != '0');
            return true;
        }
        i = i + 1;
    }
    false
}

/// The digits of a literal without those of its exponent, how many of them stand before the point,
/// and where they end.
fn read_mantissa(v: &Vec<char>, start: usize) -> (r: (Vec<char>, usize, usize))
    requires
        unsigned(v@) == v@.skip(start as int),
        start <= v@.len(),
    ensures
        r.0@ == all_front(v@),
        r.1 == front_digits(v@).len(),
        r.2 <= v@.len(),
        after_mantissa(unsigned(v@)) == v@.skip(r.2 as int),
        mantissa_digits(unsigned(v@)) == r.0@.len(),
        r.1 <= r.0@.len(),
        text::all_digits(r.0@),
{
    let ghost s = v@;
    let a: usize = skip_digits(v, start);
    let ghost rest = v@.skip(a as int);
    proof {
        if a < v@.len() {
            assert(rest[0] == v@[a as int]);
            assert(rest.skip(1) == v@.skip(a + 1));
        }
    }
    let mut digits: Vec<char> = Vec::new();
    let mut i: usize = start;
    while i < a
        invariant
            start <= i <= a <= v@.len(),
            digits@ == v@.subrange(start as int, i as int),
        decreases a - i,
    {
        digits.push(v[i]);
        i = i + 1;
        assert(digits@ =~= v@.subrange(start as int, i as int));
    }
    let front: usize = digits.len();
    let mut k: usize = a;
    let ghost head = v@.subrange(start as int, a as int);
    assert(front_digits(s) =~= head);
    if a < v.len() && v[a] == '.' {
        k = skip_digits(v, a + 1);
        let mut j: usize = a + 1;
        while j < k
            invariant
                a < j <= k <= v@.len(),
                digits@ == head + v@.subrange(a + 1, j as int),
            decreases k - j,
        {
            digits.push(v[j]);
            j = j + 1;
            assert(digits@ =~= head + v@.subrange(a + 1, j as int));
        }
        assert(back_digits(s) =~= v@.subrange(a + 1, k as int));
    } else {
        assert(back_digits(s) =~= Seq::<char>::empty());
    }
    proof {
        assert(digits@ =~= all_front(s));
        assert forall|q: int| 0 <= q < digits@.len() implies text::is_digit(#[trigger] digits@[q]) by {
            if q < a - start {
                assert(digits@[q] == v@[start + q]);
            } else {
                assert(digits@[q] == v@[start + q + 1]);
            }
        }
    }
    (digits, front, k)
}

/// By how many places the exponent at the end of a literal moves its point; none where there is
/// something else. A very large number is only known to be very large.
fn read_shift(v: &Vec<char>, k: usize) -> (r: Option<i128>)
    requires
        k <= v@.len(),
    ensures
        ({
            let tail = v@.skip(k as int);
            match r {
                Some(m) => {
                    &&& tail.len() == 0 || exponent(tail)
                    &&& -0x1_0000_0000_0000_0000_0000 <= m <= 0x1_0000_0000_0000_0000_0000
                    &&& m == shift_of(tail) || (m == 0x1_0000_0000_0000_0000_0000 && shift_of(tail)
                        >= m) || (m == -0x1_0000_0000_0000_0000_0000 && shift_of(tail) <= m)
                },
                None => tail.len() > 0 && !exponent(tail),
            }
        }),
{
    if k == v.len() {
        return Some(0);
    }
    let ghost tail = v@.skip(k as int);
    assert(tail[0] == v@[k as int]);
    if v[k] != 'e' && v[k] != 'E' {
        return None;
    }
    assert(tail.skip(1) == v@.skip(k + 1));
    let e: usize = skip_sign(v, k + 1);
    if e == v.len() {
        return None;
    }
    let f: usize = skip_digits(v, e);
    let ghost power = v@.skip(e as int);
    if f < v.len() {
        proof {
            text::strip_front_is_suffix(power, digit());
            assert(v@.skip(f as int)[0] == v@[f as int]);
            assert(!text::is_digit(v@[f as int]));
            assert(power[f - e] == v@[f as int]);
            assert(!text::all_digits(power));
        }
        return None;
    }
    proof {
        assert forall|q: int| 0 <= q < power.len() implies text::is_digit(#[trigger] power[q]) by {
            assert(power[q] == v@[e + q]);
        }
        assert(v@.subrange(e as int, v@.len() as int) =~= power);
        assert(tail[1] == v@[k + 1]);
    }
    let moved: u128 = capped_value(v, e, v.len(), 0x1_0000_0000_0000_0000_0000);
    if v[k + 1] == '-' {
        Some(-(moved as i128))
    } else {
        Some(moved as i128)
    }
}

/// Whether the number of a literal lies between two whole numbers.
pub fn lies_within(s: &str, lo: i32, hi: i32) -> (r: bool)
    ensures
        r == literal_within(s@, lo as int, hi as int),
{
    let v = text::chars_of(s);
    assert(v@.skip(0) == v@);
    let start: usize = skip_sign(&v, 0);
    let (digits, front, k) = read_mantissa(&v, start);
    if digits.len() == 0 {
        return false;
    }
    let shifted: i128 = match read_shift(&v, k) {
        Some(m) => m,
        None => {
            return false;
        },
    };
    let ghost true_at = point(s@);
    let at: i128 = (front as i128) + shifted;
    let w: u128 = capped_whole(&digits, at, Ghost(true_at));
    let more = has_more(&digits, at, Ghost(true_at));
    let n: i128 = w as i128;
    if v[0] == '-' {
        -(hi as i128) <= n && (n < -(lo as i128) || (n == -(lo as i128) && !more))
    } else {
        (lo as i128) <= n && (n < (hi as i128) || (n == (hi as i128) && !more))
    }
}

// ---------------------------------------------------------------------------
// Rounding

/// The tenths in `num / den`, to the nearest one and halves to the even one.
pub open spec fn tenths(num: int, den: int) -> int {
    let whole = 10 * num / den;
    let rest = 10 * num % den;
    if 2 * rest > den || (2 * rest == den && whole % 2 == 1) {
        whole + 1
    } else {
        whole
    }
}

/// A plain decimal with one digit behind its point; any other text as it is.
pub open spec fn one_place(s: Seq<char>) -> Seq<char> {
    if plain_decimal(s) {
        let minus = s[0] == '-';
        let (num, den) = decimal_fraction(s);
        let t = tenths(
            if minus {
                -num
            } else {
                num
            },
            den,
        );
        (if minus {
            "-"@
        } else {
            ""@
        }) + text::decimal((t / 10) as nat) + "."@ + text::decimal((t % 10) as nat)
    } else {
        s
    }
}

/// A text in which a plain decimal is rounded to one digit behind its point.
pub fn to_one_place(s: &str) -> (r: String)
    ensures
        r@ == one_place(s@),
{
    match parse_decimal(s) {
        Some(f) => {
            let minus = text::starts_with(s, "-");
            proof {
                reveal_strlit("-");
                assert(minus == (s@[0] == '-')) by {
                    if s@[0] == '-' {
                        assert(s@.subrange(0, 1) =~= "-"@);
                    }
                    if minus {
                        assert(s@.subrange(0, 1)[0] == s@[0]);
                    }
                }
            }
            let num: i128 = if minus {
                -(f.num as i128)
            } else {
                f.num as i128
            };
            let den: i128 = f.den as i128;
            proof {
                tenths_bound(num as int, den as int);
            }
            let whole: i128 = (10 * num) / den;
            let rest: i128 = (10 * num) % den;
            let t: i128 = if 2 * rest > den || (2 * rest == den && whole % 2 == 1) {
                whole + 1
            } else {
                whole
            };
            let mut out = text::copy(
                if minus {
                    "-"
                } else {
                    ""
                },
            );
            out.append(text::format_nat((t / 10) as u64).as_str());
            out.append(".");
            out.append(text::format_nat((t % 10) as u64).as_str());
            out
        },
        None => text::copy(s),
    }
}

proof fn tenths_bound(num: int, den: int)
    requires
        0 <= num <= 0x8000_0000_0000_0000,
        1 <= den,
    ensures
        0 <= 10 * num / den <= 10 * num,
        0 <= 10 * num % den < den,
{
    let n = 10 * num;
    assert(0 <= n / den <= n) by (nonlinear_arith)
        requires
            0 <= n,
            1 <= den,
    ;
    assert(0 <= n % den < den) by (nonlinear_arith)
        requires
            1 <= den,
    ;
}

} // verus!
