//! Numbers with a decimal point.

use crate::fraction;
use crate::fraction::Fraction;
use crate::text;
use vstd::prelude::*;

verus! {

/// Digits at the front are taken off up to the first character that is none.
proof fn digits_are_taken_off(a: Seq<char>, rest: Seq<char>)
    requires
        text::all_digits(a),
        rest.len() == 0 || !text::is_digit(rest[0]),
    ensures
        fraction::after_digits(a + rest) == rest,
    decreases a.len(),
{
    let s = a + rest;
    let p = fraction::digit();
    if a.len() > 0 {
        let less = a.drop_first();
        assert forall|i: int| 0 <= i < less.len() implies text::is_digit(#[trigger] less[i]) by {
            assert(less[i] == a[i + 1]);
        }
        digits_are_taken_off(less, rest);
        assert(s[0] == a[0]);
        assert(p(s[0]));
        assert(s.drop_first() =~= less + rest);
    } else {
        assert(s =~= rest);
        if rest.len() > 0 {
            assert(!p(s[0]));
        }
    }
}

/// Ten to the power of a number.
pub open spec fn tens(n: nat) -> int
    decreases n,
{
    if n == 0 {
        1
    } else {
        10 * tens((n - 1) as nat)
    }
}

proof fn tens_are_powers(n: nat)
    ensures
        fraction::power10(n) == tens(n),
        tens(n) > 0,
    decreases n,
{
    if n > 0 {
        tens_are_powers((n - 1) as nat);
    }
}

/// Digits with a point among them are the number that the digits say, divided by ten for each digit
/// behind the point; a minus sign makes the number negative.
pub proof fn decimals_are_fractions(a: Seq<char>, b: Seq<char>)
    requires
        text::all_digits(a),
        text::all_digits(b),
        1 <= a.len(),
        a.len() + b.len() <= 17,
    ensures
        ({
            let s = a + seq!['.'] + b;
            &&& fraction::plain_decimal(s)
            &&& fraction::decimal_fraction(s) == (text::digits_value(a + b), tens(b.len()))
            &&& fraction::decimal_fraction(seq!['-'] + s) == (
                -text::digits_value(a + b),
                tens(b.len()),
            )
            &&& fraction::decimal_fraction(a) == (text::digits_value(a), 1int)
            &&& fraction::decimal_fraction(seq!['-'] + a) == (-text::digits_value(a), 1int)
        }),
{
    let s = a + seq!['.'] + b;
    let rest = seq!['.'] + b;
    let none = Seq::<char>::empty();
    assert(text::is_digit(a[0]));
    assert(s[0] == a[0]);
    assert(s =~= a + rest);
    digits_are_taken_off(a, rest);
    digits_are_taken_off(b, none);
    assert(b + none =~= b);
    assert(rest.skip(1) =~= b);
    assert(fraction::unsigned(s) == s);
    assert(s.take(s.len() - rest.len()) =~= a);
    assert(fraction::decimal_digits(s) =~= a + b);
    let m = seq!['-'] + s;
    assert(m[0] == '-' && m.skip(1) =~= s);
    assert(fraction::unsigned(m) == s);
    tens_are_powers(b.len());
    assert(a + none =~= a);
    digits_are_taken_off(a, none);
    assert(fraction::unsigned(a) == a);
    let n = seq!['-'] + a;
    assert(n[0] == '-' && n.skip(1) =~= a);
    assert(fraction::decimal_digits(a) == a);
    tens_are_powers(0);
}

/// A fraction reaches another where it is as large, and a whole number likewise.
pub proof fn fractions_are_compared(a: Fraction, n: i64, k: i64)
    requires
        a.wf(),
        0 < k,
    ensures
        a.at_least(n as int) <==> a.reaches(Fraction { num: n, den: 1 }),
        a.reaches(a),
        a.num * k <= i64::MAX && a.num >= 0 && a.den * k <= i64::MAX ==> a.reaches(
            Fraction { num: (a.num * k) as i64, den: (a.den * k) as i64 },
        ),
{
    let x = a.num as int;
    let y = a.den as int;
    let z = k as int;
    assert(x * (y * z) == (x * z) * y) by (nonlinear_arith);
    assert(0 <= x ==> 0 <= x * z) by (nonlinear_arith)
        requires
            z > 0,
    ;
    assert(0 <= y * z) by (nonlinear_arith)
        requires
            z > 0,
            y > 0,
    ;
}

/// A fraction is brought between nought and one, and one that lies there is kept.
pub proof fn shares_lie_between_nought_and_one(a: Fraction)
    requires
        a.wf(),
    ensures
        a.num <= 0 ==> a.within_one() == (Fraction { num: 0, den: 1 }),
        a.num >= a.den ==> a.within_one() == (Fraction { num: 1, den: 1 }),
        0 < a.num < a.den ==> a.within_one() == a,
{
}

/// Tenths are rounded to the nearest, and to the even one of two that are as near.
pub proof fn tenths_are_rounded(num: int, den: int)
    requires
        num >= 0,
        den > 0,
    ensures
        ({
            let t = fraction::tenths(num, den);
            &&& 2 * t * den - den <= 20 * num <= 2 * t * den + den
            &&& 20 * num == 2 * t * den + den || 20 * num == 2 * t * den - den ==> t % 2 == 0
        }),
{
    let n = 10 * num;
    let q = n / den;
    let r = n % den;
    assert(n == q * den + r && 0 <= r < den) by (nonlinear_arith)
        requires
            q == n / den,
            r == n % den,
            den > 0,
    ;
    assert((q + 1) * den == q * den + den) by (nonlinear_arith);
    assert(2 * (q + 1) * den == 2 * ((q + 1) * den)) by (nonlinear_arith);
    assert(2 * q * den == 2 * (q * den)) by (nonlinear_arith);
}

/// A whole number of digits lies within two bounds exactly where its value does; an infinite number,
/// or none, lies nowhere.
pub proof fn numbers_lie_within_bounds(a: Seq<char>, lo: int, hi: int)
    requires
        text::all_digits(a),
        a.len() > 0,
    ensures
        fraction::literal_within(a, lo, hi) <==> lo <= text::digits_value(a) <= hi,
        fraction::literal_within(seq!['-'] + a, lo, hi) <==> lo <= -text::digits_value(a) <= hi,
        !fraction::literal_within("inf"@, lo, hi),
        !fraction::literal_within("nan"@, lo, hi),
{
    let none = Seq::<char>::empty();
    assert(text::is_digit(a[0]));
    assert(a + none =~= a);
    digits_are_taken_off(a, none);
    assert(fraction::unsigned(a) == a);
    let n = seq!['-'] + a;
    assert(n[0] == '-' && n.skip(1) =~= a);
    assert(fraction::unsigned(n) == a);
    assert(a.take(a.len() as int) =~= a);
    assert(fraction::all_front(a) =~= a);
    assert(fraction::all_front(n) =~= a);
    assert(!fraction::has_rest(a, a.len() as int));
    words_are_no_numbers();
}

proof fn words_are_no_numbers()
    ensures
        !fraction::finite_literal("inf"@),
        !fraction::finite_literal("nan"@),
{
    reveal_strlit("inf");
    reveal_strlit("nan");
    let p = fraction::digit();
    assert("inf"@[0] == 'i' && "nan"@[0] == 'n');
    assert(!p('i') && !p('n'));
    assert(fraction::after_digits("inf"@) == "inf"@);
    assert(fraction::after_digits("nan"@) == "nan"@);
}

/// A number with a point lies below its upper bound, or at it with nothing but noughts behind the
/// point.
pub proof fn decimals_lie_within_bounds(a: Seq<char>, b: Seq<char>, lo: int, hi: int)
    requires
        text::all_digits(a),
        text::all_digits(b),
        a.len() > 0,
    ensures
        ({
            let w = text::digits_value(a);
            let zeros = forall|i: int| 0 <= i < b.len() ==> #[trigger] b[i] == '0';
            fraction::literal_within(a + seq!['.'] + b, lo, hi) <==> lo <= w && (w < hi || (w == hi
                && zeros))
        }),
{
    let s = a + seq!['.'] + b;
    let rest = seq!['.'] + b;
    let none = Seq::<char>::empty();
    assert(text::is_digit(a[0]));
    assert(s[0] == a[0]);
    assert(s =~= a + rest);
    digits_are_taken_off(a, rest);
    digits_are_taken_off(b, none);
    assert(b + none =~= b);
    assert(rest.skip(1) =~= b);
    assert(fraction::unsigned(s) == s);
    assert(fraction::front_digits(s) =~= a);
    assert(b.take(b.len() as int) =~= b);
    assert(fraction::back_digits(s) =~= b);
    let d = fraction::all_front(s);
    assert(d == a + b);
    assert(d.take(a.len() as int) =~= a);
    let at = a.len() as int;
    assert(fraction::point(s) == at);
    if fraction::has_rest(d, at) {
        let i = choose|i: int| 0 <= i < d.len() && at <= i && #[trigger] d[i] != '0';
        assert(b[i - at] != '0');
    }
    if exists|i: int| 0 <= i < b.len() && #[trigger] b[i] != '0' {
        let i = choose|i: int| 0 <= i < b.len() && #[trigger] b[i] != '0';
        assert(d[at + i] != '0');
    }
}

} // verus!
