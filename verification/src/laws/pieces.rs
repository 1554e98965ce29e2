//! Texts that are put together from pieces with a character between them.

use crate::text;
use vstd::prelude::*;

verus! {

/// Two texts that are cut at the first `c` are equal only where both pieces are.
pub proof fn first_cut(a: Seq<char>, b: Seq<char>, x: Seq<char>, y: Seq<char>, c: char)
    requires
        a + seq![c] + b == x + seq![c] + y,
        !a.contains(c),
        !x.contains(c),
    ensures
        a == x,
        b == y,
{
    let s = a + seq![c] + b;
    let t = x + seq![c] + y;
    assert(s[a.len() as int] == c);
    assert(t[x.len() as int] == c);
    if a.len() < x.len() {
        assert(t[a.len() as int] == x[a.len() as int]);
        assert(x.contains(c));
    } else if x.len() < a.len() {
        assert(s[x.len() as int] == a[x.len() as int]);
        assert(a.contains(c));
    }
    assert(a =~= s.take(a.len() as int));
    assert(x =~= t.take(x.len() as int));
    assert(b =~= s.skip(a.len() as int + 1));
    assert(y =~= t.skip(x.len() as int + 1));
}

/// Two texts that are cut at the last `c` are equal only where both pieces are.
pub proof fn last_cut(a: Seq<char>, b: Seq<char>, x: Seq<char>, y: Seq<char>, c: char)
    requires
        a + seq![c] + b == x + seq![c] + y,
        !b.contains(c),
        !y.contains(c),
    ensures
        a == x,
        b == y,
{
    let s = a + seq![c] + b;
    let t = x + seq![c] + y;
    assert(s == t && s.len() == a.len() + 1 + b.len() && t.len() == x.len() + 1 + y.len());
    assert(s[a.len() as int] == c);
    assert(t[x.len() as int] == c);
    if a.len() < x.len() {
        assert(s[x.len() as int] == b[x.len() - a.len() - 1]);
        assert(b.contains(c));
    } else if x.len() < a.len() {
        assert(t[a.len() as int] == y[a.len() - x.len() - 1]);
        assert(y.contains(c));
    }
    assert(a =~= s.take(a.len() as int));
    assert(x =~= t.take(x.len() as int));
    assert(b =~= s.skip(a.len() as int + 1));
    assert(y =~= t.skip(x.len() as int + 1));
}

/// A text without white space around it is a piece of the text: nothing is in it that was not there.
pub proof fn trimmed_is_a_piece(s: Seq<char>, c: char)
    ensures
        text::trimmed(s).len() <= s.len(),
        text::trimmed(s).contains(c) ==> s.contains(c),
{
    let front = text::strip_front(s, text::white());
    text::strip_front_is_suffix(s, text::white());
    text::strip_back_is_prefix(front, text::white());
    if text::trimmed(s).contains(c) {
        let i = choose|i: int| 0 <= i < text::trimmed(s).len() && text::trimmed(s)[i] == c;
        assert(front[i] == c);
        assert(s[s.len() - front.len() + i] == c);
    }
}

/// What is no letter stands in a text in lower case only where it stood in the text.
pub proof fn lowering_adds_no_mark(s: Seq<char>, c: char)
    requires
        !('a' <= c <= 'z'),
        text::lowered(s).contains(c),
    ensures
        s.contains(c),
{
    let i = choose|i: int| 0 <= i < text::lowered(s).len() && text::lowered(s)[i] == c;
    assert(s[i] == c);
}

/// The digits of a number hold nothing else, and different numbers have different digits.
pub proof fn decimals_are_digits(n: nat, m: nat, c: char)
    ensures
        text::decimal(n).contains(c) ==> '0' <= c <= '9',
        text::decimal(n).len() > 0,
        text::decimal(n) == text::decimal(m) <==> n == m,
{
    text::decimal_reads_back(n);
    text::decimal_reads_back(m);
    if text::decimal(n).contains(c) {
        let i = choose|i: int| 0 <= i < text::decimal(n).len() && text::decimal(n)[i] == c;
        assert(text::is_digit(text::decimal(n)[i]));
    }
}

} // verus!
