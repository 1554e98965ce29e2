//! Texts, their order and the paths they make.

use crate::order;
use crate::paths;
use crate::text;
use vstd::prelude::*;

verus! {

// ---------------------------------------------------------------------------
// White space and case

/// Spaces, tabs and line ends are white space, and nothing that shows on paper is.
pub proof fn white_space_does_not_show(c: char)
    ensures
        c == ' ' || c == '\t' || c == '\n' || c == '\r' ==> text::is_white(c),
        '!' <= c <= '~' ==> !text::is_white(c),
{
}

/// A text is what is left of it after trimming, with white space before and behind it; and what is
/// left neither begins nor ends with white space.
pub proof fn trimming_takes_white_space_only(s: Seq<char>) -> (cut: (Seq<char>, Seq<char>))
    ensures
        s == cut.0 + text::trimmed(s) + cut.1,
        forall|i: int| 0 <= i < cut.0.len() ==> text::is_white(#[trigger] cut.0[i]),
        forall|i: int| 0 <= i < cut.1.len() ==> text::is_white(#[trigger] cut.1[i]),
        text::trimmed(s).len() > 0 ==> !text::is_white(text::trimmed(s)[0]) && !text::is_white(
            text::trimmed(s).last(),
        ),
{
    let rest = text::strip_front(s, text::white());
    let a = front_is_cut(s, text::white());
    let b = back_is_cut(rest, text::white());
    let t = text::trimmed(s);
    assert(s =~= a + t + b);
    if t.len() > 0 {
        assert(rest[0] == t[0]);
        assert(!text::white()(t[0]));
        assert(!text::white()(t.last()));
    }
    assert forall|i: int| 0 <= i < a.len() implies text::is_white(#[trigger] a[i]) by {
        assert(text::white()(a[i]));
    }
    assert forall|i: int| 0 <= i < b.len() implies text::is_white(#[trigger] b[i]) by {
        assert(text::white()(b[i]));
    }
    (a, b)
}

proof fn front_is_cut(s: Seq<char>, p: spec_fn(char) -> bool) -> (cut: Seq<char>)
    ensures
        s == cut + text::strip_front(s, p),
        forall|i: int| 0 <= i < cut.len() ==> p(#[trigger] cut[i]),
        text::strip_front(s, p).len() > 0 ==> !p(text::strip_front(s, p)[0]),
    decreases s.len(),
{
    if s.len() > 0 && p(s[0]) {
        let less = front_is_cut(s.drop_first(), p);
        let cut = seq![s[0]] + less;
        assert(s =~= seq![s[0]] + s.drop_first());
        assert(s =~= cut + text::strip_front(s, p));
        assert forall|i: int| 0 <= i < cut.len() implies p(#[trigger] cut[i]) by {
            if i > 0 {
                assert(cut[i] == less[i - 1]);
            }
        }
        cut
    } else {
        assert(s =~= Seq::empty() + s);
        Seq::empty()
    }
}

proof fn back_is_cut(s: Seq<char>, p: spec_fn(char) -> bool) -> (cut: Seq<char>)
    ensures
        s == text::strip_back(s, p) + cut,
        forall|i: int| 0 <= i < cut.len() ==> p(#[trigger] cut[i]),
        text::strip_back(s, p).len() > 0 ==> !p(text::strip_back(s, p).last()),
    decreases s.len(),
{
    if s.len() > 0 && p(s.last()) {
        let less = back_is_cut(s.drop_last(), p);
        let cut = less.push(s.last());
        assert(s =~= s.drop_last().push(s.last()));
        assert(s =~= text::strip_back(s, p) + cut);
        assert forall|i: int| 0 <= i < cut.len() implies p(#[trigger] cut[i]) by {
            if i < less.len() {
                assert(cut[i] == less[i]);
            }
        }
        cut
    } else {
        assert(s =~= s + Seq::empty());
        Seq::empty()
    }
}

/// Lower case changes the capital letters of ASCII, each into its small one, and nothing else; upper
/// case the other way round.
pub proof fn case_changes_letters_only(s: Seq<char>, i: int)
    requires
        0 <= i < s.len(),
    ensures
        text::lowered(s).len() == s.len() && text::uppered(s).len() == s.len(),
        'A' <= s[i] <= 'Z' ==> text::lowered(s)[i] as int == s[i] as int + ('a' as int - 'A' as int),
        !('A' <= s[i] <= 'Z') ==> text::lowered(s)[i] == s[i],
        'a' <= s[i] <= 'z' ==> text::uppered(s)[i] as int == s[i] as int - ('a' as int - 'A' as int),
        !('a' <= s[i] <= 'z') ==> text::uppered(s)[i] == s[i],
{
}

// ---------------------------------------------------------------------------
// Pieces

/// Of some texts those that are not empty are kept, in their order.
pub proof fn empty_texts_are_dropped(v: Seq<Seq<char>>)
    ensures
        text::nonempty(v) == v.filter(|s: Seq<char>| s.len() > 0),
    decreases v.len(),
{
    reveal(Seq::filter);
    if v.len() > 0 {
        empty_texts_are_dropped(v.drop_last());
    } else {
        assert(text::nonempty(v) =~= v.filter(|s: Seq<char>| s.len() > 0));
    }
}

/// Texts are joined with the separator between neighbours and nowhere else.
pub proof fn separators_stand_between(v: Seq<Seq<char>>, x: Seq<char>, sep: Seq<char>)
    ensures
        text::joined(Seq::empty(), sep).len() == 0,
        text::joined(seq![x], sep) == x,
        v.len() > 0 ==> text::joined(v.push(x), sep) == text::joined(v, sep) + sep + x,
{
    assert(v.push(x).drop_last() =~= v);
}

/// What is looked for is replaced from left to right, and all else is kept.
pub proof fn only_what_is_found_is_replaced(s: Seq<char>, from: Seq<char>, to: Seq<char>)
    requires
        from.len() > 0,
    ensures
        text::replaced(from + s, from, to) == to + text::replaced(s, from, to),
        s.len() > 0 && !text::begins(s, from) ==> text::replaced(s, from, to) == seq![s[0]]
            + text::replaced(s.skip(1), from, to),
        text::replaced(Seq::empty(), from, to).len() == 0,
{
    let t = from + s;
    assert(t.subrange(0, from.len() as int) =~= from);
    assert(t.skip(from.len() as int) =~= s);
    if s.len() > 0 && !text::begins(s, from) && s.len() < from.len() {
        assert(s =~= seq![s[0]] + s.skip(1));
    }
}

/// A text that begins, ends or holds another one does so.
pub proof fn pieces_are_found(a: Seq<char>, b: Seq<char>, c: Seq<char>)
    ensures
        text::begins(a + b, a),
        text::ends(a + b, b),
        text::has(a + b + c, b),
        text::begins(a, b) ==> a.len() >= b.len() && a.take(b.len() as int) == b,
        text::ends(a, b) ==> a.len() >= b.len() && a.skip(a.len() - b.len()) == b,
{
    assert((a + b).subrange(0, a.len() as int) =~= a);
    assert((a + b).subrange(a.len() as int, a.len() + b.len() as int) =~= b);
    assert((a + b + c).subrange(a.len() as int, a.len() + b.len() as int) =~= b);
    assert(text::stands_at(a + b + c, b, a.len() as int));
    if text::begins(a, b) {
        assert(a.take(b.len() as int) =~= a.subrange(0, b.len() as int));
    }
    if text::ends(a, b) {
        assert(a.skip(a.len() - b.len()) =~= a.subrange(a.len() - b.len(), a.len() as int));
    }
}

// ---------------------------------------------------------------------------
// Numbers

/// A number is written in digits, without a nought in front, and one more digit is ten times the
/// number and the digit.
pub proof fn numbers_are_written_in_digits(n: nat, d: nat)
    requires
        d < 10,
    ensures
        n > 0 ==> text::decimal(10 * n + d) == text::decimal(n).push((48 + d) as char),
        text::decimal(d) == seq![(48 + d) as char],
        n > 0 ==> text::decimal_int(-n) == seq!['-'] + text::decimal(n),
        text::decimal_int(n as int) == text::decimal(n),
{
    if n > 0 {
        let m = 10 * n + d;
        assert(m / 10 == n && m % 10 == d);
    }
}

/// A text of digits is read as the number that it says, with or without a sign, where that lies within
/// the bounds; and no text that holds anything else is read as a number.
pub proof fn digits_are_read_as_numbers(s: Seq<char>, c: char, n: int, lo: int, hi: int)
    requires
        s.len() > 0,
    ensures
        text::all_digits(s) && lo <= text::digits_value(s) <= hi ==> text::parsed_int(s, lo, hi)
            == Some(text::digits_value(s)) && text::parsed_int(seq!['+'] + s, lo, hi) == Some(
            text::digits_value(s),
        ),
        text::all_digits(s) && lo < 0 && lo <= -text::digits_value(s) <= hi ==> text::parsed_int(
            seq!['-'] + s,
            lo,
            hi,
        ) == Some(-text::digits_value(s)),
        text::parsed_int(s, lo, hi) == Some(n) ==> lo <= n <= hi,
        !('0' <= c <= '9') ==> text::parsed_int(s.push(c), lo, hi) is None,
        text::digits_value(s.push(c)) == 10 * text::digits_value(s) + (c as int - '0' as int),
{
    assert((seq!['+'] + s).skip(1) =~= s);
    assert((seq!['-'] + s).skip(1) =~= s);
    if text::all_digits(s) {
        assert(text::is_digit(s[0]));
    }
    let t = s.push(c);
    assert(t.drop_last() =~= s && t.last() == c);
    if !('0' <= c <= '9') {
        let u = t.skip(1);
        assert(t[t.len() - 1] == c && u[u.len() - 1] == c);
        assert(!text::is_digit(t[t.len() - 1]));
        assert(!text::is_digit(u[u.len() - 1]));
    }
}

// ---------------------------------------------------------------------------
// Order

/// Texts are ordered by the first character in which they differ, and the beginning of a text comes
/// before the text.
pub proof fn texts_are_ordered_by_character(
    a: Seq<char>,
    x: char,
    y: char,
    b: Seq<char>,
    c: Seq<char>,
)
    ensures
        x != y ==> (order::text_before(a + seq![x] + b, a + seq![y] + c) <==> x < y),
        order::text_before(a, a + seq![x] + b),
        !order::text_before(a + seq![x] + b, a),
        !order::text_before(a, a),
    decreases a.len(),
{
    let s = a + seq![x] + b;
    let t = a + seq![y] + c;
    if a.len() > 0 {
        let r = a.skip(1);
        texts_are_ordered_by_character(r, x, y, b, c);
        assert(s.skip(1) =~= r + seq![x] + b);
        assert(t.skip(1) =~= r + seq![y] + c);
        assert(s[0] == a[0] && t[0] == a[0]);
    } else {
        assert(s[0] == x && t[0] == y);
    }
}

// ---------------------------------------------------------------------------
// Paths

/// The last part of a path begins behind its last slash.
proof fn last_part_begins(dir: Seq<char>, name: Seq<char>, start: int)
    requires
        0 <= start <= dir.len(),
        forall|i: int| 0 <= i < name.len() ==> #[trigger] name[i] != '/',
    ensures
        paths::last_begins(dir + seq!['/'] + name, start) == dir.len() + 1,
    decreases name.len(),
{
    let s = dir + seq!['/'] + name;
    if name.len() > 0 {
        let less = name.drop_last();
        assert forall|i: int| 0 <= i < less.len() implies #[trigger] less[i] != '/' by {
            assert(less[i] == name[i]);
        }
        assert(s.last() == name[name.len() - 1]);
        assert(s.drop_last() =~= dir + seq!['/'] + less);
        last_part_begins(dir, less, start);
    } else {
        assert(s.last() == '/');
    }
}

/// The beginning of the last part, and that it is not all of what is behind a slash at the end.
proof fn last_part_is_there(s: Seq<char>, start: int)
    requires
        0 <= start < s.len(),
        s.last() != '/',
    ensures
        start <= paths::last_begins(s, start) < s.len(),
{
    begins_within(s.drop_last(), start);
}

proof fn begins_within(s: Seq<char>, start: int)
    requires
        0 <= start <= s.len(),
    ensures
        start <= paths::last_begins(s, start) <= s.len(),
    decreases s.len(),
{
    if s.len() > start && s.last() != '/' {
        begins_within(s.drop_last(), start);
    }
}

/// A file in a folder has the folder and its name in its path.
pub proof fn paths_hold_folder_and_name(dir: Seq<char>, name: Seq<char>)
    requires
        dir.len() > 0,
        dir.last() != '/' && dir.last() != '.',
        name.len() > 0,
        name != "."@ && name != ".."@,
        forall|i: int| 0 <= i < name.len() ==> #[trigger] name[i] != '/',
    ensures
        paths::folder(dir + seq!['/'] + name) == dir,
        paths::name(dir + seq!['/'] + name) == name,
{
    let s = dir + seq!['/'] + name;
    let start = paths::head(s);
    assert(s[0] == dir[0]);
    if dir.len() == 1 {
        assert(dir[0] == dir.last());
        assert(start == 0);
    }
    assert(start < dir.len());
    last_part_begins(dir, name, start);
    assert(paths::last_of(s, start) =~= name);
    assert(paths::without_last(s, start) =~= dir);
    assert(paths::tidied(s, start) == s);
    last_part_is_there(dir, start);
    let part = paths::last_of(dir, start);
    assert(part.len() > 0 && part.last() == dir.last());
    reveal_strlit(".");
    assert("."@.len() == 1 && "."@[0] == '.');
    assert(part != "."@);
    assert(paths::tidied(dir, start) == dir);
}

} // verus!
