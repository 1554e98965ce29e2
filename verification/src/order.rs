//! Stable sorting, as insertion of one element after the other.

use crate::text;
use vstd::prelude::*;

verus! {

/// `x` put into `s` behind the last element that it does not come before.
pub open spec fn inserted<T>(s: Seq<T>, x: T, before: spec_fn(T, T) -> bool) -> Seq<T>
    decreases s.len(),
{
    if s.len() > 0 && before(x, s.last()) {
        inserted(s.drop_last(), x, before).push(s.last())
    } else {
        s.push(x)
    }
}

/// `s`, stably sorted.
pub open spec fn sorted_by<T>(s: Seq<T>, before: spec_fn(T, T) -> bool) -> Seq<T>
    decreases s.len(),
{
    if s.len() == 0 {
        s
    } else {
        inserted(sorted_by(s.drop_last(), before), s.last(), before)
    }
}

/// Inserting at the position behind the last element that `x` does not come before.
pub proof fn inserted_at<T>(s: Seq<T>, x: T, before: spec_fn(T, T) -> bool, k: int)
    requires
        0 <= k <= s.len(),
        forall|j: int| k <= j < s.len() ==> before(x, #[trigger] s[j]),
        k > 0 ==> !before(x, s[k - 1]),
    ensures
        inserted(s, x, before) == s.insert(k, x),
    decreases s.len(),
{
    if k < s.len() {
        assert(before(x, s[s.len() - 1]));
        assert forall|j: int| k <= j < s.drop_last().len() implies before(
            x,
            #[trigger] s.drop_last()[j],
        ) by {
            assert(s.drop_last()[j] == s[j]);
        }
        inserted_at(s.drop_last(), x, before, k);
        assert(s.drop_last().insert(k, x).push(s.last()) == s.insert(k, x));
    } else {
        assert(s.insert(k, x) == s.push(x));
    }
}

/// Sorting keeps what is there, each as often as before.
pub proof fn sorting_permutes<T>(s: Seq<T>, before: spec_fn(T, T) -> bool)
    ensures
        sorted_by(s, before).to_multiset() == s.to_multiset(),
        sorted_by(s, before).len() == s.len(),
    decreases s.len(),
{
    broadcast use vstd::seq_lib::group_to_multiset_ensures;

    if s.len() > 0 {
        sorting_permutes(s.drop_last(), before);
        inserting_adds(sorted_by(s.drop_last(), before), s.last(), before);
        assert(s.drop_last().push(s.last()) == s);
    }
}

proof fn inserting_adds<T>(s: Seq<T>, x: T, before: spec_fn(T, T) -> bool)
    ensures
        inserted(s, x, before).to_multiset() == s.to_multiset().insert(x),
        inserted(s, x, before).len() == s.len() + 1,
    decreases s.len(),
{
    broadcast use vstd::seq_lib::group_to_multiset_ensures;

    if s.len() > 0 && before(x, s.last()) {
        inserting_adds(s.drop_last(), x, before);
        assert(s.drop_last().push(s.last()) == s);
        assert(s.to_multiset().insert(x) =~= s.drop_last().to_multiset().insert(x).insert(s.last()));
    }
}

/// No element of the sequence comes before an earlier one.
pub open spec fn in_order<T>(s: Seq<T>, before: spec_fn(T, T) -> bool) -> bool {
    forall|i: int, j: int| 0 <= i < j < s.len() ==> !before(#[trigger] s[j], #[trigger] s[i])
}

/// The relation is that of a strict weak order: what comes before nothing, and nothing between.
pub open spec fn weak_order<T>(before: spec_fn(T, T) -> bool) -> bool {
    &&& forall|a: T, b: T| #[trigger] before(a, b) ==> !before(b, a)
    &&& forall|a: T, b: T, c: T|
        #[trigger] before(a, b) && #[trigger] before(b, c) ==> before(a, c)
    &&& forall|a: T, b: T, c: T|
        #![trigger before(a, c), before(a, b)]
        #![trigger before(a, c), before(b, c)]
        before(a, c) ==> before(a, b) || before(b, c)
}

/// A sorted sequence is in order.
pub proof fn sorting_orders<T>(s: Seq<T>, before: spec_fn(T, T) -> bool)
    requires
        weak_order(before),
    ensures
        in_order(sorted_by(s, before), before),
    decreases s.len(),
{
    if s.len() > 0 {
        sorting_orders(s.drop_last(), before);
        inserting_keeps_order(sorted_by(s.drop_last(), before), s.last(), before);
    }
}

proof fn inserted_elements<T>(s: Seq<T>, x: T, before: spec_fn(T, T) -> bool)
    ensures
        forall|i: int|
            0 <= i < inserted(s, x, before).len() ==> #[trigger] inserted(s, x, before)[i] == x
                || s.contains(inserted(s, x, before)[i]),
    decreases s.len(),
{
    let r = inserted(s, x, before);
    if s.len() > 0 && before(x, s.last()) {
        inserted_elements(s.drop_last(), x, before);
        let q = inserted(s.drop_last(), x, before);
        assert forall|i: int| 0 <= i < r.len() implies #[trigger] r[i] == x || s.contains(r[i]) by {
            if i < q.len() {
                assert(r[i] == q[i]);
                if q[i] != x {
                    let k = choose|k: int| 0 <= k < s.drop_last().len() && s.drop_last()[k] == q[i];
                    assert(s[k] == r[i]);
                }
            } else {
                assert(s[s.len() - 1] == r[i]);
            }
        }
    } else {
        assert forall|i: int| 0 <= i < r.len() implies #[trigger] r[i] == x || s.contains(r[i]) by {
            if i < s.len() {
                assert(s[i] == r[i]);
            }
        }
    }
}

proof fn inserting_keeps_order<T>(s: Seq<T>, x: T, before: spec_fn(T, T) -> bool)
    requires
        weak_order(before),
        in_order(s, before),
    ensures
        in_order(inserted(s, x, before), before),
    decreases s.len(),
{
    let r = inserted(s, x, before);
    if s.len() > 0 && before(x, s.last()) {
        let d = s.drop_last();
        assert(in_order(d, before)) by {
            assert forall|i: int, j: int| 0 <= i < j < d.len() implies !before(
                #[trigger] d[j],
                #[trigger] d[i],
            ) by {
                assert(!before(s[j], s[i]));
            }
        }
        inserting_keeps_order(d, x, before);
        inserted_elements(d, x, before);
        let q = inserted(d, x, before);
        assert forall|i: int, j: int| 0 <= i < j < r.len() implies !before(
            #[trigger] r[j],
            #[trigger] r[i],
        ) by {
            if j < q.len() {
                assert(r[j] == q[j] && r[i] == q[i]);
            } else {
                assert(r[j] == s.last());
                assert(r[i] == q[i]);
                if q[i] == x {
                    assert(before(x, s.last()));
                } else {
                    let k = choose|k: int| 0 <= k < d.len() && d[k] == q[i];
                    assert(!before(s[s.len() - 1], s[k]));
                }
            }
        }
    } else {
        assert forall|i: int, j: int| 0 <= i < j < r.len() implies !before(
            #[trigger] r[j],
            #[trigger] r[i],
        ) by {
            if j < s.len() {
                assert(r[j] == s[j] && r[i] == s[i]);
            } else {
                assert(r[j] == x);
                assert(r[i] == s[i]);
                if before(x, s[i]) {
                    let l = s[s.len() - 1];
                    assert(before(x, l) || before(l, s[i]));
                    if i < s.len() - 1 {
                        assert(!before(s[s.len() - 1], s[i]));
                    }
                }
            }
        }
    }
}

/// Whether one text comes before another: character by character, a prefix first.
pub open spec fn text_before(a: Seq<char>, b: Seq<char>) -> bool
    decreases b.len(),
{
    if b.len() == 0 {
        false
    } else if a.len() == 0 {
        true
    } else if a[0] == b[0] {
        text_before(a.skip(1), b.skip(1))
    } else {
        a[0] < b[0]
    }
}

pub fn comes_before(a: &str, b: &str) -> (r: bool)
    ensures
        r == text_before(a@, b@),
{
    let x = text::chars_of(a);
    let y = text::chars_of(b);
    let mut i: usize = 0;
    assert(x@.skip(0) == x@);
    assert(y@.skip(0) == y@);
    while i < x.len() && i < y.len()
        invariant
            i <= x@.len(),
            i <= y@.len(),
            x@ == a@,
            y@ == b@,
            text_before(a@, b@) == text_before(x@.skip(i as int), y@.skip(i as int)),
        decreases x@.len() - i,
    {
        assert(x@.skip(i as int)[0] == x@[i as int]);
        assert(y@.skip(i as int)[0] == y@[i as int]);
        assert(x@.skip(i as int).skip(1) == x@.skip(i + 1));
        assert(y@.skip(i as int).skip(1) == y@.skip(i + 1));
        if x[i] != y[i] {
            return x[i] < y[i];
        }
        i = i + 1;
    }
    i < y.len()
}

pub proof fn before_is_strict(a: Seq<char>, b: Seq<char>)
    ensures
        text_before(a, b) ==> !text_before(b, a),
    decreases b.len(),
{
    if a.len() > 0 && b.len() > 0 && a[0] == b[0] {
        before_is_strict(a.skip(1), b.skip(1));
    }
}

pub proof fn before_chains(a: Seq<char>, b: Seq<char>, c: Seq<char>)
    ensures
        text_before(a, b) && text_before(b, c) ==> text_before(a, c),
    decreases c.len(),
{
    if a.len() > 0 && b.len() > 0 && c.len() > 0 && a[0] == b[0] && b[0] == c[0] {
        before_chains(a.skip(1), b.skip(1), c.skip(1));
    }
}

pub proof fn before_splits(a: Seq<char>, b: Seq<char>, c: Seq<char>)
    ensures
        text_before(a, c) ==> text_before(a, b) || text_before(b, c),
    decreases c.len(),
{
    if a.len() > 0 && b.len() > 0 && c.len() > 0 && a[0] == b[0] && b[0] == c[0] {
        before_splits(a.skip(1), b.skip(1), c.skip(1));
    }
}

/// Sorting neither adds nor drops an element.
pub proof fn sorting_keeps_elements<T>(s: Seq<T>, before: spec_fn(T, T) -> bool)
    ensures
        forall|x: T|
            #![trigger sorted_by(s, before).contains(x)]
            #![trigger s.contains(x)]
            sorted_by(s, before).contains(x) == s.contains(x),
{
    broadcast use vstd::seq_lib::group_to_multiset_ensures;

    sorting_permutes(s, before);
    assert forall|x: T|
        #![trigger sorted_by(s, before).contains(x)]
        #![trigger s.contains(x)]
        sorted_by(s, before).contains(x) == s.contains(x) by {
        vstd::seq_lib::to_multiset_contains(s, x);
        vstd::seq_lib::to_multiset_contains(sorted_by(s, before), x);
    }
}

/// Sorting and looking at something else of each element may be done in either order.
pub proof fn sorting_commutes<T, V>(
    s: Seq<T>,
    f: spec_fn(T) -> V,
    before: spec_fn(V, V) -> bool,
)
    ensures
        sorted_by(s, |a: T, b: T| before(f(a), f(b))).map_values(f) == sorted_by(
            s.map_values(f),
            before,
        ),
    decreases s.len(),
{
    if s.len() == 0 {
        assert(s.map_values(f) =~= Seq::<V>::empty());
        assert(sorted_by(s, |a: T, b: T| before(f(a), f(b))) == s);
    } else {
        sorting_commutes(s.drop_last(), f, before);
        assert(s.map_values(f).drop_last() =~= s.drop_last().map_values(f));
        inserting_commutes(
            sorted_by(s.drop_last(), |a: T, b: T| before(f(a), f(b))),
            s.last(),
            f,
            before,
        );
    }
}

proof fn inserting_commutes<T, V>(
    s: Seq<T>,
    x: T,
    f: spec_fn(T) -> V,
    before: spec_fn(V, V) -> bool,
)
    ensures
        inserted(s, x, |a: T, b: T| before(f(a), f(b))).map_values(f) == inserted(
            s.map_values(f),
            f(x),
            before,
        ),
    decreases s.len(),
{
    let below = |a: T, b: T| before(f(a), f(b));
    if s.len() > 0 && below(x, s.last()) {
        inserting_commutes(s.drop_last(), x, f, before);
        assert(s.map_values(f).drop_last() =~= s.drop_last().map_values(f));
        assert(inserted(s.drop_last(), x, below).push(s.last()).map_values(f) =~= inserted(
            s.drop_last(),
            x,
            below,
        ).map_values(f).push(f(s.last())));
    } else {
        assert(s.push(x).map_values(f) =~= s.map_values(f).push(f(x)));
    }
}

/// Sorts stably by the relation that `before` computes.
pub(crate) fn sort_by<T, F: Fn(&T, &T) -> bool>(
    v: Vec<T>,
    before: F,
    Ghost(rel): Ghost<spec_fn(T, T) -> bool>,
) -> (r: Vec<T>)
    requires
        forall|a: &T, b: &T| call_requires(before, (a, b)),
        forall|a: &T, b: &T, x: bool| call_ensures(before, (a, b), x) ==> x == rel(*a, *b),
    ensures
        r@ == sorted_by(v@, rel),
{
    let ghost all = v@;
    let mut rest = v;
    let mut turned: Vec<T> = Vec::new();
    while rest.len() > 0
        invariant
            rest@ + turned@.reverse() == all,
        decreases rest@.len(),
    {
        let ghost was = rest@;
        let ghost done = turned@;
        match rest.pop() {
            Some(x) => {
                turned.push(x);
                proof {
                    assert(was == rest@.push(x));
                    assert(turned@.reverse() == seq![x] + done.reverse());
                    assert(rest@ + turned@.reverse() == all);
                }
            },
            None => {},
        }
    }
    let mut r: Vec<T> = Vec::new();
    let ghost mut n: int = 0;
    proof {
        assert(turned@.reverse() == all);
        assert(all.take(0) == Seq::<T>::empty());
    }
    while turned.len() > 0
        invariant
            forall|a: &T, b: &T| call_requires(before, (a, b)),
            forall|a: &T, b: &T, x: bool| call_ensures(before, (a, b), x) ==> x == rel(*a, *b),
            0 <= n <= all.len(),
            turned@.reverse() == all.skip(n),
            r@ == sorted_by(all.take(n), rel),
        decreases turned@.len(),
    {
        let ghost was = turned@;
        match turned.pop() {
            Some(x) => {
                proof {
                    assert(was.reverse()[0] == x);
                    assert(was.reverse().len() == was.len() > 0);
                    assert(all.skip(n).len() == all.len() - n);
                    assert(all.skip(n)[0] == all[n]);
                    assert(turned@.reverse() == was.reverse().skip(1));
                    assert(all.skip(n).skip(1) == all.skip(n + 1));
                    assert(all.take(n + 1).drop_last() == all.take(n));
                    assert(all.take(n + 1).last() == x);
                }
                let mut k: usize = r.len();
                let mut going = k > 0 && before(&x, &r[k - 1]);
                while going
                    invariant
                        forall|a: &T, b: &T| call_requires(before, (a, b)),
                        forall|a: &T, b: &T, y: bool|
                            call_ensures(before, (a, b), y) ==> y == rel(*a, *b),
                        k <= r@.len(),
                        forall|j: int| k <= j < r@.len() ==> rel(x, #[trigger] r@[j]),
                        going == (k > 0 && rel(x, r@[k - 1])),
                    decreases k,
                {
                    k = k - 1;
                    going = k > 0 && before(&x, &r[k - 1]);
                }
                proof {
                    inserted_at(r@, x, rel, k as int);
                    n = n + 1;
                }
                r.insert(k, x);
            },
            None => {},
        }
    }
    proof {
        assert(all.skip(n).len() == 0);
        assert(all.take(n) == all);
    }
    r
}

} // verus!
