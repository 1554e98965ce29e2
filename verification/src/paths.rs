//! Paths as texts: the folder that a path lies in, and the name at its end.
//!
//! A path is a row of parts with `/` between them. Empty parts and parts that are a single dot count
//! for nothing, but for a dot at the very front of a path that is not absolute.

use crate::text;
use vstd::prelude::*;

verus! {

/// How much of a path stands before its parts: the `/` of an absolute path, or the leading dot of
/// one that begins in the current folder.
pub open spec fn head(s: Seq<char>) -> int {
    if s.len() > 0 && (s[0] == '/' || (s[0] == '.' && (s.len() == 1 || s[1] == '/'))) {
        1
    } else {
        0
    }
}

/// Where the last part begins that stands behind the first `start` characters.
pub open spec fn last_begins(s: Seq<char>, start: int) -> int
    decreases s.len(),
{
    if s.len() == 0 || s.len() <= start {
        start
    } else if s.last() == '/' {
        s.len() as int
    } else {
        last_begins(s.drop_last(), start)
    }
}

/// What is left of a path without its last part and the `/` before that.
pub open spec fn without_last(s: Seq<char>, start: int) -> Seq<char> {
    let at = last_begins(s, start);
    if at > start {
        s.take(at - 1)
    } else {
        s.take(at)
    }
}

/// The last part of a path, behind its first `start` characters.
pub open spec fn last_of(s: Seq<char>, start: int) -> Seq<char> {
    s.skip(last_begins(s, start))
}

/// A path without the parts at its end that count for nothing.
pub open spec fn tidied(s: Seq<char>, start: int) -> Seq<char>
    decreases s.len(),
{
    if s.len() <= start || start < 0 {
        s
    } else {
        let part = last_of(s, start);
        let rest = without_last(s, start);
        if (part.len() == 0 || part == "."@) && rest.len() < s.len() {
            tidied(rest, start)
        } else {
            s
        }
    }
}

/// The folder that a path lies in; nothing for a path without parts.
pub open spec fn folder(s: Seq<char>) -> Seq<char> {
    let start = head(s);
    let path = tidied(s, start);
    if path.len() > start {
        tidied(without_last(path, start), start)
    } else {
        Seq::empty()
    }
}

/// The name at the end of a path; nothing for a path without parts, or one that ends in `..`.
pub open spec fn name(s: Seq<char>) -> Seq<char> {
    let start = head(s);
    let path = tidied(s, start);
    if path.len() > start && last_of(path, start) != ".."@ {
        last_of(path, start)
    } else {
        Seq::empty()
    }
}

/// Where the last part of the first `n` characters begins.
fn last_part_begins(v: &Vec<char>, n: usize, start: usize) -> (r: usize)
    requires
        start <= n <= v@.len(),
    ensures
        r == last_begins(v@.take(n as int), start as int),
        start <= r <= n,
{
    let mut i: usize = n;
    while i > start && v[i - 1] != '/'
        invariant
            start <= i <= n <= v@.len(),
            last_begins(v@.take(n as int), start as int) == last_begins(
                v@.take(i as int),
                start as int,
            ),
        decreases i,
    {
        assert(v@.take(i as int).drop_last() =~= v@.take(i - 1));
        i = i - 1;
    }
    i
}

/// The length of what is left of the first `n` characters without their last part, which begins at
/// `at`.
fn length_without(at: usize, start: usize) -> (r: usize)
    requires
        start <= at,
    ensures
        r == if at > start {
            at - 1
        } else {
            at as int
        },
        start <= r <= at,
{
    if at > start {
        at - 1
    } else {
        at
    }
}

/// The length of a path without the parts at its end that count for nothing.
fn tidy_length(v: &Vec<char>, n: usize, start: usize) -> (r: usize)
    requires
        start <= n <= v@.len(),
    ensures
        v@.take(r as int) == tidied(v@.take(n as int), start as int),
        start <= r <= n,
{
    let mut k: usize = n;
    while k > start
        invariant
            start <= k <= n <= v@.len(),
            tidied(v@.take(k as int), start as int) == tidied(v@.take(n as int), start as int),
        ensures
            start <= k <= n,
            v@.take(k as int) == tidied(v@.take(n as int), start as int),
        decreases k,
    {
        let ghost path = v@.take(k as int);
        let at: usize = last_part_begins(v, k, start);
        let rest: usize = length_without(at, start);
        let dot = k - at == 1 && v[at] == '.';
        proof {
            reveal_strlit(".");
            assert(last_of(path, start as int) =~= v@.subrange(at as int, k as int));
            assert(without_last(path, start as int) =~= v@.take(rest as int));
            if dot {
                assert(v@.subrange(at as int, k as int) =~= "."@);
            } else if k - at == 1 {
                assert(v@.subrange(at as int, k as int)[0] == v@[at as int]);
            }
        }
        if (at == k || dot) && rest < k {
            k = rest;
        } else {
            break;
        }
    }
    k
}

fn head_length(v: &Vec<char>) -> (r: usize)
    ensures
        r == head(v@),
        r <= v@.len(),
{
    if v.len() > 0 && (v[0] == '/' || (v[0] == '.' && (v.len() == 1 || v[1] == '/'))) {
        1
    } else {
        0
    }
}

/// The folder that a path lies in.
pub fn folder_of(path: &str) -> (r: String)
    ensures
        r@ == folder(path@),
{
    let v = text::chars_of(path);
    let start: usize = head_length(&v);
    assert(v@.take(v@.len() as int) =~= path@);
    let n: usize = tidy_length(&v, v.len(), start);
    if n <= start {
        return String::new();
    }
    let at: usize = last_part_begins(&v, n, start);
    let rest: usize = length_without(at, start);
    assert(v@.take(n as int).take(rest as int) =~= v@.take(rest as int));
    let end: usize = tidy_length(&v, rest, start);
    let r = text::text_of(&v, 0, end);
    assert(r@ =~= v@.take(end as int));
    r
}

/// The name at the end of a path.
pub fn name_of(path: &str) -> (r: String)
    ensures
        r@ == name(path@),
{
    let v = text::chars_of(path);
    let start: usize = head_length(&v);
    assert(v@.take(v@.len() as int) =~= path@);
    let n: usize = tidy_length(&v, v.len(), start);
    if n <= start {
        return String::new();
    }
    let at: usize = last_part_begins(&v, n, start);
    let r = text::text_of(&v, at, n);
    assert(r@ =~= last_of(v@.take(n as int), start as int));
    if text::same(r.as_str(), "..") {
        String::new()
    } else {
        r
    }
}

} // verus!
