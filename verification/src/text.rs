//! Text as sequences of characters: the string operations the rules are stated in.

use vstd::prelude::*;

verus! {

/// `String::push` appends the given character to the end of the string.
pub assume_specification[ String::push ](s: &mut String, c: char)
    ensures
        final(s)@ == old(s)@.push(c),
;

/// The characters of each string of a list.
pub open spec fn views(v: Seq<String>) -> Seq<Seq<char>> {
    Seq::new(v.len(), |i: int| v[i]@)
}

/// The characters of an optional string.
pub open spec fn view_opt(o: Option<String>) -> Option<Seq<char>> {
    match o {
        Some(s) => Some(s@),
        None => None,
    }
}

pub proof fn views_push(v: Seq<String>, x: String)
    ensures
        views(v.push(x)) == views(v).push(x@),
{
    assert(views(v.push(x)) =~= views(v).push(x@));
}

/// The characters of a string, as a vector.
pub fn chars_of(s: &str) -> (r: Vec<char>)
    ensures
        r@ == s@,
{
    let mut out: Vec<char> = Vec::new();
    for c in it: s.chars()
        invariant
            it.seq() == s@,
            out@ == s@.take(it.index()),
    {
        out.push(c);
        assert(out@ == s@.take(it.index() + 1));
    }
    assert(s@.take(s@.len() as int) == s@);
    out
}

/// The string with the characters `v[from..to]`.
pub fn text_of(v: &Vec<char>, from: usize, to: usize) -> (r: String)
    requires
        from <= to <= v@.len(),
    ensures
        r@ == v@.subrange(from as int, to as int),
{
    let mut out = String::new();
    let mut i: usize = from;
    while i < to
        invariant
            from <= i <= to <= v@.len(),
            out@ == v@.subrange(from as int, i as int),
        decreases to - i,
    {
        out.push(v[i]);
        i = i + 1;
        assert(out@ == v@.subrange(from as int, i as int));
    }
    out
}

/// A copy of a string slice.
pub fn copy(s: &str) -> (r: String)
    ensures
        r@ == s@,
{
    s.to_owned()
}

/// Whether two strings hold the same characters.
pub fn same(a: &str, b: &str) -> (r: bool)
    ensures
        r == (a@ == b@),
{
    let x = chars_of(a);
    let y = chars_of(b);
    same_chars(&x, &y)
}

pub fn same_chars(x: &Vec<char>, y: &Vec<char>) -> (r: bool)
    ensures
        r == (x@ == y@),
{
    if x.len() != y.len() {
        return false;
    }
    let mut i: usize = 0;
    while i < x.len()
        invariant
            i <= x@.len(),
            x@.len() == y@.len(),
            x@.take(i as int) == y@.take(i as int),
        decreases x@.len() - i,
    {
        if x[i] != y[i] {
            assert(x@[i as int] != y@[i as int]);
            return false;
        }
        i = i + 1;
        assert(x@.take(i as int) == x@.take(i - 1).push(x@[i - 1]));
        assert(y@.take(i as int) == y@.take(i - 1).push(y@[i - 1]));
    }
    assert(x@.take(i as int) == x@);
    assert(y@.take(i as int) == y@);
    true
}

/// `s` followed by `t`.
pub fn join_two(s: &str, t: &str) -> (r: String)
    ensures
        r@ == s@ + t@,
{
    let mut out = s.to_owned();
    out.append(t);
    out
}

// ---------------------------------------------------------------------------
// Characters

/// The Unicode `White_Space` characters.
pub open spec fn is_white(c: char) -> bool {
    let n = c as u32;
    ||| 0x09 <= n <= 0x0d
    ||| n == 0x20
    ||| n == 0x85
    ||| n == 0xa0
    ||| n == 0x1680
    ||| 0x2000 <= n <= 0x200a
    ||| n == 0x2028
    ||| n == 0x2029
    ||| n == 0x202f
    ||| n == 0x205f
    ||| n == 0x3000
}

pub fn char_is_white(c: char) -> (r: bool)
    ensures
        r == is_white(c),
{
    let n: u32 = c as u32;
    (0x09 <= n && n <= 0x0d) || n == 0x20 || n == 0x85 || n == 0xa0 || n == 0x1680 || (0x2000 <= n
        && n <= 0x200a) || n == 0x2028 || n == 0x2029 || n == 0x202f || n == 0x205f || n == 0x3000
}

/// ASCII lower case of a character; every other character is itself.
pub open spec fn lower_char(c: char) -> char {
    if 'A' <= c <= 'Z' {
        ((c as u8) + 32) as char
    } else {
        c
    }
}

pub fn char_lower(c: char) -> (r: char)
    ensures
        r == lower_char(c),
{
    if 'A' <= c && c <= 'Z' {
        ((c as u8) + 32) as char
    } else {
        c
    }
}

/// ASCII upper case of a character; every other character is itself.
pub open spec fn upper_char(c: char) -> char {
    if 'a' <= c <= 'z' {
        ((c as u8) - 32) as char
    } else {
        c
    }
}

pub fn char_upper(c: char) -> (r: char)
    ensures
        r == upper_char(c),
{
    if 'a' <= c && c <= 'z' {
        ((c as u8) - 32) as char
    } else {
        c
    }
}

pub open spec fn is_digit(c: char) -> bool {
    '0' <= c <= '9'
}

pub fn char_is_digit(c: char) -> (r: bool)
    ensures
        r == is_digit(c),
{
    '0' <= c && c <= '9'
}

/// ASCII lower case of a text.
pub open spec fn lowered(s: Seq<char>) -> Seq<char> {
    Seq::new(s.len(), |i: int| lower_char(s[i]))
}

pub fn lower(s: &str) -> (r: String)
    ensures
        r@ == lowered(s@),
{
    let v = chars_of(s);
    let mut out = String::new();
    let mut i: usize = 0;
    while i < v.len()
        invariant
            i <= v@.len(),
            v@ == s@,
            out@ == lowered(s@).take(i as int),
        decreases v@.len() - i,
    {
        out.push(char_lower(v[i]));
        i = i + 1;
        assert(out@ == lowered(s@).take(i as int));
    }
    assert(lowered(s@).take(i as int) == lowered(s@));
    out
}

/// ASCII upper case of a text.
pub open spec fn uppered(s: Seq<char>) -> Seq<char> {
    Seq::new(s.len(), |i: int| upper_char(s[i]))
}

pub fn upper(s: &str) -> (r: String)
    ensures
        r@ == uppered(s@),
{
    let v = chars_of(s);
    let mut out = String::new();
    let mut i: usize = 0;
    while i < v.len()
        invariant
            i <= v@.len(),
            v@ == s@,
            out@ == uppered(s@).take(i as int),
        decreases v@.len() - i,
    {
        out.push(char_upper(v[i]));
        i = i + 1;
        assert(out@ == uppered(s@).take(i as int));
    }
    assert(uppered(s@).take(i as int) == uppered(s@));
    out
}

/// Unicode lower case of a text.
pub uninterp spec fn unicode_lowered(s: Seq<char>) -> Seq<char>;

/// `str::to_lowercase`: Unicode lower case, a function of the text alone.
#[verifier::external_body]
pub(crate) fn unicode_lower(s: &str) -> (r: String)
    ensures
        r@ == unicode_lowered(s@),
{
    s.to_lowercase()
}

// ---------------------------------------------------------------------------
// Trimming

/// `s` without the longest prefix whose characters all satisfy `p`.
pub open spec fn strip_front(s: Seq<char>, p: spec_fn(char) -> bool) -> Seq<char>
    decreases s.len(),
{
    if s.len() > 0 && p(s[0]) {
        strip_front(s.drop_first(), p)
    } else {
        s
    }
}

/// `s` without the longest suffix whose characters all satisfy `p`.
pub open spec fn strip_back(s: Seq<char>, p: spec_fn(char) -> bool) -> Seq<char>
    decreases s.len(),
{
    if s.len() > 0 && p(s.last()) {
        strip_back(s.drop_last(), p)
    } else {
        s
    }
}

/// Membership in white space, as a predicate value.
pub open spec fn white() -> spec_fn(char) -> bool {
    |c: char| is_white(c)
}

/// Being one of the characters of `set`, as a predicate value.
pub open spec fn among(set: Seq<char>) -> spec_fn(char) -> bool {
    |c: char| set.contains(c)
}

/// `s` without surrounding white space.
pub open spec fn trimmed(s: Seq<char>) -> Seq<char> {
    strip_back(strip_front(s, white()), white())
}

pub fn trim(s: &str) -> (r: String)
    ensures
        r@ == trimmed(s@),
{
    let v = chars_of(s);
    let mut i: usize = 0;
    assert(v@.skip(0) == v@);
    while i < v.len() && char_is_white(v[i])
        invariant
            i <= v@.len(),
            strip_front(v@, white()) == strip_front(v@.skip(i as int), white()),
        decreases v@.len() - i,
    {
        assert(v@.skip(i as int)[0] == v@[i as int]);
        assert(v@.skip(i as int).drop_first() == v@.skip(i + 1));
        i = i + 1;
    }
    proof {
        if i < v@.len() {
            assert(v@.skip(i as int)[0] == v@[i as int]);
        }
        assert(strip_front(v@, white()) == v@.skip(i as int));
    }
    let mut j: usize = v.len();
    assert(v@.subrange(i as int, j as int) == v@.skip(i as int));
    while j > i && char_is_white(v[j - 1])
        invariant
            i <= j <= v@.len(),
            trimmed(v@) == strip_back(v@.subrange(i as int, j as int), white()),
        decreases j,
    {
        assert(v@.subrange(i as int, j as int).last() == v@[j - 1]);
        assert(v@.subrange(i as int, j as int).drop_last() == v@.subrange(i as int, j - 1));
        j = j - 1;
    }
    proof {
        if j > i {
            assert(v@.subrange(i as int, j as int).last() == v@[j - 1]);
        }
    }
    text_of(&v, i, j)
}

fn char_in(set: &Vec<char>, c: char) -> (r: bool)
    ensures
        r == set@.contains(c),
{
    let mut i: usize = 0;
    while i < set.len()
        invariant
            i <= set@.len(),
            forall|j: int| 0 <= j < i ==> set@[j] != c,
        decreases set@.len() - i,
    {
        if set[i] == c {
            return true;
        }
        i = i + 1;
    }
    false
}

/// `s` without its leading characters that occur in `set`.
pub fn trim_front(s: &str, set: &str) -> (r: String)
    ensures
        r@ == strip_front(s@, among(set@)),
{
    let v = chars_of(s);
    let w = chars_of(set);
    let mut i: usize = 0;
    assert(v@.skip(0) == v@);
    while i < v.len() && char_in(&w, v[i])
        invariant
            i <= v@.len(),
            w@ == set@,
            strip_front(v@, among(set@)) == strip_front(v@.skip(i as int), among(set@)),
        decreases v@.len() - i,
    {
        assert(v@.skip(i as int)[0] == v@[i as int]);
        assert(v@.skip(i as int).drop_first() == v@.skip(i + 1));
        i = i + 1;
    }
    proof {
        if i < v@.len() {
            assert(v@.skip(i as int)[0] == v@[i as int]);
        }
        assert(v@.subrange(i as int, v@.len() as int) == v@.skip(i as int));
    }
    text_of(&v, i, v.len())
}

/// `s` without its trailing characters that occur in `set`.
pub fn trim_back(s: &str, set: &str) -> (r: String)
    ensures
        r@ == strip_back(s@, among(set@)),
{
    let v = chars_of(s);
    let w = chars_of(set);
    let mut j: usize = v.len();
    assert(v@.take(j as int) == v@);
    while j > 0 && char_in(&w, v[j - 1])
        invariant
            j <= v@.len(),
            w@ == set@,
            strip_back(v@, among(set@)) == strip_back(v@.take(j as int), among(set@)),
        decreases j,
    {
        assert(v@.take(j as int).last() == v@[j - 1]);
        assert(v@.take(j as int).drop_last() == v@.take(j - 1));
        j = j - 1;
    }
    proof {
        if j > 0 {
            assert(v@.take(j as int).last() == v@[j - 1]);
        }
        assert(v@.subrange(0, j as int) == v@.take(j as int));
    }
    text_of(&v, 0, j)
}

/// The result of stripping a suffix is a prefix that does not end in a stripped character.
pub proof fn strip_back_is_prefix(s: Seq<char>, p: spec_fn(char) -> bool)
    ensures
        strip_back(s, p).len() <= s.len(),
        strip_back(s, p) == s.take(strip_back(s, p).len() as int),
        strip_back(s, p).len() > 0 ==> !p(strip_back(s, p).last()),
        forall|i: int| strip_back(s, p).len() <= i < s.len() ==> p(#[trigger] s[i]),
    decreases s.len(),
{
    if s.len() > 0 && p(s.last()) {
        strip_back_is_prefix(s.drop_last(), p);
        let n = strip_back(s, p).len() as int;
        assert(s.drop_last().take(n) == s.take(n));
        assert forall|i: int| n <= i < s.len() implies p(#[trigger] s[i]) by {
            if i < s.len() - 1 {
                assert(s.drop_last()[i] == s[i]);
            }
        }
    } else {
        assert(s.take(s.len() as int) == s);
    }
}

/// The result of stripping a prefix is a suffix that does not start with a stripped character.
pub proof fn strip_front_is_suffix(s: Seq<char>, p: spec_fn(char) -> bool)
    ensures
        strip_front(s, p).len() <= s.len(),
        strip_front(s, p) == s.skip(s.len() - strip_front(s, p).len()),
        strip_front(s, p).len() > 0 ==> !p(strip_front(s, p)[0]),
        forall|i: int| 0 <= i < s.len() - strip_front(s, p).len() ==> p(#[trigger] s[i]),
    decreases s.len(),
{
    if s.len() > 0 && p(s[0]) {
        strip_front_is_suffix(s.drop_first(), p);
        let n = strip_front(s, p).len() as int;
        assert(s.drop_first().skip(s.drop_first().len() - n) == s.skip(s.len() - n));
        assert forall|i: int| 0 <= i < s.len() - n implies p(#[trigger] s[i]) by {
            if i > 0 {
                assert(s.drop_first()[i - 1] == s[i]);
            }
        }
    } else {
        assert(s.skip(0) == s);
    }
}

// ---------------------------------------------------------------------------
// Searching

/// Whether `pat` stands in `s` at position `i`.
pub open spec fn stands_at(s: Seq<char>, pat: Seq<char>, i: int) -> bool {
    0 <= i && i + pat.len() <= s.len() && s.subrange(i, i + pat.len()) == pat
}

/// Whether `pat` occurs somewhere in `s`.
pub open spec fn has(s: Seq<char>, pat: Seq<char>) -> bool {
    exists|i: int| stands_at(s, pat, i)
}

/// Whether `s` starts with `pat`.
pub open spec fn begins(s: Seq<char>, pat: Seq<char>) -> bool {
    stands_at(s, pat, 0)
}

/// Whether `s` ends with `pat`.
pub open spec fn ends(s: Seq<char>, pat: Seq<char>) -> bool {
    stands_at(s, pat, s.len() - pat.len())
}

/// The first position at or after `i` where `pat` stands in `s`.
pub open spec fn find_from(s: Seq<char>, pat: Seq<char>, i: int) -> Option<int>
    decreases s.len() + 1 - i,
{
    if i + pat.len() > s.len() {
        None
    } else if stands_at(s, pat, i) {
        Some(i)
    } else {
        find_from(s, pat, i + 1)
    }
}

/// The last position at or before `i` where `pat` stands in `s`.
pub open spec fn find_back(s: Seq<char>, pat: Seq<char>, i: int) -> Option<int>
    decreases i + 1,
{
    if i < 0 {
        None
    } else if stands_at(s, pat, i) {
        Some(i)
    } else {
        find_back(s, pat, i - 1)
    }
}

/// The first position of `pat` in `s`.
pub open spec fn found(s: Seq<char>, pat: Seq<char>) -> Option<int> {
    find_from(s, pat, 0)
}

/// The last position of `pat` in `s`.
pub open spec fn found_last(s: Seq<char>, pat: Seq<char>) -> Option<int> {
    find_back(s, pat, s.len() - pat.len())
}

/// What a found position means: `pat` stands there and nowhere earlier from `i` on.
pub proof fn find_from_meaning(s: Seq<char>, pat: Seq<char>, i: int)
    requires
        0 <= i,
    ensures
        match find_from(s, pat, i) {
            Some(j) => i <= j && stands_at(s, pat, j) && forall|k: int|
                i <= k < j ==> !stands_at(s, pat, k),
            None => forall|k: int| i <= k ==> !stands_at(s, pat, k),
        },
    decreases s.len() + 1 - i,
{
    if i + pat.len() <= s.len() && !stands_at(s, pat, i) {
        find_from_meaning(s, pat, i + 1);
    }
}

/// What a position found from the back means.
pub proof fn find_back_meaning(s: Seq<char>, pat: Seq<char>, i: int)
    ensures
        match find_back(s, pat, i) {
            Some(j) => 0 <= j <= i && stands_at(s, pat, j) && forall|k: int|
                j < k <= i ==> !stands_at(s, pat, k),
            None => forall|k: int| k <= i ==> !stands_at(s, pat, k),
        },
    decreases i + 1,
{
    if i >= 0 && !stands_at(s, pat, i) {
        find_back_meaning(s, pat, i - 1);
    }
}

/// A text occurs in another exactly when it is found there.
pub proof fn has_is_found(s: Seq<char>, pat: Seq<char>)
    ensures
        has(s, pat) == (found(s, pat) is Some),
        has(s, pat) == (found_last(s, pat) is Some),
{
    find_from_meaning(s, pat, 0);
    find_back_meaning(s, pat, s.len() - pat.len());
    if has(s, pat) {
        let i = choose|i: int| stands_at(s, pat, i);
        assert(stands_at(s, pat, i));
    }
}

fn stands(s: &Vec<char>, pat: &Vec<char>, i: usize) -> (r: bool)
    requires
        i + pat@.len() <= s@.len(),
    ensures
        r == stands_at(s@, pat@, i as int),
{
    let n: usize = s.len();
    let mut j: usize = 0;
    while j < pat.len()
        invariant
            j <= pat@.len(),
            n == s@.len(),
            i + pat@.len() <= s@.len(),
            forall|k: int| 0 <= k < j ==> s@[i + k] == pat@[k],
        decreases pat@.len() - j,
    {
        if s[i + j] != pat[j] {
            assert(s@.subrange(i as int, i + pat@.len())[j as int] != pat@[j as int]);
            return false;
        }
        j = j + 1;
    }
    assert(s@.subrange(i as int, i + pat@.len()) == pat@);
    true
}

/// Finds `pat` in `s` at or after `i`.
pub fn find_chars(s: &Vec<char>, pat: &Vec<char>, i: usize) -> (r: Option<usize>)
    ensures
        match r {
            Some(j) => find_from(s@, pat@, i as int) == Some(j as int),
            None => find_from(s@, pat@, i as int) is None,
        },
        r matches Some(j) ==> i <= j && j + pat@.len() <= s@.len(),
{
    if pat.len() > s.len() {
        return None;
    }
    let last: usize = s.len() - pat.len();
    let mut k: usize = i;
    while k <= last
        invariant
            last + pat@.len() == s@.len(),
            i <= k,
            find_from(s@, pat@, i as int) == find_from(s@, pat@, k as int),
        decreases s@.len() + 1 - k,
    {
        if stands(s, pat, k) {
            return Some(k);
        }
        if k == last {
            assert(find_from(s@, pat@, k + 1) is None);
            return None;
        }
        k = k + 1;
    }
    None
}

/// The first position of `pat` in `s`.
pub fn find(s: &str, pat: &str) -> (r: Option<usize>)
    ensures
        match r {
            Some(j) => found(s@, pat@) == Some(j as int),
            None => found(s@, pat@) is None,
        },
        r matches Some(j) ==> j + pat@.len() <= s@.len(),
{
    let v = chars_of(s);
    let w = chars_of(pat);
    find_chars(&v, &w, 0)
}

/// The last position of `pat` in `s`.
pub fn find_last(s: &str, pat: &str) -> (r: Option<usize>)
    ensures
        match r {
            Some(j) => found_last(s@, pat@) == Some(j as int),
            None => found_last(s@, pat@) is None,
        },
        r matches Some(j) ==> j + pat@.len() <= s@.len(),
{
    let v = chars_of(s);
    let w = chars_of(pat);
    if w.len() > v.len() {
        return None;
    }
    let mut k: usize = v.len() - w.len();
    loop
        invariant
            v@ == s@,
            w@ == pat@,
            k + w@.len() <= v@.len(),
            found_last(s@, pat@) == find_back(s@, pat@, k as int),
        decreases k,
    {
        if stands(&v, &w, k) {
            return Some(k);
        }
        if k == 0 {
            assert(find_back(s@, pat@, -1) is None);
            return None;
        }
        k = k - 1;
    }
}

pub fn contains(s: &str, pat: &str) -> (r: bool)
    ensures
        r == has(s@, pat@),
{
    proof {
        has_is_found(s@, pat@);
    }
    find(s, pat).is_some()
}

pub fn starts_with(s: &str, pat: &str) -> (r: bool)
    ensures
        r == begins(s@, pat@),
{
    let v = chars_of(s);
    let w = chars_of(pat);
    w.len() <= v.len() && stands(&v, &w, 0)
}

pub fn ends_with(s: &str, pat: &str) -> (r: bool)
    ensures
        r == ends(s@, pat@),
{
    let v = chars_of(s);
    let w = chars_of(pat);
    w.len() <= v.len() && stands(&v, &w, v.len() - w.len())
}

/// The characters `from..to` of a string.
pub fn slice(s: &str, from: usize, to: usize) -> (r: String)
    requires
        from <= to <= s@.len(),
    ensures
        r@ == s@.subrange(from as int, to as int),
{
    let v = chars_of(s);
    text_of(&v, from, to)
}

/// The number of characters of a string.
pub fn length(s: &str) -> (r: usize)
    ensures
        r == s@.len(),
{
    let v = chars_of(s);
    v.len()
}

// ---------------------------------------------------------------------------
// Splitting, joining, replacing

/// The pieces of `s` between the characters that satisfy `p`; always at least one piece.
pub open spec fn split_by(s: Seq<char>, p: spec_fn(char) -> bool) -> Seq<Seq<char>>
    decreases s.len(),
{
    if s.len() == 0 {
        seq![Seq::<char>::empty()]
    } else {
        let rest = split_by(s.drop_last(), p);
        if p(s.last()) {
            rest.push(Seq::<char>::empty())
        } else {
            rest.drop_last().push(rest.last().push(s.last()))
        }
    }
}

pub proof fn split_by_nonempty(s: Seq<char>, p: spec_fn(char) -> bool)
    ensures
        split_by(s, p).len() > 0,
    decreases s.len(),
{
    if s.len() > 0 {
        split_by_nonempty(s.drop_last(), p);
    }
}

/// No piece holds a separator.
pub proof fn split_pieces_hold_no_separator(s: Seq<char>, p: spec_fn(char) -> bool)
    ensures
        forall|i: int, j: int|
            0 <= i < split_by(s, p).len() && 0 <= j < split_by(s, p)[i].len() ==> !p(
                #[trigger] split_by(s, p)[i][j],
            ),
    decreases s.len(),
{
    if s.len() > 0 {
        split_pieces_hold_no_separator(s.drop_last(), p);
        split_by_nonempty(s.drop_last(), p);
        let rest = split_by(s.drop_last(), p);
        assert forall|i: int, j: int|
            0 <= i < split_by(s, p).len() && 0 <= j < split_by(s, p)[i].len() implies !p(
            #[trigger] split_by(s, p)[i][j],
        ) by {
            if i < rest.len() && j < rest[i].len() {
                assert(!p(rest[i][j]));
            }
        }
    }
}

/// A text without separators is one piece.
pub proof fn split_without_separator(s: Seq<char>, p: spec_fn(char) -> bool)
    requires
        forall|i: int| 0 <= i < s.len() ==> !p(#[trigger] s[i]),
    ensures
        split_by(s, p) == seq![s],
    decreases s.len(),
{
    if s.len() > 0 {
        assert forall|i: int| 0 <= i < s.drop_last().len() implies !p(#[trigger] s.drop_last()[i]) by {
            assert(!p(s[i]));
        }
        split_without_separator(s.drop_last(), p);
        assert(!p(s[s.len() - 1]));
        assert(s.drop_last().push(s.last()) == s);
        assert(split_by(s, p) == seq![s]);
    } else {
        assert(s == Seq::<char>::empty());
    }
}

/// Splitting around a separator: the pieces before it, then the pieces after it.
pub proof fn split_around(a: Seq<char>, c: char, b: Seq<char>, p: spec_fn(char) -> bool)
    requires
        p(c),
    ensures
        split_by(a.push(c) + b, p) == split_by(a, p) + split_by(b, p),
    decreases b.len(),
{
    let whole = a.push(c) + b;
    split_by_nonempty(a, p);
    split_by_nonempty(b, p);
    if b.len() == 0 {
        assert(whole.drop_last() == a);
        assert(whole.last() == c);
        assert(split_by(whole, p) == split_by(a, p) + split_by(b, p));
    } else {
        split_around(a, c, b.drop_last(), p);
        split_by_nonempty(b.drop_last(), p);
        assert(whole.drop_last() == a.push(c) + b.drop_last());
        assert(whole.last() == b.last());
        let left = split_by(a, p);
        let right = split_by(b.drop_last(), p);
        assert((left + right).last() == right.last());
        assert((left + right).drop_last() == left + right.drop_last());
        assert(split_by(whole, p) == left + split_by(b, p));
    }
}

/// The first piece starts as the text does, where the text does not start with a separator.
pub proof fn first_piece_starts(s: Seq<char>, p: spec_fn(char) -> bool)
    requires
        s.len() > 0,
        !p(s[0]),
    ensures
        split_by(s, p)[0].len() > 0,
        split_by(s, p)[0][0] == s[0],
    decreases s.len(),
{
    split_by_nonempty(s.drop_last(), p);
    if s.len() > 1 {
        first_piece_starts(s.drop_last(), p);
        let rest = split_by(s.drop_last(), p);
        if rest.len() == 1 && !p(s.last()) {
            assert(split_by(s, p)[0] == rest[0].push(s.last()));
        } else {
            assert(split_by(s, p)[0] == rest[0]);
        }
    } else {
        assert(s.drop_last() == Seq::<char>::empty());
        assert(split_by(s, p)[0] == Seq::<char>::empty().push(s.last()));
    }
}

/// Splits `s` at each character that occurs in `set`.
pub fn split(s: &str, set: &str) -> (r: Vec<String>)
    ensures
        views(r@) == split_by(s@, among(set@)),
        r@.len() > 0,
{
    let v = chars_of(s);
    let w = chars_of(set);
    let mut out: Vec<String> = Vec::new();
    let mut cur = String::new();
    let mut i: usize = 0;
    assert(views(out@).push(cur@) == split_by(s@.take(0), among(set@)));
    while i < v.len()
        invariant
            i <= v@.len(),
            v@ == s@,
            w@ == set@,
            views(out@).push(cur@) == split_by(s@.take(i as int), among(set@)),
        decreases v@.len() - i,
    {
        let ghost before = views(out@).push(cur@);
        proof {
            assert(s@.take(i + 1).drop_last() == s@.take(i as int));
            assert(s@.take(i + 1).last() == s@[i as int]);
            assert(before.drop_last() == views(out@));
            assert(before.last() == cur@);
        }
        if char_in(&w, v[i]) {
            proof {
                views_push(out@, cur);
            }
            out.push(cur);
            cur = String::new();
        } else {
            cur.push(v[i]);
        }
        i = i + 1;
    }
    proof {
        assert(s@.take(i as int) == s@);
        views_push(out@, cur);
    }
    out.push(cur);
    out
}

/// The texts of `v` with `sep` between neighbours.
pub open spec fn joined(v: Seq<Seq<char>>, sep: Seq<char>) -> Seq<char>
    decreases v.len(),
{
    if v.len() == 0 {
        Seq::empty()
    } else if v.len() == 1 {
        v[0]
    } else {
        joined(v.drop_last(), sep) + sep + v.last()
    }
}

/// Joining pieces with a separator and splitting again gives the pieces back, where the pieces
/// hold no separator.
pub proof fn join_then_split(v: Seq<Seq<char>>, c: char, p: spec_fn(char) -> bool)
    requires
        v.len() > 0,
        p(c),
        forall|i: int, j: int| 0 <= i < v.len() && 0 <= j < v[i].len() ==> !p(#[trigger] v[i][j]),
    ensures
        split_by(joined(v, seq![c]), p) == v,
    decreases v.len(),
{
    if v.len() == 1 {
        assert forall|i: int| 0 <= i < v[0].len() implies !p(#[trigger] v[0][i]) by {}
        split_without_separator(v[0], p);
        assert(v == seq![v[0]]);
    } else {
        let front = v.drop_last();
        assert forall|i: int, j: int| 0 <= i < front.len() && 0 <= j < front[i].len() implies !p(
            #[trigger] front[i][j],
        ) by {
            assert(!p(v[i][j]));
        }
        join_then_split(front, c, p);
        let last = v.last();
        assert forall|i: int| 0 <= i < last.len() implies !p(#[trigger] last[i]) by {
            assert(!p(v[v.len() - 1][i]));
        }
        split_without_separator(last, p);
        let head = joined(front, seq![c]);
        assert(joined(v, seq![c]) == head.push(c) + last);
        split_around(head, c, last, p);
        assert(front + seq![last] == v);
    }
}

pub fn join(v: &Vec<String>, sep: &str) -> (r: String)
    ensures
        r@ == joined(views(v@), sep@),
{
    if v.len() == 0 {
        return String::new();
    }
    let mut out = copy(v[0].as_str());
    let mut i: usize = 1;
    proof {
        assert(views(v@).take(1) == seq![v@[0]@]);
    }
    while i < v.len()
        invariant
            1 <= i <= v@.len(),
            out@ == joined(views(v@).take(i as int), sep@),
        decreases v@.len() - i,
    {
        proof {
            assert(views(v@).take(i + 1).drop_last() == views(v@).take(i as int));
            assert(views(v@).take(i + 1).last() == v@[i as int]@);
        }
        out.append(sep);
        out.append(v[i].as_str());
        i = i + 1;
    }
    assert(views(v@).take(i as int) == views(v@));
    out
}

/// `s` with each occurrence of `from`, read left to right, replaced by `to`.
pub open spec fn replaced(s: Seq<char>, from: Seq<char>, to: Seq<char>) -> Seq<char>
    decreases s.len(),
{
    if from.len() == 0 || s.len() < from.len() {
        s
    } else if begins(s, from) {
        to + replaced(s.skip(from.len() as int), from, to)
    } else {
        seq![s[0]] + replaced(s.skip(1), from, to)
    }
}

pub fn replace(s: &str, from: &str, to: &str) -> (r: String)
    ensures
        r@ == replaced(s@, from@, to@),
{
    let v = chars_of(s);
    let w = chars_of(from);
    if w.len() == 0 {
        return copy(s);
    }
    let mut out = String::new();
    let mut i: usize = 0;
    assert(v@.skip(0) == v@);
    while w.len() <= v.len() - i
        invariant
            i <= v@.len(),
            v@ == s@,
            w@ == from@,
            w@.len() > 0,
            out@ + replaced(v@.skip(i as int), from@, to@) == replaced(s@, from@, to@),
        decreases v@.len() - i,
    {
        let ghost rest = v@.skip(i as int);
        let ghost before = out@;
        if stands(&v, &w, i) {
            proof {
                assert(rest.subrange(0, from@.len() as int) == v@.subrange(i as int, i + from@.len()));
                assert(rest.skip(from@.len() as int) == v@.skip(i + from@.len()));
                assert(before + (to@ + replaced(rest.skip(from@.len() as int), from@, to@)) == before
                    + to@ + replaced(rest.skip(from@.len() as int), from@, to@));
            }
            out.append(to);
            i = i + w.len();
        } else {
            proof {
                assert(rest.subrange(0, from@.len() as int) == v@.subrange(i as int, i + from@.len()));
                assert(rest.skip(1) == v@.skip(i + 1));
                assert(rest[0] == v@[i as int]);
                assert(before + (seq![rest[0]] + replaced(rest.skip(1), from@, to@)) == before.push(
                    rest[0],
                ) + replaced(rest.skip(1), from@, to@));
            }
            out.push(v[i]);
            i = i + 1;
        }
    }
    let ghost before = out@;
    let tail = text_of(&v, i, v.len());
    proof {
        assert(v@.subrange(i as int, v@.len() as int) == v@.skip(i as int));
    }
    out.append(tail.as_str());
    out
}

// ---------------------------------------------------------------------------
// Numbers

/// The character of a decimal digit.
pub open spec fn digit_char(d: int) -> char {
    (d + 48) as char
}

/// `n` in decimal, without leading zeros.
pub open spec fn decimal(n: nat) -> Seq<char>
    decreases n,
{
    if n < 10 {
        seq![digit_char(n as int)]
    } else {
        decimal(n / 10).push(digit_char((n % 10) as int))
    }
}

/// `n` in decimal, with a leading minus sign where it is negative.
pub open spec fn decimal_int(n: int) -> Seq<char> {
    if n < 0 {
        seq!['-'] + decimal((-n) as nat)
    } else {
        decimal(n as nat)
    }
}

fn char_of_digit(d: u64) -> (r: char)
    requires
        d < 10,
    ensures
        r == digit_char(d as int),
{
    ((d as u8) + 48) as char
}

pub fn format_nat(n: u64) -> (r: String)
    ensures
        r@ == decimal(n as nat),
    decreases n,
{
    if n < 10 {
        let mut out = String::new();
        out.push(char_of_digit(n));
        assert(out@ == seq![digit_char(n as int)]);
        out
    } else {
        let mut out = format_nat(n / 10);
        out.push(char_of_digit(n % 10));
        out
    }
}

pub fn format_int(n: i64) -> (r: String)
    ensures
        r@ == decimal_int(n as int),
{
    if n < 0 {
        let mut out = String::new();
        out.push('-');
        assert(out@ == seq!['-']);
        let m: u64 = (-(n as i128)) as u64;
        let digits = format_nat(m);
        out.append(digits.as_str());
        out
    } else {
        format_nat(n as u64)
    }
}

pub open spec fn all_digits(s: Seq<char>) -> bool {
    forall|i: int| 0 <= i < s.len() ==> is_digit(#[trigger] s[i])
}

/// The number that a sequence of decimal digits denotes.
pub open spec fn digits_value(s: Seq<char>) -> int
    decreases s.len(),
{
    if s.len() == 0 {
        0
    } else {
        digits_value(s.drop_last()) * 10 + (s.last() as int - 48)
    }
}

/// The number in `s`: an optional sign (`-` only where `lo` is negative), then digits, the value
/// between `lo` and `hi`; `None` for every other text.
pub open spec fn parsed_int(s: Seq<char>, lo: int, hi: int) -> Option<int> {
    let negative = lo < 0 && s.len() > 0 && s[0] == '-';
    let signed = negative || (s.len() > 0 && s[0] == '+');
    let digits = if signed {
        s.skip(1)
    } else {
        s
    };
    let value = if negative {
        -digits_value(digits)
    } else {
        digits_value(digits)
    };
    if digits.len() > 0 && all_digits(digits) && lo <= value <= hi {
        Some(value)
    } else {
        None
    }
}

proof fn digits_value_grows(s: Seq<char>, n: int)
    requires
        all_digits(s),
        0 <= n <= s.len(),
    ensures
        0 <= digits_value(s.take(n)) <= digits_value(s),
    decreases s.len(),
{
    if n == s.len() {
        assert(s.take(n) == s);
        if s.len() > 0 {
            assert(s.drop_last().take(s.len() - 1) == s.drop_last());
            assert(all_digits(s.drop_last())) by {
                assert forall|i: int| 0 <= i < s.drop_last().len() implies is_digit(
                    #[trigger] s.drop_last()[i],
                ) by {
                    assert(is_digit(s[i]));
                }
            }
            digits_value_grows(s.drop_last(), s.len() - 1);
            assert(is_digit(s[s.len() - 1]));
        }
    } else {
        assert(all_digits(s.drop_last())) by {
            assert forall|i: int| 0 <= i < s.drop_last().len() implies is_digit(
                #[trigger] s.drop_last()[i],
            ) by {
                assert(is_digit(s[i]));
            }
        }
        digits_value_grows(s.drop_last(), n);
        assert(s.drop_last().take(n) == s.take(n));
        assert(is_digit(s[s.len() - 1]));
    }
}

/// Parses a whole number between `lo` and `hi`.
pub fn parse_int(s: &str, lo: i64, hi: i64) -> (r: Option<i64>)
    requires
        lo <= 0 <= hi,
    ensures
        match r {
            Some(n) => parsed_int(s@, lo as int, hi as int) == Some(n as int),
            None => parsed_int(s@, lo as int, hi as int) is None,
        },
{
    let v = chars_of(s);
    let negative: bool = lo < 0 && v.len() > 0 && v[0] == '-';
    let signed: bool = negative || (v.len() > 0 && v[0] == '+');
    let start: usize = if signed {
        1
    } else {
        0
    };
    let ghost digits = if signed {
        s@.skip(1)
    } else {
        s@
    };
    if start == v.len() {
        return None;
    }
    let mut acc: i128 = 0;
    let mut i: usize = start;
    assert(digits.take(0) == Seq::<char>::empty());
    while i < v.len()
        invariant
            start <= i <= v@.len(),
            start <= 1,
            v@ == s@,
            digits == v@.skip(start as int),
            forall|k: int| 0 <= k < i - start ==> is_digit(#[trigger] digits[k]),
            acc == digits_value(digits.take(i - start)),
            0 <= acc <= 0x1_0000_0000_0000_0000,
            lo <= 0 <= hi,
            negative ==> signed,
            negative == (lo < 0 && s@.len() > 0 && s@[0] == '-'),
            signed == (negative || (s@.len() > 0 && s@[0] == '+')),
            digits == (if signed {
                s@.skip(1)
            } else {
                s@
            }),
        decreases v@.len() - i,
    {
        let c = v[i];
        assert(digits[i - start] == c);
        if !char_is_digit(c) {
            return None;
        }
        let d: i128 = (c as u32) as i128 - 48;
        proof {
            assert(digits.take(i + 1 - start).drop_last() == digits.take(i - start));
            assert(digits.take(i + 1 - start).last() == c);
        }
        acc = acc * 10 + d;
        i = i + 1;
        if acc > 0x1_0000_0000_0000_0000 {
            proof {
                if all_digits(digits) {
                    digits_value_grows(digits, i - start);
                }
            }
            return None;
        }
    }
    proof {
        assert(digits.take(i - start) == digits);
    }
    let value: i128 = if negative {
        -acc
    } else {
        acc
    };
    if (lo as i128) <= value && value <= (hi as i128) {
        Some(value as i64)
    } else {
        None
    }
}

/// Parses an unsigned whole number of at most `hi`.
pub fn parse_nat(s: &str, hi: u64) -> (r: Option<u64>)
    ensures
        match r {
            Some(n) => parsed_int(s@, 0, hi as int) == Some(n as int),
            None => parsed_int(s@, 0, hi as int) is None,
        },
{
    let v = chars_of(s);
    let signed: bool = v.len() > 0 && v[0] == '+';
    let start: usize = if signed {
        1
    } else {
        0
    };
    let ghost digits = if signed {
        s@.skip(1)
    } else {
        s@
    };
    if start == v.len() {
        return None;
    }
    let mut acc: i128 = 0;
    let mut i: usize = start;
    assert(digits.take(0) == Seq::<char>::empty());
    while i < v.len()
        invariant
            start <= i <= v@.len(),
            start <= 1,
            v@ == s@,
            digits == v@.skip(start as int),
            forall|k: int| 0 <= k < i - start ==> is_digit(#[trigger] digits[k]),
            acc == digits_value(digits.take(i - start)),
            0 <= acc <= 0x1_0000_0000_0000_0000,
            signed == (s@.len() > 0 && s@[0] == '+'),
            digits == (if signed {
                s@.skip(1)
            } else {
                s@
            }),
        decreases v@.len() - i,
    {
        let c = v[i];
        assert(digits[i - start] == c);
        if !char_is_digit(c) {
            return None;
        }
        let d: i128 = (c as u32) as i128 - 48;
        proof {
            assert(digits.take(i + 1 - start).drop_last() == digits.take(i - start));
            assert(digits.take(i + 1 - start).last() == c);
        }
        acc = acc * 10 + d;
        i = i + 1;
        if acc > 0x1_0000_0000_0000_0000 {
            proof {
                if all_digits(digits) {
                    digits_value_grows(digits, i - start);
                }
            }
            return None;
        }
    }
    proof {
        assert(digits.take(i - start) == digits);
    }
    if acc <= (hi as i128) {
        Some(acc as u64)
    } else {
        None
    }
}

/// Writing a number in decimal and reading it back gives the number.
pub proof fn decimal_reads_back(n: nat)
    ensures
        decimal(n).len() > 0,
        all_digits(decimal(n)),
        digits_value(decimal(n)) == n,
    decreases n,
{
    if n < 10 {
        reveal_with_fuel(digits_value, 2);
        assert(decimal(n).drop_last() == Seq::<char>::empty());
        assert(decimal(n).last() == digit_char(n as int));
    } else {
        decimal_reads_back(n / 10);
        assert(decimal(n).drop_last() == decimal(n / 10));
        assert(decimal(n).last() == digit_char((n % 10) as int));
        assert forall|i: int| 0 <= i < decimal(n).len() implies is_digit(#[trigger] decimal(n)[i]) by {
            if i < decimal(n / 10).len() {
                assert(decimal(n)[i] == decimal(n / 10)[i]);
            }
        }
    }
}

/// Writing a number with its sign and reading it back gives the number.
pub proof fn decimal_int_reads_back(n: int, lo: int, hi: int)
    requires
        lo <= n <= hi,
    ensures
        parsed_int(decimal_int(n), lo, hi) == Some(n),
{
    let s = decimal_int(n);
    if n < 0 {
        decimal_reads_back((-n) as nat);
        assert(s[0] == '-');
        assert(s.skip(1) == decimal((-n) as nat));
    } else {
        decimal_reads_back(n as nat);
        assert(is_digit(s[0]));
    }
}

/// Lower case once is lower case for good.
pub proof fn lowering_twice(s: Seq<char>)
    ensures
        lowered(lowered(s)) == lowered(s),
{
    assert(lowered(lowered(s)) =~= lowered(s));
}

/// White space around a text does not depend on the case of its letters.
pub proof fn trimming_commutes_with_lowering(s: Seq<char>)
    ensures
        trimmed(lowered(s)) == lowered(trimmed(s)),
{
    front_commutes_with_lowering(s);
    back_commutes_with_lowering(strip_front(s, white()));
}

proof fn front_commutes_with_lowering(s: Seq<char>)
    ensures
        strip_front(lowered(s), white()) == lowered(strip_front(s, white())),
    decreases s.len(),
{
    if s.len() > 0 && white()(s[0]) {
        front_commutes_with_lowering(s.drop_first());
        assert(lowered(s).drop_first() =~= lowered(s.drop_first()));
        assert(white()(lowered(s)[0]));
    } else if s.len() > 0 {
        assert(!white()(lowered(s)[0]));
    }
}

proof fn back_commutes_with_lowering(s: Seq<char>)
    ensures
        strip_back(lowered(s), white()) == lowered(strip_back(s, white())),
    decreases s.len(),
{
    if s.len() > 0 && white()(s.last()) {
        back_commutes_with_lowering(s.drop_last());
        assert(lowered(s).drop_last() =~= lowered(s.drop_last()));
        assert(white()(lowered(s).last()));
    } else if s.len() > 0 {
        assert(!white()(lowered(s).last()));
    }
}

// ---------------------------------------------------------------------------
// Words

/// Splits `s` at each white-space character.
pub fn split_white(s: &str) -> (r: Vec<String>)
    ensures
        views(r@) == split_by(s@, white()),
{
    let v = chars_of(s);
    let mut out: Vec<String> = Vec::new();
    let mut cur = String::new();
    let mut i: usize = 0;
    assert(views(out@).push(cur@) == split_by(s@.take(0), white()));
    while i < v.len()
        invariant
            i <= v@.len(),
            v@ == s@,
            views(out@).push(cur@) == split_by(s@.take(i as int), white()),
        decreases v@.len() - i,
    {
        let ghost before = views(out@).push(cur@);
        proof {
            assert(s@.take(i + 1).drop_last() == s@.take(i as int));
            assert(s@.take(i + 1).last() == s@[i as int]);
            assert(before.drop_last() == views(out@));
            assert(before.last() == cur@);
        }
        if char_is_white(v[i]) {
            proof {
                views_push(out@, cur);
            }
            out.push(cur);
            cur = String::new();
        } else {
            cur.push(v[i]);
        }
        i = i + 1;
    }
    proof {
        assert(s@.take(i as int) == s@);
        views_push(out@, cur);
    }
    out.push(cur);
    out
}

/// The texts that are not empty.
pub open spec fn nonempty(v: Seq<Seq<char>>) -> Seq<Seq<char>>
    decreases v.len(),
{
    if v.len() == 0 {
        Seq::empty()
    } else if v.last().len() == 0 {
        nonempty(v.drop_last())
    } else {
        nonempty(v.drop_last()).push(v.last())
    }
}

/// The words of a text: what stands between white space.
pub open spec fn words_in(s: Seq<char>) -> Seq<Seq<char>> {
    nonempty(split_by(s, white()))
}

pub fn words(s: &str) -> (r: Vec<String>)
    ensures
        views(r@) == words_in(s@),
{
    let pieces = split_white(s);
    let ghost all = views(pieces@);
    let mut out: Vec<String> = Vec::new();
    let mut i: usize = 0;
    assert(views(out@) =~= nonempty(all.take(0)));
    while i < pieces.len()
        invariant
            i <= pieces@.len(),
            all == views(pieces@),
            views(out@) == nonempty(all.take(i as int)),
        decreases pieces@.len() - i,
    {
        proof {
            assert(all.take(i + 1).drop_last() == all.take(i as int));
            assert(all.take(i + 1).last() == pieces@[i as int]@);
        }
        if length(pieces[i].as_str()) > 0 {
            let w = pieces[i].clone();
            proof {
                views_push(out@, w);
            }
            out.push(w);
        }
        i = i + 1;
    }
    assert(all.take(i as int) == all);
    out
}

/// A text that says something: more than white space.
pub open spec fn said(s: Seq<char>) -> bool {
    trimmed(s).len() > 0
}

pub fn is_said(s: &str) -> (r: bool)
    ensures
        r == said(s@),
{
    length(trim(s).as_str()) > 0
}

} // verus!
