//! JSON documents as plain values.

use crate::text;
use serde_json::Value;
use vstd::prelude::*;

verus! {

/// A JSON value. A number that is not a whole number keeps its text.
#[derive(Debug)]
pub enum Json {
    Null,
    Bool(bool),
    Int(i128),
    Real(String),
    Str(String),
    Array(Vec<Json>),
    Object(Vec<(String, Json)>),
}

/// What a JSON value is, as a mathematical value.
pub enum JsonView {
    Null,
    Bool(bool),
    Int(int),
    Real(Seq<char>),
    Str(Seq<char>),
    Array(Seq<JsonView>),
    Object(Seq<(Seq<char>, JsonView)>),
}

/// The mathematical value of a JSON value.
pub open spec fn tree(j: Json) -> JsonView
    decreases j, 0nat,
{
    match j {
        Json::Null => JsonView::Null,
        Json::Bool(b) => JsonView::Bool(b),
        Json::Int(n) => JsonView::Int(n as int),
        Json::Real(s) => JsonView::Real(s@),
        Json::Str(s) => JsonView::Str(s@),
        Json::Array(v) => JsonView::Array(trees(v@)),
        Json::Object(v) => JsonView::Object(members(v@)),
    }
}

pub open spec fn trees(s: Seq<Json>) -> Seq<JsonView>
    decreases s, s.len(),
{
    if s.len() == 0 {
        Seq::empty()
    } else {
        trees(s.drop_last()).push(tree(s.last()))
    }
}

pub open spec fn members(s: Seq<(String, Json)>) -> Seq<(Seq<char>, JsonView)>
    decreases s, s.len(),
{
    if s.len() == 0 {
        Seq::empty()
    } else {
        members(s.drop_last()).push((s.last().0@, tree(s.last().1)))
    }
}

impl View for Json {
    type V = JsonView;

    open spec fn view(&self) -> JsonView {
        tree(*self)
    }
}

pub proof fn trees_index(s: Seq<Json>)
    ensures
        trees(s).len() == s.len(),
        forall|i: int| 0 <= i < s.len() ==> trees(s)[i] == tree(#[trigger] s[i]),
    decreases s.len(),
{
    if s.len() > 0 {
        trees_index(s.drop_last());
        assert forall|i: int| 0 <= i < s.len() implies trees(s)[i] == tree(#[trigger] s[i]) by {
            if i < s.len() - 1 {
                assert(s.drop_last()[i] == s[i]);
            }
        }
    }
}

pub proof fn members_index(s: Seq<(String, Json)>)
    ensures
        members(s).len() == s.len(),
        forall|i: int|
            0 <= i < s.len() ==> members(s)[i] == ((#[trigger] s[i]).0@, tree(s[i].1)),
    decreases s.len(),
{
    if s.len() > 0 {
        members_index(s.drop_last());
        assert forall|i: int| 0 <= i < s.len() implies members(s)[i] == (
            (#[trigger] s[i]).0@,
            tree(s[i].1),
        ) by {
            if i < s.len() - 1 {
                assert(s.drop_last()[i] == s[i]);
            }
        }
    }
}

/// The value of the first member of that name from position `i` on.
pub open spec fn member_from(m: Seq<(Seq<char>, JsonView)>, key: Seq<char>, i: int) -> Option<
    JsonView,
>
    decreases m.len() - i,
{
    if i < 0 || i >= m.len() {
        None
    } else if m[i].0 == key {
        Some(m[i].1)
    } else {
        member_from(m, key, i + 1)
    }
}

/// The member `key` of an object; `None` of every other value.
pub open spec fn member(v: JsonView, key: Seq<char>) -> Option<JsonView> {
    match v {
        JsonView::Object(m) => member_from(m, key, 0),
        _ => None,
    }
}

/// A field of a record. A record is an object, or else an array of its fields in their order, of
/// which there are at least `least` and at most `most`; `at` is the place of this field.
pub open spec fn slot(
    v: JsonView,
    key: Seq<char>,
    at: int,
    least: int,
    most: int,
) -> Option<JsonView> {
    match v {
        JsonView::Array(x) => if least <= x.len() <= most && 0 <= at < x.len() {
            Some(x[at])
        } else {
            None
        },
        _ => member(v, key),
    }
}

/// The member that a chain of keys leads to.
pub open spec fn at_path(v: JsonView, path: Seq<Seq<char>>) -> Option<JsonView>
    decreases path.len(),
{
    if path.len() == 0 {
        Some(v)
    } else {
        match at_path(v, path.drop_last()) {
            Some(w) => member(w, path.last()),
            None => None,
        }
    }
}

/// The text of a string value.
pub open spec fn string_of(v: Option<JsonView>) -> Option<Seq<char>> {
    match v {
        Some(JsonView::Str(s)) => Some(s),
        _ => None,
    }
}

/// The text of a string value, empty for every other value.
pub open spec fn text_or_empty(v: Option<JsonView>) -> Seq<char> {
    match v {
        Some(JsonView::Str(s)) => s,
        _ => Seq::empty(),
    }
}

/// The number of a whole-number value that fits 64 bits with sign.
pub open spec fn int_of(v: Option<JsonView>) -> Option<int> {
    match v {
        Some(JsonView::Int(n)) => if i64::MIN <= n <= i64::MAX {
            Some(n)
        } else {
            None
        },
        _ => None,
    }
}

pub open spec fn bool_of(v: Option<JsonView>) -> Option<bool> {
    match v {
        Some(JsonView::Bool(b)) => Some(b),
        _ => None,
    }
}

/// The elements of an array, none for every other value.
pub open spec fn items_of(v: Option<JsonView>) -> Seq<JsonView> {
    match v {
        Some(JsonView::Array(s)) => s,
        _ => Seq::empty(),
    }
}

impl Json {
    /// The member `key` of an object.
    pub fn get(&self, key: &str) -> (r: Option<&Json>)
        ensures
            match r {
                Some(j) => member(self@, key@) == Some(j@),
                None => member(self@, key@) is None,
            },
    {
        match self {
            Json::Object(v) => {
                proof {
                    members_index(v@);
                }
                let mut i: usize = 0;
                while i < v.len()
                    invariant
                        i <= v@.len(),
                        self@ == JsonView::Object(members(v@)),
                        members(v@).len() == v@.len(),
                        forall|k: int|
                            0 <= k < v@.len() ==> members(v@)[k] == (
                                (#[trigger] v@[k]).0@,
                                tree(v@[k].1),
                            ),
                        member_from(members(v@), key@, 0) == member_from(members(v@), key@, i as int),
                    decreases v@.len() - i,
                {
                    if text::same(v[i].0.as_str(), key) {
                        return Some(&v[i].1);
                    }
                    i = i + 1;
                }
                None
            },
            _ => None,
        }
    }

    /// A field of a record, which is an object or an array of its fields in their order.
    pub fn slot(&self, key: &str, at: usize, least: usize, most: usize) -> (r: Option<&Json>)
        ensures
            shown(r) == slot(self@, key@, at as int, least as int, most as int),
    {
        match self {
            Json::Array(x) => {
                proof {
                    trees_index(x@);
                }
                if least <= x.len() && x.len() <= most && at < x.len() {
                    Some(&x[at])
                } else {
                    None
                }
            },
            _ => self.get(key),
        }
    }

    /// The text of a string.
    pub fn as_str(&self) -> (r: Option<&String>)
        ensures
            match r {
                Some(s) => string_of(Some(self@)) == Some(s@),
                None => string_of(Some(self@)) is None,
            },
    {
        match self {
            Json::Str(s) => Some(s),
            _ => None,
        }
    }

    /// The elements of an array.
    pub fn as_array(&self) -> (r: Option<&Vec<Json>>)
        ensures
            match r {
                Some(v) => self@ == JsonView::Array(trees(v@)),
                None => self@ !is Array,
            },
    {
        match self {
            Json::Array(v) => Some(v),
            _ => None,
        }
    }
}

/// The text of an optional string value, empty where there is none.
pub fn str_or_empty(v: Option<&Json>) -> (r: String)
    ensures
        r@ == text_or_empty(
            match v {
                Some(j) => Some(j@),
                None => None,
            },
        ),
{
    match v {
        Some(Json::Str(s)) => s.clone(),
        _ => String::new(),
    }
}

/// The whole number of an optional value.
pub fn int_value(v: Option<&Json>) -> (r: Option<i64>)
    ensures
        match r {
            Some(n) => int_of(
                match v {
                    Some(j) => Some(j@),
                    None => None,
                },
            ) == Some(n as int),
            None => int_of(
                match v {
                    Some(j) => Some(j@),
                    None => None,
                },
            ) is None,
        },
{
    match v {
        Some(Json::Int(n)) => if (i64::MIN as i128) <= *n && *n <= (i64::MAX as i128) {
            Some(*n as i64)
        } else {
            None
        },
        _ => None,
    }
}

/// The truth value of an optional value.
pub fn bool_value(v: Option<&Json>) -> (r: Option<bool>)
    ensures
        r == bool_of(
            match v {
                Some(j) => Some(j@),
                None => None,
            },
        ),
{
    match v {
        Some(Json::Bool(b)) => Some(*b),
        _ => None,
    }
}

/// `serde_json::Value`, carried through unread.
#[verifier::external_type_specification]
#[verifier::external_body]
pub struct ExValue(Value);

/// What a `serde_json::Value` holds.
pub uninterp spec fn value_tree(v: Value) -> JsonView;

/// The document that `serde_json::from_str` reads out of a text, `None` where it reports an
/// error.
pub uninterp spec fn document(text: Seq<char>) -> Option<JsonView>;

/// `serde_json::from_str` into a `Value`: what it reads depends on the text alone.
#[verifier::external_body]
fn read_value(s: &str) -> (r: Option<Value>)
    ensures
        match r {
            Some(v) => document(s@) == Some(value_tree(v)),
            None => document(s@) is None,
        },
{
    serde_json::from_str::<Value>(s).ok()
}

/// The variants of `serde_json::Value`, each turned into the one of the same name: `as_i128`
/// tells whole numbers from the others, which keep their text.
#[verifier::external_body]
fn json_of(v: &Value) -> (r: Json)
    ensures
        r@ == value_tree(*v),
{
    match v {
        Value::Null => Json::Null,
        Value::Bool(b) => Json::Bool(*b),
        Value::Number(n) => match n.as_i128() {
            Some(i) => Json::Int(i),
            None => Json::Real(n.to_string()),
        },
        Value::String(s) => Json::Str(s.clone()),
        Value::Array(a) => Json::Array(a.iter().map(json_of).collect()),
        Value::Object(o) => Json::Object(o.iter().map(|(k, x)| (k.clone(), json_of(x))).collect()),
    }
}

/// Reads a JSON document.
pub fn parse(s: &str) -> (r: Option<Json>)
    ensures
        match r {
            Some(j) => document(s@) == Some(j@),
            None => document(s@) is None,
        },
{
    match read_value(s) {
        Some(v) => Some(json_of(&v)),
        None => None,
    }
}

/// The value that an optional reference leads to.
pub open spec fn shown(v: Option<&Json>) -> Option<JsonView> {
    match v {
        Some(j) => Some(j@),
        None => None,
    }
}

/// The member `key` of an optional value.
pub open spec fn member_opt(v: Option<JsonView>, key: Seq<char>) -> Option<JsonView> {
    match v {
        Some(w) => member(w, key),
        None => None,
    }
}

/// The member `key` of an optional value.
pub fn get_opt<'a>(v: Option<&'a Json>, key: &str) -> (r: Option<&'a Json>)
    ensures
        shown(r) == member_opt(shown(v), key@),
{
    match v {
        Some(j) => j.get(key),
        None => None,
    }
}

/// The elements of an optional array; nothing for every other value.
pub fn items<'a>(v: Option<&'a Json>) -> (r: Option<&'a Vec<Json>>)
    ensures
        match r {
            Some(a) => shown(v) == Some(JsonView::Array(trees(a@))) && items_of(shown(v)) == trees(
                a@,
            ),
            None => !(shown(v) matches Some(JsonView::Array(_))) && items_of(shown(v)).len() == 0,
        },
{
    match v {
        Some(j) => j.as_array(),
        None => None,
    }
}

/// The text of an optional string value.
pub fn str_value(v: Option<&Json>) -> (r: Option<String>)
    ensures
        text::view_opt(r) == string_of(shown(v)),
{
    match v {
        Some(Json::Str(s)) => Some(s.clone()),
        _ => None,
    }
}

/// The value of a document that was read, if it could be.
pub open spec fn doc_view(doc: Option<Json>) -> Option<JsonView> {
    match doc {
        Some(j) => Some(j@),
        None => None,
    }
}

/// The root of a document that was read, if it could be.
pub fn root(doc: &Option<Json>) -> (r: Option<&Json>)
    ensures
        shown(r) == doc_view(*doc),
{
    match doc {
        Some(j) => Some(j),
        None => None,
    }
}

// ---------------------------------------------------------------------------
// Building

/// Adds a member to those of an object.
pub fn put(v: &mut Vec<(String, Json)>, key: &str, value: Json)
    ensures
        members(final(v)@) == members(old(v)@).push((key@, value@)),
{
    let ghost before = v@;
    v.push((text::copy(key), value));
    proof {
        assert(v@.drop_last() == before);
        assert(v@.last().0@ == key@ && v@.last().1 == value);
    }
}

/// Adds an element to those of an array.
pub fn append(v: &mut Vec<Json>, value: Json)
    ensures
        trees(final(v)@) == trees(old(v)@).push(value@),
{
    let ghost before = v@;
    v.push(value);
    proof {
        assert(v@.drop_last() == before);
        assert(v@.last() == value);
    }
}

/// A string value.
pub fn string(s: &str) -> (r: Json)
    ensures
        r@ == JsonView::Str(s@),
{
    Json::Str(text::copy(s))
}

/// A whole-number value.
pub fn number(n: i64) -> (r: Json)
    ensures
        r@ == JsonView::Int(n as int),
{
    Json::Int(n as i128)
}

/// An array of strings.
pub fn strings(v: &Vec<String>) -> (r: Json)
    ensures
        r@ == JsonView::Array(text::views(v@).map_values(|s: Seq<char>| JsonView::Str(s))),
{
    let ghost all = text::views(v@);
    let mut out: Vec<Json> = Vec::new();
    let mut i: usize = 0;
    proof {
        trees_index(out@);
        assert(trees(out@) =~= all.take(0).map_values(|s: Seq<char>| JsonView::Str(s)));
    }
    while i < v.len()
        invariant
            i <= v@.len(),
            all == text::views(v@),
            trees(out@) == all.take(i as int).map_values(|s: Seq<char>| JsonView::Str(s)),
        decreases v@.len() - i,
    {
        append(&mut out, string(v[i].as_str()));
        proof {
            assert(all.take(i + 1) == all.take(i as int).push(v@[i as int]@));
            assert(all.take(i + 1).map_values(|s: Seq<char>| JsonView::Str(s)) == all.take(
                i as int,
            ).map_values(|s: Seq<char>| JsonView::Str(s)).push(JsonView::Str(v@[i as int]@)));
        }
        i = i + 1;
    }
    assert(all.take(i as int) == all);
    Json::Array(out)
}

// ---------------------------------------------------------------------------
// Lists of texts

/// The strings among the values, in their order.
pub open spec fn texts_among(v: Seq<JsonView>) -> Seq<Seq<char>>
    decreases v.len(),
{
    if v.len() == 0 {
        Seq::empty()
    } else {
        match v.last() {
            JsonView::Str(s) => texts_among(v.drop_last()).push(s),
            _ => texts_among(v.drop_last()),
        }
    }
}

/// The strings of an optional array.
pub fn texts(v: Option<&Json>) -> (r: Vec<String>)
    ensures
        text::views(r@) == texts_among(items_of(shown(v))),
{
    let mut out: Vec<String> = Vec::new();
    assert(text::views(out@) =~= texts_among(Seq::<JsonView>::empty()));
    match items(v) {
        Some(a) => {
            let ghost all = trees(a@);
            let mut i: usize = 0;
            proof {
                trees_index(a@);
                assert(all.take(0) =~= Seq::<JsonView>::empty());
            }
            while i < a.len()
                invariant
                    i <= a@.len(),
                    all == trees(a@),
                    all.len() == a@.len(),
                    forall|k: int| 0 <= k < a@.len() ==> all[k] == tree(#[trigger] a@[k]),
                    text::views(out@) == texts_among(all.take(i as int)),
                decreases a@.len() - i,
            {
                proof {
                    assert(all.take(i + 1).drop_last() == all.take(i as int));
                    assert(all.take(i + 1).last() == tree(a@[i as int]));
                }
                match &a[i] {
                    Json::Str(s) => {
                        let copy = s.clone();
                        proof {
                            text::views_push(out@, copy);
                        }
                        out.push(copy);
                    },
                    _ => {},
                }
                i = i + 1;
            }
            assert(all.take(i as int) == all);
        },
        None => {
            assert(items_of(shown(v)) =~= Seq::<JsonView>::empty());
        },
    }
    out
}

/// The texts of an array that holds strings alone.
pub open spec fn all_texts(v: JsonView) -> Option<Seq<Seq<char>>> {
    match v {
        JsonView::Array(s) => if texts_among(s).len() == s.len() {
            Some(texts_among(s))
        } else {
            None
        },
        _ => None,
    }
}

pub fn only_texts(v: &Json) -> (r: Option<Vec<String>>)
    ensures
        match r {
            Some(t) => all_texts(v@) == Some(text::views(t@)),
            None => all_texts(v@) is None,
        },
{
    match v {
        Json::Array(a) => {
            let t = texts(Some(v));
            proof {
                trees_index(a@);
                assert(text::views(t@).len() == t@.len());
            }
            if t.len() == a.len() {
                Some(t)
            } else {
                None
            }
        },
        _ => None,
    }
}

// ---------------------------------------------------------------------------
// Numbers and first elements

/// A whole number without sign.
pub open spec fn natural(v: Option<JsonView>) -> Option<int> {
    match v {
        Some(JsonView::Int(n)) => if 0 <= n <= u64::MAX {
            Some(n)
        } else {
            None
        },
        _ => None,
    }
}

pub fn natural_value(v: Option<&Json>) -> (r: Option<u64>)
    ensures
        match r {
            Some(n) => natural(shown(v)) == Some(n as int),
            None => natural(shown(v)) is None,
        },
{
    match v {
        Some(Json::Int(n)) => if 0 <= *n && *n <= (u64::MAX as i128) {
            Some(*n as u64)
        } else {
            None
        },
        _ => None,
    }
}

/// A number as text; a whole number where it fits 64 bits, with or without sign.
pub open spec fn number_text(v: Option<JsonView>) -> Option<Seq<char>> {
    match v {
        Some(JsonView::Int(n)) => if i64::MIN <= n <= u64::MAX {
            Some(text::decimal_int(n))
        } else {
            None
        },
        Some(JsonView::Real(s)) => Some(s),
        _ => None,
    }
}

/// The text of a number.
pub fn number_value(v: Option<&Json>) -> (r: Option<String>)
    ensures
        text::view_opt(r) == number_text(shown(v)),
{
    match v {
        Some(Json::Int(n)) => if *n < (i64::MIN as i128) || *n > (u64::MAX as i128) {
            None
        } else if *n < 0 {
            Some(text::format_int(*n as i64))
        } else {
            Some(text::format_nat(*n as u64))
        },
        Some(Json::Real(s)) => Some(s.clone()),
        _ => None,
    }
}

/// The first element of an optional array.
pub fn first_item<'a>(v: Option<&'a Json>) -> (r: Option<&'a Json>)
    ensures
        shown(r) == if items_of(shown(v)).len() == 0 {
            None
        } else {
            Some(items_of(shown(v))[0])
        },
{
    match items(v) {
        Some(a) => {
            proof {
                trees_index(a@);
            }
            if a.len() == 0 {
                None
            } else {
                Some(&a[0])
            }
        },
        None => None,
    }
}

/// A text that may be missing or null, `None` where it is something else.
pub open spec fn optional_text(v: Option<JsonView>) -> Option<Option<Seq<char>>> {
    match v {
        None => Some(None),
        Some(JsonView::Null) => Some(None),
        Some(JsonView::Str(s)) => Some(Some(s)),
        Some(_) => None,
    }
}

pub fn optional_string(v: Option<&Json>) -> (r: Option<Option<String>>)
    ensures
        match r {
            Some(t) => optional_text(shown(v)) == Some(text::view_opt(t)),
            None => optional_text(shown(v)) is None,
        },
{
    match v {
        None => Some(None),
        Some(Json::Null) => Some(None),
        Some(Json::Str(s)) => Some(Some(s.clone())),
        Some(_) => None,
    }
}

/// A count as a value.
pub fn count(n: usize) -> (r: Json)
    ensures
        r@ == JsonView::Int(n as int),
{
    Json::Int(n as i128)
}

/// A text that may be missing, as a value.
pub open spec fn text_or_null(s: Option<Seq<char>>) -> JsonView {
    match s {
        Some(t) => JsonView::Str(t),
        None => JsonView::Null,
    }
}

pub fn nullable(s: Option<&str>) -> (r: Json)
    ensures
        r@ == text_or_null(
            match s {
                Some(t) => Some(t@),
                None => None,
            },
        ),
{
    match s {
        Some(t) => string(t),
        None => Json::Null,
    }
}

/// A list of one value.
pub fn one(value: Json) -> (r: Json)
    ensures
        r@ == JsonView::Array(seq![value@]),
{
    let mut v: Vec<Json> = Vec::new();
    append(&mut v, value);
    assert(trees(v@) =~= seq![value@]);
    Json::Array(v)
}

// ---------------------------------------------------------------------------
// Writing documents

/// The two values say the same: the same scalars, elements that say the same one by one, and
/// members of the same names that say the same, in whatever order.
pub open spec fn alike(a: JsonView, b: JsonView) -> bool
    decreases a,
{
    match (a, b) {
        (JsonView::Array(x), JsonView::Array(y)) => {
            &&& x.len() == y.len()
            &&& forall|i: int| 0 <= i < x.len() ==> alike(#[trigger] x[i], y[i])
        },
        (JsonView::Object(m), JsonView::Object(n)) => {
            &&& forall|k: Seq<char>|
                (#[trigger] member_from(n, k, 0) is Some) == (member_from(m, k, 0) is Some)
            &&& forall|i: int|
                #![trigger m[i]]
                0 <= i < m.len() ==> alike(m[i].1, member_from(n, m[i].0, 0)->0)
        },
        _ => a == b,
    }
}

/// No two members of an object have the same name.
pub open spec fn distinct_names(m: Seq<(Seq<char>, JsonView)>) -> bool {
    forall|i: int, j: int| 0 <= i < j < m.len() ==> #[trigger] m[i].0 != #[trigger] m[j].0
}

/// A value that is written and read without loss: its numbers are whole and fit 64 bits, the
/// members of its objects have names of their own, and it is at most `depth` lists and objects
/// deep.
pub open spec fn plain(v: JsonView, depth: nat) -> bool
    decreases depth,
{
    match v {
        JsonView::Int(n) => i64::MIN <= n <= u64::MAX,
        JsonView::Real(_) => false,
        JsonView::Array(x) => {
            &&& depth > 0
            &&& forall|i: int| 0 <= i < x.len() ==> plain(#[trigger] x[i], (depth - 1) as nat)
        },
        JsonView::Object(m) => {
            &&& depth > 0
            &&& distinct_names(m)
            &&& forall|i: int|
                #![trigger m[i]]
                0 <= i < m.len() ==> plain(m[i].1, (depth - 1) as nat)
        },
        _ => true,
    }
}

/// The tree of the `serde_json::Value` that is made of a tree: `serde_json::Map` keeps the
/// members of an object in the order of their names.
pub uninterp spec fn as_value(v: JsonView) -> JsonView;

/// The text that `serde_json` writes for the `Value` of a tree.
pub uninterp spec fn printed(v: JsonView) -> Seq<char>;

/// The `serde_json::Value` with the same variants: whole numbers by `Number::from_i128`, other
/// numbers by reading their text, members collected into a `serde_json::Map`. Of a plain value
/// nothing is lost but the order of members.
#[verifier::external_body]
fn value_of(j: &Json) -> (r: Value)
    ensures
        value_tree(r) == as_value(j@),
        plain(j@, 100) ==> plain(value_tree(r), 100) && alike(j@, value_tree(r)),
{
    match j {
        Json::Null => Value::Null,
        Json::Bool(b) => Value::Bool(*b),
        Json::Int(n) => serde_json::Number::from_i128(*n).map_or(Value::Null, Value::Number),
        Json::Real(s) => serde_json::from_str::<Value>(s).unwrap_or(Value::Null),
        Json::Str(s) => Value::String(s.clone()),
        Json::Array(a) => Value::Array(a.iter().map(value_of).collect()),
        Json::Object(o) => Value::Object(o.iter().map(|(k, x)| (k.clone(), value_of(x))).collect()),
    }
}

/// `Value::to_string`: the compact text of the value. What was written of a plain value is read
/// back by `serde_json::from_str` as it was.
#[verifier::external_body]
fn print_value(v: &Value) -> (r: String)
    ensures
        r@ == printed(value_tree(*v)),
        plain(value_tree(*v), 100) ==> document(r@) == Some(value_tree(*v)),
{
    v.to_string()
}

/// The text of a document.
pub open spec fn written(v: JsonView) -> Seq<char> {
    printed(as_value(v))
}

/// The text of a document. What was written of a plain one is read back as it was, but for the order
/// of members.
pub fn print(j: &Json) -> (r: String)
    ensures
        r@ == written(j@),
        plain(j@, 100) ==> document(r@) is Some && alike(j@, document(r@)->0),
{
    let v = value_of(j);
    print_value(&v)
}

/// Where the first member of that name stands.
proof fn member_stands(m: Seq<(Seq<char>, JsonView)>, key: Seq<char>, i: int) -> (k: int)
    requires
        0 <= i,
        member_from(m, key, i) is Some,
    ensures
        i <= k < m.len(),
        m[k].0 == key,
        member_from(m, key, i) == Some(m[k].1),
    decreases m.len() - i,
{
    if m[i].0 == key {
        i
    } else {
        member_stands(m, key, i + 1)
    }
}

/// Values that say the same have members that say the same.
pub proof fn alike_members(a: JsonView, b: JsonView, key: Seq<char>)
    requires
        alike(a, b),
    ensures
        match (member(a, key), member(b, key)) {
            (Some(x), Some(y)) => alike(x, y),
            (None, None) => true,
            _ => false,
        },
        string_of(member(a, key)) == string_of(member(b, key)),
        int_of(member(a, key)) == int_of(member(b, key)),
        bool_of(member(a, key)) == bool_of(member(b, key)),
        optional_text(member(a, key)) == optional_text(member(b, key)),
{
    match (a, b) {
        (JsonView::Object(m), JsonView::Object(n)) => {
            assert((member_from(n, key, 0) is Some) == (member_from(m, key, 0) is Some));
            if member_from(m, key, 0) is Some {
                let k = member_stands(m, key, 0);
                assert(alike(m[k].1, member_from(n, m[k].0, 0)->0));
            }
        },
        _ => {},
    }
}

/// Records that say the same have fields that say the same.
pub proof fn alike_slots(
    a: JsonView,
    b: JsonView,
    key: Seq<char>,
    at: int,
    least: int,
    most: int,
)
    requires
        alike(a, b),
    ensures
        ({
            let x = slot(a, key, at, least, most);
            let y = slot(b, key, at, least, most);
            &&& match (x, y) {
                (Some(v), Some(w)) => alike(v, w),
                (None, None) => true,
                _ => false,
            }
            &&& string_of(x) == string_of(y)
            &&& int_of(x) == int_of(y)
            &&& bool_of(x) == bool_of(y)
            &&& optional_text(x) == optional_text(y)
        }),
{
    alike_members(a, b, key);
    match (a, b) {
        (JsonView::Array(x), JsonView::Array(y)) => {
            if 0 <= at < x.len() {
                assert(alike(x[at], y[at]));
            }
        },
        _ => {},
    }
}

/// What is plain within one depth is plain within a larger one.
pub proof fn plain_deeper(v: JsonView, depth: nat, more: nat)
    requires
        plain(v, depth),
        depth <= more,
    ensures
        plain(v, more),
    decreases depth,
{
    match v {
        JsonView::Array(x) => {
            assert forall|i: int| 0 <= i < x.len() implies plain(
                #[trigger] x[i],
                (more - 1) as nat,
            ) by {
                plain_deeper(x[i], (depth - 1) as nat, (more - 1) as nat);
            }
        },
        JsonView::Object(m) => {
            assert forall|i: int| #![trigger m[i]] 0 <= i < m.len() implies plain(
                m[i].1,
                (more - 1) as nat,
            ) by {
                plain_deeper(m[i].1, (depth - 1) as nat, (more - 1) as nat);
            }
        },
        _ => {},
    }
}

/// The members after one of them was replaced.
pub proof fn members_update(s: Seq<(String, Json)>, i: int, e: (String, Json))
    requires
        0 <= i < s.len(),
    ensures
        members(s.update(i, e)) == members(s).update(i, (e.0@, tree(e.1))),
{
    let t = s.update(i, e);
    members_index(s);
    members_index(t);
    assert forall|k: int| 0 <= k < t.len() implies members(t)[k] == #[trigger] members(s).update(
        i,
        (e.0@, tree(e.1)),
    )[k] by {
        assert(members(t)[k] == (t[k].0@, tree(t[k].1)));
        assert(members(s)[k] == (s[k].0@, tree(s[k].1)));
    }
    assert(members(t) =~= members(s).update(i, (e.0@, tree(e.1))));
}

} // verus!
