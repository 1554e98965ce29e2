//! Typed configuration.
//!
//! The host stores the configuration as a flat map from key to text. `Config::from_map` reads
//! such a map into a typed structure; a key that is absent or unreadable leaves its default.

use crate::fraction;
use crate::fraction::Fraction;
use crate::json;
use crate::json::{Json, JsonView};
use crate::text;
use vstd::prelude::*;

verus! {

#[derive(Debug, Clone, Copy, PartialEq, Eq, Structural)]
pub enum Mode {
    DryRun,
    Apply,
}

#[derive(Debug, Clone, Copy, PartialEq, Eq, Structural)]
pub enum AcoustIdMode {
    Disabled,
    Lookup,
    Fingerprint,
}

/// How much skip-heavy (low-star) content may appear in queued song lists.
#[derive(Debug, Clone, Copy, PartialEq, Eq, Structural)]
pub enum SkipContentMode {
    /// Keep every track (no limiting beyond re-sorting by weight).
    Unlimited,
    /// Drop skip-heavy tracks from queues entirely.
    Exclude,
    /// Allow up to a third of the queue to be skip-heavy.
    Third,
    /// Allow a bit less than half (default).
    LessThanHalf,
    /// Allow up to half of the queue to be skip-heavy.
    Half,
}

impl Default for SkipContentMode {
    fn default() -> (r: Self)
        ensures
            r == SkipContentMode::LessThanHalf,
    {
        SkipContentMode::LessThanHalf
    }
}

/// The mode that a text names, in any case and with surrounding white space; an unknown name is
/// the default mode.
pub open spec fn skip_mode_named(s: Seq<char>) -> SkipContentMode {
    let v = text::lowered(text::trimmed(s));
    if v == "none"@ || v == "off"@ || v == "disabled"@ || v == ""@ {
        SkipContentMode::Unlimited
    } else if v == "exclude"@ || v == "excluded"@ || v == "drop"@ {
        SkipContentMode::Exclude
    } else if v == "third"@ || v == "1/3"@ {
        SkipContentMode::Third
    } else if v == "half"@ || v == "1/2"@ {
        SkipContentMode::Half
    } else {
        SkipContentMode::LessThanHalf
    }
}

impl SkipContentMode {
    /// The name of a mode.
    pub open spec fn name(self) -> Seq<char> {
        match self {
            SkipContentMode::Unlimited => "none"@,
            SkipContentMode::Exclude => "exclude"@,
            SkipContentMode::Third => "third"@,
            SkipContentMode::LessThanHalf => "lessThanHalf"@,
            SkipContentMode::Half => "half"@,
        }
    }

    pub fn as_str(self) -> (r: &'static str)
        ensures
            r@ == self.name(),
    {
        match self {
            SkipContentMode::Unlimited => "none",
            SkipContentMode::Exclude => "exclude",
            SkipContentMode::Third => "third",
            SkipContentMode::LessThanHalf => "lessThanHalf",
            SkipContentMode::Half => "half",
        }
    }

    pub fn parse(s: &str) -> (r: SkipContentMode)
        ensures
            r == skip_mode_named(s@),
    {
        let t = text::trim(s);
        let low = text::lower(t.as_str());
        let v = low.as_str();
        if text::same(v, "none") || text::same(v, "off") || text::same(v, "disabled")
            || text::same(v, "") {
            SkipContentMode::Unlimited
        } else if text::same(v, "exclude") || text::same(v, "excluded") || text::same(v, "drop") {
            SkipContentMode::Exclude
        } else if text::same(v, "third") || text::same(v, "1/3") {
            SkipContentMode::Third
        } else if text::same(v, "half") || text::same(v, "1/2") {
            SkipContentMode::Half
        } else {
            SkipContentMode::LessThanHalf
        }
    }

    /// The largest fraction of a queued list that may be skip-heavy; `None` for no limit.
    pub fn fraction(self) -> (r: Option<Fraction>)
        ensures
            r == match self {
                SkipContentMode::Unlimited => None::<Fraction>,
                SkipContentMode::Exclude => Some(Fraction { num: 0, den: 1 }),
                SkipContentMode::Third => Some(Fraction { num: 1, den: 3 }),
                SkipContentMode::LessThanHalf => Some(Fraction { num: 2, den: 5 }),
                SkipContentMode::Half => Some(Fraction { num: 1, den: 2 }),
            },
    {
        match self {
            SkipContentMode::Unlimited => None,
            SkipContentMode::Exclude => Some(Fraction { num: 0, den: 1 }),
            SkipContentMode::Third => Some(Fraction { num: 1, den: 3 }),
            SkipContentMode::LessThanHalf => Some(Fraction { num: 2, den: 5 }),
            SkipContentMode::Half => Some(Fraction { num: 1, den: 2 }),
        }
    }
}

#[derive(Debug, Clone, Copy, PartialEq, Eq, Structural)]
pub enum PrimarySource {
    Lidarr,
    MusicBrainz,
    Itunes,
}

#[derive(Debug, Clone, Copy, PartialEq, Eq, Structural)]
pub enum LidarrMode {
    Disabled,
    MetadataOnly,
    MetadataPlusRescan,
}

// ---------------------------------------------------------------------------
// The raw settings

/// The settings as stored: texts under keys, the latest value of a key counts.
#[derive(Debug)]
pub struct Settings {
    pub entries: Vec<(String, String)>,
}

/// The map that a list of entries stands for.
pub open spec fn entries_map(e: Seq<(String, String)>) -> Map<Seq<char>, Seq<char>>
    decreases e.len(),
{
    if e.len() == 0 {
        Map::empty()
    } else {
        entries_map(e.drop_last()).insert(e.last().0@, e.last().1@)
    }
}

impl View for Settings {
    type V = Map<Seq<char>, Seq<char>>;

    open spec fn view(&self) -> Map<Seq<char>, Seq<char>> {
        entries_map(self.entries@)
    }
}

pub open spec fn text_setting(m: Map<Seq<char>, Seq<char>>, key: Seq<char>, d: Seq<char>) -> Seq<
    char,
> {
    if m.contains_key(key) {
        m[key]
    } else {
        d
    }
}

pub open spec fn trimmed_setting(m: Map<Seq<char>, Seq<char>>, key: Seq<char>, d: Seq<char>) -> Seq<
    char,
> {
    if m.contains_key(key) {
        text::trimmed(m[key])
    } else {
        d
    }
}

/// A trimmed text; the default also where nothing is left of it.
pub open spec fn filled_setting(m: Map<Seq<char>, Seq<char>>, key: Seq<char>, d: Seq<char>) -> Seq<
    char,
> {
    if m.contains_key(key) && text::trimmed(m[key]).len() > 0 {
        text::trimmed(m[key])
    } else {
        d
    }
}

/// `true`, `1` and `yes` switch on; `false`, `0` and `no` switch off; all else is the default.
pub open spec fn flag_setting(m: Map<Seq<char>, Seq<char>>, key: Seq<char>, d: bool) -> bool {
    if m.contains_key(key) {
        let v = text::lowered(text::trimmed(m[key]));
        if v == "true"@ || v == "1"@ || v == "yes"@ {
            true
        } else if v == "false"@ || v == "0"@ || v == "no"@ {
            false
        } else {
            d
        }
    } else {
        d
    }
}

/// A whole number between `lo` and `hi`.
pub open spec fn int_setting(
    m: Map<Seq<char>, Seq<char>>,
    key: Seq<char>,
    lo: int,
    hi: int,
    d: int,
) -> int {
    if m.contains_key(key) {
        match text::parsed_int(text::trimmed(m[key]), lo, hi) {
            Some(n) => n,
            None => d,
        }
    } else {
        d
    }
}

/// The text of a floating-point number.
pub open spec fn decimal_setting(m: Map<Seq<char>, Seq<char>>, key: Seq<char>, d: Seq<char>) -> Seq<
    char,
> {
    if m.contains_key(key) && fraction::float_literal(text::trimmed(m[key])) {
        text::trimmed(m[key])
    } else {
        d
    }
}

/// The text of a floating-point number that lies, by its exact value, between two whole numbers;
/// the default for every other text, `inf` and `nan` among them.
pub open spec fn decimal_setting_between(
    m: Map<Seq<char>, Seq<char>>,
    key: Seq<char>,
    d: Seq<char>,
    lo: int,
    hi: int,
) -> Seq<char> {
    if m.contains_key(key) && fraction::literal_within(text::trimmed(m[key]), lo, hi) {
        text::trimmed(m[key])
    } else {
        d
    }
}

impl Settings {
    pub fn new() -> (r: Settings)
        ensures
            r@ == Map::<Seq<char>, Seq<char>>::empty(),
    {
        Settings { entries: Vec::new() }
    }

    pub fn insert(&mut self, key: String, value: String)
        ensures
            final(self)@ == old(self)@.insert(key@, value@),
    {
        let ghost before = self.entries@;
        self.entries.push((key, value));
        assert(self.entries@.drop_last() == before);
    }

    /// The value of a key.
    pub fn get(&self, key: &str) -> (r: Option<&String>)
        ensures
            match r {
                Some(v) => self@.contains_key(key@) && v@ == self@[key@],
                None => !self@.contains_key(key@),
            },
    {
        let mut i: usize = self.entries.len();
        assert(self.entries@.take(i as int) == self.entries@);
        while i > 0
            invariant
                i <= self.entries@.len(),
                self@.contains_key(key@) == entries_map(self.entries@.take(i as int)).contains_key(
                    key@,
                ),
                self@.contains_key(key@) ==> self@[key@] == entries_map(
                    self.entries@.take(i as int),
                )[key@],
            decreases i,
        {
            proof {
                let e = self.entries@.take(i as int);
                assert(e.drop_last() == self.entries@.take(i - 1));
                assert(e.last() == self.entries@[i - 1]);
            }
            if text::same(self.entries[i - 1].0.as_str(), key) {
                return Some(&self.entries[i - 1].1);
            }
            i = i - 1;
        }
        None
    }

    pub fn text(&self, key: &str, d: &str) -> (r: String)
        ensures
            r@ == text_setting(self@, key@, d@),
    {
        match self.get(key) {
            Some(v) => v.clone(),
            None => text::copy(d),
        }
    }

    pub fn trimmed(&self, key: &str, d: &str) -> (r: String)
        ensures
            r@ == trimmed_setting(self@, key@, d@),
    {
        match self.get(key) {
            Some(v) => text::trim(v.as_str()),
            None => text::copy(d),
        }
    }

    pub fn filled(&self, key: &str, d: &str) -> (r: String)
        ensures
            r@ == filled_setting(self@, key@, d@),
    {
        match self.get(key) {
            Some(v) => {
                let t = text::trim(v.as_str());
                if text::length(t.as_str()) > 0 {
                    t
                } else {
                    text::copy(d)
                }
            },
            None => text::copy(d),
        }
    }

    pub fn flag(&self, key: &str, d: bool) -> (r: bool)
        ensures
            r == flag_setting(self@, key@, d),
    {
        match self.get(key) {
            Some(s) => {
                let t = text::trim(s.as_str());
                let low = text::lower(t.as_str());
                let v = low.as_str();
                if text::same(v, "true") || text::same(v, "1") || text::same(v, "yes") {
                    true
                } else if text::same(v, "false") || text::same(v, "0") || text::same(v, "no") {
                    false
                } else {
                    d
                }
            },
            None => d,
        }
    }

    pub fn size(&self, key: &str, d: usize) -> (r: usize)
        ensures
            r == int_setting(self@, key@, 0, usize::MAX as int, d as int),
    {
        match self.get(key) {
            Some(v) => {
                let t = text::trim(v.as_str());
                match text::parse_nat(t.as_str(), usize::MAX as u64) {
                    Some(n) => n as usize,
                    None => d,
                }
            },
            None => d,
        }
    }

    pub fn port(&self, key: &str, d: u16) -> (r: u16)
        ensures
            r == int_setting(self@, key@, 0, 65535, d as int),
    {
        match self.get(key) {
            Some(v) => {
                let t = text::trim(v.as_str());
                match text::parse_nat(t.as_str(), 65535) {
                    Some(n) => n as u16,
                    None => d,
                }
            },
            None => d,
        }
    }

    pub fn int32(&self, key: &str, d: i32) -> (r: i32)
        ensures
            r == int_setting(self@, key@, i32::MIN as int, i32::MAX as int, d as int),
    {
        match self.get(key) {
            Some(v) => {
                let t = text::trim(v.as_str());
                match text::parse_int(t.as_str(), i32::MIN as i64, i32::MAX as i64) {
                    Some(n) => n as i32,
                    None => d,
                }
            },
            None => d,
        }
    }

    pub fn decimal(&self, key: &str, d: &str) -> (r: String)
        ensures
            r@ == decimal_setting(self@, key@, d@),
    {
        match self.get(key) {
            Some(v) => {
                let t = text::trim(v.as_str());
                if fraction::is_float_literal(t.as_str()) {
                    t
                } else {
                    text::copy(d)
                }
            },
            None => text::copy(d),
        }
    }

    pub fn decimal_between(&self, key: &str, d: &str, lo: i32, hi: i32) -> (r: String)
        ensures
            r@ == decimal_setting_between(self@, key@, d@, lo as int, hi as int),
    {
        match self.get(key) {
            Some(v) => {
                let t = text::trim(v.as_str());
                if fraction::lies_within(t.as_str(), lo, hi) {
                    t
                } else {
                    text::copy(d)
                }
            },
            None => text::copy(d),
        }
    }
}

// ---------------------------------------------------------------------------
// Lists in one setting

/// Whether every element is a string.
pub open spec fn all_strings(items: Seq<JsonView>) -> bool {
    forall|i: int| 0 <= i < items.len() ==> (#[trigger] items[i]) is Str
}

/// The trimmed texts, without those of which nothing is left.
pub open spec fn filled_texts(v: Seq<Seq<char>>) -> Seq<Seq<char>>
    decreases v.len(),
{
    if v.len() == 0 {
        Seq::empty()
    } else {
        let before = filled_texts(v.drop_last());
        let t = text::trimmed(v.last());
        if t.len() == 0 {
            before
        } else {
            before.push(t)
        }
    }
}

/// The texts of string elements.
pub open spec fn element_texts(items: Seq<JsonView>) -> Seq<Seq<char>> {
    Seq::new(items.len(), |i: int| json::text_or_empty(Some(items[i])))
}

/// The list in the trimmed text `t`, where `doc` is what `t` reads as in JSON: the elements of
/// an array of strings, or else the parts between commas.
pub open spec fn string_list(t: Seq<char>, doc: Option<JsonView>) -> Seq<Seq<char>> {
    match doc {
        Some(JsonView::Array(items)) => if all_strings(items) {
            filled_texts(element_texts(items))
        } else {
            filled_texts(text::split_by(t, text::among(","@)))
        },
        _ => filled_texts(text::split_by(t, text::among(","@))),
    }
}

pub open spec fn view_doc(doc: Option<Json>) -> Option<JsonView> {
    match doc {
        Some(j) => Some(j@),
        None => None,
    }
}

/// Trims the texts and leaves out those of which nothing is left.
pub fn fill_texts(v: &Vec<String>) -> (r: Vec<String>)
    ensures
        text::views(r@) == filled_texts(text::views(v@)),
{
    let mut out: Vec<String> = Vec::new();
    let mut i: usize = 0;
    while i < v.len()
        invariant
            i <= v@.len(),
            text::views(out@) == filled_texts(text::views(v@).take(i as int)),
        decreases v@.len() - i,
    {
        proof {
            assert(text::views(v@).take(i + 1).drop_last() == text::views(v@).take(i as int));
            assert(text::views(v@).take(i + 1).last() == v@[i as int]@);
        }
        let t = text::trim(v[i].as_str());
        if text::length(t.as_str()) > 0 {
            proof {
                text::views_push(out@, t);
            }
            out.push(t);
        }
        i = i + 1;
    }
    assert(text::views(v@).take(i as int) == text::views(v@));
    out
}

/// The string list in a trimmed text, given what it reads as in JSON.
pub fn string_list_from(t: &str, doc: &Option<Json>) -> (r: Vec<String>)
    ensures
        text::views(r@) == string_list(t@, view_doc(*doc)),
{
    if let Some(Json::Array(items)) = doc {
        let mut texts: Vec<String> = Vec::new();
        let mut strings: bool = true;
        let mut i: usize = 0;
        let ghost views = json::trees(items@);
        proof {
            json::trees_index(items@);
        }
        while i < items.len()
            invariant
                i <= items@.len(),
                views == json::trees(items@),
                views.len() == items@.len(),
                forall|k: int| 0 <= k < items@.len() ==> views[k] == json::tree(#[trigger] items@[k]),
                strings == (forall|k: int| 0 <= k < i ==> (#[trigger] views[k]) is Str),
                text::views(texts@) == element_texts(views).take(i as int),
            decreases items@.len() - i,
        {
            let item = &items[i];
            assert(views[i as int] == json::tree(items@[i as int]));
            match item {
                Json::Str(_) => {},
                _ => {
                    strings = false;
                },
            }
            let s = json::str_or_empty(Some(item));
            proof {
                text::views_push(texts@, s);
                assert(element_texts(views).take(i + 1) == element_texts(views).take(i as int).push(
                    s@,
                ));
            }
            texts.push(s);
            i = i + 1;
        }
        assert(element_texts(views).take(i as int) == element_texts(views));
        if strings {
            return fill_texts(&texts);
        }
    }
    let parts = text::split(t, ",");
    fill_texts(&parts)
}

/// Reads a string list that is a JSON array (`["a","b"]`) or separated by commas (`a, b`).
pub fn parse_string_list(v: &str) -> (r: Vec<String>)
    ensures
        text::views(r@) == if text::trimmed(v@).len() == 0 {
            Seq::empty()
        } else {
            string_list(text::trimmed(v@), json::document(text::trimmed(v@)))
        },
{
    let t = text::trim(v);
    if text::length(t.as_str()) == 0 {
        let empty: Vec<String> = Vec::new();
        assert(text::views(empty@) == Seq::<Seq<char>>::empty());
        return empty;
    }
    let doc = json::parse(t.as_str());
    string_list_from(t.as_str(), &doc)
}

/// The number of a list element: a whole number, or a string that holds one.
pub open spec fn element_number(v: JsonView) -> Option<int> {
    match v {
        JsonView::Int(n) => json::int_of(Some(v)),
        JsonView::Str(s) => text::parsed_int(text::trimmed(s), i64::MIN as int, i64::MAX as int),
        _ => None,
    }
}

/// The positive numbers of a JSON list, each cut to 32 bits.
pub open spec fn element_ids(items: Seq<JsonView>) -> Seq<i32>
    decreases items.len(),
{
    if items.len() == 0 {
        Seq::empty()
    } else {
        let before = element_ids(items.drop_last());
        match element_number(items.last()) {
            Some(n) => if n > 0 {
                before.push((n as i64) as i32)
            } else {
                before
            },
            None => before,
        }
    }
}

/// The positive 32-bit numbers among texts.
pub open spec fn text_ids(v: Seq<Seq<char>>) -> Seq<i32>
    decreases v.len(),
{
    if v.len() == 0 {
        Seq::empty()
    } else {
        let before = text_ids(v.drop_last());
        match text::parsed_int(text::trimmed(v.last()), i32::MIN as int, i32::MAX as int) {
            Some(n) => if n > 0 {
                before.push(n as i32)
            } else {
                before
            },
            None => before,
        }
    }
}

/// The library ids in the trimmed text `t`, where `doc` is what `t` reads as in JSON.
pub open spec fn library_list(t: Seq<char>, doc: Option<JsonView>) -> Seq<i32> {
    match doc {
        Some(JsonView::Array(items)) => element_ids(items),
        _ => text_ids(text::split_by(t, text::among(","@))),
    }
}

fn number_of_element(item: &Json) -> (r: Option<i64>)
    ensures
        match r {
            Some(n) => element_number(item@) == Some(n as int),
            None => element_number(item@) is None,
        },
{
    match item {
        Json::Int(_) => json::int_value(Some(item)),
        Json::Str(s) => {
            let t = text::trim(s.as_str());
            text::parse_int(t.as_str(), i64::MIN, i64::MAX)
        },
        _ => None,
    }
}

/// The library ids in a trimmed text, given what it reads as in JSON.
pub fn library_list_from(t: &str, doc: &Option<Json>) -> (r: Vec<i32>)
    ensures
        r@ == library_list(t@, view_doc(*doc)),
{
    let mut out: Vec<i32> = Vec::new();
    if let Some(Json::Array(items)) = doc {
        let mut i: usize = 0;
        let ghost views = json::trees(items@);
        proof {
            json::trees_index(items@);
        }
        while i < items.len()
            invariant
                i <= items@.len(),
                views == json::trees(items@),
                views.len() == items@.len(),
                forall|k: int| 0 <= k < items@.len() ==> views[k] == json::tree(#[trigger] items@[k]),
                out@ == element_ids(views.take(i as int)),
            decreases items@.len() - i,
        {
            proof {
                assert(views.take(i + 1).drop_last() == views.take(i as int));
                assert(views.take(i + 1).last() == json::tree(items@[i as int]));
            }
            match number_of_element(&items[i]) {
                Some(n) => {
                    if n > 0 {
                        out.push(
                            #[verifier::truncate]
                            (n as i32),
                        );
                    }
                },
                None => {},
            }
            i = i + 1;
        }
        assert(views.take(i as int) == views);
        return out;
    }
    let parts = text::split(t, ",");
    let mut i: usize = 0;
    while i < parts.len()
        invariant
            i <= parts@.len(),
            out@ == text_ids(text::views(parts@).take(i as int)),
        decreases parts@.len() - i,
    {
        proof {
            assert(text::views(parts@).take(i + 1).drop_last() == text::views(parts@).take(i as int));
            assert(text::views(parts@).take(i + 1).last() == parts@[i as int]@);
        }
        let p = text::trim(parts[i].as_str());
        match text::parse_int(p.as_str(), i32::MIN as i64, i32::MAX as i64) {
            Some(n) => {
                if n > 0 {
                    out.push(n as i32);
                }
            },
            None => {},
        }
        i = i + 1;
    }
    assert(text::views(parts@).take(i as int) == text::views(parts@));
    out
}

/// Reads library ids that are a JSON array (`[1,2]`), a comma list (`1, 2`) or a single number.
pub fn parse_library_list(v: &str) -> (r: Vec<i32>)
    ensures
        r@ == if text::trimmed(v@).len() == 0 {
            Seq::empty()
        } else {
            library_list(text::trimmed(v@), json::document(text::trimmed(v@)))
        },
{
    let t = text::trim(v);
    if text::length(t.as_str()) == 0 {
        return Vec::new();
    }
    let doc = json::parse(t.as_str());
    library_list_from(t.as_str(), &doc)
}

// ---------------------------------------------------------------------------
// The single settings that are more than a value

/// Only the exact word `apply` turns changes on.
pub open spec fn mode_of(m: Map<Seq<char>, Seq<char>>) -> Mode {
    if m.contains_key("mode"@) && m["mode"@] == "apply"@ {
        Mode::Apply
    } else {
        Mode::DryRun
    }
}

/// `libraries` counts before `libraryId`.
pub open spec fn libraries_of(m: Map<Seq<char>, Seq<char>>) -> Seq<i32> {
    let v = if m.contains_key("libraries"@) {
        m["libraries"@]
    } else if m.contains_key("libraryId"@) {
        m["libraryId"@]
    } else {
        Seq::empty()
    };
    let t = text::trimmed(v);
    if t.len() == 0 {
        Seq::empty()
    } else {
        library_list(t, json::document(t))
    }
}

pub open spec fn exclude_paths_of(m: Map<Seq<char>, Seq<char>>) -> Seq<Seq<char>> {
    let t = text::trimmed(
        if m.contains_key("excludePaths"@) {
            m["excludePaths"@]
        } else {
            Seq::empty()
        },
    );
    if t.len() == 0 {
        Seq::empty()
    } else {
        string_list(t, json::document(t))
    }
}

pub open spec fn skip_mode_of(m: Map<Seq<char>, Seq<char>>) -> SkipContentMode {
    if m.contains_key("skipContentMode"@) {
        skip_mode_named(m["skipContentMode"@])
    } else {
        SkipContentMode::LessThanHalf
    }
}

pub open spec fn acoustid_mode_of(m: Map<Seq<char>, Seq<char>>) -> AcoustIdMode {
    if m.contains_key("acoustidMode"@) && m["acoustidMode"@] == "disabled"@ {
        AcoustIdMode::Disabled
    } else if m.contains_key("acoustidMode"@) && m["acoustidMode"@] == "lookup"@ {
        AcoustIdMode::Lookup
    } else {
        AcoustIdMode::Fingerprint
    }
}

pub open spec fn primary_source_of(m: Map<Seq<char>, Seq<char>>) -> PrimarySource {
    if m.contains_key("primarySource"@) && m["primarySource"@] == "lidarr"@ {
        PrimarySource::Lidarr
    } else if m.contains_key("primarySource"@) && m["primarySource"@] == "itunes"@ {
        PrimarySource::Itunes
    } else {
        PrimarySource::MusicBrainz
    }
}

pub open spec fn lidarr_mode_of(m: Map<Seq<char>, Seq<char>>) -> LidarrMode {
    if m.contains_key("lidarrMode"@) && m["lidarrMode"@] == "metadataOnly"@ {
        LidarrMode::MetadataOnly
    } else if m.contains_key("lidarrMode"@) && m["lidarrMode"@] == "metadataPlusRescan"@ {
        LidarrMode::MetadataPlusRescan
    } else {
        LidarrMode::Disabled
    }
}

/// `album` or `track` in any case.
pub open spec fn replay_gain_mode_of(m: Map<Seq<char>, Seq<char>>) -> Seq<char> {
    if m.contains_key("replayGainMode"@) {
        replay_gain_mode_named(text::unicode_lowered(text::trimmed(m["replayGainMode"@])))
    } else {
        "track"@
    }
}

/// The scope that a lower-case word names; `track` for an unknown word.
pub open spec fn replay_gain_mode_named(word: Seq<char>) -> Seq<char> {
    if word == "album"@ {
        word
    } else {
        "track"@
    }
}

/// A number of days, a negative one taken as zero.
pub open spec fn trim_missing_days_of(m: Map<Seq<char>, Seq<char>>) -> int {
    let n = int_setting(m, "trimMissingDays"@, i64::MIN as int, i64::MAX as int, 0);
    if n < 0 {
        0
    } else {
        n
    }
}

fn read_mode(map: &Settings) -> (r: Mode)
    ensures
        r == mode_of(map@),
{
    match map.get("mode") {
        Some(v) => if text::same(v.as_str(), "apply") {
            Mode::Apply
        } else {
            Mode::DryRun
        },
        None => Mode::DryRun,
    }
}

fn read_libraries(map: &Settings) -> (r: Vec<i32>)
    ensures
        r@ == libraries_of(map@),
{
    match map.get("libraries") {
        Some(v) => parse_library_list(v.as_str()),
        None => match map.get("libraryId") {
            Some(v) => parse_library_list(v.as_str()),
            None => {
                assert(text::trimmed(Seq::<char>::empty()).len() == 0);
                Vec::new()
            },
        },
    }
}

fn read_exclude_paths(map: &Settings) -> (r: Vec<String>)
    ensures
        text::views(r@) == exclude_paths_of(map@),
{
    match map.get("excludePaths") {
        Some(v) => parse_string_list(v.as_str()),
        None => {
            let empty: Vec<String> = Vec::new();
            assert(text::trimmed(Seq::<char>::empty()).len() == 0);
            assert(text::views(empty@) == Seq::<Seq<char>>::empty());
            empty
        },
    }
}

fn read_skip_content_mode(map: &Settings) -> (r: SkipContentMode)
    ensures
        r == skip_mode_of(map@),
{
    match map.get("skipContentMode") {
        Some(v) => SkipContentMode::parse(v.as_str()),
        None => SkipContentMode::LessThanHalf,
    }
}

fn read_acoustid_mode(map: &Settings) -> (r: AcoustIdMode)
    ensures
        r == acoustid_mode_of(map@),
{
    match map.get("acoustidMode") {
        Some(v) => if text::same(v.as_str(), "disabled") {
            AcoustIdMode::Disabled
        } else if text::same(v.as_str(), "lookup") {
            AcoustIdMode::Lookup
        } else {
            AcoustIdMode::Fingerprint
        },
        None => AcoustIdMode::Fingerprint,
    }
}

fn read_primary_source(map: &Settings) -> (r: PrimarySource)
    ensures
        r == primary_source_of(map@),
{
    match map.get("primarySource") {
        Some(v) => if text::same(v.as_str(), "lidarr") {
            PrimarySource::Lidarr
        } else if text::same(v.as_str(), "itunes") {
            PrimarySource::Itunes
        } else {
            PrimarySource::MusicBrainz
        },
        None => PrimarySource::MusicBrainz,
    }
}

fn read_lidarr_mode(map: &Settings) -> (r: LidarrMode)
    ensures
        r == lidarr_mode_of(map@),
{
    match map.get("lidarrMode") {
        Some(v) => if text::same(v.as_str(), "metadataOnly") {
            LidarrMode::MetadataOnly
        } else if text::same(v.as_str(), "metadataPlusRescan") {
            LidarrMode::MetadataPlusRescan
        } else {
            LidarrMode::Disabled
        },
        None => LidarrMode::Disabled,
    }
}

/// The ReplayGain scope that a lower-case word names.
pub fn replay_gain_mode_from(word: &str) -> (r: String)
    ensures
        r@ == replay_gain_mode_named(word@),
{
    if text::same(word, "album") {
        text::copy(word)
    } else {
        text::copy("track")
    }
}

fn read_replay_gain_mode(map: &Settings) -> (r: String)
    ensures
        r@ == replay_gain_mode_of(map@),
{
    match map.get("replayGainMode") {
        Some(v) => {
            let t = text::trim(v.as_str());
            let word = text::unicode_lower(t.as_str());
            replay_gain_mode_from(word.as_str())
        },
        None => text::copy("track"),
    }
}

fn read_trim_missing_days(map: &Settings) -> (r: i64)
    ensures
        r == trim_missing_days_of(map@),
{
    match map.get("trimMissingDays") {
        Some(v) => {
            let t = text::trim(v.as_str());
            match text::parse_int(t.as_str(), i64::MIN, i64::MAX) {
                Some(n) => if n < 0 {
                    0
                } else {
                    n
                },
                None => 0,
            }
        },
        None => 0,
    }
}

// ---------------------------------------------------------------------------
// The configuration

#[derive(Debug, Clone, PartialEq)]
pub struct Config {

    // General
    pub mode: Mode,
    /// All libraries to organize. Empty = organize every library the plugin is
    /// granted access to (the Navidrome "Library Access" permission is the
    /// authority); non-empty = only these IDs (a subset override).
    pub libraries: Vec<i32>,
    /// Run once on plugin start. If schedule_cron is set it then also runs on
    /// that schedule; an empty cron makes this startup run the only automatic run.
    pub run_on_startup: bool,
    pub schedule_cron: String,
    pub max_albums_per_run: usize,
    /// Max directory entries a single pass scans before giving up (0 = unlimited).
    pub max_scan_entries: usize,
    /// Albums processed per background task (small batches keep the plugin lean).
    pub albums_per_task: usize,
    /// Files scanned (tags read) per scan task chunk.
    pub files_per_scan_task: usize,
    /// Only run when nothing is playing (player resources come first).
    pub run_only_when_idle: bool,

    // Favorites sync (Navidrome hub <-> Last.fm loved tracks)
    pub favorites_sync_lastfm: bool,
    pub favorites_sync_max: usize,
    /// When true, unstar in Navidrome propagates to unlove on Last.fm (and
    /// vice versa). When false, sync is additive-only (never removes).
    pub favorites_sync_bidirectional: bool,

    // Playback stats (plays/skips weighting + Top Picks playlist)
    pub playback_stats_enabled: bool,
    pub stats_poll_minutes: i32,
    pub top_picks_count: usize,
    pub skip_threshold_percent: i32,
    /// Drop filler-keyword tracks (fillerKeywords) from auto-queues via the
    /// Subsonic filter proxy. Explicit user searches still return them.
    pub keyword_filter_enabled: bool,
    /// How much skip-heavy (low-star) content may appear in queued lists:
    /// none / exclude / third / lessThanHalf / half. The proxy enforces it.
    pub skip_content_mode: SkipContentMode,
    /// A track is 'skip-heavy' (the type limited in queues) when after at least
    /// 3 interactions, skips make up this fraction or more of them AND the track
    /// is a net negative (skipped more times than ever fully played). Full plays
    /// forgive skips, so liking a song again brings it back automatically.
    /// Kept as the text of the number.
    pub skip_heavy_ratio: String,
    /// Base URL of the Subsonic filter proxy (e.g. http://nd-organizer-proxy:4534).
    pub filter_url: String,

    // Playback star rating + playcount (0-5.0 star system, half-star steps).
    /// Master switch for observing per-listen percentages and deriving a
    /// 0-5 star rating. The rating is kept in the plugin KVStore (MySQL-capable
    /// via persistenceBackend) and published to Navidrome's native rating
    /// (setRating) - never written to the audio file.
    pub star_tally_enabled: bool,
    /// Listen ended at/above this % of the track counts as a half star (0.5).
    pub star_half_play_percent: i32,
    /// Listen ended at/above this % counts as a full star (1.0) AND +1 playcount.
    pub star_full_play_percent: i32,
    /// Listen ended below this % is ignored entirely (no skip penalty) - a
    /// momentary tap that never really played shouldn't drag a rating down.
    pub star_ignore_percent: i32,
    /// Minimum total listens before a rating is published to Navidrome.
    pub star_min_samples: i32,
    /// Tracks rated at or above this star value are marked loved/favorite.
    /// Kept as the text of the number.
    pub loved_threshold_stars: String,
    /// Push plugin star ratings to Lidarr when publishing to Navidrome.
    /// Requires lidarrUrl + lidarrApiKey. Only works for tracked artists.
    pub rating_sync_write_to_lidarr: bool,
    /// Pull star ratings from Navidrome (setRating) into the plugin DB on
    /// startup. Useful when ratings were set manually in Navidrome's UI or
    /// another Subsonic client.
    pub rating_sync_pull_from_navidrome: bool,
    /// Scrobble full listens (>= starFullPlayPercent) to Last.fm so its
    /// playcount grows too. Keep OFF if Navidrome already scrobbles to
    /// Last.fm (double counting). Needs Last.fm auth (session key).
    pub lastfm_scrobble: bool,
    /// Scrobble full listens to ListenBrainz (MusicBrainz ecosystem). Keep
    /// OFF if Navidrome already scrobbles via ListenBrainz. Uses the same
    /// token as musicbrainzToken (MusicBrainz ecosystem, same account).
    pub listenbrainz_scrobble: bool,
    /// Seed a track's playcount baseline from Last.fm on first observation.
    pub lastfm_import_playcount: bool,
    /// When set, the next run pass rolls back that run's changes instead of
    /// organizing. Empty disables rollback.
    pub rollback_run_id: String,
    /// Optional URL to POST each run's report to (a hosted log: ntfy, Gotify,
    /// Discord webhook, Loki push endpoint, ...).
    pub log_webhook_url: String,
    /// Optional token sent as X-Token (and Authorization: Bearer) header.
    pub log_webhook_token: String,
    /// URL of the octo-fiesta Subsonic proxy, echoed in status POSTs so the
    /// webhook dashboard can probe its health. Empty = hide the octo card.
    pub octo_fiesta_url: String,
    /// Display label for octo-fiesta's provider (SquidWTF/Deezer/Qobuz/Yandex).
    pub octo_fiesta_provider: String,

    // Persistence backend. "host" = Navidrome-managed SQLite KVStore (default).
    // "mysql" = the plugin's KVStore state lives in the user's MySQL/MariaDB via
    // the mysql sidecar (persistenceUrl), with the connection details below.
    pub persistence_backend: String,
    pub persistence_url: String,
    pub mysql_host: String,
    pub mysql_port: u16,
    pub mysql_name: String,
    pub mysql_user: String,
    pub mysql_password: String,

    // Classification
    pub soundtrack_folder: String,
    pub various_folder: String,
    pub singles_folder: String,
    /// Nest soundtracks under the various-artist folder. Singles are governed by
    /// `singles_under_artist` (they go under the single's artist).
    pub nest_buckets_under_various: bool,
    pub incomplete_album_min_tracks: usize,
    pub classify_from_mb: bool,

    // Sidecar metadata (Kodi-style NFO)
    pub read_nfo: bool,
    pub write_nfo: bool,

    // Schemas
    pub folder_schema: String,
    pub file_schema: String,
    pub rename_sidecars: bool,
    pub illegal_char_replacement: String,
    pub max_name_length: usize,
    pub prune_empty_dirs: bool,
    /// Delete folders that contain no audio files at all (only images/nfo/lyrics
    /// or other misc files remain). Runs after organizing, apply mode only.
    pub cleanup_no_audio_folders: bool,
    /// Skip a run when a required external metadata source (AcoustID /
    /// MusicBrainz / Lidarr) is unreachable, retrying later instead of
    /// organizing on degraded metadata. Off = run best-effort anyway.
    pub meta_gate_enabled: bool,
    /// Fall back to parsing the filename ("01 - Artist - Title.flac") when a
    /// file has no usable embedded tags, so tagless files still get organized.
    pub parse_filenames: bool,
    /// Fetch the MusicBrainz release tracklist and fill a track's MISSING tag
    /// fields (title/artist/track/year/MBIDs) during a run. Apply mode only.
    pub auto_tag_from_mb: bool,
    /// Report files across the library that share an audio fingerprint
    /// (possible duplicates). Report-only - nothing is moved.
    pub detect_duplicates: bool,
    /// Write ReplayGain track gain/peak tags (REPLAYGAIN_TRACK_GAIN/PEAK) via
    /// the acoustid sidecar's ffmpeg loudness analysis. Apply mode only.
    pub write_replaygain: bool,
    /// ReplayGain scope: "track" writes only per-track tags; "album" also
    /// writes album-level tags (mean gain / max peak across the album).
    pub replay_gain_mode: String,
    /// ReplayGain reference loudness in LUFS (ReplayGain standard is -18).
    /// Kept as the text of the number.
    pub replay_gain_reference: String,
    /// Periodically purge Navidrome's "missing files" list (entries whose audio
    /// file is gone) via the native `DELETE /missing` API. 0 = disabled.
    pub trim_missing_days: i64,
    /// Admin username for the native Navidrome API (needed to delete missing
    /// files, which is admin-only). Falls back to scanUser.
    pub navidrome_admin_user: String,
    /// Admin password for the native Navidrome API (basic auth).
    pub navidrome_admin_password: String,
    pub skip_hidden_files: bool,
    pub preserve_recording_type: bool,
    pub singles_under_artist: bool,
    /// Route single-track and incomplete albums to the Singles folder. Off =
    /// they stay as normal albums in their own folder.
    pub singles_enabled: bool,
    /// Comma-separated keywords that mark a track as filler (intro/outro/...).
    /// Used to report filler tracks; the filter proxy drops them by title.
    pub filler_keywords: String,
    /// Path prefixes/globs under the library root that must never be touched.
    pub exclude_paths: Vec<String>,
    /// Snapshot previous tags (and original .nfo) to plugin storage before any
    /// tag/nfo write. Metadata-only, never copies audio bytes.
    pub backup_before_write: bool,
    /// Days to keep metadata backups before pruning. 0 = keep forever.
    pub backup_retention_days: i32,
    /// Days to keep rollback data (apply records + file/nfo backups) before
    /// pruning. 0 = keep forever. Old runs are removed so the DB doesn't grow
    /// without bound; recent runs stay restorable.
    pub rollback_retention_days: i32,

    // Identity verification
    pub verify_identity: bool,
    /// Kept as the text of the number.
    pub min_confidence: String,
    pub skip_unverified: bool,
    pub acoustid_mode: AcoustIdMode,
    pub acoustid_api_key: String,
    /// URL of the AcoustID fingerprint sidecar (Docker), e.g. http://nd-organizer-acoustid:8097
    pub acoustid_url: String,

    // Metadata sources
    pub primary_source: PrimarySource,
    pub musicbrainz_token: String,
    pub lastfm_api_key: String,
    pub lastfm_user: String,
    /// Last.fm API secret (write methods need an api_sig).
    pub lastfm_api_secret: String,
    /// Last.fm account password (used once to obtain a session key).
    pub lastfm_password: String,
    pub genre_from: String,
    pub overwrite_existing_tags: bool,
    pub write_playcount: bool,

    // Artwork
    pub embed_artwork: bool,
    pub write_cover_jpg: bool,
    pub overwrite_art: bool,
    pub artwork_priority: String,
    pub artwork_front: bool,
    pub artwork_back: bool,
    pub artwork_cd: bool,
    pub artwork_booklet: bool,

    // Lyrics
    pub download_lyrics: bool,
    pub lyrics_format: String,

    // Lidarr
    pub lidarr_url: String,
    pub lidarr_api_key: String,
    pub lidarr_mode: LidarrMode,
    pub write_tags_for_tracked: bool,
    pub lidarr_force_search_incomplete: bool,
    /// Use Lidarr's naming schema (from /config/naming) for folders/files
    /// instead of the plugin's folderSchema/fileSchema.
    pub use_lidarr_naming_schema: bool,

    // AudioMuse-AI
    pub audiomuse_url: String,
    pub audiomuse_token: String,
    /// URL of the Essentia genre/mood analysis sidecar (fallback when AudioMuse is unreachable).
    pub essentia_url: String,
    pub notify_audiomuse_after_run: bool,
    pub write_acoustic_tags: bool,

    // Scanning
    pub scan_user: String,
    pub trigger_scan_after_run: bool,
    pub scan_after_album: bool,
    pub scan_after_tag_write: bool,
    pub scan_debounce_seconds: i32,
}

impl Config {
    /// The settings of runs, favourites and listens.
    pub open spec fn reads_passes(&self, m: Map<Seq<char>, Seq<char>>) -> bool {
        &&& self.mode == mode_of(m)
        &&& self.libraries@ == libraries_of(m)
        &&& self.run_on_startup == flag_setting(m, "runOnStartup"@, false)
        &&& self.schedule_cron@ == text_setting(m, "scheduleCron"@, ""@)
        &&& self.max_albums_per_run == int_setting(m, "maxAlbumsPerRun"@, 0, usize::MAX as int, 100)
        &&& self.max_scan_entries == int_setting(m, "maxScanEntries"@, 0, usize::MAX as int, 0)
        &&& self.albums_per_task == int_setting(m, "albumsPerTask"@, 0, usize::MAX as int, 5)
        &&& self.files_per_scan_task == int_setting(m, "filesPerScanTask"@, 0, usize::MAX as int, 200)
        &&& self.run_only_when_idle == flag_setting(m, "runOnlyWhenIdle"@, true)
        &&& self.favorites_sync_lastfm == flag_setting(m, "favoritesSyncLastfm"@, false)
        &&& self.favorites_sync_max == int_setting(m, "favoritesSyncMax"@, 0, usize::MAX as int, 500)
        &&& self.favorites_sync_bidirectional == flag_setting(m, "favoritesSyncBidirectional"@, false)
        &&& self.playback_stats_enabled == flag_setting(m, "playbackStatsEnabled"@, false)
        &&& self.stats_poll_minutes == int_setting(m, "statsPollMinutes"@, i32::MIN as int, i32::MAX as int, 5)
        &&& self.top_picks_count == int_setting(m, "topPicksCount"@, 0, usize::MAX as int, 50)
        &&& self.skip_threshold_percent == int_setting(m, "skipThresholdPercent"@, i32::MIN as int, i32::MAX as int, 30)
        &&& self.keyword_filter_enabled == flag_setting(m, "keywordFilterEnabled"@, true)
        &&& self.skip_content_mode == skip_mode_of(m)
        &&& self.skip_heavy_ratio@ == decimal_setting(m, "skipHeavyRatio"@, "0.6"@)
        &&& self.filter_url@ == trimmed_setting(m, "filterUrl"@, "http://nd-organizer-proxy:4534"@)
        &&& self.star_tally_enabled == flag_setting(m, "starTallyEnabled"@, true)
        &&& self.star_half_play_percent == int_setting(m, "starHalfPlayPercent"@, i32::MIN as int, i32::MAX as int, 55)
        &&& self.star_full_play_percent == int_setting(m, "starFullPlayPercent"@, i32::MIN as int, i32::MAX as int, 85)
        &&& self.star_ignore_percent == int_setting(m, "starIgnorePercent"@, i32::MIN as int, i32::MAX as int, 5)
        &&& self.star_min_samples == int_setting(m, "starMinSamples"@, i32::MIN as int, i32::MAX as int, 3)
        &&& self.loved_threshold_stars@ == decimal_setting_between(m, "lovedThresholdStars"@, "3.0"@, 1, 5)
        &&& self.rating_sync_write_to_lidarr == flag_setting(m, "ratingSyncWriteToLidarr"@, false)
        &&& self.rating_sync_pull_from_navidrome == flag_setting(m, "ratingSyncPullFromNavidrome"@, false)
        &&& self.lastfm_scrobble == flag_setting(m, "lastfmScrobble"@, false)
        &&& self.listenbrainz_scrobble == flag_setting(m, "listenbrainzScrobble"@, false)
        &&& self.lastfm_import_playcount == flag_setting(m, "lastfmImportPlaycount"@, false)
    }

    /// The settings of reports, services and the store.
    pub open spec fn reads_storage(&self, m: Map<Seq<char>, Seq<char>>) -> bool {
        &&& self.rollback_run_id@ == text_setting(m, "rollbackRunId"@, ""@)
        &&& self.log_webhook_url@ == text_setting(m, "logWebhookUrl"@, "http://nd-organizer-webhook:8099"@)
        &&& self.log_webhook_token@ == text_setting(m, "logWebhookToken"@, ""@)
        &&& self.octo_fiesta_url@ == trimmed_setting(m, "octoFiestaUrl"@, "http://octo-fiesta:8080"@)
        &&& self.octo_fiesta_provider@ == filled_setting(m, "octoFiestaProvider"@, "SquidWTF"@)
        &&& self.persistence_backend@ == trimmed_setting(m, "persistenceBackend"@, "host"@)
        &&& self.persistence_url@ == trimmed_setting(m, "persistenceUrl"@, "http://nd-organizer-mysql:8098"@)
        &&& self.mysql_host@ == trimmed_setting(m, "mysqlHost"@, ""@)
        &&& self.mysql_port == int_setting(m, "mysqlPort"@, 0, 65535, 3306)
        &&& self.mysql_name@ == trimmed_setting(m, "mysqlName"@, ""@)
        &&& self.mysql_user@ == trimmed_setting(m, "mysqlUser"@, ""@)
        &&& self.mysql_password@ == text_setting(m, "mysqlPassword"@, ""@)
    }

    /// The settings of folders, files and their names.
    pub open spec fn reads_names(&self, m: Map<Seq<char>, Seq<char>>) -> bool {
        &&& self.soundtrack_folder@ == text_setting(m, "soundtrackFolder"@, "Sound Tracks"@)
        &&& self.various_folder@ == text_setting(m, "variousFolder"@, "Various Artist"@)
        &&& self.singles_folder@ == text_setting(m, "singlesFolder"@, "Singles"@)
        &&& self.nest_buckets_under_various == flag_setting(m, "nestBucketsUnderVarious"@, true)
        &&& self.incomplete_album_min_tracks == int_setting(m, "incompleteAlbumMinTracks"@, 0, usize::MAX as int, 3)
        &&& self.classify_from_mb == flag_setting(m, "classifyFromMB"@, true)
        &&& self.read_nfo == flag_setting(m, "readNfo"@, true)
        &&& self.write_nfo == flag_setting(m, "writeNfo"@, false)
        &&& self.folder_schema@ == text_setting(m, "folderSchema"@, "{albumArtist}/{album} ({year})"@)
        &&& self.file_schema@ == text_setting(m, "fileSchema"@, "{track:02} - {title}"@)
        &&& self.rename_sidecars == flag_setting(m, "renameSidecars"@, true)
        &&& self.illegal_char_replacement@ == text_setting(m, "illegalCharReplacement"@, "_"@)
        &&& self.max_name_length == int_setting(m, "maxNameLength"@, 0, usize::MAX as int, 180)
        &&& self.prune_empty_dirs == flag_setting(m, "pruneEmptyDirs"@, true)
        &&& self.cleanup_no_audio_folders == flag_setting(m, "cleanupNoAudioFolders"@, false)
        &&& self.meta_gate_enabled == flag_setting(m, "metaGateEnabled"@, true)
        &&& self.parse_filenames == flag_setting(m, "parseFilenames"@, true)
        &&& self.auto_tag_from_mb == flag_setting(m, "autoTagFromMB"@, true)
        &&& self.detect_duplicates == flag_setting(m, "detectDuplicates"@, true)
        &&& self.write_replaygain == flag_setting(m, "writeReplayGain"@, true)
        &&& self.replay_gain_mode@ == replay_gain_mode_of(m)
        &&& self.replay_gain_reference@ == decimal_setting_between(m, "replayGainReference"@, "-18.0"@, -40, 0)
        &&& self.trim_missing_days == trim_missing_days_of(m)
        &&& self.navidrome_admin_user@ == trimmed_setting(m, "navidromeAdminUser"@, ""@)
        &&& self.navidrome_admin_password@ == text_setting(m, "navidromeAdminPassword"@, ""@)
        &&& self.skip_hidden_files == flag_setting(m, "skipHiddenFiles"@, true)
        &&& self.preserve_recording_type == flag_setting(m, "preserveRecordingType"@, true)
        &&& self.singles_under_artist == flag_setting(m, "singlesUnderArtist"@, true)
        &&& self.singles_enabled == flag_setting(m, "singlesEnabled"@, true)
        &&& self.filler_keywords@ == text_setting(m, "fillerKeywords"@, "intro,outro,interlude,transition,prelude,postlude,christmas,commercial,skit,instrumental,interview,classical,karaoke"@)
        &&& text::views(self.exclude_paths@) == exclude_paths_of(m)
    }

    /// The settings of safety, identity and sources.
    pub open spec fn reads_sources(&self, m: Map<Seq<char>, Seq<char>>) -> bool {
        &&& self.backup_before_write == flag_setting(m, "backupBeforeWrite"@, true)
        &&& self.backup_retention_days == int_setting(m, "backupRetentionDays"@, i32::MIN as int, i32::MAX as int, 30)
        &&& self.rollback_retention_days == int_setting(m, "rollbackRetentionDays"@, i32::MIN as int, i32::MAX as int, 30)
        &&& self.verify_identity == flag_setting(m, "verifyIdentity"@, true)
        &&& self.min_confidence@ == decimal_setting(m, "minConfidence"@, "0.6"@)
        &&& self.skip_unverified == flag_setting(m, "skipUnverified"@, true)
        &&& self.acoustid_mode == acoustid_mode_of(m)
        &&& self.acoustid_api_key@ == text_setting(m, "acoustidApiKey"@, ""@)
        &&& self.acoustid_url@ == text_setting(m, "acoustidUrl"@, "http://nd-organizer-acoustid:8097"@)
        &&& self.primary_source == primary_source_of(m)
        &&& self.musicbrainz_token@ == text_setting(m, "musicbrainzToken"@, ""@)
        &&& self.lastfm_api_key@ == text_setting(m, "lastfmApiKey"@, ""@)
        &&& self.lastfm_user@ == text_setting(m, "lastfmUser"@, ""@)
        &&& self.lastfm_api_secret@ == text_setting(m, "lastfmApiSecret"@, ""@)
        &&& self.lastfm_password@ == text_setting(m, "lastfmPassword"@, ""@)
        &&& self.genre_from@ == text_setting(m, "genreFrom"@, "musicbrainz"@)
        &&& self.overwrite_existing_tags == flag_setting(m, "overwriteExistingTags"@, false)
        &&& self.write_playcount == flag_setting(m, "writePlaycount"@, false)
    }

    /// The settings of pictures, words and services.
    pub open spec fn reads_enriching(&self, m: Map<Seq<char>, Seq<char>>) -> bool {
        &&& self.embed_artwork == flag_setting(m, "embedArtwork"@, true)
        &&& self.write_cover_jpg == flag_setting(m, "writeCoverJpg"@, false)
        &&& self.overwrite_art == flag_setting(m, "overwriteArt"@, false)
        &&& self.artwork_priority@ == text_setting(m, "artworkPriority"@, "coverartarchive"@)
        &&& self.artwork_front == flag_setting(m, "artworkFront"@, true)
        &&& self.artwork_back == flag_setting(m, "artworkBack"@, false)
        &&& self.artwork_cd == flag_setting(m, "artworkCd"@, false)
        &&& self.artwork_booklet == flag_setting(m, "artworkBooklet"@, false)
        &&& self.download_lyrics == flag_setting(m, "downloadLyrics"@, false)
        &&& self.lyrics_format@ == text_setting(m, "lyricsFormat"@, "lrc"@)
        &&& self.lidarr_url@ == text_setting(m, "lidarrUrl"@, "http://lidarr:8686"@)
        &&& self.lidarr_api_key@ == text_setting(m, "lidarrApiKey"@, ""@)
        &&& self.lidarr_mode == lidarr_mode_of(m)
        &&& self.write_tags_for_tracked == flag_setting(m, "writeTagsForTracked"@, false)
        &&& self.lidarr_force_search_incomplete == flag_setting(m, "lidarrForceSearchIncomplete"@, false)
        &&& self.use_lidarr_naming_schema == flag_setting(m, "useLidarrNamingSchema"@, false)
        &&& self.audiomuse_url@ == text_setting(m, "audiomuseUrl"@, "http://audiomuse-ai-flask-app:8000"@)
        &&& self.audiomuse_token@ == text_setting(m, "audiomuseToken"@, ""@)
        &&& self.essentia_url@ == trimmed_setting(
            m,
            "essentiaUrl"@,
            "http://nd-organizer-essentia:8080"@,
        )
        &&& self.notify_audiomuse_after_run == flag_setting(m, "notifyAudiomuseAfterRun"@, true)
        &&& self.write_acoustic_tags == flag_setting(m, "writeAcousticTags"@, false)
        &&& self.scan_user@ == text_setting(m, "scanUser"@, ""@)
        &&& self.trigger_scan_after_run == flag_setting(m, "triggerScanAfterRun"@, true)
        &&& self.scan_after_album == flag_setting(m, "scanAfterAlbum"@, true)
        &&& self.scan_after_tag_write == flag_setting(m, "scanAfterTagWrite"@, false)
        &&& self.scan_debounce_seconds == int_setting(m, "scanDebounceSeconds"@, i32::MIN as int, i32::MAX as int, 0)
    }

    /// Whether this is the configuration that the settings `m` give.
    pub open spec fn reads(&self, m: Map<Seq<char>, Seq<char>>) -> bool {
        &&& self.reads_passes(m)
        &&& self.reads_storage(m)
        &&& self.reads_names(m)
        &&& self.reads_sources(m)
        &&& self.reads_enriching(m)
    }

    /// The configuration that a map of settings gives.
    pub fn from_map(map: &Settings) -> (c: Config)
        ensures
            c.reads(map@),
    {
        Config {
            mode: read_mode(map),
            libraries: read_libraries(map),
            run_on_startup: map.flag("runOnStartup", false),
            schedule_cron: map.text("scheduleCron", ""),
            max_albums_per_run: map.size("maxAlbumsPerRun", 100),
            max_scan_entries: map.size("maxScanEntries", 0),
            albums_per_task: map.size("albumsPerTask", 5),
            files_per_scan_task: map.size("filesPerScanTask", 200),
            run_only_when_idle: map.flag("runOnlyWhenIdle", true),
            favorites_sync_lastfm: map.flag("favoritesSyncLastfm", false),
            favorites_sync_max: map.size("favoritesSyncMax", 500),
            favorites_sync_bidirectional: map.flag("favoritesSyncBidirectional", false),
            playback_stats_enabled: map.flag("playbackStatsEnabled", false),
            stats_poll_minutes: map.int32("statsPollMinutes", 5),
            top_picks_count: map.size("topPicksCount", 50),
            skip_threshold_percent: map.int32("skipThresholdPercent", 30),
            keyword_filter_enabled: map.flag("keywordFilterEnabled", true),
            skip_content_mode: read_skip_content_mode(map),
            skip_heavy_ratio: map.decimal("skipHeavyRatio", "0.6"),
            filter_url: map.trimmed("filterUrl", "http://nd-organizer-proxy:4534"),
            star_tally_enabled: map.flag("starTallyEnabled", true),
            star_half_play_percent: map.int32("starHalfPlayPercent", 55),
            star_full_play_percent: map.int32("starFullPlayPercent", 85),
            star_ignore_percent: map.int32("starIgnorePercent", 5),
            star_min_samples: map.int32("starMinSamples", 3),
            loved_threshold_stars: map.decimal_between("lovedThresholdStars", "3.0", 1, 5),
            rating_sync_write_to_lidarr: map.flag("ratingSyncWriteToLidarr", false),
            rating_sync_pull_from_navidrome: map.flag("ratingSyncPullFromNavidrome", false),
            lastfm_scrobble: map.flag("lastfmScrobble", false),
            listenbrainz_scrobble: map.flag("listenbrainzScrobble", false),
            lastfm_import_playcount: map.flag("lastfmImportPlaycount", false),
            rollback_run_id: map.text("rollbackRunId", ""),
            log_webhook_url: map.text("logWebhookUrl", "http://nd-organizer-webhook:8099"),
            log_webhook_token: map.text("logWebhookToken", ""),
            octo_fiesta_url: map.trimmed("octoFiestaUrl", "http://octo-fiesta:8080"),
            octo_fiesta_provider: map.filled("octoFiestaProvider", "SquidWTF"),
            persistence_backend: map.trimmed("persistenceBackend", "host"),
            persistence_url: map.trimmed("persistenceUrl", "http://nd-organizer-mysql:8098"),
            mysql_host: map.trimmed("mysqlHost", ""),
            mysql_port: map.port("mysqlPort", 3306),
            mysql_name: map.trimmed("mysqlName", ""),
            mysql_user: map.trimmed("mysqlUser", ""),
            mysql_password: map.text("mysqlPassword", ""),
            soundtrack_folder: map.text("soundtrackFolder", "Sound Tracks"),
            various_folder: map.text("variousFolder", "Various Artist"),
            singles_folder: map.text("singlesFolder", "Singles"),
            nest_buckets_under_various: map.flag("nestBucketsUnderVarious", true),
            incomplete_album_min_tracks: map.size("incompleteAlbumMinTracks", 3),
            classify_from_mb: map.flag("classifyFromMB", true),
            read_nfo: map.flag("readNfo", true),
            write_nfo: map.flag("writeNfo", false),
            folder_schema: map.text("folderSchema", "{albumArtist}/{album} ({year})"),
            file_schema: map.text("fileSchema", "{track:02} - {title}"),
            rename_sidecars: map.flag("renameSidecars", true),
            illegal_char_replacement: map.text("illegalCharReplacement", "_"),
            max_name_length: map.size("maxNameLength", 180),
            prune_empty_dirs: map.flag("pruneEmptyDirs", true),
            cleanup_no_audio_folders: map.flag("cleanupNoAudioFolders", false),
            meta_gate_enabled: map.flag("metaGateEnabled", true),
            parse_filenames: map.flag("parseFilenames", true),
            auto_tag_from_mb: map.flag("autoTagFromMB", true),
            detect_duplicates: map.flag("detectDuplicates", true),
            write_replaygain: map.flag("writeReplayGain", true),
            replay_gain_mode: read_replay_gain_mode(map),
            replay_gain_reference: map.decimal_between("replayGainReference", "-18.0", -40, 0),
            trim_missing_days: read_trim_missing_days(map),
            navidrome_admin_user: map.trimmed("navidromeAdminUser", ""),
            navidrome_admin_password: map.text("navidromeAdminPassword", ""),
            skip_hidden_files: map.flag("skipHiddenFiles", true),
            preserve_recording_type: map.flag("preserveRecordingType", true),
            singles_under_artist: map.flag("singlesUnderArtist", true),
            singles_enabled: map.flag("singlesEnabled", true),
            filler_keywords: map.text("fillerKeywords", "intro,outro,interlude,transition,prelude,postlude,christmas,commercial,skit,instrumental,interview,classical,karaoke"),
            exclude_paths: read_exclude_paths(map),
            backup_before_write: map.flag("backupBeforeWrite", true),
            backup_retention_days: map.int32("backupRetentionDays", 30),
            rollback_retention_days: map.int32("rollbackRetentionDays", 30),
            verify_identity: map.flag("verifyIdentity", true),
            min_confidence: map.decimal("minConfidence", "0.6"),
            skip_unverified: map.flag("skipUnverified", true),
            acoustid_mode: read_acoustid_mode(map),
            acoustid_api_key: map.text("acoustidApiKey", ""),
            acoustid_url: map.text("acoustidUrl", "http://nd-organizer-acoustid:8097"),
            primary_source: read_primary_source(map),
            musicbrainz_token: map.text("musicbrainzToken", ""),
            lastfm_api_key: map.text("lastfmApiKey", ""),
            lastfm_user: map.text("lastfmUser", ""),
            lastfm_api_secret: map.text("lastfmApiSecret", ""),
            lastfm_password: map.text("lastfmPassword", ""),
            genre_from: map.text("genreFrom", "musicbrainz"),
            overwrite_existing_tags: map.flag("overwriteExistingTags", false),
            write_playcount: map.flag("writePlaycount", false),
            embed_artwork: map.flag("embedArtwork", true),
            write_cover_jpg: map.flag("writeCoverJpg", false),
            overwrite_art: map.flag("overwriteArt", false),
            artwork_priority: map.text("artworkPriority", "coverartarchive"),
            artwork_front: map.flag("artworkFront", true),
            artwork_back: map.flag("artworkBack", false),
            artwork_cd: map.flag("artworkCd", false),
            artwork_booklet: map.flag("artworkBooklet", false),
            download_lyrics: map.flag("downloadLyrics", false),
            lyrics_format: map.text("lyricsFormat", "lrc"),
            lidarr_url: map.text("lidarrUrl", "http://lidarr:8686"),
            lidarr_api_key: map.text("lidarrApiKey", ""),
            lidarr_mode: read_lidarr_mode(map),
            write_tags_for_tracked: map.flag("writeTagsForTracked", false),
            lidarr_force_search_incomplete: map.flag("lidarrForceSearchIncomplete", false),
            use_lidarr_naming_schema: map.flag("useLidarrNamingSchema", false),
            audiomuse_url: map.text("audiomuseUrl", "http://audiomuse-ai-flask-app:8000"),
            audiomuse_token: map.text("audiomuseToken", ""),
            essentia_url: map.trimmed("essentiaUrl", "http://nd-organizer-essentia:8080"),
            notify_audiomuse_after_run: map.flag("notifyAudiomuseAfterRun", true),
            write_acoustic_tags: map.flag("writeAcousticTags", false),
            scan_user: map.text("scanUser", ""),
            trigger_scan_after_run: map.flag("triggerScanAfterRun", true),
            scan_after_album: map.flag("scanAfterAlbum", true),
            scan_after_tag_write: map.flag("scanAfterTagWrite", false),
            scan_debounce_seconds: map.int32("scanDebounceSeconds", 0),
        }
    }
}

impl Default for Config {
    /// The configuration without any setting.
    fn default() -> (c: Self)
        ensures
            c.reads(Map::empty()),
    {
        Config::from_map(&Settings::new())
    }
}

/// The keys that the configuration is read from.
pub open spec fn setting_keys() -> Seq<Seq<char>> {
    seq![
        "mode"@,
        "libraryId"@,
        "libraries"@,
        "runOnStartup"@,
        "scheduleCron"@,
        "maxAlbumsPerRun"@,
        "maxScanEntries"@,
        "albumsPerTask"@,
        "filesPerScanTask"@,
        "runOnlyWhenIdle"@,
        "favoritesSyncLastfm"@,
        "favoritesSyncMax"@,
        "favoritesSyncBidirectional"@,
        "playbackStatsEnabled"@,
        "statsPollMinutes"@,
        "topPicksCount"@,
        "skipThresholdPercent"@,
        "keywordFilterEnabled"@,
        "skipContentMode"@,
        "skipHeavyRatio"@,
        "filterUrl"@,
        "starTallyEnabled"@,
        "starHalfPlayPercent"@,
        "starFullPlayPercent"@,
        "starIgnorePercent"@,
        "starMinSamples"@,
        "lovedThresholdStars"@,
        "ratingSyncWriteToLidarr"@,
        "ratingSyncPullFromNavidrome"@,
        "lastfmScrobble"@,
        "listenbrainzScrobble"@,
        "lastfmImportPlaycount"@,
        "rollbackRunId"@,
        "logWebhookUrl"@,
        "logWebhookToken"@,
        "octoFiestaUrl"@,
        "octoFiestaProvider"@,
        "persistenceBackend"@,
        "persistenceUrl"@,
        "mysqlHost"@,
        "mysqlPort"@,
        "mysqlName"@,
        "mysqlUser"@,
        "mysqlPassword"@,
        "soundtrackFolder"@,
        "variousFolder"@,
        "singlesFolder"@,
        "nestBucketsUnderVarious"@,
        "incompleteAlbumMinTracks"@,
        "classifyFromMB"@,
        "readNfo"@,
        "writeNfo"@,
        "folderSchema"@,
        "fileSchema"@,
        "renameSidecars"@,
        "illegalCharReplacement"@,
        "maxNameLength"@,
        "pruneEmptyDirs"@,
        "cleanupNoAudioFolders"@,
        "metaGateEnabled"@,
        "parseFilenames"@,
        "autoTagFromMB"@,
        "detectDuplicates"@,
        "writeReplayGain"@,
        "replayGainMode"@,
        "replayGainReference"@,
        "trimMissingDays"@,
        "navidromeAdminUser"@,
        "navidromeAdminPassword"@,
        "skipHiddenFiles"@,
        "preserveRecordingType"@,
        "singlesUnderArtist"@,
        "singlesEnabled"@,
        "fillerKeywords"@,
        "excludePaths"@,
        "backupBeforeWrite"@,
        "backupRetentionDays"@,
        "rollbackRetentionDays"@,
        "verifyIdentity"@,
        "minConfidence"@,
        "skipUnverified"@,
        "acoustidMode"@,
        "acoustidApiKey"@,
        "acoustidUrl"@,
        "primarySource"@,
        "musicbrainzToken"@,
        "lastfmApiKey"@,
        "lastfmUser"@,
        "lastfmApiSecret"@,
        "lastfmPassword"@,
        "genreFrom"@,
        "overwriteExistingTags"@,
        "writePlaycount"@,
        "embedArtwork"@,
        "writeCoverJpg"@,
        "overwriteArt"@,
        "artworkPriority"@,
        "artworkFront"@,
        "artworkBack"@,
        "artworkCd"@,
        "artworkBooklet"@,
        "downloadLyrics"@,
        "lyricsFormat"@,
        "lidarrUrl"@,
        "lidarrApiKey"@,
        "lidarrMode"@,
        "writeTagsForTracked"@,
        "lidarrForceSearchIncomplete"@,
        "useLidarrNamingSchema"@,
        "audiomuseUrl"@,
        "essentiaUrl"@,
        "audiomuseToken"@,
        "notifyAudiomuseAfterRun"@,
        "writeAcousticTags"@,
        "scanUser"@,
        "triggerScanAfterRun"@,
        "scanAfterAlbum"@,
        "scanAfterTagWrite"@,
        "scanDebounceSeconds"@,
    ]
}

/// The keys to fetch from the host before `Config::from_map`.
pub fn load_keys() -> (r: Vec<&'static str>)
    ensures
        r@.len() == setting_keys().len(),
        forall|i: int| 0 <= i < r@.len() ==> (#[trigger] r@[i])@ == setting_keys()[i],
{
    vec![
        "mode",
        "libraryId",
        "libraries",
        "runOnStartup",
        "scheduleCron",
        "maxAlbumsPerRun",
        "maxScanEntries",
        "albumsPerTask",
        "filesPerScanTask",
        "runOnlyWhenIdle",
        "favoritesSyncLastfm",
        "favoritesSyncMax",
        "favoritesSyncBidirectional",
        "playbackStatsEnabled",
        "statsPollMinutes",
        "topPicksCount",
        "skipThresholdPercent",
        "keywordFilterEnabled",
        "skipContentMode",
        "skipHeavyRatio",
        "filterUrl",
        "starTallyEnabled",
        "starHalfPlayPercent",
        "starFullPlayPercent",
        "starIgnorePercent",
        "starMinSamples",
        "lovedThresholdStars",
        "ratingSyncWriteToLidarr",
        "ratingSyncPullFromNavidrome",
        "lastfmScrobble",
        "listenbrainzScrobble",
        "lastfmImportPlaycount",
        "rollbackRunId",
        "logWebhookUrl",
        "logWebhookToken",
        "octoFiestaUrl",
        "octoFiestaProvider",
        "persistenceBackend",
        "persistenceUrl",
        "mysqlHost",
        "mysqlPort",
        "mysqlName",
        "mysqlUser",
        "mysqlPassword",
        "soundtrackFolder",
        "variousFolder",
        "singlesFolder",
        "nestBucketsUnderVarious",
        "incompleteAlbumMinTracks",
        "classifyFromMB",
        "readNfo",
        "writeNfo",
        "folderSchema",
        "fileSchema",
        "renameSidecars",
        "illegalCharReplacement",
        "maxNameLength",
        "pruneEmptyDirs",
        "cleanupNoAudioFolders",
        "metaGateEnabled",
        "parseFilenames",
        "autoTagFromMB",
        "detectDuplicates",
        "writeReplayGain",
        "replayGainMode",
        "replayGainReference",
        "trimMissingDays",
        "navidromeAdminUser",
        "navidromeAdminPassword",
        "skipHiddenFiles",
        "preserveRecordingType",
        "singlesUnderArtist",
        "singlesEnabled",
        "fillerKeywords",
        "excludePaths",
        "backupBeforeWrite",
        "backupRetentionDays",
        "rollbackRetentionDays",
        "verifyIdentity",
        "minConfidence",
        "skipUnverified",
        "acoustidMode",
        "acoustidApiKey",
        "acoustidUrl",
        "primarySource",
        "musicbrainzToken",
        "lastfmApiKey",
        "lastfmUser",
        "lastfmApiSecret",
        "lastfmPassword",
        "genreFrom",
        "overwriteExistingTags",
        "writePlaycount",
        "embedArtwork",
        "writeCoverJpg",
        "overwriteArt",
        "artworkPriority",
        "artworkFront",
        "artworkBack",
        "artworkCd",
        "artworkBooklet",
        "downloadLyrics",
        "lyricsFormat",
        "lidarrUrl",
        "lidarrApiKey",
        "lidarrMode",
        "writeTagsForTracked",
        "lidarrForceSearchIncomplete",
        "useLidarrNamingSchema",
        "audiomuseUrl",
        "essentiaUrl",
        "audiomuseToken",
        "notifyAudiomuseAfterRun",
        "writeAcousticTags",
        "scanUser",
        "triggerScanAfterRun",
        "scanAfterAlbum",
        "scanAfterTagWrite",
        "scanDebounceSeconds",
    ]
}

/// Whether two maps say the same of a key.
pub open spec fn agree(
    m: Map<Seq<char>, Seq<char>>,
    n: Map<Seq<char>, Seq<char>>,
    key: Seq<char>,
) -> bool {
    m.contains_key(key) == n.contains_key(key) && (m.contains_key(key) ==> m[key] == n[key])
}

#[verifier::spinoff_prover]
proof fn listed_keys_count_for_passes(
    m: Map<Seq<char>, Seq<char>>,
    n: Map<Seq<char>, Seq<char>>,
    c: Config,
)
    requires
        forall|i: int| 0 <= i < setting_keys().len() ==> agree(m, n, #[trigger] setting_keys()[i]),
        c.reads_passes(m),
    ensures
        c.reads_passes(n),
{
    let k = setting_keys();
    assert(k[0] == "mode"@);
    assert(k[1] == "libraryId"@);
    assert(k[2] == "libraries"@);
    assert(k[3] == "runOnStartup"@);
    assert(k[4] == "scheduleCron"@);
    assert(k[5] == "maxAlbumsPerRun"@);
    assert(k[6] == "maxScanEntries"@);
    assert(k[7] == "albumsPerTask"@);
    assert(k[8] == "filesPerScanTask"@);
    assert(k[9] == "runOnlyWhenIdle"@);
    assert(k[10] == "favoritesSyncLastfm"@);
    assert(k[11] == "favoritesSyncMax"@);
    assert(k[12] == "favoritesSyncBidirectional"@);
    assert(k[13] == "playbackStatsEnabled"@);
    assert(k[14] == "statsPollMinutes"@);
    assert(k[15] == "topPicksCount"@);
    assert(k[16] == "skipThresholdPercent"@);
    assert(k[17] == "keywordFilterEnabled"@);
    assert(k[18] == "skipContentMode"@);
    assert(k[19] == "skipHeavyRatio"@);
    assert(k[20] == "filterUrl"@);
    assert(k[21] == "starTallyEnabled"@);
    assert(k[22] == "starHalfPlayPercent"@);
    assert(k[23] == "starFullPlayPercent"@);
    assert(k[24] == "starIgnorePercent"@);
    assert(k[25] == "starMinSamples"@);
    assert(k[26] == "lovedThresholdStars"@);
    assert(k[27] == "ratingSyncWriteToLidarr"@);
    assert(k[28] == "ratingSyncPullFromNavidrome"@);
    assert(k[29] == "lastfmScrobble"@);
    assert(k[30] == "listenbrainzScrobble"@);
    assert(k[31] == "lastfmImportPlaycount"@);
}

#[verifier::spinoff_prover]
proof fn listed_keys_count_for_storage(
    m: Map<Seq<char>, Seq<char>>,
    n: Map<Seq<char>, Seq<char>>,
    c: Config,
)
    requires
        forall|i: int| 0 <= i < setting_keys().len() ==> agree(m, n, #[trigger] setting_keys()[i]),
        c.reads_storage(m),
    ensures
        c.reads_storage(n),
{
    let k = setting_keys();
    assert(k[32] == "rollbackRunId"@);
    assert(k[33] == "logWebhookUrl"@);
    assert(k[34] == "logWebhookToken"@);
    assert(k[35] == "octoFiestaUrl"@);
    assert(k[36] == "octoFiestaProvider"@);
    assert(k[37] == "persistenceBackend"@);
    assert(k[38] == "persistenceUrl"@);
    assert(k[39] == "mysqlHost"@);
    assert(k[40] == "mysqlPort"@);
    assert(k[41] == "mysqlName"@);
    assert(k[42] == "mysqlUser"@);
    assert(k[43] == "mysqlPassword"@);
}

#[verifier::spinoff_prover]
proof fn listed_keys_count_for_names(
    m: Map<Seq<char>, Seq<char>>,
    n: Map<Seq<char>, Seq<char>>,
    c: Config,
)
    requires
        forall|i: int| 0 <= i < setting_keys().len() ==> agree(m, n, #[trigger] setting_keys()[i]),
        c.reads_names(m),
    ensures
        c.reads_names(n),
{
    let k = setting_keys();
    assert(k[44] == "soundtrackFolder"@);
    assert(k[45] == "variousFolder"@);
    assert(k[46] == "singlesFolder"@);
    assert(k[47] == "nestBucketsUnderVarious"@);
    assert(k[48] == "incompleteAlbumMinTracks"@);
    assert(k[49] == "classifyFromMB"@);
    assert(k[50] == "readNfo"@);
    assert(k[51] == "writeNfo"@);
    assert(k[52] == "folderSchema"@);
    assert(k[53] == "fileSchema"@);
    assert(k[54] == "renameSidecars"@);
    assert(k[55] == "illegalCharReplacement"@);
    assert(k[56] == "maxNameLength"@);
    assert(k[57] == "pruneEmptyDirs"@);
    assert(k[58] == "cleanupNoAudioFolders"@);
    assert(k[59] == "metaGateEnabled"@);
    assert(k[60] == "parseFilenames"@);
    assert(k[61] == "autoTagFromMB"@);
    assert(k[62] == "detectDuplicates"@);
    assert(k[63] == "writeReplayGain"@);
    assert(k[64] == "replayGainMode"@);
    assert(k[65] == "replayGainReference"@);
    assert(k[66] == "trimMissingDays"@);
    assert(k[67] == "navidromeAdminUser"@);
    assert(k[68] == "navidromeAdminPassword"@);
    assert(k[69] == "skipHiddenFiles"@);
    assert(k[70] == "preserveRecordingType"@);
    assert(k[71] == "singlesUnderArtist"@);
    assert(k[72] == "singlesEnabled"@);
    assert(k[73] == "fillerKeywords"@);
    assert(k[74] == "excludePaths"@);
}

#[verifier::spinoff_prover]
proof fn listed_keys_count_for_sources(
    m: Map<Seq<char>, Seq<char>>,
    n: Map<Seq<char>, Seq<char>>,
    c: Config,
)
    requires
        forall|i: int| 0 <= i < setting_keys().len() ==> agree(m, n, #[trigger] setting_keys()[i]),
        c.reads_sources(m),
    ensures
        c.reads_sources(n),
{
    let k = setting_keys();
    assert(k[75] == "backupBeforeWrite"@);
    assert(k[76] == "backupRetentionDays"@);
    assert(k[77] == "rollbackRetentionDays"@);
    assert(k[78] == "verifyIdentity"@);
    assert(k[79] == "minConfidence"@);
    assert(k[80] == "skipUnverified"@);
    assert(k[81] == "acoustidMode"@);
    assert(k[82] == "acoustidApiKey"@);
    assert(k[83] == "acoustidUrl"@);
    assert(k[84] == "primarySource"@);
    assert(k[85] == "musicbrainzToken"@);
    assert(k[86] == "lastfmApiKey"@);
    assert(k[87] == "lastfmUser"@);
    assert(k[88] == "lastfmApiSecret"@);
    assert(k[89] == "lastfmPassword"@);
    assert(k[90] == "genreFrom"@);
    assert(k[91] == "overwriteExistingTags"@);
    assert(k[92] == "writePlaycount"@);
}

#[verifier::spinoff_prover]
proof fn listed_keys_count_for_enriching(
    m: Map<Seq<char>, Seq<char>>,
    n: Map<Seq<char>, Seq<char>>,
    c: Config,
)
    requires
        forall|i: int| 0 <= i < setting_keys().len() ==> agree(m, n, #[trigger] setting_keys()[i]),
        c.reads_enriching(m),
    ensures
        c.reads_enriching(n),
{
    let k = setting_keys();
    assert(k[93] == "embedArtwork"@);
    assert(k[94] == "writeCoverJpg"@);
    assert(k[95] == "overwriteArt"@);
    assert(k[96] == "artworkPriority"@);
    assert(k[97] == "artworkFront"@);
    assert(k[98] == "artworkBack"@);
    assert(k[99] == "artworkCd"@);
    assert(k[100] == "artworkBooklet"@);
    assert(k[101] == "downloadLyrics"@);
    assert(k[102] == "lyricsFormat"@);
    assert(k[103] == "lidarrUrl"@);
    assert(k[104] == "lidarrApiKey"@);
    assert(k[105] == "lidarrMode"@);
    assert(k[106] == "writeTagsForTracked"@);
    assert(k[107] == "lidarrForceSearchIncomplete"@);
    assert(k[108] == "useLidarrNamingSchema"@);
    assert(k[109] == "audiomuseUrl"@);
    assert(k[110] == "essentiaUrl"@);
    assert(k[111] == "audiomuseToken"@);
    assert(k[112] == "notifyAudiomuseAfterRun"@);
    assert(k[113] == "writeAcousticTags"@);
    assert(k[114] == "scanUser"@);
    assert(k[115] == "triggerScanAfterRun"@);
    assert(k[116] == "scanAfterAlbum"@);
    assert(k[117] == "scanAfterTagWrite"@);
    assert(k[118] == "scanDebounceSeconds"@);
}

/// The listed keys are all that counts: two maps that agree on them give the same
/// configuration, so fetching these keys alone loses nothing.
pub proof fn only_listed_keys_count(
    m: Map<Seq<char>, Seq<char>>,
    n: Map<Seq<char>, Seq<char>>,
    c: Config,
)
    requires
        forall|i: int| 0 <= i < setting_keys().len() ==> agree(m, n, #[trigger] setting_keys()[i]),
        c.reads(m),
    ensures
        c.reads(n),
{
    listed_keys_count_for_passes(m, n, c);
    listed_keys_count_for_storage(m, n, c);
    listed_keys_count_for_names(m, n, c);
    listed_keys_count_for_sources(m, n, c);
    listed_keys_count_for_enriching(m, n, c);
}

/// Keys that are not listed have no effect on the configuration.
pub proof fn unlisted_key_is_ignored(
    m: Map<Seq<char>, Seq<char>>,
    key: Seq<char>,
    value: Seq<char>,
    c: Config,
)
    requires
        !setting_keys().contains(key),
        c.reads(m),
    ensures
        c.reads(m.insert(key, value)),
{
    assert forall|i: int| 0 <= i < setting_keys().len() implies agree(
        m,
        m.insert(key, value),
        #[trigger] setting_keys()[i],
    ) by {
        assert(setting_keys().contains(setting_keys()[i]));
    }
    only_listed_keys_count(m, m.insert(key, value), c);
}

/// The name of a mode reads back as the mode.
pub proof fn mode_name_reads_back(mode: SkipContentMode)
    ensures
        skip_mode_named(mode.name()) == mode,
{
    reveal_strlit("none");
    reveal_strlit("off");
    reveal_strlit("disabled");
    reveal_strlit("");
    reveal_strlit("exclude");
    reveal_strlit("excluded");
    reveal_strlit("drop");
    reveal_strlit("third");
    reveal_strlit("1/3");
    reveal_strlit("half");
    reveal_strlit("1/2");
    reveal_strlit("lessThanHalf");
    let s = mode.name();
    assert(text::strip_front(s, text::white()) == s);
    assert(text::strip_back(s, text::white()) == s);
    let v = text::lowered(s);
    match mode {
        SkipContentMode::Unlimited => {
            assert(v == "none"@);
        },
        SkipContentMode::Exclude => {
            assert(v == "exclude"@);
            assert("none"@.len() != v.len() && "off"@.len() != v.len() && "disabled"@.len()
                != v.len() && ""@.len() != v.len());
        },
        SkipContentMode::Third => {
            assert(v == "third"@);
            assert(v.len() == 5);
        },
        SkipContentMode::LessThanHalf => {
            assert(v.len() == 12);
        },
        SkipContentMode::Half => {
            assert(v == "half"@);
            assert(v[0] == 'h' && "none"@[0] == 'n' && "drop"@[0] == 'd');
        },
    }
}

} // verus!
