//! MusicBrainz: which release an album is.

use crate::json;
use crate::json::{Json, JsonView};
use crate::net;
use crate::net::{CircuitOp, Reply, Request};
use crate::text;
use crate::url;
use vstd::prelude::*;

verus! {

/// A release of MusicBrainz.
#[derive(Debug, Clone)]
pub struct MbRelease {
    pub release_mbid: String,
    pub release_group_mbid: String,
    /// Such as "Album", "Single", "EP", "Soundtrack".
    pub primary_type: String,
    /// Such as "Compilation", "Live".
    pub secondary_types: Vec<String>,
    pub title: String,
    pub date: Option<String>,
}

/// The mathematical value of a release.
#[verifier::ext_equal]
pub struct ReleaseView {
    pub release_mbid: Seq<char>,
    pub release_group_mbid: Seq<char>,
    pub primary_type: Seq<char>,
    pub secondary_types: Seq<Seq<char>>,
    pub title: Seq<char>,
    pub date: Option<Seq<char>>,
}

impl View for MbRelease {
    type V = ReleaseView;

    open spec fn view(&self) -> ReleaseView {
        ReleaseView {
            release_mbid: self.release_mbid@,
            release_group_mbid: self.release_group_mbid@,
            primary_type: self.primary_type@,
            secondary_types: text::views(self.secondary_types@),
            title: self.title@,
            date: text::view_opt(self.date),
        }
    }
}

// ---------------------------------------------------------------------------
// Reading an answer

/// A release group as a release names it: its ID, its primary type and the other types.
pub open spec fn group_of(v: JsonView) -> Option<(Seq<char>, Seq<char>, Seq<Seq<char>>)> {
    let types = match json::slot(v, "secondary-types"@, 2, 1, 3) {
        None => Some(Seq::empty()),
        Some(list) => json::all_texts(list),
    };
    match (
        json::string_of(json::slot(v, "id"@, 0, 1, 3)),
        json::optional_text(json::slot(v, "primary-type"@, 1, 1, 3)),
        types,
    ) {
        (Some(id), Some(primary), Some(secondary)) => Some(
            (
                id,
                match primary {
                    Some(p) => p,
                    None => Seq::empty(),
                },
                secondary,
            ),
        ),
        _ => None,
    }
}

fn read_group(v: &Json) -> (r: Option<(String, String, Vec<String>)>)
    ensures
        match r {
            Some(g) => group_of(v@) == Some((g.0@, g.1@, text::views(g.2@))),
            None => group_of(v@) is None,
        },
{
    let types: Option<Vec<String>> = match v.slot("secondary-types", 2, 1, 3) {
        None => {
            let none: Vec<String> = Vec::new();
            assert(text::views(none@) =~= Seq::<Seq<char>>::empty());
            Some(none)
        },
        Some(list) => json::only_texts(list),
    };
    let id = json::str_value(v.slot("id", 0, 1, 3));
    let primary = json::optional_string(v.slot("primary-type", 1, 1, 3));
    match (id, primary, types) {
        (Some(id), Some(primary), Some(secondary)) => {
            let p: String = match primary {
                Some(p) => p,
                None => String::new(),
            };
            Some((id, p, secondary))
        },
        _ => None,
    }
}

/// A release of an answer, and whether it belongs to a group. Every field has its type, or the
/// release cannot be read.
#[verifier::opaque]
pub open spec fn release_of(v: JsonView) -> Option<(bool, ReleaseView)> {
    let group = match json::slot(v, "release-group"@, 3, 2, 4) {
        None => Some(None),
        Some(JsonView::Null) => Some(None),
        Some(g) => match group_of(g) {
            Some(t) => Some(Some(t)),
            None => None,
        },
    };
    match (
        json::string_of(json::slot(v, "id"@, 0, 2, 4)),
        json::string_of(json::slot(v, "title"@, 1, 2, 4)),
        json::optional_text(json::slot(v, "date"@, 2, 2, 4)),
        group,
    ) {
        (Some(id), Some(title), Some(date), Some(Some((gid, primary, secondary)))) => Some(
            (
                true,
                ReleaseView {
                    release_mbid: id,
                    release_group_mbid: gid,
                    primary_type: primary,
                    secondary_types: secondary,
                    title,
                    date,
                },
            ),
        ),
        (Some(id), Some(title), Some(date), Some(None)) => Some(
            (
                false,
                ReleaseView {
                    release_mbid: id,
                    release_group_mbid: Seq::empty(),
                    primary_type: Seq::empty(),
                    secondary_types: Seq::empty(),
                    title,
                    date,
                },
            ),
        ),
        _ => None,
    }
}

fn read_release(v: &Json) -> (r: Option<(bool, MbRelease)>)
    ensures
        match r {
            Some(p) => release_of(v@) == Some((p.0, p.1@)),
            None => release_of(v@) is None,
        },
{
    proof {
        reveal(release_of);
    }
    let group: Option<Option<(String, String, Vec<String>)>> = match v.slot("release-group", 3, 2, 4) {
        None => Some(None),
        Some(Json::Null) => Some(None),
        Some(g) => match read_group(g) {
            Some(t) => Some(Some(t)),
            None => None,
        },
    };
    let id = json::str_value(v.slot("id", 0, 2, 4));
    let title = json::str_value(v.slot("title", 1, 2, 4));
    let date = json::optional_string(v.slot("date", 2, 2, 4));
    match (id, title, date, group) {
        (Some(id), Some(title), Some(date), Some(Some(g))) => Some(
            (
                true,
                MbRelease {
                    release_mbid: id,
                    release_group_mbid: g.0,
                    primary_type: g.1,
                    secondary_types: g.2,
                    title,
                    date,
                },
            ),
        ),
        (Some(id), Some(title), Some(date), Some(None)) => {
            let none: Vec<String> = Vec::new();
            assert(text::views(none@) =~= Seq::<Seq<char>>::empty());
            Some(
                (
                    false,
                    MbRelease {
                        release_mbid: id,
                        release_group_mbid: String::new(),
                        primary_type: String::new(),
                        secondary_types: none,
                        title,
                        date,
                    },
                ),
            )
        },
        _ => None,
    }
}

/// How well a release fits: an exact title counts more than a release group.
pub open spec fn rank(release: (bool, ReleaseView), want: Seq<char>) -> int {
    (if text::unicode_lowered(release.1.title) == want {
        4int
    } else {
        0
    }) + (if release.0 {
        2int
    } else {
        0
    })
}

/// The first of the releases that fit best; nothing where one of them cannot be read.
pub open spec fn best_release(items: Seq<JsonView>, want: Seq<char>) -> Option<
    Option<(bool, ReleaseView)>,
>
    decreases items.len(),
{
    if items.len() == 0 {
        Some(None)
    } else {
        match (best_release(items.drop_last(), want), release_of(items.last())) {
            (Some(None), Some(r)) => Some(Some(r)),
            (Some(Some(best)), Some(r)) => if rank(r, want) > rank(best, want) {
                Some(Some(r))
            } else {
                Some(Some(best))
            },
            _ => None,
        }
    }
}

/// The title that is looked for.
pub open spec fn wanted(album: Seq<char>) -> Seq<char> {
    text::unicode_lowered(text::trimmed(album))
}

/// The release that an answer gives for an album.
pub open spec fn chosen(answer: Option<JsonView>, want: Seq<char>) -> Option<ReleaseView> {
    match json::member_opt(answer, "releases"@) {
        Some(JsonView::Array(items)) => match best_release(items, want) {
            Some(Some(best)) => Some(best.1),
            _ => None,
        },
        _ => None,
    }
}

pub open spec fn release_view(r: Option<MbRelease>) -> Option<ReleaseView> {
    match r {
        Some(m) => Some(m@),
        None => None,
    }
}

fn rank_of(has_group: bool, release: &MbRelease, want: &str) -> (r: u8)
    ensures
        r == rank((has_group, release@), want@),
{
    let title: u8 = if text::same(text::unicode_lower(release.title.as_str()).as_str(), want) {
        4
    } else {
        0
    };
    let group: u8 = if has_group {
        2
    } else {
        0
    };
    title + group
}

/// The best release of an answer: an exact title first, then one with a release group, else the
/// first.
pub fn parse_releases(answer: &Option<Json>, album: &str) -> (r: Option<MbRelease>)
    ensures
        release_view(r) == chosen(json::doc_view(*answer), wanted(album@)),
{
    let want = text::unicode_lower(text::trim(album).as_str());
    let items = match json::items(json::get_opt(json::root(answer), "releases")) {
        Some(v) => v,
        None => {
            return None;
        },
    };
    let ghost all = json::trees(items@);
    let mut best: Option<(bool, MbRelease)> = None;
    let mut i: usize = 0;
    proof {
        json::trees_index(items@);
        assert(all.take(0) =~= Seq::<JsonView>::empty());
    }
    while i < items.len()
        invariant
            i <= items@.len(),
            all == json::trees(items@),
            all.len() == items@.len(),
            forall|k: int| 0 <= k < items@.len() ==> all[k] == json::tree(#[trigger] items@[k]),
            json::member_opt(json::doc_view(*answer), "releases"@) == Some(JsonView::Array(all)),
            want@ == wanted(album@),
            best_release(all.take(i as int), want@) == Some(
                match best {
                    Some(b) => Some((b.0, b.1@)),
                    None => None,
                },
            ),
        decreases items@.len() - i,
    {
        proof {
            assert(all.take(i + 1).drop_last() == all.take(i as int));
            assert(all.take(i + 1).last() == json::tree(items@[i as int]));
        }
        match read_release(&items[i]) {
            Some(found) => {
                let better: bool = match &best {
                    Some(b) => rank_of(found.0, &found.1, want.as_str()) > rank_of(
                        b.0,
                        &b.1,
                        want.as_str(),
                    ),
                    None => true,
                };
                if better {
                    best = Some(found);
                }
            },
            None => {
                proof {
                    unreadable_stays(all, want@, i + 1, all.len() as int);
                    assert(all.take(all.len() as int) == all);
                }
                return None;
            },
        }
        i = i + 1;
    }
    assert(all.take(i as int) == all);
    match best {
        Some(b) => Some(b.1),
        None => None,
    }
}

proof fn unreadable_stays(items: Seq<JsonView>, want: Seq<char>, a: int, b: int)
    requires
        0 <= a <= b <= items.len(),
        best_release(items.take(a), want) is None,
    ensures
        best_release(items.take(b), want) is None,
    decreases b,
{
    if a < b {
        unreadable_stays(items, want, a, b - 1);
        assert(items.take(b).drop_last() == items.take(b - 1));
    }
}

// ---------------------------------------------------------------------------
// Asking

/// The key under which a release is kept.
pub open spec fn lookup_name(artist: Seq<char>, album: Seq<char>) -> Seq<char> {
    "mb:"@ + text::unicode_lowered(artist) + "|"@ + text::unicode_lowered(album)
}

/// The key under which the release of an album is kept. Without artist or album there is nothing
/// to look up.
pub fn lookup_key(artist: &str, album: &str) -> (r: Option<String>)
    ensures
        text::view_opt(r) == if text::trimmed(artist@).len() == 0 || text::trimmed(album@).len()
            == 0 {
            None
        } else {
            Some(lookup_name(artist@, album@))
        },
{
    if text::length(text::trim(artist).as_str()) == 0 || text::length(
        text::trim(album).as_str(),
    ) == 0 {
        return None;
    }
    let mut key = text::copy("mb:");
    key.append(text::unicode_lower(artist).as_str());
    key.append("|");
    key.append(text::unicode_lower(album).as_str());
    Some(key)
}

/// How long MusicBrainz is left alone between two questions, in milliseconds.
pub fn pause_ms(token: &str) -> (r: u64)
    ensures
        r == if text::trimmed(token@).len() == 0 {
            1200
        } else {
            30int
        },
{
    if text::length(text::trim(token).as_str()) == 0 {
        1200
    } else {
        30
    }
}

pub open spec fn release_url(artist: Seq<char>, album: Seq<char>) -> Seq<char> {
    "https://musicbrainz.org/ws/2/release/?query=release:%22"@ + url::encoded(album)
        + "%22%20AND%20artist:%22"@ + url::encoded(artist) + "%22&fmt=json&limit=5"@
}

pub open spec fn headers(token: Seq<char>) -> Seq<(Seq<char>, Seq<char>)> {
    let agent = seq![
        ("User-Agent"@, "nd-organizer/0.1 (https://github.com/lunatixz/nd-organizer)"@),
    ];
    if text::trimmed(token).len() == 0 {
        agent
    } else {
        agent.push(("Authorization"@, "Bearer "@ + text::trimmed(token)))
    }
}

/// The question for the release of an album. A token raises the rate that MusicBrainz allows.
pub fn lookup(artist: &str, album: &str, token: &str) -> (r: Request)
    ensures
        r@ == net::asking(release_url(artist@, album@), headers(token@), 15_000),
{
    let mut q = text::copy("https://musicbrainz.org/ws/2/release/?query=release:%22");
    q.append(url::urlencode(album).as_str());
    q.append("%22%20AND%20artist:%22");
    q.append(url::urlencode(artist).as_str());
    q.append("%22&fmt=json&limit=5");
    let mut sent = net::no_headers();
    net::put_header(
        &mut sent,
        "User-Agent",
        "nd-organizer/0.1 (https://github.com/lunatixz/nd-organizer)",
    );
    let key = text::trim(token);
    if text::length(key.as_str()) > 0 {
        net::put_header(&mut sent, "Authorization", text::join_two("Bearer ", key.as_str()).as_str());
    }
    assert(crate::organizer::pair_views(sent@) =~= headers(token@));
    net::ask(q, sent, 15_000)
}

/// What an answer to the question gives: the release, and what becomes of the circuit.
pub fn lookup_outcome(reply: &Reply, album: &str) -> (r: (Option<MbRelease>, CircuitOp))
    ensures
        release_view(r.0) == match net::good_body(reply@) {
            Some(body) => chosen(json::document(body), wanted(album@)),
            None => None,
        },
        r.1 == net::lookup_op(reply@),
{
    let op = net::after_lookup(reply);
    match net::ok_body(reply) {
        Some(body) => (parse_releases(&json::parse(body.as_str()), album), op),
        None => (None, op),
    }
}

// ---------------------------------------------------------------------------
// The kind of release

/// Whether one of the types is the given word, whatever the case.
pub open spec fn typed(types: Seq<Seq<char>>, word: Seq<char>) -> bool {
    exists|i: int|
        0 <= i < types.len() && text::lowered(#[trigger] types[i]) == text::lowered(word)
}

/// The kind of a release as the organizer classifies albums.
pub open spec fn kind_of(r: ReleaseView) -> Seq<char> {
    if r.primary_type == "Soundtrack"@ {
        "Soundtrack"@
    } else if typed(r.secondary_types, "compilation"@) || typed(r.secondary_types, "live"@)
        || r.primary_type == "Compilation"@ {
        "Compilation"@
    } else if r.primary_type == "Single"@ || r.primary_type == "EP"@ {
        "Single"@
    } else {
        Seq::empty()
    }
}

fn is_typed(types: &Vec<String>, word: &str) -> (r: bool)
    ensures
        r == typed(text::views(types@), word@),
{
    let want = text::lower(word);
    let ghost all = text::views(types@);
    let mut i: usize = 0;
    while i < types.len()
        invariant
            i <= types@.len(),
            all == text::views(types@),
            want@ == text::lowered(word@),
            forall|k: int| 0 <= k < i ==> text::lowered(#[trigger] all[k]) != want@,
        decreases types@.len() - i,
    {
        let t = text::lower(types[i].as_str());
        assert(all[i as int] == types@[i as int]@);
        if text::same(t.as_str(), want.as_str()) {
            return true;
        }
        i = i + 1;
    }
    false
}

/// The kind of a release, empty where there is none or it is an ordinary album.
pub fn release_kind(release: &Option<MbRelease>) -> (r: &'static str)
    ensures
        r@ == match release_view(*release) {
            Some(v) => kind_of(v),
            None => Seq::empty(),
        },
{
    proof {
        reveal_strlit("");
        assert(""@ =~= Seq::<char>::empty());
    }
    match release {
        Some(m) => {
            if text::same(m.primary_type.as_str(), "Soundtrack") {
                "Soundtrack"
            } else if is_typed(&m.secondary_types, "compilation") || is_typed(
                &m.secondary_types,
                "live",
            ) || text::same(m.primary_type.as_str(), "Compilation") {
                "Compilation"
            } else if text::same(m.primary_type.as_str(), "Single") || text::same(
                m.primary_type.as_str(),
                "EP",
            ) {
                "Single"
            } else {
                ""
            }
        },
        None => "",
    }
}

// ---------------------------------------------------------------------------
// Laws

/// The release that is chosen fits at least as well as every other of the answer, and among those
/// that fit as well it comes first.
pub proof fn the_best_release_is_chosen(items: Seq<JsonView>, want: Seq<char>)
    ensures
        match best_release(items, want) {
            Some(Some(best)) => exists|i: int|
                0 <= i < items.len() && release_of(#[trigger] items[i]) == Some(best) && (forall|
                    j: int,
                |
                    0 <= j < items.len() ==> match release_of(#[trigger] items[j]) {
                        Some(r) => rank(r, want) <= rank(best, want) && (j < i ==> rank(r, want)
                            < rank(best, want)),
                        None => false,
                    }),
            Some(None) => items.len() == 0,
            None => exists|i: int| 0 <= i < items.len() && release_of(#[trigger] items[i]) is None,
        },
    decreases items.len(),
{
    if items.len() > 0 {
        let rest = items.drop_last();
        let n = items.len() - 1;
        the_best_release_is_chosen(rest, want);
        assert forall|i: int| 0 <= i < n implies rest[i] == items[i] by {}
        match (best_release(rest, want), release_of(items.last())) {
            (Some(None), Some(r)) => {
                assert(items[0] == items.last());
            },
            (Some(Some(best)), Some(r)) => {
                let i = choose|i: int|
                    0 <= i < rest.len() && release_of(#[trigger] rest[i]) == Some(best) && (forall|
                        j: int,
                    |
                        0 <= j < rest.len() ==> match release_of(#[trigger] rest[j]) {
                            Some(r) => rank(r, want) <= rank(best, want) && (j < i ==> rank(r, want)
                                < rank(best, want)),
                            None => false,
                        });
                if rank(r, want) > rank(best, want) {
                    assert(release_of(items[n]) == Some(r));
                    assert forall|j: int| 0 <= j < items.len() implies match release_of(
                        #[trigger] items[j],
                    ) {
                        Some(q) => rank(q, want) <= rank(r, want) && (j < n ==> rank(q, want)
                            < rank(r, want)),
                        None => false,
                    } by {
                        if j < n {
                            assert(rest[j] == items[j]);
                        }
                    }
                } else {
                    assert(release_of(items[i]) == Some(best));
                    assert forall|j: int| 0 <= j < items.len() implies match release_of(
                        #[trigger] items[j],
                    ) {
                        Some(q) => rank(q, want) <= rank(best, want) && (j < i ==> rank(q, want)
                            < rank(best, want)),
                        None => false,
                    } by {
                        if j < n {
                            assert(rest[j] == items[j]);
                        }
                    }
                }
            },
            (None, _) => {
                let i = choose|i: int|
                    0 <= i < rest.len() && release_of(#[trigger] rest[i]) is None;
                assert(release_of(items[i]) is None);
            },
            (_, None) => {
                assert(release_of(items[n]) is None);
            },
        }
    }
}

/// The ID of the group that the document of a release names.
pub fn release_group(doc: &Option<Json>) -> (r: Option<String>)
    ensures
        text::view_opt(r) == json::string_of(
            json::member_opt(json::member_opt(json::doc_view(*doc), "release-group"@), "id"@),
        ),
{
    json::str_value(json::get_opt(json::get_opt(json::root(doc), "release-group"), "id"))
}

} // verus!
