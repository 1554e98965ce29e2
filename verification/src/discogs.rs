//! Discogs: releases and who worked on them.

use crate::json;
use crate::json::{Json, JsonView};
use crate::net;
use crate::net::{Reply, Request};
use crate::organizer;
use crate::text;
use crate::url;
use vstd::prelude::*;

verus! {

/// A release of Discogs. The average rating keeps its text.
#[derive(Debug, Clone)]
pub struct DiscogsRelease {
    pub id: u64,
    pub title: String,
    pub year: Option<u32>,
    pub genres: Vec<String>,
    pub styles: Vec<String>,
    pub community_rating: Option<String>,
    pub num_ratings: Option<u32>,
}

/// Someone who worked on a release.
#[derive(Debug, Clone)]
pub struct DiscogsCredit {
    pub name: String,
    pub role: String,
}

/// The mathematical value of a release.
#[verifier::ext_equal]
pub struct ReleaseView {
    pub id: int,
    pub title: Seq<char>,
    pub year: Option<u32>,
    pub genres: Seq<Seq<char>>,
    pub styles: Seq<Seq<char>>,
    pub community_rating: Option<Seq<char>>,
    pub num_ratings: Option<u32>,
}

impl View for DiscogsRelease {
    type V = ReleaseView;

    open spec fn view(&self) -> ReleaseView {
        ReleaseView {
            id: self.id as int,
            title: self.title@,
            year: self.year,
            genres: text::views(self.genres@),
            styles: text::views(self.styles@),
            community_rating: text::view_opt(self.community_rating),
            num_ratings: self.num_ratings,
        }
    }
}

pub open spec fn release_view(r: Option<DiscogsRelease>) -> Option<ReleaseView> {
    match r {
        Some(v) => Some(v@),
        None => None,
    }
}

pub open spec fn credit_views(v: Seq<DiscogsCredit>) -> Seq<(Seq<char>, Seq<char>)> {
    v.map_values(|c: DiscogsCredit| (c.name@, c.role@))
}

// ---------------------------------------------------------------------------
// Reading

/// A whole number without sign, its lowest 32 bits.
pub open spec fn small_natural(v: Option<JsonView>) -> Option<u32> {
    match json::natural(v) {
        Some(n) => Some((n % 0x1_0000_0000) as u32),
        None => None,
    }
}

fn small_value(v: Option<&Json>) -> (r: Option<u32>)
    ensures
        r == small_natural(json::shown(v)),
{
    match json::natural_value(v) {
        Some(n) => Some((n % 0x1_0000_0000) as u32),
        None => None,
    }
}

/// The rating that a result of a search carries.
pub open spec fn rating_of(v: JsonView) -> Option<JsonView> {
    json::member_opt(json::member(v, "community"@), "rating"@)
}

/// A result of a search. It has at least an ID and a title.
pub open spec fn release_of(v: JsonView) -> Option<ReleaseView> {
    match (json::natural(json::member(v, "id"@)), json::string_of(json::member(v, "title"@))) {
        (Some(id), Some(title)) => Some(
            ReleaseView {
                id,
                title,
                year: small_natural(json::member(v, "year"@)),
                genres: json::texts_among(json::items_of(json::member(v, "genre"@))),
                styles: json::texts_among(json::items_of(json::member(v, "style"@))),
                community_rating: json::number_text(json::member_opt(rating_of(v), "average"@)),
                num_ratings: small_natural(json::member_opt(rating_of(v), "num_ratings"@)),
            },
        ),
        _ => None,
    }
}

fn read_release(v: &Json) -> (r: Option<DiscogsRelease>)
    ensures
        release_view(r) == release_of(v@),
{
    let id = json::natural_value(v.get("id"));
    let title = json::str_value(v.get("title"));
    match (id, title) {
        (Some(id), Some(title)) => {
            let rating = json::get_opt(v.get("community"), "rating");
            Some(
                DiscogsRelease {
                    id,
                    title,
                    year: small_value(v.get("year")),
                    genres: json::texts(v.get("genre")),
                    styles: json::texts(v.get("style")),
                    community_rating: json::number_value(json::get_opt(rating, "average")),
                    num_ratings: small_value(json::get_opt(rating, "num_ratings")),
                },
            )
        },
        _ => None,
    }
}

/// The first result of a search.
pub open spec fn first_result(answer: Option<JsonView>) -> Option<ReleaseView> {
    let results = json::items_of(json::member_opt(answer, "results"@));
    if results.len() == 0 {
        None
    } else {
        release_of(results[0])
    }
}

/// The best match of a search: the first result.
pub fn best_match(answer: &Option<Json>) -> (r: Option<DiscogsRelease>)
    ensures
        release_view(r) == first_result(json::doc_view(*answer)),
{
    match json::first_item(json::get_opt(json::root(answer), "results")) {
        Some(v) => read_release(v),
        None => None,
    }
}

/// The credits among the values: those with a name and a role.
pub open spec fn credits_among(v: Seq<JsonView>) -> Seq<(Seq<char>, Seq<char>)>
    decreases v.len(),
{
    if v.len() == 0 {
        Seq::empty()
    } else {
        match (
            json::string_of(json::member(v.last(), "name"@)),
            json::string_of(json::member(v.last(), "role"@)),
        ) {
            (Some(name), Some(role)) => credits_among(v.drop_last()).push((name, role)),
            _ => credits_among(v.drop_last()),
        }
    }
}

/// Who worked on a release, as its description says.
pub fn credits_in(answer: &Option<Json>) -> (r: Vec<DiscogsCredit>)
    ensures
        credit_views(r@) == credits_among(
            json::items_of(json::member_opt(json::doc_view(*answer), "extraartists"@)),
        ),
{
    let mut out: Vec<DiscogsCredit> = Vec::new();
    assert(credit_views(out@) =~= credits_among(Seq::<JsonView>::empty()));
    match json::items(json::get_opt(json::root(answer), "extraartists")) {
        Some(a) => {
            let ghost all = json::trees(a@);
            let mut i: usize = 0;
            proof {
                json::trees_index(a@);
                assert(all.take(0) =~= Seq::<JsonView>::empty());
            }
            while i < a.len()
                invariant
                    i <= a@.len(),
                    all == json::trees(a@),
                    all.len() == a@.len(),
                    forall|k: int| 0 <= k < a@.len() ==> all[k] == json::tree(#[trigger] a@[k]),
                    credit_views(out@) == credits_among(all.take(i as int)),
                decreases a@.len() - i,
            {
                proof {
                    assert(all.take(i + 1).drop_last() == all.take(i as int));
                    assert(all.take(i + 1).last() == json::tree(a@[i as int]));
                }
                let name = json::str_value(a[i].get("name"));
                let role = json::str_value(a[i].get("role"));
                match (name, role) {
                    (Some(name), Some(role)) => {
                        let ghost before = out@;
                        let ghost shown = (name@, role@);
                        out.push(DiscogsCredit { name, role });
                        assert(credit_views(out@) =~= credit_views(before).push(shown));
                    },
                    _ => {},
                }
                i = i + 1;
            }
            assert(all.take(i as int) == all);
        },
        None => {
            assert(json::items_of(
                json::member_opt(json::doc_view(*answer), "extraartists"@),
            ) =~= Seq::<JsonView>::empty());
        },
    }
    out
}

// ---------------------------------------------------------------------------
// Asking

pub open spec fn headers(token: Seq<char>) -> Seq<(Seq<char>, Seq<char>)> {
    seq![
        ("User-Agent"@, "nd-organizer/0.2.0 (https://github.com/Lunatixz/nd-organizer)"@),
        ("Authorization"@, "Discogs token="@ + token),
    ]
}

fn make_headers(token: &str) -> (r: Vec<(String, String)>)
    ensures
        organizer::pair_views(r@) == headers(token@),
{
    let mut h = net::no_headers();
    net::put_header(
        &mut h,
        "User-Agent",
        "nd-organizer/0.2.0 (https://github.com/Lunatixz/nd-organizer)",
    );
    net::put_header(&mut h, "Authorization", text::join_two("Discogs token=", token).as_str());
    assert(organizer::pair_views(h@) =~= headers(token@));
    h
}

/// The search for a release by artist and album; none without a token.
pub fn search_release(token: &str, artist: &str, album: &str) -> (r: Option<Request>)
    ensures
        match r {
            Some(q) => token@.len() > 0 && q@ == net::asking(
                "https://api.discogs.com/database/search?q="@ + url::encoded(
                    artist@ + " "@ + album@,
                ) + "&type=release&per_page=5"@,
                headers(token@),
                15_000,
            ),
            None => token@.len() == 0,
        },
{
    if text::length(token) == 0 {
        return None;
    }
    let mut term = text::copy(artist);
    term.append(" ");
    term.append(album);
    let mut q = text::copy("https://api.discogs.com/database/search?q=");
    q.append(url::urlencode(term.as_str()).as_str());
    q.append("&type=release&per_page=5");
    Some(net::ask(q, make_headers(token), 15_000))
}

/// The release that a search found.
pub fn searched(reply: &Reply) -> (r: Option<DiscogsRelease>)
    ensures
        release_view(r) == match net::good_body(reply@) {
            Some(body) => first_result(json::document(body)),
            None => None,
        },
{
    match net::ok_body(reply) {
        Some(body) => best_match(&json::parse(body.as_str())),
        None => None,
    }
}

/// The question for the description of a release; none without a token.
pub fn get_credits(token: &str, release_id: u64) -> (r: Option<Request>)
    ensures
        match r {
            Some(q) => token@.len() > 0 && q@ == net::asking(
                "https://api.discogs.com/releases/"@ + text::decimal(release_id as nat),
                headers(token@),
                15_000,
            ),
            None => token@.len() == 0,
        },
{
    if text::length(token) == 0 {
        return None;
    }
    Some(
        net::ask(
            text::join_two(
                "https://api.discogs.com/releases/",
                text::format_nat(release_id).as_str(),
            ),
            make_headers(token),
            15_000,
        ),
    )
}

/// Who worked on a release, as the answer says.
pub fn credited(reply: &Reply) -> (r: Vec<DiscogsCredit>)
    ensures
        credit_views(r@) == match net::good_body(reply@) {
            Some(body) => credits_among(
                json::items_of(json::member_opt(json::document(body), "extraartists"@)),
            ),
            None => Seq::empty(),
        },
{
    match net::ok_body(reply) {
        Some(body) => credits_in(&json::parse(body.as_str())),
        None => {
            let none: Vec<DiscogsCredit> = Vec::new();
            assert(credit_views(none@) =~= Seq::<(Seq<char>, Seq<char>)>::empty());
            none
        },
    }
}

} // verus!
