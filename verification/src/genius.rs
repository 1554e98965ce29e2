//! Genius: songs and their words.

use crate::json;
use crate::json::{Json, JsonView};
use crate::net;
use crate::net::{Reply, Request};
use crate::organizer;
use crate::text;
use crate::url;
use vstd::prelude::*;

verus! {

/// A song of Genius.
#[derive(Debug, Clone)]
pub struct GeniusSong {
    pub id: u64,
    pub title: String,
    pub artist: String,
    pub album: Option<String>,
    pub lyrics_state: String,
    pub url: String,
    pub thumbnail: Option<String>,
}

/// The mathematical value of a song.
#[verifier::ext_equal]
pub struct SongView {
    pub id: int,
    pub title: Seq<char>,
    pub artist: Seq<char>,
    pub album: Option<Seq<char>>,
    pub lyrics_state: Seq<char>,
    pub url: Seq<char>,
    pub thumbnail: Option<Seq<char>>,
}

impl View for GeniusSong {
    type V = SongView;

    open spec fn view(&self) -> SongView {
        SongView {
            id: self.id as int,
            title: self.title@,
            artist: self.artist@,
            album: text::view_opt(self.album),
            lyrics_state: self.lyrics_state@,
            url: self.url@,
            thumbnail: text::view_opt(self.thumbnail),
        }
    }
}

pub open spec fn song_view(s: Option<GeniusSong>) -> Option<SongView> {
    match s {
        Some(v) => Some(v@),
        None => None,
    }
}

/// A song as a hit of a search describes it. It has an ID, a title, an artist and an address.
pub open spec fn song_of(v: Option<JsonView>) -> Option<SongView> {
    match (
        json::natural(json::member_opt(v, "id"@)),
        json::string_of(json::member_opt(v, "title"@)),
        json::string_of(json::member_opt(json::member_opt(v, "primary_artist"@), "name"@)),
        json::string_of(json::member_opt(v, "url"@)),
    ) {
        (Some(id), Some(title), Some(artist), Some(url)) => Some(
            SongView {
                id,
                title,
                artist,
                album: json::string_of(json::member_opt(json::member_opt(v, "album"@), "name"@)),
                lyrics_state: match json::string_of(json::member_opt(v, "lyrics_state"@)) {
                    Some(s) => s,
                    None => "unknown"@,
                },
                url,
                thumbnail: json::string_of(json::member_opt(v, "song_art_image_thumbnail_url"@)),
            },
        ),
        _ => None,
    }
}

fn read_song(v: Option<&Json>) -> (r: Option<GeniusSong>)
    ensures
        song_view(r) == song_of(json::shown(v)),
{
    let id = json::natural_value(json::get_opt(v, "id"));
    let title = json::str_value(json::get_opt(v, "title"));
    let artist = json::str_value(json::get_opt(json::get_opt(v, "primary_artist"), "name"));
    let address = json::str_value(json::get_opt(v, "url"));
    match (id, title, artist, address) {
        (Some(id), Some(title), Some(artist), Some(address)) => {
            let state = json::str_value(json::get_opt(v, "lyrics_state"));
            Some(
                GeniusSong {
                    id,
                    title,
                    artist,
                    album: json::str_value(json::get_opt(json::get_opt(v, "album"), "name")),
                    lyrics_state: match state {
                        Some(s) => s,
                        None => text::copy("unknown"),
                    },
                    url: address,
                    thumbnail: json::str_value(json::get_opt(v, "song_art_image_thumbnail_url")),
                },
            )
        },
        _ => None,
    }
}

/// The song of the first hit of a search.
pub open spec fn first_hit(answer: Option<JsonView>) -> Option<SongView> {
    let hits = json::items_of(json::member_opt(json::member_opt(answer, "response"@), "hits"@));
    if hits.len() == 0 {
        None
    } else {
        song_of(json::member(hits[0], "result"@))
    }
}

/// The song that a search found.
pub fn found_song(answer: &Option<Json>) -> (r: Option<GeniusSong>)
    ensures
        song_view(r) == first_hit(json::doc_view(*answer)),
{
    let hits = json::get_opt(json::get_opt(json::root(answer), "response"), "hits");
    match json::first_item(hits) {
        Some(hit) => read_song(hit.get("result")),
        None => None,
    }
}

/// The words of a song; none where they are empty or not there yet.
pub open spec fn words_of(answer: Option<JsonView>) -> Option<Seq<char>> {
    let song = json::member_opt(json::member_opt(answer, "response"@), "song"@);
    match json::string_of(json::member_opt(json::member_opt(song, "lyrics"@), "plain"@)) {
        Some(s) => if s.len() == 0 || s == "Lyrics not yet available"@ {
            None
        } else {
            Some(s)
        },
        None => None,
    }
}

/// The words of a song as its description gives them.
pub fn words(answer: &Option<Json>) -> (r: Option<String>)
    ensures
        text::view_opt(r) == words_of(json::doc_view(*answer)),
{
    let song = json::get_opt(json::get_opt(json::root(answer), "response"), "song");
    match json::str_value(json::get_opt(json::get_opt(song, "lyrics"), "plain")) {
        Some(s) => if text::length(s.as_str()) == 0 || text::same(
            s.as_str(),
            "Lyrics not yet available",
        ) {
            None
        } else {
            Some(s)
        },
        None => None,
    }
}

// ---------------------------------------------------------------------------
// Asking

pub open spec fn headers(token: Seq<char>) -> Seq<(Seq<char>, Seq<char>)> {
    seq![("Authorization"@, "Bearer "@ + token)]
}

fn make_headers(token: &str) -> (r: Vec<(String, String)>)
    ensures
        organizer::pair_views(r@) == headers(token@),
{
    let mut h = net::no_headers();
    net::put_header(&mut h, "Authorization", text::join_two("Bearer ", token).as_str());
    assert(organizer::pair_views(h@) =~= headers(token@));
    h
}

/// The search for a song; none without a token.
pub fn search_song(token: &str, artist: &str, title: &str) -> (r: Option<Request>)
    ensures
        match r {
            Some(q) => token@.len() > 0 && q@ == net::asking(
                "https://api.genius.com/search?q="@ + url::encoded(artist@ + " "@ + title@),
                headers(token@),
                15_000,
            ),
            None => token@.len() == 0,
        },
{
    if text::length(token) == 0 {
        return None;
    }
    let mut term = text::copy(artist);
    term.append(" ");
    term.append(title);
    Some(
        net::ask(
            text::join_two(
                "https://api.genius.com/search?q=",
                url::urlencode(term.as_str()).as_str(),
            ),
            make_headers(token),
            15_000,
        ),
    )
}

/// The song that the answer to a search gives.
pub fn searched(reply: &Reply) -> (r: Option<GeniusSong>)
    ensures
        song_view(r) == match net::good_body(reply@) {
            Some(body) => first_hit(json::document(body)),
            None => None,
        },
{
    match net::ok_body(reply) {
        Some(body) => found_song(&json::parse(body.as_str())),
        None => None,
    }
}

/// The question for a song's words; none without a token.
pub fn get_lyrics(token: &str, song_id: u64) -> (r: Option<Request>)
    ensures
        match r {
            Some(q) => token@.len() > 0 && q@ == net::asking(
                "https://api.genius.com/songs/"@ + text::decimal(song_id as nat),
                headers(token@),
                15_000,
            ),
            None => token@.len() == 0,
        },
{
    if text::length(token) == 0 {
        return None;
    }
    Some(
        net::ask(
            text::join_two("https://api.genius.com/songs/", text::format_nat(song_id).as_str()),
            make_headers(token),
            15_000,
        ),
    )
}

/// The words that the answer gives.
pub fn answered_words(reply: &Reply) -> (r: Option<String>)
    ensures
        text::view_opt(r) == match net::good_body(reply@) {
            Some(body) => words_of(json::document(body)),
            None => None,
        },
{
    match net::ok_body(reply) {
        Some(body) => words(&json::parse(body.as_str())),
        None => None,
    }
}

} // verus!
