//! TheAudioDB: pictures, descriptions and genres.

use crate::config;
use crate::json;
use crate::json::{Json, JsonView};
use crate::net;
use crate::net::{Reply, Request};
use crate::text;
use crate::url;
use vstd::prelude::*;

verus! {

/// An artist of TheAudioDB.
#[derive(Debug, Clone)]
pub struct TheAudioDbArtist {
    pub id: String,
    pub name: String,
    pub biography: String,
    pub banner: String,
    pub fanart: String,
    pub thumb: String,
    pub genre: String,
}

/// An album of TheAudioDB.
#[derive(Debug, Clone)]
pub struct TheAudioDbAlbum {
    pub id: String,
    pub name: String,
    pub description: String,
    pub str_artwork: String,
    pub genre: String,
}

/// The mathematical value of an artist.
#[verifier::ext_equal]
pub struct ArtistView {
    pub id: Seq<char>,
    pub name: Seq<char>,
    pub biography: Seq<char>,
    pub banner: Seq<char>,
    pub fanart: Seq<char>,
    pub thumb: Seq<char>,
    pub genre: Seq<char>,
}

/// The mathematical value of an album.
#[verifier::ext_equal]
pub struct AlbumView {
    pub id: Seq<char>,
    pub name: Seq<char>,
    pub description: Seq<char>,
    pub str_artwork: Seq<char>,
    pub genre: Seq<char>,
}

impl View for TheAudioDbArtist {
    type V = ArtistView;

    open spec fn view(&self) -> ArtistView {
        ArtistView {
            id: self.id@,
            name: self.name@,
            biography: self.biography@,
            banner: self.banner@,
            fanart: self.fanart@,
            thumb: self.thumb@,
            genre: self.genre@,
        }
    }
}

impl View for TheAudioDbAlbum {
    type V = AlbumView;

    open spec fn view(&self) -> AlbumView {
        AlbumView {
            id: self.id@,
            name: self.name@,
            description: self.description@,
            str_artwork: self.str_artwork@,
            genre: self.genre@,
        }
    }
}

pub open spec fn artist_view(a: Option<TheAudioDbArtist>) -> Option<ArtistView> {
    match a {
        Some(v) => Some(v@),
        None => None,
    }
}

pub open spec fn album_view(a: Option<TheAudioDbAlbum>) -> Option<AlbumView> {
    match a {
        Some(v) => Some(v@),
        None => None,
    }
}

/// The text of a field.
pub open spec fn field(v: JsonView, key: Seq<char>) -> Option<Seq<char>> {
    json::string_of(json::member(v, key))
}

fn read_field(v: &Json, key: &str) -> (r: Option<String>)
    ensures
        text::view_opt(r) == field(v@, key@),
{
    json::str_value(v.get(key))
}

/// An artist as an answer describes it. Every field is there.
pub open spec fn artist_of(v: JsonView) -> Option<ArtistView> {
    match (
        field(v, "idArtist"@),
        field(v, "strArtist"@),
        field(v, "strBiographyEN"@),
        field(v, "strArtistBanner"@),
        field(v, "strArtistFanart"@),
        field(v, "strArtistThumb"@),
        field(v, "strGenre"@),
    ) {
        (
            Some(id),
            Some(name),
            Some(biography),
            Some(banner),
            Some(fanart),
            Some(thumb),
            Some(genre),
        ) => Some(ArtistView { id, name, biography, banner, fanart, thumb, genre }),
        _ => None,
    }
}

/// An album as an answer describes it. Every field is there.
pub open spec fn album_of(v: JsonView) -> Option<AlbumView> {
    match (
        field(v, "idAlbum"@),
        field(v, "strAlbum"@),
        field(v, "strDescriptionEN"@),
        field(v, "strAlbumThumb"@),
        field(v, "strGenre"@),
    ) {
        (Some(id), Some(name), Some(description), Some(str_artwork), Some(genre)) => Some(
            AlbumView { id, name, description, str_artwork, genre },
        ),
        _ => None,
    }
}

/// The first artist of an answer.
pub open spec fn first_artist(answer: Option<JsonView>) -> Option<ArtistView> {
    let items = json::items_of(json::member_opt(answer, "artists"@));
    if items.len() == 0 {
        None
    } else {
        artist_of(items[0])
    }
}

/// The first album of an answer.
pub open spec fn first_album(answer: Option<JsonView>) -> Option<AlbumView> {
    let items = json::items_of(json::member_opt(answer, "album"@));
    if items.len() == 0 {
        None
    } else {
        album_of(items[0])
    }
}

pub fn found_artist(answer: &Option<Json>) -> (r: Option<TheAudioDbArtist>)
    ensures
        artist_view(r) == first_artist(json::doc_view(*answer)),
{
    let v = match json::first_item(json::get_opt(json::root(answer), "artists")) {
        Some(v) => v,
        None => {
            return None;
        },
    };
    match (
        read_field(v, "idArtist"),
        read_field(v, "strArtist"),
        read_field(v, "strBiographyEN"),
        read_field(v, "strArtistBanner"),
        read_field(v, "strArtistFanart"),
        read_field(v, "strArtistThumb"),
        read_field(v, "strGenre"),
    ) {
        (
            Some(id),
            Some(name),
            Some(biography),
            Some(banner),
            Some(fanart),
            Some(thumb),
            Some(genre),
        ) => Some(TheAudioDbArtist { id, name, biography, banner, fanart, thumb, genre }),
        _ => None,
    }
}

pub fn found_album(answer: &Option<Json>) -> (r: Option<TheAudioDbAlbum>)
    ensures
        album_view(r) == first_album(json::doc_view(*answer)),
{
    let v = match json::first_item(json::get_opt(json::root(answer), "album")) {
        Some(v) => v,
        None => {
            return None;
        },
    };
    match (
        read_field(v, "idAlbum"),
        read_field(v, "strAlbum"),
        read_field(v, "strDescriptionEN"),
        read_field(v, "strAlbumThumb"),
        read_field(v, "strGenre"),
    ) {
        (Some(id), Some(name), Some(description), Some(str_artwork), Some(genre)) => Some(
            TheAudioDbAlbum { id, name, description, str_artwork, genre },
        ),
        _ => None,
    }
}

// ---------------------------------------------------------------------------
// Asking

pub open spec fn search_url(key: Seq<char>, kind: Seq<char>, term: Seq<char>) -> Seq<char> {
    "https://theaudiodb.com/api/v1/json/"@ + key + "/search.php?"@ + kind + "="@ + url::encoded(
        term,
    )
}

fn make_url(key: &str, kind: &str, term: &str) -> (r: String)
    ensures
        r@ == search_url(key@, kind@, term@),
{
    let mut q = text::copy("https://theaudiodb.com/api/v1/json/");
    q.append(key);
    q.append("/search.php?");
    q.append(kind);
    q.append("=");
    q.append(url::urlencode(term).as_str());
    q
}

/// The search for an artist; none without a key, or where pictures of artists are not wanted.
pub fn search_artist(key: &str, fanart: bool, name: &str) -> (r: Option<Request>)
    ensures
        match r {
            Some(q) => key@.len() > 0 && fanart && q@ == net::asking(
                search_url(key@, "s"@, name@),
                Seq::empty(),
                15_000,
            ),
            None => key@.len() == 0 || !fanart,
        },
{
    if text::length(key) == 0 || !fanart {
        return None;
    }
    Some(net::ask(make_url(key, "s", name), net::no_headers(), 15_000))
}

/// The search for an album; none without a key.
pub fn search_album(key: &str, artist: &str, album: &str) -> (r: Option<Request>)
    ensures
        match r {
            Some(q) => key@.len() > 0 && q@ == net::asking(
                search_url(key@, "t"@, artist@ + " "@ + album@),
                Seq::empty(),
                15_000,
            ),
            None => key@.len() == 0,
        },
{
    if text::length(key) == 0 {
        return None;
    }
    let mut term = text::copy(artist);
    term.append(" ");
    term.append(album);
    Some(net::ask(make_url(key, "t", term.as_str()), net::no_headers(), 15_000))
}

/// The artist that an answer gives.
pub fn answered_artist(reply: &Reply) -> (r: Option<TheAudioDbArtist>)
    ensures
        artist_view(r) == match net::good_body(reply@) {
            Some(body) => first_artist(json::document(body)),
            None => None,
        },
{
    match net::ok_body(reply) {
        Some(body) => found_artist(&json::parse(body.as_str())),
        None => None,
    }
}

/// The album that an answer gives.
pub fn answered_album(reply: &Reply) -> (r: Option<TheAudioDbAlbum>)
    ensures
        album_view(r) == match net::good_body(reply@) {
            Some(body) => first_album(json::document(body)),
            None => None,
        },
{
    match net::ok_body(reply) {
        Some(body) => found_album(&json::parse(body.as_str())),
        None => None,
    }
}

/// The key under which an album's picture is kept, and the question for it; none where the album
/// has no picture.
pub fn fetch_album_artwork(album: &TheAudioDbAlbum) -> (r: Option<(String, Request)>)
    ensures
        match r {
            Some(p) => album.str_artwork@.len() > 0 && p.0@ == "tdb:art:"@ + album.id@ && p.1@
                == net::asking(album.str_artwork@, Seq::empty(), 15_000),
            None => album.str_artwork@.len() == 0,
        },
{
    if text::length(album.str_artwork.as_str()) == 0 {
        return None;
    }
    Some(
        (
            text::join_two("tdb:art:", album.id.as_str()),
            net::ask(album.str_artwork.clone(), net::no_headers(), 15_000),
        ),
    )
}

pub open spec fn texts_opt(v: Option<Vec<String>>) -> Option<Seq<Seq<char>>> {
    match v {
        Some(t) => Some(text::views(t@)),
        None => None,
    }
}

/// The genres of an album, separated by commas; none where it names none.
pub fn fetch_genres(album: &Option<TheAudioDbAlbum>) -> (r: Option<Vec<String>>)
    ensures
        texts_opt(r) == match album_view(*album) {
            Some(a) => if a.genre.len() == 0 {
                None
            } else {
                Some(config::filled_texts(text::split_by(a.genre, text::among(","@))))
            },
            None => None,
        },
{
    match album {
        Some(a) => {
            if text::length(a.genre.as_str()) == 0 {
                return None;
            }
            Some(config::fill_texts(&text::split(a.genre.as_str(), ",")))
        },
        None => None,
    }
}

} // verus!
