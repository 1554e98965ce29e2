//! Lidarr: which albums it knows, watches and misses tracks of.

use crate::config::Config;
use crate::json;
use crate::json::{Json, JsonView};
use crate::net;
use crate::net::{Body, BodyView, CircuitOp, Reply, ReplyView, Request, RequestView};
use crate::organizer;
use crate::text;
use crate::url;
use vstd::prelude::*;

verus! {

/// An album as Lidarr knows it.
#[derive(Debug, Clone)]
pub struct LidarrAlbum {
    pub id: i64,
    pub title: String,
    pub artist: String,
    pub artist_id: i64,
    pub monitored: bool,
    pub artist_monitored: bool,
    /// How many tracks the album has, where Lidarr knows it.
    pub track_count: Option<i64>,
}

/// The mathematical value of an album.
#[verifier::ext_equal]
pub struct AlbumView {
    pub id: int,
    pub title: Seq<char>,
    pub artist: Seq<char>,
    pub artist_id: int,
    pub monitored: bool,
    pub artist_monitored: bool,
    pub track_count: Option<int>,
}

pub open spec fn number_view(n: Option<i64>) -> Option<int> {
    match n {
        Some(k) => Some(k as int),
        None => None,
    }
}

impl View for LidarrAlbum {
    type V = AlbumView;

    open spec fn view(&self) -> AlbumView {
        AlbumView {
            id: self.id as int,
            title: self.title@,
            artist: self.artist@,
            artist_id: self.artist_id as int,
            monitored: self.monitored,
            artist_monitored: self.artist_monitored,
            track_count: number_view(self.track_count),
        }
    }
}

pub open spec fn album_view(a: Option<LidarrAlbum>) -> Option<AlbumView> {
    match a {
        Some(v) => Some(v@),
        None => None,
    }
}

// ---------------------------------------------------------------------------
// Reading

pub open spec fn number_or_zero(v: Option<JsonView>) -> int {
    match json::int_of(v) {
        Some(n) => n,
        None => 0,
    }
}

/// A truth value that counts as false where it is missing.
pub open spec fn yes(v: Option<JsonView>) -> bool {
    json::bool_of(v) == Some(true)
}

/// The ID of the artist: its own field, else the one of the artist.
pub open spec fn artist_id_of(v: JsonView) -> Option<JsonView> {
    match json::member(v, "artistId"@) {
        Some(id) => Some(id),
        None => json::member_opt(json::member(v, "artist"@), "id"@),
    }
}

/// The album that a value of Lidarr describes. It has at least an ID and a title.
pub open spec fn album_of(v: JsonView) -> Option<AlbumView> {
    match (
        json::int_of(json::member(v, "id"@)),
        json::string_of(json::member(v, "title"@)),
    ) {
        (Some(id), Some(title)) => Some(
            AlbumView {
                id,
                title,
                artist: json::text_or_empty(
                    json::member_opt(json::member(v, "artist"@), "artistName"@),
                ),
                artist_id: number_or_zero(artist_id_of(v)),
                monitored: yes(json::member(v, "monitored"@)),
                artist_monitored: yes(json::member_opt(json::member(v, "artist"@), "monitored"@)),
                track_count: json::int_of(
                    json::member_opt(json::member(v, "statistics"@), "trackCount"@),
                ),
            },
        ),
        _ => None,
    }
}

/// Reads an album out of a value of Lidarr.
pub fn parse_album(val: &Json) -> (r: Option<LidarrAlbum>)
    ensures
        album_view(r) == album_of(val@),
{
    let id = json::int_value(val.get("id"));
    let title = json::str_value(val.get("title"));
    match (id, title) {
        (Some(id), Some(title)) => {
            let artist = val.get("artist");
            let own = val.get("artistId");
            let artist_id = match own {
                Some(v) => json::int_value(own),
                None => json::int_value(json::get_opt(artist, "id")),
            };
            let monitored = json::bool_value(val.get("monitored"));
            let artist_monitored = json::bool_value(json::get_opt(artist, "monitored"));
            let album = LidarrAlbum {
                id,
                title,
                artist: json::str_or_empty(json::get_opt(artist, "artistName")),
                artist_id: match artist_id {
                    Some(n) => n,
                    None => 0,
                },
                monitored: match monitored {
                    Some(b) => b,
                    None => false,
                },
                artist_monitored: match artist_monitored {
                    Some(b) => b,
                    None => false,
                },
                track_count: json::int_value(json::get_opt(val.get("statistics"), "trackCount")),
            };
            Some(album)
        },
        _ => None,
    }
}

/// An album goes by a title and an artist, whatever the case of their letters.
pub open spec fn goes_by(a: AlbumView, album: Seq<char>, artist: Seq<char>) -> bool {
    organizer::same_but_case(a.title, album) && organizer::same_but_case(a.artist, artist)
}

/// The first of the values from position `i` on that describes the album.
pub open spec fn first_match(items: Seq<JsonView>, album: Seq<char>, artist: Seq<char>, i: int) -> Option<
    AlbumView,
>
    decreases items.len() - i,
{
    if i < 0 || i >= items.len() {
        None
    } else {
        match album_of(items[i]) {
            Some(a) => if goes_by(a, album, artist) {
                Some(a)
            } else {
                first_match(items, album, artist, i + 1)
            },
            None => first_match(items, album, artist, i + 1),
        }
    }
}

/// The album among those of an answer.
pub fn find_match(answer: &Option<Json>, album: &str, artist: &str) -> (r: Option<LidarrAlbum>)
    ensures
        album_view(r) == first_match(json::items_of(json::doc_view(*answer)), album@, artist@, 0),
{
    let items = match json::items(json::root(answer)) {
        Some(v) => v,
        None => {
            return None;
        },
    };
    let ghost all = json::trees(items@);
    let mut i: usize = 0;
    proof {
        json::trees_index(items@);
    }
    while i < items.len()
        invariant
            i <= items@.len(),
            all == json::trees(items@),
            all == json::items_of(json::doc_view(*answer)),
            all.len() == items@.len(),
            forall|k: int| 0 <= k < items@.len() ==> all[k] == json::tree(#[trigger] items@[k]),
            first_match(all, album@, artist@, 0) == first_match(all, album@, artist@, i as int),
        decreases items@.len() - i,
    {
        assert(all[i as int] == json::tree(items@[i as int]));
        match parse_album(&items[i]) {
            Some(a) => if organizer::equal_but_case(a.title.as_str(), album)
                && organizer::equal_but_case(a.artist.as_str(), artist) {
                return Some(a);
            },
            None => {},
        }
        i = i + 1;
    }
    None
}

// ---------------------------------------------------------------------------
// Asking

/// Lidarr can be asked where both its address and its key are set.
pub open spec fn configured(cfg: Config) -> bool {
    text::trimmed(cfg.lidarr_url@).len() > 0 && text::trimmed(cfg.lidarr_api_key@).len() > 0
}

pub fn is_configured(cfg: &Config) -> (r: bool)
    ensures
        r == configured(*cfg),
{
    text::length(text::trim(cfg.lidarr_url.as_str()).as_str()) > 0 && text::length(
        text::trim(cfg.lidarr_api_key.as_str()).as_str(),
    ) > 0
}

pub open spec fn headers(cfg: Config) -> Seq<(Seq<char>, Seq<char>)> {
    seq![("X-Api-Key"@, cfg.lidarr_api_key@), ("Content-Type"@, "application/json"@)]
}

fn make_headers(cfg: &Config) -> (r: Vec<(String, String)>)
    ensures
        organizer::pair_views(r@) == headers(*cfg),
{
    let mut h = net::no_headers();
    net::put_header(&mut h, "X-Api-Key", cfg.lidarr_api_key.as_str());
    net::put_header(&mut h, "Content-Type", "application/json");
    assert(organizer::pair_views(h@) =~= headers(*cfg));
    h
}

/// The key that Lidarr is asked with when it is probed.
pub fn headers_with_key(cfg: &Config) -> (r: Vec<(String, String)>)
    ensures
        organizer::pair_views(r@) == seq![("X-Api-Key"@, cfg.lidarr_api_key@)],
{
    let mut h = net::no_headers();
    net::put_header(&mut h, "X-Api-Key", cfg.lidarr_api_key.as_str());
    assert(organizer::pair_views(h@) =~= seq![("X-Api-Key"@, cfg.lidarr_api_key@)]);
    h
}

/// The key under which an album that was asked for is kept for a day, found or not.
pub fn album_key(artist: &str, album: &str) -> (r: String)
    ensures
        r@ == "lidarr-album:"@ + text::unicode_lowered(artist@) + "|"@ + text::unicode_lowered(
            album@,
        ),
{
    let mut key = text::copy("lidarr-album:");
    key.append(text::unicode_lower(artist).as_str());
    key.append("|");
    key.append(text::unicode_lower(album).as_str());
    key
}

/// The question for an album; none where Lidarr cannot be asked.
pub fn find_album(cfg: &Config, base: &str, album: &str, artist: &str) -> (r: Option<Request>)
    ensures
        match r {
            Some(q) => configured(*cfg) && q@ == net::asking(
                base@ + "/api/v1/album/lookup?term="@ + url::encoded(artist@ + " "@ + album@),
                headers(*cfg),
                15_000,
            ),
            None => !configured(*cfg),
        },
{
    if !is_configured(cfg) {
        return None;
    }
    let mut term = text::copy(artist);
    term.append(" ");
    term.append(album);
    let mut q = text::copy(base);
    q.append("/api/v1/album/lookup?term=");
    q.append(url::urlencode(term.as_str()).as_str());
    Some(net::ask(q, make_headers(cfg), 15_000))
}

/// The question for one album's details.
pub fn album_detail(cfg: &Config, base: &str, id: i64) -> (r: Request)
    ensures
        r@ == net::asking(
            base@ + "/api/v1/album/"@ + text::decimal_int(id as int),
            headers(*cfg),
            15_000,
        ),
{
    let mut q = text::copy(base);
    q.append("/api/v1/album/");
    q.append(text::format_int(id).as_str());
    net::ask(q, make_headers(cfg), 15_000)
}

/// The circuit after an exchange: an answer of success clears it, a broken server or connection
/// opens it. An answer without data leaves it.
pub open spec fn send_op(reply: ReplyView) -> CircuitOp {
    match reply {
        ReplyView::Answer { status, body } => if 200 <= status < 300 {
            CircuitOp::Clear
        } else if status >= 500 {
            CircuitOp::MarkFailed
        } else {
            CircuitOp::Keep
        },
        ReplyView::Silent => CircuitOp::Keep,
        ReplyView::Failed { cause } => CircuitOp::MarkFailed,
    }
}

/// What becomes of Lidarr's circuit.
pub fn after_send(reply: &Reply) -> (r: CircuitOp)
    ensures
        r == send_op(reply@),
{
    match reply {
        Reply::Answer { status, body } => if 200 <= *status && *status < 300 {
            CircuitOp::Clear
        } else if *status >= 500 {
            CircuitOp::MarkFailed
        } else {
            CircuitOp::Keep
        },
        Reply::Silent => CircuitOp::Keep,
        Reply::Failed { cause } => CircuitOp::MarkFailed,
    }
}

/// The album that the answer to a lookup gives.
pub fn found_album(reply: &Reply, album: &str, artist: &str) -> (r: Option<LidarrAlbum>)
    ensures
        album_view(r) == match net::good_body(reply@) {
            Some(body) => first_match(json::items_of(json::document(body)), album@, artist@, 0),
            None => None,
        },
{
    match net::ok_body(reply) {
        Some(body) => find_match(&json::parse(body.as_str()), album, artist),
        None => None,
    }
}

/// Whether the details of an album are asked for: where the number of its tracks is missing.
pub fn needs_detail(found: &Option<LidarrAlbum>) -> (r: Option<i64>)
    ensures
        number_view(r) == match album_view(*found) {
            Some(a) => if a.track_count is None {
                Some(a.id)
            } else {
                None
            },
            None => None,
        },
{
    match found {
        Some(a) => match a.track_count {
            Some(n) => None,
            None => Some(a.id),
        },
        None => None,
    }
}

/// The album after its details came in: as they say, or as it was.
pub open spec fn detailed(found: AlbumView, detail: Option<JsonView>) -> AlbumView {
    match detail {
        Some(v) => match album_of(v) {
            Some(a) => a,
            None => found,
        },
        None => found,
    }
}

pub fn with_detail(found: LidarrAlbum, reply: &Reply) -> (r: LidarrAlbum)
    ensures
        r@ == detailed(
            found@,
            match net::good_body(reply@) {
                Some(body) => json::document(body),
                None => None,
            },
        ),
{
    match net::ok_body(reply) {
        Some(body) => match json::parse(body.as_str()) {
            Some(v) => match parse_album(&v) {
                Some(a) => a,
                None => found,
            },
            None => found,
        },
        None => found,
    }
}

/// How an album that was asked for is kept: as Lidarr would describe it, or nothing.
pub open spec fn kept(a: Option<AlbumView>) -> JsonView {
    match a {
        Some(v) => JsonView::Object(
            seq![
                ("id"@, JsonView::Int(v.id)),
                ("title"@, JsonView::Str(v.title)),
                ("monitored"@, JsonView::Bool(v.monitored)),
                ("artistId"@, JsonView::Int(v.artist_id)),
                (
                    "artist"@,
                    JsonView::Object(
                        seq![
                            ("artistName"@, JsonView::Str(v.artist)),
                            ("monitored"@, JsonView::Bool(v.artist_monitored)),
                        ],
                    ),
                ),
                (
                    "statistics"@,
                    JsonView::Object(
                        match v.track_count {
                            Some(n) => seq![("trackCount"@, JsonView::Int(n))],
                            None => Seq::empty(),
                        },
                    ),
                ),
            ],
        ),
        None => JsonView::Null,
    }
}

/// What is kept of an album that was asked for.
pub fn keep(found: &Option<LidarrAlbum>) -> (r: Json)
    ensures
        r@ == kept(album_view(*found)),
{
    match found {
        Some(a) => {
            let mut stats: Vec<(String, Json)> = Vec::new();
            match a.track_count {
                Some(n) => {
                    json::put(&mut stats, "trackCount", json::number(n));
                    assert(json::members(stats@) =~= seq![
                        ("trackCount"@, JsonView::Int(n as int)),
                    ]);
                },
                None => {
                    assert(json::members(stats@) =~= Seq::<(Seq<char>, JsonView)>::empty());
                },
            }
            let mut artist: Vec<(String, Json)> = Vec::new();
            json::put(&mut artist, "artistName", json::string(a.artist.as_str()));
            json::put(&mut artist, "monitored", Json::Bool(a.artist_monitored));
            assert(json::members(artist@) =~= seq![
                ("artistName"@, JsonView::Str(a.artist@)),
                ("monitored"@, JsonView::Bool(a.artist_monitored)),
            ]);
            let mut out: Vec<(String, Json)> = Vec::new();
            json::put(&mut out, "id", json::number(a.id));
            json::put(&mut out, "title", json::string(a.title.as_str()));
            json::put(&mut out, "monitored", Json::Bool(a.monitored));
            json::put(&mut out, "artistId", json::number(a.artist_id));
            json::put(&mut out, "artist", Json::Object(artist));
            json::put(&mut out, "statistics", Json::Object(stats));
            proof {
                let v = album_view(*found);
                match kept(v) {
                    JsonView::Object(m) => {
                        assert(json::members(out@) =~= m);
                    },
                    _ => {},
                }
            }
            Json::Object(out)
        },
        None => Json::Null,
    }
}

// ---------------------------------------------------------------------------
// Deciding

/// An album that Lidarr watches, with its artist, and that has more tracks than there are here.
pub open spec fn lacks_tracks(a: AlbumView, local: int) -> bool {
    a.monitored && a.artist_monitored && (a.track_count matches Some(n) && n > local)
}

/// The album to search for, where it is incomplete and watched. Without artist or album nothing
/// is searched for.
pub fn incomplete_monitored(
    found: &Option<LidarrAlbum>,
    local_track_count: usize,
    album: &str,
    artist: &str,
) -> (r: Option<i64>)
    ensures
        number_view(r) == match album_view(*found) {
            Some(a) => if text::trimmed(artist@).len() > 0 && text::trimmed(album@).len() > 0
                && lacks_tracks(a, local_track_count as int) {
                Some(a.id)
            } else {
                None
            },
            None => None,
        },
{
    if text::length(text::trim(artist).as_str()) == 0 || text::length(
        text::trim(album).as_str(),
    ) == 0 {
        return None;
    }
    match found {
        Some(a) => {
            if !(a.monitored && a.artist_monitored) {
                return None;
            }
            match a.track_count {
                Some(n) => if (n as i128) > (local_track_count as i128) {
                    Some(a.id)
                } else {
                    None
                },
                None => None,
            }
        },
        None => None,
    }
}

/// The key under which is kept whether Lidarr watches an artist.
pub fn artist_key(artist: &str) -> (r: String)
    ensures
        r@ == "lidarr-artist:"@ + text::unicode_lowered(text::trimmed(artist@)),
{
    text::join_two("lidarr-artist:", text::unicode_lower(text::trim(artist).as_str()).as_str())
}

/// Whether an artist is asked for at all.
pub open spec fn artist_asked(cfg: Config, artist: Seq<char>) -> bool {
    text::trimmed(artist).len() > 0 && configured(cfg)
}

/// The question whether Lidarr knows an artist; none where there is nothing to ask.
pub fn artist_tracked(cfg: &Config, base: &str, artist: &str) -> (r: Option<Request>)
    ensures
        match r {
            Some(q) => artist_asked(*cfg, artist@) && q@ == net::asking(
                base@ + "/api/v1/artist/search?term="@ + url::encoded(text::trimmed(artist@)),
                headers(*cfg),
                15_000,
            ),
            None => !artist_asked(*cfg, artist@),
        },
{
    let name = text::trim(artist);
    if text::length(name.as_str()) == 0 || !is_configured(cfg) {
        return None;
    }
    let mut q = text::copy(base);
    q.append("/api/v1/artist/search?term=");
    q.append(url::urlencode(name.as_str()).as_str());
    Some(net::ask(q, make_headers(cfg), 15_000))
}

/// A value of Lidarr that describes an artist of that name.
pub open spec fn is_artist(v: JsonView, artist: Seq<char>) -> bool {
    json::string_of(json::member(v, "artistName"@)) matches Some(n) && organizer::same_but_case(
        n,
        artist,
    )
}

/// An answer names the artist.
pub open spec fn names_artist(items: Seq<JsonView>, artist: Seq<char>) -> bool {
    exists|i: int| 0 <= i < items.len() && is_artist(#[trigger] items[i], artist)
}

/// Whether the answer names the artist.
pub fn artist_found(answer: &Option<Json>, artist: &str) -> (r: bool)
    ensures
        r == names_artist(json::items_of(json::doc_view(*answer)), text::trimmed(artist@)),
{
    let name = text::trim(artist);
    let items = match json::items(json::root(answer)) {
        Some(v) => v,
        None => {
            return false;
        },
    };
    let ghost all = json::trees(items@);
    let mut i: usize = 0;
    proof {
        json::trees_index(items@);
    }
    while i < items.len()
        invariant
            i <= items@.len(),
            name@ == text::trimmed(artist@),
            all == json::trees(items@),
            all == json::items_of(json::doc_view(*answer)),
            all.len() == items@.len(),
            forall|k: int| 0 <= k < items@.len() ==> all[k] == json::tree(#[trigger] items@[k]),
            forall|k: int| 0 <= k < i ==> !is_artist(#[trigger] all[k], name@),
        decreases items@.len() - i,
    {
        assert(all[i as int] == json::tree(items@[i as int]));
        match json::str_value(items[i].get("artistName")) {
            Some(n) => if organizer::equal_but_case(n.as_str(), name.as_str()) {
                assert(is_artist(all[i as int], name@));
                return true;
            },
            None => {},
        }
        i = i + 1;
    }
    false
}

/// Whether the answer of Lidarr names the artist.
pub fn artist_answer(reply: &Reply, artist: &str) -> (r: bool)
    ensures
        r == match net::good_body(reply@) {
            Some(body) => names_artist(
                json::items_of(json::document(body)),
                text::trimmed(artist@),
            ),
            None => false,
        },
{
    match net::ok_body(reply) {
        Some(body) => artist_found(&json::parse(body.as_str()), artist),
        None => false,
    }
}

// ---------------------------------------------------------------------------
// Commands

/// A command to Lidarr about one thing.
pub open spec fn command(cfg: Config, base: Seq<char>, head: Seq<char>, id: int) -> RequestView {
    net::posting(
        base + "/api/v1/command"@,
        headers(cfg),
        BodyView::Text(head + text::decimal_int(id) + "]}"@),
        15_000,
    )
}

fn send_command(cfg: &Config, base: &str, head: &str, id: i64) -> (r: Request)
    ensures
        r@ == command(*cfg, base@, head@, id as int),
{
    let mut body = text::copy(head);
    body.append(text::format_int(id).as_str());
    body.append("]}");
    net::post(
        text::join_two(base, "/api/v1/command"),
        make_headers(cfg),
        Body::Text(body),
        15_000,
    )
}

/// Lets Lidarr search for the missing tracks of an album.
pub fn force_search(cfg: &Config, base: &str, album_id: i64) -> (r: Request)
    ensures
        r@ == command(
            *cfg,
            base@,
            "{\"name\":\"AlbumSearch\",\"albumIds\":["@,
            album_id as int,
        ),
{
    send_command(cfg, base, "{\"name\":\"AlbumSearch\",\"albumIds\":[", album_id)
}

/// Lets Lidarr look at an artist's files again after they were moved.
pub fn refresh_artist(cfg: &Config, base: &str, artist_id: i64) -> (r: Request)
    ensures
        r@ == command(
            *cfg,
            base@,
            "{\"name\":\"RefreshArtist\",\"artistIds\":["@,
            artist_id as int,
        ),
{
    send_command(cfg, base, "{\"name\":\"RefreshArtist\",\"artistIds\":[", artist_id)
}

/// What is said of a command that Lidarr did not take.
pub open spec fn command_failure(reply: ReplyView) -> Option<Seq<char>> {
    match reply {
        ReplyView::Answer { status, body } => if status < 300 {
            None
        } else {
            Some("Lidarr command returned HTTP "@ + text::decimal_int(status))
        },
        ReplyView::Silent => Some("no response"@),
        ReplyView::Failed { cause } => Some(cause),
    }
}

/// What came of a command.
pub fn command_outcome(reply: &Reply) -> (r: Result<(), String>)
    ensures
        match r {
            Ok(_) => command_failure(reply@) is None,
            Err(e) => command_failure(reply@) == Some(e@),
        },
{
    match reply {
        Reply::Answer { status, body } => if *status < 300 {
            Ok(())
        } else {
            Err(
                text::join_two(
                    "Lidarr command returned HTTP ",
                    text::format_int(*status as i64).as_str(),
                ),
            )
        },
        Reply::Silent => Err(text::copy("no response")),
        Reply::Failed { cause } => Err(cause.clone()),
    }
}

// ---------------------------------------------------------------------------
// Laws

/// An album that was kept is read back as it was found, and one that was not found stays so.
pub proof fn kept_albums_read_back(a: Option<AlbumView>)
    requires
        a matches Some(v) ==> {
            &&& i64::MIN <= v.id <= i64::MAX
            &&& i64::MIN <= v.artist_id <= i64::MAX
            &&& (v.track_count matches Some(n) ==> i64::MIN <= n <= i64::MAX)
        },
    ensures
        album_of(kept(a)) == a,
{
    reveal_strlit("id");
    reveal_strlit("title");
    reveal_strlit("monitored");
    reveal_strlit("artistId");
    reveal_strlit("artist");
    reveal_strlit("statistics");
    reveal_strlit("artistName");
    reveal_strlit("trackCount");
    reveal_with_fuel(json::member_from, 7);
    match a {
        Some(v) => {
            assert("id"@.len() == 2);
            assert("title"@.len() == 5);
            assert("monitored"@.len() == 9);
            assert("artistId"@.len() == 8);
            assert("artist"@.len() == 6);
            assert("statistics"@.len() == 10);
            assert("artistName"@.len() == 10);
            assert("trackCount"@.len() == 10);
            assert("statistics"@[0] == 's');
            assert("artistName"@[0] == 'a');
            assert(album_of(kept(a)) =~= a);
        },
        None => {},
    }
}

/// No album is searched for that Lidarr does not watch, or of which every track is here.
pub proof fn complete_albums_are_left_alone(a: AlbumView, local: int)
    requires
        !a.monitored || !a.artist_monitored || (a.track_count matches Some(n) && n <= local),
    ensures
        !lacks_tracks(a, local),
{
}

// ---------------------------------------------------------------------------
// Storing

proof fn alike_albums(a: JsonView, b: JsonView)
    requires
        json::alike(a, b),
    ensures
        album_of(a) == album_of(b),
{
    json::alike_members(a, b, "id"@);
    json::alike_members(a, b, "title"@);
    json::alike_members(a, b, "artistId"@);
    json::alike_members(a, b, "monitored"@);
    json::alike_members(a, b, "artist"@);
    json::alike_members(a, b, "statistics"@);
    match (json::member(a, "artist"@), json::member(b, "artist"@)) {
        (Some(x), Some(y)) => {
            json::alike_members(x, y, "id"@);
            json::alike_members(x, y, "artistName"@);
            json::alike_members(x, y, "monitored"@);
        },
        _ => {},
    }
    match (json::member(a, "statistics"@), json::member(b, "statistics"@)) {
        (Some(x), Some(y)) => {
            json::alike_members(x, y, "trackCount"@);
        },
        _ => {},
    }
}

proof fn kept_is_plain(a: Option<AlbumView>)
    requires
        a matches Some(v) ==> {
            &&& i64::MIN <= v.id <= i64::MAX
            &&& i64::MIN <= v.artist_id <= i64::MAX
            &&& (v.track_count matches Some(n) ==> i64::MIN <= n <= i64::MAX)
        },
    ensures
        json::plain(kept(a), 100),
{
    reveal_strlit("id");
    reveal_strlit("title");
    reveal_strlit("monitored");
    reveal_strlit("artistId");
    reveal_strlit("artist");
    reveal_strlit("statistics");
    reveal_strlit("artistName");
    reveal_strlit("trackCount");
    assert("id"@.len() == 2 && "title"@.len() == 5 && "monitored"@.len() == 9 && "artistId"@.len()
        == 8 && "artist"@.len() == 6 && "statistics"@.len() == 10 && "artistName"@.len() == 10);
    reveal_with_fuel(json::plain, 3);
}

/// The album that a stored text holds.
pub open spec fn album_in(doc: Option<JsonView>) -> Option<AlbumView> {
    match doc {
        Some(v) => album_of(v),
        None => None,
    }
}

/// An album that was asked for, as it is stored. It is read back as it was found.
pub fn save_album(found: &Option<LidarrAlbum>) -> (r: String)
    ensures
        r@ == json::written(kept(album_view(*found))),
        json::document(r@) is Some,
        album_in(json::document(r@)) == album_view(*found),
{
    let doc = keep(found);
    let r = json::print(&doc);
    proof {
        kept_is_plain(album_view(*found));
        kept_albums_read_back(album_view(*found));
        alike_albums(doc@, json::document(r@)->0);
    }
    r
}

} // verus!
