//! Favorites: stars at the music server and loved tracks at Last.fm, kept alike.
//!
//! Two entries are the same track where their recording ids agree, or, without ids, where artist
//! and title agree but for case.

use crate::json;
use crate::json::{Json, JsonView};
use crate::organizer;
use crate::text;
use vstd::prelude::*;

verus! {

/// A song with a star.
#[derive(Debug, Clone)]
pub struct StarredSong {
    pub id: String,
    pub title: String,
    pub artist: String,
    pub album: String,
    pub mbid: String,
}

#[verifier::ext_equal]
pub struct SongView {
    pub id: Seq<char>,
    pub title: Seq<char>,
    pub artist: Seq<char>,
    pub album: Seq<char>,
    pub mbid: Seq<char>,
}

impl View for StarredSong {
    type V = SongView;

    open spec fn view(&self) -> SongView {
        SongView {
            id: self.id@,
            title: self.title@,
            artist: self.artist@,
            album: self.album@,
            mbid: self.mbid@,
        }
    }
}

pub open spec fn song_views(v: Seq<StarredSong>) -> Seq<SongView> {
    v.map_values(|s: StarredSong| s@)
}

/// A track that is loved.
#[derive(Debug, Clone)]
pub struct LovedTrack {
    pub title: String,
    pub artist: String,
    pub mbid: String,
}

#[verifier::ext_equal]
pub struct LovedView {
    pub title: Seq<char>,
    pub artist: Seq<char>,
    pub mbid: Seq<char>,
}

impl View for LovedTrack {
    type V = LovedView;

    open spec fn view(&self) -> LovedView {
        LovedView { title: self.title@, artist: self.artist@, mbid: self.mbid@ }
    }
}

pub open spec fn loved_views(v: Seq<LovedTrack>) -> Seq<LovedView> {
    v.map_values(|t: LovedTrack| t@)
}

// ---------------------------------------------------------------------------
// Matching

/// Artist and title, trimmed and in lower case.
pub open spec fn key_of(title: Seq<char>, artist: Seq<char>) -> Seq<char> {
    text::lowered(text::trimmed(artist)) + "|"@ + text::lowered(text::trimmed(title))
}

pub fn match_key(title: &str, artist: &str) -> (r: String)
    ensures
        r@ == key_of(title@, artist@),
{
    let mut s = text::lower(text::trim(artist).as_str());
    s.append("|");
    s.append(text::lower(text::trim(title).as_str()).as_str());
    s
}

/// Whether a track and a song are the same.
pub open spec fn same(title: Seq<char>, artist: Seq<char>, mbid: Seq<char>, s: SongView) -> bool {
    if text::trimmed(mbid).len() > 0 && text::trimmed(s.mbid).len() > 0 {
        organizer::same_but_case(text::trimmed(mbid), s.mbid)
    } else {
        key_of(title, artist) == key_of(s.title, s.artist)
    }
}

pub fn same_track(title: &str, artist: &str, mbid: &str, s: &StarredSong) -> (r: bool)
    ensures
        r == same(title@, artist@, mbid@, s@),
{
    let id = text::trim(mbid);
    if text::length(id.as_str()) > 0 && text::length(text::trim(s.mbid.as_str()).as_str()) > 0 {
        return organizer::equal_but_case(id.as_str(), s.mbid.as_str());
    }
    text::same(
        match_key(title, artist).as_str(),
        match_key(s.title.as_str(), s.artist.as_str()).as_str(),
    )
}

// ---------------------------------------------------------------------------
// Answers

/// The song that an entry tells of; none where it has no id.
pub open spec fn song_of(e: JsonView) -> Option<SongView> {
    match json::string_of(json::member(e, "id"@)) {
        Some(id) => Some(
            SongView {
                id,
                title: json::text_or_empty(json::member(e, "title"@)),
                artist: json::text_or_empty(json::member(e, "artist"@)),
                album: json::text_or_empty(json::member(e, "album"@)),
                mbid: json::text_or_empty(json::member(e, "musicBrainzId"@)),
            },
        ),
        None => None,
    }
}

pub open spec fn all_songs(entries: Seq<JsonView>) -> Seq<SongView>
    decreases entries.len(),
{
    if entries.len() == 0 {
        Seq::empty()
    } else {
        match song_of(entries.last()) {
            Some(s) => all_songs(entries.drop_last()).push(s),
            None => all_songs(entries.drop_last()),
        }
    }
}

/// The songs in an answer, under the given name.
pub open spec fn songs_under(doc: Option<JsonView>, name: Seq<char>) -> Seq<JsonView> {
    json::items_of(
        json::member_opt(
            json::member_opt(json::member_opt(doc, "subsonic-response"@), name),
            "song"@,
        ),
    )
}

fn song_entry(e: &Json) -> (r: Option<StarredSong>)
    ensures
        match r {
            Some(s) => song_of(e@) == Some(s@),
            None => song_of(e@) is None,
        },
{
    match json::str_value(e.get("id")) {
        Some(id) => Some(
            StarredSong {
                id,
                title: json::str_or_empty(e.get("title")),
                artist: json::str_or_empty(e.get("artist")),
                album: json::str_or_empty(e.get("album")),
                mbid: json::str_or_empty(e.get("musicBrainzId")),
            },
        ),
        None => None,
    }
}

/// The songs in an answer that was read already, under the given name.
pub fn songs_in(doc: &Option<Json>, name: &str) -> (r: Vec<StarredSong>)
    ensures
        song_views(r@) == all_songs(songs_under(json::doc_view(*doc), name@)),
{
    let list = json::items(
        json::get_opt(
            json::get_opt(json::get_opt(json::root(doc), "subsonic-response"), name),
            "song",
        ),
    );
    let mut out: Vec<StarredSong> = Vec::new();
    assert(song_views(out@) == Seq::<SongView>::empty());
    match list {
        Some(v) => {
            let ghost all = json::trees(v@);
            let mut i: usize = 0;
            proof {
                json::trees_index(v@);
                assert(all.take(0) == Seq::<JsonView>::empty());
            }
            while i < v.len()
                invariant
                    i <= v@.len(),
                    all.len() == v@.len(),
                    forall|k: int| 0 <= k < v@.len() ==> all[k] == #[trigger] v@[k]@,
                    song_views(out@) == all_songs(all.take(i as int)),
                decreases v@.len() - i,
            {
                proof {
                    assert(all.take(i + 1).drop_last() == all.take(i as int));
                    assert(all.take(i + 1).last() == v@[i as int]@);
                }
                match song_entry(&v[i]) {
                    Some(s) => {
                        let ghost before = out@;
                        out.push(s);
                        assert(song_views(out@) == song_views(before).push(s@));
                    },
                    None => {},
                }
                i = i + 1;
            }
            assert(all.take(i as int) == all);
        },
        None => {},
    }
    out
}

/// The songs of an answer to `getStarred2`; none where it cannot be read.
pub fn parse_starred(answer: &str) -> (r: Vec<StarredSong>)
    ensures
        song_views(r@) == all_songs(songs_under(json::document(answer@), "starred2"@)),
{
    songs_in(&json::parse(answer), "starred2")
}

/// The songs of an answer to `search3`; none where it cannot be read.
pub fn parse_search(answer: &str) -> (r: Vec<StarredSong>)
    ensures
        song_views(r@) == all_songs(songs_under(json::document(answer@), "searchResult3"@)),
{
    songs_in(&json::parse(answer), "searchResult3")
}

/// The track that an entry tells of; none where it has no name.
pub open spec fn loved_of(e: JsonView) -> Option<LovedView> {
    match json::string_of(json::member(e, "name"@)) {
        Some(title) => Some(
            LovedView {
                title,
                artist: json::text_or_empty(
                    json::member_opt(json::member(e, "artist"@), "name"@),
                ),
                mbid: json::text_or_empty(json::member(e, "mbid"@)),
            },
        ),
        None => None,
    }
}

pub open spec fn all_loved(entries: Seq<JsonView>) -> Seq<LovedView>
    decreases entries.len(),
{
    if entries.len() == 0 {
        Seq::empty()
    } else {
        match loved_of(entries.last()) {
            Some(t) => all_loved(entries.drop_last()).push(t),
            None => all_loved(entries.drop_last()),
        }
    }
}

pub open spec fn loved_entries(doc: Option<JsonView>) -> Seq<JsonView> {
    json::items_of(json::member_opt(json::member_opt(doc, "lovedtracks"@), "track"@))
}

fn loved_entry(e: &Json) -> (r: Option<LovedTrack>)
    ensures
        match r {
            Some(t) => loved_of(e@) == Some(t@),
            None => loved_of(e@) is None,
        },
{
    match json::str_value(e.get("name")) {
        Some(title) => Some(
            LovedTrack {
                title,
                artist: json::str_or_empty(json::get_opt(e.get("artist"), "name")),
                mbid: json::str_or_empty(e.get("mbid")),
            },
        ),
        None => None,
    }
}

/// The tracks of an answer that was read already.
pub fn loved_in(doc: &Option<Json>) -> (r: Vec<LovedTrack>)
    ensures
        loved_views(r@) == all_loved(loved_entries(json::doc_view(*doc))),
{
    let list = json::items(
        json::get_opt(json::get_opt(json::root(doc), "lovedtracks"), "track"),
    );
    let mut out: Vec<LovedTrack> = Vec::new();
    assert(loved_views(out@) == Seq::<LovedView>::empty());
    match list {
        Some(v) => {
            let ghost all = json::trees(v@);
            let mut i: usize = 0;
            proof {
                json::trees_index(v@);
                assert(all.take(0) == Seq::<JsonView>::empty());
            }
            while i < v.len()
                invariant
                    i <= v@.len(),
                    all.len() == v@.len(),
                    forall|k: int| 0 <= k < v@.len() ==> all[k] == #[trigger] v@[k]@,
                    loved_views(out@) == all_loved(all.take(i as int)),
                decreases v@.len() - i,
            {
                proof {
                    assert(all.take(i + 1).drop_last() == all.take(i as int));
                    assert(all.take(i + 1).last() == v@[i as int]@);
                }
                match loved_entry(&v[i]) {
                    Some(t) => {
                        let ghost before = out@;
                        out.push(t);
                        assert(loved_views(out@) == loved_views(before).push(t@));
                    },
                    None => {},
                }
                i = i + 1;
            }
            assert(all.take(i as int) == all);
        },
        None => {},
    }
    out
}

/// The tracks of an answer to `user.getLovedTracks`; none where it cannot be read.
pub fn parse_loved(answer: &str) -> (r: Vec<LovedTrack>)
    ensures
        loved_views(r@) == all_loved(loved_entries(json::document(answer@))),
{
    loved_in(&json::parse(answer))
}

/// How many loved tracks there are in all, as an answer says; nought where it does not.
pub open spec fn loved_total_of(doc: Option<JsonView>) -> int {
    match json::string_of(
        json::member_opt(json::member_opt(json::member_opt(doc, "lovedtracks"@), "@attr"@), "total"@),
    ) {
        Some(s) => match text::parsed_int(s, 0, u64::MAX as int) {
            Some(n) => n,
            None => 0,
        },
        None => 0,
    }
}

pub fn loved_total(doc: &Option<Json>) -> (r: u64)
    ensures
        r == loved_total_of(json::doc_view(*doc)),
{
    match json::str_value(
        json::get_opt(
            json::get_opt(json::get_opt(json::root(doc), "lovedtracks"), "@attr"),
            "total",
        ),
    ) {
        Some(s) => match text::parse_nat(s.as_str(), u64::MAX) {
            Some(n) => n,
            None => 0,
        },
        None => 0,
    }
}

/// Whether another page of loved tracks is asked for: as long as some are missing, and five pages
/// at most.
pub fn more_loved_pages(seen: u64, total: u64, page: u32) -> (r: bool)
    ensures
        r == (seen < total && page < 5),
{
    seen < total && page < 5
}

/// The play count in an answer to `track.getInfo`; nought where there is none.
pub open spec fn play_count_of(doc: Option<JsonView>) -> int {
    match json::string_of(json::member_opt(json::member_opt(doc, "track"@), "userplaycount"@)) {
        Some(s) => match text::parsed_int(s, i64::MIN as int, i64::MAX as int) {
            Some(n) => n,
            None => 0,
        },
        None => 0,
    }
}

pub fn playcount(doc: &Option<Json>) -> (r: i64)
    ensures
        r == play_count_of(json::doc_view(*doc)),
{
    match json::str_value(json::get_opt(json::get_opt(json::root(doc), "track"), "userplaycount")) {
        Some(s) => match text::parse_int(s.as_str(), i64::MIN, i64::MAX) {
            Some(n) => n,
            None => 0,
        },
        None => 0,
    }
}

/// Whether an answer to `track.getInfo` says that the track is loved.
pub fn is_loved(doc: &Option<Json>) -> (r: bool)
    ensures
        r == (json::string_of(
            json::member_opt(json::member_opt(json::doc_view(*doc), "track"@), "userloved"@),
        ) == Some("1"@)),
{
    match json::str_value(json::get_opt(json::get_opt(json::root(doc), "track"), "userloved")) {
        Some(s) => text::same(s.as_str(), "1"),
        None => false,
    }
}

// ---------------------------------------------------------------------------
// Keeping both alike

/// Counts of one run of keeping both alike.
#[derive(Debug, Clone, Copy)]
pub struct SyncSummary {
    pub nav_to_lastfm: usize,
    pub lastfm_to_nav: usize,
    pub errors: usize,
}

impl Default for SyncSummary {
    fn default() -> (r: Self)
        ensures
            r.nav_to_lastfm == 0,
            r.lastfm_to_nav == 0,
            r.errors == 0,
    {
        SyncSummary { nav_to_lastfm: 0, lastfm_to_nav: 0, errors: 0 }
    }
}

/// A song is among the loved tracks.
pub open spec fn loved_already(s: SongView, loved: Seq<LovedView>) -> bool {
    exists|i: int|
        0 <= i < loved.len() && same(
            (#[trigger] loved[i]).title,
            loved[i].artist,
            loved[i].mbid,
            s,
        )
}

/// A track is among the songs with a star.
pub open spec fn starred_already(t: LovedView, starred: Seq<SongView>) -> bool {
    exists|i: int| 0 <= i < starred.len() && same(t.title, t.artist, t.mbid, #[trigger] starred[i])
}

/// The songs to love: those with a star, a title and an artist that are not loved yet.
pub open spec fn songs_to_love(starred: Seq<SongView>, loved: Seq<LovedView>) -> Seq<SongView>
    decreases starred.len(),
{
    if starred.len() == 0 {
        starred
    } else {
        let rest = songs_to_love(starred.drop_last(), loved);
        let s = starred.last();
        if text::trimmed(s.title).len() == 0 || text::trimmed(s.artist).len() == 0
            || loved_already(s, loved) {
            rest
        } else {
            rest.push(s)
        }
    }
}

/// The tracks to give a star: those that are loved and have none.
pub open spec fn tracks_to_star(loved: Seq<LovedView>, starred: Seq<SongView>) -> Seq<LovedView>
    decreases loved.len(),
{
    if loved.len() == 0 {
        loved
    } else {
        let rest = tracks_to_star(loved.drop_last(), starred);
        if starred_already(loved.last(), starred) {
            rest
        } else {
            rest.push(loved.last())
        }
    }
}

fn is_loved_already(s: &StarredSong, loved: &Vec<LovedTrack>) -> (r: bool)
    ensures
        r == loved_already(s@, loved_views(loved@)),
{
    let ghost views = loved_views(loved@);
    let mut i: usize = 0;
    while i < loved.len()
        invariant
            i <= loved@.len(),
            views == loved_views(loved@),
            forall|k: int|
                0 <= k < i ==> !same(
                    (#[trigger] views[k]).title,
                    views[k].artist,
                    views[k].mbid,
                    s@,
                ),
        decreases loved@.len() - i,
    {
        assert(views[i as int] == loved@[i as int]@);
        if same_track(loved[i].title.as_str(), loved[i].artist.as_str(), loved[i].mbid.as_str(), s) {
            return true;
        }
        i = i + 1;
    }
    false
}

fn is_starred_already(t: &LovedTrack, starred: &Vec<StarredSong>) -> (r: bool)
    ensures
        r == starred_already(t@, song_views(starred@)),
{
    let ghost views = song_views(starred@);
    let mut i: usize = 0;
    while i < starred.len()
        invariant
            i <= starred@.len(),
            views == song_views(starred@),
            forall|k: int|
                0 <= k < i ==> !same(t@.title, t@.artist, t@.mbid, #[trigger] views[k]),
        decreases starred@.len() - i,
    {
        assert(views[i as int] == starred@[i as int]@);
        if same_track(t.title.as_str(), t.artist.as_str(), t.mbid.as_str(), &starred[i]) {
            return true;
        }
        i = i + 1;
    }
    false
}

/// As many as `n`, or all where there are fewer.
pub open spec fn at_most(n: int, len: int) -> int {
    if n < len {
        n
    } else {
        len
    }
}

/// The songs to love at Last.fm, of the first `max` songs with a star (one at least).
pub fn to_love(starred: &Vec<StarredSong>, loved: &Vec<LovedTrack>, max: usize) -> (r: Vec<
    StarredSong,
>)
    ensures
        song_views(r@) == songs_to_love(
            song_views(starred@).take(
                at_most(
                    if max >= 1 {
                        max as int
                    } else {
                        1
                    },
                    starred@.len() as int,
                ),
            ),
            loved_views(loved@),
        ),
{
    let limit: usize = if max >= 1 {
        max
    } else {
        1
    };
    let n: usize = if limit < starred.len() {
        limit
    } else {
        starred.len()
    };
    let ghost all = song_views(starred@);
    let mut out: Vec<StarredSong> = Vec::new();
    let mut i: usize = 0;
    proof {
        assert(all.take(0) == Seq::<SongView>::empty());
        assert(song_views(out@) == Seq::<SongView>::empty());
    }
    while i < n
        invariant
            i <= n <= starred@.len(),
            all == song_views(starred@),
            song_views(out@) == songs_to_love(all.take(i as int), loved_views(loved@)),
        decreases n - i,
    {
        let s = &starred[i];
        proof {
            assert(all.take(i + 1).drop_last() == all.take(i as int));
            assert(all.take(i + 1).last() == s@);
        }
        if text::length(text::trim(s.title.as_str()).as_str()) > 0 && text::length(
            text::trim(s.artist.as_str()).as_str(),
        ) > 0 && !is_loved_already(s, loved) {
            let ghost before = out@;
            let one = StarredSong {
                id: s.id.clone(),
                title: s.title.clone(),
                artist: s.artist.clone(),
                album: s.album.clone(),
                mbid: s.mbid.clone(),
            };
            out.push(one);
            assert(song_views(out@) == song_views(before).push(s@));
        }
        i = i + 1;
    }
    out
}

/// The tracks to give a star, of the first `max` loved tracks (one at least).
pub fn to_star(loved: &Vec<LovedTrack>, starred: &Vec<StarredSong>, max: usize) -> (r: Vec<
    LovedTrack,
>)
    ensures
        loved_views(r@) == tracks_to_star(
            loved_views(loved@).take(
                at_most(
                    if max >= 1 {
                        max as int
                    } else {
                        1
                    },
                    loved@.len() as int,
                ),
            ),
            song_views(starred@),
        ),
{
    let limit: usize = if max >= 1 {
        max
    } else {
        1
    };
    let n: usize = if limit < loved.len() {
        limit
    } else {
        loved.len()
    };
    let ghost all = loved_views(loved@);
    let mut out: Vec<LovedTrack> = Vec::new();
    let mut i: usize = 0;
    proof {
        assert(all.take(0) == Seq::<LovedView>::empty());
        assert(loved_views(out@) == Seq::<LovedView>::empty());
    }
    while i < n
        invariant
            i <= n <= loved@.len(),
            all == loved_views(loved@),
            loved_views(out@) == tracks_to_star(all.take(i as int), song_views(starred@)),
        decreases n - i,
    {
        let t = &loved[i];
        proof {
            assert(all.take(i + 1).drop_last() == all.take(i as int));
            assert(all.take(i + 1).last() == t@);
        }
        if !is_starred_already(t, starred) {
            let ghost before = out@;
            let one = LovedTrack {
                title: t.title.clone(),
                artist: t.artist.clone(),
                mbid: t.mbid.clone(),
            };
            out.push(one);
            assert(loved_views(out@) == loved_views(before).push(t@));
        }
        i = i + 1;
    }
    out
}

/// The first of the songs found that is the track.
pub open spec fn first_match(t: LovedView, found: Seq<SongView>, i: int) -> Option<Seq<char>>
    decreases found.len() - i,
{
    if i < 0 || i >= found.len() {
        None
    } else if same(t.title, t.artist, t.mbid, found[i]) {
        Some(found[i].id)
    } else {
        first_match(t, found, i + 1)
    }
}

/// The id of the library's song that is the track; none where the library has it not.
pub fn match_in_library(t: &LovedTrack, found: &Vec<StarredSong>) -> (r: Option<String>)
    ensures
        text::view_opt(r) == first_match(t@, song_views(found@), 0),
{
    let ghost views = song_views(found@);
    let mut i: usize = 0;
    while i < found.len()
        invariant
            i <= found@.len(),
            views == song_views(found@),
            first_match(t@, views, 0) == first_match(t@, views, i as int),
        decreases found@.len() - i,
    {
        assert(views[i as int] == found@[i as int]@);
        if same_track(t.title.as_str(), t.artist.as_str(), t.mbid.as_str(), &found[i]) {
            return Some(found[i].id.clone());
        }
        i = i + 1;
    }
    None
}

// ---------------------------------------------------------------------------
// Laws

/// A song that is already loved is never loved again, and one with a star never gets another: both
/// directions leave alone what agrees.
pub proof fn agreeing_entries_are_left_alone(starred: Seq<SongView>, loved: Seq<LovedView>)
    ensures
        forall|i: int|
            0 <= i < songs_to_love(starred, loved).len() ==> !loved_already(
                #[trigger] songs_to_love(starred, loved)[i],
                loved,
            ),
        forall|i: int|
            0 <= i < tracks_to_star(loved, starred).len() ==> !starred_already(
                #[trigger] tracks_to_star(loved, starred)[i],
                starred,
            ),
{
    love_list_is_new(starred, loved);
    star_list_is_new(loved, starred);
}

proof fn love_list_is_new(starred: Seq<SongView>, loved: Seq<LovedView>)
    ensures
        forall|i: int|
            0 <= i < songs_to_love(starred, loved).len() ==> !loved_already(
                #[trigger] songs_to_love(starred, loved)[i],
                loved,
            ),
    decreases starred.len(),
{
    if starred.len() > 0 {
        love_list_is_new(starred.drop_last(), loved);
        let rest = songs_to_love(starred.drop_last(), loved);
        assert forall|i: int| 0 <= i < songs_to_love(starred, loved).len() implies !loved_already(
            #[trigger] songs_to_love(starred, loved)[i],
            loved,
        ) by {
            if i < rest.len() {
                assert(songs_to_love(starred, loved)[i] == rest[i]);
            }
        }
    }
}

proof fn star_list_is_new(loved: Seq<LovedView>, starred: Seq<SongView>)
    ensures
        forall|i: int|
            0 <= i < tracks_to_star(loved, starred).len() ==> !starred_already(
                #[trigger] tracks_to_star(loved, starred)[i],
                starred,
            ),
    decreases loved.len(),
{
    if loved.len() > 0 {
        star_list_is_new(loved.drop_last(), starred);
        let rest = tracks_to_star(loved.drop_last(), starred);
        assert forall|i: int|
            0 <= i < tracks_to_star(loved, starred).len() implies !starred_already(
            #[trigger] tracks_to_star(loved, starred)[i],
            starred,
        ) by {
            if i < rest.len() {
                assert(tracks_to_star(loved, starred)[i] == rest[i]);
            }
        }
    }
}

/// Matching by text does not look at the case of letters.
pub proof fn case_does_not_matter(title: Seq<char>, artist: Seq<char>)
    ensures
        key_of(text::lowered(title), text::lowered(artist)) == key_of(title, artist),
{
    lowering_trimmed(title);
    lowering_trimmed(artist);
}

proof fn lowering_trimmed(s: Seq<char>)
    ensures
        text::lowered(text::trimmed(text::lowered(s))) == text::lowered(text::trimmed(s)),
{
    text::trimming_commutes_with_lowering(s);
    text::lowering_twice(text::trimmed(s));
}

} // verus!
