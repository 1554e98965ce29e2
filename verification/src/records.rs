//! What is stored of files: the tags that were read, and the listens that were counted. What was
//! stored is read back as it was.

use crate::json;
use crate::json::{Json, JsonView};
use crate::scan;
use crate::stats::{NowPlayingEntry, PlayingView, StarTally, TallyView};
use crate::tags::{Recording, TagsView, TrackTags};
use crate::text;
use vstd::prelude::*;

verus! {

// ---------------------------------------------------------------------------
// Tags

/// The word that is stored for a recording.
pub open spec fn recording_word(r: Recording) -> Seq<char> {
    match r {
        Recording::Studio => "Studio"@,
        Recording::Live => "Live"@,
        Recording::Bootleg => "Bootleg"@,
        Recording::Mixed => "Mixed"@,
    }
}

fn recording_text(r: Recording) -> (s: &'static str)
    ensures
        s@ == recording_word(r),
{
    match r {
        Recording::Studio => "Studio",
        Recording::Live => "Live",
        Recording::Bootleg => "Bootleg",
        Recording::Mixed => "Mixed",
    }
}

/// The recording that a stored word stands for.
pub open spec fn recording_of(s: Seq<char>) -> Option<Recording> {
    if s == "Studio"@ {
        Some(Recording::Studio)
    } else if s == "Live"@ {
        Some(Recording::Live)
    } else if s == "Bootleg"@ {
        Some(Recording::Bootleg)
    } else if s == "Mixed"@ {
        Some(Recording::Mixed)
    } else {
        None
    }
}

pub open spec fn recording_in(v: Option<JsonView>) -> Option<Recording> {
    match json::string_of(v) {
        Some(s) => recording_of(s),
        None => None,
    }
}

fn read_recording(v: Option<&Json>) -> (r: Option<Recording>)
    ensures
        r == recording_in(json::shown(v)),
{
    match json::str_value(v) {
        Some(s) => if text::same(s.as_str(), "Studio") {
            Some(Recording::Studio)
        } else if text::same(s.as_str(), "Live") {
            Some(Recording::Live)
        } else if text::same(s.as_str(), "Bootleg") {
            Some(Recording::Bootleg)
        } else if text::same(s.as_str(), "Mixed") {
            Some(Recording::Mixed)
        } else {
            None
        },
        None => None,
    }
}

/// A number that may be missing as a value.
pub open spec fn number_or_null(n: Option<u32>) -> JsonView {
    match n {
        Some(k) => JsonView::Int(k as int),
        None => JsonView::Null,
    }
}

fn optional_number(n: Option<u32>) -> (r: Json)
    ensures
        r@ == number_or_null(n),
{
    match n {
        Some(k) => json::number(k as i64),
        None => Json::Null,
    }
}

/// A number that may be missing or null, `None` where it is something else.
pub open spec fn number_in(v: Option<JsonView>) -> Option<Option<u32>> {
    match v {
        None => Some(None),
        Some(JsonView::Null) => Some(None),
        Some(JsonView::Int(n)) => if 0 <= n <= u32::MAX {
            Some(Some(n as u32))
        } else {
            None
        },
        Some(_) => None,
    }
}

fn read_number(v: Option<&Json>) -> (r: Option<Option<u32>>)
    ensures
        r == number_in(json::shown(v)),
{
    match v {
        None => Some(None),
        Some(Json::Null) => Some(None),
        Some(Json::Int(n)) => if 0 <= *n && *n <= (u32::MAX as i128) {
            Some(Some(*n as u32))
        } else {
            None
        },
        Some(_) => None,
    }
}

/// The document that is stored of a file's tags.
pub open spec fn tags_doc(t: TagsView) -> JsonView {
    JsonView::Object(
        seq![
            ("title"@, JsonView::Str(t.title)),
            ("artist"@, JsonView::Str(t.artist)),
            ("album_artist"@, JsonView::Str(t.album_artist)),
            ("album"@, JsonView::Str(t.album)),
            ("year"@, number_or_null(t.year)),
            ("track"@, number_or_null(t.track)),
            ("disc"@, number_or_null(t.disc)),
            ("genre"@, JsonView::Str(t.genre)),
            ("recording"@, JsonView::Str(recording_word(t.recording))),
            ("isrc"@, JsonView::Str(t.isrc)),
            ("mbid_recording"@, JsonView::Str(t.mbid_recording)),
            ("mbid_album"@, JsonView::Str(t.mbid_album)),
            ("mbid_artist"@, JsonView::Str(t.mbid_artist)),
        ],
    )
}

fn tags_json(t: &TrackTags) -> (r: Json)
    ensures
        r@ == tags_doc(t@),
{
    let mut out: Vec<(String, Json)> = Vec::new();
    json::put(&mut out, "title", json::string(t.title.as_str()));
    json::put(&mut out, "artist", json::string(t.artist.as_str()));
    json::put(&mut out, "album_artist", json::string(t.album_artist.as_str()));
    json::put(&mut out, "album", json::string(t.album.as_str()));
    json::put(&mut out, "year", optional_number(t.year));
    json::put(&mut out, "track", optional_number(t.track));
    json::put(&mut out, "disc", optional_number(t.disc));
    json::put(&mut out, "genre", json::string(t.genre.as_str()));
    json::put(&mut out, "recording", json::string(recording_text(t.recording)));
    json::put(&mut out, "isrc", json::string(t.isrc.as_str()));
    json::put(&mut out, "mbid_recording", json::string(t.mbid_recording.as_str()));
    json::put(&mut out, "mbid_album", json::string(t.mbid_album.as_str()));
    json::put(&mut out, "mbid_artist", json::string(t.mbid_artist.as_str()));
    proof {
        match tags_doc(t@) {
            JsonView::Object(m) => {
                assert(json::members(out@) =~= m);
            },
            _ => {},
        }
    }
    Json::Object(out)
}

/// The tags that a document describes. Every field has its type; the numbers may be missing.
pub open spec fn tags_of(v: JsonView) -> Option<TagsView> {
    match (
        json::string_of(json::slot(v, "title"@, 0, 13, 13)),
        json::string_of(json::slot(v, "artist"@, 1, 13, 13)),
        json::string_of(json::slot(v, "album_artist"@, 2, 13, 13)),
        json::string_of(json::slot(v, "album"@, 3, 13, 13)),
        number_in(json::slot(v, "year"@, 4, 13, 13)),
        number_in(json::slot(v, "track"@, 5, 13, 13)),
        number_in(json::slot(v, "disc"@, 6, 13, 13)),
        json::string_of(json::slot(v, "genre"@, 7, 13, 13)),
        recording_in(json::slot(v, "recording"@, 8, 13, 13)),
        json::string_of(json::slot(v, "isrc"@, 9, 13, 13)),
        json::string_of(json::slot(v, "mbid_recording"@, 10, 13, 13)),
        (
            json::string_of(json::slot(v, "mbid_album"@, 11, 13, 13)),
            json::string_of(json::slot(v, "mbid_artist"@, 12, 13, 13)),
        ),
    ) {
        (
            Some(title),
            Some(artist),
            Some(album_artist),
            Some(album),
            Some(year),
            Some(track),
            Some(disc),
            Some(genre),
            Some(recording),
            Some(isrc),
            Some(mbid_recording),
            (Some(mbid_album), Some(mbid_artist)),
        ) => Some(
            TagsView {
                title,
                artist,
                album_artist,
                album,
                year,
                track,
                disc,
                genre,
                recording,
                isrc,
                mbid_recording,
                mbid_album,
                mbid_artist,
            },
        ),
        _ => None,
    }
}

/// The mathematical value of tags that may be missing.
pub open spec fn tags_view(t: Option<TrackTags>) -> Option<TagsView> {
    match t {
        Some(t) => Some(t@),
        None => None,
    }
}

fn read_tags(v: &Json) -> (r: Option<TrackTags>)
    ensures
        tags_view(r) == tags_of(v@),
{
    match (
        json::str_value(v.slot("title", 0, 13, 13)),
        json::str_value(v.slot("artist", 1, 13, 13)),
        json::str_value(v.slot("album_artist", 2, 13, 13)),
        json::str_value(v.slot("album", 3, 13, 13)),
        read_number(v.slot("year", 4, 13, 13)),
        read_number(v.slot("track", 5, 13, 13)),
        read_number(v.slot("disc", 6, 13, 13)),
        json::str_value(v.slot("genre", 7, 13, 13)),
        read_recording(v.slot("recording", 8, 13, 13)),
        json::str_value(v.slot("isrc", 9, 13, 13)),
        json::str_value(v.slot("mbid_recording", 10, 13, 13)),
        (json::str_value(v.slot("mbid_album", 11, 13, 13)), json::str_value(v.slot("mbid_artist", 12, 13, 13))),
    ) {
        (
            Some(title),
            Some(artist),
            Some(album_artist),
            Some(album),
            Some(year),
            Some(track),
            Some(disc),
            Some(genre),
            Some(recording),
            Some(isrc),
            Some(mbid_recording),
            (Some(mbid_album), Some(mbid_artist)),
        ) => Some(
            TrackTags {
                title,
                artist,
                album_artist,
                album,
                year,
                track,
                disc,
                genre,
                recording,
                isrc,
                mbid_recording,
                mbid_album,
                mbid_artist,
            },
        ),
        _ => None,
    }
}

/// The entry of a file in the index: where it is, its tags if it has any, and when it was changed.
pub open spec fn entry_doc(rel: Seq<char>, tags: Option<TagsView>, mtime: int) -> JsonView {
    JsonView::Object(
        seq![
            ("rel"@, JsonView::Str(rel)),
            (
                "tags"@,
                match tags {
                    Some(t) => tags_doc(t),
                    None => JsonView::Null,
                },
            ),
            ("mtime"@, JsonView::Int(mtime)),
        ],
    )
}

fn entry_json(rel: &str, tags: &Option<TrackTags>, mtime: i64) -> (r: Json)
    ensures
        r@ == entry_doc(rel@, tags_view(*tags), mtime as int),
{
    let mut out: Vec<(String, Json)> = Vec::new();
    json::put(&mut out, "rel", json::string(rel));
    json::put(
        &mut out,
        "tags",
        match tags {
            Some(t) => tags_json(t),
            None => Json::Null,
        },
    );
    json::put(&mut out, "mtime", json::number(mtime));
    proof {
        match entry_doc(rel@, tags_view(*tags), mtime as int) {
            JsonView::Object(m) => {
                assert(json::members(out@) =~= m);
            },
            _ => {},
        }
    }
    Json::Object(out)
}

/// The tags that an entry of the index holds.
pub open spec fn tags_in(doc: Option<JsonView>) -> Option<TagsView> {
    match json::member_opt(doc, "tags"@) {
        Some(v) => tags_of(v),
        None => None,
    }
}

pub fn load_tags(doc: &Option<Json>) -> (r: Option<TrackTags>)
    ensures
        tags_view(r) == tags_in(json::doc_view(*doc)),
{
    match json::get_opt(json::root(doc), "tags") {
        Some(v) => read_tags(v),
        None => None,
    }
}

/// When the file of an entry had been changed.
pub fn load_mtime(doc: &Option<Json>) -> (r: Option<i64>)
    ensures
        match r {
            Some(n) => json::int_of(json::member_opt(json::doc_view(*doc), "mtime"@)) == Some(n as int),
            None => json::int_of(json::member_opt(json::doc_view(*doc), "mtime"@)) is None,
        },
{
    json::int_value(json::get_opt(json::root(doc), "mtime"))
}

// ---------------------------------------------------------------------------
// Listens

/// The document that is stored of a tally.
pub open spec fn tally_doc(t: TallyView) -> JsonView {
    JsonView::Object(
        seq![
            ("path"@, JsonView::Str(t.path)),
            ("id"@, JsonView::Str(t.id)),
            ("title"@, JsonView::Str(t.title)),
            ("artist"@, JsonView::Str(t.artist)),
            ("full"@, JsonView::Int(t.full)),
            ("half"@, JsonView::Int(t.half)),
            ("skips"@, JsonView::Int(t.skips)),
            ("loved"@, JsonView::Bool(t.loved)),
        ],
    )
}

fn tally_json(t: &StarTally) -> (r: Json)
    ensures
        r@ == tally_doc(t@),
{
    let mut out: Vec<(String, Json)> = Vec::new();
    json::put(&mut out, "path", json::string(t.path.as_str()));
    json::put(&mut out, "id", json::string(t.id.as_str()));
    json::put(&mut out, "title", json::string(t.title.as_str()));
    json::put(&mut out, "artist", json::string(t.artist.as_str()));
    json::put(&mut out, "full", json::number(t.full));
    json::put(&mut out, "half", json::number(t.half));
    json::put(&mut out, "skips", json::number(t.skips));
    json::put(&mut out, "loved", Json::Bool(t.loved));
    proof {
        match tally_doc(t@) {
            JsonView::Object(m) => {
                assert(json::members(out@) =~= m);
            },
            _ => {},
        }
    }
    Json::Object(out)
}

/// A text that is empty where it is missing, `None` where it is something else.
pub open spec fn text_if_any(v: Option<JsonView>) -> Option<Seq<char>> {
    match v {
        None => Some(Seq::empty()),
        Some(JsonView::Str(s)) => Some(s),
        Some(_) => None,
    }
}

fn read_text_if_any(v: Option<&Json>) -> (r: Option<String>)
    ensures
        text::view_opt(r) == text_if_any(json::shown(v)),
{
    match v {
        None => Some(String::new()),
        Some(Json::Str(s)) => Some(s.clone()),
        Some(_) => None,
    }
}

/// A flag that is off where it is missing, `None` where it is something else.
pub open spec fn flag_if_any(v: Option<JsonView>) -> Option<bool> {
    match v {
        None => Some(false),
        Some(JsonView::Bool(b)) => Some(b),
        Some(_) => None,
    }
}

fn read_flag_if_any(v: Option<&Json>) -> (r: Option<bool>)
    ensures
        r == flag_if_any(json::shown(v)),
{
    match v {
        None => Some(false),
        Some(Json::Bool(b)) => Some(*b),
        Some(_) => None,
    }
}

/// The tally that a document describes. The file and the counts are there; the rest may be
/// missing.
pub open spec fn tally_of(v: JsonView) -> Option<TallyView> {
    match (
        json::string_of(json::slot(v, "path"@, 0, 7, 8)),
        text_if_any(json::slot(v, "id"@, 1, 7, 8)),
        text_if_any(json::slot(v, "title"@, 2, 7, 8)),
        text_if_any(json::slot(v, "artist"@, 3, 7, 8)),
        json::int_of(json::slot(v, "full"@, 4, 7, 8)),
        json::int_of(json::slot(v, "half"@, 5, 7, 8)),
        json::int_of(json::slot(v, "skips"@, 6, 7, 8)),
        flag_if_any(json::slot(v, "loved"@, 7, 7, 8)),
    ) {
        (
            Some(path),
            Some(id),
            Some(title),
            Some(artist),
            Some(full),
            Some(half),
            Some(skips),
            Some(loved),
        ) => Some(TallyView { path, id, title, artist, full, half, skips, loved }),
        _ => None,
    }
}

/// The tally that a document describes.
pub fn load_star(v: &Json) -> (r: Option<StarTally>)
    ensures
        match r {
            Some(t) => tally_of(v@) == Some(t@),
            None => tally_of(v@) is None,
        },
{
    match (
        json::str_value(v.slot("path", 0, 7, 8)),
        read_text_if_any(v.slot("id", 1, 7, 8)),
        read_text_if_any(v.slot("title", 2, 7, 8)),
        read_text_if_any(v.slot("artist", 3, 7, 8)),
        json::int_value(v.slot("full", 4, 7, 8)),
        json::int_value(v.slot("half", 5, 7, 8)),
        json::int_value(v.slot("skips", 6, 7, 8)),
        read_flag_if_any(v.slot("loved", 7, 7, 8)),
    ) {
        (
            Some(path),
            Some(id),
            Some(title),
            Some(artist),
            Some(full),
            Some(half),
            Some(skips),
            Some(loved),
        ) => Some(StarTally { path, id, title, artist, full, half, skips, loved }),
        _ => None,
    }
}

// ---------------------------------------------------------------------------
// Laws

/// Tags that were put into the index are read back as they were.
pub proof fn indexed_tags_read_back(rel: Seq<char>, t: TagsView, mtime: int)
    requires
        i64::MIN <= mtime <= i64::MAX,
    ensures
        tags_in(Some(entry_doc(rel, Some(t), mtime))) == Some(t),
        json::int_of(json::member(entry_doc(rel, Some(t), mtime), "mtime"@)) == Some(mtime),
{
    tags_read_back(t);
    reveal_strlit("rel");
    reveal_strlit("tags");
    reveal_strlit("mtime");
    assert("rel"@.len() == 3 && "tags"@.len() == 4 && "mtime"@.len() == 5);
    reveal_with_fuel(json::member_from, 4);
}

proof fn recordings_read_back(r: Recording)
    ensures
        recording_of(recording_word(r)) == Some(r),
{
    reveal_strlit("Studio");
    reveal_strlit("Live");
    reveal_strlit("Bootleg");
    reveal_strlit("Mixed");
    assert("Studio"@.len() == 6 && "Live"@.len() == 4 && "Bootleg"@.len() == 7 && "Mixed"@.len()
        == 5);
}

proof fn tags_read_back(t: TagsView)
    ensures
        tags_of(tags_doc(t)) == Some(t),
{
    recordings_read_back(t.recording);
    reveal_strlit("title");
    reveal_strlit("artist");
    reveal_strlit("album_artist");
    reveal_strlit("album");
    reveal_strlit("year");
    reveal_strlit("track");
    reveal_strlit("disc");
    reveal_strlit("genre");
    reveal_strlit("recording");
    reveal_strlit("isrc");
    reveal_strlit("mbid_recording");
    reveal_strlit("mbid_album");
    reveal_strlit("mbid_artist");
    assert("title"@.len() == 5 && "artist"@.len() == 6 && "album_artist"@.len() == 12
        && "album"@.len() == 5 && "year"@.len() == 4 && "track"@.len() == 5 && "disc"@.len() == 4
        && "genre"@.len() == 5 && "recording"@.len() == 9 && "isrc"@.len() == 4
        && "mbid_recording"@.len() == 14 && "mbid_album"@.len() == 10 && "mbid_artist"@.len() == 11);
    assert("title"@[1] == 'i' && "album"@[1] == 'l' && "track"@[1] == 'r' && "genre"@[1] == 'e');
    assert("year"@[0] == 'y' && "disc"@[0] == 'd' && "isrc"@[0] == 'i');
    reveal_with_fuel(json::member_from, 14);
}

/// A tally that was stored is read back as it was.
pub proof fn tallies_read_back(t: TallyView)
    requires
        i64::MIN <= t.full <= i64::MAX,
        i64::MIN <= t.half <= i64::MAX,
        i64::MIN <= t.skips <= i64::MAX,
    ensures
        tally_of(tally_doc(t)) == Some(t),
{
    reveal_strlit("path");
    reveal_strlit("id");
    reveal_strlit("title");
    reveal_strlit("artist");
    reveal_strlit("full");
    reveal_strlit("half");
    reveal_strlit("skips");
    reveal_strlit("loved");
    assert("path"@.len() == 4 && "id"@.len() == 2 && "title"@.len() == 5 && "artist"@.len() == 6
        && "full"@.len() == 4 && "half"@.len() == 4 && "skips"@.len() == 5 && "loved"@.len() == 5);
    assert("path"@[0] == 'p' && "full"@[0] == 'f' && "half"@[0] == 'h' && "title"@[0] == 't'
        && "skips"@[0] == 's' && "loved"@[0] == 'l');
    reveal_with_fuel(json::member_from, 9);
}

// ---------------------------------------------------------------------------
// Songs that are being played

/// The document that is stored of a song that is being played.
pub open spec fn playing_doc(e: PlayingView) -> JsonView {
    JsonView::Object(
        seq![
            ("id"@, JsonView::Str(e.id)),
            ("position_ms"@, JsonView::Int(e.position_ms)),
            ("duration"@, JsonView::Int(e.duration)),
            ("title"@, JsonView::Str(e.title)),
            ("artist"@, JsonView::Str(e.artist)),
            ("album"@, JsonView::Str(e.album)),
            ("path"@, JsonView::Str(e.path)),
            ("play_count"@, JsonView::Int(e.play_count)),
        ],
    )
}

fn playing_json(e: &NowPlayingEntry) -> (r: Json)
    ensures
        r@ == playing_doc(e@),
{
    let mut out: Vec<(String, Json)> = Vec::new();
    json::put(&mut out, "id", json::string(e.id.as_str()));
    json::put(&mut out, "position_ms", json::number(e.position_ms));
    json::put(&mut out, "duration", json::number(e.duration));
    json::put(&mut out, "title", json::string(e.title.as_str()));
    json::put(&mut out, "artist", json::string(e.artist.as_str()));
    json::put(&mut out, "album", json::string(e.album.as_str()));
    json::put(&mut out, "path", json::string(e.path.as_str()));
    json::put(&mut out, "play_count", json::number(e.play_count));
    proof {
        match playing_doc(e@) {
            JsonView::Object(m) => {
                assert(json::members(out@) =~= m);
            },
            _ => {},
        }
    }
    Json::Object(out)
}

pub open spec fn playing_docs(v: Seq<PlayingView>) -> Seq<JsonView> {
    v.map_values(|e: PlayingView| playing_doc(e))
}

pub open spec fn playing_views(v: Seq<NowPlayingEntry>) -> Seq<PlayingView> {
    v.map_values(|e: NowPlayingEntry| e@)
}

/// The list of the songs that are being played.
pub fn playing_list(songs: &Vec<NowPlayingEntry>) -> (r: Json)
    ensures
        r@ == JsonView::Array(playing_docs(playing_views(songs@))),
{
    let ghost all = playing_docs(playing_views(songs@));
    let mut out: Vec<Json> = Vec::new();
    let mut i: usize = 0;
    assert(json::trees(out@) =~= all.take(0));
    while i < songs.len()
        invariant
            i <= songs@.len(),
            all == playing_docs(playing_views(songs@)),
            json::trees(out@) == all.take(i as int),
        decreases songs@.len() - i,
    {
        json::append(&mut out, playing_json(&songs[i]));
        assert(all.take(i + 1) =~= all.take(i as int).push(all[i as int]));
        i = i + 1;
    }
    assert(all.take(i as int) =~= all);
    Json::Array(out)
}

/// A whole number that is zero where it is missing, `None` where it is something else.
pub open spec fn int_if_any(v: Option<JsonView>) -> Option<int> {
    match v {
        None => Some(0),
        Some(w) => json::int_of(Some(w)),
    }
}

fn read_int_if_any(v: Option<&Json>) -> (r: Option<i64>)
    ensures
        match r {
            Some(n) => int_if_any(json::shown(v)) == Some(n as int),
            None => int_if_any(json::shown(v)) is None,
        },
{
    match v {
        None => Some(0),
        Some(w) => json::int_value(Some(w)),
    }
}

/// The song that a document describes. Its id and its times are there; the rest may be missing.
pub open spec fn playing_of(v: JsonView) -> Option<PlayingView> {
    match (
        json::string_of(json::slot(v, "id"@, 0, 3, 8)),
        json::int_of(json::slot(v, "position_ms"@, 1, 3, 8)),
        json::int_of(json::slot(v, "duration"@, 2, 3, 8)),
        text_if_any(json::slot(v, "title"@, 3, 3, 8)),
        text_if_any(json::slot(v, "artist"@, 4, 3, 8)),
        text_if_any(json::slot(v, "album"@, 5, 3, 8)),
        text_if_any(json::slot(v, "path"@, 6, 3, 8)),
        int_if_any(json::slot(v, "play_count"@, 7, 3, 8)),
    ) {
        (
            Some(id),
            Some(position_ms),
            Some(duration),
            Some(title),
            Some(artist),
            Some(album),
            Some(path),
            Some(play_count),
        ) => Some(
            PlayingView { id, position_ms, duration, title, artist, album, path, play_count },
        ),
        _ => None,
    }
}

fn read_playing(v: &Json) -> (r: Option<NowPlayingEntry>)
    ensures
        match r {
            Some(e) => playing_of(v@) == Some(e@),
            None => playing_of(v@) is None,
        },
{
    match (
        json::str_value(v.slot("id", 0, 3, 8)),
        json::int_value(v.slot("position_ms", 1, 3, 8)),
        json::int_value(v.slot("duration", 2, 3, 8)),
        read_text_if_any(v.slot("title", 3, 3, 8)),
        read_text_if_any(v.slot("artist", 4, 3, 8)),
        read_text_if_any(v.slot("album", 5, 3, 8)),
        read_text_if_any(v.slot("path", 6, 3, 8)),
        read_int_if_any(v.slot("play_count", 7, 3, 8)),
    ) {
        (
            Some(id),
            Some(position_ms),
            Some(duration),
            Some(title),
            Some(artist),
            Some(album),
            Some(path),
            Some(play_count),
        ) => Some(
            NowPlayingEntry { id, position_ms, duration, title, artist, album, path, play_count },
        ),
        _ => None,
    }
}

/// The songs that the values describe; nothing where one of them is none.
pub open spec fn songs_of(v: Seq<JsonView>) -> Option<Seq<PlayingView>>
    decreases v.len(),
{
    if v.len() == 0 {
        Some(Seq::empty())
    } else {
        match (songs_of(v.drop_last()), playing_of(v.last())) {
            (Some(rest), Some(e)) => Some(rest.push(e)),
            _ => None,
        }
    }
}

/// The songs that were being played, by what was stored; none where that is not such a list.
pub open spec fn played_before(doc: Option<JsonView>) -> Seq<PlayingView> {
    match doc {
        Some(JsonView::Array(v)) => match songs_of(v) {
            Some(songs) => songs,
            None => Seq::empty(),
        },
        _ => Seq::empty(),
    }
}

proof fn unreadable_song_stays(v: Seq<JsonView>, a: int, b: int)
    requires
        0 <= a <= b <= v.len(),
        songs_of(v.take(a)) is None,
    ensures
        songs_of(v.take(b)) is None,
    decreases b,
{
    if a < b {
        unreadable_song_stays(v, a, b - 1);
        assert(v.take(b).drop_last() == v.take(b - 1));
    }
}

/// The songs that were being played, by what was stored.
pub fn load_playing(doc: &Option<Json>) -> (r: Vec<NowPlayingEntry>)
    ensures
        playing_views(r@) == played_before(json::doc_view(*doc)),
{
    let mut out: Vec<NowPlayingEntry> = Vec::new();
    assert(playing_views(out@) =~= Seq::<PlayingView>::empty());
    let a = match json::items(json::root(doc)) {
        Some(a) => a,
        None => {
            return out;
        },
    };
    let ghost all = json::trees(a@);
    let mut i: usize = 0;
    proof {
        json::trees_index(a@);
        assert(all.take(0) =~= Seq::<JsonView>::empty());
    }
    while i < a.len()
        invariant
            i <= a@.len(),
            all == json::trees(a@),
            json::doc_view(*doc) == Some(JsonView::Array(all)),
            all.len() == a@.len(),
            forall|k: int| 0 <= k < a@.len() ==> all[k] == json::tree(#[trigger] a@[k]),
            songs_of(all.take(i as int)) == Some(playing_views(out@)),
        decreases a@.len() - i,
    {
        proof {
            assert(all.take(i + 1).drop_last() == all.take(i as int));
            assert(all.take(i + 1).last() == json::tree(a@[i as int]));
        }
        match read_playing(&a[i]) {
            Some(e) => {
                let ghost before = out@;
                out.push(e);
                assert(playing_views(out@) =~= playing_views(before).push(e@));
            },
            None => {
                proof {
                    unreadable_song_stays(all, i + 1, all.len() as int);
                    assert(all.take(all.len() as int) == all);
                }
                let none: Vec<NowPlayingEntry> = Vec::new();
                assert(playing_views(none@) =~= Seq::<PlayingView>::empty());
                return none;
            },
        }
        i = i + 1;
    }
    assert(all.take(i as int) == all);
    out
}

proof fn song_reads_back(e: PlayingView)
    requires
        i64::MIN <= e.position_ms <= i64::MAX,
        i64::MIN <= e.duration <= i64::MAX,
        i64::MIN <= e.play_count <= i64::MAX,
    ensures
        playing_of(playing_doc(e)) == Some(e),
{
    reveal_strlit("id");
    reveal_strlit("position_ms");
    reveal_strlit("duration");
    reveal_strlit("title");
    reveal_strlit("artist");
    reveal_strlit("album");
    reveal_strlit("path");
    reveal_strlit("play_count");
    assert("id"@.len() == 2 && "position_ms"@.len() == 11 && "duration"@.len() == 8 && "title"@.len()
        == 5 && "artist"@.len() == 6 && "album"@.len() == 5 && "path"@.len() == 4
        && "play_count"@.len() == 10);
    assert("title"@[0] == 't' && "album"@[0] == 'a');
    reveal_with_fuel(json::member_from, 9);
}

/// Numbers that fit what they are stored in.
pub open spec fn storable(e: PlayingView) -> bool {
    &&& i64::MIN <= e.position_ms <= i64::MAX
    &&& i64::MIN <= e.duration <= i64::MAX
    &&& i64::MIN <= e.play_count <= i64::MAX
}

/// The songs that were stored are read back as they were.
pub proof fn songs_read_back(v: Seq<PlayingView>)
    requires
        forall|i: int| 0 <= i < v.len() ==> storable(#[trigger] v[i]),
    ensures
        played_before(Some(JsonView::Array(playing_docs(v)))) == v,
{
    all_songs_read_back(v);
}

proof fn all_songs_read_back(v: Seq<PlayingView>)
    requires
        forall|i: int| 0 <= i < v.len() ==> storable(#[trigger] v[i]),
    ensures
        songs_of(playing_docs(v)) == Some(v),
    decreases v.len(),
{
    if v.len() == 0 {
        assert(v =~= Seq::empty());
    } else {
        all_songs_read_back(v.drop_last());
        assert(storable(v[v.len() - 1]));
        song_reads_back(v.last());
        assert(playing_docs(v).drop_last() =~= playing_docs(v.drop_last()));
        assert(playing_docs(v).last() == playing_doc(v.last()));
        assert(v.drop_last().push(v.last()) =~= v);
    }
}

// ---------------------------------------------------------------------------
// Texts that are stored

proof fn tags_names(t: TagsView)
    ensures
        json::plain(tags_doc(t), 1),
{
    reveal_strlit("title");
    reveal_strlit("artist");
    reveal_strlit("album_artist");
    reveal_strlit("album");
    reveal_strlit("year");
    reveal_strlit("track");
    reveal_strlit("disc");
    reveal_strlit("genre");
    reveal_strlit("recording");
    reveal_strlit("isrc");
    reveal_strlit("mbid_recording");
    reveal_strlit("mbid_album");
    reveal_strlit("mbid_artist");
    assert("title"@.len() == 5 && "artist"@.len() == 6 && "album_artist"@.len() == 12
        && "album"@.len() == 5 && "year"@.len() == 4 && "track"@.len() == 5 && "disc"@.len() == 4
        && "genre"@.len() == 5 && "recording"@.len() == 9 && "isrc"@.len() == 4
        && "mbid_recording"@.len() == 14 && "mbid_album"@.len() == 10 && "mbid_artist"@.len() == 11);
    assert("title"@[1] == 'i' && "album"@[1] == 'l' && "track"@[1] == 'r' && "genre"@[1] == 'e');
    assert("year"@[0] == 'y' && "disc"@[0] == 'd' && "isrc"@[0] == 'i');
    reveal_with_fuel(json::plain, 2);
}

proof fn alike_fields(
    a: JsonView,
    b: JsonView,
    key: Seq<char>,
    at: int,
    least: int,
    most: int,
)
    requires
        json::alike(a, b),
    ensures
        ({
            let x = json::slot(a, key, at, least, most);
            let y = json::slot(b, key, at, least, most);
            &&& json::string_of(x) == json::string_of(y)
            &&& json::int_of(x) == json::int_of(y)
            &&& number_in(x) == number_in(y)
            &&& recording_in(x) == recording_in(y)
            &&& text_if_any(x) == text_if_any(y)
            &&& flag_if_any(x) == flag_if_any(y)
            &&& int_if_any(x) == int_if_any(y)
        }),
{
    json::alike_slots(a, b, key, at, least, most);
}

proof fn alike_tags(a: JsonView, b: JsonView)
    requires
        json::alike(a, b),
    ensures
        tags_of(a) == tags_of(b),
{
    alike_fields(a, b, "title"@, 0, 13, 13);
    alike_fields(a, b, "artist"@, 1, 13, 13);
    alike_fields(a, b, "album_artist"@, 2, 13, 13);
    alike_fields(a, b, "album"@, 3, 13, 13);
    alike_fields(a, b, "year"@, 4, 13, 13);
    alike_fields(a, b, "track"@, 5, 13, 13);
    alike_fields(a, b, "disc"@, 6, 13, 13);
    alike_fields(a, b, "genre"@, 7, 13, 13);
    alike_fields(a, b, "recording"@, 8, 13, 13);
    alike_fields(a, b, "isrc"@, 9, 13, 13);
    alike_fields(a, b, "mbid_recording"@, 10, 13, 13);
    alike_fields(a, b, "mbid_album"@, 11, 13, 13);
    alike_fields(a, b, "mbid_artist"@, 12, 13, 13);
}

proof fn entry_reads_back(rel: Seq<char>, tags: Option<TagsView>, mtime: int)
    requires
        i64::MIN <= mtime <= i64::MAX,
    ensures
        json::plain(entry_doc(rel, tags, mtime), 100),
        tags_in(Some(entry_doc(rel, tags, mtime))) == tags,
        json::int_of(json::member(entry_doc(rel, tags, mtime), "mtime"@)) == Some(mtime),
{
    reveal_strlit("rel");
    reveal_strlit("tags");
    reveal_strlit("mtime");
    assert("rel"@.len() == 3 && "tags"@.len() == 4 && "mtime"@.len() == 5);
    reveal_with_fuel(json::member_from, 4);
    match tags {
        Some(t) => {
            tags_read_back(t);
            tags_names(t);
            json::plain_deeper(tags_doc(t), 1, 99);
        },
        None => {},
    }
    reveal_with_fuel(json::plain, 2);
    match entry_doc(rel, tags, mtime) {
        JsonView::Object(m) => {
            assert(m[0].1 == JsonView::Str(rel) && m[2].1 == JsonView::Int(mtime));
            assert(json::plain(m[1].1, 99));
            assert forall|i: int| #![trigger m[i]] 0 <= i < m.len() implies json::plain(m[i].1, 99) by {
                assert(i == 0 || i == 1 || i == 2);
            }
        },
        _ => {},
    }
}

/// The entry of a file in the index, as it is stored. It is read back as it was.
pub fn index_file(rel: &str, tags: &Option<TrackTags>, mtime: i64) -> (r: String)
    ensures
        r@ == json::written(entry_doc(rel@, tags_view(*tags), mtime as int)),
        tags_in(json::document(r@)) == tags_view(*tags),
        json::int_of(json::member_opt(json::document(r@), "mtime"@)) == Some(mtime as int),
{
    let doc = entry_json(rel, tags, mtime);
    let r = json::print(&doc);
    proof {
        entry_reads_back(rel@, tags_view(*tags), mtime as int);
        let back = json::document(r@)->0;
        json::alike_members(doc@, back, "tags"@);
        json::alike_members(doc@, back, "mtime"@);
        match (json::member(doc@, "tags"@), json::member(back, "tags"@)) {
            (Some(x), Some(y)) => {
                alike_tags(x, y);
            },
            _ => {},
        }
    }
    r
}

proof fn tally_names(t: TallyView)
    requires
        i64::MIN <= t.full <= i64::MAX,
        i64::MIN <= t.half <= i64::MAX,
        i64::MIN <= t.skips <= i64::MAX,
    ensures
        json::plain(tally_doc(t), 100),
{
    reveal_strlit("path");
    reveal_strlit("id");
    reveal_strlit("title");
    reveal_strlit("artist");
    reveal_strlit("full");
    reveal_strlit("half");
    reveal_strlit("skips");
    reveal_strlit("loved");
    assert("path"@.len() == 4 && "id"@.len() == 2 && "title"@.len() == 5 && "artist"@.len() == 6
        && "full"@.len() == 4 && "half"@.len() == 4 && "skips"@.len() == 5 && "loved"@.len() == 5);
    assert("path"@[0] == 'p' && "full"@[0] == 'f' && "half"@[0] == 'h' && "title"@[0] == 't'
        && "skips"@[0] == 's' && "loved"@[0] == 'l');
    reveal_with_fuel(json::plain, 2);
}

proof fn alike_tallies(a: JsonView, b: JsonView)
    requires
        json::alike(a, b),
    ensures
        tally_of(a) == tally_of(b),
{
    alike_fields(a, b, "path"@, 0, 7, 8);
    alike_fields(a, b, "id"@, 1, 7, 8);
    alike_fields(a, b, "title"@, 2, 7, 8);
    alike_fields(a, b, "artist"@, 3, 7, 8);
    alike_fields(a, b, "full"@, 4, 7, 8);
    alike_fields(a, b, "half"@, 5, 7, 8);
    alike_fields(a, b, "skips"@, 6, 7, 8);
    alike_fields(a, b, "loved"@, 7, 7, 8);
}

/// The tally that a stored text holds.
pub open spec fn tally_in(doc: Option<JsonView>) -> Option<TallyView> {
    match doc {
        Some(v) => tally_of(v),
        None => None,
    }
}

/// A tally as it is stored. It is read back as it was.
pub fn save_star(t: &StarTally) -> (r: String)
    ensures
        r@ == json::written(tally_doc(t@)),
        tally_in(json::document(r@)) == Some(t@),
{
    let doc = tally_json(t);
    let r = json::print(&doc);
    proof {
        tally_names(t@);
        tallies_read_back(t@);
        alike_tallies(doc@, json::document(r@)->0);
    }
    r
}

proof fn song_names(e: PlayingView)
    requires
        storable(e),
    ensures
        json::plain(playing_doc(e), 99),
{
    reveal_strlit("id");
    reveal_strlit("position_ms");
    reveal_strlit("duration");
    reveal_strlit("title");
    reveal_strlit("artist");
    reveal_strlit("album");
    reveal_strlit("path");
    reveal_strlit("play_count");
    assert("id"@.len() == 2 && "position_ms"@.len() == 11 && "duration"@.len() == 8 && "title"@.len()
        == 5 && "artist"@.len() == 6 && "album"@.len() == 5 && "path"@.len() == 4
        && "play_count"@.len() == 10);
    assert("title"@[0] == 't' && "album"@[0] == 'a');
    reveal_with_fuel(json::plain, 2);
}

proof fn alike_songs(x: Seq<JsonView>, y: Seq<JsonView>)
    requires
        x.len() == y.len(),
        forall|i: int| 0 <= i < x.len() ==> json::alike(#[trigger] x[i], y[i]),
    ensures
        songs_of(x) == songs_of(y),
    decreases x.len(),
{
    if x.len() > 0 {
        let n = x.len() - 1;
        assert forall|i: int| 0 <= i < n implies json::alike(
            #[trigger] x.drop_last()[i],
            y.drop_last()[i],
        ) by {
            assert(json::alike(x[i], y[i]));
        }
        alike_songs(x.drop_last(), y.drop_last());
        let a = x[n];
        let b = y[n];
        assert(json::alike(a, b));
        alike_fields(a, b, "id"@, 0, 3, 8);
        alike_fields(a, b, "position_ms"@, 1, 3, 8);
        alike_fields(a, b, "duration"@, 2, 3, 8);
        alike_fields(a, b, "title"@, 3, 3, 8);
        alike_fields(a, b, "artist"@, 4, 3, 8);
        alike_fields(a, b, "album"@, 5, 3, 8);
        alike_fields(a, b, "path"@, 6, 3, 8);
        alike_fields(a, b, "play_count"@, 7, 3, 8);
    }
}

/// The songs that are being played, as they are stored. They are read back as they were.
pub fn save_playing(songs: &Vec<NowPlayingEntry>) -> (r: String)
    ensures
        r@ == json::written(JsonView::Array(playing_docs(playing_views(songs@)))),
        played_before(json::document(r@)) == playing_views(songs@),
{
    let doc = playing_list(songs);
    let r = json::print(&doc);
    proof {
        let songs = playing_views(songs@);
        let docs = playing_docs(songs);
        assert forall|i: int| 0 <= i < docs.len() implies json::plain(#[trigger] docs[i], 99) by {
            song_names(songs[i]);
        }
        songs_read_back(songs);
        match json::document(r@) {
            Some(JsonView::Array(y)) => {
                alike_songs(docs, y);
            },
            _ => {},
        }
    }
    r
}

// ---------------------------------------------------------------------------
// Marking files that were looked up

/// Where the first member of that name stands, from position `i` on.
pub open spec fn first_at(m: Seq<(Seq<char>, JsonView)>, key: Seq<char>, i: int) -> Option<int>
    decreases m.len() - i,
{
    if i < 0 || i >= m.len() {
        None
    } else if m[i].0 == key {
        Some(i)
    } else {
        first_at(m, key, i + 1)
    }
}

/// The members with one of them set.
pub open spec fn with_member(m: Seq<(Seq<char>, JsonView)>, key: Seq<char>, v: JsonView) -> Seq<
    (Seq<char>, JsonView),
> {
    match first_at(m, key, 0) {
        Some(i) => m.update(i, (key, v)),
        None => m.push((key, v)),
    }
}

fn find_member(v: &Vec<(String, Json)>, key: &str) -> (r: Option<usize>)
    ensures
        match r {
            Some(i) => i < v@.len() && first_at(json::members(v@), key@, 0) == Some(i as int),
            None => first_at(json::members(v@), key@, 0) is None,
        },
{
    proof {
        json::members_index(v@);
    }
    let mut i: usize = 0;
    while i < v.len()
        invariant
            i <= v@.len(),
            json::members(v@).len() == v@.len(),
            forall|k: int|
                0 <= k < v@.len() ==> json::members(v@)[k] == (
                    (#[trigger] v@[k]).0@,
                    json::tree(v@[k].1),
                ),
            first_at(json::members(v@), key@, 0) == first_at(json::members(v@), key@, i as int),
        decreases v@.len() - i,
    {
        assert(json::members(v@)[i as int].0 == v@[i as int].0@);
        if text::same(v[i].0.as_str(), key) {
            return Some(i);
        }
        i = i + 1;
    }
    None
}

fn set_member(v: &mut Vec<(String, Json)>, key: &str, value: Json)
    ensures
        json::members(final(v)@) == with_member(json::members(old(v)@), key@, value@),
{
    let ghost before = v@;
    match find_member(v, key) {
        Some(i) => {
            let entry = (text::copy(key), value);
            v.set(i, entry);
            proof {
                json::members_update(before, i as int, entry);
            }
        },
        None => {
            json::put(v, key, value);
        },
    }
}

/// The tags of a file that was looked up, with the ids that were found.
pub open spec fn marked(
    tags: Seq<(Seq<char>, JsonView)>,
    ids: Option<(Seq<char>, Seq<char>)>,
) -> Seq<(Seq<char>, JsonView)> {
    let found = match ids {
        Some((album, recording)) => with_member(
            with_member(tags, "mbid_album"@, JsonView::Str(album)),
            "mbid_recording"@,
            JsonView::Str(recording),
        ),
        None => tags,
    };
    with_member(found, "_acoustid_checked"@, JsonView::Bool(true))
}

/// The entry of a file that was looked up. One without tags stays as it is.
pub open spec fn checked(doc: JsonView, ids: Option<(Seq<char>, Seq<char>)>) -> JsonView {
    match doc {
        JsonView::Object(m) => match first_at(m, "tags"@, 0) {
            Some(i) => match m[i].1 {
                JsonView::Object(t) => JsonView::Object(
                    m.update(i, ("tags"@, JsonView::Object(marked(t, ids)))),
                ),
                _ => doc,
            },
            None => doc,
        },
        _ => doc,
    }
}

pub open spec fn ids_view(ids: Option<(String, String)>) -> Option<(Seq<char>, Seq<char>)> {
    match ids {
        Some((a, r)) => Some((a@, r@)),
        None => None,
    }
}

/// Marks the entry of a file as looked up, with the ids that were found.
pub fn mark_checked(doc: Json, ids: Option<(String, String)>) -> (r: Json)
    ensures
        r@ == checked(doc@, ids_view(ids)),
{
    let mut m = match doc {
        Json::Object(m) => m,
        other => {
            return other;
        },
    };
    let ghost before = m@;
    proof {
        json::members_index(before);
    }
    let i = match find_member(&m, "tags") {
        Some(i) => i,
        None => {
            return Json::Object(m);
        },
    };
    let (name, tags) = m.remove(i);
    let ghost rest = m@;
    let ghost shown = tags@;
    assert(before[i as int] == (name, tags));
    match tags {
        Json::Object(mut t) => {
            let ghost given = json::members(t@);
            match ids {
                Some((album, recording)) => {
                    set_member(&mut t, "mbid_album", Json::Str(album));
                    set_member(&mut t, "mbid_recording", Json::Str(recording));
                },
                None => {},
            }
            set_member(&mut t, "_acoustid_checked", Json::Bool(true));
            let new = Json::Object(t);
            let entry = (text::copy("tags"), new);
            m.insert(i, entry);
            proof {
                assert(m@ =~= before.update(i as int, entry));
                json::members_update(before, i as int, entry);
            }
            Json::Object(m)
        },
        other => {
            m.insert(i, (name, other));
            assert(m@ =~= before);
            Json::Object(m)
        },
    }
}

proof fn set_members_are_found(m: Seq<(Seq<char>, JsonView)>, key: Seq<char>, v: JsonView, i: int)
    requires
        0 <= i <= m.len(),
        first_at(m, key, 0) == first_at(m, key, i),
    ensures
        json::member_from(with_member(m, key, v), key, i) == Some(v),
    decreases m.len() - i,
{
    let w = with_member(m, key, v);
    if i == m.len() {
        assert(first_at(m, key, i) is None);
        assert(w[i] == (key, v));
    } else if m[i].0 == key {
        assert(w[i] == (key, v));
    } else {
        set_members_are_found(m, key, v, i + 1);
        first_stands(m, key, i + 1);
        assert(w[i] == m[i]);
    }
}

proof fn first_stands(m: Seq<(Seq<char>, JsonView)>, key: Seq<char>, i: int)
    requires
        0 <= i,
    ensures
        match first_at(m, key, i) {
            Some(k) => i <= k < m.len() && m[k].0 == key,
            None => true,
        },
    decreases m.len() - i,
{
    if i < m.len() && m[i].0 != key {
        first_stands(m, key, i + 1);
    }
}

proof fn updates_are_found(m: Seq<(Seq<char>, JsonView)>, key: Seq<char>, v: JsonView, k: int, i: int)
    requires
        0 <= i <= k < m.len(),
        first_at(m, key, i) == Some(k),
    ensures
        json::member_from(m.update(k, (key, v)), key, i) == Some(v),
    decreases k - i,
{
    if i < k {
        assert(m.update(k, (key, v))[i] == m[i]);
        if m[i].0 == key {
            assert(first_at(m, key, i) == Some(i));
        } else {
            updates_are_found(m, key, v, k, i + 1);
        }
    } else {
        assert(m.update(k, (key, v))[k] == (key, v));
    }
}

/// A file that was looked up once is not asked for again: its entry, where it has tags, counts as
/// identified from then on, whatever was found.
pub proof fn checked_files_are_not_asked_again(
    entry: Seq<(Seq<char>, JsonView)>,
    ids: Option<(Seq<char>, Seq<char>)>,
)
    requires
        json::member(JsonView::Object(entry), "tags"@) matches Some(JsonView::Object(_)),
    ensures
        json::member(checked(JsonView::Object(entry), ids), "tags"@) matches Some(t)
            && scan::identified(t),
{
    let k = tags_stand(entry, 0);
    let t = match entry[k].1 {
        JsonView::Object(t) => t,
        _ => Seq::empty(),
    };
    updates_are_found(entry, "tags"@, JsonView::Object(marked(t, ids)), k, 0);
    let found = match ids {
        Some((album, recording)) => with_member(
            with_member(t, "mbid_album"@, JsonView::Str(album)),
            "mbid_recording"@,
            JsonView::Str(recording),
        ),
        None => t,
    };
    set_members_are_found(found, "_acoustid_checked"@, JsonView::Bool(true), 0);
}

proof fn tags_stand(m: Seq<(Seq<char>, JsonView)>, i: int) -> (k: int)
    requires
        0 <= i,
        json::member_from(m, "tags"@, i) is Some,
    ensures
        i <= k < m.len(),
        first_at(m, "tags"@, i) == Some(k),
        json::member_from(m, "tags"@, i) == Some(m[k].1),
    decreases m.len() - i,
{
    if m[i].0 == "tags"@ {
        i
    } else {
        tags_stand(m, i + 1)
    }
}

} // verus!
