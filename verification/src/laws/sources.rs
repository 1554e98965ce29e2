//! What is taken from other sources, and what it is taken for.

use crate::config::{Config, LidarrMode};
use crate::enrich;
use crate::enrich::{GenreSource, MbTrack};
use crate::json;
use crate::json::JsonView;
use crate::lidarr;
use crate::lidarr::AlbumView;
use crate::metadata;
use crate::metadata::RecordView;
use crate::musicbrainz;
use crate::musicbrainz::ReleaseView;
use crate::net::{CircuitOp, ReplyView};
use crate::organizer::{InfoView, MoveView};
use crate::tags::TagsView;
use crate::text;
use vstd::prelude::*;

verus! {

// ---------------------------------------------------------------------------
// Documents

/// The search for a member passes over those of other names.
proof fn member_is_first(
    m: Seq<(Seq<char>, JsonView)>,
    key: Seq<char>,
    from: int,
    i: int,
)
    requires
        0 <= from <= i < m.len(),
        m[i].0 == key,
        forall|j: int| from <= j < i ==> (#[trigger] m[j]).0 != key,
    ensures
        json::member_from(m, key, from) == Some(m[i].1),
    decreases i - from,
{
    if from < i {
        member_is_first(m, key, from + 1, i);
    }
}

proof fn member_is_missing(m: Seq<(Seq<char>, JsonView)>, key: Seq<char>, from: int)
    requires
        0 <= from,
        forall|j: int| from <= j < m.len() ==> (#[trigger] m[j]).0 != key,
    ensures
        json::member_from(m, key, from) is None,
    decreases m.len() - from,
{
    if from < m.len() {
        member_is_missing(m, key, from + 1);
    }
}

/// A member of an object is found by its name, the first where there are several.
pub proof fn members_are_found_by_name(m: Seq<(Seq<char>, JsonView)>, i: int)
    requires
        0 <= i < m.len(),
        forall|j: int| 0 <= j < i ==> (#[trigger] m[j]).0 != m[i].0,
    ensures
        json::member(JsonView::Object(m), m[i].0) == Some(m[i].1),
{
    member_is_first(m, m[i].0, 0, i);
}

/// An object has no member of a name that none of its members has, and what is no object has none.
pub proof fn other_members_are_missing(m: Seq<(Seq<char>, JsonView)>, key: Seq<char>, v: JsonView)
    requires
        forall|j: int| 0 <= j < m.len() ==> (#[trigger] m[j]).0 != key,
        !(v is Object),
    ensures
        json::member(JsonView::Object(m), key) is None,
        json::member(v, key) is None,
{
    member_is_missing(m, key, 0);
}

/// Texts, numbers, truth values and lists are read as what they are, and nothing is read as something
/// else.
pub proof fn values_are_read_as_what_they_are(
    v: JsonView,
    s: Seq<char>,
    n: int,
    b: bool,
    list: Seq<JsonView>,
)
    ensures
        json::string_of(Some(v)) == Some(s) <==> v == JsonView::Str(s),
        json::int_of(Some(v)) == Some(n) <==> v == JsonView::Int(n) && i64::MIN <= n <= i64::MAX,
        json::natural(Some(v)) == Some(n) <==> v == JsonView::Int(n) && 0 <= n <= u64::MAX,
        json::bool_of(Some(v)) == Some(b) <==> v == JsonView::Bool(b),
        json::items_of(Some(JsonView::Array(list))) == list,
        !(v is Array) ==> json::items_of(Some(v)).len() == 0,
        json::text_or_empty(Some(JsonView::Str(s))) == s,
        !(v is Str) ==> json::text_or_empty(Some(v)).len() == 0,
        json::string_of(None) is None && json::int_of(None) is None && json::bool_of(None) is None,
        json::items_of(None).len() == 0 && json::text_or_empty(None).len() == 0,
{
}

/// The texts of a list are its strings, in their order.
pub proof fn texts_are_the_strings(v: Seq<JsonView>)
    ensures
        json::texts_among(v) == v.filter(|e: JsonView| e is Str).map_values(
            |e: JsonView| e->Str_0,
        ),
    decreases v.len(),
{
    reveal(Seq::filter);
    let keep = |e: JsonView| e is Str;
    let words = |e: JsonView| e->Str_0;
    if v.len() > 0 {
        texts_are_the_strings(v.drop_last());
        let rest = v.drop_last().filter(keep);
        assert(rest.push(v.last()).map_values(words) =~= rest.map_values(words).push(
            words(v.last()),
        ));
    } else {
        assert(json::texts_among(v) =~= v.filter(keep).map_values(words));
    }
}

/// A chain of keys leads from each object to the member of the next.
pub proof fn paths_lead_from_member_to_member(v: JsonView, path: Seq<Seq<char>>, key: Seq<char>)
    ensures
        json::at_path(v, Seq::empty()) == Some(v),
        json::at_path(v, path.push(key)) == match json::at_path(v, path) {
            Some(w) => json::member(w, key),
            None => None,
        },
{
    assert(path.push(key).drop_last() =~= path);
}

// ---------------------------------------------------------------------------
// Releases

/// A release of MusicBrainz is what its fields say: its id, its title, its date, and the id and the
/// types of its group.
pub proof fn releases_say_what_they_are(
    v: JsonView,
    group: JsonView,
    id: Seq<char>,
    title: Seq<char>,
    date: Seq<char>,
    gid: Seq<char>,
    primary: Seq<char>,
    types: Seq<JsonView>,
)
    requires
        v is Object && group is Object,
        json::member(v, "id"@) == Some(JsonView::Str(id)),
        json::member(v, "title"@) == Some(JsonView::Str(title)),
        json::member(v, "date"@) == Some(JsonView::Str(date)),
        json::member(v, "release-group"@) == Some(group),
        json::member(group, "id"@) == Some(JsonView::Str(gid)),
        json::member(group, "primary-type"@) == Some(JsonView::Str(primary)),
        json::member(group, "secondary-types"@) == Some(JsonView::Array(types)),
        json::texts_among(types).len() == types.len(),
    ensures
        musicbrainz::release_of(v) == Some(
            (
                true,
                (ReleaseView {
                    release_mbid: id,
                    release_group_mbid: gid,
                    primary_type: primary,
                    secondary_types: json::texts_among(types),
                    title,
                    date: Some(date),
                }),
            ),
        ),
{
    reveal(musicbrainz::release_of);
}

/// A release without a group, or one whose date is missing, is still read; one without an id or a
/// title is not.
pub proof fn releases_have_an_id_and_a_title(v: JsonView, id: Seq<char>, title: Seq<char>)
    requires
        v is Object,
    ensures
        json::member(v, "id"@) == Some(JsonView::Str(id)) && json::member(v, "title"@) == Some(
            JsonView::Str(title),
        ) && json::member(v, "date"@) is None && json::member(v, "release-group"@) is None
            ==> musicbrainz::release_of(v) == Some(
            (
                false,
                (ReleaseView {
                    release_mbid: id,
                    release_group_mbid: Seq::empty(),
                    primary_type: Seq::empty(),
                    secondary_types: Seq::empty(),
                    title,
                    date: None,
                }),
            ),
        ),
        !(json::member(v, "id"@) matches Some(JsonView::Str(_))) ==> musicbrainz::release_of(
            v,
        ) is None,
        !(json::member(v, "title"@) matches Some(JsonView::Str(_))) ==> musicbrainz::release_of(
            v,
        ) is None,
{
    reveal(musicbrainz::release_of);
}

/// A release of just the title that is looked for fits better than any other, whatever the case of
/// its letters; and of two that fit alike in this, one that belongs to a group fits better.
pub proof fn titles_count_more_than_groups(
    a: (bool, ReleaseView),
    b: (bool, ReleaseView),
    want: Seq<char>,
)
    ensures
        ({
            let exact = |r: (bool, ReleaseView)| text::unicode_lowered(r.1.title) == want;
            &&& exact(a) && !exact(b) ==> musicbrainz::rank(a, want) > musicbrainz::rank(b, want)
            &&& exact(a) == exact(b) && a.0 && !b.0 ==> musicbrainz::rank(a, want)
                > musicbrainz::rank(b, want)
            &&& exact(a) == exact(b) && a.0 == b.0 ==> musicbrainz::rank(a, want)
                == musicbrainz::rank(b, want)
        }),
{
}

/// A release counts as a soundtrack where its group is one; else as a compilation where its group is
/// one or is also of that type or a live recording; else as a single where its group is one or an EP;
/// and else as nothing of the kind.
pub proof fn groups_decide_on_the_kind(r: ReleaseView)
    ensures
        ({
            let kind = musicbrainz::kind_of(r);
            let also = |w: Seq<char>|
                exists|i: int|
                    0 <= i < r.secondary_types.len() && text::lowered(
                        #[trigger] r.secondary_types[i],
                    ) == text::lowered(w);
            let gathered = also("compilation"@) || also("live"@) || r.primary_type == "Compilation"@;
            let short = r.primary_type == "Single"@ || r.primary_type == "EP"@;
            &&& r.primary_type == "Soundtrack"@ ==> kind == "Soundtrack"@
            &&& r.primary_type != "Soundtrack"@ && gathered ==> kind == "Compilation"@
            &&& r.primary_type != "Soundtrack"@ && !gathered && short ==> kind == "Single"@
            &&& r.primary_type != "Soundtrack"@ && !gathered && !short ==> kind.len() == 0
        }),
{
    assert(forall|w: Seq<char>| #[trigger]
        musicbrainz::typed(r.secondary_types, w) <==> exists|i: int|
            0 <= i < r.secondary_types.len() && text::lowered(#[trigger] r.secondary_types[i])
                == text::lowered(w));
    assert(musicbrainz::typed(r.secondary_types, "compilation"@) <==> exists|i: int|
        0 <= i < r.secondary_types.len() && text::lowered(#[trigger] r.secondary_types[i])
            == text::lowered("compilation"@));
    assert(musicbrainz::typed(r.secondary_types, "live"@) <==> exists|i: int|
        0 <= i < r.secondary_types.len() && text::lowered(#[trigger] r.secondary_types[i])
            == text::lowered("live"@));
}

// ---------------------------------------------------------------------------
// Tracks of a release

proof fn numbered_is_first(tracks: Seq<MbTrack>, n: u32, from: int)
    requires
        0 <= from <= tracks.len(),
    ensures
        match enrich::first_numbered(tracks, n, from) {
            Some(k) => {
                &&& from <= k < tracks.len()
                &&& tracks[k].number == Some(n) || tracks[k].position == Some(n)
                &&& forall|j: int|
                    from <= j < k ==> (#[trigger] tracks[j]).number != Some(n)
                        && tracks[j].position != Some(n)
            },
            None => forall|j: int|
                from <= j < tracks.len() ==> (#[trigger] tracks[j]).number != Some(n)
                    && tracks[j].position != Some(n),
        },
    decreases tracks.len() - from,
{
    if from < tracks.len() {
        numbered_is_first(tracks, n, from + 1);
    }
}

/// A file is the track of the release with its number, the first of them; where no track has it, or
/// the file has none, it is the first track.
pub proof fn files_are_tracks_by_number(tracks: Seq<MbTrack>, number: Option<u32>)
    ensures
        tracks.len() == 0 ==> enrich::track_for(tracks, number) is None,
        tracks.len() > 0 ==> (enrich::track_for(tracks, number) matches Some(k) && 0 <= k
            < tracks.len() && match number {
            Some(n) => {
                ||| (tracks[k].number == Some(n) || tracks[k].position == Some(n)) && forall|j: int|
                    0 <= j < k ==> (#[trigger] tracks[j]).number != Some(n) && tracks[j].position
                        != Some(n)
                ||| k == 0 && forall|j: int|
                    0 <= j < tracks.len() ==> (#[trigger] tracks[j]).number != Some(n)
                        && tracks[j].position != Some(n)
            },
            None => k == 0,
        }),
{
    if let Some(n) = number {
        numbered_is_first(tracks, n, 0);
    }
}

/// The files that are filled from a release are those, all of them, whose title or recording id is
/// missing, each with the track that it is.
pub proof fn every_gap_is_filled(files: Seq<TagsView>, tracks: Seq<MbTrack>, k: int)
    requires
        0 <= k < files.len(),
    ensures
        ({
            let before = enrich::fills(files, tracks, k);
            let after = enrich::fills(files, tracks, k + 1);
            let gap = text::trimmed(files[k].title).len() == 0 || text::trimmed(
                files[k].mbid_recording,
            ).len() == 0;
            match enrich::track_for(tracks, files[k].track) {
                Some(i) => after == if gap {
                    before.push((k, i))
                } else {
                    before
                },
                None => after == before,
            }
        }),
        enrich::fills(files, tracks, 0).len() == 0,
{
}

/// The release of an album is the first that one of its files names.
pub proof fn the_first_named_release_counts(files: Seq<TagsView>, from: int)
    requires
        0 <= from <= files.len(),
    ensures
        match enrich::release_in(files, from) {
            Some(id) => exists|k: int|
                from <= k < files.len() && (#[trigger] files[k]).mbid_album == id && text::trimmed(
                    id,
                ).len() > 0 && forall|j: int|
                    from <= j < k ==> text::trimmed((#[trigger] files[j]).mbid_album).len() == 0,
            None => forall|j: int|
                from <= j < files.len() ==> text::trimmed((#[trigger] files[j]).mbid_album).len()
                    == 0,
        },
    decreases files.len() - from,
{
    if from < files.len() {
        if text::said(files[from].mbid_album) {
            assert(files[from].mbid_album == enrich::release_in(files, from)->0);
        } else {
            the_first_named_release_counts(files, from + 1);
            if let Some(id) = enrich::release_in(files, from + 1) {
                let k = choose|k: int|
                    from + 1 <= k < files.len() && (#[trigger] files[k]).mbid_album == id
                        && text::trimmed(id).len() > 0 && forall|j: int|
                        from + 1 <= j < k ==> text::trimmed((#[trigger] files[j]).mbid_album).len()
                            == 0;
                assert(files[k].mbid_album == id);
            }
        }
    }
}

/// The sources of genres are tried one after the other, the chosen one first, and each of the four
/// once.
pub proof fn the_chosen_source_is_tried_first(chosen: Seq<char>)
    ensures
        ({
            let all = enrich::genre_order(chosen);
            &&& all.len() == 4
            &&& all.no_duplicates()
            &&& chosen == "musicbrainz"@ ==> all[0] == GenreSource::MusicBrainz
            &&& chosen == "discogs"@ ==> all[0] == GenreSource::Discogs
            &&& chosen == "theaudiodb"@ ==> all[0] == GenreSource::TheAudioDb
            &&& chosen == "nfo"@ ==> all[0] == GenreSource::Nfo
            &&& all[0] != GenreSource::MusicBrainz ==> all[1] == GenreSource::MusicBrainz
        }),
{
    reveal_strlit("musicbrainz");
    reveal_strlit("discogs");
    reveal_strlit("theaudiodb");
    reveal_strlit("nfo");
    assert("musicbrainz"@.len() == 11 && "discogs"@.len() == 7 && "theaudiodb"@.len() == 10
        && "nfo"@.len() == 3);
}

/// Of the sources those are asked that can be, all of them and in their order.
pub proof fn every_usable_source_is_asked(
    sources: Seq<GenreSource>,
    release: bool,
    discogs: bool,
    audiodb: bool,
    nfo: bool,
)
    ensures
        enrich::genres_usable(sources, release, discogs, audiodb, nfo) == sources.filter(
            |s: GenreSource|
                (s == GenreSource::MusicBrainz && release) || (s == GenreSource::Discogs && discogs)
                    || (s == GenreSource::TheAudioDb && audiodb) || (s == GenreSource::Nfo && nfo),
        ),
    decreases sources.len(),
{
    reveal(Seq::filter);
    if sources.len() > 0 {
        every_usable_source_is_asked(sources.drop_last(), release, discogs, audiodb, nfo);
    } else {
        assert(enrich::genres_usable(sources, release, discogs, audiodb, nfo) =~= Seq::empty());
    }
}

/// The tags of a move are those of the last file of the path it begins at.
pub proof fn moves_are_known_by_their_path(
    files: Seq<(Seq<char>, TagsView)>,
    path: Seq<char>,
    k: int,
)
    requires
        0 <= k <= files.len(),
    ensures
        match enrich::file_at(files, path, k) {
            Some(i) => 0 <= i < k && files[i].0 == path && forall|j: int|
                i < j < k ==> (#[trigger] files[j]).0 != path,
            None => forall|j: int| 0 <= j < k ==> (#[trigger] files[j]).0 != path,
        },
    decreases k,
{
    if k > 0 {
        moves_are_known_by_their_path(files, path, k - 1);
    }
}

/// One more move is one more that is known, where there is a file at the path it begins at.
pub proof fn every_known_move_counts(
    moves: Seq<MoveView>,
    files: Seq<(Seq<char>, TagsView)>,
    k: int,
)
    requires
        0 <= k < moves.len(),
    ensures
        enrich::known_moves(moves, files, k + 1) == match enrich::file_at(
            files,
            moves[k].from,
            files.len() as int,
        ) {
            Some(i) => enrich::known_moves(moves, files, k).push((k, i)),
            None => enrich::known_moves(moves, files, k),
        },
        enrich::known_moves(moves, files, 0).len() == 0,
{
}

/// Among the first artists of an album, those that differ from its own by more than case.
proof fn others_are_all_that_differ(artists: Seq<Seq<char>>, own: Seq<char>, k: int)
    requires
        0 <= k <= artists.len(),
    ensures
        enrich::other_artists(artists, own, k) == artists.take(k).filter(
            |a: Seq<char>| text::lowered(a) != text::lowered(own),
        ),
    decreases k,
{
    reveal(Seq::filter);
    if k > 0 {
        others_are_all_that_differ(artists, own, k - 1);
        assert(artists.take(k).drop_last() =~= artists.take(k - 1));
        assert(artists.take(k).last() == artists[k - 1]);
    } else {
        assert(enrich::other_artists(artists, own, k) =~= Seq::empty());
    }
}

/// The artists that are looked at again are the album's own, and then every other of its tracks.
pub proof fn every_artist_is_looked_at(info: InfoView)
    ensures
        enrich::artists_of(info) == seq![info.album_artist] + info.distinct_artists.filter(
            |a: Seq<char>| text::lowered(a) != text::lowered(info.album_artist),
        ),
{
    let n = info.distinct_artists.len() as int;
    others_are_all_that_differ(info.distinct_artists, info.album_artist, n);
    assert(info.distinct_artists.take(n) =~= info.distinct_artists);
}

/// Tags are left to Lidarr only where it is in use, watches the artist, and nothing else is said.
pub proof fn tags_are_left_where_told(cfg: Config, watched: bool)
    ensures
        enrich::may_write(cfg, watched) <==> !(cfg.lidarr_mode != LidarrMode::Disabled && watched
            && !cfg.write_tags_for_tracked),
{
}

// ---------------------------------------------------------------------------
// Records

/// A record that is filled from another keeps all that it says, and has of the other what it does not
/// say itself, field by field.
pub proof fn gaps_are_filled_field_by_field(a: RecordView, b: RecordView)
    ensures
        ({
            let r = metadata::filled(a, b);
            &&& r.title == if a.title is Some { a.title } else { b.title }
            &&& r.artist == if a.artist is Some { a.artist } else { b.artist }
            &&& r.album_artist == if a.album_artist is Some { a.album_artist } else { b.album_artist }
            &&& r.album == if a.album is Some { a.album } else { b.album }
            &&& r.year == if a.year is Some { a.year } else { b.year }
            &&& r.track_number == if a.track_number is Some { a.track_number } else { b.track_number }
            &&& r.disc_number == if a.disc_number is Some { a.disc_number } else { b.disc_number }
            &&& r.genre == if a.genre is Some { a.genre } else { b.genre }
            &&& r.genres == if a.genres.len() > 0 { a.genres } else { b.genres }
            &&& r.mood == if a.mood is Some { a.mood } else { b.mood }
            &&& r.moods == if a.moods.len() > 0 { a.moods } else { b.moods }
            &&& r.bpm == if a.bpm is Some { a.bpm } else { b.bpm }
            &&& r.key == if a.key is Some { a.key } else { b.key }
            &&& r.energy == if a.energy is Some { a.energy } else { b.energy }
            &&& r.description == if a.description is Some { a.description } else { b.description }
            &&& r.artwork_url == if a.artwork_url is Some { a.artwork_url } else { b.artwork_url }
            &&& r.lyrics == if a.lyrics is Some { a.lyrics } else { b.lyrics }
            &&& r.mbid_album == if a.mbid_album is Some { a.mbid_album } else { b.mbid_album }
            &&& r.mbid_recording == if a.mbid_recording is Some {
                a.mbid_recording
            } else {
                b.mbid_recording
            }
            &&& r.credits == if a.credits.len() > 0 { a.credits } else { b.credits }
            &&& r.style == if a.style is Some { a.style } else { b.style }
        }),
{
}

/// What the tags of a file say is kept as it stands, and an empty tag says nothing.
pub proof fn tags_become_records(t: TagsView)
    ensures
        ({
            let r = metadata::of_tags(t);
            let is = |f: Option<Seq<char>>, s: Seq<char>|
                (s.len() == 0 ==> f is None) && (s.len() > 0 ==> f == Some(s));
            &&& is(r.title, t.title) && is(r.artist, t.artist) && is(r.album, t.album)
            &&& is(r.album_artist, t.album_artist) && is(r.genre, t.genre)
            &&& is(r.mbid_album, t.mbid_album) && is(r.mbid_recording, t.mbid_recording)
            &&& r.year == t.year && r.track_number == t.track && r.disc_number == t.disc
            &&& r.mood is None && r.bpm is None && r.key is None && r.energy is None
            &&& r.description is None && r.artwork_url is None && r.lyrics is None && r.style is None
            &&& r.genres.len() == 0 && r.moods.len() == 0 && r.credits.len() == 0
        }),
{
}

// ---------------------------------------------------------------------------
// Lidarr

/// An album of Lidarr is what its fields say.
pub proof fn albums_say_what_they_are(
    v: JsonView,
    artist: JsonView,
    id: int,
    title: Seq<char>,
    name: Seq<char>,
    own: int,
    count: int,
)
    requires
        json::member(v, "id"@) == Some(JsonView::Int(id)),
        json::member(v, "title"@) == Some(JsonView::Str(title)),
        json::member(v, "artist"@) == Some(artist),
        json::member(artist, "artistName"@) == Some(JsonView::Str(name)),
        i64::MIN <= id <= i64::MAX,
        i64::MIN <= own <= i64::MAX,
    ensures
        lidarr::album_of(v) matches Some(a) && {
            &&& a.id == id && a.title == title && a.artist == name
            &&& json::member(v, "artistId"@) == Some(JsonView::Int(own)) ==> a.artist_id == own
            &&& json::member(v, "artistId"@) is None && json::member(artist, "id"@) == Some(
                JsonView::Int(own),
            ) ==> a.artist_id == own
            &&& a.monitored <==> json::member(v, "monitored"@) == Some(JsonView::Bool(true))
            &&& a.artist_monitored <==> json::member(artist, "monitored"@) == Some(
                JsonView::Bool(true),
            )
            &&& a.track_count == Some(count) <==> i64::MIN <= count <= i64::MAX && (json::member(
                v,
                "statistics"@,
            ) matches Some(s) && json::member(s, "trackCount"@) == Some(JsonView::Int(count)))
        },
{
}

/// The album that is found is the first that goes by the title and the artist, whatever the case of
/// their letters; there is none only where none does.
pub proof fn albums_are_found_by_name(
    items: Seq<JsonView>,
    album: Seq<char>,
    artist: Seq<char>,
    from: int,
)
    requires
        0 <= from <= items.len(),
    ensures
        ({
            let fits = |v: JsonView|
                lidarr::album_of(v) matches Some(a) && text::lowered(a.title) == text::lowered(album)
                    && text::lowered(a.artist) == text::lowered(artist);
            match lidarr::first_match(items, album, artist, from) {
                Some(a) => exists|k: int|
                    from <= k < items.len() && lidarr::album_of(#[trigger] items[k]) == Some(a) && fits(
                        items[k],
                    ) && forall|j: int| from <= j < k ==> !fits(#[trigger] items[j]),
                None => forall|j: int| from <= j < items.len() ==> !fits(#[trigger] items[j]),
            }
        }),
    decreases items.len() - from,
{
    let fits = |v: JsonView|
        lidarr::album_of(v) matches Some(a) && text::lowered(a.title) == text::lowered(album)
            && text::lowered(a.artist) == text::lowered(artist);
    if from < items.len() {
        if fits(items[from]) {
            assert(lidarr::album_of(items[from]) == lidarr::first_match(items, album, artist, from));
        } else {
            albums_are_found_by_name(items, album, artist, from + 1);
            if let Some(a) = lidarr::first_match(items, album, artist, from + 1) {
                let k = choose|k: int|
                    from + 1 <= k < items.len() && lidarr::album_of(#[trigger] items[k]) == Some(a)
                        && fits(items[k]) && forall|j: int|
                        from + 1 <= j < k ==> !fits(#[trigger] items[j]);
                assert(lidarr::album_of(items[k]) == Some(a));
            }
        }
    }
}

/// An album is searched for exactly where Lidarr watches it and its artist and has more tracks of it
/// than there are here.
pub proof fn watched_gaps_are_searched(a: AlbumView, local: int)
    ensures
        lidarr::lacks_tracks(a, local) <==> a.monitored && a.artist_monitored && a.track_count is Some
            && a.track_count->0 > local,
{
}

/// Lidarr is trusted again after an answer of success and given a rest after one that tells of a
/// broken server or a broken line; all else changes nothing.
pub proof fn failures_give_a_rest(status: int, body: Seq<char>, cause: Seq<char>)
    ensures
        lidarr::send_op(ReplyView::Failed { cause }) == CircuitOp::MarkFailed,
        lidarr::send_op(ReplyView::Silent) == CircuitOp::Keep,
        lidarr::send_op(ReplyView::Answer { status, body }) == CircuitOp::Clear <==> 200 <= status
            < 300,
        lidarr::send_op(ReplyView::Answer { status, body }) == CircuitOp::MarkFailed <==> status
            >= 500,
{
}

/// Lidarr watches an artist where one of those in its answer goes by the name, whatever its case.
pub proof fn artists_are_found_by_name(items: Seq<JsonView>, artist: Seq<char>)
    ensures
        lidarr::names_artist(items, artist) <==> exists|i: int|
            0 <= i < items.len() && (json::member(#[trigger] items[i], "artistName"@) matches Some(
                JsonView::Str(n),
            ) && text::lowered(n) == text::lowered(artist)),
{
    if lidarr::names_artist(items, artist) {
        let i = choose|i: int| 0 <= i < items.len() && lidarr::is_artist(#[trigger] items[i], artist);
        assert(json::member(items[i], "artistName"@) is Some);
    }
    assert forall|i: int| 0 <= i < items.len() implies lidarr::is_artist(
        #[trigger] items[i],
        artist,
    ) == (json::member(items[i], "artistName"@) matches Some(JsonView::Str(n)) && text::lowered(n)
        == text::lowered(artist)) by {}
}

} // verus!
