//! What is done with an album beyond moving it: which sources are asked, which tracks are filled,
//! and what is said of it.

use crate::config::{Config, LidarrMode};
use crate::organizer;
use crate::organizer::{AlbumInfo, FileMove, InfoView, MoveView};
use crate::tags::{TagsView, TrackTags};
use crate::text;
use vstd::prelude::*;

verus! {

/// The folder of a group's first file.
pub fn folder_hint(group: &Vec<String>) -> (r: String)
    ensures
        r@ == if group@.len() == 0 {
            Seq::empty()
        } else {
            organizer::parent(group@[0]@)
        },
{
    if group.len() == 0 {
        String::new()
    } else {
        organizer::parent_of(group[0].as_str())
    }
}

// ---------------------------------------------------------------------------
// What is to be done

/// The list with a name at its end, where it applies.
pub open spec fn with_if(list: Seq<Seq<char>>, applies: bool, name: Seq<char>) -> Seq<Seq<char>> {
    if applies {
        list.push(name)
    } else {
        list
    }
}

fn push_if(list: &mut Vec<String>, applies: bool, name: &str)
    ensures
        text::views(final(list)@) == with_if(text::views(old(list)@), applies, name@),
{
    if applies {
        let s = text::copy(name);
        proof {
            text::views_push(list@, s);
        }
        list.push(s);
    }
}

/// The names of what is done with the albums of a batch.
pub open spec fn enrichments_of(cfg: Config, lyrics_source: Seq<char>, genre_source: Seq<char>) -> Seq<
    Seq<char>,
> {
    let a = with_if(Seq::empty(), cfg.auto_tag_from_mb, "auto-tag"@);
    let b = with_if(a, cfg.write_replaygain, "ReplayGain"@);
    let c = with_if(b, cfg.embed_artwork || cfg.write_cover_jpg, "artwork"@);
    let d = with_if(c, lyrics_source.len() > 0, "lyrics"@);
    let e = with_if(d, genre_source.len() > 0, "genre"@);
    let f = with_if(e, cfg.write_acoustic_tags && text::said(cfg.audiomuse_url@), "acoustic-tags"@);
    let g = with_if(
        f,
        genre_source == "essentia"@ && text::said(cfg.essentia_url@),
        "essentia-genres"@,
    );
    let h = with_if(
        g,
        cfg.lidarr_mode == LidarrMode::MetadataPlusRescan && text::said(cfg.lidarr_url@),
        "lidarr-refresh"@,
    );
    let i = with_if(h, cfg.scan_after_tag_write, "navidrome-rescan"@);
    with_if(i, cfg.write_nfo, "nfo"@)
}

/// The names of what is done with the albums of a batch, in order.
pub fn enrichments(cfg: &Config, lyrics_source: &str, genre_source: &str) -> (r: Vec<String>)
    ensures
        text::views(r@) == enrichments_of(*cfg, lyrics_source@, genre_source@),
{
    let mut out: Vec<String> = Vec::new();
    assert(text::views(out@) =~= Seq::<Seq<char>>::empty());
    push_if(&mut out, cfg.auto_tag_from_mb, "auto-tag");
    push_if(&mut out, cfg.write_replaygain, "ReplayGain");
    push_if(&mut out, cfg.embed_artwork || cfg.write_cover_jpg, "artwork");
    push_if(&mut out, text::length(lyrics_source) > 0, "lyrics");
    push_if(&mut out, text::length(genre_source) > 0, "genre");
    push_if(
        &mut out,
        cfg.write_acoustic_tags && text::is_said(cfg.audiomuse_url.as_str()),
        "acoustic-tags",
    );
    push_if(
        &mut out,
        text::same(genre_source, "essentia") && text::is_said(cfg.essentia_url.as_str()),
        "essentia-genres",
    );
    push_if(
        &mut out,
        cfg.lidarr_mode == LidarrMode::MetadataPlusRescan && text::is_said(cfg.lidarr_url.as_str()),
        "lidarr-refresh",
    );
    push_if(&mut out, cfg.scan_after_tag_write, "navidrome-rescan");
    push_if(&mut out, cfg.write_nfo, "nfo");
    out
}

/// Tags of an artist's files are left to Lidarr where it watches the artist, unless they may be
/// written all the same.
pub open spec fn may_write(cfg: Config, artist_is_tracked: bool) -> bool {
    cfg.lidarr_mode == LidarrMode::Disabled || cfg.write_tags_for_tracked || !artist_is_tracked
}

/// Whether tags of an artist's files may be written.
pub fn should_write_tags(cfg: &Config, artist_is_tracked: bool) -> (r: bool)
    ensures
        r == may_write(*cfg, artist_is_tracked),
{
    cfg.lidarr_mode == LidarrMode::Disabled || cfg.write_tags_for_tracked || !artist_is_tracked
}

// ---------------------------------------------------------------------------
// Tracks of a release

/// A track of a MusicBrainz release.
#[derive(Debug, Clone)]
pub struct MbTrack {
    pub title: String,
    pub artist: String,
    pub recording_mbid: String,
    pub number: Option<u32>,
    pub position: Option<u32>,
}

/// A track that goes by a number.
pub open spec fn numbered(t: MbTrack, n: u32) -> bool {
    t.number == Some(n) || t.position == Some(n)
}

/// The first track of that number, from position `i` on.
pub open spec fn first_numbered(tracks: Seq<MbTrack>, n: u32, i: int) -> Option<int>
    decreases tracks.len() - i,
{
    if i < 0 || i >= tracks.len() {
        None
    } else if numbered(tracks[i], n) {
        Some(i)
    } else {
        first_numbered(tracks, n, i + 1)
    }
}

/// The track of the release that a file is: the one with its number, else the first.
pub open spec fn track_for(tracks: Seq<MbTrack>, number: Option<u32>) -> Option<int> {
    let found = match number {
        Some(n) => first_numbered(tracks, n, 0),
        None => None,
    };
    match found {
        Some(i) => Some(i),
        None => if tracks.len() == 0 {
            None
        } else {
            Some(0)
        },
    }
}

fn same_number(a: Option<u32>, n: u32) -> (r: bool)
    ensures
        r == (a == Some(n)),
{
    match a {
        Some(m) => m == n,
        None => false,
    }
}

fn find_numbered(tracks: &Vec<MbTrack>, n: u32) -> (r: Option<usize>)
    ensures
        match r {
            Some(i) => first_numbered(tracks@, n, 0) == Some(i as int) && i < tracks@.len(),
            None => first_numbered(tracks@, n, 0) is None,
        },
{
    let mut i: usize = 0;
    while i < tracks.len()
        invariant
            i <= tracks@.len(),
            first_numbered(tracks@, n, 0) == first_numbered(tracks@, n, i as int),
        decreases tracks@.len() - i,
    {
        if same_number(tracks[i].number, n) || same_number(tracks[i].position, n) {
            return Some(i);
        }
        i = i + 1;
    }
    None
}

fn find_track(tracks: &Vec<MbTrack>, number: Option<u32>) -> (r: Option<usize>)
    ensures
        match r {
            Some(i) => track_for(tracks@, number) == Some(i as int) && i < tracks@.len(),
            None => track_for(tracks@, number) is None,
        },
{
    let found = match number {
        Some(n) => find_numbered(tracks, n),
        None => None,
    };
    match found {
        Some(i) => Some(i),
        None => if tracks.len() == 0 {
            None
        } else {
            Some(0)
        },
    }
}

/// A file whose title or recording is missing.
pub open spec fn lacks_names(t: TagsView) -> bool {
    !text::said(t.title) || !text::said(t.mbid_recording)
}

/// The files that are filled from a release, each with its track, among the first `k`.
pub open spec fn fills(files: Seq<TagsView>, tracks: Seq<MbTrack>, k: int) -> Seq<(int, int)>
    decreases k,
{
    if k <= 0 {
        Seq::empty()
    } else {
        let rest = fills(files, tracks, k - 1);
        match track_for(tracks, files[k - 1].track) {
            Some(i) => if lacks_names(files[k - 1]) {
                rest.push((k - 1, i))
            } else {
                rest
            },
            None => rest,
        }
    }
}

pub open spec fn pairs_view(v: Seq<(usize, usize)>) -> Seq<(int, int)> {
    v.map_values(|p: (usize, usize)| (p.0 as int, p.1 as int))
}

/// The files to fill from the tracks of a release, each with its track. Only missing fields are
/// filled later.
pub fn autotag_album(files: &Vec<(String, TrackTags)>, tracks: &Vec<MbTrack>) -> (r: Vec<
    (usize, usize),
>)
    ensures
        pairs_view(r@) == fills(organizer::file_tags(files@), tracks@, files@.len() as int),
        forall|k: int|
            0 <= k < r@.len() ==> (#[trigger] r@[k]).0 < files@.len() && r@[k].1 < tracks@.len(),
{
    let ghost all = organizer::file_tags(files@);
    let mut out: Vec<(usize, usize)> = Vec::new();
    let mut i: usize = 0;
    assert(pairs_view(out@) =~= fills(all, tracks@, 0));
    while i < files.len()
        invariant
            i <= files@.len(),
            all == organizer::file_tags(files@),
            pairs_view(out@) == fills(all, tracks@, i as int),
            forall|k: int|
                0 <= k < out@.len() ==> (#[trigger] out@[k]).0 < files@.len() && out@[k].1
                    < tracks@.len(),
        decreases files@.len() - i,
    {
        let t = &files[i].1;
        assert(all[i as int] == t@);
        let ghost before = out@;
        match find_track(tracks, t.track) {
            Some(k) => if !text::is_said(t.title.as_str()) || !text::is_said(t.mbid_recording.as_str()) {
                out.push((i, k));
                assert(pairs_view(out@) =~= pairs_view(before).push((i as int, k as int)));
            },
            None => {},
        }
        i = i + 1;
    }
    out
}

// ---------------------------------------------------------------------------
// Genres

/// Where genres can come from.
#[derive(Debug, Clone, Copy, PartialEq, Eq, Structural)]
pub enum GenreSource {
    MusicBrainz,
    Discogs,
    TheAudioDb,
    Nfo,
}

impl GenreSource {
    pub open spec fn label(self) -> Seq<char> {
        match self {
            GenreSource::MusicBrainz => "musicbrainz"@,
            GenreSource::Discogs => "discogs"@,
            GenreSource::TheAudioDb => "theaudiodb"@,
            GenreSource::Nfo => "nfo"@,
        }
    }

    pub fn name(self) -> (r: &'static str)
        ensures
            r@ == self.label(),
    {
        match self {
            GenreSource::MusicBrainz => "musicbrainz",
            GenreSource::Discogs => "discogs",
            GenreSource::TheAudioDb => "theaudiodb",
            GenreSource::Nfo => "nfo",
        }
    }
}

/// The order in which sources are tried: the chosen one first. The analysis of the sound writes
/// its genres by itself and has no place here.
pub open spec fn genre_order(chosen: Seq<char>) -> Seq<GenreSource> {
    if chosen == "discogs"@ {
        seq![
            GenreSource::Discogs,
            GenreSource::MusicBrainz,
            GenreSource::TheAudioDb,
            GenreSource::Nfo,
        ]
    } else if chosen == "theaudiodb"@ {
        seq![
            GenreSource::TheAudioDb,
            GenreSource::MusicBrainz,
            GenreSource::Discogs,
            GenreSource::Nfo,
        ]
    } else if chosen == "nfo"@ {
        seq![
            GenreSource::Nfo,
            GenreSource::MusicBrainz,
            GenreSource::Discogs,
            GenreSource::TheAudioDb,
        ]
    } else {
        seq![
            GenreSource::MusicBrainz,
            GenreSource::Discogs,
            GenreSource::TheAudioDb,
            GenreSource::Nfo,
        ]
    }
}

/// A source that can be asked.
pub open spec fn genre_usable(
    source: GenreSource,
    has_release: bool,
    discogs: bool,
    audiodb: bool,
    nfo: bool,
) -> bool {
    match source {
        GenreSource::MusicBrainz => has_release,
        GenreSource::Discogs => discogs,
        GenreSource::TheAudioDb => audiodb,
        GenreSource::Nfo => nfo,
    }
}

pub open spec fn genres_usable(
    sources: Seq<GenreSource>,
    has_release: bool,
    discogs: bool,
    audiodb: bool,
    nfo: bool,
) -> Seq<GenreSource>
    decreases sources.len(),
{
    if sources.len() == 0 {
        Seq::empty()
    } else {
        let rest = genres_usable(sources.drop_last(), has_release, discogs, audiodb, nfo);
        if genre_usable(sources.last(), has_release, discogs, audiodb, nfo) {
            rest.push(sources.last())
        } else {
            rest
        }
    }
}

fn genre_sources(chosen: &str) -> (r: Vec<GenreSource>)
    ensures
        r@ == genre_order(chosen@),
{
    let mut out: Vec<GenreSource> = Vec::new();
    if text::same(chosen, "discogs") {
        out.push(GenreSource::Discogs);
        out.push(GenreSource::MusicBrainz);
        out.push(GenreSource::TheAudioDb);
        out.push(GenreSource::Nfo);
    } else if text::same(chosen, "theaudiodb") {
        out.push(GenreSource::TheAudioDb);
        out.push(GenreSource::MusicBrainz);
        out.push(GenreSource::Discogs);
        out.push(GenreSource::Nfo);
    } else if text::same(chosen, "nfo") {
        out.push(GenreSource::Nfo);
        out.push(GenreSource::MusicBrainz);
        out.push(GenreSource::Discogs);
        out.push(GenreSource::TheAudioDb);
    } else {
        out.push(GenreSource::MusicBrainz);
        out.push(GenreSource::Discogs);
        out.push(GenreSource::TheAudioDb);
        out.push(GenreSource::Nfo);
    }
    assert(out@ =~= genre_order(chosen@));
    out
}

/// The sources of genres to try, one after the other until one has some: MusicBrainz by a release,
/// Discogs and TheAudioDB with what they ask for, the sidecar where it names genres.
pub fn fetch_genre_with_fallback(
    chosen: &str,
    has_release: bool,
    discogs_token: &str,
    audiodb_key: &str,
    nfo_genres: &Vec<String>,
) -> (r: Vec<GenreSource>)
    ensures
        r@ == genres_usable(
            genre_order(chosen@),
            has_release,
            discogs_token@.len() > 0,
            audiodb_key@.len() > 0,
            nfo_genres@.len() > 0,
        ),
{
    let discogs = text::length(discogs_token) > 0;
    let audiodb = text::length(audiodb_key) > 0;
    let nfo = nfo_genres.len() > 0;
    let all = genre_sources(chosen);
    let ghost order = all@;
    let mut out: Vec<GenreSource> = Vec::new();
    let mut i: usize = 0;
    assert(order.take(0) =~= Seq::<GenreSource>::empty());
    while i < all.len()
        invariant
            i <= all@.len(),
            order == all@,
            out@ == genres_usable(order.take(i as int), has_release, discogs, audiodb, nfo),
        decreases all@.len() - i,
    {
        proof {
            assert(order.take(i + 1).drop_last() == order.take(i as int));
            assert(order.take(i + 1).last() == order[i as int]);
        }
        let source = all[i];
        let fine: bool = match source {
            GenreSource::MusicBrainz => has_release,
            GenreSource::Discogs => discogs,
            GenreSource::TheAudioDb => audiodb,
            GenreSource::Nfo => nfo,
        };
        if fine {
            out.push(source);
        }
        i = i + 1;
    }
    assert(order.take(i as int) == order);
    out
}

/// The first release that one of the files names, from position `i` on.
pub open spec fn release_in(files: Seq<TagsView>, i: int) -> Option<Seq<char>>
    decreases files.len() - i,
{
    if i < 0 || i >= files.len() {
        None
    } else if text::said(files[i].mbid_album) {
        Some(files[i].mbid_album)
    } else {
        release_in(files, i + 1)
    }
}

/// The release that the files of an album name.
pub fn album_release(files: &Vec<(String, TrackTags)>) -> (r: Option<String>)
    ensures
        text::view_opt(r) == release_in(organizer::file_tags(files@), 0),
{
    let ghost all = organizer::file_tags(files@);
    let mut i: usize = 0;
    while i < files.len()
        invariant
            i <= files@.len(),
            all == organizer::file_tags(files@),
            release_in(all, 0) == release_in(all, i as int),
        decreases files@.len() - i,
    {
        assert(all[i as int] == files@[i as int].1@);
        if text::is_said(files[i].1.mbid_album.as_str()) {
            return Some(files[i].1.mbid_album.clone());
        }
        i = i + 1;
    }
    None
}

// ---------------------------------------------------------------------------
// Files that were moved

/// The last of the files of that path, among the first `k`.
pub open spec fn file_at(files: Seq<(Seq<char>, TagsView)>, path: Seq<char>, k: int) -> Option<int>
    decreases k,
{
    if k <= 0 {
        None
    } else if files[k - 1].0 == path {
        Some(k - 1)
    } else {
        file_at(files, path, k - 1)
    }
}

/// The moves of files whose tags are known, each with its file, among the first `k`.
pub open spec fn known_moves(
    moves: Seq<MoveView>,
    files: Seq<(Seq<char>, TagsView)>,
    k: int,
) -> Seq<(int, int)>
    decreases k,
{
    if k <= 0 {
        Seq::empty()
    } else {
        let rest = known_moves(moves, files, k - 1);
        match file_at(files, moves[k - 1].from, files.len() as int) {
            Some(i) => rest.push((k - 1, i)),
            None => rest,
        }
    }
}

fn find_file(files: &Vec<(String, TrackTags)>, path: &str) -> (r: Option<usize>)
    ensures
        match r {
            Some(i) => file_at(organizer::file_views(files@), path@, files@.len() as int) == Some(
                i as int,
            ) && i < files@.len(),
            None => file_at(organizer::file_views(files@), path@, files@.len() as int) is None,
        },
{
    let ghost all = organizer::file_views(files@);
    let mut i: usize = files.len();
    while i > 0
        invariant
            i <= files@.len(),
            all == organizer::file_views(files@),
            file_at(all, path@, files@.len() as int) == file_at(all, path@, i as int),
        decreases i,
    {
        i = i - 1;
        assert(all[i as int].0 == files@[i as int].0@);
        if text::same(files[i].0.as_str(), path) {
            return Some(i);
        }
    }
    None
}

/// The moves whose file has tags, each with the position of its file: these get words and what
/// the analysis says.
pub fn moved_files(moves: &Vec<FileMove>, files: &Vec<(String, TrackTags)>) -> (r: Vec<
    (usize, usize),
>)
    ensures
        pairs_view(r@) == known_moves(
            organizer::move_views(moves@),
            organizer::file_views(files@),
            moves@.len() as int,
        ),
        forall|k: int|
            0 <= k < r@.len() ==> (#[trigger] r@[k]).0 < moves@.len() && r@[k].1 < files@.len(),
{
    let ghost all = organizer::move_views(moves@);
    let ghost known = organizer::file_views(files@);
    let mut out: Vec<(usize, usize)> = Vec::new();
    let mut i: usize = 0;
    assert(pairs_view(out@) =~= known_moves(all, known, 0));
    assert(known.len() == files@.len());
    while i < moves.len()
        invariant
            i <= moves@.len(),
            all == organizer::move_views(moves@),
            known == organizer::file_views(files@),
            known.len() == files@.len(),
            pairs_view(out@) == known_moves(all, known, i as int),
            forall|k: int|
                0 <= k < out@.len() ==> (#[trigger] out@[k]).0 < moves@.len() && out@[k].1
                    < files@.len(),
        decreases moves@.len() - i,
    {
        assert(all[i as int].from == moves@[i as int].from@);
        let ghost before = out@;
        match find_file(files, moves[i].from.as_str()) {
            Some(k) => {
                out.push((i, k));
                assert(pairs_view(out@) =~= pairs_view(before).push((i as int, k as int)));
            },
            None => {},
        }
        i = i + 1;
    }
    out
}

// ---------------------------------------------------------------------------
// Lidarr

/// Whether Lidarr looks at the artists of an album again.
pub fn refreshes(cfg: &Config) -> (r: bool)
    ensures
        r == (cfg.lidarr_mode == LidarrMode::MetadataPlusRescan && text::said(cfg.lidarr_url@) && text::said(
            cfg.lidarr_api_key@,
        )),
{
    cfg.lidarr_mode == LidarrMode::MetadataPlusRescan && text::is_said(cfg.lidarr_url.as_str())
        && text::is_said(cfg.lidarr_api_key.as_str())
}

/// The artists among the first `k` that differ from the album's.
pub open spec fn other_artists(artists: Seq<Seq<char>>, album_artist: Seq<char>, k: int) -> Seq<
    Seq<char>,
>
    decreases k,
{
    if k <= 0 {
        Seq::empty()
    } else {
        let rest = other_artists(artists, album_artist, k - 1);
        if organizer::same_but_case(artists[k - 1], album_artist) {
            rest
        } else {
            rest.push(artists[k - 1])
        }
    }
}

/// The artists that Lidarr looks at again: the album's, then the others of its tracks.
pub open spec fn artists_of(info: InfoView) -> Seq<Seq<char>> {
    seq![info.album_artist] + other_artists(
        info.distinct_artists,
        info.album_artist,
        info.distinct_artists.len() as int,
    )
}

/// The artists for whom Lidarr is asked for the album.
pub fn refresh_artists(info: &AlbumInfo) -> (r: Vec<String>)
    ensures
        text::views(r@) == artists_of(info@),
{
    let ghost all = text::views(info.distinct_artists@);
    let mut out: Vec<String> = Vec::new();
    out.push(info.album_artist.clone());
    let mut i: usize = 0;
    assert(text::views(out@) =~= seq![info.album_artist@] + other_artists(
        all,
        info.album_artist@,
        0,
    ));
    while i < info.distinct_artists.len()
        invariant
            i <= info.distinct_artists@.len(),
            all == text::views(info.distinct_artists@),
            text::views(out@) == seq![info.album_artist@] + other_artists(
                all,
                info.album_artist@,
                i as int,
            ),
        decreases info.distinct_artists@.len() - i,
    {
        let a = &info.distinct_artists[i];
        assert(all[i as int] == a@);
        if !organizer::equal_but_case(a.as_str(), info.album_artist.as_str()) {
            let c = a.clone();
            proof {
                text::views_push(out@, c);
                let rest = other_artists(all, info.album_artist@, i as int);
                assert((seq![info.album_artist@] + rest).push(c@) =~= seq![info.album_artist@]
                    + rest.push(c@));
            }
            out.push(c);
        }
        i = i + 1;
    }
    out
}

/// The name under which looking at an artist again is held back for five minutes.
pub fn refresh_scope(artist_id: i64) -> (r: (String, u64))
    ensures
        r.0@ == "lidarr-refresh-"@ + text::decimal_int(artist_id as int),
        r.1 == 300_000,
{
    (text::join_two("lidarr-refresh-", text::format_int(artist_id).as_str()), 300_000)
}

// ---------------------------------------------------------------------------
// Laws

/// A file with a title and a recording is never filled.
pub proof fn complete_files_are_left_alone(
    files: Seq<TagsView>,
    tracks: Seq<MbTrack>,
    k: int,
    file: int,
    track: int,
)
    requires
        0 <= k <= files.len(),
        fills(files, tracks, k).contains((file, track)),
    ensures
        0 <= file < k,
        lacks_names(files[file]),
        track_for(tracks, files[file].track) == Some(track),
    decreases k,
{
    if k > 0 {
        let rest = fills(files, tracks, k - 1);
        let all = fills(files, tracks, k);
        let i = choose|i: int| 0 <= i < all.len() && all[i] == (file, track);
        if rest == all || i < rest.len() {
            assert(rest[i] == (file, track));
            complete_files_are_left_alone(files, tracks, k - 1, file, track);
        }
    }
}

/// Lidarr's tags are left alone unless writing them is switched on.
pub proof fn watched_artists_are_left_alone(cfg: Config)
    requires
        cfg.lidarr_mode != LidarrMode::Disabled,
        !cfg.write_tags_for_tracked,
    ensures
        !may_write(cfg, true),
        may_write(cfg, false),
{
}

} // verus!
