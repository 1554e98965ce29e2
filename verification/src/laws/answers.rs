//! What the server and the listening services answer, and what they are told.

use crate::apply;
use crate::apply::StepView;
use crate::config::{Config, Mode, SkipContentMode};
use crate::favorites;
use crate::favorites::{LovedView, SongView};
use crate::fraction::Fraction;
use crate::json;
use crate::json::JsonView;
use crate::lastfm::Rated;
use crate::net::ReplyView;
use crate::organizer;
use crate::organizer::{AlbumPlanView, DuplicateView, MoveView};
use crate::ratings;
use crate::ratings::StatsView;
use crate::state;
use crate::stats;
use crate::stats::{PlayingView, TallyView};
use crate::text;
use crate::url;
use vstd::prelude::*;

verus! {

// ---------------------------------------------------------------------------
// Songs

/// A song of the server is what its fields say, and nothing without an id.
pub proof fn server_songs_are_read_by_name(
    e: JsonView,
    id: Seq<char>,
    title: Seq<char>,
    artist: Seq<char>,
    album: Seq<char>,
    mbid: Seq<char>,
)
    ensures
        json::member(e, "id"@) == Some(JsonView::Str(id)) && json::member(e, "title"@) == Some(
            JsonView::Str(title),
        ) && json::member(e, "artist"@) == Some(JsonView::Str(artist)) && json::member(e, "album"@)
            == Some(JsonView::Str(album)) && json::member(e, "musicBrainzId"@) == Some(
            JsonView::Str(mbid),
        ) ==> favorites::song_of(e) == Some((SongView { id, title, artist, album, mbid })),
        json::member(e, "id"@) is None ==> favorites::song_of(e) is None,
{
}

/// A loved track is what its fields say, and nothing without a name.
pub proof fn loved_tracks_are_read_by_name(
    e: JsonView,
    by: JsonView,
    title: Seq<char>,
    artist: Seq<char>,
    mbid: Seq<char>,
)
    ensures
        json::member(e, "name"@) == Some(JsonView::Str(title)) && json::member(e, "artist"@) == Some(
            by,
        ) && json::member(by, "name"@) == Some(JsonView::Str(artist)) && json::member(e, "mbid"@)
            == Some(JsonView::Str(mbid)) ==> favorites::loved_of(e) == Some(
            (LovedView { title, artist, mbid }),
        ),
        json::member(e, "name"@) is None ==> favorites::loved_of(e) is None,
{
}

/// A song that is being played is what its fields say; a number that is missing is nought.
pub proof fn playing_songs_are_read_by_name(
    e: JsonView,
    id: Seq<char>,
    position: int,
    duration: int,
    plays: int,
)
    requires
        i64::MIN <= position <= i64::MAX,
        i64::MIN <= duration <= i64::MAX,
        i64::MIN <= plays <= i64::MAX,
        json::member(e, "id"@) == Some(JsonView::Str(id)),
    ensures
        stats::playing_of(e) matches Some(p) && {
            &&& p.id == id
            &&& json::member(e, "positionMs"@) == Some(JsonView::Int(position)) ==> p.position_ms
                == position
            &&& json::member(e, "positionMs"@) is None ==> p.position_ms == 0
            &&& json::member(e, "duration"@) == Some(JsonView::Int(duration)) ==> p.duration
                == duration
            &&& json::member(e, "duration"@) is None ==> p.duration == 0
            &&& json::member(e, "playCount"@) == Some(JsonView::Int(plays)) ==> p.play_count == plays
            &&& json::member(e, "playCount"@) is None ==> p.play_count == 0
            &&& p.title == json::text_or_empty(json::member(e, "title"@))
            &&& p.artist == json::text_or_empty(json::member(e, "artist"@))
            &&& p.album == json::text_or_empty(json::member(e, "album"@))
            &&& p.path == json::text_or_empty(json::member(e, "path"@))
        },
{
}

/// One more entry of an answer is one more song, where it is one.
pub proof fn every_entry_is_read(v: Seq<JsonView>, e: JsonView)
    ensures
        favorites::all_songs(v.push(e)) == favorites::all_songs(v) + match favorites::song_of(e) {
            Some(s) => seq![s],
            None => Seq::empty(),
        },
        favorites::all_loved(v.push(e)) == favorites::all_loved(v) + match favorites::loved_of(e) {
            Some(t) => seq![t],
            None => Seq::empty(),
        },
        stats::all_playing(v.push(e)) == stats::all_playing(v) + match stats::playing_of(e) {
            Some(p) => seq![p],
            None => Seq::empty(),
        },
        favorites::all_songs(Seq::empty()).len() == 0,
        favorites::all_loved(Seq::empty()).len() == 0,
        stats::all_playing(Seq::empty()).len() == 0,
{
    assert(v.push(e).drop_last() =~= v);
}

/// Songs stand in an answer under its kind; the playlist, the path and the players at their places.
pub proof fn answers_hold_songs(
    doc: JsonView,
    r: JsonView,
    inner: JsonView,
    v: Seq<JsonView>,
    s: Seq<char>,
    kind: Seq<char>,
)
    requires
        json::member(doc, "subsonic-response"@) == Some(r),
    ensures
        json::member(r, kind) == Some(inner) && json::member(inner, "song"@) == Some(
            JsonView::Array(v),
        ) ==> favorites::songs_under(Some(doc), kind) == v,
        json::member(r, "nowPlaying"@) == Some(inner) && json::member(inner, "entry"@) == Some(
            JsonView::Array(v),
        ) ==> stats::now_playing_entries(Some(doc)) == v,
        json::member(r, "playlist"@) == Some(inner) && json::member(inner, "id"@) == Some(
            JsonView::Str(s),
        ) ==> stats::playlist_id(Some(doc)) == Some(s),
        json::member(r, "song"@) == Some(inner) && json::member(inner, "path"@) == Some(
            JsonView::Str(s),
        ) ==> stats::song_path(Some(doc)) == Some(s),
{
}

/// The play count of an answer is the number in its text, and nought where there is none.
pub proof fn play_counts_are_read(doc: JsonView, t: JsonView, s: Seq<char>, n: int)
    requires
        json::member(doc, "track"@) == Some(t),
        json::member(t, "userplaycount"@) == Some(JsonView::Str(s)),
    ensures
        text::parsed_int(s, i64::MIN as int, i64::MAX as int) == Some(n)
            ==> favorites::play_count_of(Some(doc)) == n,
        text::parsed_int(s, i64::MIN as int, i64::MAX as int) is None ==> favorites::play_count_of(
            Some(doc),
        ) == 0,
        favorites::play_count_of(None) == 0,
{
}

/// No more are taken than there are, and no more than are wanted.
pub proof fn no_more_than_wanted(n: int, len: int)
    ensures
        favorites::at_most(n, len) <= n && favorites::at_most(n, len) <= len,
        favorites::at_most(n, len) == n || favorites::at_most(n, len) == len,
{
}

// ---------------------------------------------------------------------------
// Listens

/// A song that ended is told as skipped or as played, by the share that was heard, with its names
/// where it has any.
pub proof fn ended_songs_are_told(e: PlayingView, threshold: int)
    requires
        e.duration > 0,
        e.artist.len() > 0 || e.title.len() > 0,
    ensures
        ({
            let names = e.artist + " - "@ + e.title + " ["@ + e.album + "]"@;
            let limit = if threshold > 0 {
                threshold
            } else {
                0
            };
            let early = 100 * e.position_ms < limit * (1000 * e.duration);
            &&& !early ==> stats::event_of(e, threshold) == "full play: "@ + names
            &&& early ==> stats::event_of(e, threshold) == "skipped: "@ + names + " (stopped at "@
                + stats::shown_percent(e.position_ms, e.duration) + "% of "@ + text::decimal_int(
                e.duration,
            ) + "s)"@
        }),
{
    let limit = if threshold > 0 {
        threshold
    } else {
        0
    };
    let d = e.duration;
    assert(10 * (limit * (100 * d)) == limit * (1000 * d)) by (nonlinear_arith);
    assert(10 * (limit * (10 * d)) == limit * (100 * d)) by (nonlinear_arith);
}

/// A quotient is rounded to the nearest whole number, and to the even one of two that are as near.
pub proof fn quotients_are_rounded(num: int, den: int)
    requires
        num >= 0,
        den > 0,
    ensures
        ({
            let q = stats::rounded_even(num, den);
            &&& 2 * q * den - den <= 2 * num <= 2 * q * den + den
            &&& 2 * num == 2 * q * den + den || 2 * num == 2 * q * den - den ==> q % 2 == 0
        }),
{
    let q = num / den;
    let r = num % den;
    assert(num == q * den + r && 0 <= r < den) by (nonlinear_arith)
        requires
            q == num / den,
            r == num % den,
            den > 0,
    ;
    assert((q + 1) * den == q * den + den) by (nonlinear_arith);
    assert(2 * (q + 1) * den == 2 * ((q + 1) * den)) by (nonlinear_arith);
    assert(2 * q * den == 2 * (q * den)) by (nonlinear_arith);
}

/// Play count, love and rating are looked up where they are of use, and only for a song with a name.
pub proof fn lookups_are_made_where_of_use(cfg: Config, e: PlayingView)
    ensures
        ({
            let (plays, love, rating) = ratings::wants(cfg, e);
            let named = e.artist.len() > 0 && e.title.len() > 0;
            &&& plays <==> named && cfg.lastfm_import_playcount
            &&& love <==> named && (cfg.lastfm_import_playcount || cfg.favorites_sync_lastfm)
            &&& rating <==> named && text::trimmed(cfg.lidarr_url@).len() > 0
        }),
{
}

/// What is written into a file: how often it was heard in full, and its stars and its love once it was
/// heard often enough.
pub proof fn files_are_told_what_was_heard(cfg: Config, t: TallyView, threshold: Fraction)
    requires
        0 <= t.full <= i64::MAX,
    ensures
        ({
            let m = ratings::meta_of(cfg, t, threshold);
            let enough = t.full + t.half + t.skips >= cfg.star_min_samples;
            let half = stats::half_stars(t);
            &&& m.playcount == t.full
            &&& enough ==> m.half_stars == Some(half as u8) && m.loved == Some(
                half * threshold.den >= 2 * threshold.num,
            )
            &&& !enough ==> m.half_stars is None && m.loved is None
        }),
{
}

/// A rating goes to the track, to the album and to the artist, each where its id is known.
pub proof fn ratings_go_where_ids_are_known(
    recording: Seq<char>,
    album: Seq<char>,
    artist: Seq<char>,
)
    requires
        recording.len() > 0,
        artist.len() > 0,
    ensures
        ratings::listenbrainz_targets(recording, Some(album), artist) == seq![
            (Rated::Track, recording),
            (Rated::Album, album),
            (Rated::Artist, artist),
        ],
        ratings::listenbrainz_targets(recording, None, artist) == seq![
            (Rated::Track, recording),
            (Rated::Artist, artist),
        ],
        ratings::listenbrainz_targets(Seq::empty(), Some(album), Seq::empty()) == seq![
            (Rated::Album, album),
        ],
        ratings::listenbrainz_targets(Seq::empty(), None, Seq::empty()).len() == 0,
{
}

/// An album's rating from outside counts up to five stars.
pub proof fn outside_ratings_end_at_five(r: Fraction)
    requires
        r.wf(),
    ensures
        r.num >= 5 * r.den ==> ratings::outside_rating(r) == (Fraction { num: 5, den: 1 }),
        r.num < 5 * r.den ==> ratings::outside_rating(r) == r,
{
}

/// The sum of some counters is that of each of them; one that holds no number counts nothing.
pub proof fn every_counter_counts(v: Seq<Option<Seq<char>>>, n: int)
    requires
        i64::MIN <= n <= i64::MAX,
    ensures
        ratings::sum_of(v.push(Some(text::decimal_int(n)))) == ratings::sum_of(v) + n,
        ratings::sum_of(v.push(None)) == ratings::sum_of(v),
        ratings::sum_of(Seq::empty()) == 0,
{
    assert(v.push(Some(text::decimal_int(n))).drop_last() =~= v);
    assert(v.push(None).drop_last() =~= v);
    text::decimal_int_reads_back(n, i64::MIN as int, i64::MAX as int);
    assert(state::stored_number(Some(text::decimal_int(n))) == n);
}

/// The top picks are the first songs, no more than are wanted.
pub proof fn picks_are_the_first_songs(songs: Seq<StatsView>, count: int, i: int)
    requires
        count >= 0,
    ensures
        ({
            let ids = ratings::first_ids(songs, count);
            &&& count <= songs.len() ==> ids.len() == count
            &&& count > songs.len() ==> ids.len() == songs.len()
            &&& 0 <= i < ids.len() ==> ids[i] == songs[i].id
        }),
{
}

/// Every pick is named in the call that makes the playlist, in its order.
pub proof fn every_pick_is_named(ids: Seq<Seq<char>>, id: Seq<char>)
    ensures
        ratings::song_ids(ids.push(id)) == ratings::song_ids(ids) + ("&songId="@ + url::encoded(id)),
        ratings::song_ids(Seq::empty()).len() == 0,
{
    assert(ids.push(id).drop_last() =~= ids);
    assert(ratings::song_ids(ids) + "&songId="@ + url::encoded(id) =~= ratings::song_ids(ids) + (
    "&songId="@ + url::encoded(id)));
}

/// The filter is told of something exactly in apply mode, where it has an address, and where words or
/// skips are filtered.
pub proof fn the_filter_is_told_where_used(cfg: Config)
    ensures
        ratings::filters(cfg) <==> cfg.mode == Mode::Apply && ratings::filter_base(cfg).len() > 0 && (
        cfg.keyword_filter_enabled || cfg.skip_content_mode != SkipContentMode::Unlimited),
{
}

/// The filter is told of each song with its weight: one for each play, less two for each skip.
pub proof fn the_filter_is_told_weights(s: StatsView)
    ensures
        ratings::weight_doc(s) matches JsonView::Array(v) && {
            &&& v.len() == 4
            &&& v[0] == JsonView::Str(s.id)
            &&& v[1] == JsonView::Real(text::decimal_int(s.plays - s.skips - s.skips) + ".0"@)
            &&& v[2] == JsonView::Int(s.plays)
            &&& v[3] == JsonView::Int(s.skips)
        },
{
}

/// The filter took what it was told exactly where it answers with success.
pub proof fn the_filter_answers(cfg: Config, status: int, body: Seq<char>, cause: Seq<char>)
    ensures
        ratings::filters_failure(cfg, ReplyView::Answer { status, body }) is None <==> 200 <= status
            < 300,
        ratings::filters_failure(cfg, ReplyView::Silent) is Some,
        ratings::filters_failure(cfg, ReplyView::Failed { cause }) is Some,
{
}

/// One more prediction is one more name, where it has one.
pub proof fn predictions_have_a_name(items: Seq<JsonView>, e: JsonView, name: Seq<char>)
    ensures
        json::member(e, "name"@) == Some(JsonView::Str(name)) && name.len() > 0 ==> ratings::names_of(
            items.push(e),
        ) == ratings::names_of(items).push(name),
        json::member(e, "name"@) is None ==> ratings::names_of(items.push(e)) == ratings::names_of(
            items,
        ),
        ratings::names_of(Seq::empty()).len() == 0,
{
    assert(items.push(e).drop_last() =~= items);
}

// ---------------------------------------------------------------------------
// Moves

/// Every planned move is carried out: the file from its place to its new one, and what accompanies it
/// from folder to folder under its own name.
pub proof fn every_planned_move_is_made(moves: Seq<MoveView>, i: int, k: int)
    requires
        0 <= i < moves.len(),
        0 <= k < moves[i].sidecars.len(),
    ensures
        apply::track_steps(moves).len() == moves.len(),
        apply::track_steps(moves)[i] matches StepView::Track { from, to, companions } && {
            let name = moves[i].sidecars[k];
            let old_dir = organizer::parent(moves[i].from);
            let new_dir = organizer::parent(moves[i].to);
            &&& from == moves[i].from && to == moves[i].to
            &&& companions.len() == moves[i].sidecars.len()
            &&& old_dir.len() > 0 ==> companions[k].0 == old_dir + seq!['/'] + name
            &&& old_dir.len() == 0 ==> companions[k].0 == name
            &&& new_dir.len() > 0 ==> companions[k].1 == new_dir + seq!['/'] + name
            &&& new_dir.len() == 0 ==> companions[k].1 == name
        },
{
    reveal_strlit("/");
    assert("/"@ =~= seq!['/']);
}

/// Every duplicate goes from where it was found to its place among the duplicates.
pub proof fn every_duplicate_is_put_aside(dups: Seq<DuplicateView>, i: int)
    requires
        0 <= i < dups.len(),
    ensures
        apply::duplicate_steps(dups).len() == dups.len(),
        apply::duplicate_steps(dups)[i] == (StepView::Duplicate {
            from: dups[i].loser,
            to: dups[i].target,
        }),
{
}

/// The files of a folder follow the album to its new folder, each under its own name, and stay where
/// only the case of letters changes.
pub proof fn folder_files_follow(p: AlbumPlanView, i: int)
    requires
        0 <= i < p.dir_sidecars.len(),
        p.current_dir.len() > 0,
        p.target_dir.len() > 0,
    ensures
        text::lowered(p.current_dir) == text::lowered(p.target_dir) ==> apply::folder_steps(p).len()
            == 0,
        text::lowered(p.current_dir) != text::lowered(p.target_dir) ==> apply::folder_steps(p).len()
            == p.dir_sidecars.len() && apply::folder_steps(p)[i] == (StepView::FolderFile {
            name: p.dir_sidecars[i],
            from: p.current_dir + seq!['/'] + p.dir_sidecars[i],
            to: p.target_dir + seq!['/'] + p.dir_sidecars[i],
        }),
{
    reveal_strlit("/");
    assert("/"@ =~= seq!['/']);
}

/// The moves of a step are that of its file and those of what accompanies it.
pub proof fn steps_move_all_that_belongs(
    steps: Seq<StepView>,
    from: Seq<char>,
    to: Seq<char>,
    name: Seq<char>,
    more: Seq<(Seq<char>, Seq<char>)>,
)
    ensures
        apply::all_moves(steps.push(StepView::Track { from, to, companions: more }))
            == apply::all_moves(steps).push((from, to)) + more,
        apply::all_moves(steps.push(StepView::Duplicate { from, to })) == apply::all_moves(steps).push(
            (from, to),
        ),
        apply::all_moves(steps.push(StepView::FolderFile { name, from, to })) == apply::all_moves(
            steps,
        ).push((from, to)),
        apply::all_moves(Seq::empty()).len() == 0,
{
    let a = StepView::Track { from, to, companions: more };
    let b = StepView::Duplicate { from, to };
    let c = StepView::FolderFile { name, from, to };
    assert(steps.push(a).drop_last() =~= steps);
    assert(steps.push(b).drop_last() =~= steps);
    assert(steps.push(c).drop_last() =~= steps);
    let all = apply::all_moves(steps);
    assert(all + (seq![(from, to)] + more) =~= all.push((from, to)) + more);
    assert(all + seq![(from, to)] =~= all.push((from, to)));
}

} // verus!
