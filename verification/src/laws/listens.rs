//! How listens become stars.

use crate::config::Config;
use crate::fraction::Fraction;
use crate::ratings;
use crate::ratings::{Lookups, Publish};
use crate::stats;
use crate::stats::{PlayingView, StarBand, TallyView};
use crate::text;
use vstd::prelude::*;

verus! {

// ---------------------------------------------------------------------------
// Taking in a listen

/// The tally of a file after a listen.
pub open spec fn after_listen(
    cfg: Config,
    stored: Option<TallyView>,
    e: PlayingView,
    found: Lookups,
) -> TallyView {
    stats::with_listen(
        ratings::ready(cfg, stored, e, found),
        ratings::listen_band(cfg, e),
    )
}

/// A listen adds to what was counted before and takes nothing away but one skip that a full listen
/// forgives: of the counters of a tally that holds listens only the one of the listen goes up, by
/// one. What can be looked up elsewhere makes no difference any more, and love stays.
pub proof fn a_listen_counts_once(
    cfg: Config,
    stored: TallyView,
    e: PlayingView,
    found: Lookups,
)
    requires
        stored.path.len() > 0,
        stored.full + stored.half + stored.skips != 0,
    ensures
        ({
            let r = after_listen(cfg, Some(stored), e, found);
            let band = ratings::listen_band(cfg, e);
            &&& r.full == stored.full + if band == StarBand::Full {
                1int
            } else {
                0
            }
            &&& r.half == stored.half + if band == StarBand::Half {
                1int
            } else {
                0
            }
            &&& r.skips == stored.skips + if band == StarBand::Skip {
                1int
            } else if band == StarBand::Full && stored.skips > 0 {
                -1
            } else {
                0
            }
            &&& r.loved == stored.loved
            &&& r.path == stored.path
        }),
{
}

/// A file keeps its tally and is never called worse than it is known: names that the server tells
/// replace older ones, and names that it leaves out stay.
pub proof fn a_listen_keeps_the_names(
    cfg: Config,
    stored: TallyView,
    e: PlayingView,
    found: Lookups,
)
    requires
        stored.path.len() > 0,
    ensures
        ({
            let r = after_listen(cfg, Some(stored), e, found);
            &&& r.path == stored.path
            &&& stored.id.len() > 0 ==> r.id == stored.id
            &&& stored.id.len() == 0 ==> r.id == e.id
            &&& e.title.len() > 0 ==> r.title == e.title
            &&& e.title.len() == 0 ==> r.title == stored.title
            &&& e.artist.len() > 0 ==> r.artist == e.artist
            &&& e.artist.len() == 0 ==> r.artist == stored.artist
        }),
{
}

/// The rating of a file never falls with a listen that is no skip, never rises with a skip, and
/// stays where a listen does not count.
pub proof fn a_listen_moves_the_rating(
    cfg: Config,
    stored: TallyView,
    e: PlayingView,
    found: Lookups,
)
    requires
        stored.path.len() > 0,
        stored.full + stored.half + stored.skips != 0,
    ensures
        ({
            let before = stats::half_stars(stored);
            let after = stats::half_stars(after_listen(cfg, Some(stored), e, found));
            let band = ratings::listen_band(cfg, e);
            &&& band == StarBand::Full ==> before <= after <= before + 3
            &&& band == StarBand::Full && 2 * stored.full + stored.half >= stored.skips ==> after
                >= before + 2 || after == 10
            &&& band == StarBand::Half ==> before <= after <= before + 1
            &&& band == StarBand::Skip ==> before - 1 <= after <= before
            &&& band == StarBand::Ignore ==> after == before
        }),
{
}

/// A file that is heard for the first time starts from its history: its play count is the larger one
/// of those that are known, nothing is held against it, and it is as loved as it is elsewhere. The
/// listen counts on top.
pub proof fn a_first_listen_starts_from_history(cfg: Config, e: PlayingView, found: Lookups)
    requires
        found.wf(),
    ensures
        ({
            let r = after_listen(cfg, None, e, found);
            let band = ratings::listen_band(cfg, e);
            let named = e.artist.len() > 0 && e.title.len() > 0;
            let plays = r.full - if band == StarBand::Full {
                1int
            } else {
                0
            };
            let rated = named && text::trimmed(cfg.lidarr_url@).len() > 0 && found.rating is Some;
            &&& r.path == e.path && r.id == e.id && r.title == e.title && r.artist == e.artist
            &&& plays >= 0
            &&& plays >= e.play_count
            &&& named && cfg.lastfm_import_playcount ==> plays >= found.playcount
            &&& plays == 0 || plays == e.play_count || (named && cfg.lastfm_import_playcount && plays
                == found.playcount)
            &&& r.skips == if band == StarBand::Skip {
                1int
            } else {
                0
            }
            &&& rated ==> r.loved == (found.rating->0.num >= 3 * found.rating->0.den)
            &&& !rated ==> r.loved == (named && (cfg.lastfm_import_playcount
                || cfg.favorites_sync_lastfm) && found.loved)
        }),
{
}

/// With which stars a file starts that is loved elsewhere, or was played so often: three stars for
/// love, and a star for every five plays to the nearest half, four and a half at most.
pub proof fn seeds_follow_plays_and_love(t: TallyView, plays: int, loved: bool)
    requires
        plays >= 0,
    ensures
        ({
            let s = stats::seeded(t, plays, loved);
            &&& s.full == t.full && s.skips == 0 && s.loved == loved
            &&& s.path == t.path && s.id == t.id && s.title == t.title && s.artist == t.artist
            &&& 0 <= s.half <= 9
            &&& loved ==> s.half >= 6
            &&& (!loved || s.half > 6) && s.half < 9 ==> 10 * s.half <= 4 * plays + 5 < 10 * s.half
                + 10
            &&& 4 * plays >= 85 <==> s.half == 9
            &&& !loved && plays == 0 ==> s.half == 0
        }),
{
    let q = stats::rounded(2 * plays, 5);
    assert(10 * q <= 4 * plays + 5 && 4 * plays + 5 < 10 * q + 10) by (nonlinear_arith)
        requires
            q == (2 * (2 * plays) + 5) / (2int * 5),
    ;
}

/// A rating that was given elsewhere becomes the nearest half star, and three stars are love.
pub proof fn ratings_become_half_stars(t: TallyView, rating: Fraction)
    requires
        rating.wf(),
    ensures
        ({
            let s = stats::seeded_by_rating(t, rating);
            &&& s.full == t.full && s.skips == 0 && s.path == t.path && s.id == t.id
            &&& 0 <= s.half <= 10
            &&& rating.num <= 0 ==> s.half == 0
            &&& rating.num >= 5 * rating.den ==> s.half == 10
            &&& 0 < rating.num < 5 * rating.den ==> 2 * s.half * rating.den <= 4 * rating.num
                + rating.den && 4 * rating.num + rating.den < 2 * s.half * rating.den + 2
                * rating.den
            &&& s.loved == (rating.num >= 3 * rating.den)
        }),
{
    let n = rating.num as int;
    let d = rating.den as int;
    if 0 < n < 5 * d {
        let q = (2 * (2 * n) + d) / (2 * d);
        assert(2 * q * d <= 4 * n + d && 4 * n + d < 2 * q * d + 2 * d && 0 <= q <= 10)
            by (nonlinear_arith)
            requires
                0 < n < 5 * d,
                d > 0,
                q == (2 * (2 * n) + d) / (2 * d),
        ;
    }
}

// ---------------------------------------------------------------------------
// Bands and stars

/// A listen counts by the share of the song that was heard: it is a full one from the full share
/// on, a half one from the half share on, none below the share that is ignored, and a skip in
/// between.
pub proof fn bands_follow_the_share(
    position_ms: int,
    duration_sec: int,
    half: int,
    full: int,
    ignore: int,
)
    requires
        duration_sec > 0,
        ignore <= half <= full,
    ensures
        ({
            let band = stats::band_of(position_ms, duration_sec, half, full, ignore);
            let heard = 100 * position_ms;
            let length = 1000 * duration_sec;
            &&& band == StarBand::Full <==> heard >= full * length
            &&& band == StarBand::Half <==> half * length <= heard < full * length
            &&& band == StarBand::Skip <==> ignore * length <= heard < half * length
            &&& band == StarBand::Ignore <==> heard < ignore * length
        }),
{
    let d = duration_sec;
    assert(full * (1000 * d) == 100 * (full * (10 * d))) by (nonlinear_arith);
    assert(half * (1000 * d) == 100 * (half * (10 * d))) by (nonlinear_arith);
    assert(ignore * (1000 * d) == 100 * (ignore * (10 * d))) by (nonlinear_arith);
    assert(ignore * (10 * d) <= half * (10 * d) <= full * (10 * d)) by (nonlinear_arith)
        requires
            ignore <= half <= full,
            d > 0,
    ;
}

/// The settings decide which shares count: those for a full listen, for a half one, and for what is
/// ignored.
pub proof fn bands_follow_the_settings(cfg: Config, e: PlayingView)
    ensures
        ratings::listen_band(cfg, e) == stats::band_of(
            e.position_ms,
            e.duration,
            cfg.star_half_play_percent as int,
            cfg.star_full_play_percent as int,
            cfg.star_ignore_percent as int,
        ),
{
}

/// Every full listen is worth a star, every half one half a star, and every skip costs half a star,
/// between nought and five stars.
pub proof fn stars_add_up(t: TallyView)
    ensures
        ({
            let credit = 2 * t.full + t.half - t.skips;
            &&& 0 <= stats::half_stars(t) <= 10
            &&& 0 <= credit <= 10 ==> stats::half_stars(t) == credit
            &&& credit > 10 ==> stats::half_stars(t) == 10
            &&& credit < 0 ==> stats::half_stars(t) == 0
        }),
{
}

/// A song is skipped where less than the threshold of it was heard; one without a length never is.
pub proof fn skips_follow_the_share(duration_sec: int, position_ms: int, threshold: int)
    ensures
        duration_sec <= 0 ==> !stats::skipped(duration_sec, position_ms, threshold),
        duration_sec > 0 && threshold >= 0 ==> (stats::skipped(duration_sec, position_ms, threshold)
            <==> 100 * position_ms < threshold * (1000 * duration_sec)),
        duration_sec > 0 && threshold < 0 && position_ms >= 0 ==> !stats::skipped(
            duration_sec,
            position_ms,
            threshold,
        ),
{
    let d = duration_sec;
    assert(threshold * (1000 * d) == 100 * (threshold * (10 * d))) by (nonlinear_arith);
    assert(0int * (10 * d) == 0);
}

/// The rating of a song is one star plus four times the share of plays among all that was counted, to
/// the nearest star; a song that was never played has none, and one that was never skipped has five.
pub proof fn shares_become_ratings(plays: int, skips: int)
    requires
        skips >= 0,
    ensures
        plays <= 0 ==> stats::rating_of(plays, skips) == 0,
        plays > 0 ==> {
            let r = stats::rating_of(plays, skips);
            let total = plays + skips;
            &&& 1 <= r <= 5
            &&& 2 * total * (r - 1) <= 8 * plays + total
            &&& 8 * plays + total < 2 * total * (r - 1) + 2 * total
        },
        plays > 0 && skips == 0 ==> stats::rating_of(plays, skips) == 5,
{
    if plays > 0 {
        let t = plays + skips;
        let q = (2 * (t + 4 * plays) + t) / (2 * t);
        assert(1 <= q <= 5 && 2 * t * (q - 1) <= 8 * plays + t && 8 * plays + t < 2 * t * (q - 1) + 2
            * t) by (nonlinear_arith)
            requires
                0 < plays <= t,
                q == (2 * (t + 4 * plays) + t) / (2 * t),
        ;
        if skips == 0 {
            assert(q == 5) by (nonlinear_arith)
                requires
                    plays > 0,
                    t == plays,
                    q == (2 * (t + 4 * plays) + t) / (2 * t),
            ;
        }
    }
}

/// A song is taken out of playback only where it was skipped more often than played, was counted
/// often enough, and was skipped in at least that share of cases; and then it is.
pub proof fn only_skipped_songs_are_removed(plays: int, skips: int, ratio: Fraction, min: int)
    requires
        ratio.wf(),
        0 <= ratio.num <= ratio.den,
        plays >= 0,
        skips >= 0,
    ensures
        stats::removable(plays, skips, ratio, min) <==> skips > plays && plays + skips >= min && skips
            * ratio.den >= ratio.num * (plays + skips),
{
}

// ---------------------------------------------------------------------------
// Telling the ratings

/// A rating is told where there is something new to tell: the song is known to the server, was heard
/// often enough, and its rating in whole stars is not the one that was told before. Half stars count
/// upwards, and love goes along where it changes, by the number of stars that count as love.
pub proof fn new_ratings_are_told(
    cfg: Config,
    t: TallyView,
    cached: Option<Seq<char>>,
    published: int,
    threshold: Fraction,
)
    requires
        threshold.wf(),
        published < 250,
    ensures
        ({
            let known = t.id.len() > 0 && t.path.len() > 0;
            let enough = t.full + t.half + t.skips >= cfg.star_min_samples;
            let half = stats::half_stars(t);
            let love = half * threshold.den >= 2 * threshold.num;
            match ratings::publish_of(cfg, t, cached, published, threshold) {
                Publish::Rate { rating, love: change } => {
                    &&& known && enough
                    &&& 2 * rating - 1 <= half <= 2 * rating
                    &&& cached != Some(text::decimal(rating as nat))
                    &&& change == (if t.loved == love {
                        None
                    } else {
                        Some(love)
                    })
                },
                Publish::Pass => !known || !enough || exists|rating: nat|
                    2 * rating - 1 <= half <= 2 * rating && cached == Some(
                        #[trigger] text::decimal(rating),
                    ),
                Publish::Stop => false,
            }
        }),
{
    let half = stats::half_stars(t);
    let rating = ratings::whole_stars(half) as nat;
    assert(2 * rating - 1 <= half <= 2 * rating);
    assert(text::decimal(rating) == text::decimal(rating));
}

/// Where a tally and where a published rating is kept are never the same place.
pub proof fn tallies_and_ratings_are_kept_apart(a: Seq<char>, b: Seq<char>)
    ensures
        ratings::tally_key(a) != ratings::published_key(b),
{
    reveal_strlit("star.tally.");
    reveal_strlit("star.pub.");
    assert(ratings::tally_key(a)[5] == 't');
    assert(ratings::published_key(b)[5] == 'p');
}

/// An album's rating is made of the songs in its folder that were heard, and of all of them.
pub proof fn an_album_is_rated_by_its_songs(tallies: Seq<TallyView>, dir: Seq<char>, more: TallyView)
    ensures
        ({
            let (sum, n) = ratings::album_sum(tallies, dir);
            let counts = more.full + more.half + more.skips > 0 && text::lowered(
                crate::paths::folder(more.path),
            ) == text::lowered(dir);
            ratings::album_sum(tallies.push(more), dir) == if counts {
                (sum + stats::half_stars(more), n + 1)
            } else {
                (sum, n)
            }
        }),
        ratings::album_sum(Seq::empty(), dir) == (0int, 0int),
{
    assert(tallies.push(more).drop_last() =~= tallies);
}

// ---------------------------------------------------------------------------
// Lists

/// The songs that ended between two looks are those that were playing and are no longer, all of them
/// and in their order.
pub proof fn songs_end_when_they_are_gone(previous: Seq<PlayingView>, current: Seq<PlayingView>)
    ensures
        stats::ended(previous, current) == previous.filter(
            |e: PlayingView|
                forall|i: int| 0 <= i < current.len() ==> (#[trigger] current[i]).id != e.id,
        ),
    decreases previous.len(),
{
    reveal(Seq::filter);
    if previous.len() > 0 {
        songs_end_when_they_are_gone(previous.drop_last(), current);
    } else {
        assert(previous =~= Seq::empty());
    }
}

/// The songs that the filter is told of are those that are skipped more often than played, were
/// counted three times at least, and reach the ratio: all of them and in their order.
pub proof fn the_filter_gets_every_heavy_song(songs: Seq<ratings::StatsView>, ratio: Fraction)
    requires
        ratio.wf(),
        0 <= ratio.num <= ratio.den,
        forall|i: int|
            0 <= i < songs.len() ==> (#[trigger] songs[i]).plays >= 0 && songs[i].skips >= 0,
    ensures
        ratings::heavy_ids(songs, ratio) == songs.filter(
            |s: ratings::StatsView|
                s.skips > s.plays && s.plays + s.skips >= 3 && s.skips * ratio.den >= ratio.num * (
                s.plays + s.skips),
        ).map_values(|s: ratings::StatsView| s.id),
    decreases songs.len(),
{
    reveal(Seq::filter);
    let p = |s: ratings::StatsView|
        s.skips > s.plays && s.plays + s.skips >= 3 && s.skips * ratio.den >= ratio.num * (s.plays
            + s.skips);
    let id = |s: ratings::StatsView| s.id;
    if songs.len() > 0 {
        let front = songs.drop_last();
        assert forall|i: int| 0 <= i < front.len() implies (#[trigger] front[i]).plays >= 0
            && front[i].skips >= 0 by {
            assert(songs[i].plays >= 0);
        }
        the_filter_gets_every_heavy_song(front, ratio);
        let s = songs[songs.len() - 1];
        only_skipped_songs_are_removed(s.plays, s.skips, ratio, 3);
        assert(front.filter(p).push(s).map_values(id) =~= front.filter(p).map_values(id).push(s.id));
    } else {
        assert(songs.filter(p).map_values(id) =~= Seq::empty());
    }
}

/// The rows of the best rated songs are those of all songs that were heard.
pub proof fn every_heard_song_has_a_row(tallies: Seq<TallyView>)
    ensures
        ratings::rows_of(tallies) == tallies.filter(
            |t: TallyView| t.full + t.half + t.skips > 0,
        ).map_values(|t: TallyView| ratings::row_of(t)),
    decreases tallies.len(),
{
    reveal(Seq::filter);
    let p = |t: TallyView| t.full + t.half + t.skips > 0;
    let row = |t: TallyView| ratings::row_of(t);
    if tallies.len() > 0 {
        let front = tallies.drop_last();
        every_heard_song_has_a_row(front);
        let t = tallies.last();
        assert(front.filter(p).push(t).map_values(row) =~= front.filter(p).map_values(row).push(
            row(t),
        ));
    } else {
        assert(tallies.filter(p).map_values(row) =~= Seq::empty());
    }
}

/// The best rated songs come first: none stands behind one with fewer stars, or with as many stars
/// and fewer plays; and no song is lost on the way.
pub proof fn better_songs_come_first(tallies: Seq<TallyView>, i: int, j: int)
    requires
        0 <= i < j < crate::order::sorted_by(
            ratings::rows_of(tallies),
            ratings::row_before(),
        ).len(),
    ensures
        ({
            let rows = crate::order::sorted_by(ratings::rows_of(tallies), ratings::row_before());
            &&& rows[i].half_stars >= rows[j].half_stars
            &&& rows[i].half_stars == rows[j].half_stars ==> rows[i].plays >= rows[j].plays
            &&& rows.to_multiset() == ratings::rows_of(tallies).to_multiset()
        }),
{
    let rows = ratings::rows_of(tallies);
    let f = ratings::row_before();
    crate::order::sorting_orders(rows, f);
    crate::order::sorting_permutes(rows, f);
    assert(!f(crate::order::sorted_by(rows, f)[j], crate::order::sorted_by(rows, f)[i]));
}

/// Heavier songs come first: a play is worth one, a skip costs two; and no song is lost on the way.
pub proof fn heavier_songs_come_first(songs: Seq<ratings::StatsView>, i: int, j: int)
    requires
        0 <= i < j < crate::order::sorted_by(songs, ratings::heavier()).len(),
    ensures
        ({
            let all = crate::order::sorted_by(songs, ratings::heavier());
            &&& all[i].plays - 2 * all[i].skips >= all[j].plays - 2 * all[j].skips
            &&& all.to_multiset() == songs.to_multiset()
        }),
{
    let f = ratings::heavier();
    crate::order::sorting_orders(songs, f);
    crate::order::sorting_permutes(songs, f);
    assert(!f(crate::order::sorted_by(songs, f)[j], crate::order::sorted_by(songs, f)[i]));
}

} // verus!
