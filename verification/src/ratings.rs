//! What follows from the tallies: which ratings are published, which songs are picked, and which
//! are filtered.

use crate::config::{Config, Mode, SkipContentMode};
use crate::fraction;
use crate::fraction::Fraction;
use crate::json;
use crate::json::{Json, JsonView};
use crate::lastfm::Rated;
use crate::net;
use crate::net::{Body, BodyView, Reply, ReplyView, Request};
use crate::order;
use crate::organizer;
use crate::paths;
use crate::state;
use crate::stats;
use crate::stats::{NowPlayingEntry, PlayingView, StarBand, StarTally, TallyView};
use crate::tags;
use crate::text;
use crate::url;
use vstd::prelude::*;

verus! {

// ---------------------------------------------------------------------------
// Keys

/// Key of a file's tally.
pub open spec fn tally_key(path: Seq<char>) -> Seq<char> {
    "star.tally."@ + state::hex(state::hashed_text(path) as nat, 16)
}

pub fn star_tally_key(path: &str) -> (r: String)
    ensures
        r@ == tally_key(path@),
{
    text::join_two("star.tally.", state::format_hex16(state::fnv1a64(path)).as_str())
}

/// Key of the rating that was published of a file.
pub open spec fn published_key(path: Seq<char>) -> Seq<char> {
    "star.pub."@ + state::hex(state::hashed_text(path) as nat, 16)
}

pub fn star_pub_key(path: &str) -> (r: String)
    ensures
        r@ == published_key(path@),
{
    text::join_two("star.pub.", state::format_hex16(state::fnv1a64(path)).as_str())
}

// ---------------------------------------------------------------------------
// Taking in a listen

pub open spec fn tally_opt(t: Option<StarTally>) -> Option<TallyView> {
    match t {
        Some(t) => Some(t@),
        None => None,
    }
}

/// How many listens of any kind a tally holds.
pub open spec fn samples(t: TallyView) -> int {
    t.full + t.half + t.skips
}

fn sample_count(t: &StarTally) -> (r: i128)
    ensures
        r == samples(t@),
{
    (t.full as i128) + (t.half as i128) + (t.skips as i128)
}

/// The tally of a file, new where none is stored, with names as they are known now.
pub open spec fn opened(stored: Option<TallyView>, e: PlayingView) -> TallyView {
    let t = if stored matches Some(s) && s.path.len() > 0 {
        stored->0
    } else {
        TallyView { path: e.path, id: e.id, ..stats::empty_tally() }
    };
    TallyView {
        title: if e.title.len() > 0 {
            e.title
        } else {
            t.title
        },
        artist: if e.artist.len() > 0 {
            e.artist
        } else {
            t.artist
        },
        id: if t.id.len() == 0 {
            e.id
        } else {
            t.id
        },
        ..t
    }
}

/// What was found elsewhere about a file that is seen for the first time.
#[derive(Debug)]
pub struct Lookups {
    pub playcount: i64,
    pub loved: bool,
    pub rating: Option<Fraction>,
}

impl Lookups {
    pub open spec fn wf(self) -> bool {
        self.rating matches Some(r) ==> r.wf()
    }
}

/// Which lookups are wanted for a song: play count, love and rating. Without artist and title
/// there is nothing to look up.
pub open spec fn wants(cfg: Config, e: PlayingView) -> (bool, bool, bool) {
    let named = e.artist.len() > 0 && e.title.len() > 0;
    (
        named && cfg.lastfm_import_playcount,
        named && (cfg.lastfm_import_playcount || cfg.favorites_sync_lastfm),
        named && text::trimmed(cfg.lidarr_url@).len() > 0,
    )
}

pub fn wanted_lookups(cfg: &Config, e: &NowPlayingEntry) -> (r: (bool, bool, bool))
    ensures
        r == wants(*cfg, e@),
{
    let named = text::length(e.artist.as_str()) > 0 && text::length(e.title.as_str()) > 0;
    (
        named && cfg.lastfm_import_playcount,
        named && (cfg.lastfm_import_playcount || cfg.favorites_sync_lastfm),
        named && text::length(text::trim(cfg.lidarr_url.as_str()).as_str()) > 0,
    )
}

/// The play count with which a file starts.
pub open spec fn baseline(cfg: Config, e: PlayingView, found: Lookups) -> int {
    let own = stats::max(e.play_count, 0);
    if wants(cfg, e).0 {
        stats::max(own, found.playcount as int)
    } else {
        own
    }
}

/// The tally before the listen counts: one that holds nothing yet starts from history.
pub open spec fn ready(
    cfg: Config,
    stored: Option<TallyView>,
    e: PlayingView,
    found: Lookups,
) -> TallyView {
    let t = opened(stored, e);
    if samples(t) != 0 {
        t
    } else {
        let base = baseline(cfg, e, found);
        let counted = TallyView { full: stats::max(t.full, base), ..t };
        if wants(cfg, e).2 && found.rating is Some {
            stats::seeded_by_rating(counted, found.rating->0)
        } else {
            stats::seeded(counted, base, wants(cfg, e).1 && found.loved)
        }
    }
}

/// How a listen counts under the settings.
pub open spec fn listen_band(cfg: Config, e: PlayingView) -> StarBand {
    stats::band_of(
        e.position_ms,
        e.duration,
        cfg.star_half_play_percent as int,
        cfg.star_full_play_percent as int,
        cfg.star_ignore_percent as int,
    )
}

fn open_tally(stored: Option<StarTally>, e: &NowPlayingEntry) -> (r: StarTally)
    ensures
        r@ == opened(tally_opt(stored), e@),
{
    let mut t = match stored {
        Some(s) => if text::length(s.path.as_str()) > 0 {
            s
        } else {
            StarTally { path: e.path.clone(), id: e.id.clone(), ..StarTally::default() }
        },
        None => StarTally { path: e.path.clone(), id: e.id.clone(), ..StarTally::default() },
    };
    if text::length(e.title.as_str()) > 0 {
        t.title = e.title.clone();
    }
    if text::length(e.artist.as_str()) > 0 {
        t.artist = e.artist.clone();
    }
    if text::length(t.id.as_str()) == 0 {
        t.id = e.id.clone();
    }
    t
}

/// Takes one listen into a file's tally. A file seen for the first time starts from its play
/// count, from love, or from a rating given elsewhere.
pub fn record_star_listen(
    cfg: &Config,
    stored: Option<StarTally>,
    e: &NowPlayingEntry,
    found: &Lookups,
) -> (r: (StarTally, StarBand))
    requires
        found.wf(),
        stats::has_room(ready(*cfg, tally_opt(stored), e@, *found), listen_band(*cfg, e@)),
    ensures
        r.1 == listen_band(*cfg, e@),
        r.0@ == stats::with_listen(ready(*cfg, tally_opt(stored), e@, *found), r.1),
{
    let mut t = open_tally(stored, e);
    if sample_count(&t) == 0 {
        let (want_count, want_love, want_rating) = wanted_lookups(cfg, e);
        let mut base: i64 = if e.play_count >= 0 {
            e.play_count
        } else {
            0
        };
        if want_count && found.playcount > base {
            base = found.playcount;
        }
        if base > t.full {
            t.full = base;
        }
        t = match &found.rating {
            Some(rating) => if want_rating {
                stats::seed_from_rating(t, rating)
            } else {
                stats::seed_initial_rating(t, base, want_love && found.loved)
            },
            None => stats::seed_initial_rating(t, base, want_love && found.loved),
        };
    }
    let band = stats::star_band(
        e.position_ms,
        e.duration,
        cfg.star_half_play_percent,
        cfg.star_full_play_percent,
        cfg.star_ignore_percent,
    );
    (stats::apply_band(t, band), band)
}

/// Whether a song that ended is taken into a tally.
pub fn counts_for_stars(cfg: &Config, e: &NowPlayingEntry) -> (r: bool)
    ensures
        r == (cfg.star_tally_enabled && e@.path.len() > 0),
{
    cfg.star_tally_enabled && text::length(e.path.as_str()) > 0
}

/// Only full listens are told to Last.fm and ListenBrainz, and only where that is turned on.
pub fn scrobbles(cfg: &Config, band: StarBand) -> (r: (bool, bool))
    ensures
        r.0 == (band == StarBand::Full && cfg.lastfm_scrobble),
        r.1 == (band == StarBand::Full && cfg.listenbrainz_scrobble),
{
    (band == StarBand::Full && cfg.lastfm_scrobble, band == StarBand::Full
        && cfg.listenbrainz_scrobble)
}

// ---------------------------------------------------------------------------
// Files that move or go

/// What changes when a file moves: its tally goes to the new path and key, and so does the rating
/// that was published of it.
#[derive(Debug)]
pub struct Migration {
    pub tally: StarTally,
    pub new_key: String,
    pub old_key: String,
    pub new_pub_key: String,
    pub old_pub_key: String,
}

pub open spec fn is_migration(m: Migration, t: TallyView, from: Seq<char>, to: Seq<char>) -> bool {
    &&& m.tally@ == (TallyView { path: to, ..t })
    &&& m.new_key@ == tally_key(to)
    &&& m.old_key@ == tally_key(from)
    &&& m.new_pub_key@ == published_key(to)
    &&& m.old_pub_key@ == published_key(from)
}

/// The tally of a file that moved, under its new path. Nothing changes where the path stays, is
/// empty, or has no tally.
pub fn migrate_star_tally(stored: Option<StarTally>, from: &str, to: &str) -> (r: Option<Migration>)
    ensures
        match r {
            Some(m) => from@ != to@ && from@.len() > 0 && to@.len() > 0 && stored is Some
                && stored->0@.path.len() > 0 && is_migration(m, stored->0@, from@, to@),
            None => from@ == to@ || from@.len() == 0 || to@.len() == 0 || stored is None
                || stored->0@.path.len() == 0,
        },
{
    if text::same(from, to) || text::length(from) == 0 || text::length(to) == 0 {
        return None;
    }
    match stored {
        Some(s) => {
            if text::length(s.path.as_str()) == 0 {
                return None;
            }
            let mut t = s;
            t.path = text::copy(to);
            Some(
                Migration {
                    tally: t,
                    new_key: star_tally_key(to),
                    old_key: star_tally_key(from),
                    new_pub_key: star_pub_key(to),
                    old_pub_key: star_pub_key(from),
                },
            )
        },
        None => None,
    }
}

/// A move keeps the rating and the play count.
pub proof fn moving_keeps_the_rating(m: Migration, t: TallyView, from: Seq<char>, to: Seq<char>)
    requires
        is_migration(m, t, from, to),
    ensures
        stats::half_stars(m.tally@) == stats::half_stars(t),
        m.tally@.full == t.full,
{
}

/// A tally is dropped where its file is gone.
pub fn is_orphan(t: &StarTally, file_exists: bool) -> (r: bool)
    ensures
        r == (t@.path.len() > 0 && !file_exists),
{
    text::length(t.path.as_str()) > 0 && !file_exists
}

// ---------------------------------------------------------------------------
// Publishing

/// Ratings are published in apply mode, where they are kept and a user is there.
pub fn publishes(cfg: &Config, user: &str) -> (r: bool)
    ensures
        r == (cfg.star_tally_enabled && cfg.mode == Mode::Apply && user@.len() > 0),
{
    cfg.star_tally_enabled && cfg.mode == Mode::Apply && text::length(user) > 0
}

/// What is to be published of a tally.
#[derive(Debug, Clone, Copy, PartialEq, Eq, Structural)]
pub enum Publish {
    /// Enough for one pass.
    Stop,
    /// Nothing.
    Pass,
    /// A rating of so many whole stars, and love or its end where that changes.
    Rate { rating: u8, love: Option<bool> },
}

/// A tally has an id, a path and enough listens.
pub open spec fn publishable(cfg: Config, t: TallyView) -> bool {
    t.id.len() > 0 && t.path.len() > 0 && samples(t) >= cfg.star_min_samples
}

fn is_publishable(cfg: &Config, t: &StarTally) -> (r: bool)
    ensures
        r == publishable(*cfg, t@),
{
    text::length(t.id.as_str()) > 0 && text::length(t.path.as_str()) > 0 && sample_count(t)
        >= cfg.star_min_samples as i128
}

/// The rating reaches the number of stars from which on a song counts as loved.
pub open spec fn lovable(half_stars: int, threshold: Fraction) -> bool {
    half_stars * threshold.den >= 2 * threshold.num
}

fn is_lovable(half_stars: u8, threshold: &Fraction) -> (r: bool)
    requires
        threshold.wf(),
        half_stars <= 10,
    ensures
        r == lovable(half_stars as int, *threshold),
{
    proof {
        fraction::product_bound(half_stars as int, threshold.den as int);
    }
    (half_stars as i128) * (threshold.den as i128) >= 2 * (threshold.num as i128)
}

/// A rating in whole stars; half a star counts upwards.
pub open spec fn whole_stars(half_stars: int) -> int {
    (half_stars + 1) / 2
}

/// A pass that has told so many ratings takes up no further tally; the rest follows on later passes.
pub open spec fn full(told: int) -> bool {
    told >= 250
}

/// What is told of the ratings in one pass over the tallies: how many ratings went out so far.
#[derive(Debug, Clone, Copy)]
pub struct RatingPass {
    pub told: usize,
}

impl RatingPass {
    /// No tally is taken up any more once a pass is full, and one tally has at most three ratings.
    pub open spec fn wf(self) -> bool {
        self.told <= 252
    }

    pub fn start() -> (r: RatingPass)
        ensures
            r.told == 0,
            r.wf(),
    {
        RatingPass { told: 0 }
    }

    /// Whether the pass ends here.
    pub fn is_full(&self) -> (r: bool)
        ensures
            r == full(self.told as int),
    {
        self.told >= 250
    }

    /// Counts the ratings that went out for one tally.
    pub fn count(&mut self, ratings: usize)
        requires
            !full(old(self).told as int),
            ratings <= 3,
        ensures
            final(self).told == old(self).told + ratings,
            final(self).wf(),
    {
        self.told = self.told + ratings;
    }
}

/// How many ratings a pass tells that would tell so many of each tally in turn.
pub open spec fn told_of(each: Seq<nat>) -> nat
    decreases each.len(),
{
    if each.len() == 0 {
        0
    } else {
        let before = told_of(each.drop_last());
        if full(before as int) {
            before
        } else {
            before + each.last()
        }
    }
}

/// All ratings there are to tell.
pub open spec fn to_tell(each: Seq<nat>) -> nat
    decreases each.len(),
{
    if each.len() == 0 {
        0
    } else {
        to_tell(each.drop_last()) + each.last()
    }
}

/// A pass that tells at most `most` ratings of a tally ends with fewer than that above the cap, and
/// below the cap it leaves out none.
pub proof fn passes_are_capped(each: Seq<nat>, most: nat)
    requires
        most >= 1,
        forall|i: int| 0 <= i < each.len() ==> #[trigger] each[i] <= most,
    ensures
        told_of(each) < 250 + most,
        full(told_of(each) as int) || told_of(each) == to_tell(each),
    decreases each.len(),
{
    if each.len() > 0 {
        assert forall|i: int| 0 <= i < each.drop_last().len() implies #[trigger] each.drop_last()[i]
            <= most by {
            assert(each[i] <= most);
        }
        passes_are_capped(each.drop_last(), most);
        assert(each[each.len() - 1] <= most);
    }
}

/// The tallies of a pass that publishes, each with the rating published before and whether the
/// server took the new one: how many ratings are published.
pub open spec fn published_of(
    cfg: Config,
    work: Seq<(TallyView, Option<Seq<char>>, bool)>,
    threshold: Fraction,
) -> nat
    decreases work.len(),
{
    if work.len() == 0 {
        0
    } else {
        let before = published_of(cfg, work.drop_last(), threshold);
        let (t, cached, taken) = work.last();
        match publish_of(cfg, t, cached, before as int, threshold) {
            Publish::Rate { rating, love } => if taken {
                before + 1
            } else {
                before
            },
            _ => before,
        }
    }
}

/// No more than 250 ratings are published in one pass.
pub proof fn publishing_is_capped(
    cfg: Config,
    work: Seq<(TallyView, Option<Seq<char>>, bool)>,
    threshold: Fraction,
)
    ensures
        published_of(cfg, work, threshold) <= 250,
    decreases work.len(),
{
    if work.len() > 0 {
        publishing_is_capped(cfg, work.drop_last(), threshold);
    }
}

pub open spec fn publish_of(
    cfg: Config,
    t: TallyView,
    cached: Option<Seq<char>>,
    published: int,
    threshold: Fraction,
) -> Publish {
    let stars = stats::half_stars(t);
    let rating = whole_stars(stars);
    let love = lovable(stars, threshold);
    if full(published) {
        Publish::Stop
    } else if !publishable(cfg, t) || cached == Some(text::decimal(rating as nat)) {
        Publish::Pass
    } else {
        Publish::Rate {
            rating: rating as u8,
            love: if t.loved != love {
                Some(love)
            } else {
                None
            },
        }
    }
}

/// What is to be published of a tally, given the rating published before and what was published in
/// this pass.
pub fn publish_star_rating(
    cfg: &Config,
    t: &StarTally,
    cached: &Option<String>,
    pass: &RatingPass,
    threshold: &Fraction,
) -> (r: Publish)
    requires
        threshold.wf(),
    ensures
        r == publish_of(*cfg, t@, text::view_opt(*cached), pass.told as int, *threshold),
{
    if pass.is_full() {
        return Publish::Stop;
    }
    if !is_publishable(cfg, t) {
        return Publish::Pass;
    }
    let stars: u8 = stats::star_rating(t);
    let rating: u8 = (stars + 1) / 2;
    match cached {
        Some(c) => {
            if text::same(c.as_str(), text::format_nat(rating as u64).as_str()) {
                return Publish::Pass;
            }
        },
        None => {},
    }
    let love = is_lovable(stars, threshold);
    Publish::Rate {
        rating,
        love: if t.loved != love {
            Some(love)
        } else {
            None
        },
    }
}

/// Once a rating was published it is not published again as long as it stays.
pub proof fn publishing_settles(
    cfg: Config,
    t: TallyView,
    published: int,
    threshold: Fraction,
)
    requires
        !full(published),
    ensures
        publish_of(
            cfg,
            t,
            Some(text::decimal(whole_stars(stats::half_stars(t)) as nat)),
            published,
            threshold,
        ) == Publish::Pass,
{
}

/// The call that sets a rating.
pub fn set_rating_uri(id: &str, rating: u8, user: &str) -> (r: String)
    ensures
        r@ == "setRating?id="@ + id@ + "&rating="@ + text::decimal(rating as nat) + "&u="@ + user@,
{
    let mut s = text::copy("setRating?id=");
    s.append(id);
    s.append("&rating=");
    s.append(text::format_nat(rating as u64).as_str());
    s.append("&u=");
    s.append(user);
    s
}

/// The call that gives a star or takes it.
pub fn love_uri(love: bool, id: &str, user: &str) -> (r: String)
    ensures
        r@ == (if love {
            "star"@
        } else {
            "unstar"@
        }) + "?id="@ + id@ + "&u="@ + user@,
{
    let mut s = if love {
        text::copy("star")
    } else {
        text::copy("unstar")
    };
    s.append("?id=");
    s.append(id);
    s.append("&u=");
    s.append(user);
    s
}

/// Ratings go to Lidarr where that is turned on and Lidarr is set up.
pub fn writes_to_lidarr(cfg: &Config) -> (r: bool)
    ensures
        r == (cfg.rating_sync_write_to_lidarr && text::trimmed(cfg.lidarr_url@).len() > 0
            && text::trimmed(cfg.lidarr_api_key@).len() > 0),
{
    cfg.rating_sync_write_to_lidarr && text::length(text::trim(cfg.lidarr_url.as_str()).as_str()) > 0
        && text::length(text::trim(cfg.lidarr_api_key.as_str()).as_str()) > 0
}

/// What of a tally goes to Lidarr: whether the track is rated, whether its album is, and the
/// album's name and folder.
#[derive(Debug)]
pub struct LidarrPush {
    pub track: bool,
    pub album: bool,
    pub album_name: String,
    pub album_dir: String,
    pub half_stars: u8,
}

/// The tally has a rating worth telling.
pub open spec fn rated(cfg: Config, t: TallyView) -> bool {
    publishable(cfg, t) && stats::half_stars(t) > 0
}

/// What of a tally goes to Lidarr; nothing where it has no rating to tell.
pub fn lidarr_push(cfg: &Config, t: &StarTally) -> (r: Option<LidarrPush>)
    ensures
        match r {
            Some(p) => {
                let dir = paths::folder(t@.path);
                let name = paths::name(dir);
                &&& rated(*cfg, t@)
                &&& p.album_dir@ == dir
                &&& p.album_name@ == name
                &&& p.half_stars == stats::half_stars(t@)
                &&& p.track == (t@.artist.len() > 0 && t@.title.len() > 0 && name.len() > 0)
                &&& p.album == (dir.len() > 0 && t@.artist.len() > 0 && name.len() > 0)
            },
            None => !rated(*cfg, t@),
        },
{
    if !is_publishable(cfg, t) {
        return None;
    }
    let stars: u8 = stats::star_rating(t);
    if stars == 0 {
        return None;
    }
    let album_dir = paths::folder_of(t.path.as_str());
    let album_name = paths::name_of(album_dir.as_str());
    let artist = text::length(t.artist.as_str()) > 0;
    let named = text::length(album_name.as_str()) > 0;
    Some(
        LidarrPush {
            track: artist && text::length(t.title.as_str()) > 0 && named,
            album: text::length(album_dir.as_str()) > 0 && artist && named,
            album_name,
            album_dir,
            half_stars: stars,
        },
    )
}

/// Ratings go to ListenBrainz where scrobbling there is turned on and its token is set.
pub fn writes_to_listenbrainz(cfg: &Config) -> (r: bool)
    ensures
        r == (cfg.listenbrainz_scrobble && text::trimmed(cfg.musicbrainz_token@).len() > 0),
{
    cfg.listenbrainz_scrobble && text::length(text::trim(cfg.musicbrainz_token.as_str()).as_str())
        > 0
}

/// The rating that goes to ListenBrainz; nothing where there is none to tell.
pub fn listenbrainz_push(cfg: &Config, t: &StarTally) -> (r: Option<u8>)
    ensures
        match r {
            Some(stars) => rated(*cfg, t@) && stars == stats::half_stars(t@),
            None => !rated(*cfg, t@),
        },
{
    if !is_publishable(cfg, t) {
        return None;
    }
    let stars: u8 = stats::star_rating(t);
    if stars == 0 {
        None
    } else {
        Some(stars)
    }
}

/// What is rated, and under which id.
pub open spec fn rated_view(v: Seq<(Rated, String)>) -> Seq<(Rated, Seq<char>)> {
    v.map_values(|p: (Rated, String)| (p.0, p.1@))
}

/// One thing to rate, where its id is known.
pub open spec fn rated_if(known: bool, what: Rated, id: Seq<char>) -> Seq<(Rated, Seq<char>)> {
    if known {
        seq![(what, id)]
    } else {
        Seq::empty()
    }
}

/// What a rating goes to at ListenBrainz: the track, the album's release group and the artist, as
/// far as their ids are known.
pub open spec fn listenbrainz_targets(
    recording: Seq<char>,
    group: Option<Seq<char>>,
    artist: Seq<char>,
) -> Seq<(Rated, Seq<char>)> {
    rated_if(recording.len() > 0, Rated::Track, recording) + rated_if(
        group is Some,
        Rated::Album,
        group->0,
    ) + rated_if(artist.len() > 0, Rated::Artist, artist)
}

fn add_rated(list: &mut Vec<(Rated, String)>, known: bool, what: Rated, id: &str)
    ensures
        rated_view(final(list)@) == rated_view(old(list)@) + rated_if(known, what, id@),
        final(list)@.len() == old(list)@.len() + (if known {
            1int
        } else {
            0
        }),
{
    let ghost before = list@;
    if known {
        list.push((what, text::copy(id)));
        assert(rated_view(list@) =~= rated_view(before) + seq![(what, id@)]);
    } else {
        assert(rated_view(list@) =~= rated_view(before) + Seq::<(Rated, Seq<char>)>::empty());
    }
}

/// What a tally's rating goes to at ListenBrainz, from the ids in its file and the release group of
/// its album.
pub fn listenbrainz_ratings(recording: &str, group: &Option<String>, artist: &str) -> (r: Vec<
    (Rated, String),
>)
    ensures
        rated_view(r@) == listenbrainz_targets(recording@, text::view_opt(*group), artist@),
        r@.len() <= 3,
{
    let mut list: Vec<(Rated, String)> = Vec::new();
    assert(rated_view(list@) =~= Seq::<(Rated, Seq<char>)>::empty());
    add_rated(&mut list, text::length(recording) > 0, Rated::Track, recording);
    assert(rated_view(list@) =~= rated_if(recording@.len() > 0, Rated::Track, recording@));
    match group {
        Some(id) => {
            add_rated(&mut list, true, Rated::Album, id.as_str());
        },
        None => {
            let ghost so_far = rated_view(list@);
            assert(so_far + Seq::<(Rated, Seq<char>)>::empty() =~= so_far);
        },
    }
    add_rated(&mut list, text::length(artist) > 0, Rated::Artist, artist);
    list
}

// ---------------------------------------------------------------------------
// Albums

pub open spec fn tally_views(v: Seq<StarTally>) -> Seq<TallyView> {
    v.map_values(|t: StarTally| t@)
}

/// A tally counts for an album: it holds listens, and its file lies in the album's folder.
pub open spec fn of_album(t: TallyView, album_dir: Seq<char>) -> bool {
    samples(t) > 0 && organizer::same_but_case(paths::folder(t.path), album_dir)
}

/// The half stars of an album's tallies together, and how many tallies there are.
pub open spec fn album_sum(tallies: Seq<TallyView>, album_dir: Seq<char>) -> (int, int)
    decreases tallies.len(),
{
    if tallies.len() == 0 {
        (0, 0)
    } else {
        let (sum, n) = album_sum(tallies.drop_last(), album_dir);
        if of_album(tallies.last(), album_dir) {
            (sum + stats::half_stars(tallies.last()), n + 1)
        } else {
            (sum, n)
        }
    }
}

/// An album's rating from outside, held between nought and five stars.
pub open spec fn outside_rating(r: Fraction) -> Fraction {
    if r.at_least(5) {
        Fraction { num: 5, den: 1 }
    } else {
        r
    }
}

/// An album's rating: one from outside where there is one above nought, else the average over its
/// tracks; none where no track is rated.
pub fn album_rating_for(
    album_dir: &str,
    external: &Option<Fraction>,
    tallies: &Vec<StarTally>,
) -> (r: Option<Fraction>)
    requires
        external matches Some(f) ==> f.wf(),
        tallies@.len() <= 0x0800_0000_0000_0000,
    ensures
        ({
            let (sum, n) = album_sum(tally_views(tallies@), album_dir@);
            if external matches Some(f) && f.num > 0 {
                r == Some(outside_rating(external->0))
            } else if n == 0 {
                r is None
            } else {
                r is Some && r->0.num == sum && r->0.den == 2 * n
            }
        }),
{
    match external {
        Some(f) => {
            if f.num > 0 {
                if f.ge_int(5) {
                    return Some(Fraction { num: 5, den: 1 });
                }
                return Some(Fraction { num: f.num, den: f.den });
            }
        },
        None => {},
    }
    let ghost all = tally_views(tallies@);
    let mut sum: i64 = 0;
    let mut n: i64 = 0;
    let mut i: usize = 0;
    assert(all.take(0) == Seq::<TallyView>::empty());
    while i < tallies.len()
        invariant
            i <= tallies@.len() <= 0x0800_0000_0000_0000,
            all == tally_views(tallies@),
            (sum as int, n as int) == album_sum(all.take(i as int), album_dir@),
            0 <= n <= i,
            0 <= sum <= 10 * n,
        decreases tallies@.len() - i,
    {
        let t = &tallies[i];
        proof {
            assert(all.take(i + 1).drop_last() == all.take(i as int));
            assert(all.take(i + 1).last() == t@);
        }
        if sample_count(t) > 0 && organizer::equal_but_case(
            paths::folder_of(t.path.as_str()).as_str(),
            album_dir,
        ) {
            sum = sum + stats::star_rating(t) as i64;
            n = n + 1;
        }
        i = i + 1;
    }
    assert(all.take(i as int) == all);
    if n == 0 {
        None
    } else {
        Some(Fraction { num: sum, den: 2 * n })
    }
}

/// An album's average lies between nought and five stars.
pub proof fn album_average_stays_in_range(tallies: Seq<TallyView>, album_dir: Seq<char>)
    ensures
        album_sum(tallies, album_dir).1 >= 0,
        0 <= album_sum(tallies, album_dir).0 <= 10 * album_sum(tallies, album_dir).1,
    decreases tallies.len(),
{
    if tallies.len() > 0 {
        album_average_stays_in_range(tallies.drop_last(), album_dir);
    }
}

// ---------------------------------------------------------------------------
// The best rated

/// A row of the list of the best rated songs.
#[derive(Debug)]
pub struct RatedRow {
    pub name: String,
    pub path: String,
    pub half_stars: u8,
    pub plays: i64,
}

#[verifier::ext_equal]
pub struct RowView {
    pub name: Seq<char>,
    pub path: Seq<char>,
    pub half_stars: int,
    pub plays: int,
}

impl View for RatedRow {
    type V = RowView;

    open spec fn view(&self) -> RowView {
        RowView {
            name: self.name@,
            path: self.path@,
            half_stars: self.half_stars as int,
            plays: self.plays as int,
        }
    }
}

pub open spec fn row_of(t: TallyView) -> RowView {
    RowView {
        name: if t.title.len() > 0 {
            t.artist + " - "@ + t.title
        } else {
            t.path
        },
        path: t.path,
        half_stars: stats::half_stars(t),
        plays: t.full,
    }
}

pub open spec fn rows_of(tallies: Seq<TallyView>) -> Seq<RowView>
    decreases tallies.len(),
{
    if tallies.len() == 0 {
        Seq::empty()
    } else if samples(tallies.last()) <= 0 {
        rows_of(tallies.drop_last())
    } else {
        rows_of(tallies.drop_last()).push(row_of(tallies.last()))
    }
}

/// Better rated comes first, then more often played.
pub open spec fn row_before() -> spec_fn(RowView, RowView) -> bool {
    |a: RowView, b: RowView|
        a.half_stars > b.half_stars || (a.half_stars == b.half_stars && a.plays > b.plays)
}

pub open spec fn row_views(v: Seq<RatedRow>) -> Seq<RowView> {
    v.map_values(|r: RatedRow| r@)
}

/// The best rated songs, at most so many.
pub fn top_rated(tallies: &Vec<StarTally>, count: usize) -> (r: Vec<RatedRow>)
    ensures
        ({
            let all = order::sorted_by(rows_of(tally_views(tallies@)), row_before());
            row_views(r@) == all.take(
                if count < all.len() {
                    count as int
                } else {
                    all.len() as int
                },
            )
        }),
{
    let ghost all = tally_views(tallies@);
    let mut rows: Vec<RatedRow> = Vec::new();
    let mut i: usize = 0;
    proof {
        assert(all.take(0) == Seq::<TallyView>::empty());
        assert(row_views(rows@) == Seq::<RowView>::empty());
    }
    while i < tallies.len()
        invariant
            i <= tallies@.len(),
            all == tally_views(tallies@),
            row_views(rows@) == rows_of(all.take(i as int)),
        decreases tallies@.len() - i,
    {
        let t = &tallies[i];
        proof {
            assert(all.take(i + 1).drop_last() == all.take(i as int));
            assert(all.take(i + 1).last() == t@);
        }
        if sample_count(t) > 0 {
            let name = if text::length(t.title.as_str()) > 0 {
                let mut s = t.artist.clone();
                s.append(" - ");
                s.append(t.title.as_str());
                s
            } else {
                t.path.clone()
            };
            let row = RatedRow {
                name,
                path: t.path.clone(),
                half_stars: stats::star_rating(t),
                plays: t.full,
            };
            let ghost before = rows@;
            rows.push(row);
            assert(row_views(rows@) == row_views(before).push(row_of(t@)));
        }
        i = i + 1;
    }
    assert(all.take(i as int) == all);
    let before = |a: &RatedRow, b: &RatedRow| -> (x: bool)
        ensures
            x == row_before()(a@, b@),
        { a.half_stars > b.half_stars || (a.half_stars == b.half_stars && a.plays > b.plays) };
    let ghost shown = |r: RatedRow| r@;
    let ghost rel = |a: RatedRow, b: RatedRow| row_before()(shown(a), shown(b));
    let ghost given = rows@;
    let mut sorted = order::sort_by(rows, before, Ghost(rel));
    proof {
        order::sorting_commutes(given, shown, row_before());
        assert(row_views(given) =~= given.map_values(shown));
        assert(row_views(sorted@) =~= sorted@.map_values(shown));
    }
    let ghost full = row_views(sorted@);
    if count < sorted.len() {
        sorted.truncate(count);
        assert(row_views(sorted@) =~= full.take(count as int));
    } else {
        assert(full.take(full.len() as int) == full);
    }
    sorted
}

// ---------------------------------------------------------------------------
// Taking over from elsewhere

/// Stars at the server are taken over in apply mode, where that is turned on and a user is there.
pub fn pulls(cfg: &Config, user: &str) -> (r: bool)
    ensures
        r == (cfg.rating_sync_pull_from_navidrome && cfg.mode == Mode::Apply && user@.len() > 0),
{
    cfg.rating_sync_pull_from_navidrome && cfg.mode == Mode::Apply && text::length(user) > 0
}

/// The call that looks a song up by artist and title.
pub fn song_search_uri(artist: &str, title: &str, user: &str) -> (r: String)
    ensures
        r@ == "search3?query="@ + url::encoded(artist@ + " "@ + title@) + "&songCount=1&u="@ + user@,
{
    let mut q = text::copy(artist);
    q.append(" ");
    q.append(title);
    let mut s = text::copy("search3?query=");
    s.append(url::urlencode(q.as_str()).as_str());
    s.append("&songCount=1&u=");
    s.append(user);
    s
}

/// The tally of a song with a star: loved, with three stars. One that has a tally keeps it.
pub fn pulled_tally(stored: &Option<StarTally>, path: &str, id: &str, title: &str, artist: &str) -> (r:
    Option<StarTally>)
    ensures
        match r {
            Some(t) => (stored is None || stored->0@.path.len() == 0) && t@ == stats::seeded(
                TallyView {
                    path: path@,
                    id: id@,
                    title: title@,
                    artist: artist@,
                    loved: true,
                    ..stats::empty_tally()
                },
                0,
                true,
            ),
            None => stored is Some && stored->0@.path.len() > 0,
        },
{
    match stored {
        Some(s) => {
            if text::length(s.path.as_str()) > 0 {
                return None;
            }
        },
        None => {},
    }
    let t = StarTally {
        path: text::copy(path),
        id: text::copy(id),
        title: text::copy(title),
        artist: text::copy(artist),
        loved: true,
        ..StarTally::default()
    };
    Some(stats::seed_initial_rating(t, 0, true))
}

/// A song taken over from the server starts with three stars.
pub proof fn pulled_songs_start_with_three_stars(t: TallyView)
    requires
        t.full == 0,
    ensures
        stats::half_stars(stats::seeded(t, 0, true)) == 6,
{
}

/// The tally of a song with feedback at ListenBrainz, where it holds no listens yet: a score of one
/// is love.
pub fn feedback_seed(t: StarTally, score: i64) -> (r: Option<StarTally>)
    ensures
        match r {
            Some(u) => samples(t@) <= 0 && u@ == stats::seeded(
                t@,
                t@.full,
                score == 1 || t@.loved,
            ),
            None => samples(t@) > 0,
        },
{
    if sample_count(&t) > 0 {
        return None;
    }
    let loved = score == 1 || t.loved;
    let full: i64 = t.full;
    Some(stats::seed_initial_rating(t, full, loved))
}

// ---------------------------------------------------------------------------
// Sums and weights

pub open spec fn opt_views(v: Seq<Option<String>>) -> Seq<Option<Seq<char>>> {
    v.map_values(|o: Option<String>| text::view_opt(o))
}

/// The sum of stored counters.
pub open spec fn sum_of(v: Seq<Option<Seq<char>>>) -> int
    decreases v.len(),
{
    if v.len() == 0 {
        0
    } else {
        sum_of(v.drop_last()) + state::stored_number(v.last())
    }
}

/// No sum on the way is too large.
pub open spec fn sums_fit(v: Seq<Option<Seq<char>>>) -> bool {
    forall|n: int| 0 <= n <= v.len() ==> i64::MIN <= sum_of(#[trigger] v.take(n)) <= i64::MAX
}

/// The sum of all plays, or of all skips.
pub fn total(stored: &Vec<Option<String>>) -> (r: i64)
    requires
        sums_fit(opt_views(stored@)),
    ensures
        r == sum_of(opt_views(stored@)),
{
    let ghost all = opt_views(stored@);
    let mut sum: i64 = 0;
    let mut i: usize = 0;
    assert(all.take(0) == Seq::<Option<Seq<char>>>::empty());
    while i < stored.len()
        invariant
            i <= stored@.len(),
            all == opt_views(stored@),
            sums_fit(all),
            sum == sum_of(all.take(i as int)),
        decreases stored@.len() - i,
    {
        proof {
            assert(all.take(i + 1).drop_last() == all.take(i as int));
            assert(all.take(i + 1).last() == text::view_opt(stored@[i as int]));
            assert(i64::MIN <= sum_of(all.take(i + 1)) <= i64::MAX);
        }
        sum = sum + state::stored_int(&stored[i]);
        i = i + 1;
    }
    assert(all.take(i as int) == all);
    sum
}

/// Plays and skips of one song.
#[derive(Debug)]
pub struct SongStats {
    pub id: String,
    pub plays: i64,
    pub skips: i64,
}

#[verifier::ext_equal]
pub struct StatsView {
    pub id: Seq<char>,
    pub plays: int,
    pub skips: int,
}

impl View for SongStats {
    type V = StatsView;

    open spec fn view(&self) -> StatsView {
        StatsView { id: self.id@, plays: self.plays as int, skips: self.skips as int }
    }
}

pub open spec fn stats_views(v: Seq<SongStats>) -> Seq<StatsView> {
    v.map_values(|s: SongStats| s@)
}

/// Heavier songs come first.
pub open spec fn heavier() -> spec_fn(StatsView, StatsView) -> bool {
    |a: StatsView, b: StatsView| a.plays - 2 * a.skips > b.plays - 2 * b.skips
}

/// The songs by weight, the heaviest first.
pub fn all_weights(songs: Vec<SongStats>) -> (r: Vec<SongStats>)
    ensures
        stats_views(r@) == order::sorted_by(stats_views(songs@), heavier()),
{
    let before = |a: &SongStats, b: &SongStats| -> (x: bool)
        ensures
            x == heavier()(a@, b@),
        { stats::weight(a.plays, a.skips) > stats::weight(b.plays, b.skips) };
    let ghost shown = |s: SongStats| s@;
    let ghost rel = |a: SongStats, b: SongStats| heavier()(shown(a), shown(b));
    let ghost given = songs@;
    let r = order::sort_by(songs, before, Ghost(rel));
    proof {
        order::sorting_commutes(given, shown, heavier());
        assert(stats_views(given) =~= given.map_values(shown));
        assert(stats_views(r@) =~= r@.map_values(shown));
    }
    r
}

/// A song that was skipped more and played less never comes before one that was not.
pub proof fn skipping_sinks(songs: Seq<StatsView>)
    ensures
        order::in_order(order::sorted_by(songs, heavier()), heavier()),
{
    order::sorting_orders(songs, heavier());
}

/// The songs of the playlist, each in the call.
pub open spec fn song_ids(ids: Seq<Seq<char>>) -> Seq<char>
    decreases ids.len(),
{
    if ids.len() == 0 {
        Seq::empty()
    } else {
        song_ids(ids.drop_last()) + "&songId="@ + url::encoded(ids.last())
    }
}

/// The call that makes the playlist of top picks, or makes it anew where there is one.
pub open spec fn picks_call(user: Seq<char>, ids: Seq<Seq<char>>, playlist: Option<Seq<char>>) -> Seq<
    char,
> {
    "createPlaylist?name="@ + url::encoded("nd-organizer: Top Picks"@) + "&u="@ + user + song_ids(ids)
        + (match playlist {
        Some(id) => if id.len() > 0 {
            "&playlistId="@ + url::encoded(id)
        } else {
            Seq::empty()
        },
        None => Seq::empty(),
    })
}

/// The ids of the first songs.
pub open spec fn first_ids(songs: Seq<StatsView>, count: int) -> Seq<Seq<char>> {
    songs.take(
        if count < songs.len() {
            count
        } else {
            songs.len() as int
        },
    ).map_values(|s: StatsView| s.id)
}

/// The call for the playlist of the heaviest songs; none where there are none.
pub fn top_picks_uri(
    weights: &Vec<SongStats>,
    count: usize,
    user: &str,
    playlist: &Option<String>,
) -> (r: Option<String>)
    ensures
        match r {
            Some(s) => weights@.len() > 0 && count > 0 && s@ == picks_call(
                user@,
                first_ids(stats_views(weights@), count as int),
                text::view_opt(*playlist),
            ),
            None => weights@.len() == 0 || count == 0,
        },
{
    if weights.len() == 0 || count == 0 {
        return None;
    }
    let ghost ids = first_ids(stats_views(weights@), count as int);
    let n: usize = if count < weights.len() {
        count
    } else {
        weights.len()
    };
    let mut s = text::copy("createPlaylist?name=");
    s.append(url::urlencode("nd-organizer: Top Picks").as_str());
    s.append("&u=");
    s.append(user);
    let ghost start = s@;
    let mut i: usize = 0;
    proof {
        assert(ids.len() == n);
        assert(start + song_ids(ids.take(0)) == start);
    }
    while i < n
        invariant
            i <= n == ids.len(),
            n <= weights@.len(),
            ids == first_ids(stats_views(weights@), count as int),
            n == (if count < weights@.len() {
                count as int
            } else {
                weights@.len() as int
            }),
            s@ == start + song_ids(ids.take(i as int)),
        decreases n - i,
    {
        proof {
            assert(ids.take(i + 1).drop_last() == ids.take(i as int));
            assert(ids.take(i + 1).last() == ids[i as int]);
            assert(ids[i as int] == stats_views(weights@)[i as int].id);
            assert(ids[i as int] == weights@[i as int].id@);
        }
        s.append("&songId=");
        s.append(url::urlencode(weights[i].id.as_str()).as_str());
        assert(s@ == start + song_ids(ids.take(i + 1)));
        i = i + 1;
    }
    assert(ids.take(i as int) == ids);
    match playlist {
        Some(id) => if text::length(id.as_str()) > 0 {
            let ghost before = s@;
            s.append("&playlistId=");
            s.append(url::urlencode(id.as_str()).as_str());
            assert(s@ == before + ("&playlistId="@ + url::encoded(id@)));
        } else {
            assert(s@ + Seq::<char>::empty() == s@);
        },
        None => {
            assert(s@ + Seq::<char>::empty() == s@);
        },
    }
    Some(s)
}

// ---------------------------------------------------------------------------
// The filter

/// The songs that are skip-heavy, in their order.
pub open spec fn heavy_ids(songs: Seq<StatsView>, ratio: Fraction) -> Seq<Seq<char>>
    decreases songs.len(),
{
    if songs.len() == 0 {
        Seq::empty()
    } else {
        let rest = heavy_ids(songs.drop_last(), ratio);
        let s = songs.last();
        if stats::removable(s.plays, s.skips, ratio, 3) {
            rest.push(s.id)
        } else {
            rest
        }
    }
}

/// The filter is told of anything: in apply mode, with an address, and where words or skips are
/// filtered.
pub open spec fn filters(cfg: Config) -> bool {
    cfg.mode == Mode::Apply && filter_base(cfg).len() > 0 && (cfg.keyword_filter_enabled
        || cfg.skip_content_mode != SkipContentMode::Unlimited)
}

pub open spec fn filter_base(cfg: Config) -> Seq<char> {
    text::strip_back(text::trimmed(cfg.filter_url@), text::among("/"@))
}

/// What the filter is told.
#[derive(Debug)]
pub struct FilterPush {
    pub url: String,
    pub excluded: Vec<String>,
    pub keywords: Vec<String>,
}

/// What the filter is told: the skip-heavy songs, where skips are limited, and the words, where
/// words are filtered.
pub fn publish_filters(cfg: &Config, weights: &Vec<SongStats>, ratio: &Fraction) -> (r: Option<
    FilterPush,
>)
    requires
        ratio.wf(),
        forall|i: int|
            0 <= i < weights@.len() ==> i64::MIN <= (#[trigger] weights@[i]).plays
                + weights@[i].skips <= i64::MAX,
    ensures
        match r {
            Some(p) => {
                &&& filters(*cfg)
                &&& p.url@ == filter_base(*cfg) + "/filters"@
                &&& text::views(p.excluded@) == (if cfg.skip_content_mode
                    == SkipContentMode::Unlimited {
                    Seq::<Seq<char>>::empty()
                } else {
                    heavy_ids(stats_views(weights@), *ratio)
                })
                &&& text::views(p.keywords@) == (if cfg.keyword_filter_enabled {
                    organizer::keywords_of(*cfg)
                } else {
                    Seq::<Seq<char>>::empty()
                })
            },
            None => !filters(*cfg),
        },
{
    if cfg.mode != Mode::Apply {
        return None;
    }
    let base = text::trim_back(text::trim(cfg.filter_url.as_str()).as_str(), "/");
    let limits = cfg.skip_content_mode != SkipContentMode::Unlimited;
    if text::length(base.as_str()) == 0 || (!cfg.keyword_filter_enabled && !limits) {
        return None;
    }
    let mut excluded: Vec<String> = Vec::new();
    assert(text::views(excluded@) == Seq::<Seq<char>>::empty());
    if limits {
        let ghost all = stats_views(weights@);
        let mut i: usize = 0;
        assert(all.take(0) == Seq::<StatsView>::empty());
        while i < weights.len()
            invariant
                i <= weights@.len(),
                ratio.wf(),
                all == stats_views(weights@),
                forall|k: int|
                    0 <= k < weights@.len() ==> i64::MIN <= (#[trigger] weights@[k]).plays
                        + weights@[k].skips <= i64::MAX,
                text::views(excluded@) == heavy_ids(all.take(i as int), *ratio),
            decreases weights@.len() - i,
        {
            proof {
                assert(all.take(i + 1).drop_last() == all.take(i as int));
                assert(all.take(i + 1).last() == weights@[i as int]@);
            }
            if stats::hard_exclude(weights[i].plays, weights[i].skips, ratio, 3) {
                let id = weights[i].id.clone();
                proof {
                    text::views_push(excluded@, id);
                }
                excluded.push(id);
            }
            i = i + 1;
        }
        assert(all.take(i as int) == all);
    }
    let keywords: Vec<String> = if cfg.keyword_filter_enabled {
        organizer::filler_keyword_list(cfg)
    } else {
        let none: Vec<String> = Vec::new();
        assert(text::views(none@) == Seq::<Seq<char>>::empty());
        none
    };
    Some(FilterPush { url: text::join_two(base.as_str(), "/filters"), excluded, keywords })
}

// ---------------------------------------------------------------------------
// Writing into files

/// What is written into a file of its tally.
#[derive(Debug, Clone, Copy, PartialEq, Eq, Structural)]
pub struct PlaybackMeta {
    pub half_stars: Option<u8>,
    pub playcount: i64,
    pub loved: Option<bool>,
}

/// The stars are written once there are listens enough, and love follows from them.
pub open spec fn meta_of(cfg: Config, t: TallyView, threshold: Fraction) -> PlaybackMeta {
    let enough = samples(t) >= cfg.star_min_samples;
    PlaybackMeta {
        half_stars: if enough {
            Some(stats::half_stars(t) as u8)
        } else {
            None
        },
        playcount: t.full as i64,
        loved: if enough {
            Some(lovable(stats::half_stars(t), threshold))
        } else {
            None
        },
    }
}

/// What is written into a file of its tally; nothing where that is off, or the file is not there.
pub fn playback_meta(cfg: &Config, t: &StarTally, file_exists: bool, threshold: &Fraction) -> (r:
    Option<PlaybackMeta>)
    requires
        threshold.wf(),
    ensures
        match r {
            Some(m) => cfg.write_playcount && cfg.mode == Mode::Apply && t@.path.len() > 0
                && file_exists && m == meta_of(*cfg, t@, *threshold),
            None => !(cfg.write_playcount && cfg.mode == Mode::Apply && t@.path.len() > 0
                && file_exists),
        },
{
    if !cfg.write_playcount || cfg.mode != Mode::Apply || text::length(t.path.as_str()) == 0
        || !file_exists {
        return None;
    }
    let enough = sample_count(t) >= cfg.star_min_samples as i128;
    let stars: u8 = stats::star_rating(t);
    let love = is_lovable(stars, threshold);
    Some(
        PlaybackMeta {
            half_stars: if enough {
                Some(stars)
            } else {
                None
            },
            playcount: t.full,
            loved: if enough {
                Some(love)
            } else {
                None
            },
        },
    )
}

/// The names in a list of predictions.
pub open spec fn names_of(items: Seq<JsonView>) -> Seq<Seq<char>>
    decreases items.len(),
{
    if items.len() == 0 {
        Seq::empty()
    } else {
        let rest = names_of(items.drop_last());
        let name = json::text_or_empty(json::member(items.last(), "name"@));
        if name.len() > 0 {
            rest.push(name)
        } else {
            rest
        }
    }
}

/// The predictions under a name, with semicolons between them.
pub open spec fn predicted(data: JsonView, name: Seq<char>) -> Seq<char> {
    text::joined(names_of(json::items_of(json::member(data, name))), "; "@)
}

fn predictions(data: &Json, name: &str) -> (r: String)
    ensures
        r@ == predicted(data@, name@),
{
    let mut out: Vec<String> = Vec::new();
    assert(text::views(out@) == Seq::<Seq<char>>::empty());
    match json::items(data.get(name)) {
        Some(v) => {
            let ghost all = json::trees(v@);
            let mut i: usize = 0;
            proof {
                json::trees_index(v@);
                assert(all.take(0) == Seq::<JsonView>::empty());
            }
            while i < v.len()
                invariant
                    i <= v@.len(),
                    all.len() == v@.len(),
                    forall|k: int| 0 <= k < v@.len() ==> all[k] == #[trigger] v@[k]@,
                    text::views(out@) == names_of(all.take(i as int)),
                decreases v@.len() - i,
            {
                proof {
                    assert(all.take(i + 1).drop_last() == all.take(i as int));
                    assert(all.take(i + 1).last() == v@[i as int]@);
                }
                let one = json::str_or_empty(v[i].get("name"));
                if text::length(one.as_str()) > 0 {
                    proof {
                        text::views_push(out@, one);
                    }
                    out.push(one);
                }
                i = i + 1;
            }
            assert(all.take(i as int) == all);
        },
        None => {},
    }
    text::join(&out, "; ")
}

/// The genre and the mood that are written from an analysis: the genre as the rules for writing
/// tags say, the mood only where there is none.
pub fn essentia_writes(data: &Json, genre_now: &str, mood_now: &str, overwrite: bool) -> (r: (
    Option<String>,
    Option<String>,
))
    ensures
        text::view_opt(r.0) == (if predicted(data@, "genres"@).len() > 0 && tags::writes(
            genre_now@,
            predicted(data@, "genres"@),
            overwrite,
        ) {
            Some(predicted(data@, "genres"@))
        } else {
            None::<Seq<char>>
        }),
        text::view_opt(r.1) == (if predicted(data@, "moods"@).len() > 0 && mood_now@.len() == 0 {
            Some(predicted(data@, "moods"@))
        } else {
            None::<Seq<char>>
        }),
{
    let genres = predictions(data, "genres");
    let moods = predictions(data, "moods");
    let genre: Option<String> = if text::length(genres.as_str()) > 0 && tags::should_write(
        genre_now,
        genres.as_str(),
        overwrite,
    ) {
        Some(genres)
    } else {
        None
    };
    let mood: Option<String> = if text::length(moods.as_str()) > 0 && text::length(mood_now) == 0 {
        Some(moods)
    } else {
        None
    };
    (genre, mood)
}

// ---------------------------------------------------------------------------
// Telling the filter

/// A song with its weight and counts, as the filter is told of it.
pub open spec fn weight_doc(s: StatsView) -> JsonView {
    JsonView::Array(
        seq![
            JsonView::Str(s.id),
            JsonView::Real(text::decimal_int(s.plays - 2 * s.skips) + ".0"@),
            JsonView::Int(s.plays),
            JsonView::Int(s.skips),
        ],
    )
}

pub open spec fn weight_docs(v: Seq<StatsView>) -> Seq<JsonView> {
    v.map_values(|s: StatsView| weight_doc(s))
}

/// The document that the filter is told.
pub open spec fn filter_doc(
    cfg: Config,
    excluded: Seq<Seq<char>>,
    songs: Seq<StatsView>,
    keywords: Seq<Seq<char>>,
) -> JsonView {
    JsonView::Object(
        seq![
            ("excluded"@, JsonView::Array(excluded.map_values(|s: Seq<char>| JsonView::Str(s)))),
            ("weights"@, JsonView::Array(weight_docs(songs))),
            ("keywords"@, JsonView::Array(keywords.map_values(|s: Seq<char>| JsonView::Str(s)))),
            ("keywordFilter"@, JsonView::Bool(cfg.keyword_filter_enabled)),
            ("skipMode"@, JsonView::Str(cfg.skip_content_mode.name())),
        ],
    )
}

fn weight_text(s: &SongStats) -> (r: String)
    requires
        i64::MIN <= s.plays - 2 * s.skips <= i64::MAX,
    ensures
        r@ == text::decimal_int(s.plays - 2 * s.skips) + ".0"@,
{
    let w: i64 = stats::weight(s.plays, s.skips) as i64;
    text::join_two(text::format_int(w).as_str(), ".0")
}

fn weight_json(s: &SongStats) -> (r: Json)
    requires
        i64::MIN <= s.plays - 2 * s.skips <= i64::MAX,
    ensures
        r@ == weight_doc(s@),
{
    let mut out: Vec<Json> = Vec::new();
    assert(json::trees(out@) =~= Seq::<JsonView>::empty());
    json::append(&mut out, json::string(s.id.as_str()));
    json::append(&mut out, Json::Real(weight_text(s)));
    json::append(&mut out, json::number(s.plays));
    json::append(&mut out, json::number(s.skips));
    proof {
        match weight_doc(s@) {
            JsonView::Array(x) => {
                assert(json::trees(out@) =~= x);
            },
            _ => {},
        }
    }
    Json::Array(out)
}

/// The request that tells the filter: the songs that are out, every song's weight, and the words.
pub fn filters_request(cfg: &Config, push: FilterPush, weights: &Vec<SongStats>) -> (r: Request)
    requires
        forall|i: int|
            0 <= i < weights@.len() ==> i64::MIN <= (#[trigger] weights@[i]).plays - 2
                * weights@[i].skips <= i64::MAX,
    ensures
        r@ == net::posting(
            push.url@,
            seq![("Content-Type"@, "application/json"@)],
            BodyView::Tree(
                filter_doc(
                    *cfg,
                    text::views(push.excluded@),
                    stats_views(weights@),
                    text::views(push.keywords@),
                ),
            ),
            15_000,
        ),
{
    let ghost all = weight_docs(stats_views(weights@));
    let mut list: Vec<Json> = Vec::new();
    let mut i: usize = 0;
    assert(json::trees(list@) =~= all.take(0));
    while i < weights.len()
        invariant
            i <= weights@.len(),
            all == weight_docs(stats_views(weights@)),
            json::trees(list@) == all.take(i as int),
            forall|k: int|
                0 <= k < weights@.len() ==> i64::MIN <= (#[trigger] weights@[k]).plays - 2
                    * weights@[k].skips <= i64::MAX,
        decreases weights@.len() - i,
    {
        json::append(&mut list, weight_json(&weights[i]));
        assert(all.take(i + 1) =~= all.take(i as int).push(all[i as int]));
        i = i + 1;
    }
    assert(all.take(i as int) =~= all);
    let mut sent = net::no_headers();
    net::put_header(&mut sent, "Content-Type", "application/json");
    assert(organizer::pair_views(sent@) =~= seq![("Content-Type"@, "application/json"@)]);
    let mut body: Vec<(String, Json)> = Vec::new();
    json::put(&mut body, "excluded", json::strings(&push.excluded));
    json::put(&mut body, "weights", Json::Array(list));
    json::put(&mut body, "keywords", json::strings(&push.keywords));
    json::put(&mut body, "keywordFilter", Json::Bool(cfg.keyword_filter_enabled));
    json::put(&mut body, "skipMode", json::string(cfg.skip_content_mode.as_str()));
    proof {
        match filter_doc(
            *cfg,
            text::views(push.excluded@),
            stats_views(weights@),
            text::views(push.keywords@),
        ) {
            JsonView::Object(m) => {
                assert(json::members(body@) =~= m);
            },
            _ => {},
        }
    }
    net::post(push.url, sent, Body::Tree(Json::Object(body)), 15_000)
}

/// What is said where the filter did not take it.
pub open spec fn filters_failure(cfg: Config, reply: ReplyView) -> Option<Seq<char>> {
    match reply {
        ReplyView::Answer { status, body } => if 200 <= status < 300 {
            None
        } else {
            Some("filter proxy "@ + filter_base(cfg) + " responded "@ + text::decimal_int(status))
        },
        ReplyView::Silent => Some("filter proxy "@ + filter_base(cfg) + " unreachable"@),
        ReplyView::Failed { cause } => Some(cause),
    }
}

/// What came of telling the filter.
pub fn filters_outcome(cfg: &Config, reply: &Reply) -> (r: Result<(), String>)
    ensures
        match r {
            Ok(_) => filters_failure(*cfg, reply@) is None,
            Err(e) => filters_failure(*cfg, reply@) == Some(e@),
        },
{
    let base = text::trim_back(text::trim(cfg.filter_url.as_str()).as_str(), "/");
    match reply {
        Reply::Answer { status, body } => if 200 <= *status && *status < 300 {
            Ok(())
        } else {
            let mut s = text::copy("filter proxy ");
            s.append(base.as_str());
            s.append(" responded ");
            s.append(text::format_int(*status as i64).as_str());
            Err(s)
        },
        Reply::Silent => {
            let mut s = text::copy("filter proxy ");
            s.append(base.as_str());
            s.append(" unreachable");
            Err(s)
        },
        Reply::Failed { cause } => Err(cause.clone()),
    }
}

} // verus!
