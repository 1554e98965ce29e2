//! How often songs are played and skipped, and the star rating that follows from it.
//!
//! Stars are counted in half-star steps: ten of them are five stars.

use crate::fraction;
use crate::fraction::Fraction;
use crate::json;
use crate::json::{Json, JsonView};
use crate::state;
use crate::text;
use vstd::prelude::*;

verus! {

/// A song that is being played.
#[derive(Debug, Clone)]
pub struct NowPlayingEntry {
    pub id: String,
    pub position_ms: i64,
    /// Length in seconds.
    pub duration: i64,
    pub title: String,
    pub artist: String,
    pub album: String,
    pub path: String,
    pub play_count: i64,
}

/// The mathematical value of a song that is being played.
#[verifier::ext_equal]
pub struct PlayingView {
    pub id: Seq<char>,
    pub position_ms: int,
    pub duration: int,
    pub title: Seq<char>,
    pub artist: Seq<char>,
    pub album: Seq<char>,
    pub path: Seq<char>,
    pub play_count: int,
}

impl View for NowPlayingEntry {
    type V = PlayingView;

    open spec fn view(&self) -> PlayingView {
        PlayingView {
            id: self.id@,
            position_ms: self.position_ms as int,
            duration: self.duration as int,
            title: self.title@,
            artist: self.artist@,
            album: self.album@,
            path: self.path@,
            play_count: self.play_count as int,
        }
    }
}

pub open spec fn playing_views(v: Seq<NowPlayingEntry>) -> Seq<PlayingView> {
    v.map_values(|e: NowPlayingEntry| e@)
}

// ---------------------------------------------------------------------------
// Plays and skips

pub open spec fn max(a: int, b: int) -> int {
    if a >= b {
        a
    } else {
        b
    }
}

pub open spec fn clamped(n: int, lo: int, hi: int) -> int {
    if n < lo {
        lo
    } else if n > hi {
        hi
    } else {
        n
    }
}

/// A song of the given length that stopped at the given position was played for less than that
/// many percent. What has no length was never skipped.
pub open spec fn skipped(duration_sec: int, position_ms: int, threshold_pct: int) -> bool {
    duration_sec > 0 && position_ms < max(threshold_pct, 0) * (10 * duration_sec)
}

/// A product of a percentage and a length fits 128 bits.
proof fn share_bound(pct: int, duration_sec: int)
    requires
        i32::MIN <= pct <= i32::MAX,
        0 <= duration_sec <= i64::MAX,
    ensures
        -0x1000_0000_0000_0000_0000_0000_0000 <= pct * (10 * duration_sec)
            <= 0x1000_0000_0000_0000_0000_0000_0000,
{
    let d = 10 * duration_sec;
    assert(0 <= d <= 10 * 0x8000_0000_0000_0000);
    assert(pct * d <= 0x8000_0000 * d) by (nonlinear_arith)
        requires
            pct <= 0x8000_0000,
            d >= 0,
    ;
    assert(pct * d >= -0x8000_0000 * d) by (nonlinear_arith)
        requires
            pct >= -0x8000_0000,
            d >= 0,
    ;
}

/// A song played for less than `threshold_pct` percent of its length counts as skipped.
pub fn is_skip(duration_sec: i64, position_ms: i64, threshold_pct: i32) -> (r: bool)
    ensures
        r == skipped(duration_sec as int, position_ms as int, threshold_pct as int),
{
    if duration_sec <= 0 {
        return false;
    }
    let pct: i32 = if threshold_pct >= 0 {
        threshold_pct
    } else {
        0
    };
    proof {
        share_bound(pct as int, duration_sec as int);
    }
    (position_ms as i128) < (pct as i128) * (10 * (duration_sec as i128))
}

/// The weight of a song: every skip counts twice against it.
pub fn weight(plays: i64, skips: i64) -> (r: i128)
    ensures
        r == plays - 2 * skips,
{
    (plays as i128) - 2 * (skips as i128)
}

/// `part` of `total` is at least the ratio, which counts as one of nought to one. Of nothing
/// every part is.
pub open spec fn share_at_least(part: int, total: int, ratio: Fraction) -> bool {
    let num = if ratio.num <= 0 {
        0
    } else if ratio.num >= ratio.den {
        ratio.den as int
    } else {
        ratio.num as int
    };
    if total > 0 {
        part * ratio.den >= num * total
    } else {
        total == 0 || part * ratio.den <= num * total
    }
}

/// A song is to be removed from playback: it was skipped more often than played, often enough
/// to tell, and in at least the given share of cases.
pub open spec fn removable(plays: int, skips: int, ratio: Fraction, min_samples: int) -> bool {
    plays < skips && plays + skips >= min_samples && share_at_least(skips, plays + skips, ratio)
}

pub fn hard_exclude(plays: i64, skips: i64, ratio: &Fraction, min_samples: i64) -> (r: bool)
    requires
        ratio.wf(),
        i64::MIN <= plays + skips <= i64::MAX,
    ensures
        r == removable(plays as int, skips as int, *ratio, min_samples as int),
{
    let total: i64 = plays + skips;
    if !(plays < skips && total >= min_samples) {
        return false;
    }
    let num: i64 = if ratio.num <= 0 {
        0
    } else if ratio.num >= ratio.den {
        ratio.den
    } else {
        ratio.num
    };
    proof {
        fraction::product_bound(skips as int, ratio.den as int);
        fraction::product_bound(num as int, total as int);
    }
    let part: i128 = (skips as i128) * (ratio.den as i128);
    let bound: i128 = (num as i128) * (total as i128);
    if total > 0 {
        part >= bound
    } else {
        total == 0 || part <= bound
    }
}

/// The quotient rounded to the nearest whole number, halves upwards.
pub open spec fn rounded(num: int, den: int) -> int {
    (2 * num + den) / (2 * den)
}

/// A rating from one to five: one, plus four times the share of plays; nought for a song that was
/// never played.
pub open spec fn rating_of(plays: int, skips: int) -> int {
    let total = max(plays + skips, 1);
    if plays <= 0 {
        0
    } else {
        clamped(rounded(total + 4 * plays, total), 1, 5)
    }
}

pub fn rating_1_5(plays: i64, skips: i64) -> (r: u8)
    requires
        i64::MIN <= plays + skips <= i64::MAX,
    ensures
        r == rating_of(plays as int, skips as int),
{
    if plays <= 0 {
        return 0;
    }
    let sum: i64 = plays + skips;
    let total: i128 = if sum >= 1 {
        sum as i128
    } else {
        1
    };
    let q: i128 = (2 * (total + 4 * (plays as i128)) + total) / (2 * total);
    if q < 1 {
        1
    } else if q > 5 {
        5
    } else {
        q as u8
    }
}

// ---------------------------------------------------------------------------
// Answers of the server

pub open spec fn int_or_zero(v: Option<JsonView>) -> int {
    match json::int_of(v) {
        Some(n) => n,
        None => 0,
    }
}

fn int_or_0(v: Option<&Json>) -> (r: i64)
    ensures
        r == int_or_zero(json::shown(v)),
{
    match json::int_value(v) {
        Some(n) => n,
        None => 0,
    }
}

/// The song that an entry tells of; none where it has no id.
pub open spec fn playing_of(e: JsonView) -> Option<PlayingView> {
    match json::string_of(json::member(e, "id"@)) {
        Some(id) => Some(
            PlayingView {
                id,
                position_ms: int_or_zero(json::member(e, "positionMs"@)),
                duration: int_or_zero(json::member(e, "duration"@)),
                title: json::text_or_empty(json::member(e, "title"@)),
                artist: json::text_or_empty(json::member(e, "artist"@)),
                album: json::text_or_empty(json::member(e, "album"@)),
                path: json::text_or_empty(json::member(e, "path"@)),
                play_count: int_or_zero(json::member(e, "playCount"@)),
            },
        ),
        None => None,
    }
}

/// The songs that the entries tell of.
pub open spec fn all_playing(entries: Seq<JsonView>) -> Seq<PlayingView>
    decreases entries.len(),
{
    if entries.len() == 0 {
        Seq::empty()
    } else {
        match playing_of(entries.last()) {
            Some(p) => all_playing(entries.drop_last()).push(p),
            None => all_playing(entries.drop_last()),
        }
    }
}

/// The entries of an answer to `getNowPlaying`.
pub open spec fn now_playing_entries(doc: Option<JsonView>) -> Seq<JsonView> {
    json::items_of(
        json::member_opt(
            json::member_opt(json::member_opt(doc, "subsonic-response"@), "nowPlaying"@),
            "entry"@,
        ),
    )
}

fn playing_entry(e: &Json) -> (r: Option<NowPlayingEntry>)
    ensures
        match r {
            Some(p) => playing_of(e@) == Some(p@),
            None => playing_of(e@) is None,
        },
{
    let id = match json::str_value(e.get("id")) {
        Some(id) => id,
        None => {
            return None;
        },
    };
    Some(
        NowPlayingEntry {
            id,
            position_ms: int_or_0(e.get("positionMs")),
            duration: int_or_0(e.get("duration")),
            title: json::str_or_empty(e.get("title")),
            artist: json::str_or_empty(e.get("artist")),
            album: json::str_or_empty(e.get("album")),
            path: json::str_or_empty(e.get("path")),
            play_count: int_or_0(e.get("playCount")),
        },
    )
}

/// The songs of an answer to `getNowPlaying` that was read already.
pub fn nowplaying_of(doc: &Option<Json>) -> (r: Vec<NowPlayingEntry>)
    ensures
        playing_views(r@) == all_playing(now_playing_entries(json::doc_view(*doc))),
{
    let root = json::root(doc);
    let entries = json::items(
        json::get_opt(json::get_opt(json::get_opt(root, "subsonic-response"), "nowPlaying"), "entry"),
    );
    let mut out: Vec<NowPlayingEntry> = Vec::new();
    match entries {
        Some(v) => {
            let ghost all = json::trees(v@);
            let mut i: usize = 0;
            proof {
                json::trees_index(v@);
                assert(all.take(0) == Seq::<JsonView>::empty());
                assert(playing_views(out@) == Seq::<PlayingView>::empty());
            }
            while i < v.len()
                invariant
                    i <= v@.len(),
                    all == json::trees(v@),
                    all.len() == v@.len(),
                    forall|k: int| 0 <= k < v@.len() ==> all[k] == #[trigger] v@[k]@,
                    playing_views(out@) == all_playing(all.take(i as int)),
                decreases v@.len() - i,
            {
                proof {
                    assert(all.take(i + 1).drop_last() == all.take(i as int));
                    assert(all.take(i + 1).last() == v@[i as int]@);
                }
                match playing_entry(&v[i]) {
                    Some(p) => {
                        let ghost before = out@;
                        out.push(p);
                        assert(playing_views(out@) == playing_views(before).push(p@));
                    },
                    None => {},
                }
                i = i + 1;
            }
            assert(all.take(i as int) == all);
        },
        None => {
            assert(playing_views(out@) == Seq::<PlayingView>::empty());
        },
    }
    out
}

/// The songs of an answer to `getNowPlaying`; none where it cannot be read.
pub fn parse_nowplaying(answer: &str) -> (r: Vec<NowPlayingEntry>)
    ensures
        playing_views(r@) == all_playing(now_playing_entries(json::document(answer@))),
{
    nowplaying_of(&json::parse(answer))
}

/// The id of the playlist in an answer to `createPlaylist`.
pub open spec fn playlist_id(doc: Option<JsonView>) -> Option<Seq<char>> {
    json::string_of(
        json::member_opt(
            json::member_opt(json::member_opt(doc, "subsonic-response"@), "playlist"@),
            "id"@,
        ),
    )
}

/// The id of the playlist in an answer that was read already.
pub fn playlist_id_of(doc: &Option<Json>) -> (r: Option<String>)
    ensures
        text::view_opt(r) == playlist_id(json::doc_view(*doc)),
{
    json::str_value(
        json::get_opt(
            json::get_opt(json::get_opt(json::root(doc), "subsonic-response"), "playlist"),
            "id",
        ),
    )
}

pub fn parse_playlist_id(answer: &str) -> (r: Option<String>)
    ensures
        text::view_opt(r) == playlist_id(json::document(answer@)),
{
    playlist_id_of(&json::parse(answer))
}

/// The path of the song in an answer to `getSong`.
pub open spec fn song_path(doc: Option<JsonView>) -> Option<Seq<char>> {
    json::string_of(
        json::member_opt(
            json::member_opt(json::member_opt(doc, "subsonic-response"@), "song"@),
            "path"@,
        ),
    )
}

/// The path of the song in an answer that was read already.
pub fn song_path_of(doc: &Option<Json>) -> (r: Option<String>)
    ensures
        text::view_opt(r) == song_path(json::doc_view(*doc)),
{
    json::str_value(
        json::get_opt(
            json::get_opt(json::get_opt(json::root(doc), "subsonic-response"), "song"),
            "path",
        ),
    )
}

pub fn extract_path_from_song(answer: &str) -> (r: Option<String>)
    ensures
        text::view_opt(r) == song_path(json::document(answer@)),
{
    song_path_of(&json::parse(answer))
}

// ---------------------------------------------------------------------------
// Stars

/// What was heard of one file. Full listens are also its play count.
#[derive(Debug, Clone)]
pub struct StarTally {
    pub path: String,
    /// Last known id of the file at the server.
    pub id: String,
    pub title: String,
    pub artist: String,
    /// Full listens: a star each.
    pub full: i64,
    /// Half listens: half a star each.
    pub half: i64,
    /// Skips: half a star less each.
    pub skips: i64,
    pub loved: bool,
}

/// The mathematical value of a tally.
#[verifier::ext_equal]
pub struct TallyView {
    pub path: Seq<char>,
    pub id: Seq<char>,
    pub title: Seq<char>,
    pub artist: Seq<char>,
    pub full: int,
    pub half: int,
    pub skips: int,
    pub loved: bool,
}

impl View for StarTally {
    type V = TallyView;

    open spec fn view(&self) -> TallyView {
        TallyView {
            path: self.path@,
            id: self.id@,
            title: self.title@,
            artist: self.artist@,
            full: self.full as int,
            half: self.half as int,
            skips: self.skips as int,
            loved: self.loved,
        }
    }
}

pub open spec fn empty_tally() -> TallyView {
    TallyView {
        path: Seq::empty(),
        id: Seq::empty(),
        title: Seq::empty(),
        artist: Seq::empty(),
        full: 0,
        half: 0,
        skips: 0,
        loved: false,
    }
}

impl Default for StarTally {
    fn default() -> (r: Self)
        ensures
            r@ == empty_tally(),
    {
        StarTally {
            path: String::new(),
            id: String::new(),
            title: String::new(),
            artist: String::new(),
            full: 0,
            half: 0,
            skips: 0,
            loved: false,
        }
    }
}

/// How a listen counts.
#[derive(Debug, Clone, Copy, PartialEq, Eq, Structural)]
pub enum StarBand {
    Ignore,
    Skip,
    Half,
    Full,
}

/// A song of the given length was played up to the given position for at least that many
/// percent. What has no length counts as played for none.
pub open spec fn played(position_ms: int, duration_sec: int, pct: int) -> bool {
    if duration_sec > 0 {
        position_ms >= pct * (10 * duration_sec)
    } else {
        0 >= pct
    }
}

fn was_played(position_ms: i64, duration_sec: i64, pct: i32) -> (r: bool)
    ensures
        r == played(position_ms as int, duration_sec as int, pct as int),
{
    if duration_sec > 0 {
        proof {
            share_bound(pct as int, duration_sec as int);
        }
        (position_ms as i128) >= (pct as i128) * (10 * (duration_sec as i128))
    } else {
        0 >= pct
    }
}

/// How a listen counts that ended at the given position. One that ended before `ignore_pct` is
/// ignored.
pub open spec fn band_of(
    position_ms: int,
    duration_sec: int,
    half_pct: int,
    full_pct: int,
    ignore_pct: int,
) -> StarBand {
    if played(position_ms, duration_sec, max(full_pct, half_pct)) {
        StarBand::Full
    } else if played(position_ms, duration_sec, half_pct) {
        StarBand::Half
    } else if !played(position_ms, duration_sec, ignore_pct) {
        StarBand::Ignore
    } else {
        StarBand::Skip
    }
}

pub fn star_band(
    position_ms: i64,
    duration_sec: i64,
    half_pct: i32,
    full_pct: i32,
    ignore_pct: i32,
) -> (r: StarBand)
    ensures
        r == band_of(
            position_ms as int,
            duration_sec as int,
            half_pct as int,
            full_pct as int,
            ignore_pct as int,
        ),
{
    let top: i32 = if full_pct >= half_pct {
        full_pct
    } else {
        half_pct
    };
    if was_played(position_ms, duration_sec, top) {
        StarBand::Full
    } else if was_played(position_ms, duration_sec, half_pct) {
        StarBand::Half
    } else if !was_played(position_ms, duration_sec, ignore_pct) {
        StarBand::Ignore
    } else {
        StarBand::Skip
    }
}

/// A tally after one more listen. A full one also forgives a skip.
pub open spec fn with_listen(t: TallyView, band: StarBand) -> TallyView {
    match band {
        StarBand::Full => TallyView {
            full: t.full + 1,
            skips: if t.skips > 0 {
                t.skips - 1
            } else {
                t.skips
            },
            ..t
        },
        StarBand::Half => TallyView { half: t.half + 1, ..t },
        StarBand::Skip => TallyView { skips: t.skips + 1, ..t },
        StarBand::Ignore => t,
    }
}

/// The counter that a listen raises can be raised.
pub open spec fn has_room(t: TallyView, band: StarBand) -> bool {
    match band {
        StarBand::Full => t.full < i64::MAX,
        StarBand::Half => t.half < i64::MAX,
        StarBand::Skip => t.skips < i64::MAX,
        StarBand::Ignore => true,
    }
}

pub fn apply_band(t: StarTally, band: StarBand) -> (r: StarTally)
    requires
        has_room(t@, band),
    ensures
        r@ == with_listen(t@, band),
{
    let mut out = t;
    match band {
        StarBand::Full => {
            out.full = out.full + 1;
            if out.skips > 0 {
                out.skips = out.skips - 1;
            }
        },
        StarBand::Half => {
            out.half = out.half + 1;
        },
        StarBand::Skip => {
            out.skips = out.skips + 1;
        },
        StarBand::Ignore => {},
    }
    out
}

/// The stars of a tally, in half-star steps from nought to ten.
pub open spec fn half_stars(t: TallyView) -> int {
    clamped(2 * t.full + t.half - t.skips, 0, 10)
}

/// Star credit in half-star steps: two for a full listen, one for a half one, one less for a
/// skip.
pub fn star_credit(t: &StarTally) -> (r: u8)
    ensures
        r == half_stars(t@),
{
    let n: i128 = 2 * (t.full as i128) + (t.half as i128) - (t.skips as i128);
    if n < 0 {
        0
    } else if n > 10 {
        10
    } else {
        n as u8
    }
}

/// The rating in half-star steps.
pub fn star_rating(t: &StarTally) -> (r: u8)
    ensures
        r == half_stars(t@),
{
    star_credit(t)
}

/// The half-star steps with which a file starts: six for a loved one, and one star for five
/// plays, up to four and a half.
pub open spec fn seed_halves(playcount: int, loved: bool) -> int {
    let floor = if loved {
        6int
    } else {
        0
    };
    let played = rounded(2 * playcount, 5);
    max(
        floor,
        if played < 9 {
            played
        } else {
            9
        },
    )
}

pub open spec fn seeded(t: TallyView, playcount: int, loved: bool) -> TallyView {
    TallyView { half: seed_halves(playcount, loved), skips: 0, loved, ..t }
}

/// A tally that starts from listening history: play count and love.
pub fn seed_initial_rating(t: StarTally, playcount: i64, loved: bool) -> (r: StarTally)
    ensures
        r@ == seeded(t@, playcount as int, loved),
{
    let floor: i128 = if loved {
        6
    } else {
        0
    };
    let played: i128 = if playcount >= 0 {
        (2 * (2 * (playcount as i128)) + 5) / 10
    } else {
        0
    };
    let capped: i128 = if played < 9 {
        played
    } else {
        9
    };
    let half: i128 = if floor >= capped {
        floor
    } else {
        capped
    };
    let mut out = t;
    out.half = half as i64;
    out.skips = 0;
    out.loved = loved;
    out
}

/// The half-star steps of a rating from nought to five.
pub open spec fn rating_halves(rating: Fraction) -> int {
    if rating.num <= 0 {
        0
    } else if rating.at_least(5) {
        10
    } else {
        rounded(2 * rating.num, rating.den as int)
    }
}

pub open spec fn seeded_by_rating(t: TallyView, rating: Fraction) -> TallyView {
    TallyView { half: rating_halves(rating), skips: 0, loved: rating.at_least(3), ..t }
}

/// A tally that starts from a rating given elsewhere. Three stars count as love.
pub fn seed_from_rating(t: StarTally, rating: &Fraction) -> (r: StarTally)
    requires
        rating.wf(),
    ensures
        r@ == seeded_by_rating(t@, *rating),
{
    let half: i64 = if rating.num <= 0 {
        0
    } else if rating.ge_int(5) {
        10
    } else {
        let n: i128 = rating.num as i128;
        let d: i128 = rating.den as i128;
        let q: i128 = (4 * n + d) / (2 * d);
        proof {
            assert(2 * (2 * n) + d == 4 * n + d);
            assert(q <= 10) by (nonlinear_arith)
                requires
                    n < 5 * d,
                    d > 0,
                    n > 0,
                    q == (4 * n + d) / (2 * d),
            ;
            assert(q >= 0) by (nonlinear_arith)
                requires
                    d > 0,
                    n > 0,
                    q == (4 * n + d) / (2 * d),
            ;
        }
        q as i64
    };
    let mut out = t;
    out.half = half;
    out.skips = 0;
    out.loved = rating.ge_int(3);
    out
}

// ---------------------------------------------------------------------------
// Laws of the rating

/// A rating is never negative and never more than five stars.
pub proof fn rating_stays_in_range(t: TallyView)
    ensures
        0 <= half_stars(t) <= 10,
{
}

/// A full listen after a skip forgives it: the tally is as if the skip had not been.
pub proof fn full_listen_forgives_a_skip(t: TallyView)
    requires
        t.skips >= 0,
    ensures
        with_listen(with_listen(t, StarBand::Skip), StarBand::Full) == (TallyView {
            full: t.full + 1,
            ..t
        }),
{
}

/// Only full listens count as plays.
pub proof fn only_full_listens_are_plays(t: TallyView, band: StarBand)
    ensures
        with_listen(t, band).full == t.full + (if band == StarBand::Full {
            1int
        } else {
            0
        }),
{
}

/// A listen never lowers the rating unless it is a skip, and a skip never raises it.
pub proof fn listens_move_the_rating_their_way(t: TallyView, band: StarBand)
    ensures
        band == StarBand::Skip ==> half_stars(with_listen(t, band)) <= half_stars(t),
        band != StarBand::Skip ==> half_stars(with_listen(t, band)) >= half_stars(t),
        band == StarBand::Ignore ==> with_listen(t, band) == t,
{
}

/// A song that was played at least as often as skipped is never removed.
pub proof fn liked_songs_are_never_removed(plays: int, skips: int, ratio: Fraction, min: int)
    requires
        plays >= skips,
    ensures
        !removable(plays, skips, ratio, min),
{
}

/// A loved file starts with three stars or more, and no play count gives more than four and a
/// half.
pub proof fn seeds_are_fair(t: TallyView, playcount: int, loved: bool)
    requires
        t.full == 0,
    ensures
        loved ==> half_stars(seeded(t, playcount, loved)) >= 6,
        half_stars(seeded(t, playcount, loved)) <= 9,
        seeded(t, playcount, loved).full == t.full,
{
}

/// More plays never give fewer starting stars.
pub proof fn more_plays_more_stars(a: int, b: int, loved: bool)
    requires
        a <= b,
    ensures
        seed_halves(a, loved) <= seed_halves(b, loved),
{
    assert((4 * a + 5) / 10 <= (4 * b + 5) / 10);
}

// ---------------------------------------------------------------------------
// One look at what is playing

/// What was seen at one look, and the sums so far.
#[derive(Debug)]
pub struct StatsReport {
    pub plays: usize,
    pub skips: usize,
    pub events: Vec<String>,
    pub total_plays: i64,
    pub total_skips: i64,
    pub tracked_songs: usize,
    pub now_playing: Vec<NowPlayingEntry>,
}

pub open spec fn dashed(events: Seq<Seq<char>>) -> Seq<Seq<char>> {
    events.map_values(|e: Seq<char>| "  - "@ + e)
}

/// A line that is only there where the number is above nought.
pub open spec fn counted(before: Seq<char>, n: nat, after: Seq<char>) -> Seq<Seq<char>> {
    if n > 0 {
        seq![before + text::decimal(n) + after]
    } else {
        Seq::empty()
    }
}

/// The lines of a report.
pub open spec fn report_lines(
    r: StatsReport,
    picks: nat,
    filtered: nat,
    ratings: nat,
    meta_writes: nat,
) -> Seq<Seq<char>> {
    seq![
        "stats: "@ + text::decimal(r.plays as nat) + " play(s), "@ + text::decimal(r.skips as nat)
            + " skip(s) observed"@,
    ] + (if r.events@.len() == 0 {
        seq!["  no playback activity observed this cycle"@]
    } else {
        dashed(text::views(r.events@))
    }) + seq![
        "  cumulative: "@ + text::decimal_int(r.total_plays as int) + " full plays, "@
            + text::decimal_int(r.total_skips as int) + " skips across "@ + text::decimal(
            r.tracked_songs as nat,
        ) + " tracked songs"@,
    ] + counted("  Top Picks playlist refreshed with "@, picks, " tracks"@) + counted(
        "  filter proxy: "@,
        filtered,
        " skip-heavy track(s) removed"@,
    ) + counted("  star: "@, ratings, " rating(s) published to Navidrome"@) + counted(
        "  meta: wrote playcount/stars/loved to "@,
        meta_writes,
        " track(s)"@,
    )
}

fn push_line(lines: &mut Vec<String>, line: String)
    ensures
        text::views(final(lines)@) == text::views(old(lines)@) + seq![line@],
{
    proof {
        text::views_push(lines@, line);
        assert(text::views(lines@).push(line@) == text::views(lines@) + seq![line@]);
    }
    lines.push(line);
}

fn push_counted(lines: &mut Vec<String>, before: &str, n: usize, after: &str)
    ensures
        text::views(final(lines)@) == text::views(old(lines)@) + counted(
            before@,
            n as nat,
            after@,
        ),
{
    if n > 0 {
        let mut s = text::copy(before);
        s.append(text::format_nat(n as u64).as_str());
        s.append(after);
        push_line(lines, s);
    } else {
        assert(text::views(lines@) + Seq::<Seq<char>>::empty() == text::views(lines@));
    }
}

/// The report in words.
pub fn describe(
    r: &StatsReport,
    picks: usize,
    filtered: usize,
    ratings: usize,
    meta_writes: usize,
) -> (out: String)
    ensures
        out@ == text::joined(
            report_lines(
                *r,
                picks as nat,
                filtered as nat,
                ratings as nat,
                meta_writes as nat,
            ),
            "\n"@,
        ),
{
    let mut lines: Vec<String> = Vec::new();
    let mut first = text::copy("stats: ");
    first.append(text::format_nat(r.plays as u64).as_str());
    first.append(" play(s), ");
    first.append(text::format_nat(r.skips as u64).as_str());
    first.append(" skip(s) observed");
    let ghost head = seq![first@];
    push_line(&mut lines, first);
    assert(text::views(lines@) == head);
    if r.events.len() == 0 {
        push_line(&mut lines, text::copy("  no playback activity observed this cycle"));
    } else {
        let ghost events = text::views(r.events@);
        let mut i: usize = 0;
        assert(head + dashed(events.take(0)) == head);
        while i < r.events.len()
            invariant
                i <= r.events@.len(),
                events == text::views(r.events@),
                text::views(lines@) == head + dashed(events.take(i as int)),
            decreases r.events@.len() - i,
        {
            let s = text::join_two("  - ", r.events[i].as_str());
            proof {
                assert(events.take(i + 1) == events.take(i as int).push(events[i as int]));
                assert(dashed(events.take(i + 1)) == dashed(events.take(i as int)).push(s@));
                assert(head + dashed(events.take(i as int)).push(s@) == head + dashed(
                    events.take(i as int),
                ) + seq![s@]);
            }
            push_line(&mut lines, s);
            i = i + 1;
        }
        assert(events.take(i as int) == events);
    }
    let mut sum = text::copy("  cumulative: ");
    sum.append(text::format_int(r.total_plays).as_str());
    sum.append(" full plays, ");
    sum.append(text::format_int(r.total_skips).as_str());
    sum.append(" skips across ");
    sum.append(text::format_nat(r.tracked_songs as u64).as_str());
    sum.append(" tracked songs");
    push_line(&mut lines, sum);
    push_counted(&mut lines, "  Top Picks playlist refreshed with ", picks, " tracks");
    push_counted(&mut lines, "  filter proxy: ", filtered, " skip-heavy track(s) removed");
    push_counted(&mut lines, "  star: ", ratings, " rating(s) published to Navidrome");
    push_counted(
        &mut lines,
        "  meta: wrote playcount/stars/loved to ",
        meta_writes,
        " track(s)",
    );
    text::join(&lines, "\n")
}

/// Keys under which plays, skips and the last look are stored.
pub fn play_key(id: &str) -> (r: String)
    ensures
        r@ == "stat.play."@ + id@,
{
    text::join_two("stat.play.", id)
}

pub fn skip_key(id: &str) -> (r: String)
    ensures
        r@ == "stat.skip."@ + id@,
{
    text::join_two("stat.skip.", id)
}

pub fn now_key(user: &str) -> (r: String)
    ensures
        r@ == "stat.now."@ + user@,
{
    text::join_two("stat.now.", user)
}

/// What a counter holds after it was moved by `delta`; never less than nought.
pub fn bump(stored: &Option<String>, delta: i64) -> (r: i64)
    requires
        i64::MIN <= state::stored_number(text::view_opt(*stored)) + delta <= i64::MAX,
    ensures
        r == max(state::stored_number(text::view_opt(*stored)) + delta, 0),
{
    let n: i64 = state::stored_int(stored) + delta;
    if n >= 0 {
        n
    } else {
        0
    }
}

/// The nearest whole number to a quotient that is not negative; of two equally near ones the even
/// one.
pub open spec fn rounded_even(num: int, den: int) -> int {
    let q = num / den;
    let rest = 2 * (num % den);
    if rest < den || (rest == den && q % 2 == 0) {
        q
    } else {
        q + 1
    }
}

/// The percentage at which a song stopped, as a whole number.
pub open spec fn shown_percent(position_ms: int, duration_sec: int) -> Seq<char> {
    if position_ms < 0 {
        "-"@ + text::decimal(rounded_even(-position_ms, 10 * duration_sec) as nat)
    } else {
        text::decimal(rounded_even(position_ms, 10 * duration_sec) as nat)
    }
}

fn percent_text(position_ms: i64, duration_sec: i64) -> (r: String)
    requires
        duration_sec > 0,
    ensures
        r@ == shown_percent(position_ms as int, duration_sec as int),
{
    let den: i128 = 10 * (duration_sec as i128);
    let num: i128 = if position_ms < 0 {
        -(position_ms as i128)
    } else {
        position_ms as i128
    };
    let q: i128 = num / den;
    let rest: i128 = 2 * (num % den);
    proof {
        assert(0 <= num / den <= num) by (nonlinear_arith)
            requires
                num >= 0,
                den >= 1,
        ;
        assert(den >= 10);
        assert(num / den < num || num == 0) by (nonlinear_arith)
            requires
                num >= 0,
                den >= 10,
        ;
    }
    let n: i128 = if rest < den || (rest == den && q % 2 == 0) {
        q
    } else {
        q + 1
    };
    let shown = text::format_nat(n as u64);
    if position_ms < 0 {
        text::join_two("-", shown.as_str())
    } else {
        shown
    }
}

/// How a song is called in an event.
pub open spec fn song_label(e: PlayingView) -> Seq<char> {
    if e.artist.len() == 0 && e.title.len() == 0 {
        "track "@ + e.id
    } else {
        e.artist + " - "@ + e.title + " ["@ + e.album + "]"@
    }
}

fn label_of(e: &NowPlayingEntry) -> (r: String)
    ensures
        r@ == song_label(e@),
{
    if text::length(e.artist.as_str()) == 0 && text::length(e.title.as_str()) == 0 {
        text::join_two("track ", e.id.as_str())
    } else {
        let mut s = e.artist.clone();
        s.append(" - ");
        s.append(e.title.as_str());
        s.append(" [");
        s.append(e.album.as_str());
        s.append("]");
        s
    }
}

/// What is said of a song that ended.
pub open spec fn event_of(e: PlayingView, threshold_pct: int) -> Seq<char> {
    if skipped(e.duration, e.position_ms, threshold_pct) {
        "skipped: "@ + song_label(e) + " (stopped at "@ + shown_percent(e.position_ms, e.duration)
            + "% of "@ + text::decimal_int(e.duration) + "s)"@
    } else {
        "full play: "@ + song_label(e)
    }
}

/// A song is among those that are playing.
pub open spec fn still_playing(id: Seq<char>, current: Seq<PlayingView>) -> bool {
    exists|i: int| 0 <= i < current.len() && (#[trigger] current[i]).id == id
}

/// The songs that were playing and are no longer.
pub open spec fn ended(previous: Seq<PlayingView>, current: Seq<PlayingView>) -> Seq<PlayingView>
    decreases previous.len(),
{
    if previous.len() == 0 {
        previous
    } else {
        let rest = ended(previous.drop_last(), current);
        if still_playing(previous.last().id, current) {
            rest
        } else {
            rest.push(previous.last())
        }
    }
}

fn is_still_playing(id: &str, current: &Vec<NowPlayingEntry>) -> (r: bool)
    ensures
        r == still_playing(id@, playing_views(current@)),
{
    let ghost views = playing_views(current@);
    let mut i: usize = 0;
    while i < current.len()
        invariant
            i <= current@.len(),
            views == playing_views(current@),
            forall|k: int| 0 <= k < i ==> (#[trigger] views[k]).id != id@,
        decreases current@.len() - i,
    {
        assert(views[i as int] == current@[i as int]@);
        if text::same(current[i].id.as_str(), id) {
            return true;
        }
        i = i + 1;
    }
    false
}

/// A song that ended: whether it was skipped, and what is said of it.
#[derive(Debug)]
pub struct Ended {
    pub entry: NowPlayingEntry,
    pub skipped: bool,
    pub event: String,
}

pub open spec fn is_ended(x: Ended, e: PlayingView, threshold_pct: int) -> bool {
    &&& x.entry@ == e
    &&& x.skipped == skipped(e.duration, e.position_ms, threshold_pct)
    &&& x.event@ == event_of(e, threshold_pct)
}

fn copy_entry(e: &NowPlayingEntry) -> (r: NowPlayingEntry)
    ensures
        r@ == e@,
{
    NowPlayingEntry {
        id: e.id.clone(),
        position_ms: e.position_ms,
        duration: e.duration,
        title: e.title.clone(),
        artist: e.artist.clone(),
        album: e.album.clone(),
        path: e.path.clone(),
        play_count: e.play_count,
    }
}

/// What happened between two looks: every song that was playing and is no longer was skipped, or
/// played in full.
pub fn observe(
    previous: &Vec<NowPlayingEntry>,
    current: &Vec<NowPlayingEntry>,
    threshold_pct: i32,
) -> (r: Vec<Ended>)
    ensures
        ({
            let gone = ended(playing_views(previous@), playing_views(current@));
            &&& r@.len() == gone.len()
            &&& forall|i: int|
                0 <= i < r@.len() ==> is_ended(#[trigger] r@[i], gone[i], threshold_pct as int)
        }),
{
    let ghost all = playing_views(previous@);
    let ghost now = playing_views(current@);
    let mut out: Vec<Ended> = Vec::new();
    let mut i: usize = 0;
    assert(all.take(0) == Seq::<PlayingView>::empty());
    while i < previous.len()
        invariant
            i <= previous@.len(),
            all == playing_views(previous@),
            now == playing_views(current@),
            out@.len() == ended(all.take(i as int), now).len(),
            forall|k: int|
                0 <= k < out@.len() ==> is_ended(
                    #[trigger] out@[k],
                    ended(all.take(i as int), now)[k],
                    threshold_pct as int,
                ),
        decreases previous@.len() - i,
    {
        let e = &previous[i];
        proof {
            assert(all[i as int] == e@);
            assert(all.take(i + 1).drop_last() == all.take(i as int));
            assert(all.take(i + 1).last() == e@);
        }
        if !is_still_playing(e.id.as_str(), current) {
            let label = label_of(e);
            let skip = is_skip(e.duration, e.position_ms, threshold_pct);
            let event = if skip {
                let mut s = text::join_two("skipped: ", label.as_str());
                s.append(" (stopped at ");
                s.append(percent_text(e.position_ms, e.duration).as_str());
                s.append("% of ");
                s.append(text::format_int(e.duration).as_str());
                s.append("s)");
                s
            } else {
                text::join_two("full play: ", label.as_str())
            };
            out.push(Ended { entry: copy_entry(e), skipped: skip, event });
        }
        i = i + 1;
    }
    assert(all.take(i as int) == all);
    out
}

} // verus!
