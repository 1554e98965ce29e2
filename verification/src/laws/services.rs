//! How services are asked, what is taken from their answers, and when they are left alone.

use crate::apple_music;
use crate::artwork;
use crate::artwork::ArtSource;
use crate::audiomuse;
use crate::audiomuse::{AcousticTags, AcousticView};
use crate::config::Config;
use crate::discogs;
use crate::genius;
use crate::json;
use crate::json::JsonView;
use crate::lastfm;
use crate::lastfm::{Rated, SessionView};
use crate::laws::sources::members_are_found_by_name;
use crate::lyrics;
use crate::lyrics::LyricsView;
use crate::net;
use crate::net::{BodyView, CircuitOp, ReplyView, Stage};
use crate::order;
use crate::text;
use crate::theaudiodb;
use crate::url;
use vstd::prelude::*;

verus! {

// ---------------------------------------------------------------------------
// Calls

/// A question is sent without a body, and what is handed over is sent as it is.
pub proof fn questions_carry_nothing(
    place: Seq<char>,
    headers: Seq<(Seq<char>, Seq<char>)>,
    body: BodyView,
    limit: int,
)
    ensures
        ({
            let q = net::asking(place, headers, limit);
            let p = net::posting(place, headers, body, limit);
            &&& q.method == "GET"@ && p.method == "POST"@
            &&& q.url == place && p.url == place
            &&& q.headers == headers && p.headers == headers
            &&& q.body == BodyView::Nothing && p.body == body
            &&& q.timeout_ms == limit && p.timeout_ms == limit
        }),
        net::body_text_of(BodyView::Nothing).len() == 0,
{
}

/// Only an answer of full success has a body that counts.
pub proof fn only_success_is_read(status: int, body: Seq<char>, cause: Seq<char>)
    ensures
        net::good_body(ReplyView::Answer { status, body }) == Some(body) <==> status == 200,
        status != 200 ==> net::good_body(ReplyView::Answer { status, body }) is None,
        net::good_body(ReplyView::Silent) is None,
        net::good_body(ReplyView::Failed { cause }) is None,
{
}

/// What an answer says of a service: below 400 it is up and cleared, from 500 on, as with no answer
/// at all, it is down and marked; in between it is up and set up wrongly.
pub proof fn checks_tell_up_from_down(status: int, body: Seq<char>, cause: Seq<char>)
    ensures
        ({
            let (up, op) = net::checked(ReplyView::Answer { status, body });
            &&& up <==> status < 500
            &&& op == CircuitOp::Clear <==> status < 400
            &&& op == CircuitOp::MarkFailed <==> status >= 500
        }),
        net::checked(ReplyView::Silent) == (false, CircuitOp::MarkFailed),
        net::checked(ReplyView::Failed { cause }) == (false, CircuitOp::MarkFailed),
        net::is_up(ReplyView::Answer { status, body }) <==> status < 400,
        !net::is_up(ReplyView::Silent) && !net::is_up(ReplyView::Failed { cause }),
{
}

/// A lookup clears a service where it finds something, marks it where it fails, and leaves it as it
/// is where there is nothing to be found. A strict call knows only success and failure.
pub proof fn lookups_mark_failures(status: int, body: Seq<char>, cause: Seq<char>)
    ensures
        ({
            let op = net::lookup_op(ReplyView::Answer { status, body });
            &&& op == CircuitOp::Clear <==> status == 200
            &&& op == CircuitOp::Keep <==> status == 404
        }),
        net::lookup_op(ReplyView::Silent) == CircuitOp::MarkFailed,
        net::lookup_op(ReplyView::Failed { cause }) == CircuitOp::MarkFailed,
        net::strict_op(ReplyView::Answer { status, body }) == if status == 200 {
            CircuitOp::Clear
        } else {
            CircuitOp::MarkFailed
        },
        net::strict_op(ReplyView::Silent) == CircuitOp::MarkFailed,
        ({
            let op = audiomuse::fetch_op(ReplyView::Answer { status, body });
            &&& op == CircuitOp::Clear <==> status == 200
            &&& op == CircuitOp::Keep <==> status == 404 || status == 405
        }),
        audiomuse::fetch_op(ReplyView::Silent) == CircuitOp::MarkFailed,
        lastfm::post_op(ReplyView::Answer { status, body }) == if status == 200 {
            CircuitOp::Clear
        } else {
            CircuitOp::Keep
        },
        lastfm::post_op(ReplyView::Silent) == CircuitOp::MarkFailed,
{
}

/// A first failure is marked with its time.
pub proof fn first_failures_are_marked(now: int)
    requires
        i64::MIN <= now <= i64::MAX,
    ensures
        net::stored_time(net::marked(None, now)) == Some(now),
{
    net::stamp_reads_back(now);
}

/// A failure is at first tried again, then left alone, and then given up, each for as long as set.
pub proof fn failures_age(age: int, retry: int, pause: int)
    requires
        retry <= pause,
    ensures
        net::stage_at(age, retry, pause) == Stage::Retry <==> age < retry,
        net::stage_at(age, retry, pause) == Stage::Cooldown <==> retry <= age < pause,
        net::stage_at(age, retry, pause) == Stage::Degraded <==> pause <= age,
{
}

/// A throttle that knows of no call lets one through, and so it does once the interval is over.
pub proof fn throttles_let_through(last: int, now: int, interval: int)
    requires
        i64::MIN <= last <= i64::MAX,
    ensures
        !net::too_early(None, now, interval),
        net::too_early(Some(text::decimal_int(last)), now, interval) <==> now * 1000 < last
            + interval,
{
    net::stamp_reads_back(last);
}

// ---------------------------------------------------------------------------
// Addresses

/// Letters, digits and the four marks `-`, `_`, `.` and `~` stand for themselves in an address; every
/// other byte is written as a percent sign and two digits.
pub proof fn addresses_keep_plain_letters(b: u8)
    ensures
        ({
            let c = b as char;
            let plain = ('a' <= c <= 'z') || ('A' <= c <= 'Z') || ('0' <= c <= '9') || c == '-' || c
                == '_' || c == '.' || c == '~';
            &&& plain ==> url::encoded_byte(b) == seq![c]
            &&& !plain ==> url::encoded_byte(b).len() == 3 && url::encoded_byte(b)[0] == '%'
        }),
{
}

/// A form is made of the pairs, each as name and value with `=` between them, joined by `&`.
pub proof fn forms_are_pairs(k: Seq<char>, v: Seq<char>, params: Seq<(Seq<char>, Seq<char>)>)
    ensures
        url::pair_text((k, v)) == url::encoded(k) + seq!['='] + url::encoded(v),
        url::form(seq![(k, v)]) == url::pair_text((k, v)),
        params.len() > 0 ==> url::form(params.push((k, v))) == url::form(params) + seq!['&']
            + url::pair_text((k, v)),
{
    reveal_strlit("=");
    reveal_strlit("&");
    assert("="@ =~= seq!['=']);
    assert("&"@ =~= seq!['&']);
    let f = |p: (Seq<char>, Seq<char>)| url::pair_text(p);
    assert(seq![(k, v)].map_values(f) =~= seq![url::pair_text((k, v))]);
    assert(params.push((k, v)).map_values(f) =~= params.map_values(f).push(url::pair_text((k, v))));
    assert(params.map_values(f).push(url::pair_text((k, v))).drop_last() =~= params.map_values(f));
    reveal_with_fuel(text::joined, 2);
}

// ---------------------------------------------------------------------------
// Words

/// The words of a song are those that the answer gives, in time and plain; an empty text counts as
/// none, and where there are neither there are no words.
pub proof fn words_are_what_the_answer_gives(answer: JsonView, timed: Seq<char>, plain: Seq<char>)
    requires
        json::member(answer, "syncedLyrics"@) == Some(JsonView::Str(timed)),
        json::member(answer, "plainLyrics"@) == Some(JsonView::Str(plain)),
    ensures
        timed.len() == 0 && plain.len() == 0 ==> lyrics::lyrics_of(Some(answer)) is None,
        timed.len() > 0 || plain.len() > 0 ==> (lyrics::lyrics_of(Some(answer)) matches Some(l) && {
            &&& timed.len() > 0 ==> l.synced == Some(timed)
            &&& timed.len() == 0 ==> l.synced is None
            &&& plain.len() > 0 ==> l.plain == Some(plain)
            &&& plain.len() == 0 ==> l.plain is None
        }),
        lyrics::lyrics_of(None) is None,
{
}

/// The kind of words that is wanted is written where it is there, and else the other.
pub proof fn the_wanted_words_are_written(l: LyricsView)
    ensures
        l.plain is Some ==> lyrics::content(l, true) == l.plain,
        l.plain is None ==> lyrics::content(l, true) == l.synced,
        l.synced is Some ==> lyrics::content(l, false) == l.synced,
        l.synced is None ==> lyrics::content(l, false) == l.plain,
{
}

/// Words are asked for by album and length only where these are known.
pub proof fn words_are_asked_for_closely(album: Seq<char>, secs: int)
    ensures
        text::trimmed(album).len() > 0 ==> lyrics::album_part(album) == "&album_name="@ + url::encoded(
            album,
        ),
        text::trimmed(album).len() == 0 ==> lyrics::album_part(album).len() == 0,
        secs > 0 ==> lyrics::duration_part(secs) == "&duration="@ + text::decimal(secs as nat),
        secs <= 0 ==> lyrics::duration_part(secs).len() == 0,
{
}

/// Genius gives the words of a song unless they are empty or not there yet.
pub proof fn missing_words_are_none(answer: JsonView, song: JsonView, l: JsonView, s: Seq<char>)
    requires
        json::member(answer, "response"@) is Some,
        json::member(json::member(answer, "response"@)->0, "song"@) == Some(song),
        json::member(song, "lyrics"@) == Some(l),
        json::member(l, "plain"@) == Some(JsonView::Str(s)),
    ensures
        genius::words_of(Some(answer)) is None <==> s.len() == 0 || s == "Lyrics not yet available"@,
        genius::words_of(Some(answer)) is Some ==> genius::words_of(Some(answer)) == Some(s),
{
}

/// A song of Genius is what its fields say.
pub proof fn songs_say_what_they_are(
    v: JsonView,
    by: JsonView,
    id: int,
    title: Seq<char>,
    artist: Seq<char>,
    place: Seq<char>,
)
    requires
        0 <= id <= u64::MAX,
        json::member(v, "id"@) == Some(JsonView::Int(id)),
        json::member(v, "title"@) == Some(JsonView::Str(title)),
        json::member(v, "primary_artist"@) == Some(by),
        json::member(by, "name"@) == Some(JsonView::Str(artist)),
        json::member(v, "url"@) == Some(JsonView::Str(place)),
    ensures
        genius::song_of(Some(v)) matches Some(s) && {
            &&& s.id == id && s.title == title && s.artist == artist && s.url == place
            &&& json::member(v, "lyrics_state"@) is None ==> s.lyrics_state == "unknown"@
            &&& s.album == json::string_of(json::member_opt(json::member(v, "album"@), "name"@))
        },
{
}

/// The first hit of a search is taken.
pub proof fn the_first_hit_is_taken(answer: JsonView, r: JsonView, hits: Seq<JsonView>)
    requires
        json::member(answer, "response"@) == Some(r),
        json::member(r, "hits"@) == Some(JsonView::Array(hits)),
    ensures
        hits.len() == 0 ==> genius::first_hit(Some(answer)) is None,
        hits.len() > 0 ==> genius::first_hit(Some(answer)) == genius::song_of(
            json::member(hits[0], "result"@),
        ),
{
}

// ---------------------------------------------------------------------------
// Releases and artists

/// A release of Discogs is what its fields say.
pub proof fn discogs_releases_say_what_they_are(
    v: JsonView,
    id: int,
    title: Seq<char>,
    genres: Seq<JsonView>,
    styles: Seq<JsonView>,
    year: int,
)
    requires
        0 <= id <= u64::MAX,
        0 <= year <= u32::MAX,
        json::member(v, "id"@) == Some(JsonView::Int(id)),
        json::member(v, "title"@) == Some(JsonView::Str(title)),
        json::member(v, "genre"@) == Some(JsonView::Array(genres)),
        json::member(v, "style"@) == Some(JsonView::Array(styles)),
        json::member(v, "year"@) == Some(JsonView::Int(year)),
    ensures
        discogs::release_of(v) matches Some(r) && {
            &&& r.id == id && r.title == title && r.year == Some(year as u32)
            &&& r.genres == json::texts_among(genres) && r.styles == json::texts_among(styles)
        },
{
    assert(year % 0x1_0000_0000 == year) by (nonlinear_arith)
        requires
            0 <= year <= 0xffff_ffff,
    ;
}

/// The first result of a search is taken, and none where there is none.
pub proof fn the_first_result_is_taken(answer: JsonView, results: Seq<JsonView>)
    ensures
        json::member(answer, "results"@) == Some(JsonView::Array(results)) ==> discogs::first_result(
            Some(answer),
        ) == if results.len() == 0 {
            None
        } else {
            discogs::release_of(results[0])
        },
        json::member(answer, "artists"@) == Some(JsonView::Array(results))
            ==> theaudiodb::first_artist(Some(answer)) == if results.len() == 0 {
            None
        } else {
            theaudiodb::artist_of(results[0])
        },
        json::member(answer, "album"@) == Some(JsonView::Array(results)) ==> theaudiodb::first_album(
            Some(answer),
        ) == if results.len() == 0 {
            None
        } else {
            theaudiodb::album_of(results[0])
        },
{
}

/// One more credit counts where it has a name and a role.
pub proof fn credits_have_a_name_and_a_role(v: Seq<JsonView>, e: JsonView)
    ensures
        ({
            let before = discogs::credits_among(v);
            let after = discogs::credits_among(v.push(e));
            match (json::member(e, "name"@), json::member(e, "role"@)) {
                (Some(JsonView::Str(name)), Some(JsonView::Str(role))) => after == before.push(
                    (name, role),
                ),
                _ => after == before,
            }
        }),
        discogs::credits_among(Seq::empty()).len() == 0,
{
    assert(v.push(e).drop_last() =~= v);
}

/// Albums and artists of TheAudioDB are what their fields say.
pub proof fn audiodb_fields_are_read(v: JsonView)
    ensures
        theaudiodb::album_of(v) matches Some(a) ==> {
            &&& json::member(v, "idAlbum"@) == Some(JsonView::Str(a.id))
            &&& json::member(v, "strAlbum"@) == Some(JsonView::Str(a.name))
            &&& json::member(v, "strDescriptionEN"@) == Some(JsonView::Str(a.description))
            &&& json::member(v, "strAlbumThumb"@) == Some(JsonView::Str(a.str_artwork))
            &&& json::member(v, "strGenre"@) == Some(JsonView::Str(a.genre))
        },
        theaudiodb::artist_of(v) matches Some(a) ==> {
            &&& json::member(v, "idArtist"@) == Some(JsonView::Str(a.id))
            &&& json::member(v, "strArtist"@) == Some(JsonView::Str(a.name))
            &&& json::member(v, "strBiographyEN"@) == Some(JsonView::Str(a.biography))
            &&& json::member(v, "strArtistBanner"@) == Some(JsonView::Str(a.banner))
            &&& json::member(v, "strArtistFanart"@) == Some(JsonView::Str(a.fanart))
            &&& json::member(v, "strArtistThumb"@) == Some(JsonView::Str(a.thumb))
            &&& json::member(v, "strGenre"@) == Some(JsonView::Str(a.genre))
        },
        (json::member(v, "idAlbum"@) matches Some(JsonView::Str(_))) && (json::member(
            v,
            "strAlbum"@,
        ) matches Some(JsonView::Str(_))) && (json::member(v, "strDescriptionEN"@) matches Some(
            JsonView::Str(_),
        )) && (json::member(v, "strAlbumThumb"@) matches Some(JsonView::Str(_))) && (json::member(
            v,
            "strGenre"@,
        ) matches Some(JsonView::Str(_))) ==> theaudiodb::album_of(v) is Some,
{
}

/// The artist of an answer is the first of its values that is one.
pub proof fn the_first_artist_counts(items: Seq<JsonView>, from: int)
    requires
        0 <= from <= items.len(),
    ensures
        ({
            let fits = |v: JsonView|
                json::member(v, "wrapperType"@) == Some(JsonView::Str("artist"@));
            match apple_music::first_artist(items, from) {
                Some(v) => exists|k: int|
                    from <= k < items.len() && #[trigger] items[k] == v && fits(items[k]) && forall|
                        j: int,
                    |
                        from <= j < k ==> !fits(#[trigger] items[j]),
                None => forall|j: int| from <= j < items.len() ==> !fits(#[trigger] items[j]),
            }
        }),
    decreases items.len() - from,
{
    if from < items.len() {
        if apple_music::of_kind(items[from], "artist"@) {
            assert(items[from] == apple_music::first_artist(items, from)->0);
        } else {
            the_first_artist_counts(items, from + 1);
            if let Some(v) = apple_music::first_artist(items, from + 1) {
                let k = choose|k: int|
                    from + 1 <= k < items.len() && #[trigger] items[k] == v && json::member(
                        items[k],
                        "wrapperType"@,
                    ) == Some(JsonView::Str("artist"@)) && forall|j: int|
                        from + 1 <= j < k ==> json::member(#[trigger] items[j], "wrapperType"@)
                            != Some(JsonView::Str("artist"@));
                assert(items[k] == v);
            }
        }
    }
}

/// The picture of an album is that of the first collection of its name, whatever its case.
pub proof fn the_first_album_of_the_name_counts(items: Seq<JsonView>, name: Seq<char>, from: int)
    requires
        0 <= from <= items.len(),
    ensures
        ({
            let fits = |v: JsonView|
                json::member(v, "wrapperType"@) == Some(JsonView::Str("collection"@)) && (
                json::member(v, "collectionName"@) matches Some(JsonView::Str(n))
                    && text::unicode_lowered(n) == name);
            match apple_music::first_album(items, name, from) {
                Some(v) => exists|k: int|
                    from <= k < items.len() && #[trigger] items[k] == v && fits(items[k]) && forall|
                        j: int,
                    |
                        from <= j < k ==> !fits(#[trigger] items[j]),
                None => forall|j: int| from <= j < items.len() ==> !fits(#[trigger] items[j]),
            }
        }),
    decreases items.len() - from,
{
    let fits = |v: JsonView|
        json::member(v, "wrapperType"@) == Some(JsonView::Str("collection"@)) && (json::member(
            v,
            "collectionName"@,
        ) matches Some(JsonView::Str(n)) && text::unicode_lowered(n) == name);
    if from < items.len() {
        assert(apple_music::is_album(items[from], name) == fits(items[from]));
        if apple_music::is_album(items[from], name) {
            assert(items[from] == apple_music::first_album(items, name, from)->0);
        } else {
            the_first_album_of_the_name_counts(items, name, from + 1);
            if let Some(v) = apple_music::first_album(items, name, from + 1) {
                let k = choose|k: int|
                    from + 1 <= k < items.len() && #[trigger] items[k] == v && fits(items[k])
                        && forall|j: int| from + 1 <= j < k ==> !fits(#[trigger] items[j]);
                assert(items[k] == v);
            }
        }
    }
}

/// The first country of the list is asked, and the United States where there is none.
pub proof fn the_first_country_is_asked(raw: Seq<char>, countries: Seq<Seq<char>>)
    ensures
        text::trimmed(raw).len() == 0 ==> apple_music::countries_in(raw) == seq!["us"@],
        countries.len() == 0 ==> apple_music::asked_country(countries) == "us"@,
        countries.len() > 0 ==> apple_music::asked_country(countries) == countries[0],
{
}

/// A picture that stands for none is passed over: the page's own comes first, then the one for
/// previews.
pub proof fn placeholders_are_passed_over(html: Seq<char>, data: Option<JsonView>)
    ensures
        ({
            let bad = |p: Seq<char>|
                text::has(p, "apple-music.png"@) || text::has(p, "placeholder"@);
            let own = json::string_of(json::member_opt(data, "image"@));
            let preview = apple_music::preview_image(html);
            &&& own is Some && !bad(own->0) ==> apple_music::image_of(html, data) == own
            &&& (own is None || bad(own->0)) && preview is Some && !bad(preview->0)
                ==> apple_music::image_of(html, data) == preview
            &&& (own is None || bad(own->0)) && (preview is None || bad(preview->0))
                ==> apple_music::image_of(html, data) is None
        }),
{
}

// ---------------------------------------------------------------------------
// Pictures

/// Pictures come from the chosen source first, and from none where they are to stay as they are.
pub proof fn the_chosen_pictures_come_first(chosen: Seq<char>)
    ensures
        ({
            let all = artwork::source_order(chosen);
            &&& chosen == "embedded"@ <==> all.len() == 0
            &&& chosen != "embedded"@ ==> all.len() == 3 && all.no_duplicates()
            &&& chosen == "applemusic"@ ==> all[0] == ArtSource::AppleMusic
            &&& chosen == "theaudiodb"@ ==> all[0] == ArtSource::TheAudioDb
            &&& chosen == "coverartarchive"@ ==> all[0] == ArtSource::CoverArtArchive
            &&& chosen != "embedded"@ && all[0] != ArtSource::CoverArtArchive ==> all[1]
                == ArtSource::CoverArtArchive
        }),
{
    reveal_strlit("applemusic");
    reveal_strlit("theaudiodb");
    reveal_strlit("embedded");
    reveal_strlit("coverartarchive");
    assert("applemusic"@[0] == 'a' && "theaudiodb"@[0] == 't');
    assert("applemusic"@ != "theaudiodb"@);
    assert("embedded"@.len() == 8 && "coverartarchive"@.len() == 15 && "applemusic"@.len() == 10
        && "theaudiodb"@.len() == 10);
}

/// The archive is asked where the release is known, Apple Music where it is switched on, and
/// TheAudioDB where there is a key.
pub proof fn pictures_come_from_usable_sources(
    sources: Seq<ArtSource>,
    release: bool,
    apple: bool,
    key: bool,
)
    ensures
        artwork::usable_of(sources, release, apple, key) == sources.filter(
            |s: ArtSource|
                (s == ArtSource::CoverArtArchive && release) || (s == ArtSource::AppleMusic && apple)
                    || (s == ArtSource::TheAudioDb && key),
        ),
    decreases sources.len(),
{
    reveal(Seq::filter);
    if sources.len() > 0 {
        pictures_come_from_usable_sources(sources.drop_last(), release, apple, key);
    } else {
        assert(artwork::usable_of(sources, release, apple, key) =~= Seq::empty());
    }
}

// ---------------------------------------------------------------------------
// Sound

/// An analysis is what the fields of the answer say; an empty text says nothing.
pub proof fn analyses_say_what_they_are(
    v: JsonView,
    bpm: int,
    key: Seq<char>,
    mood: Seq<char>,
    energy: Seq<char>,
)
    requires
        v is Object,
        0 <= bpm <= u64::MAX,
        json::member(v, "bpm"@) == Some(JsonView::Int(bpm)),
        json::member(v, "key"@) == Some(JsonView::Str(key)),
        json::member(v, "mood"@) == Some(JsonView::Str(mood)),
        json::member(v, "energy"@) == Some(JsonView::Real(energy)),
    ensures
        audiomuse::acoustic_of(Some(v)) matches Some(a) && {
            &&& a.bpm == Some(text::decimal(bpm as nat))
            &&& a.energy == Some(energy)
            &&& key.len() > 0 ==> a.key == Some(key)
            &&& key.len() == 0 ==> a.key is None
            &&& mood.len() > 0 ==> a.mood == Some(mood)
            &&& mood.len() == 0 ==> a.mood is None
        },
{
}

/// A tag of the sound is written exactly where its value is known, is not there yet, and nothing else
/// is there or it may be overwritten.
pub proof fn known_values_are_tagged(ac: AcousticView, now: AcousticTags, overwrite: bool)
    ensures
        ({
            let all = audiomuse::due_tags(ac, now, overwrite);
            let due = |v: Option<Seq<char>>, is: Seq<char>|
                v is Some && v->0 != is && (overwrite || is.len() == 0);
            let one = |applies: bool| if applies { 1int } else { 0int };
            let a = due(ac.bpm, now.bpm@);
            let b = due(ac.key, now.key@);
            let c = due(ac.mood, now.mood@);
            let d = due(ac.energy, now.energy@);
            &&& all.len() == one(a) + one(b) + one(c) + one(d)
            &&& a ==> all[0] == ("BPM"@, ac.bpm->0)
            &&& b ==> all[one(a)] == ("INITIALKEY"@, ac.key->0)
            &&& c ==> all[one(a) + one(b)] == ("MOOD"@, ac.mood->0)
            &&& d ==> all[one(a) + one(b) + one(c)] == ("ENERGY"@, ac.energy->0)
        }),
{
}

/// A request to analyse succeeds where it is taken, and where an analysis is running already.
pub proof fn running_analyses_are_fine(status: int, body: Seq<char>, cause: Seq<char>)
    ensures
        audiomuse::sync_failure(ReplyView::Answer { status, body }) is None <==> (200 <= status < 300)
            || status == 409,
        audiomuse::sync_failure(ReplyView::Silent) is Some,
        audiomuse::sync_failure(ReplyView::Failed { cause }) is Some,
{
}

// ---------------------------------------------------------------------------
// Last.fm, ListenBrainz

/// A signature covers every parameter but the signature itself and the format.
pub proof fn signatures_cover_the_rest(params: Seq<(Seq<char>, Seq<char>)>)
    ensures
        lastfm::covered(params) == params.filter(
            |p: (Seq<char>, Seq<char>)| p.0 != "api_sig"@ && p.0 != "format"@,
        ),
    decreases params.len(),
{
    reveal(Seq::filter);
    if params.len() > 0 {
        signatures_cover_the_rest(params.drop_last());
    } else {
        assert(lastfm::covered(params) =~= params.filter(
            |p: (Seq<char>, Seq<char>)| p.0 != "api_sig"@ && p.0 != "format"@,
        ));
    }
}

/// What is signed is each name with its value behind it, one after the other, and the secret at the
/// end.
pub proof fn names_and_values_are_signed(
    params: Seq<(Seq<char>, Seq<char>)>,
    k: Seq<char>,
    v: Seq<char>,
)
    ensures
        lastfm::strung(params.push((k, v))) == lastfm::strung(params) + k + v,
        lastfm::strung(Seq::empty()).len() == 0,
{
    assert(params.push((k, v)).drop_last() =~= params);
}

/// Parameters are ordered by name, and by value where names are the same.
pub proof fn parameters_are_ordered_by_name(
    a: (Seq<char>, Seq<char>),
    b: (Seq<char>, Seq<char>),
)
    ensures
        a.0 != b.0 ==> (lastfm::pair_before()(a, b) <==> order::text_before(a.0, b.0)),
        a.0 == b.0 && !order::text_before(a.0, b.0) ==> (lastfm::pair_before()(a, b)
            <==> order::text_before(a.1, b.1)),
{
}

/// A signed call carries what it was given, and the key, the method and the session, where there is
/// one.
pub proof fn signed_calls_carry_all(
    cfg: Config,
    session: Seq<char>,
    method: Seq<char>,
    params: Seq<(Seq<char>, Seq<char>)>,
)
    ensures
        ({
            let all = lastfm::post_params(cfg, session, method, params);
            let n = params.len() as int;
            &&& all.take(n) == params
            &&& all[n] == ("api_key"@, cfg.lastfm_api_key@)
            &&& all[n + 1] == ("method"@, method)
            &&& session.len() == 0 ==> all.len() == n + 2
            &&& session.len() > 0 ==> all.len() == n + 3 && all[n + 2] == ("sk"@, session)
        }),
{
    let all = lastfm::post_params(cfg, session, method, params);
    assert(all.take(params.len() as int) =~= params);
}

/// What is sent is what is signed, in its order, with the signature and the format behind it.
pub proof fn the_signature_goes_last(secret: Seq<char>, params: Seq<(Seq<char>, Seq<char>)>)
    ensures
        ({
            let all = lastfm::signed(secret, params);
            let n = all.len() - 2;
            &&& n == lastfm::ordered(params).len()
            &&& all.take(n) == lastfm::ordered(params)
            &&& all[n] == (
                "api_sig"@,
                lastfm::md5_hex(
                    vstd::utf8::encode_utf8(lastfm::strung(lastfm::ordered(params)) + secret),
                ),
            )
            &&& all[n + 1] == ("format"@, "json"@)
        }),
{
    let all = lastfm::signed(secret, params);
    assert(all.take(all.len() - 2) =~= lastfm::ordered(params));
}

/// A session that is stored is used; else one is asked for, where there are a secret and a password,
/// and five minutes have passed since the last attempt.
pub proof fn sessions_are_asked_for_rarely(
    cfg: Config,
    stored: Seq<char>,
    error: Option<Seq<char>>,
    last: int,
    now: int,
)
    requires
        i64::MIN <= last <= i64::MAX,
    ensures
        ({
            let may = cfg.lastfm_api_secret@.len() > 0 && cfg.lastfm_password@.len() > 0;
            let since = Some(text::decimal_int(last));
            &&& stored.len() > 0 ==> lastfm::session_of(cfg, Some(stored), since, error, now)
                == SessionView::Have(stored)
            &&& lastfm::session_of(cfg, None, None, error, now) == SessionView::SignIn <==> may
            &&& lastfm::session_of(cfg, None, since, error, now) == SessionView::SignIn <==> may && now
                >= last + 300
            &&& !(lastfm::session_of(cfg, None, since, error, now) is Have)
        }),
{
    net::stamp_reads_back(last);
}

/// An error is shown without control characters: all others are kept.
pub proof fn errors_are_shown_without_controls(s: Seq<char>)
    ensures
        lastfm::printable(s) == s.filter(
            |c: char| !((c as u32) < 32 || 127 <= (c as u32) < 160),
        ),
    decreases s.len(),
{
    reveal(Seq::filter);
    if s.len() > 0 {
        errors_are_shown_without_controls(s.drop_last());
    } else {
        assert(lastfm::printable(s) =~= s.filter(
            |c: char| !((c as u32) < 32 || 127 <= (c as u32) < 160),
        ));
    }
}

/// ListenBrainz is told of a rating as ten points for each half star, under the id of what is rated.
pub proof fn ratings_are_told_in_points(what: Rated, id: Seq<char>, half: int)
    ensures
        ({
            let r = json::member(lastfm::rating_tree(what, id, half), "rating"@);
            &&& r is Some
            &&& json::member(r->0, "rating_value"@) == Some(JsonView::Int(10 * half))
            &&& what == Rated::Track ==> json::member(r->0, "recording_mbid"@) == Some(
                JsonView::Str(id),
            ) && json::member(r->0, "rating_type"@) == Some(JsonView::Str("track"@))
            &&& what == Rated::Album ==> json::member(r->0, "release_group_mbid"@) == Some(
                JsonView::Str(id),
            ) && json::member(r->0, "rating_type"@) == Some(JsonView::Str("release-group"@))
            &&& what == Rated::Artist ==> json::member(r->0, "artist_mbid"@) == Some(
                JsonView::Str(id),
            ) && json::member(r->0, "rating_type"@) == Some(JsonView::Str("artist"@))
        }),
{
    let outer = lastfm::rating_tree(what, id, half)->Object_0;
    assert(outer[0].0 == "rating"@);
    members_are_found_by_name(outer, 0);
    let m = outer[0].1->Object_0;
    reveal_strlit("rating_type");
    reveal_strlit("rating_value");
    reveal_strlit("recording_mbid");
    reveal_strlit("release_group_mbid");
    reveal_strlit("artist_mbid");
    assert("rating_type"@.len() == 11 && "rating_value"@.len() == 12 && "recording_mbid"@.len() == 14
        && "release_group_mbid"@.len() == 18 && "artist_mbid"@.len() == 11);
    assert("artist_mbid"@[0] == 'a' && "rating_type"@[0] == 'r');
    assert(m[0].0 == "rating_type"@ && m[1].0 == "rating_value"@);
    members_are_found_by_name(m, 0);
    members_are_found_by_name(m, 1);
    members_are_found_by_name(m, 2);
}

/// ListenBrainz is told of a listen with its time, its artist, its title and its album.
pub proof fn listens_are_told(artist: Seq<char>, title: Seq<char>, album: Seq<char>, ts: int)
    ensures
        ({
            let tree = lastfm::listen_tree(artist, title, album, ts);
            let all = json::items_of(json::member(tree, "payload"@));
            &&& json::member(tree, "listen_type"@) == Some(JsonView::Str("single"@))
            &&& all.len() == 1
            &&& json::member(all[0], "listened_at"@) == Some(JsonView::Int(ts))
            &&& (json::member(all[0], "track_metadata"@) matches Some(m) && {
                &&& json::member(m, "artist_name"@) == Some(JsonView::Str(artist))
                &&& json::member(m, "track_name"@) == Some(JsonView::Str(title))
                &&& json::member(m, "release_name"@) == Some(JsonView::Str(album))
            })
        }),
{
    let outer = lastfm::listen_tree(artist, title, album, ts)->Object_0;
    reveal_strlit("listen_type");
    reveal_strlit("payload");
    reveal_strlit("listened_at");
    reveal_strlit("track_metadata");
    reveal_strlit("artist_name");
    reveal_strlit("track_name");
    reveal_strlit("release_name");
    assert("listen_type"@.len() == 11 && "payload"@.len() == 7 && "listened_at"@.len() == 11
        && "track_metadata"@.len() == 14 && "artist_name"@.len() == 11 && "track_name"@.len() == 10
        && "release_name"@.len() == 12);
    assert(outer[0].0 == "listen_type"@ && outer[1].0 == "payload"@);
    members_are_found_by_name(outer, 0);
    members_are_found_by_name(outer, 1);
    let one = (outer[1].1->Array_0)[0]->Object_0;
    assert(one[0].0 == "listened_at"@ && one[1].0 == "track_metadata"@);
    members_are_found_by_name(one, 0);
    members_are_found_by_name(one, 1);
    let m = one[1].1->Object_0;
    assert(m[0].0 == "artist_name"@ && m[1].0 == "track_name"@ && m[2].0 == "release_name"@);
    members_are_found_by_name(m, 0);
    members_are_found_by_name(m, 1);
    members_are_found_by_name(m, 2);
}

} // verus!
