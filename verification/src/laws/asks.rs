//! When something is asked for or done at all, and how it is asked for.

use crate::apple_music;
use crate::artwork;
use crate::config::{Config, LidarrMode};
use crate::enrich;
use crate::group;
use crate::health;
use crate::health::Facts;
use crate::json;
use crate::json::JsonView;
use crate::lastfm;
use crate::lidarr;
use crate::lidarr::AlbumView;
use crate::net::{BodyView, ReplyView};
use crate::pass;
use crate::text;
use crate::trim;
use crate::url;
use vstd::prelude::*;

verus! {

// ---------------------------------------------------------------------------
// What is announced

/// A text that is added where it applies is there, and nothing else is lost or added.
proof fn added_where_it_applies(list: Seq<Seq<char>>, applies: bool, s: Seq<char>, x: Seq<char>)
    ensures
        enrich::with_if(list, applies, s).contains(x) <==> list.contains(x) || (applies && x == s),
        health::with_if(list, applies, s).contains(x) <==> list.contains(x) || (applies && x == s),
{
    if applies {
        let all = list.push(s);
        assert(all[list.len() as int] == s);
        if list.contains(x) {
            let i = list.index_of(x);
            assert(all[i] == x);
        }
        if all.contains(x) {
            let i = all.index_of(x);
            if i < list.len() {
                assert(list[i] == x);
            }
        }
    }
}

/// What is done to enrich albums is announced, each thing exactly where it is done.
pub proof fn what_is_done_is_announced(
    cfg: Config,
    lyrics: Seq<char>,
    genres: Seq<char>,
    x: Seq<char>,
)
    ensures
        ({
            let set = |s: Seq<char>| text::trimmed(s).len() > 0;
            enrich::enrichments_of(cfg, lyrics, genres).contains(x) <==> {
                ||| cfg.auto_tag_from_mb && x == "auto-tag"@
                ||| cfg.write_replaygain && x == "ReplayGain"@
                ||| (cfg.embed_artwork || cfg.write_cover_jpg) && x == "artwork"@
                ||| lyrics.len() > 0 && x == "lyrics"@
                ||| genres.len() > 0 && x == "genre"@
                ||| cfg.write_acoustic_tags && set(cfg.audiomuse_url@) && x == "acoustic-tags"@
                ||| genres == "essentia"@ && set(cfg.essentia_url@) && x == "essentia-genres"@
                ||| cfg.lidarr_mode == LidarrMode::MetadataPlusRescan && set(cfg.lidarr_url@) && x
                    == "lidarr-refresh"@
                ||| cfg.scan_after_tag_write && x == "navidrome-rescan"@
                ||| cfg.write_nfo && x == "nfo"@
            }
        }),
{
    let c1 = cfg.embed_artwork || cfg.write_cover_jpg;
    let c2 = cfg.write_acoustic_tags && text::said(cfg.audiomuse_url@);
    let c3 = genres == "essentia"@ && text::said(cfg.essentia_url@);
    let c4 = cfg.lidarr_mode == LidarrMode::MetadataPlusRescan && text::said(cfg.lidarr_url@);
    let z = Seq::<Seq<char>>::empty();
    let a = enrich::with_if(z, cfg.auto_tag_from_mb, "auto-tag"@);
    let b = enrich::with_if(a, cfg.write_replaygain, "ReplayGain"@);
    let c = enrich::with_if(b, c1, "artwork"@);
    let d = enrich::with_if(c, lyrics.len() > 0, "lyrics"@);
    let e = enrich::with_if(d, genres.len() > 0, "genre"@);
    let f = enrich::with_if(e, c2, "acoustic-tags"@);
    let g = enrich::with_if(f, c3, "essentia-genres"@);
    let h = enrich::with_if(g, c4, "lidarr-refresh"@);
    let i = enrich::with_if(h, cfg.scan_after_tag_write, "navidrome-rescan"@);
    added_where_it_applies(z, cfg.auto_tag_from_mb, "auto-tag"@, x);
    added_where_it_applies(a, cfg.write_replaygain, "ReplayGain"@, x);
    added_where_it_applies(b, c1, "artwork"@, x);
    added_where_it_applies(c, lyrics.len() > 0, "lyrics"@, x);
    added_where_it_applies(d, genres.len() > 0, "genre"@, x);
    added_where_it_applies(e, c2, "acoustic-tags"@, x);
    added_where_it_applies(f, c3, "essentia-genres"@, x);
    added_where_it_applies(g, c4, "lidarr-refresh"@, x);
    added_where_it_applies(h, cfg.scan_after_tag_write, "navidrome-rescan"@, x);
    added_where_it_applies(i, cfg.write_nfo, "nfo"@, x);
}

/// What is amiss with favourites is warned of, and nothing where they are not synchronised.
pub proof fn favourites_are_warned_of(list: Seq<Seq<char>>, cfg: Config, facts: Facts, x: Seq<char>)
    ensures
        ({
            let empty = |s: Seq<char>| text::trimmed(s).len() == 0;
            let keyless = empty(cfg.lastfm_api_secret@) || empty(cfg.lastfm_password@);
            let all = health::favorites_warnings(list, cfg, facts);
            &&& !cfg.favorites_sync_lastfm ==> all == list
            &&& cfg.favorites_sync_lastfm ==> (all.contains(x) <==> {
                ||| list.contains(x)
                ||| keyless && x
                    == "favorites sync (Last.fm) is on but needs lastfmApiSecret + lastfmPassword (for the session key)"@
                ||| !keyless && (text::view_opt(facts.auth_issue) matches Some(issue) && x
                    == "favorites sync (Last.fm) cannot log in: "@ + issue
                    + ". Check lastfmPassword (and lastfmApiSecret)."@)
                ||| !facts.has_user && x
                    == "favorites sync needs a Navidrome user (grant one in User Access, or set scanUser)"@
            })
        }),
{
    let keyless = !text::said(cfg.lastfm_api_secret@) || !text::said(cfg.lastfm_password@);
    let s1 = "favorites sync (Last.fm) is on but needs lastfmApiSecret + lastfmPassword (for the session key)"@;
    let issue = text::view_opt(facts.auth_issue);
    let s2 = "favorites sync (Last.fm) cannot log in: "@ + issue->0
        + ". Check lastfmPassword (and lastfmApiSecret)."@;
    let a = if keyless {
        list.push(s1)
    } else if issue is Some {
        list.push(s2)
    } else {
        list
    };
    added_where_it_applies(list, keyless, s1, x);
    added_where_it_applies(list, !keyless && issue is Some, s2, x);
    added_where_it_applies(
        a,
        !facts.has_user,
        "favorites sync needs a Navidrome user (grant one in User Access, or set scanUser)"@,
        x,
    );
}

/// A library is used as its mount and its rights allow.
pub proof fn rights_are_shown(mount: Seq<char>)
    ensures
        mount.len() == 0 ==> pass::access(mount, true) == pass::access(mount, false)
            && pass::access(mount, true) == "NO ACCESS (grant library access in the plugin settings)"@,
        mount.len() > 0 ==> pass::access(mount, true) == "READ-WRITE"@,
        mount.len() > 0 ==> pass::access(mount, false)
            == "READ-ONLY (grant write access via: navidrome plugin edit nd-organizer --write-access)"@,
{
}

// ---------------------------------------------------------------------------
// Lidarr

/// Lidarr is asked only where it has an address and a key, and for an artist only where it has a name.
pub proof fn lidarr_is_asked_where_set_up(cfg: Config, artist: Seq<char>)
    ensures
        ({
            let ready = text::trimmed(cfg.lidarr_url@).len() > 0 && text::trimmed(
                cfg.lidarr_api_key@,
            ).len() > 0;
            &&& lidarr::configured(cfg) <==> ready
            &&& lidarr::artist_asked(cfg, artist) <==> ready && text::trimmed(artist).len() > 0
        }),
{
}

/// The details of an album replace what was found, where they can be read.
pub proof fn details_replace_what_was_found(found: AlbumView, v: JsonView)
    ensures
        lidarr::detailed(found, None) == found,
        lidarr::album_of(v) is None ==> lidarr::detailed(found, Some(v)) == found,
        lidarr::album_of(v) is Some ==> lidarr::detailed(found, Some(v)) == lidarr::album_of(v)->0,
{
}

/// A command is sent with the key, and took effect where it is answered without an error.
pub proof fn commands_are_sent_with_the_key(
    cfg: Config,
    base: Seq<char>,
    head: Seq<char>,
    id: int,
    status: int,
    body: Seq<char>,
    cause: Seq<char>,
)
    ensures
        ({
            let r = lidarr::command(cfg, base, head, id);
            &&& r.method == "POST"@
            &&& r.url == base + "/api/v1/command"@
            &&& r.headers.contains(("X-Api-Key"@, cfg.lidarr_api_key@))
            &&& r.body == BodyView::Text(head + text::decimal_int(id) + "]}"@)
        }),
        lidarr::command_failure(ReplyView::Answer { status, body }) is None <==> status < 300,
        lidarr::command_failure(ReplyView::Silent) is Some,
        lidarr::command_failure(ReplyView::Failed { cause }) == Some(cause),
{
    let h = lidarr::headers(cfg);
    assert(h[0] == ("X-Api-Key"@, cfg.lidarr_api_key@));
}

// ---------------------------------------------------------------------------
// Last.fm

/// Every parameter of a question stands behind an ampersand, with its value encoded.
pub proof fn every_parameter_is_asked(
    params: Seq<(Seq<char>, Seq<char>)>,
    k: Seq<char>,
    v: Seq<char>,
)
    ensures
        lastfm::query_tail(params.push((k, v))) == lastfm::query_tail(params) + (seq!['&'] + k + seq![
            '=',
        ] + url::encoded(v)),
        lastfm::query_tail(Seq::empty()).len() == 0,
{
    reveal_strlit("&");
    reveal_strlit("=");
    assert("&"@ =~= seq!['&']);
    assert("="@ =~= seq!['=']);
    assert(params.push((k, v)).drop_last() =~= params);
    assert(lastfm::query_tail(params) + "&"@ + k + "="@ + url::encoded(v) =~= lastfm::query_tail(
        params,
    ) + (seq!['&'] + k + seq!['='] + url::encoded(v)));
}

/// A signed request failed unless it was answered with full success.
pub proof fn requests_fail_without_success(status: int, body: Seq<char>, cause: Seq<char>)
    ensures
        lastfm::post_failure_of(ReplyView::Answer { status, body }) is None <==> status == 200,
        lastfm::post_failure_of(ReplyView::Silent) is Some,
        lastfm::post_failure_of(ReplyView::Failed { cause }) is Some,
        lastfm::hint_of(body).len() <= 160,
{
    let all = lastfm::printable(body);
    let cut = all.take(
        if all.len() < 160 {
            all.len() as int
        } else {
            160
        },
    );
    text::strip_front_is_suffix(cut, text::white());
    text::strip_back_is_prefix(text::strip_front(cut, text::white()), text::white());
}

// ---------------------------------------------------------------------------
// Pictures

/// A picture came where the answer is a full success and not empty.
pub proof fn pictures_are_not_empty(status: i32, bytes: Vec<u8>)
    ensures
        artwork::came(Some((status, bytes))) <==> status == 200 && bytes@.len() > 0,
        !artwork::came(None),
{
}

/// A picture is a PNG where it begins with the mark of one.
pub proof fn pictures_are_known_by_their_mark(bytes: Seq<u8>)
    ensures
        artwork::starts_as_png(bytes) <==> bytes.len() >= 4 && bytes[0] == 137 && bytes[1] as char
            == 'P' && bytes[2] as char == 'N' && bytes[3] as char == 'G',
{
}

/// The digits from a position on end at the first character that is none.
proof fn digits_end_there(s: Seq<char>, i: int, n: int)
    requires
        0 <= i <= n < s.len(),
        forall|k: int| i <= k < n ==> text::is_digit(#[trigger] s[k]),
        !text::is_digit(s[n]),
    ensures
        apple_music::digits_end(s, i) == n,
    decreases n - i,
{
    if i < n {
        digits_end_there(s, i + 1, n);
    }
}

proof fn no_size_before(s: Seq<char>, size: Seq<char>, i: int, n: int)
    requires
        0 <= i <= n < s.len(),
        forall|k: int| i <= k < n ==> apple_music::size_at(s, k) is None,
    ensures
        apple_music::resized_from(s, size, i) == apple_music::resized_from(s, size, n),
    decreases n - i,
{
    if i < n {
        no_size_before(s, size, i + 1, n);
    }
}

/// The size in the address of a picture is replaced by the one that is wanted, on both sides, and
/// nothing else of the address changes.
pub proof fn only_the_size_changes(
    head: Seq<char>,
    a: Seq<char>,
    b: Seq<char>,
    tail: Seq<char>,
    size: Seq<char>,
)
    requires
        a.len() > 0 && b.len() > 0,
        text::all_digits(a) && text::all_digits(b),
        ({
            let s = head + seq!['/'] + a + seq!['x'] + b + seq!['b', 'b', '.'] + tail;
            forall|k: int| 0 <= k < head.len() ==> apple_music::size_at(s, k) is None
        }),
    ensures
        apple_music::resized_from(
            head + seq!['/'] + a + seq!['x'] + b + seq!['b', 'b', '.'] + tail,
            size,
            0,
        ) == head + seq!['/'] + size + seq!['x'] + size + seq!['b', 'b', '.'] + tail,
{
    let s = head + seq!['/'] + a + seq!['x'] + b + seq!['b', 'b', '.'] + tail;
    let i = head.len() as int;
    let m = i + 1 + a.len();
    let n = m + 1 + b.len();
    assert(s[i] == '/');
    assert forall|k: int| i + 1 <= k < m implies text::is_digit(#[trigger] s[k]) by {
        assert(s[k] == a[k - i - 1]);
    }
    assert(s[m] == 'x');
    assert forall|k: int| m + 1 <= k < n implies text::is_digit(#[trigger] s[k]) by {
        assert(s[k] == b[k - m - 1]);
    }
    assert(s[n] == 'b' && s[n + 1] == 'b' && s[n + 2] == '.');
    digits_end_there(s, i + 1, m);
    digits_end_there(s, m + 1, n);
    assert(apple_music::size_at(s, i) == Some(n + 2));
    no_size_before(s, size, 0, i);
    reveal_strlit("/");
    reveal_strlit("x");
    reveal_strlit("bb");
    assert("/"@ =~= seq!['/']);
    assert("x"@ =~= seq!['x']);
    assert("bb"@ =~= seq!['b', 'b']);
    assert(s.take(i) =~= head);
    assert(s.skip(n + 2) =~= seq!['.'] + tail);
    assert(head + "/"@ + size + "x"@ + size + "bb"@ + s.skip(n + 2) =~= head + seq!['/'] + size
        + seq!['x'] + size + seq!['b', 'b', '.'] + tail);
}

// ---------------------------------------------------------------------------
// The server

/// The number of files is what the answer says, and nought where it does not.
pub proof fn files_are_counted_by_the_server(doc: JsonView, r: JsonView, st: JsonView, n: int)
    requires
        i64::MIN <= n <= i64::MAX,
        json::member(doc, "subsonic-response"@) == Some(r),
        json::member(r, "scanStatus"@) == Some(st),
    ensures
        json::member(st, "count"@) == Some(JsonView::Int(n)) ==> group::media_count_of(Some(doc)) == n,
        json::member(st, "count"@) is None ==> group::media_count_of(Some(doc)) == 0,
        group::media_count_of(None) == 0,
{
}

/// What is kept of a library's files and of what was heard is bound to its database: the index, the
/// waiting folders, tallies, published ratings, plays and skips, and nothing else.
pub proof fn what_is_bound_to_a_database()
    ensures
        ({
            let all = group::stale_prefix_texts();
            &&& all.contains("scan.filev2."@) && all.contains("scan.stackv2."@)
            &&& all.contains("star.tally."@) && all.contains("star.pub."@)
            &&& all.contains("stat.play."@) && all.contains("stat.skip."@)
            &&& all.len() == 6
        }),
{
    let all = group::stale_prefix_texts();
    assert(all[0] == "scan.filev2."@ && all[1] == "scan.stackv2."@ && all[2] == "star.tally."@);
    assert(all[3] == "star.pub."@ && all[4] == "stat.play."@ && all[5] == "stat.skip."@);
}

/// Missing files are removed by one call to the server, with the account's name and password.
pub proof fn missing_files_are_removed_by_the_server(
    base: Seq<char>,
    user: Seq<char>,
    password: Seq<char>,
)
    requires
        base.len() > 0,
        base.last() != '/',
    ensures
        ({
            let r = trim::purge_request(base, user, password);
            &&& r.method == "DELETE"@
            &&& r.url == base + "/api/missing"@
            &&& r.headers == seq![
                (
                    "Authorization"@,
                    "Basic "@ + trim::base64_text(
                        vstd::utf8::encode_utf8(user + seq![':'] + password),
                    ),
                ),
            ]
            &&& r.body == BodyView::Nothing
        }),
        trim::purge_request(base.push('/'), user, password) == trim::purge_request(
            base,
            user,
            password,
        ),
{
    reveal_strlit("/");
    reveal_strlit(":");
    assert("/"@ =~= seq!['/']);
    assert(":"@ =~= seq![':']);
    assert("/"@[0] == '/');
    let p = text::among("/"@);
    assert forall|c: char| #[trigger] p(c) <==> c == '/' by {}
    assert(text::strip_back(base, p) == base);
    let more = base.push('/');
    assert(more.drop_last() =~= base);
    assert(text::strip_back(more, p) == base);
}

/// A service is checked where it is set up, and else said not to be.
pub proof fn services_are_checked_where_set_up(cfg: Config, base: Seq<char>)
    ensures
        ({
            let set = |s: Seq<char>| text::trimmed(s).len() > 0;
            &&& health::acoustid_check(cfg) is Probe <==> set(cfg.acoustid_url@)
            &&& health::lidarr_check(cfg, base) is Probe <==> set(cfg.lidarr_url@)
            &&& health::audiomuse_check(cfg, base) is Probe <==> set(cfg.audiomuse_url@)
            &&& health::listenbrainz_check(cfg) is Probe <==> set(cfg.musicbrainz_token@)
            &&& health::musicbrainz_check(cfg) is Probe
            &&& health::lastfm_check(cfg) is Missing <==> !(set(cfg.lastfm_api_key@) && set(
                cfg.lastfm_user@,
            ))
            &&& health::lastfm_check(cfg) is Login <==> set(cfg.lastfm_api_key@) && set(
                cfg.lastfm_user@,
            ) && cfg.favorites_sync_lastfm && set(cfg.lastfm_api_secret@) && set(
                cfg.lastfm_password@,
            )
            &&& !(health::acoustid_check(cfg) is Probe) ==> health::acoustid_check(cfg) is Missing
            &&& !(health::lidarr_check(cfg, base) is Probe) ==> health::lidarr_check(
                cfg,
                base,
            ) is Missing
        }),
{
}

} // verus!
