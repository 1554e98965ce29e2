//! What is kept between runs, and how services are reached.

use crate::config::Config;
use crate::hosts;
use crate::json;
use crate::json::JsonView;
use crate::laws::sources::{members_are_found_by_name, other_members_are_missing};
use crate::net::ReplyView;
use crate::records;
use crate::replaygain;
use crate::state;
use crate::store;
use crate::tags::Recording;
use crate::text;
use crate::trim;
use vstd::prelude::*;

verus! {

// ---------------------------------------------------------------------------
// Documents

/// The tags of a file are read by the names of their fields.
pub proof fn tags_are_read_by_name(
    v: JsonView,
    title: Seq<char>,
    artist: Seq<char>,
    owner: Seq<char>,
    album: Seq<char>,
    genre: Seq<char>,
    isrc: Seq<char>,
    recording_id: Seq<char>,
    album_id: Seq<char>,
    artist_id: Seq<char>,
    year: u32,
    track: u32,
    disc: u32,
)
    requires
        v is Object,
        json::member(v, "title"@) == Some(JsonView::Str(title)),
        json::member(v, "artist"@) == Some(JsonView::Str(artist)),
        json::member(v, "album_artist"@) == Some(JsonView::Str(owner)),
        json::member(v, "album"@) == Some(JsonView::Str(album)),
        json::member(v, "genre"@) == Some(JsonView::Str(genre)),
        json::member(v, "isrc"@) == Some(JsonView::Str(isrc)),
        json::member(v, "mbid_recording"@) == Some(JsonView::Str(recording_id)),
        json::member(v, "mbid_album"@) == Some(JsonView::Str(album_id)),
        json::member(v, "mbid_artist"@) == Some(JsonView::Str(artist_id)),
        json::member(v, "year"@) == Some(JsonView::Int(year as int)),
        json::member(v, "track"@) == Some(JsonView::Int(track as int)),
        json::member(v, "disc"@) == Some(JsonView::Int(disc as int)),
        json::member(v, "recording"@) == Some(JsonView::Str("Studio"@)),
    ensures
        records::tags_of(v) matches Some(t) && {
            &&& t.title == title && t.artist == artist && t.album_artist == owner
            &&& t.album == album && t.genre == genre && t.isrc == isrc
            &&& t.mbid_recording == recording_id && t.mbid_album == album_id
            &&& t.mbid_artist == artist_id
            &&& t.year == Some(year) && t.track == Some(track) && t.disc == Some(disc)
            &&& t.recording == Recording::Studio
        },
{
}

/// A recording goes by its word, and no other word names one.
pub proof fn recordings_go_by_their_word(s: Seq<char>)
    ensures
        records::recording_of(s) == Some(Recording::Studio) <==> s == "Studio"@,
        records::recording_of(s) == Some(Recording::Live) <==> s == "Live"@,
        records::recording_of(s) == Some(Recording::Bootleg) <==> s == "Bootleg"@,
        records::recording_of(s) == Some(Recording::Mixed) <==> s == "Mixed"@,
{
    reveal_strlit("Studio");
    reveal_strlit("Live");
    reveal_strlit("Bootleg");
    reveal_strlit("Mixed");
    assert("Studio"@.len() == 6 && "Live"@.len() == 4 && "Bootleg"@.len() == 7 && "Mixed"@.len() == 5);
}

/// A tally is read by the names of its fields; a file that is not said to be loved is not.
pub proof fn tallies_are_read_by_name(
    v: JsonView,
    path: Seq<char>,
    id: Seq<char>,
    title: Seq<char>,
    artist: Seq<char>,
    full: int,
    half: int,
    skips: int,
)
    requires
        v is Object,
        i64::MIN <= full <= i64::MAX && i64::MIN <= half <= i64::MAX,
        i64::MIN <= skips <= i64::MAX,
        json::member(v, "path"@) == Some(JsonView::Str(path)),
        json::member(v, "id"@) == Some(JsonView::Str(id)),
        json::member(v, "title"@) == Some(JsonView::Str(title)),
        json::member(v, "artist"@) == Some(JsonView::Str(artist)),
        json::member(v, "full"@) == Some(JsonView::Int(full)),
        json::member(v, "half"@) == Some(JsonView::Int(half)),
        json::member(v, "skips"@) == Some(JsonView::Int(skips)),
        json::member(v, "loved"@) is None || json::member(v, "loved"@)->0 is Bool,
    ensures
        records::tally_of(v) matches Some(t) && {
            &&& t.path == path && t.id == id && t.title == title && t.artist == artist
            &&& t.full == full && t.half == half && t.skips == skips
            &&& t.loved <==> json::member(v, "loved"@) == Some(JsonView::Bool(true))
        },
{
}

/// A song that is being played is read by the names of its fields.
pub proof fn songs_are_read_by_name(
    v: JsonView,
    id: Seq<char>,
    title: Seq<char>,
    artist: Seq<char>,
    album: Seq<char>,
    path: Seq<char>,
    position: int,
    duration: int,
    plays: int,
)
    requires
        v is Object,
        i64::MIN <= position <= i64::MAX && i64::MIN <= duration <= i64::MAX,
        i64::MIN <= plays <= i64::MAX,
        json::member(v, "id"@) == Some(JsonView::Str(id)),
        json::member(v, "title"@) == Some(JsonView::Str(title)),
        json::member(v, "artist"@) == Some(JsonView::Str(artist)),
        json::member(v, "album"@) == Some(JsonView::Str(album)),
        json::member(v, "path"@) == Some(JsonView::Str(path)),
        json::member(v, "position_ms"@) == Some(JsonView::Int(position)),
        json::member(v, "duration"@) == Some(JsonView::Int(duration)),
        json::member(v, "play_count"@) == Some(JsonView::Int(plays)),
    ensures
        records::playing_of(v) matches Some(e) && {
            &&& e.id == id && e.title == title && e.artist == artist && e.album == album
            &&& e.path == path && e.position_ms == position && e.duration == duration
            &&& e.play_count == plays
        },
{
}

/// A record of a move is read by the names of its fields.
pub proof fn moves_are_read_by_name(
    v: JsonView,
    n: int,
    ts: int,
    run: Seq<char>,
    library: int,
    from: Seq<char>,
    to: Seq<char>,
    renames: Seq<JsonView>,
    pairs: Seq<(Seq<char>, Seq<char>)>,
    companions: Seq<JsonView>,
)
    requires
        v is Object,
        i64::MIN <= n <= i64::MAX && i64::MIN <= ts <= i64::MAX,
        i32::MIN <= library <= i32::MAX,
        json::member(v, "seq"@) == Some(JsonView::Int(n)),
        json::member(v, "ts"@) == Some(JsonView::Int(ts)),
        json::member(v, "run_id"@) == Some(JsonView::Str(run)),
        json::member(v, "library_id"@) == Some(JsonView::Int(library)),
        json::member(v, "from_dir"@) == Some(JsonView::Str(from)),
        json::member(v, "to_dir"@) == Some(JsonView::Str(to)),
        json::member(v, "file_renames"@) == Some(JsonView::Array(renames)),
        state::renames_of(renames) == Some(pairs),
        json::member(v, "dir_sidecars"@) == Some(JsonView::Array(companions)),
        json::texts_among(companions).len() == companions.len(),
        json::member(v, "nfo_written"@) is None,
        json::member(v, "nfo_backup"@) is None,
    ensures
        state::record_of(v) matches Some(r) && {
            &&& r.seq == n && r.ts == ts && r.run_id == run && r.library_id == library
            &&& r.from_dir == from && r.to_dir == to && r.file_renames == pairs
            &&& r.dir_sidecars == json::texts_among(companions)
            &&& r.nfo_written is None && r.nfo_backup is None
        },
{
}

/// One more rename in a list is read as one more pair of names.
pub proof fn renames_are_read_in_order(
    v: Seq<JsonView>,
    e: JsonView,
    from: Seq<char>,
    to: Seq<char>,
)
    requires
        e is Object,
        json::member(e, "from"@) == Some(JsonView::Str(from)),
        json::member(e, "to"@) == Some(JsonView::Str(to)),
        state::renames_of(v) is Some,
    ensures
        state::renames_of(v.push(e)) == Some(state::renames_of(v)->0.push((from, to))),
{
    assert(v.push(e).drop_last() =~= v);
}

/// Where the first member of a name stands.
proof fn first_stands(m: Seq<(Seq<char>, JsonView)>, key: Seq<char>, from: int)
    requires
        0 <= from <= m.len(),
    ensures
        match records::first_at(m, key, from) {
            Some(i) => from <= i < m.len() && m[i].0 == key && forall|j: int|
                from <= j < i ==> (#[trigger] m[j]).0 != key,
            None => forall|j: int| from <= j < m.len() ==> (#[trigger] m[j]).0 != key,
        },
    decreases m.len() - from,
{
    if from < m.len() {
        first_stands(m, key, from + 1);
    }
}

/// A member that is set has its value, and every other member keeps the one it had.
pub proof fn setting_changes_one_member(
    m: Seq<(Seq<char>, JsonView)>,
    key: Seq<char>,
    v: JsonView,
    other: Seq<char>,
)
    requires
        other != key,
    ensures
        json::member(JsonView::Object(records::with_member(m, key, v)), key) == Some(v),
        json::member(JsonView::Object(records::with_member(m, key, v)), other) == json::member(
            JsonView::Object(m),
            other,
        ),
{
    first_stands(m, key, 0);
    first_stands(m, other, 0);
    let after = records::with_member(m, key, v);
    let at = match records::first_at(m, key, 0) {
        Some(i) => i,
        None => m.len() as int,
    };
    assert(after[at] == (key, v));
    assert forall|j: int| 0 <= j < at implies (#[trigger] after[j]).0 != key by {
        assert(after[j] == m[j]);
    }
    members_are_found_by_name(after, at);
    match records::first_at(m, other, 0) {
        Some(k) => {
            assert(k != at);
            members_are_found_by_name(m, k);
            assert(after[k] == m[k]);
            assert forall|j: int| 0 <= j < k implies (#[trigger] after[j]).0 != after[k].0 by {
                if j != at {
                    assert(after[j] == m[j]);
                }
            }
            members_are_found_by_name(after, k);
        },
        None => {
            assert forall|j: int| 0 <= j < after.len() implies (#[trigger] after[j]).0 != other by {
                if j != at {
                    assert(after[j] == m[j]);
                }
            }
            other_members_are_missing(m, other, JsonView::Null);
            other_members_are_missing(after, other, JsonView::Null);
        },
    }
}

/// A file that was looked up is marked as such, and has the ids of the album and the recording that
/// were found.
pub proof fn looked_up_files_are_marked(
    t: Seq<(Seq<char>, JsonView)>,
    album: Seq<char>,
    recording: Seq<char>,
)
    ensures
        ({
            let found = JsonView::Object(records::marked(t, Some((album, recording))));
            let lost = JsonView::Object(records::marked(t, None));
            &&& json::member(found, "_acoustid_checked"@) == Some(JsonView::Bool(true))
            &&& json::member(lost, "_acoustid_checked"@) == Some(JsonView::Bool(true))
            &&& json::member(found, "mbid_album"@) == Some(JsonView::Str(album))
            &&& json::member(found, "mbid_recording"@) == Some(JsonView::Str(recording))
            &&& json::member(found, "title"@) == json::member(JsonView::Object(t), "title"@)
            &&& json::member(lost, "mbid_album"@) == json::member(JsonView::Object(t), "mbid_album"@)
        }),
{
    reveal_strlit("_acoustid_checked");
    reveal_strlit("mbid_album");
    reveal_strlit("mbid_recording");
    reveal_strlit("title");
    assert("_acoustid_checked"@.len() == 17 && "mbid_album"@.len() == 10 && "mbid_recording"@.len()
        == 14 && "title"@.len() == 5);
    let a = records::with_member(t, "mbid_album"@, JsonView::Str(album));
    let b = records::with_member(a, "mbid_recording"@, JsonView::Str(recording));
    let yes = JsonView::Bool(true);
    setting_changes_one_member(t, "mbid_album"@, JsonView::Str(album), "title"@);
    setting_changes_one_member(a, "mbid_recording"@, JsonView::Str(recording), "title"@);
    setting_changes_one_member(a, "mbid_recording"@, JsonView::Str(recording), "mbid_album"@);
    setting_changes_one_member(b, "_acoustid_checked"@, yes, "title"@);
    setting_changes_one_member(b, "_acoustid_checked"@, yes, "mbid_album"@);
    setting_changes_one_member(b, "_acoustid_checked"@, yes, "mbid_recording"@);
    setting_changes_one_member(t, "_acoustid_checked"@, yes, "mbid_album"@);
}

// ---------------------------------------------------------------------------
// Keys

/// Sixteen to a power.
pub open spec fn power16(n: nat) -> nat
    decreases n,
{
    if n == 0 {
        1
    } else {
        16 * power16((n - 1) as nat)
    }
}

/// A number in hexadecimal has as many digits as are asked for, each of them a digit or a small
/// letter up to `f`.
pub proof fn hex_has_its_width(n: nat, width: nat)
    ensures
        state::hex(n, width).len() == width,
        forall|i: int|
            0 <= i < width ==> {
                let c = #[trigger] state::hex(n, width)[i];
                ('0' <= c <= '9') || ('a' <= c <= 'f')
            },
    decreases width,
{
    if width > 0 {
        hex_has_its_width(n / 16, (width - 1) as nat);
    }
}

/// Two numbers that fit the width have the same hexadecimal digits only where they are the same.
pub proof fn hex_tells_numbers_apart(a: nat, b: nat, width: nat)
    requires
        a < power16(width),
        b < power16(width),
        state::hex(a, width) == state::hex(b, width),
    ensures
        a == b,
    decreases width,
{
    if width > 0 {
        let w = (width - 1) as nat;
        let x = state::hex(a / 16, w);
        let y = state::hex(b / 16, w);
        let s = state::hex(a, width);
        let t = state::hex(b, width);
        hex_has_its_width(a / 16, w);
        hex_has_its_width(b / 16, w);
        assert(s == x.push(state::hex_digit((a % 16) as int)));
        assert(t == y.push(state::hex_digit((b % 16) as int)));
        assert(x =~= s.drop_last() && y =~= t.drop_last());
        assert(s.last() == state::hex_digit((a % 16) as int));
        assert(t.last() == state::hex_digit((b % 16) as int));
        assert(a / 16 < power16(w)) by {
            assert(power16(width) == 16 * power16(w));
        }
        assert(b / 16 < power16(w)) by {
            assert(power16(width) == 16 * power16(w));
        }
        hex_tells_numbers_apart(a / 16, b / 16, w);
    }
}

/// A number that is kept as a text is read back; nothing, or a text that is none, counts as nought.
pub proof fn kept_numbers_read_back(n: int, s: Seq<char>)
    requires
        i64::MIN <= n <= i64::MAX,
        text::parsed_int(s, i64::MIN as int, i64::MAX as int) is None,
    ensures
        state::stored_number(Some(text::decimal_int(n))) == n,
        state::stored_number(Some(s)) == 0,
        state::stored_number(None) == 0,
{
    text::decimal_int_reads_back(n, i64::MIN as int, i64::MAX as int);
}

/// The hash of some bytes begins from its basis and takes in one byte after the other.
pub proof fn hashes_take_in_every_byte(bytes: Seq<u8>, b: u8)
    ensures
        state::hashed(Seq::empty()) == 14695981039346656037u64,
        state::hashed(bytes.push(b)) == (state::hashed(bytes) ^ (b as u64)).wrapping_mul(
            1099511628211u64,
        ),
{
    assert(bytes.push(b).drop_last() =~= bytes);
}

/// A report goes by its time, and is kept for whole days.
pub proof fn reports_go_by_their_time(ts: int, now: int, days: int)
    ensures
        store::report_name(ts) == "report:"@ + text::decimal_int(ts),
        store::report_file_name(ts) == "report-"@ + text::decimal_int(ts) + ".txt"@,
        store::cutoff(now, days) == now - days * 24 * 60 * 60,
{
}

// ---------------------------------------------------------------------------
// Missing files

/// Six bits are written as a capital letter, a small letter, a digit, `+` or `/`, in this order.
pub proof fn six_bits_are_one_character(n: int)
    requires
        0 <= n < 64,
    ensures
        ({
            let c = trim::base64_char(n);
            &&& n < 26 ==> c as int == 'A' as int + n
            &&& 26 <= n < 52 ==> c as int == 'a' as int + (n - 26)
            &&& 52 <= n < 62 ==> c as int == '0' as int + (n - 52)
            &&& n == 62 ==> c == '+'
            &&& n == 63 ==> c == '/'
        }),
{
}

/// Three bytes are written as the four characters that hold the same bits, and one after the other.
pub proof fn three_bytes_are_four_characters(
    bytes: Seq<u8>,
    a: int,
    b: int,
    c: int,
    d: int,
)
    requires
        bytes.len() >= 3,
        0 <= a < 64 && 0 <= b < 64 && 0 <= c < 64 && 0 <= d < 64,
        ((a * 64 + b) * 64 + c) * 64 + d == (bytes[0] * 256 + bytes[1]) * 256 + bytes[2],
    ensures
        trim::base64_text(bytes) == seq![
            trim::base64_char(a),
            trim::base64_char(b),
            trim::base64_char(c),
            trim::base64_char(d),
        ] + trim::base64_text(bytes.skip(3)),
{
    let n = bytes[0] * 65536 + bytes[1] * 256 + bytes[2];
    assert(n == 262144 * a + 4096 * b + 64 * c + d);
    assert(n / 262144 == a);
    assert(n / 4096 == 64 * a + b);
    assert(n / 64 == 4096 * a + 64 * b + c);
    assert((64 * a + b) % 64 == b);
    assert((4096 * a + 64 * b + c) % 64 == c);
    assert(n % 64 == d);
}

/// One or two bytes that are left are written as two or three characters, filled up with `=`.
pub proof fn last_bytes_are_filled_up(x: u8, y: u8, a: int, b: int, c: int)
    requires
        0 <= a < 64 && 0 <= b < 64 && 0 <= c < 64,
    ensures
        a * 64 + b == x * 16 ==> trim::base64_text(seq![x]) == seq![
            trim::base64_char(a),
            trim::base64_char(b),
            '=',
            '=',
        ],
        (a * 64 + b) * 64 + c == (x * 256 + y) * 4 ==> trim::base64_text(seq![x, y]) == seq![
            trim::base64_char(a),
            trim::base64_char(b),
            trim::base64_char(c),
            '=',
        ],
        trim::base64_text(Seq::empty()).len() == 0,
{
    if a * 64 + b == x * 16 {
        let n = x * 16;
        assert(n / 64 == a && n % 64 == b);
    }
    if (a * 64 + b) * 64 + c == (x * 256 + y) * 4 {
        let n = x * 1024 + y * 4;
        assert(n == 4096 * a + 64 * b + c);
        assert(n / 4096 == a && n / 64 == 64 * a + b && n % 64 == c);
        assert((64 * a + b) % 64 == b);
    }
}

/// Missing files are trimmed exactly where that is switched on and there are an account and a
/// password; the account is the administrator, and else the user who scans.
pub proof fn trimming_needs_an_account(cfg: Config, scan_user: Seq<char>)
    ensures
        ({
            let admin = text::trimmed(cfg.navidrome_admin_user@);
            let secret = text::trimmed(cfg.navidrome_admin_password@);
            &&& admin.len() > 0 ==> trim::account(cfg, scan_user) == admin
            &&& admin.len() == 0 ==> trim::account(cfg, scan_user) == scan_user
            &&& trim::trims(cfg, scan_user) <==> cfg.trim_missing_days > 0 && secret.len() > 0 && (
            admin.len() > 0 || scan_user.len() > 0)
        }),
{
}

/// The server was asked in vain unless it says that all went well, with or without a word about it.
pub proof fn trimming_ends_well(status: int, body: Seq<char>, cause: Seq<char>)
    ensures
        trim::purge_failure(ReplyView::Answer { status, body }) is None <==> status == 200 || status
            == 204,
        trim::purge_failure(ReplyView::Silent) is Some,
        trim::purge_failure(ReplyView::Failed { cause }) is Some,
{
}

// ---------------------------------------------------------------------------
// Loudness

/// Loudness counts where the measuring went well and gave a number; the peak may be missing.
pub proof fn loudness_counts_where_measured(
    answer: JsonView,
    r: JsonView,
    level: Seq<char>,
    peak: Seq<char>,
)
    requires
        json::member(answer, "replaygain"@) == Some(r),
        json::member(r, "integrated"@) == Some(JsonView::Real(level)),
    ensures
        json::member(answer, "ok"@) == Some(JsonView::Bool(true)) && json::member(r, "peak"@) == Some(
            JsonView::Real(peak),
        ) ==> replaygain::measured(Some(answer)) == Some((level, Some(peak))),
        json::member(answer, "ok"@) == Some(JsonView::Bool(true)) && json::member(r, "peak"@) is None
            ==> replaygain::measured(Some(answer)) == Some((level, None::<Seq<char>>)),
        json::member(answer, "ok"@) != Some(JsonView::Bool(true)) ==> replaygain::measured(
            Some(answer),
        ) is None,
        replaygain::measured(None) is None,
{
}

// ---------------------------------------------------------------------------
// Hosts

/// The search for a mark passes over what does not begin like it.
proof fn search_passes_over(s: Seq<char>, mark: Seq<char>, from: int, n: int)
    requires
        mark.len() > 0,
        0 <= from <= n,
        text::stands_at(s, mark, n),
        forall|k: int| from <= k < n ==> #[trigger] s[k] != mark[0],
    ensures
        text::find_from(s, mark, from) == Some(n),
    decreases n - from,
{
    if from < n {
        if text::stands_at(s, mark, from) {
            assert(s.subrange(from, from + mark.len())[0] == s[from]);
        }
        search_passes_over(s, mark, from + 1, n);
    }
}

/// Where a text without the first character of a mark is followed by the mark, the mark is found
/// there.
proof fn mark_is_found(a: Seq<char>, mark: Seq<char>, b: Seq<char>)
    requires
        mark.len() > 0,
        !a.contains(mark[0]),
    ensures
        text::found(a + mark + b, mark) == Some(a.len() as int),
{
    let s = a + mark + b;
    let n = a.len() as int;
    assert(s.subrange(n, n + mark.len()) =~= mark);
    assert forall|k: int| 0 <= k < n implies #[trigger] s[k] != mark[0] by {
        assert(s[k] == a[k]);
        assert(a.contains(a[k]));
    }
    search_passes_over(s, mark, 0, n);
}

proof fn mark_is_found_last(a: Seq<char>, c: char, b: Seq<char>, mark: Seq<char>)
    requires
        mark == seq![c],
        !b.contains(c),
    ensures
        text::found_last(a + seq![c] + b, mark) == Some(a.len() as int),
{
    let s = a + seq![c] + b;
    text::find_back_meaning(s, mark, s.len() - mark.len());
    assert(s.subrange(a.len() as int, a.len() as int + 1) =~= mark);
    assert(text::stands_at(s, mark, a.len() as int));
    let j = text::found_last(s, mark)->0;
    if j > a.len() {
        assert(s.subrange(j, j + 1)[0] == c);
        assert(b[j - a.len() - 1] == c);
    }
}

/// An address comes apart at its slashes.
proof fn addresses_come_apart(scheme: Seq<char>, place: Seq<char>, path: Seq<char>)
    requires
        !scheme.contains(':'),
        !place.contains('/'),
        path.len() == 0 || path[0] == '/',
    ensures
        hosts::parts(scheme + "://"@ + place + path) == Some((scheme + "://"@, place, path)),
{
    reveal_strlit("://");
    reveal_strlit("/");
    assert("/"@ =~= seq!['/']);
    assert("://"@[0] == ':');
    let url = scheme + "://"@ + place + path;
    assert(url =~= scheme + "://"@ + (place + path));
    mark_is_found(scheme, "://"@, place + path);
    let rest = url.skip(scheme.len() as int + 3);
    assert(rest =~= place + path);
    assert(url.take(scheme.len() as int + 3) =~= scheme + "://"@);
    if path.len() > 0 {
        assert(place + path =~= place + "/"@ + path.skip(1));
        mark_is_found(place, "/"@, path.skip(1));
    } else {
        text::find_from_meaning(rest, "/"@, 0);
        if text::found(rest, "/"@) is Some {
            let j = text::found(rest, "/"@)->0;
            assert(rest.subrange(j, j + 1)[0] == '/');
            assert(rest[j] == place[j]);
        }
    }
    assert(rest.take(place.len() as int) =~= place);
    assert(rest.skip(place.len() as int) =~= path);
}

/// A service at another host is looked for with the same scheme, the same port and the same path.
pub proof fn only_the_host_changes(
    scheme: Seq<char>,
    host: Seq<char>,
    port: Seq<char>,
    path: Seq<char>,
    new: Seq<char>,
)
    requires
        !scheme.contains(':'),
        !host.contains('/') && !host.contains(':'),
        port.len() > 0,
        text::all_digits(port),
        path.len() == 0 || path[0] == '/',
    ensures
        hosts::rehosted(scheme + "://"@ + (host + ":"@ + port) + path, new) == Some(
            scheme + "://"@ + new + (":"@ + port) + path,
        ),
        hosts::rehosted(scheme + "://"@ + host + path, new) == Some(scheme + "://"@ + new + path),
{
    reveal_strlit(":");
    assert(":"@ =~= seq![':']);
    let place = host + ":"@ + port;
    assert forall|i: int| 0 <= i < port.len() implies port[i] != '/' && port[i] != ':' by {
        assert(text::is_digit(port[i]));
    }
    assert(!place.contains('/')) by {
        if place.contains('/') {
            let i = place.index_of('/');
            if i < host.len() {
                assert(host[i] == '/');
            } else if i > host.len() {
                assert(port[i - host.len() - 1] == '/');
            }
        }
    }
    addresses_come_apart(scheme, place, path);
    addresses_come_apart(scheme, host, path);
    mark_is_found_last(host, ':', port, ":"@);
    assert(place.skip(host.len() as int + 1) =~= port);
    assert(hosts::port_part(place) == ":"@ + port);
    text::find_back_meaning(host, ":"@, host.len() - 1);
    if text::found_last(host, ":"@) is Some {
        let j = text::found_last(host, ":"@)->0;
        assert(host.subrange(j, j + 1)[0] == ':');
        assert(host[j] == ':');
    }
    assert(scheme + "://"@ + new + Seq::<char>::empty() + path =~= scheme + "://"@ + new + path);
}

/// What stands behind a colon and is no number is no port, and is dropped with the host.
pub proof fn only_numbers_are_ports(
    scheme: Seq<char>,
    host: Seq<char>,
    word: Seq<char>,
    path: Seq<char>,
    new: Seq<char>,
)
    requires
        !scheme.contains(':'),
        !host.contains('/') && !word.contains('/') && !word.contains(':'),
        word.len() == 0 || !text::all_digits(word),
        path.len() == 0 || path[0] == '/',
    ensures
        hosts::rehosted(scheme + "://"@ + (host + ":"@ + word) + path, new) == Some(
            scheme + "://"@ + new + path,
        ),
{
    reveal_strlit(":");
    assert(":"@ =~= seq![':']);
    let place = host + ":"@ + word;
    assert(!place.contains('/')) by {
        if place.contains('/') {
            let i = place.index_of('/');
            if i < host.len() {
                assert(host[i] == '/');
            } else if i > host.len() {
                assert(word[i - host.len() - 1] == '/');
            }
        }
    }
    addresses_come_apart(scheme, place, path);
    mark_is_found_last(host, ':', word, ":"@);
    assert(place.skip(host.len() as int + 1) =~= word);
    assert(hosts::port_part(place).len() == 0);
    assert(scheme + "://"@ + new + Seq::<char>::empty() + path =~= scheme + "://"@ + new + path);
}

/// A list with a new text holds what it held, and the text.
proof fn new_is_in(list: Seq<Seq<char>>, s: Option<Seq<char>>, x: Seq<char>)
    ensures
        hosts::with_new_opt(list, s).contains(x) <==> list.contains(x) || s == Some(x),
        list.len() > 0 ==> hosts::with_new_opt(list, s)[0] == list[0],
        hosts::with_new_opt(list, s).len() >= list.len(),
{
    if let Some(t) = s {
        if !list.contains(t) {
            let all = list.push(t);
            assert(all[list.len() as int] == t);
            if list.contains(x) {
                let i = list.index_of(x);
                assert(all[i] == x);
            }
            if all.contains(x) {
                let i = all.index_of(x);
                if i < list.len() {
                    assert(list[i] == x);
                }
            }
        }
    }
}

/// A service is looked for first where it is set, and then at the server's host, where containers
/// reach their host, at the gateway of its network, and Lidarr under its own name; and nowhere else.
pub proof fn services_are_looked_for(
    key: Seq<char>,
    set: Seq<char>,
    server: Option<Seq<char>>,
    x: Seq<char>,
)
    ensures
        ({
            let all = hosts::candidates(key, set, server);
            &&& all.len() > 0 && all[0] == set
            &&& all.contains(x) <==> x == set || (server matches Some(h) && x == hosts::at_server(
                set,
                h,
            )) || hosts::rehosted(set, "host.docker.internal"@) == Some(x) || hosts::rehosted(
                set,
                "172.17.0.1"@,
            ) == Some(x) || (key == "lidarr"@ && hosts::rehosted(set, "lidarr"@) == Some(x))
                || hosts::gateway(set) == Some(x)
        }),
{
    let own = match server {
        Some(h) => Some(hosts::at_server(set, h)),
        None => None,
    };
    let a = seq![set];
    assert(a.contains(x) <==> x == set) by {
        assert(a[0] == set);
    }
    let b = hosts::with_new_opt(a, own);
    let r1 = hosts::rehosted(set, "host.docker.internal"@);
    let r2 = hosts::rehosted(set, "172.17.0.1"@);
    let c = hosts::with_new_opt(b, r1);
    let d = hosts::with_new_opt(c, r2);
    new_is_in(a, own, x);
    new_is_in(b, r1, x);
    new_is_in(c, r2, x);
    let r3 = hosts::rehosted(set, "lidarr"@);
    new_is_in(d, r3, x);
    let e = if key == "lidarr"@ {
        hosts::with_new_opt(d, r3)
    } else {
        d
    };
    new_is_in(e, hosts::gateway(set), x);
}

/// An address that is given counts unless it means everywhere or here.
pub proof fn addresses_name_a_place(v: Seq<char>)
    ensures
        hosts::real_address(v) <==> v.len() > 0 && v != "0.0.0.0"@ && v != "::"@ && v
            != "localhost"@,
{
}

} // verus!
