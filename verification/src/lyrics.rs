//! LRCLIB: the words of songs, and the files beside the tracks that hold them.

use crate::json;
use crate::json::{Json, JsonView};
use crate::net;
use crate::net::{CircuitOp, Reply, Request};
use crate::organizer;
use crate::text;
use crate::url;
use vstd::prelude::*;

verus! {

/// The words of a song: with times, and plain.
#[derive(Debug, Clone)]
pub struct Lyrics {
    pub synced: Option<String>,
    pub plain: Option<String>,
}

/// The mathematical value of a song's words.
#[verifier::ext_equal]
pub struct LyricsView {
    pub synced: Option<Seq<char>>,
    pub plain: Option<Seq<char>>,
}

impl View for Lyrics {
    type V = LyricsView;

    open spec fn view(&self) -> LyricsView {
        LyricsView { synced: text::view_opt(self.synced), plain: text::view_opt(self.plain) }
    }
}

pub open spec fn lyrics_view(l: Option<Lyrics>) -> Option<LyricsView> {
    match l {
        Some(v) => Some(v@),
        None => None,
    }
}

/// A text that is there and not empty.
pub open spec fn filled(t: Option<Seq<char>>) -> Option<Seq<char>> {
    match t {
        Some(s) => if s.len() == 0 {
            None
        } else {
            Some(s)
        },
        None => None,
    }
}

pub fn keep_filled(t: Option<String>) -> (r: Option<String>)
    ensures
        text::view_opt(r) == filled(text::view_opt(t)),
{
    match t {
        Some(s) => if text::length(s.as_str()) == 0 {
            None
        } else {
            Some(s)
        },
        None => None,
    }
}

/// The words that an answer gives; none where both kinds are missing or empty.
pub open spec fn lyrics_of(answer: Option<JsonView>) -> Option<LyricsView> {
    let synced = filled(json::string_of(json::member_opt(answer, "syncedLyrics"@)));
    let plain = filled(json::string_of(json::member_opt(answer, "plainLyrics"@)));
    if synced is None && plain is None {
        None
    } else {
        Some(LyricsView { synced, plain })
    }
}

/// Reads the words out of an answer.
pub fn parse_lyrics(answer: &Option<Json>) -> (r: Option<Lyrics>)
    ensures
        lyrics_view(r) == lyrics_of(json::doc_view(*answer)),
{
    let root = json::root(answer);
    let synced = keep_filled(json::str_value(json::get_opt(root, "syncedLyrics")));
    let plain = keep_filled(json::str_value(json::get_opt(root, "plainLyrics")));
    if synced.is_none() && plain.is_none() {
        None
    } else {
        Some(Lyrics { synced, plain })
    }
}

// ---------------------------------------------------------------------------
// Asking

/// The key under which the words of a song are kept. Without artist or title there is nothing to
/// look up.
pub fn lyrics_key(artist: &str, title: &str) -> (r: Option<String>)
    ensures
        text::view_opt(r) == if text::trimmed(artist@).len() == 0 || text::trimmed(title@).len()
            == 0 {
            None
        } else {
            Some(
                "lyr:"@ + text::unicode_lowered(artist@) + "|"@ + text::unicode_lowered(title@),
            )
        },
{
    if text::length(text::trim(artist).as_str()) == 0 || text::length(
        text::trim(title).as_str(),
    ) == 0 {
        return None;
    }
    let mut key = text::copy("lyr:");
    key.append(text::unicode_lower(artist).as_str());
    key.append("|");
    key.append(text::unicode_lower(title).as_str());
    Some(key)
}

pub open spec fn album_part(album: Seq<char>) -> Seq<char> {
    if text::trimmed(album).len() == 0 {
        Seq::empty()
    } else {
        "&album_name="@ + url::encoded(album)
    }
}

pub open spec fn duration_part(secs: int) -> Seq<char> {
    if secs > 0 {
        "&duration="@ + text::decimal_int(secs)
    } else {
        Seq::empty()
    }
}

/// The question for the words of a song. Album and duration are named where they are known.
pub fn fetch(artist: &str, title: &str, album: &str, duration_secs: i64) -> (r: Request)
    ensures
        r@ == net::asking(
            "https://lrclib.net/api/get?artist_name="@ + url::encoded(artist@) + "&track_name="@
                + url::encoded(title@) + album_part(album@) + duration_part(duration_secs as int),
            Seq::empty(),
            10_000,
        ),
{
    let mut q = text::copy("https://lrclib.net/api/get?artist_name=");
    q.append(url::urlencode(artist).as_str());
    q.append("&track_name=");
    q.append(url::urlencode(title).as_str());
    let mut more = String::new();
    if text::length(text::trim(album).as_str()) > 0 {
        more = text::join_two("&album_name=", url::urlencode(album).as_str());
    }
    q.append(more.as_str());
    let mut last = String::new();
    if duration_secs > 0 {
        last = text::join_two("&duration=", text::format_int(duration_secs).as_str());
    }
    q.append(last.as_str());
    net::ask(q, net::no_headers(), 10_000)
}

/// What an answer gives: the words, and what becomes of the circuit.
pub fn fetch_outcome(reply: &Reply) -> (r: (Option<Lyrics>, CircuitOp))
    ensures
        lyrics_view(r.0) == match net::good_body(reply@) {
            Some(body) => lyrics_of(json::document(body)),
            None => None,
        },
        r.1 == net::lookup_op(reply@),
{
    let op = net::after_lookup(reply);
    match net::ok_body(reply) {
        Some(body) => (parse_lyrics(&json::parse(body.as_str())), op),
        None => (None, op),
    }
}

/// Whether the words are looked for at Genius where LRCLIB has none.
pub fn falls_back(lyrics_source: &str, genius_token: &str) -> (r: bool)
    ensures
        r == (lyrics_source@ == "genius"@ && genius_token@.len() > 0),
{
    text::same(lyrics_source, "genius") && text::length(genius_token) > 0
}

/// Whether words are looked for at all.
pub fn is_wanted(lyrics_source: &str) -> (r: bool)
    ensures
        r == (lyrics_source@ == "lrclib"@ || lyrics_source@ == "genius"@),
{
    text::same(lyrics_source, "lrclib") || text::same(lyrics_source, "genius")
}

// ---------------------------------------------------------------------------
// The file beside the track

/// The name without its extension; a name that only begins with a dot has none.
pub open spec fn bare(name: Seq<char>) -> Seq<char> {
    if organizer::stem(name).len() == 0 {
        name
    } else {
        organizer::stem(name)
    }
}

fn bare_of(name: &str) -> (r: String)
    ensures
        r@ == bare(name@),
{
    let s = organizer::stem_of(name);
    if text::length(s.as_str()) == 0 {
        text::copy(name)
    } else {
        s
    }
}

/// The path with another extension in place of its own.
pub open spec fn with_extension(path: Seq<char>, ext: Seq<char>) -> Seq<char> {
    organizer::joined_rel(
        organizer::parent(path),
        bare(organizer::last_part(path)) + "."@ + ext,
    )
}

/// The words as they are written in a format, `txt` for plain ones; the other kind stands in
/// where the wanted one is missing.
pub open spec fn content(l: LyricsView, plain: bool) -> Option<Seq<char>> {
    if plain {
        match l.plain {
            Some(s) => Some(s),
            None => l.synced,
        }
    } else {
        match l.synced {
            Some(s) => Some(s),
            None => l.plain,
        }
    }
}

fn either(a: &Option<String>, b: &Option<String>) -> (r: Option<String>)
    ensures
        text::view_opt(r) == match text::view_opt(*a) {
            Some(s) => Some(s),
            None => text::view_opt(*b),
        },
{
    match a {
        Some(s) => Some(s.clone()),
        None => match b {
            Some(s) => Some(s.clone()),
            None => None,
        },
    }
}

/// The file beside a track and what it holds.
pub fn write_sidecar(path: &str, lyrics: &Lyrics, format: &str) -> (r: Result<
    (String, String),
    String,
>)
    ensures
        match r {
            Ok(f) => content(lyrics@, format@ == "txt"@) == Some(f.1@) && f.0@ == with_extension(
                path@,
                if format@ == "txt"@ {
                    "txt"@
                } else {
                    "lrc"@
                },
            ),
            Err(e) => content(lyrics@, format@ == "txt"@) is None && e@ == "no lyrics to write"@,
        },
{
    let plain = text::same(format, "txt");
    let chosen = if plain {
        either(&lyrics.plain, &lyrics.synced)
    } else {
        either(&lyrics.synced, &lyrics.plain)
    };
    match chosen {
        Some(words) => {
            let mut name = bare_of(organizer::last_part_of(path).as_str());
            name.append(".");
            name.append(
                if plain {
                    "txt"
                } else {
                    "lrc"
                },
            );
            Ok((organizer::join_rel(organizer::parent_of(path).as_str(), name.as_str()), words))
        },
        None => Err(text::copy("no lyrics to write")),
    }
}

/// Whether the file of `write_sidecar` is written: a file that is already there is left as it is.
pub fn writes_lyrics(there_is_one: bool) -> (r: bool)
    ensures
        r == !there_is_one,
{
    !there_is_one
}

// ---------------------------------------------------------------------------
// Laws

/// Words that were found are always written, in whatever format.
pub proof fn found_words_are_written(answer: Option<JsonView>, plain: bool)
    ensures
        lyrics_of(answer) matches Some(l) ==> (content(l, plain) matches Some(s) && s.len() > 0),
{
}

} // verus!
