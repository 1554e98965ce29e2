//! What is written into the sidecars of an album and of its artist.

use crate::config::Config;
use crate::discogs;
use crate::discogs::DiscogsCredit;
use crate::json;
use crate::json::{Json, JsonView};
use crate::net;
use crate::net::{Body, BodyView, Request};
use crate::nfo;
use crate::nfo::{AlbumNfoView, ArtistNfoView, NfoAlbum, NfoArtist, NfoCredit};
use crate::organizer;
use crate::organizer::{AlbumInfo, InfoView};
use crate::text;
use vstd::prelude::*;

verus! {

// ---------------------------------------------------------------------------
// The analysis of the sound

/// What is wanted of the analysis.
#[derive(Debug, Clone, Copy)]
pub struct Analysis {
    pub structure: bool,
    pub chords: bool,
    pub bpm: bool,
}

/// The key under which an analysis is kept.
pub fn analysis_key(path: &str) -> (r: String)
    ensures
        r@ == "essentia:"@ + path@,
{
    text::join_two("essentia:", path)
}

/// The analyser's address.
pub open spec fn analyser(cfg: Config) -> Seq<char> {
    text::strip_back(text::trimmed(cfg.essentia_url@), text::among("/"@))
}

/// What is asked of the analyser.
pub open spec fn analysis_body(path: Seq<char>, want: Analysis) -> JsonView {
    JsonView::Object(
        seq![
            ("path"@, JsonView::Str(path)),
            ("genres"@, JsonView::Bool(false)),
            ("moods"@, JsonView::Bool(false)),
            ("structure"@, JsonView::Bool(want.structure)),
            ("chroma"@, JsonView::Bool(want.chords)),
            ("bpm"@, JsonView::Bool(want.bpm)),
        ],
    )
}

/// The question for the analysis of a file; none where nothing is wanted or nobody can be asked.
pub fn analysis_request(cfg: &Config, path: &str, want: Analysis) -> (r: Option<Request>)
    ensures
        ({
            let asked = (want.structure || want.chords || want.bpm) && analyser(*cfg).len() > 0;
            match r {
                Some(q) => asked && q@ == net::posting(
                    analyser(*cfg) + "/analyze"@,
                    seq![("Content-Type"@, "application/json"@)],
                    BodyView::Tree(analysis_body(path@, want)),
                    20_000,
                ),
                None => !asked,
            }
        }),
{
    let base = text::trim_back(text::trim(cfg.essentia_url.as_str()).as_str(), "/");
    if !(want.structure || want.chords || want.bpm) || text::length(base.as_str()) == 0 {
        return None;
    }
    let mut sent = net::no_headers();
    net::put_header(&mut sent, "Content-Type", "application/json");
    assert(organizer::pair_views(sent@) =~= seq![("Content-Type"@, "application/json"@)]);
    let mut body: Vec<(String, Json)> = Vec::new();
    json::put(&mut body, "path", json::string(path));
    json::put(&mut body, "genres", Json::Bool(false));
    json::put(&mut body, "moods", Json::Bool(false));
    json::put(&mut body, "structure", Json::Bool(want.structure));
    json::put(&mut body, "chroma", Json::Bool(want.chords));
    json::put(&mut body, "bpm", Json::Bool(want.bpm));
    proof {
        match analysis_body(path@, want) {
            JsonView::Object(m) => {
                assert(json::members(body@) =~= m);
            },
            _ => {},
        }
    }
    Some(
        net::post(
            text::join_two(base.as_str(), "/analyze"),
            sent,
            Body::Tree(Json::Object(body)),
            20_000,
        ),
    )
}

/// The tempo of an analysis, as the analysis gives it. The sidecar has it with one digit behind
/// the point.
pub fn tempo(data: &Option<Json>) -> (r: Option<String>)
    ensures
        text::view_opt(r) == json::number_text(json::member_opt(json::doc_view(*data), "bpm"@)),
{
    json::number_value(json::get_opt(json::root(data), "bpm"))
}

/// The key of an analysis, with its mode where both are known.
pub open spec fn key_of(data: Option<JsonView>) -> Seq<char> {
    let key = json::text_or_empty(json::member_opt(data, "key"@));
    let mode = json::text_or_empty(json::member_opt(data, "mode"@));
    if key.len() == 0 || mode.len() == 0 {
        key
    } else {
        key + " "@ + mode
    }
}

fn read_key(data: Option<&Json>) -> (r: String)
    ensures
        r@ == key_of(json::shown(data)),
{
    let mut key = json::str_or_empty(json::get_opt(data, "key"));
    let mode = json::str_or_empty(json::get_opt(data, "mode"));
    if text::length(key.as_str()) > 0 && text::length(mode.as_str()) > 0 {
        key.append(" ");
        key.append(mode.as_str());
    }
    key
}

/// The chords among the changes, in their order.
pub open spec fn chords_among(v: Seq<JsonView>) -> Seq<Seq<char>>
    decreases v.len(),
{
    if v.len() == 0 {
        Seq::empty()
    } else {
        match json::string_of(json::member(v.last(), "chord"@)) {
            Some(s) => chords_among(v.drop_last()).push(s),
            None => chords_among(v.drop_last()),
        }
    }
}

/// The chords of an analysis.
pub open spec fn chords_of(data: Option<JsonView>) -> Seq<Seq<char>> {
    chords_among(json::items_of(json::member_opt(json::member_opt(data, "chords"@), "changes"@)))
}

fn read_chords(data: Option<&Json>) -> (r: Vec<String>)
    ensures
        text::views(r@) == chords_of(json::shown(data)),
{
    let mut out: Vec<String> = Vec::new();
    assert(text::views(out@) =~= chords_among(Seq::<JsonView>::empty()));
    let changes = json::get_opt(json::get_opt(data, "chords"), "changes");
    match json::items(changes) {
        Some(a) => {
            let ghost all = json::trees(a@);
            let mut i: usize = 0;
            proof {
                json::trees_index(a@);
                assert(all.take(0) =~= Seq::<JsonView>::empty());
            }
            while i < a.len()
                invariant
                    i <= a@.len(),
                    all == json::trees(a@),
                    all.len() == a@.len(),
                    forall|k: int| 0 <= k < a@.len() ==> all[k] == json::tree(#[trigger] a@[k]),
                    text::views(out@) == chords_among(all.take(i as int)),
                decreases a@.len() - i,
            {
                proof {
                    assert(all.take(i + 1).drop_last() == all.take(i as int));
                    assert(all.take(i + 1).last() == json::tree(a@[i as int]));
                }
                match json::str_value(a[i].get("chord")) {
                    Some(s) => {
                        proof {
                            text::views_push(out@, s);
                        }
                        out.push(s);
                    },
                    None => {},
                }
                i = i + 1;
            }
            assert(all.take(i as int) == all);
        },
        None => {
            assert(json::items_of(json::shown(changes)) =~= Seq::<JsonView>::empty());
        },
    }
    out
}

/// The sections among the values: those with a label and a start, the start as a number's text.
pub open spec fn sections_among(v: Seq<JsonView>) -> Seq<(Seq<char>, Seq<char>)>
    decreases v.len(),
{
    if v.len() == 0 {
        Seq::empty()
    } else {
        match (
            json::string_of(json::member(v.last(), "label"@)),
            json::number_text(json::member(v.last(), "start"@)),
        ) {
            (Some(label), Some(start)) => sections_among(v.drop_last()).push((label, start)),
            _ => sections_among(v.drop_last()),
        }
    }
}

/// The sections of an analysis, each with its start in seconds as the analysis gives it.
pub fn sections(data: &Option<Json>) -> (r: Vec<(String, String)>)
    ensures
        organizer::pair_views(r@) == sections_among(
            json::items_of(json::member_opt(json::doc_view(*data), "structure"@)),
        ),
{
    let mut out = net::no_headers();
    let list = json::get_opt(json::root(data), "structure");
    match json::items(list) {
        Some(a) => {
            let ghost all = json::trees(a@);
            let mut i: usize = 0;
            proof {
                json::trees_index(a@);
                assert(all.take(0) =~= Seq::<JsonView>::empty());
            }
            while i < a.len()
                invariant
                    i <= a@.len(),
                    all == json::trees(a@),
                    all.len() == a@.len(),
                    forall|k: int| 0 <= k < a@.len() ==> all[k] == json::tree(#[trigger] a@[k]),
                    organizer::pair_views(out@) == sections_among(all.take(i as int)),
                decreases a@.len() - i,
            {
                proof {
                    assert(all.take(i + 1).drop_last() == all.take(i as int));
                    assert(all.take(i + 1).last() == json::tree(a@[i as int]));
                }
                let label = json::str_value(a[i].get("label"));
                let start = json::number_value(a[i].get("start"));
                match (label, start) {
                    (Some(l), Some(s)) => {
                        net::put_header(&mut out, l.as_str(), s.as_str());
                    },
                    _ => {},
                }
                i = i + 1;
            }
            assert(all.take(i as int) == all);
        },
        None => {
            assert(json::items_of(json::shown(list)) =~= Seq::<JsonView>::empty());
        },
    }
    out
}

/// A section as the sidecar names it: its label, and its start in whole seconds.
pub open spec fn section_line(s: (Seq<char>, Seq<char>)) -> Seq<char> {
    s.0 + "@"@ + s.1 + "s"@
}

/// The sections as the sidecar names them; their starts come as whole seconds.
pub fn section_lines(rounded: &Vec<(String, String)>) -> (r: Vec<String>)
    ensures
        text::views(r@) == organizer::pair_views(rounded@).map_values(
            |s: (Seq<char>, Seq<char>)| section_line(s),
        ),
{
    let ghost all = organizer::pair_views(rounded@).map_values(
        |s: (Seq<char>, Seq<char>)| section_line(s),
    );
    let mut out: Vec<String> = Vec::new();
    let mut i: usize = 0;
    assert(text::views(out@) =~= all.take(0));
    while i < rounded.len()
        invariant
            i <= rounded@.len(),
            all == organizer::pair_views(rounded@).map_values(
                |s: (Seq<char>, Seq<char>)| section_line(s),
            ),
            text::views(out@) == all.take(i as int),
        decreases rounded@.len() - i,
    {
        let mut line = rounded[i].0.clone();
        line.append("@");
        line.append(rounded[i].1.as_str());
        line.append("s");
        proof {
            text::views_push(out@, line);
            assert(all.take(i + 1) =~= all.take(i as int).push(line@));
        }
        out.push(line);
        i = i + 1;
    }
    assert(all.take(i as int) =~= all);
    out
}

// ---------------------------------------------------------------------------
// The album's sidecar

/// A list of one text, empty where the text is.
pub open spec fn listed(s: Seq<char>) -> Seq<Seq<char>> {
    if s.len() == 0 {
        Seq::empty()
    } else {
        seq![s]
    }
}

fn list_of(s: &String) -> (r: Vec<String>)
    ensures
        text::views(r@) == listed(s@),
{
    let mut out: Vec<String> = Vec::new();
    if text::length(s.as_str()) > 0 {
        out.push(s.clone());
    }
    assert(text::views(out@) =~= listed(s@));
    out
}

/// What the album's sidecar says: the album as its files have it, with its description, what the
/// analysis found, and who worked on it.
pub open spec fn album_sidecar(
    info: InfoView,
    description: Seq<char>,
    data: Option<JsonView>,
    tempo: Option<Seq<char>>,
    structure: Seq<Seq<char>>,
    credits: Seq<(Seq<char>, Seq<char>)>,
) -> AlbumNfoView {
    AlbumNfoView {
        title: info.album,
        album_artists: listed(info.album_artist),
        year: info.year,
        genres: listed(info.genre),
        description,
        bpm: tempo,
        key: key_of(data),
        chords: chords_of(data),
        structure,
        credits,
        ..nfo::empty_album()
    }
}

fn take_credits(credits: &Vec<DiscogsCredit>) -> (r: Vec<NfoCredit>)
    ensures
        nfo::credit_views(r@) == discogs::credit_views(credits@),
{
    let ghost all = discogs::credit_views(credits@);
    let mut out: Vec<NfoCredit> = Vec::new();
    let mut i: usize = 0;
    assert(nfo::credit_views(out@) =~= all.take(0));
    while i < credits.len()
        invariant
            i <= credits@.len(),
            all == discogs::credit_views(credits@),
            nfo::credit_views(out@) == all.take(i as int),
        decreases credits@.len() - i,
    {
        let ghost before = out@;
        out.push(NfoCredit { name: credits[i].name.clone(), role: credits[i].role.clone() });
        proof {
            assert(nfo::credit_views(out@) =~= nfo::credit_views(before).push(all[i as int]));
            assert(all.take(i + 1) =~= all.take(i as int).push(all[i as int]));
        }
        i = i + 1;
    }
    assert(all.take(i as int) =~= all);
    out
}

/// The album's sidecar. `data` is the analysis of the first file, `tempo` its tempo rounded to one
/// digit behind the point, `structure` its sections as they are named here.
pub fn album_nfo(
    info: &AlbumInfo,
    description: String,
    data: &Option<Json>,
    tempo: Option<String>,
    structure: Vec<String>,
    credits: &Vec<DiscogsCredit>,
) -> (r: NfoAlbum)
    ensures
        r@ == album_sidecar(
            info@,
            description@,
            json::doc_view(*data),
            text::view_opt(tempo),
            text::views(structure@),
            discogs::credit_views(credits@),
        ),
{
    let root = json::root(data);
    let mut n = NfoAlbum::default();
    n.title = info.album.clone();
    n.album_artists = list_of(&info.album_artist);
    n.year = info.year;
    n.genres = list_of(&info.genre);
    n.description = description;
    n.bpm = tempo;
    n.key = read_key(root);
    n.chords = read_chords(root);
    n.structure = structure;
    n.credits = take_credits(credits);
    n
}

// ---------------------------------------------------------------------------
// The artist's sidecar

/// What the artist's sidecar says: name, genre and similar artists anew, the rest as it was.
pub open spec fn artist_sidecar(
    info: InfoView,
    similar: Seq<Seq<char>>,
    existing: ArtistNfoView,
) -> ArtistNfoView {
    ArtistNfoView {
        name: info.album_artist,
        genres: listed(info.genre),
        similar_artists: similar,
        ..existing
    }
}

/// The folder of the artist's sidecar, and what it says; none without an artist or a folder.
pub fn artist_nfo(
    info: &AlbumInfo,
    target_dir: &str,
    similar: Vec<String>,
    existing: Option<NfoArtist>,
) -> (r: Option<(String, NfoArtist)>)
    ensures
        ({
            let wanted = target_dir@.len() > 0 && text::trimmed(info.album_artist@).len() > 0;
            match r {
                Some(p) => wanted && p.0@ == organizer::joined_rel(
                    organizer::parent(target_dir@),
                    "artist.nfo"@,
                ) && p.1@ == artist_sidecar(
                    info@,
                    text::views(similar@),
                    match organizer::artist_view(existing) {
                        Some(v) => v,
                        None => nfo::empty_artist(),
                    },
                ),
                None => !wanted,
            }
        }),
{
    if text::length(target_dir) == 0 || text::length(
        text::trim(info.album_artist.as_str()).as_str(),
    ) == 0 {
        return None;
    }
    let path = organizer::join_rel(organizer::parent_of(target_dir).as_str(), "artist.nfo");
    let mut n = match existing {
        Some(v) => v,
        None => NfoArtist::default(),
    };
    n.name = info.album_artist.clone();
    n.genres = list_of(&info.genre);
    n.similar_artists = similar;
    Some((path, n))
}

// ---------------------------------------------------------------------------
// Laws

/// Writing the artist's sidecar again keeps what others put there.
pub proof fn foreign_fields_stay(info: InfoView, similar: Seq<Seq<char>>, existing: ArtistNfoView)
    ensures
        artist_sidecar(info, similar, existing).biography == existing.biography,
        artist_sidecar(info, similar, existing).mbid == existing.mbid,
        artist_sidecar(info, similar, existing).styles == existing.styles,
        artist_sidecar(info, similar, existing).moods == existing.moods,
        artist_sidecar(info, similar, artist_sidecar(info, similar, existing)) == artist_sidecar(
            info,
            similar,
            existing,
        ),
{
}

// ---------------------------------------------------------------------------
// Genres and likeness of the sound

/// The question for the genres and moods of a file; none where nobody can be asked.
pub fn genres_request(cfg: &Config, path: &str) -> (r: Option<Request>)
    ensures
        match r {
            Some(q) => analyser(*cfg).len() > 0 && q@ == net::posting(
                analyser(*cfg) + "/analyze"@,
                seq![("Content-Type"@, "application/json"@)],
                BodyView::Tree(genres_body(path@)),
                20_000,
            ),
            None => analyser(*cfg).len() == 0,
        },
{
    let base = text::trim_back(text::trim(cfg.essentia_url.as_str()).as_str(), "/");
    if text::length(base.as_str()) == 0 {
        return None;
    }
    let mut sent = net::no_headers();
    net::put_header(&mut sent, "Content-Type", "application/json");
    assert(organizer::pair_views(sent@) =~= seq![("Content-Type"@, "application/json"@)]);
    let mut body: Vec<(String, Json)> = Vec::new();
    json::put(&mut body, "path", json::string(path));
    json::put(&mut body, "genres", Json::Bool(true));
    json::put(&mut body, "moods", Json::Bool(true));
    proof {
        match genres_body(path@) {
            JsonView::Object(m) => {
                assert(json::members(body@) =~= m);
            },
            _ => {},
        }
    }
    Some(
        net::post(
            text::join_two(base.as_str(), "/analyze"),
            sent,
            Body::Tree(Json::Object(body)),
            20_000,
        ),
    )
}

pub open spec fn genres_body(path: Seq<char>) -> JsonView {
    JsonView::Object(
        seq![
            ("path"@, JsonView::Str(path)),
            ("genres"@, JsonView::Bool(true)),
            ("moods"@, JsonView::Bool(true)),
        ],
    )
}

pub open spec fn compare_body(a: Seq<char>, b: Seq<char>) -> JsonView {
    JsonView::Object(seq![("path_a"@, JsonView::Str(a)), ("path_b"@, JsonView::Str(b))])
}

/// The question how alike two files sound; none where nobody can be asked.
pub fn compare_request(cfg: &Config, a: &str, b: &str) -> (r: Option<Request>)
    ensures
        match r {
            Some(q) => analyser(*cfg).len() > 0 && q@ == net::posting(
                analyser(*cfg) + "/compare"@,
                seq![("Content-Type"@, "application/json"@)],
                BodyView::Tree(compare_body(a@, b@)),
                30_000,
            ),
            None => analyser(*cfg).len() == 0,
        },
{
    let base = text::trim_back(text::trim(cfg.essentia_url.as_str()).as_str(), "/");
    if text::length(base.as_str()) == 0 {
        return None;
    }
    let mut sent = net::no_headers();
    net::put_header(&mut sent, "Content-Type", "application/json");
    assert(organizer::pair_views(sent@) =~= seq![("Content-Type"@, "application/json"@)]);
    let mut body: Vec<(String, Json)> = Vec::new();
    json::put(&mut body, "path_a", json::string(a));
    json::put(&mut body, "path_b", json::string(b));
    proof {
        match compare_body(a@, b@) {
            JsonView::Object(m) => {
                assert(json::members(body@) =~= m);
            },
            _ => {},
        }
    }
    Some(
        net::post(
            text::join_two(base.as_str(), "/compare"),
            sent,
            Body::Tree(Json::Object(body)),
            30_000,
        ),
    )
}

/// What is said of files that sound alike: all pairs under one heading, nothing where there are
/// none.
pub fn likeness_message(same: bool, pairs: &Vec<String>) -> (r: Option<String>)
    ensures
        match r {
            Some(s) => pairs@.len() > 0 && s@ == (if same {
                "nd-organizer: Essentia duplicate audio:\n  "@
            } else {
                "nd-organizer: Essentia possible covers:\n  "@
            }) + text::joined(text::views(pairs@), "\n  "@),
            None => pairs@.len() == 0,
        },
{
    if pairs.len() == 0 {
        return None;
    }
    let mut s = text::copy(
        if same {
            "nd-organizer: Essentia duplicate audio:\n  "
        } else {
            "nd-organizer: Essentia possible covers:\n  "
        },
    );
    s.append(text::join(pairs, "\n  ").as_str());
    Some(s)
}

} // verus!
