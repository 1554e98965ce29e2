//! Pictures of albums: where they come from and where they go.

use crate::config::Config;
use crate::net;
use crate::net::{CircuitOp, Request};
use crate::organizer;
use crate::text;
use vstd::prelude::*;

verus! {

/// The kind of a picture.
#[derive(Debug, Clone, Copy, PartialEq, Eq, Structural)]
pub enum ArtKind {
    Front,
    Back,
    Cd,
    Booklet,
}

impl ArtKind {
    /// The word for the kind at the Cover Art Archive.
    pub open spec fn word(self) -> Seq<char> {
        match self {
            ArtKind::Front => "front"@,
            ArtKind::Back => "back"@,
            ArtKind::Cd => "cd"@,
            ArtKind::Booklet => "booklet"@,
        }
    }

    pub fn slug(self) -> (r: &'static str)
        ensures
            r@ == self.word(),
    {
        match self {
            ArtKind::Front => "front",
            ArtKind::Back => "back",
            ArtKind::Cd => "cd",
            ArtKind::Booklet => "booklet",
        }
    }
}

/// The format of a picture.
#[derive(Debug, Clone, Copy, PartialEq, Eq, Structural)]
pub enum ImageType {
    Png,
    Jpeg,
}

/// The first bytes of a PNG file.
pub open spec fn starts_as_png(bytes: Seq<u8>) -> bool {
    bytes.len() >= 4 && bytes[0] == 0x89 && bytes[1] == 0x50 && bytes[2] == 0x4e && bytes[3] == 0x47
}

/// The format of a picture by its first bytes: PNG, or else JPEG.
pub fn sniff_mime(bytes: &[u8]) -> (r: ImageType)
    ensures
        r == if starts_as_png(bytes@) {
            ImageType::Png
        } else {
            ImageType::Jpeg
        },
{
    if bytes.len() >= 4 && bytes[0] == 0x89 && bytes[1] == 0x50 && bytes[2] == 0x4e && bytes[3]
        == 0x47 {
        ImageType::Png
    } else {
        ImageType::Jpeg
    }
}

// ---------------------------------------------------------------------------
// The Cover Art Archive

/// The key under which a picture is kept, and the question for it; none without a release.
pub fn fetch(release_mbid: &str, kind: ArtKind) -> (r: Option<(String, Request)>)
    ensures
        match r {
            Some(p) => {
                let mbid = text::trimmed(release_mbid@);
                &&& mbid.len() > 0
                &&& p.0@ == "art:"@ + mbid + ":"@ + kind.word()
                &&& p.1@ == net::asking(
                    "https://coverartarchive.org/release/"@ + mbid + "/"@ + kind.word(),
                    seq![
                        (
                            "User-Agent"@,
                            "nd-organizer/0.1 (https://github.com/lunatixz/nd-organizer)"@,
                        ),
                    ],
                    15_000,
                )
            },
            None => text::trimmed(release_mbid@).len() == 0,
        },
{
    let mbid = text::trim(release_mbid);
    if text::length(mbid.as_str()) == 0 {
        return None;
    }
    let mut key = text::copy("art:");
    key.append(mbid.as_str());
    key.append(":");
    key.append(kind.slug());
    let mut q = text::copy("https://coverartarchive.org/release/");
    q.append(mbid.as_str());
    q.append("/");
    q.append(kind.slug());
    let mut sent = net::no_headers();
    net::put_header(
        &mut sent,
        "User-Agent",
        "nd-organizer/0.1 (https://github.com/lunatixz/nd-organizer)",
    );
    assert(organizer::pair_views(sent@) =~= seq![
        ("User-Agent"@, "nd-organizer/0.1 (https://github.com/lunatixz/nd-organizer)"@),
    ]);
    Some((key, net::ask(q, sent, 15_000)))
}

/// A picture came: an answer with status 200 that is not empty.
pub open spec fn came(answer: Option<(i32, Vec<u8>)>) -> bool {
    answer matches Some(a) && a.0 == 200 && a.1@.len() > 0
}

/// The picture of an answer, and what becomes of the circuit. `missing_is_fine` tells whether
/// "not found" leaves the circuit alone.
pub fn fetched(answer: Option<(i32, Vec<u8>)>, missing_is_fine: bool) -> (r: (
    Option<Vec<u8>>,
    CircuitOp,
))
    ensures
        match r.0 {
            Some(bytes) => came(answer) && answer == Some((200i32, bytes)),
            None => !came(answer),
        },
        r.1 == if came(answer) {
            CircuitOp::Clear
        } else if missing_is_fine && (answer matches Some(a) && a.0 == 404) {
            CircuitOp::Keep
        } else {
            CircuitOp::MarkFailed
        },
{
    match answer {
        Some((status, bytes)) => if status == 200 && bytes.len() > 0 {
            (Some(bytes), CircuitOp::Clear)
        } else if missing_is_fine && status == 404 {
            (None, CircuitOp::Keep)
        } else {
            (None, CircuitOp::MarkFailed)
        },
        None => (None, CircuitOp::MarkFailed),
    }
}

// ---------------------------------------------------------------------------
// Sources

/// Where a picture can come from.
#[derive(Debug, Clone, Copy, PartialEq, Eq, Structural)]
pub enum ArtSource {
    CoverArtArchive,
    AppleMusic,
    TheAudioDb,
}

impl ArtSource {
    pub open spec fn label(self) -> Seq<char> {
        match self {
            ArtSource::CoverArtArchive => "coverartarchive"@,
            ArtSource::AppleMusic => "applemusic"@,
            ArtSource::TheAudioDb => "theaudiodb"@,
        }
    }

    pub fn name(self) -> (r: &'static str)
        ensures
            r@ == self.label(),
    {
        match self {
            ArtSource::CoverArtArchive => "coverartarchive",
            ArtSource::AppleMusic => "applemusic",
            ArtSource::TheAudioDb => "theaudiodb",
        }
    }
}

/// The order in which sources are tried: the chosen one first. Where pictures stay as they are
/// in the files, none is.
pub open spec fn source_order(chosen: Seq<char>) -> Seq<ArtSource> {
    if chosen == "applemusic"@ {
        seq![ArtSource::AppleMusic, ArtSource::CoverArtArchive, ArtSource::TheAudioDb]
    } else if chosen == "theaudiodb"@ {
        seq![ArtSource::TheAudioDb, ArtSource::CoverArtArchive, ArtSource::AppleMusic]
    } else if chosen == "embedded"@ {
        Seq::empty()
    } else {
        seq![ArtSource::CoverArtArchive, ArtSource::AppleMusic, ArtSource::TheAudioDb]
    }
}

/// A source that can be asked: the archive by a release, Apple Music where it is switched on,
/// TheAudioDB with a key.
pub open spec fn usable(source: ArtSource, has_release: bool, apple: bool, has_key: bool) -> bool {
    match source {
        ArtSource::CoverArtArchive => has_release,
        ArtSource::AppleMusic => apple,
        ArtSource::TheAudioDb => has_key,
    }
}

pub open spec fn usable_of(
    sources: Seq<ArtSource>,
    has_release: bool,
    apple: bool,
    has_key: bool,
) -> Seq<ArtSource>
    decreases sources.len(),
{
    if sources.len() == 0 {
        Seq::empty()
    } else if usable(sources.last(), has_release, apple, has_key) {
        usable_of(sources.drop_last(), has_release, apple, has_key).push(sources.last())
    } else {
        usable_of(sources.drop_last(), has_release, apple, has_key)
    }
}

fn ordered(chosen: &str) -> (r: Vec<ArtSource>)
    ensures
        r@ == source_order(chosen@),
{
    let mut out: Vec<ArtSource> = Vec::new();
    if text::same(chosen, "applemusic") {
        out.push(ArtSource::AppleMusic);
        out.push(ArtSource::CoverArtArchive);
        out.push(ArtSource::TheAudioDb);
    } else if text::same(chosen, "theaudiodb") {
        out.push(ArtSource::TheAudioDb);
        out.push(ArtSource::CoverArtArchive);
        out.push(ArtSource::AppleMusic);
    } else if !text::same(chosen, "embedded") {
        out.push(ArtSource::CoverArtArchive);
        out.push(ArtSource::AppleMusic);
        out.push(ArtSource::TheAudioDb);
    }
    assert(out@ =~= source_order(chosen@));
    out
}

/// The sources to try, one after the other until one has a picture.
pub fn fetch_with_fallback(chosen: &str, has_release: bool, apple: bool, audiodb_key: &str) -> (r:
    Vec<ArtSource>)
    ensures
        r@ == usable_of(source_order(chosen@), has_release, apple, audiodb_key@.len() > 0),
{
    let has_key = text::length(audiodb_key) > 0;
    let all = ordered(chosen);
    let ghost order = all@;
    let mut out: Vec<ArtSource> = Vec::new();
    let mut i: usize = 0;
    assert(order.take(0) =~= Seq::<ArtSource>::empty());
    while i < all.len()
        invariant
            i <= all@.len(),
            order == all@,
            out@ == usable_of(order.take(i as int), has_release, apple, has_key),
        decreases all@.len() - i,
    {
        proof {
            assert(order.take(i + 1).drop_last() == order.take(i as int));
            assert(order.take(i + 1).last() == order[i as int]);
        }
        let source = all[i];
        let fine: bool = match source {
            ArtSource::CoverArtArchive => has_release,
            ArtSource::AppleMusic => apple,
            ArtSource::TheAudioDb => has_key,
        };
        if fine {
            out.push(source);
        }
        i = i + 1;
    }
    assert(order.take(i as int) == order);
    out
}

// ---------------------------------------------------------------------------
// Where the picture goes

/// Whether the picture is put into the files: where that is wanted, and the first file has none
/// or pictures may be replaced.
pub fn embeds(cfg: &Config, first_has_picture: bool) -> (r: bool)
    ensures
        r == (cfg.embed_artwork && (cfg.overwrite_art || !first_has_picture)),
{
    cfg.embed_artwork && (cfg.overwrite_art || !first_has_picture)
}

/// Whether `cover.jpg` counts as written: where that is wanted, and there is none or pictures may
/// be replaced. A `cover.jpg` that is there stays as it is.
pub fn write_sidecar(cfg: &Config, there_is_one: bool) -> (r: (bool, bool))
    ensures
        r.0 == (cfg.write_cover_jpg && (cfg.overwrite_art || !there_is_one)),
        r.1 == (r.0 && !there_is_one),
{
    let counts = cfg.write_cover_jpg && (cfg.overwrite_art || !there_is_one);
    (counts, counts && !there_is_one)
}

pub open spec fn report_of(source: ArtSource, embedded: int, sidecar: bool) -> Option<Seq<char>> {
    if embedded > 0 || sidecar {
        Some(
            "artwork: "@ + source.label() + " → "@ + text::decimal(embedded as nat) + " image(s)"@
                + (if sidecar {
                " + cover.jpg"@
            } else {
                ""@
            }),
        )
    } else {
        None
    }
}

/// What is said of pictures that were put somewhere.
pub fn art_report(source: ArtSource, embedded: usize, sidecar: bool) -> (r: Option<String>)
    ensures
        text::view_opt(r) == report_of(source, embedded as int, sidecar),
{
    if embedded == 0 && !sidecar {
        return None;
    }
    let mut out = text::copy("artwork: ");
    out.append(source.name());
    out.append(" → ");
    out.append(text::format_nat(embedded as u64).as_str());
    out.append(" image(s)");
    out.append(
        if sidecar {
            " + cover.jpg"
        } else {
            ""
        },
    );
    Some(out)
}

// ---------------------------------------------------------------------------
// Laws

/// Whatever source is chosen, each source that can be asked is tried once, the chosen one first;
/// where pictures stay as they are in the files, none is.
pub proof fn every_usable_source_is_tried(
    chosen: Seq<char>,
    source: ArtSource,
    has_release: bool,
    apple: bool,
    has_key: bool,
)
    requires
        chosen != "embedded"@,
    ensures
        usable_of(source_order(chosen), has_release, apple, has_key).contains(source) == usable(
            source,
            has_release,
            apple,
            has_key,
        ),
        usable_of(source_order(chosen), has_release, apple, has_key).no_duplicates(),
        source.label() == chosen && usable(source, has_release, apple, has_key)
            ==> usable_of(source_order(chosen), has_release, apple, has_key)[0] == source,
{
    let order = source_order(chosen);
    let tried = usable_of(order, has_release, apple, has_key);
    reveal_with_fuel(usable_of, 4);
    reveal_strlit("coverartarchive");
    reveal_strlit("applemusic");
    reveal_strlit("theaudiodb");
    assert("coverartarchive"@[0] == 'c' && "applemusic"@[0] == 'a' && "theaudiodb"@[0] == 't');
    let (a, b, c) = (order[0], order[1], order[2]);
    assert(order =~= seq![a, b, c]);
    assert(order.drop_last() =~= seq![a, b]);
    assert(order.drop_last().drop_last() =~= seq![a]);
    assert(order.drop_last().drop_last().drop_last() =~= Seq::<ArtSource>::empty());
    let fine = |s: ArtSource| usable(s, has_release, apple, has_key);
    let first = if fine(a) {
        seq![a]
    } else {
        Seq::<ArtSource>::empty()
    };
    let second = if fine(b) {
        first.push(b)
    } else {
        first
    };
    let third = if fine(c) {
        second.push(c)
    } else {
        second
    };
    assert(usable_of(seq![a], has_release, apple, has_key) =~= first);
    assert(usable_of(seq![a, b], has_release, apple, has_key) =~= second);
    assert(tried =~= third);
    assert(source == a || source == b || source == c);
    if fine(source) {
        let at: int = if source == a {
            0
        } else if source == b {
            first.len() as int
        } else {
            second.len() as int
        };
        assert(tried[at] == source);
    }
}

} // verus!
