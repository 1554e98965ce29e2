//! Which files are trusted, and what marks a recording.

use crate::config::Config;
use crate::fraction::Fraction;
use crate::identity;
use crate::organizer;
use crate::organizer::{Disk, MoveView};
use crate::pairing;
use crate::tags;
use crate::tags::{Recording, TagItem, TagsView};
use crate::text;
use vstd::prelude::*;

verus! {

// ---------------------------------------------------------------------------
// Trust

/// The signs of identity rank: a MusicBrainz id of the album together with one of the recording or the
/// artist is full certainty; any one of these ids counts nine tenths; a recording code alone seventeen
/// twentieths; and a file without any of them reaches no more than a fifth. Names do not count.
pub proof fn signs_of_identity_rank(t: TagsView)
    ensures
        ({
            let filled = |s: Seq<char>| text::trimmed(s).len() > 0;
            let score = identity::scored(t, None);
            let ids = filled(t.mbid_album) || filled(t.mbid_recording) || filled(t.mbid_artist);
            &&& score.num == score.den <==> filled(t.mbid_album) && (filled(t.mbid_recording) || filled(
                t.mbid_artist,
            ))
            &&& score.num < score.den && ids ==> 10 * score.num == 9 * score.den
            &&& !ids && filled(t.isrc) ==> 20 * score.num == 17 * score.den
            &&& !ids && !filled(t.isrc) ==> 5 * score.num == score.den
            &&& score.den > 0
        }),
{
}

/// A matching fingerprint counts a half, and half of how sure the match is, for a file that carries no
/// sign of its own; one that carries a sign is judged by that alone.
pub proof fn fingerprints_count_half(t: TagsView, sure: Fraction)
    requires
        sure.wf(),
        0 <= sure.num <= sure.den,
        2 * sure.den <= i64::MAX,
    ensures
        ({
            let filled = |s: Seq<char>| text::trimmed(s).len() > 0;
            let signed = filled(t.mbid_album) || filled(t.mbid_recording) || filled(t.mbid_artist) || filled(
                t.isrc,
            );
            let score = identity::scored(t, Some(sure));
            &&& signed ==> score == identity::scored(t, None)
            &&& !signed ==> 2 * score.num * sure.den == score.den * (sure.den + sure.num)
        }),
{
    let d = sure.den as int;
    let n = sure.num as int;
    assert(2 * (d + n) * d == (2 * d) * (d + n)) by (nonlinear_arith);
    if n == 0 {
        assert(2 * (1 + 0) * d == 2 * (d + 0)) by (nonlinear_arith);
    }
    if n >= d {
        assert(2 * (1 + 1) * d == 2 * (d + d)) by (nonlinear_arith);
    }
}

/// A file is paired to its album where its score reaches the threshold, and also where files are not
/// checked at all, or where those that are not sure are organized all the same.
pub proof fn sure_files_are_paired(cfg: Config, t: TagsView, floor: Fraction)
    requires
        floor.wf(),
        0 < floor.num <= floor.den,
    ensures
        ({
            let s = identity::scored(t, None);
            let reached = s.num * floor.den >= floor.num * s.den;
            pairing::paired(cfg, t, floor) <==> !cfg.verify_identity || !cfg.skip_unverified
                || reached
        }),
{
    let s = identity::scored(t, None);
    if floor.num >= floor.den {
        assert(floor.num == floor.den);
        assert(s.num * floor.den >= floor.num * s.den <==> s.num >= s.den) by (nonlinear_arith)
            requires
                floor.num == floor.den,
                floor.den > 0,
        ;
    }
}

/// The files of a group are parted into those that are paired to the album and those that are not; all
/// of them, each in its part and in its order.
pub proof fn files_are_parted(files: Seq<(Seq<char>, TagsView)>, cfg: Config, floor: Fraction)
    ensures
        pairing::sure_files(files, cfg, floor) == files.filter(
            |f: (Seq<char>, TagsView)| pairing::paired(cfg, f.1, floor),
        ),
        pairing::unsure_files(files, cfg, floor) == files.filter(
            |f: (Seq<char>, TagsView)| !pairing::paired(cfg, f.1, floor),
        ),
    decreases files.len(),
{
    reveal(Seq::filter);
    if files.len() > 0 {
        files_are_parted(files.drop_last(), cfg, floor);
    } else {
        assert(pairing::sure_files(files, cfg, floor) =~= Seq::empty());
        assert(pairing::unsure_files(files, cfg, floor) =~= Seq::empty());
    }
}

/// A file that is paired to no album goes to the singles of its album artist, or else of its artist,
/// unless it lies there already: one more such file is one more move, to a place that no earlier one
/// takes.
pub proof fn unsure_files_are_routed(
    files: Seq<(Seq<char>, TagsView)>,
    f: (Seq<char>, TagsView),
    cfg: Config,
    disk: Disk,
    held: Seq<Seq<char>>,
)
    ensures
        ({
            let before = pairing::routes(files, cfg, disk, held);
            let after = pairing::routes(files.push(f), cfg, disk, held);
            let artist = if text::trimmed(f.1.album_artist).len() > 0 {
                f.1.album_artist
            } else {
                f.1.artist
            };
            if organizer::parent(f.0) == organizer::singles_dir(cfg, artist) {
                after == before
            } else {
                &&& after.len() == before.len() + 1
                &&& after.drop_last() == before
                &&& after.last().from == f.0
                &&& after.last().to == organizer::single_target(
                    cfg,
                    held + before.map_values(|m: MoveView| m.to),
                    artist,
                    f.1.album,
                    f.0,
                )
                &&& after.last().sidecars == if cfg.rename_sidecars {
                    organizer::companions(
                        disk.names(organizer::parent(f.0)),
                        organizer::stem(organizer::last_part(f.0)),
                    )
                } else {
                    Seq::empty()
                }
            }
        }),
{
    assert(files.push(f).drop_last() =~= files);
    let before = pairing::routes(files, cfg, disk, held);
    assert(pairing::ends(before) =~= before.map_values(|m: MoveView| m.to));
    let after = pairing::routes(files.push(f), cfg, disk, held);
    if !pairing::is_single(cfg, f) {
        assert(after.drop_last() =~= before);
    }
}

// ---------------------------------------------------------------------------
// Recordings

/// A track is a bootleg where its genre, its title, its album or a marker of its own says so; it is
/// live where its genre says so, its title or album says so in brackets or as a word, or a marker
/// does, and nothing says bootleg; and it is from the studio where nothing says either.
pub proof fn recordings_are_marked(
    items: Seq<TagItem>,
    title: Seq<char>,
    album: Seq<char>,
    genre: Seq<char>,
)
    ensures
        ({
            let low = |s: Seq<char>| text::lowered(s);
            let on = |v: Seq<char>|
                {
                    let w = text::lowered(text::trimmed(v));
                    w.len() == 0 || w == "1"@ || w == "true"@ || w == "yes"@ || w == "y"@ || w
                        == "live"@ || w == "bootleg"@
                };
            let boot = text::has(low(genre), "bootleg"@) || text::has(low(title), "bootleg"@)
                || text::has(low(album), "bootleg"@) || exists|i: int|
                0 <= i < items.len() && text::has(low((#[trigger] items[i]).key@), "bootleg"@) && on(
                    items[i].value@,
                );
            let said = |s: Seq<char>|
                text::has(low(s), "(live"@) || text::has(low(s), "[live"@) || text::has(
                    low(s),
                    "live at"@,
                ) || text::has(low(s), " live "@);
            let live = text::has(low(genre), "live"@) || said(title) || said(album) || exists|i: int|
                0 <= i < items.len() && text::has(low((#[trigger] items[i]).key@), "live"@)
                    && !text::has(low(items[i].key@), "bootleg"@) && on(items[i].value@);
            tags::recording_of(items, title, album, genre) == if boot {
                Recording::Bootleg
            } else if live {
                Recording::Live
            } else {
                Recording::Studio
            }
        }),
{
    if exists|i: int| 0 <= i < items.len() && tags::bootleg_item(#[trigger] items[i]) {
        let i = choose|i: int| 0 <= i < items.len() && tags::bootleg_item(#[trigger] items[i]);
        assert(text::has(text::lowered(items[i].key@), "bootleg"@));
    }
    if exists|i: int| 0 <= i < items.len() && tags::live_item(#[trigger] items[i]) {
        let i = choose|i: int| 0 <= i < items.len() && tags::live_item(#[trigger] items[i]);
        assert(text::has(text::lowered(items[i].key@), "live"@));
    }
    assert forall|i: int| 0 <= i < items.len() implies tags::bootleg_item(#[trigger] items[i]) == (
    text::has(text::lowered(items[i].key@), "bootleg"@) && tags::truthy(items[i].value@)) by {}
    assert forall|i: int| 0 <= i < items.len() implies tags::live_item(#[trigger] items[i]) == (
    text::has(text::lowered(items[i].key@), "live"@) && !text::has(
        text::lowered(items[i].key@),
        "bootleg"@,
    ) && tags::truthy(items[i].value@)) by {}
}

// ---------------------------------------------------------------------------
// Writing tags

/// A tag that is empty is filled, one that holds something else is changed only where tags may be
/// overwritten, and one that says it already is left alone.
pub proof fn tags_are_filled_before_they_are_changed(
    key: Seq<char>,
    existing: Seq<char>,
    value: Seq<char>,
    overwrite: bool,
)
    ensures
        existing == value ==> tags::due(true, key, existing, value, overwrite).len() == 0,
        existing.len() == 0 && value.len() > 0 ==> tags::due(true, key, existing, value, overwrite)
            == seq![(key, value)],
        existing.len() > 0 && existing != value ==> tags::due(true, key, existing, value, overwrite)
            == if overwrite {
            seq![(key, value)]
        } else {
            Seq::empty()
        },
        tags::due(false, key, existing, value, overwrite).len() == 0,
{
}

/// Stars in words: two half stars are a whole one, and an odd one shows as a half.
pub proof fn half_stars_show(half: nat)
    ensures
        half % 2 == 0 ==> tags::stars_shown(half as int) == text::decimal((half / 2) as nat),
        half % 2 == 1 ==> tags::stars_shown(half as int) == text::decimal((half / 2) as nat) + seq![
            '.',
            '5',
        ],
{
    reveal_strlit(".5");
    assert(".5"@ =~= seq!['.', '5']);
}

} // verus!
