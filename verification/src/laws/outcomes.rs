//! What comes out of a run: albums, rows, and the files that were not sure.

use crate::config::Config;
use crate::fraction::Fraction;
use crate::identity;
use crate::laws::paths_and_names::{joined_paths_come_apart, names_are_stem_and_extension};
use crate::lyrics;
use crate::nfo::{AlbumNfoView, ArtistNfoView};
use crate::organizer;
use crate::organizer::{Disk, InfoView};
use crate::pairing;
use crate::ratings;
use crate::ratings::Migration;
use crate::stats;
use crate::stats::TallyView;
use crate::tags::TagsView;
use crate::text;
use vstd::prelude::*;

verus! {

// ---------------------------------------------------------------------------
// Albums

/// Small albums come before large ones, and albums of one size in the order of their first files.
pub proof fn small_albums_come_first(files: Seq<(Seq<char>, TagsView)>, i: int, j: int)
    requires
        0 <= i < j < organizer::grouped(files).len(),
    ensures
        ({
            let a = organizer::grouped(files)[i];
            let b = organizer::grouped(files)[j];
            &&& a.len() <= b.len()
            &&& a.len() == b.len() ==> !crate::order::text_before(b[0], a[0])
        }),
{
    organizer::groups_are_sorted(files);
    let all = organizer::grouped(files);
    assert(!organizer::group_before()(all[j], all[i]));
}

/// The genre of an album without one is the first genre of its sidecar, else its first style, else its
/// first mood; and so for the artist's.
pub proof fn genres_come_from_sidecars(i: InfoView, n: AlbumNfoView, m: ArtistNfoView)
    requires
        i.genre.len() == 0,
    ensures
        n.genres.len() > 0 ==> organizer::with_album_nfo(i, n).genre == n.genres[0],
        n.genres.len() == 0 && n.styles.len() > 0 ==> organizer::with_album_nfo(i, n).genre
            == n.styles[0],
        n.genres.len() == 0 && n.styles.len() == 0 && n.moods.len() > 0 ==> organizer::with_album_nfo(
            i,
            n,
        ).genre == n.moods[0],
        m.genres.len() > 0 ==> organizer::with_artist_nfo(i, m).genre == m.genres[0],
        m.genres.len() == 0 && m.styles.len() > 0 ==> organizer::with_artist_nfo(i, m).genre
            == m.styles[0],
        m.genres.len() == 0 && m.styles.len() == 0 && m.moods.len() > 0
            ==> organizer::with_artist_nfo(i, m).genre == m.moods[0],
{
}

/// What is known already stays, whatever a sidecar says.
pub proof fn what_is_known_stays(i: InfoView, n: AlbumNfoView, m: ArtistNfoView, folder: Seq<char>)
    ensures
        ({
            let a = organizer::with_album_nfo(i, n);
            let b = organizer::with_artist_nfo(i, m);
            let c = organizer::with_fallbacks(i, folder);
            &&& i.album.len() > 0 ==> a.album == i.album && c.album == i.album
            &&& b.album == i.album && b.year == i.year && c.year == i.year && c.genre == i.genre
            &&& i.album_artist.len() > 0 ==> a.album_artist == i.album_artist && b.album_artist
                == i.album_artist && c.album_artist == i.album_artist
            &&& i.year is Some ==> a.year == i.year
            &&& i.genre.len() > 0 ==> a.genre == i.genre && b.genre == i.genre
        }),
{
}

/// The words of a song are written beside it: in its folder, under its name, with their own ending.
pub proof fn words_lie_beside_the_song(
    dir: Seq<char>,
    stem: Seq<char>,
    ext: Seq<char>,
    ending: Seq<char>,
)
    requires
        dir.len() > 0,
        stem.len() > 0,
        !stem.contains('/') && !ext.contains('/'),
        !ext.contains('.'),
    ensures
        lyrics::with_extension(dir + seq!['/'] + (stem + seq!['.'] + ext), ending) == dir + seq!['/']
            + (stem + seq!['.'] + ending),
{
    let name = stem + seq!['.'] + ext;
    assert(!name.contains('/')) by {
        if name.contains('/') {
            let i = name.index_of('/');
            if i < stem.len() {
                assert(stem[i] == '/');
            } else if i > stem.len() {
                assert(ext[i - stem.len() - 1] == '/');
            }
        }
    }
    joined_paths_come_apart(dir, name);
    names_are_stem_and_extension(name);
    assert(name[stem.len() as int] == '.');
    assert(name.contains('.'));
    let other = choose|e: Seq<char>|
        name == organizer::stem(name) + seq!['.'] + e && !e.contains('.') && organizer::extension(name)
            == #[trigger] text::lowered(e);
    crate::laws::pieces::last_cut(stem, ext, organizer::stem(name), other, '.');
    reveal_strlit("/");
    reveal_strlit(".");
    assert("/"@ =~= seq!['/']);
    assert("."@ =~= seq!['.']);
}

// ---------------------------------------------------------------------------
// Files that are not sure

/// The plan for a group moves what its sure files ask for and what its other files ask for, names all
/// of the others, and has no folder where no file is sure.
pub proof fn unsure_files_are_named(
    files: Seq<(Seq<char>, TagsView)>,
    cfg: Config,
    floor: Fraction,
    hint: Seq<char>,
    release_type: Seq<char>,
    disk: Disk,
)
    ensures
        ({
            let sure = files.filter(
                |f: (Seq<char>, TagsView)| pairing::paired(cfg, f.1, floor),
            );
            let unsure = files.filter(
                |f: (Seq<char>, TagsView)| !pairing::paired(cfg, f.1, floor),
            );
            let p = organizer::group_plan(sure, cfg, hint, release_type, disk);
            let all = pairing::checked_plan(files, cfg, floor, hint, release_type, disk);
            &&& all.unverified == unsure.map_values(|f: (Seq<char>, TagsView)| f.0)
            &&& sure.len() == 0 ==> all.target_dir.len() == 0
            &&& sure.len() > 0 ==> all.target_dir == p.target_dir
            &&& all.moves.take(p.moves.len() as int) == p.moves
            &&& all.duplicates == p.duplicates && all.skipped == p.skipped && all.bucket == p.bucket
        }),
{
    crate::laws::trust::files_are_parted(files, cfg, floor);
    let unsure = pairing::unsure_files(files, cfg, floor);
    let sure = pairing::sure_files(files, cfg, floor);
    assert(organizer::group_sources(unsure) =~= unsure.map_values(
        |f: (Seq<char>, TagsView)| f.0,
    ));
    let p = organizer::group_plan(sure, cfg, hint, release_type, disk);
    let all = pairing::checked_plan(files, cfg, floor, hint, release_type, disk);
    assert(all.moves.take(p.moves.len() as int) =~= p.moves);
}

/// A file carries an identifier where one of its ids or its recording code says something.
pub proof fn ids_and_codes_identify(t: TagsView)
    ensures
        identity::identified(t) <==> text::trimmed(t.mbid_album).len() > 0 || text::trimmed(
            t.mbid_recording,
        ).len() > 0 || text::trimmed(t.mbid_artist).len() > 0 || text::trimmed(t.isrc).len() > 0,
{
}

// ---------------------------------------------------------------------------
// Listens

/// A tally that moves with its file keeps all that it holds, under the new path.
pub proof fn tallies_move_whole(m: Migration, t: TallyView, from: Seq<char>, to: Seq<char>)
    requires
        ratings::is_migration(m, t, from, to),
    ensures
        m.tally@.path == to,
        m.tally@.id == t.id && m.tally@.title == t.title && m.tally@.artist == t.artist,
        m.tally@.full == t.full && m.tally@.half == t.half && m.tally@.skips == t.skips,
        m.tally@.loved == t.loved,
        m.new_key@ == ratings::tally_key(to) && m.old_key@ == ratings::tally_key(from),
        m.new_pub_key@ == ratings::published_key(to) && m.old_pub_key@ == ratings::published_key(
            from,
        ),
{
}

/// A song is shown with artist and title where it has a title, and else with its path; with its stars
/// and how often it was heard in full.
pub proof fn songs_are_shown_by_name(t: TallyView)
    ensures
        ({
            let r = ratings::row_of(t);
            &&& t.title.len() > 0 ==> r.name == t.artist + " - "@ + t.title
            &&& t.title.len() == 0 ==> r.name == t.path
            &&& r.path == t.path && r.half_stars == stats::half_stars(t) && r.plays == t.full
        }),
{
}

/// A pass tells of ratings until it has told of enough, and takes up each tally whole.
pub proof fn passes_tell_until_full(each: Seq<nat>, n: nat)
    ensures
        ratings::told_of(each) < 250 ==> ratings::told_of(each.push(n)) == ratings::told_of(each) + n,
        ratings::told_of(each) >= 250 ==> ratings::told_of(each.push(n)) == ratings::told_of(each),
        ratings::to_tell(each.push(n)) == ratings::to_tell(each) + n,
        ratings::told_of(Seq::empty()) == 0,
        ratings::to_tell(Seq::empty()) == 0,
{
    assert(each.push(n).drop_last() =~= each);
}

/// A song is rated where it is known, was heard often enough and has earned something.
pub proof fn rated_songs_have_earned_it(cfg: Config, t: TallyView)
    ensures
        ratings::rated(cfg, t) <==> t.id.len() > 0 && t.path.len() > 0 && t.full + t.half + t.skips
            >= cfg.star_min_samples && stats::half_stars(t) > 0,
{
}

/// A line of a report is there only where there is something to count.
pub proof fn only_counts_above_nought_are_told(before: Seq<char>, n: nat, after: Seq<char>)
    ensures
        n == 0 ==> stats::counted(before, n, after).len() == 0,
        n > 0 ==> stats::counted(before, n, after) == seq![before + text::decimal(n) + after],
{
}

} // verus!
