//! What the tags of its files say of an album.

use crate::nfo::{AlbumNfoView, ArtistNfoView};
use crate::organizer;
use crate::organizer::AlbumDir;
use crate::tags::{Recording, TagsView};
use crate::text;
use vstd::prelude::*;

verus! {

/// The first text that is not empty is taken, and nothing only where all are empty.
pub proof fn the_first_filled_text_counts(v: Seq<Seq<char>>)
    ensures
        organizer::first_filled(v).len() == 0 ==> forall|i: int|
            0 <= i < v.len() ==> (#[trigger] v[i]).len() == 0,
        organizer::first_filled(v).len() > 0 ==> exists|k: int|
            0 <= k < v.len() && #[trigger] v[k] == organizer::first_filled(v) && forall|i: int|
                0 <= i < k ==> (#[trigger] v[i]).len() == 0,
    decreases v.len(),
{
    if v.len() > 0 {
        if v[0].len() > 0 {
            assert(v[0] == organizer::first_filled(v));
        } else {
            let rest = v.skip(1);
            the_first_filled_text_counts(rest);
            if organizer::first_filled(rest).len() > 0 {
                let k = choose|k: int|
                    0 <= k < rest.len() && #[trigger] rest[k] == organizer::first_filled(rest)
                        && forall|i: int| 0 <= i < k ==> (#[trigger] rest[i]).len() == 0;
                assert(v[k + 1] == rest[k]);
                assert forall|i: int| 0 <= i < k + 1 implies (#[trigger] v[i]).len() == 0 by {
                    if i > 0 {
                        assert(rest[i - 1] == v[i]);
                    }
                }
            } else {
                assert forall|i: int| 0 <= i < v.len() implies (#[trigger] v[i]).len() == 0 by {
                    if i > 0 {
                        assert(rest[i - 1] == v[i]);
                    }
                }
            }
        }
    }
}

/// The first number that is there is taken, and none only where there is none.
pub proof fn the_first_number_counts(v: Seq<Option<u32>>)
    ensures
        organizer::first_some(v) is None ==> forall|i: int| 0 <= i < v.len() ==> #[trigger] v[i] is None,
        organizer::first_some(v) is Some ==> exists|k: int|
            0 <= k < v.len() && #[trigger] v[k] == organizer::first_some(v) && forall|i: int|
                0 <= i < k ==> #[trigger] v[i] is None,
    decreases v.len(),
{
    if v.len() > 0 {
        if v[0] is Some {
            assert(v[0] == organizer::first_some(v));
        } else {
            let rest = v.skip(1);
            the_first_number_counts(rest);
            if organizer::first_some(rest) is Some {
                let k = choose|k: int|
                    0 <= k < rest.len() && #[trigger] rest[k] == organizer::first_some(rest)
                        && forall|i: int| 0 <= i < k ==> #[trigger] rest[i] is None;
                assert(v[k + 1] == rest[k]);
                assert forall|i: int| 0 <= i < k + 1 implies #[trigger] v[i] is None by {
                    if i > 0 {
                        assert(rest[i - 1] == v[i]);
                    }
                }
            } else {
                assert forall|i: int| 0 <= i < v.len() implies #[trigger] v[i] is None by {
                    if i > 0 {
                        assert(rest[i - 1] == v[i]);
                    }
                }
            }
        }
    }
}

/// Album, album artist, genre and year are each those of the first track that tells them, whatever the
/// later tracks say; and they are told where any track tells them.
pub proof fn the_first_track_that_knows_decides(t: Seq<TagsView>, count: nat, k: int)
    requires
        0 <= k < t.len(),
    ensures
        ({
            let info = organizer::info_of(t, count);
            &&& info.track_count == count
            &&& info.release_type.len() == 0
            &&& t[k].album.len() > 0 && (forall|i: int|
                0 <= i < k ==> (#[trigger] t[i]).album.len() == 0) ==> info.album == t[k].album
            &&& t[k].album_artist.len() > 0 && (forall|i: int|
                0 <= i < k ==> (#[trigger] t[i]).album_artist.len() == 0) ==> info.album_artist
                == t[k].album_artist
            &&& t[k].genre.len() > 0 && (forall|i: int|
                0 <= i < k ==> (#[trigger] t[i]).genre.len() == 0) ==> info.genre == t[k].genre
            &&& t[k].year is Some && (forall|i: int|
                0 <= i < k ==> (#[trigger] t[i]).year is None) ==> info.year == t[k].year
        }),
{
    let (al, aa, ge, ye) = (
        organizer::albums(t),
        organizer::album_artists(t),
        organizer::genres(t),
        organizer::years(t),
    );
    the_first_filled_text_counts(al);
    the_first_filled_text_counts(aa);
    the_first_filled_text_counts(ge);
    the_first_number_counts(ye);
    assert(al[k] == t[k].album && aa[k] == t[k].album_artist && ge[k] == t[k].genre && ye[k]
        == t[k].year);
}

/// What no track tells is not made up.
pub proof fn nothing_is_made_up(t: Seq<TagsView>, count: nat)
    ensures
        ({
            let info = organizer::info_of(t, count);
            &&& info.album.len() > 0 ==> exists|i: int|
                0 <= i < t.len() && (#[trigger] t[i]).album == info.album
            &&& info.album_artist.len() > 0 ==> exists|i: int|
                0 <= i < t.len() && (#[trigger] t[i]).album_artist == info.album_artist
            &&& info.genre.len() > 0 ==> exists|i: int|
                0 <= i < t.len() && (#[trigger] t[i]).genre == info.genre
            &&& info.year is Some ==> exists|i: int|
                0 <= i < t.len() && (#[trigger] t[i]).year == info.year
        }),
{
    let (al, aa, ge, ye) = (
        organizer::albums(t),
        organizer::album_artists(t),
        organizer::genres(t),
        organizer::years(t),
    );
    let info = organizer::info_of(t, count);
    the_first_filled_text_counts(al);
    the_first_filled_text_counts(aa);
    the_first_filled_text_counts(ge);
    the_first_number_counts(ye);
    if info.album.len() > 0 {
        let k = choose|k: int| 0 <= k < al.len() && #[trigger] al[k] == organizer::first_filled(al);
        assert(t[k].album == info.album);
    }
    if info.album_artist.len() > 0 {
        let k = choose|k: int| 0 <= k < aa.len() && #[trigger] aa[k] == organizer::first_filled(aa);
        assert(t[k].album_artist == info.album_artist);
    }
    if info.genre.len() > 0 {
        let k = choose|k: int| 0 <= k < ge.len() && #[trigger] ge[k] == organizer::first_filled(ge);
        assert(t[k].genre == info.genre);
    }
    if info.year is Some {
        let k = choose|k: int| 0 <= k < ye.len() && #[trigger] ye[k] == organizer::first_some(ye);
        assert(t[k].year == info.year);
    }
}

/// The artists of an album are those of its tracks, each of them once: every artist of a track is
/// there but for white space and case, every one that is there is the artist of a track, and no two
/// differ in case alone.
pub proof fn every_artist_counts_once(t: Seq<TagsView>)
    ensures
        forall|i: int|
            0 <= i < t.len() && text::trimmed((#[trigger] t[i]).artist).len() > 0 ==> exists|k: int|
                0 <= k < organizer::artists(t).len() && text::lowered(
                    #[trigger] organizer::artists(t)[k],
                ) == text::lowered(text::trimmed(t[i].artist)),
        forall|k: int|
            0 <= k < organizer::artists(t).len() ==> {
                &&& (#[trigger] organizer::artists(t)[k]).len() > 0
                &&& exists|i: int|
                    0 <= i < t.len() && text::trimmed((#[trigger] t[i]).artist)
                        == organizer::artists(t)[k]
            },
        forall|j: int, k: int|
            0 <= j < k < organizer::artists(t).len() ==> text::lowered(
                #[trigger] organizer::artists(t)[j],
            ) != text::lowered(#[trigger] organizer::artists(t)[k]),
    decreases t.len(),
{
    if t.len() > 0 {
        let front = t.drop_last();
        every_artist_counts_once(front);
        let before = organizer::artists(front);
        let all = organizer::artists(t);
        let name = text::trimmed(t.last().artist);
        assert forall|i: int|
            0 <= i < t.len() && text::trimmed((#[trigger] t[i]).artist).len() > 0 implies exists|
            k: int,
        |
            0 <= k < all.len() && text::lowered(#[trigger] all[k]) == text::lowered(
                text::trimmed(t[i].artist),
            ) by {
            if i < front.len() {
                assert(front[i] == t[i]);
                let k = choose|k: int|
                    0 <= k < before.len() && text::lowered(#[trigger] before[k]) == text::lowered(
                        text::trimmed(front[i].artist),
                    );
                assert(all[k] == before[k]);
            } else if organizer::known_name(before, name) {
                let k = choose|k: int|
                    0 <= k < before.len() && organizer::same_but_case(#[trigger] before[k], name);
                assert(all[k] == before[k]);
            } else {
                assert(all[all.len() - 1] == name);
            }
        }
        assert forall|k: int| 0 <= k < all.len() implies {
            &&& (#[trigger] all[k]).len() > 0
            &&& exists|i: int| 0 <= i < t.len() && text::trimmed((#[trigger] t[i]).artist) == all[k]
        } by {
            if k < before.len() {
                assert(all[k] == before[k]);
                let i = choose|i: int|
                    0 <= i < front.len() && text::trimmed((#[trigger] front[i]).artist) == before[k];
                assert(t[i] == front[i]);
            } else {
                assert(text::trimmed(t[t.len() - 1].artist) == all[k]);
            }
        }
        assert forall|j: int, k: int| 0 <= j < k < all.len() implies text::lowered(
            #[trigger] all[j],
        ) != text::lowered(#[trigger] all[k]) by {
            assert(all[j] == before[j]);
            if k < before.len() {
                assert(all[k] == before[k]);
            } else {
                assert(!organizer::same_but_case(before[j], name));
            }
        }
    }
}

/// An album is live, a bootleg or from the studio where all its tracks are, and mixed otherwise.
pub proof fn tracks_agree_on_the_recording(t: Seq<TagsView>, r: Recording)
    requires
        t.len() > 0,
    ensures
        r != Recording::Mixed ==> ((organizer::common_recording(t) == r) <==> forall|i: int|
            0 <= i < t.len() ==> (#[trigger] t[i]).recording == r),
        organizer::info_of(t, t.len()).recording == organizer::common_recording(t),
        organizer::info_of(t, t.len()).distinct_artists == organizer::artists(t),
{
    if forall|i: int| 0 <= i < t.len() ==> (#[trigger] t[i]).recording == r {
        assert(t[0].recording == r);
    }
}

/// What the tags leave open the album's sidecar tells, then the artist's, then the folder: the album
/// is called like its folder where nothing else names it, and its artist is the only one of its tracks
/// where no album artist is named. Sidecars count only where they are to be read.
pub proof fn gaps_are_filled_in_order(
    album: AlbumDir,
    nfo: AlbumNfoView,
    artist: ArtistNfoView,
)
    ensures
        ({
            let raw = organizer::info_of(organizer::tagged(album.tracks@), album.tracks@.len());
            let full = organizer::info_with_sidecars(album, true, Some(nfo), Some(artist));
            let blind = organizer::info_with_sidecars(album, false, Some(nfo), Some(artist));
            let folder = organizer::last_part(album.dir@);
            &&& raw.album.len() == 0 && nfo.title.len() > 0 ==> full.album == nfo.title
            &&& raw.album.len() == 0 && nfo.title.len() == 0 ==> full.album == folder
            &&& raw.album.len() == 0 ==> blind.album == folder
            &&& raw.year is None ==> full.year == nfo.year && blind.year is None
            &&& raw.album_artist.len() == 0 && nfo.album_artists.len() > 0
                && nfo.album_artists[0].len() > 0 ==> full.album_artist == nfo.album_artists[0]
            &&& raw.album_artist.len() == 0 && nfo.album_artists.len() == 0 && artist.name.len() > 0
                ==> full.album_artist == artist.name
            &&& raw.album_artist.len() == 0 && raw.distinct_artists.len() == 1 ==> blind.album_artist
                == raw.distinct_artists[0]
            &&& raw.album_artist.len() == 0 && raw.distinct_artists.len() != 1
                ==> blind.album_artist.len() == 0
            &&& raw.genre.len() == 0 && nfo.genres.len() > 0 && nfo.genres[0].len() > 0 ==> full.genre
                == nfo.genres[0]
            &&& raw.genre.len() == 0 ==> blind.genre.len() == 0
            &&& full.track_count == album.tracks@.len() && full.recording == raw.recording
                && full.distinct_artists == raw.distinct_artists
        }),
{
}

/// A group is what its tags say of it, with the release type that was looked up, and the hint as the
/// weakest name.
pub proof fn groups_are_what_their_tags_say(
    files: Seq<(Seq<char>, TagsView)>,
    hint: Seq<char>,
    release_type: Seq<char>,
)
    ensures
        ({
            let raw = organizer::info_of(
                files.map_values(|f: (Seq<char>, TagsView)| f.1),
                files.len(),
            );
            let info = organizer::group_info(files, hint, release_type);
            &&& info.track_count == files.len()
            &&& raw.album.len() > 0 ==> info.album == raw.album
            &&& raw.album.len() == 0 ==> info.album == hint
            &&& raw.album_artist.len() > 0 ==> info.album_artist == raw.album_artist
            &&& raw.album_artist.len() == 0 && raw.distinct_artists.len() == 1 ==> info.album_artist
                == raw.distinct_artists[0]
            &&& info.year == raw.year && info.genre == raw.genre && info.recording == raw.recording
            &&& info.distinct_artists == raw.distinct_artists
            &&& text::trimmed(release_type).len() > 0 ==> info.release_type == release_type
            &&& text::trimmed(release_type).len() == 0 ==> info.release_type.len() == 0
        }),
{
    let a = files.map_values(|f: (Seq<char>, TagsView)| f.1);
    let b = Seq::new(files.len(), |i: int| files[i].1);
    assert(a =~= b);
}

} // verus!
