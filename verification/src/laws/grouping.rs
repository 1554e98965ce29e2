//! Which files make an album.

use crate::laws::pieces;
use crate::organizer;
use crate::tags::TagsView;
use crate::text;
use vstd::prelude::*;

verus! {

proof fn name_without_mark(name: Seq<char>)
    requires
        !name.contains('|'),
    ensures
        !text::lowered(text::trimmed(name)).contains('|'),
{
    let t = text::trimmed(name);
    if text::lowered(t).contains('|') {
        pieces::lowering_adds_no_mark(t, '|');
        pieces::trimmed_is_a_piece(name, '|');
    }
}

/// The year at the end of a key.
proof fn years_differ(a: Option<u32>, b: Option<u32>)
    ensures
        !organizer::year_text(a).contains('|'),
        organizer::year_text(a) == organizer::year_text(b) <==> a == b,
{
    let of = |y: Option<u32>| match y {
        Some(n) => n as nat,
        None => 0,
    };
    pieces::decimals_are_digits(of(a), of(b), '|');
    pieces::decimals_are_digits(of(b), of(a), '|');
}

/// Files belong together exactly where they name the same album. With a MusicBrainz id of the album
/// that is the same id; without one it is the same album artist, the same album and the same year;
/// and files that name no album belong together where they lie in the same folder. White space
/// around a name and the case of its letters do not count. (An album artist must not hold the bar
/// that stands between the names.)
pub proof fn only_the_same_album_has_the_same_key(
    a: (Seq<char>, TagsView),
    b: (Seq<char>, TagsView),
)
    requires
        !a.1.album_artist.contains('|'),
        !b.1.album_artist.contains('|'),
    ensures
        organizer::file_key(a) == organizer::file_key(b) <==> {
            let id = |t: TagsView| text::lowered(text::trimmed(t.mbid_album));
            let artist = |t: TagsView| text::lowered(text::trimmed(t.album_artist));
            let album = |t: TagsView| text::lowered(text::trimmed(t.album));
            let named = |t: TagsView| artist(t).len() > 0 && album(t).len() > 0;
            if id(a.1).len() > 0 || id(b.1).len() > 0 {
                id(a.1) == id(b.1)
            } else if named(a.1) || named(b.1) {
                artist(a.1) == artist(b.1) && album(a.1) == album(b.1) && a.1.year == b.1.year
            } else {
                organizer::parent(a.0) == organizer::parent(b.0)
            }
        },
{
    reveal_strlit("mb:");
    reveal_strlit("a:");
    reveal_strlit("f:");
    reveal_strlit("|");
    let (ka, kb) = (organizer::file_key(a), organizer::file_key(b));
    let id = |t: TagsView| text::lowered(text::trimmed(t.mbid_album));
    let artist = |t: TagsView| text::lowered(text::trimmed(t.album_artist));
    let album = |t: TagsView| text::lowered(text::trimmed(t.album));
    let named = |t: TagsView| artist(t).len() > 0 && album(t).len() > 0;
    assert(id(a.1).len() == text::trimmed(a.1.mbid_album).len());
    assert(id(b.1).len() == text::trimmed(b.1.mbid_album).len());
    if id(a.1).len() > 0 {
        assert(ka =~= seq!['m', 'b', ':'] + id(a.1));
        assert(ka[0] == 'm' && ka.skip(3) =~= id(a.1));
    } else if named(a.1) {
        assert(ka[0] == 'a');
    } else {
        assert(ka[0] == 'f' && ka.skip(2) =~= organizer::parent(a.0));
    }
    if id(b.1).len() > 0 {
        assert(kb[0] == 'm' && kb.skip(3) =~= id(b.1));
    } else if named(b.1) {
        assert(kb[0] == 'a');
    } else {
        assert(kb[0] == 'f' && kb.skip(2) =~= organizer::parent(b.0));
    }
    if id(a.1).len() == 0 && id(b.1).len() == 0 && named(a.1) && named(b.1) {
        let (ya, yb) = (organizer::year_text(a.1.year), organizer::year_text(b.1.year));
        years_differ(a.1.year, b.1.year);
        years_differ(b.1.year, a.1.year);
        name_without_mark(a.1.album_artist);
        name_without_mark(b.1.album_artist);
        let (ra, rb) = (
            artist(a.1) + seq!['|'] + album(a.1),
            artist(b.1) + seq!['|'] + album(b.1),
        );
        assert("|"@ =~= seq!['|']);
        assert(ka =~= "a:"@ + (ra + seq!['|'] + ya));
        assert(kb =~= "a:"@ + (rb + seq!['|'] + yb));
        assert(ka.skip(2) =~= ra + seq!['|'] + ya);
        assert(kb.skip(2) =~= rb + seq!['|'] + yb);
        if ka == kb {
            pieces::last_cut(ra, ya, rb, yb, '|');
            pieces::first_cut(artist(a.1), album(a.1), artist(b.1), album(b.1), '|');
        }
    }
}

/// Whatever is in a group has its key.
proof fn members_have_the_key(files: Seq<(Seq<char>, TagsView)>, key: Seq<char>, path: Seq<char>)
    requires
        organizer::members(files, key).contains(path),
    ensures
        exists|k: int|
            0 <= k < files.len() && (#[trigger] files[k]).0 == path && organizer::file_key(files[k])
                == key,
    decreases files.len(),
{
    if files.len() > 0 {
        let all = organizer::members(files, key);
        let front = files.drop_last();
        let before = organizer::members(front, key);
        let n = choose|n: int| 0 <= n < all.len() && all[n] == path;
        if n < before.len() {
            assert(before[n] == path);
            members_have_the_key(front, key, path);
            let k = choose|k: int|
                0 <= k < front.len() && (#[trigger] front[k]).0 == path && organizer::file_key(
                    front[k],
                ) == key;
            assert(files[k] == front[k]);
        } else {
            assert(files[files.len() - 1].0 == path);
        }
    }
}

/// Two files are put into one album exactly where they name the same album: the same MusicBrainz id,
/// or without one the same album artist, album and year, or without these the same folder.
pub proof fn an_album_is_made_of_its_own_files(
    files: Seq<(Seq<char>, TagsView)>,
    i: int,
    j: int,
)
    requires
        0 <= i < files.len(),
        0 <= j < files.len(),
        forall|m: int, n: int|
            0 <= m < n < files.len() ==> (#[trigger] files[m]).0 != (#[trigger] files[n]).0,
        !files[i].1.album_artist.contains('|'),
        !files[j].1.album_artist.contains('|'),
    ensures
        (exists|g: Seq<Seq<char>>|
            #[trigger] organizer::grouped(files).contains(g) && g.contains(files[i].0)
                && g.contains(files[j].0)) <==> {
            let (a, b) = (files[i].1, files[j].1);
            let id = |t: TagsView| text::lowered(text::trimmed(t.mbid_album));
            let artist = |t: TagsView| text::lowered(text::trimmed(t.album_artist));
            let album = |t: TagsView| text::lowered(text::trimmed(t.album));
            let named = |t: TagsView| artist(t).len() > 0 && album(t).len() > 0;
            if id(a).len() > 0 || id(b).len() > 0 {
                id(a) == id(b)
            } else if named(a) || named(b) {
                artist(a) == artist(b) && album(a) == album(b) && a.year == b.year
            } else {
                organizer::parent(files[i].0) == organizer::parent(files[j].0)
            }
        },
{
    only_the_same_album_has_the_same_key(files[i], files[j]);
    organizer::grouping_is_a_partition(files);
    let (ki, kj) = (organizer::file_key(files[i]), organizer::file_key(files[j]));
    if ki == kj {
        assert(organizer::grouped(files).contains(organizer::members(files, ki)));
    }
    assert forall|g: Seq<Seq<char>>|
        #[trigger] organizer::grouped(files).contains(g) && g.contains(files[i].0) && g.contains(
            files[j].0,
        ) implies ki == kj by {
        let n = choose|n: int|
            0 <= n < files.len() && g == organizer::members(
                files,
                organizer::file_key(#[trigger] files[n]),
            );
        let key = organizer::file_key(files[n]);
        members_have_the_key(files, key, files[i].0);
        members_have_the_key(files, key, files[j].0);
    }
}

} // verus!
