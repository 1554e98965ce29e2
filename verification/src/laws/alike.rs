//! Which favorites are told to whom.

use crate::favorites;
use crate::favorites::{LovedView, SongView};
use crate::laws::pieces;
use crate::text;
use vstd::prelude::*;

verus! {

/// The artists, the titles, but for white space around them and the case of their letters.
proof fn names_are_keys(a: Seq<char>, b: Seq<char>, x: Seq<char>, y: Seq<char>)
    requires
        !b.contains('|'),
        !y.contains('|'),
    ensures
        favorites::key_of(a, b) == favorites::key_of(x, y) <==> text::lowered(text::trimmed(a))
            == text::lowered(text::trimmed(x)) && text::lowered(text::trimmed(b)) == text::lowered(
            text::trimmed(y),
        ),
{
    reveal_strlit("|");
    assert("|"@ =~= seq!['|']);
    let (p, q) = (text::lowered(text::trimmed(b)), text::lowered(text::trimmed(y)));
    if p.contains('|') {
        pieces::lowering_adds_no_mark(text::trimmed(b), '|');
        pieces::trimmed_is_a_piece(b, '|');
    }
    if q.contains('|') {
        pieces::lowering_adds_no_mark(text::trimmed(y), '|');
        pieces::trimmed_is_a_piece(y, '|');
    }
    if favorites::key_of(a, b) == favorites::key_of(x, y) {
        pieces::first_cut(
            p,
            text::lowered(text::trimmed(a)),
            q,
            text::lowered(text::trimmed(x)),
            '|',
        );
    }
}

/// A track and a song are the same where their ids agree; where one of them has no id, it is artist
/// and title that must agree, both of them. White space around the names and the case of letters do
/// not count. (The artists must not hold the bar that stands between artist and title.)
pub proof fn ids_before_names(title: Seq<char>, artist: Seq<char>, mbid: Seq<char>, s: SongView)
    requires
        !artist.contains('|'),
        !s.artist.contains('|'),
    ensures
        text::trimmed(mbid).len() > 0 && text::trimmed(s.mbid).len() > 0 ==> (favorites::same(
            title,
            artist,
            mbid,
            s,
        ) <==> text::lowered(text::trimmed(mbid)) == text::lowered(s.mbid)),
        text::trimmed(mbid).len() == 0 || text::trimmed(s.mbid).len() == 0 ==> (favorites::same(
            title,
            artist,
            mbid,
            s,
        ) <==> text::lowered(text::trimmed(title)) == text::lowered(text::trimmed(s.title))
            && text::lowered(text::trimmed(artist)) == text::lowered(text::trimmed(s.artist))),
{
    names_are_keys(title, artist, s.title, s.artist);
}

/// Nothing that differs is left out and nothing else is told: of the songs with a star exactly those
/// are to be loved that have a title and an artist and are none of the loved tracks, in their order
/// and each as often as it is there.
pub proof fn every_new_star_is_loved(starred: Seq<SongView>, loved: Seq<LovedView>)
    ensures
        favorites::songs_to_love(starred, loved) == starred.filter(
            |s: SongView|
                text::trimmed(s.title).len() > 0 && text::trimmed(s.artist).len() > 0 && forall|
                    i: int,
                |
                    0 <= i < loved.len() ==> !favorites::same(
                        (#[trigger] loved[i]).title,
                        loved[i].artist,
                        loved[i].mbid,
                        s,
                    ),
        ),
        forall|k: int|
            0 <= k < starred.len() ==> {
                let s = #[trigger] starred[k];
                favorites::songs_to_love(starred, loved).contains(s) <==> text::trimmed(
                    s.title,
                ).len() > 0 && text::trimmed(s.artist).len() > 0 && forall|i: int|
                    0 <= i < loved.len() ==> !favorites::same(
                        (#[trigger] loved[i]).title,
                        loved[i].artist,
                        loved[i].mbid,
                        s,
                    )
            },
    decreases starred.len(),
{
    reveal(Seq::filter);
    let p = |s: SongView|
        text::trimmed(s.title).len() > 0 && text::trimmed(s.artist).len() > 0 && forall|i: int|
            0 <= i < loved.len() ==> !favorites::same(
                (#[trigger] loved[i]).title,
                loved[i].artist,
                loved[i].mbid,
                s,
            );
    if starred.len() > 0 {
        every_new_star_is_loved(starred.drop_last(), loved);
        let s = starred.last();
        if favorites::loved_already(s, loved) {
            assert(!p(s));
        } else {
            assert forall|i: int| 0 <= i < loved.len() implies !favorites::same(
                (#[trigger] loved[i]).title,
                loved[i].artist,
                loved[i].mbid,
                s,
            ) by {}
        }
    } else {
        assert(starred =~= Seq::empty());
    }
    assert(favorites::songs_to_love(starred, loved) == starred.filter(p));
    assert forall|k: int| 0 <= k < starred.len() implies starred.filter(p).contains(
        #[trigger] starred[k],
    ) == p(starred[k]) by {
        if p(starred[k]) {
            starred.lemma_filter_contains(p, k);
        }
        if starred.filter(p).contains(starred[k]) {
            let n = choose|n: int|
                0 <= n < starred.filter(p).len() && starred.filter(p)[n] == starred[k];
            starred.lemma_filter_pred(p, n);
        }
    }
}

/// The same the other way: exactly the loved tracks that are none of the songs with a star are to get
/// one.
pub proof fn every_new_love_gets_a_star(loved: Seq<LovedView>, starred: Seq<SongView>)
    ensures
        favorites::tracks_to_star(loved, starred) == loved.filter(
            |t: LovedView|
                forall|i: int|
                    0 <= i < starred.len() ==> !favorites::same(
                        t.title,
                        t.artist,
                        t.mbid,
                        #[trigger] starred[i],
                    ),
        ),
    decreases loved.len(),
{
    reveal(Seq::filter);
    if loved.len() > 0 {
        every_new_love_gets_a_star(loved.drop_last(), starred);
    } else {
        assert(loved =~= Seq::empty());
    }
}

/// The song of the library that a track is: the first one that is the same, and none only where none
/// of them is.
pub proof fn the_first_match_is_taken(t: LovedView, found: Seq<SongView>, from: int)
    requires
        0 <= from <= found.len(),
    ensures
        match favorites::first_match(t, found, from) {
            Some(id) => exists|k: int|
                from <= k < found.len() && (#[trigger] found[k]).id == id && favorites::same(
                    t.title,
                    t.artist,
                    t.mbid,
                    found[k],
                ) && forall|j: int|
                    from <= j < k ==> !favorites::same(
                        t.title,
                        t.artist,
                        t.mbid,
                        #[trigger] found[j],
                    ),
            None => forall|j: int|
                from <= j < found.len() ==> !favorites::same(
                    t.title,
                    t.artist,
                    t.mbid,
                    #[trigger] found[j],
                ),
        },
    decreases found.len() - from,
{
    if from < found.len() {
        if favorites::same(t.title, t.artist, t.mbid, found[from]) {
            assert(found[from].id == favorites::first_match(t, found, from)->0);
        } else {
            the_first_match_is_taken(t, found, from + 1);
            match favorites::first_match(t, found, from + 1) {
                Some(id) => {
                    let k = choose|k: int|
                        from + 1 <= k < found.len() && (#[trigger] found[k]).id == id
                            && favorites::same(t.title, t.artist, t.mbid, found[k]) && forall|j: int|
                            from + 1 <= j < k ==> !favorites::same(
                                t.title,
                                t.artist,
                                t.mbid,
                                #[trigger] found[j],
                            );
                    assert(found[k].id == id);
                },
                None => {},
            }
        }
    }
}

} // verus!
