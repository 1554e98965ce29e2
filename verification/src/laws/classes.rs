//! Which bucket an album belongs to.

use crate::config::Config;
use crate::organizer;
use crate::organizer::{Bucket, InfoView};
use crate::text;
use vstd::prelude::*;

verus! {

/// None of the words for a release type that decide on a bucket, in whatever case.
pub open spec fn undecided(release_type: Seq<char>) -> bool {
    let t = text::lowered(release_type);
    t != "soundtrack"@ && t != "score"@ && t != "compilation"@ && t != "live"@ && t != "single"@ && t
        != "ep"@ && t != "mixtape"@
}

/// An album with an album artist of its own never counts as one by various artists, however many
/// artists its tracks have: guests make no compilation. It does so only by its release type, or
/// where the album artist says so.
pub proof fn an_album_artist_keeps_an_album_together(info: InfoView, cfg: Config)
    requires
        text::trimmed(info.album_artist).len() > 0,
        text::lowered(text::trimmed(info.album_artist)) != "various"@,
        text::lowered(text::trimmed(info.album_artist)) != "various artists"@,
        text::lowered(text::trimmed(info.album_artist)) != "va"@,
        !cfg.classify_from_mb || (text::lowered(info.release_type) != "compilation"@
            && text::lowered(info.release_type) != "live"@),
    ensures
        organizer::bucket_of(info, cfg) != Bucket::Various,
{
    release_types_are_words();
}

/// Under an album artist it makes no difference who plays on the tracks.
pub proof fn track_artists_make_no_difference(
    info: InfoView,
    guests: Seq<Seq<char>>,
    cfg: Config,
)
    requires
        text::trimmed(info.album_artist).len() > 0,
    ensures
        organizer::bucket_of((InfoView { distinct_artists: guests, ..info }), cfg)
            == organizer::bucket_of(info, cfg),
{
}

/// The names for various artists count as such, whatever the tracks say, and so does an album
/// without an album artist whose tracks have several; one whose tracks have one artist does not.
/// Only the words for a soundtrack, and a release type that decides, come before.
pub proof fn compilations_are_found(info: InfoView, cfg: Config)
    requires
        !cfg.classify_from_mb || undecided(info.release_type),
        organizer::bucket_of(info, cfg) != Bucket::Soundtrack,
    ensures
        ({
            let artist = text::lowered(text::trimmed(info.album_artist));
            let found = organizer::bucket_of(info, cfg) == Bucket::Various;
            &&& artist == "various"@ || artist == "various artists"@ || artist == "va"@ ==> found
            &&& artist.len() == 0 && info.distinct_artists.len() >= 2 ==> found
            &&& artist.len() == 0 && info.distinct_artists.len() < 2 ==> !found
        }),
{
    release_types_are_words();
    reveal_strlit("various");
    reveal_strlit("various artists");
    reveal_strlit("va");
    assert("various"@.len() == 7 && "various artists"@.len() == 15 && "va"@.len() == 2);
}

/// An album is a soundtrack by its tags where its genre or its title says so in one of the usual
/// words, in whatever case and wherever in the text; and by nothing else in its tags.
pub proof fn soundtracks_say_so(info: InfoView, cfg: Config, genre: Seq<char>, album: Seq<char>)
    requires
        !cfg.classify_from_mb || undecided(info.release_type),
        genre == text::lowered(info.genre),
        album == text::lowered(info.album),
    ensures
        text::has(genre, "soundtrack"@) ==> organizer::bucket_of(info, cfg) == Bucket::Soundtrack,
        text::has(genre, "ost"@) ==> organizer::bucket_of(info, cfg) == Bucket::Soundtrack,
        text::has(album, "soundtrack"@) ==> organizer::bucket_of(info, cfg) == Bucket::Soundtrack,
        text::has(album, "original motion picture"@) ==> organizer::bucket_of(info, cfg)
            == Bucket::Soundtrack,
        text::has(album, "music from"@) ==> organizer::bucket_of(info, cfg) == Bucket::Soundtrack,
        text::has(album, "music inspired by"@) ==> organizer::bucket_of(info, cfg)
            == Bucket::Soundtrack,
        organizer::bucket_of(info, cfg) == Bucket::Soundtrack ==> text::has(genre, "soundtrack"@)
            || text::has(genre, "ost"@) || text::has(album, "soundtrack"@) || text::has(
            album,
            "original motion picture"@,
        ) || text::has(album, "music from"@) || text::has(album, "music inspired by"@),
{
    release_types_are_words();
}

/// Of the albums that are neither soundtracks nor compilations, those with one track or fewer than
/// the smallest number of tracks are singles where singles are kept apart, and all others are
/// ordinary albums.
pub proof fn short_albums_are_singles(info: InfoView, cfg: Config)
    requires
        !cfg.classify_from_mb || undecided(info.release_type),
        organizer::bucket_of(info, cfg) != Bucket::Soundtrack,
        organizer::bucket_of(info, cfg) != Bucket::Various,
    ensures
        !cfg.singles_enabled ==> organizer::bucket_of(info, cfg) == Bucket::Normal,
        cfg.singles_enabled && info.track_count == 1 ==> organizer::bucket_of(info, cfg)
            == Bucket::Singles,
        cfg.singles_enabled && info.track_count < cfg.incomplete_album_min_tracks
            ==> organizer::bucket_of(info, cfg) == Bucket::Singles,
        info.track_count > 1 && info.track_count >= cfg.incomplete_album_min_tracks
            ==> organizer::bucket_of(info, cfg) == Bucket::Normal,
{
    release_types_are_words();
}

/// A release type that decides does so whatever the tags say: soundtracks and scores, compilations
/// and live albums, and singles, short plays and mixtapes where singles are kept apart.
pub proof fn release_types_decide(info: InfoView, cfg: Config, t: Seq<char>)
    requires
        cfg.classify_from_mb,
        t == text::lowered(info.release_type),
    ensures
        t == "soundtrack"@ || t == "score"@ ==> organizer::bucket_of(info, cfg)
            == Bucket::Soundtrack,
        t == "compilation"@ || t == "live"@ ==> organizer::bucket_of(info, cfg) == Bucket::Various,
        cfg.singles_enabled && (t == "single"@ || t == "ep"@ || t == "mixtape"@)
            ==> organizer::bucket_of(info, cfg) == Bucket::Singles,
{
    release_types_are_words();
}

/// Any other release type says nothing, and so does every one where it is not to be looked at.
pub proof fn other_release_types_say_nothing(info: InfoView, cfg: Config)
    requires
        !cfg.classify_from_mb || undecided(info.release_type),
    ensures
        organizer::bucket_of(info, cfg) == organizer::bucket_of(
            (InfoView { release_type: Seq::empty(), ..info }),
            cfg,
        ),
{
    release_types_are_words();
    assert(text::lowered(Seq::<char>::empty()) =~= Seq::<char>::empty());
}

proof fn release_types_are_words()
    ensures
        "soundtrack"@.len() == 10,
        "score"@.len() == 5,
        "compilation"@.len() == 11,
        "live"@.len() == 4,
        "single"@.len() == 6,
        "ep"@.len() == 2,
        "mixtape"@.len() == 7,
{
    reveal_strlit("soundtrack");
    reveal_strlit("score");
    reveal_strlit("compilation");
    reveal_strlit("live");
    reveal_strlit("single");
    reveal_strlit("ep");
    reveal_strlit("mixtape");
}

} // verus!
