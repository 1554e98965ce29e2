//! What a plan does with the files of an album.

use crate::config::Config;
use crate::laws::names;
use crate::laws::pieces;
use crate::laws::places;
use crate::laws::rendering;
use crate::organizer;
use crate::organizer::{Disk, Fate, MoveView};
use crate::tags::{Recording, TagsView};
use crate::template;
use crate::template::FieldsView;
use crate::text;
use vstd::prelude::*;

verus! {

// ---------------------------------------------------------------------------
// The same song

proof fn bare_name(name: Seq<char>)
    requires
        !name.contains('|'),
    ensures
        !text::lowered(text::trimmed(name)).contains('|'),
{
    if text::lowered(text::trimmed(name)).contains('|') {
        pieces::lowering_adds_no_mark(text::trimmed(name), '|');
        pieces::trimmed_is_a_piece(name, '|');
    }
}

/// Two files are versions of one song exactly where album artist, album, title and track number are
/// all the same, but for white space around the names and case; a file without a title or a number is
/// compared with none. (Album artist and album must not hold the bar that stands between the names.)
pub proof fn one_song_has_one_key(a: TagsView, b: TagsView)
    requires
        !a.album_artist.contains('|') && !b.album_artist.contains('|'),
        !a.album.contains('|') && !b.album.contains('|'),
    ensures
        organizer::song_key(a) is Some <==> a.track is Some && text::trimmed(a.title).len() > 0,
        organizer::song_key(a) is Some && organizer::song_key(a) == organizer::song_key(b) <==> {
            let n = |s: Seq<char>| text::lowered(text::trimmed(s));
            &&& a.track is Some && text::trimmed(a.title).len() > 0
            &&& n(a.album_artist) == n(b.album_artist)
            &&& n(a.album) == n(b.album)
            &&& n(a.title) == n(b.title)
            &&& a.track == b.track
        },
{
    reveal_strlit("t:");
    reveal_strlit("|");
    assert("|"@ =~= seq!['|']);
    let n = |s: Seq<char>| text::lowered(text::trimmed(s));
    assert(n(a.title).len() == text::trimmed(a.title).len());
    assert(n(b.title).len() == text::trimmed(b.title).len());
    if a.track is Some && b.track is Some && text::trimmed(a.title).len() > 0 && text::trimmed(
        b.title,
    ).len() > 0 {
        let (x, y) = (text::decimal(a.track->0 as nat), text::decimal(b.track->0 as nat));
        pieces::decimals_are_digits(a.track->0 as nat, b.track->0 as nat, '|');
        pieces::decimals_are_digits(b.track->0 as nat, a.track->0 as nat, '|');
        bare_name(a.album_artist);
        bare_name(b.album_artist);
        bare_name(a.album);
        bare_name(b.album);
        let bar = seq!['|'];
        let (a2, b2) = (n(a.album) + bar + n(a.title), n(b.album) + bar + n(b.title));
        let (a1, b1) = (n(a.album_artist) + bar + a2, n(b.album_artist) + bar + b2);
        let (ka, kb) = (organizer::song_key(a)->0, organizer::song_key(b)->0);
        assert(ka =~= "t:"@ + (a1 + bar + x));
        assert(kb =~= "t:"@ + (b1 + bar + y));
        assert(ka.skip(2) =~= a1 + bar + x);
        assert(kb.skip(2) =~= b1 + bar + y);
        if ka == kb {
            pieces::last_cut(a1, x, b1, y, '|');
            pieces::first_cut(n(a.album_artist), a2, n(b.album_artist), b2, '|');
            pieces::first_cut(n(a.album), n(a.title), n(b.album), n(b.title), '|');
        }
    }
}

/// The two files are the same song in the same version: the same names and number, and one size.
pub open spec fn same_version(a: (Seq<char>, TagsView), b: (Seq<char>, TagsView), disk: Disk) -> bool {
    let n = |s: Seq<char>| text::lowered(text::trimmed(s));
    &&& a.1.track is Some && text::trimmed(a.1.title).len() > 0
    &&& n(a.1.album_artist) == n(b.1.album_artist)
    &&& n(a.1.album) == n(b.1.album)
    &&& n(a.1.title) == n(b.1.title)
    &&& a.1.track == b.1.track
    &&& disk.size(a.0) == disk.size(b.0)
}

/// Names without the bar that stands between names.
pub open spec fn without_bars(files: Seq<(Seq<char>, TagsView)>) -> bool {
    forall|i: int|
        0 <= i < files.len() ==> !(#[trigger] files[i]).1.album_artist.contains('|')
            && !files[i].1.album.contains('|')
}

proof fn twins_are_versions(files: Seq<(Seq<char>, TagsView)>, disk: Disk, i: int, j: int)
    requires
        without_bars(files),
        0 <= i < files.len(),
        0 <= j < files.len(),
    ensures
        organizer::twins(
            organizer::song_keys(files),
            organizer::sizes_of(files, disk),
            i,
            j,
        ) == same_version(files[i], files[j], disk),
{
    assert(!files[i].1.album.contains('|') && !files[j].1.album.contains('|'));
    one_song_has_one_key(files[i].1, files[j].1);
}

/// A file is a confirmed duplicate exactly where an earlier file is the same song in the same version.
pub proof fn duplicates_are_equal_files(files: Seq<(Seq<char>, TagsView)>, disk: Disk, i: int)
    requires
        without_bars(files),
        0 <= i < files.len(),
    ensures
        organizer::loses(
            organizer::song_keys(files),
            organizer::sizes_of(files, disk),
            i,
        ) <==> exists|j: int| 0 <= j < i && same_version(#[trigger] files[j], files[i], disk),
{
    let (keys, sizes) = (organizer::song_keys(files), organizer::sizes_of(files, disk));
    if organizer::loses(keys, sizes, i) {
        let j = choose|j: int| 0 <= j < i && #[trigger] organizer::twins(keys, sizes, j, i);
        twins_are_versions(files, disk, j, i);
        assert(same_version(files[j], files[i], disk));
    }
    if exists|j: int| 0 <= j < i && same_version(#[trigger] files[j], files[i], disk) {
        let j = choose|j: int| 0 <= j < i && same_version(#[trigger] files[j], files[i], disk);
        twins_are_versions(files, disk, j, i);
        assert(organizer::twins(keys, sizes, j, i));
    }
}

proof fn duplicates_name_their_files(
    files: Seq<(Seq<char>, TagsView)>,
    pairs: Seq<(int, int)>,
    cfg: Config,
    existing: Seq<Seq<char>>,
    n: int,
)
    requires
        0 <= n <= pairs.len(),
    ensures
        organizer::duplicates_of(files, pairs, cfg, existing, n).len() == n,
        forall|k: int|
            0 <= k < n ==> {
                let d = #[trigger] organizer::duplicates_of(files, pairs, cfg, existing, n)[k];
                d.winner == files[pairs[k].0].0 && d.loser == files[pairs[k].1].0
            },
    decreases n,
{
    if n > 0 {
        duplicates_name_their_files(files, pairs, cfg, existing, n - 1);
        let before = organizer::duplicates_of(files, pairs, cfg, existing, n - 1);
        let all = organizer::duplicates_of(files, pairs, cfg, existing, n);
        assert forall|k: int| 0 <= k < n implies (#[trigger] all[k]).winner == files[pairs[k].0].0
            && all[k].loser == files[pairs[k].1].0 by {
            if k < n - 1 {
                assert(all[k] == before[k]);
            }
        }
    }
}

/// Every duplicate of a plan is a file that is the same song in the same version as its winner, and
/// every file for which there is an earlier such file is among the duplicates.
pub proof fn plans_find_every_duplicate(
    files: Seq<(Seq<char>, TagsView)>,
    cfg: Config,
    hint: Seq<char>,
    release_type: Seq<char>,
    disk: Disk,
)
    requires
        without_bars(files),
    ensures
        ({
            let found = organizer::group_plan(files, cfg, hint, release_type, disk).duplicates;
            &&& forall|k: int|
                0 <= k < found.len() ==> exists|w: int, l: int|
                    0 <= w < l < files.len() && (#[trigger] found[k]).winner == (
                    #[trigger] files[w]).0 && found[k].loser == (#[trigger] files[l]).0
                        && same_version(files[w], files[l], disk)
            &&& forall|i: int, j: int|
                0 <= i < j < files.len() && same_version(
                    #[trigger] files[i],
                    #[trigger] files[j],
                    disk,
                ) ==> exists|k: int|
                    0 <= k < found.len() && (#[trigger] found[k]).loser == files[j].0
        }),
{
    let (keys, sizes) = (organizer::song_keys(files), organizer::sizes_of(files, disk));
    let n = files.len() as int;
    let pairs = organizer::pairs_of(keys, sizes, n);
    let found = organizer::group_plan(files, cfg, hint, release_type, disk).duplicates;
    organizer::pairs_hold(keys, sizes, n);
    duplicates_name_their_files(files, pairs, cfg, disk.paths(), pairs.len() as int);
    assert forall|k: int| 0 <= k < found.len() implies exists|w: int, l: int|
        0 <= w < l < files.len() && (#[trigger] found[k]).winner == (#[trigger] files[w]).0
            && found[k].loser == (#[trigger] files[l]).0 && same_version(files[w], files[l], disk) by {
        let (w, l) = pairs[k];
        twins_are_versions(files, disk, w, l);
        assert(found[k].winner == files[w].0 && found[k].loser == files[l].0);
    }
    assert forall|i: int, j: int|
        0 <= i < j < files.len() && same_version(#[trigger] files[i], #[trigger] files[j], disk) implies exists|
        k: int,
    | 0 <= k < found.len() && (#[trigger] found[k]).loser == files[j].0 by {
        twins_are_versions(files, disk, i, j);
        let w = earliest(keys, sizes, i, j);
        let s = organizer::seconds(pairs);
        assert(s.contains(j));
        let k = choose|k: int| 0 <= k < s.len() && s[k] == j;
        assert(found[k].loser == files[j].0);
    }
}

/// The first of the files that are the same version as a later one.
proof fn earliest(keys: Seq<Option<Seq<char>>>, sizes: Seq<u64>, i: int, j: int) -> (w: int)
    requires
        0 <= i < j < keys.len(),
        organizer::twins(keys, sizes, i, j),
    ensures
        0 <= w < j,
        organizer::twins(keys, sizes, w, j),
        !organizer::loses(keys, sizes, w),
    decreases i,
{
    if organizer::loses(keys, sizes, i) {
        let h = choose|h: int| 0 <= h < i && #[trigger] organizer::twins(keys, sizes, h, i);
        assert(organizer::twins(keys, sizes, h, j));
        earliest(keys, sizes, h, j)
    } else {
        i
    }
}

// ---------------------------------------------------------------------------
// Moves

/// A file whose fate is to be moved is among the moves.
proof fn moved_files_are_moves(
    from: Seq<Seq<char>>,
    to: Seq<Seq<char>>,
    fates: Seq<Fate>,
    with: Seq<Seq<Seq<char>>>,
    n: int,
    i: int,
)
    requires
        0 <= i < n <= fates.len(),
        fates[i] == Fate::Moved,
    ensures
        organizer::moves_of(from, to, fates, with, n).contains(
            (MoveView { from: from[i], to: to[i], sidecars: with[i] }),
        ),
    decreases n,
{
    let before = organizer::moves_of(from, to, fates, with, n - 1);
    let all = organizer::moves_of(from, to, fates, with, n);
    let m = MoveView { from: from[i], to: to[i], sidecars: with[i] };
    if i < n - 1 {
        moved_files_are_moves(from, to, fates, with, n - 1, i);
        let k = choose|k: int| 0 <= k < before.len() && before[k] == m;
        assert(all[k] == m);
    } else {
        assert(all[all.len() - 1] == m);
    }
}

/// The file of a move.
proof fn move_has_a_file(
    from: Seq<Seq<char>>,
    to: Seq<Seq<char>>,
    fates: Seq<Fate>,
    with: Seq<Seq<Seq<char>>>,
    n: int,
    k: int,
) -> (i: int)
    requires
        0 <= n <= fates.len(),
        0 <= k < organizer::moves_of(from, to, fates, with, n).len(),
    ensures
        0 <= i < n,
        fates[i] == Fate::Moved,
        organizer::moves_of(from, to, fates, with, n)[k] == (MoveView {
            from: from[i],
            to: to[i],
            sidecars: with[i],
        }),
    decreases n,
{
    let before = organizer::moves_of(from, to, fates, with, n - 1);
    if k < before.len() {
        move_has_a_file(from, to, fates, with, n - 1, k)
    } else {
        n - 1
    }
}

/// Where a file of a group belongs: in the folder of the album, under its name.
pub open spec fn place_of(
    files: Seq<(Seq<char>, TagsView)>,
    cfg: Config,
    hint: Seq<char>,
    release_type: Seq<char>,
    disk: Disk,
    i: int,
) -> Seq<char> {
    organizer::group_plan(files, cfg, hint, release_type, disk).target_dir + seq!['/']
        + organizer::file_target(
        cfg,
        organizer::fields_of_file(
            files[i],
            organizer::group_info(files, hint, release_type),
        ),
        files[i].1.recording,
        files[i].0,
    )
}

/// A plan puts an album where albums of its bucket belong.
pub proof fn plans_follow_the_bucket(
    files: Seq<(Seq<char>, TagsView)>,
    cfg: Config,
    hint: Seq<char>,
    release_type: Seq<char>,
    disk: Disk,
)
    ensures
        ({
            let p = organizer::group_plan(files, cfg, hint, release_type, disk);
            let info = organizer::group_info(files, hint, release_type);
            &&& p.bucket == organizer::bucket_of(info, cfg)
            &&& files.len() > 0 ==> p.target_dir == organizer::target_dir(
                p.bucket,
                info,
                cfg,
                files[0].1.title,
            )
        }),
{
}

/// Every file goes to its place. One that is no duplicate, does not lie there already and finds the
/// place free is moved there, together with the files that belong to it; and nothing else is moved
/// anywhere.
pub proof fn every_file_goes_to_its_place(
    files: Seq<(Seq<char>, TagsView)>,
    cfg: Config,
    hint: Seq<char>,
    release_type: Seq<char>,
    disk: Disk,
)
    requires
        without_bars(files),
    ensures
        ({
            let p = organizer::group_plan(files, cfg, hint, release_type, disk);
            let there = |i: int| place_of(files, cfg, hint, release_type, disk, i);
            let along = |i: int|
                if cfg.rename_sidecars {
                    organizer::companions(
                        disk.names(organizer::parent(files[i].0)),
                        organizer::stem(organizer::last_part(files[i].0)),
                    )
                } else {
                    Seq::<Seq<char>>::empty()
                };
            &&& forall|i: int|
                0 <= i < files.len() && (forall|j: int|
                    0 <= j < i ==> !same_version(#[trigger] files[j], files[i], disk)) && (forall|
                    j: int,
                |
                    0 <= j < i ==> text::lowered(#[trigger] there(j)) != text::lowered(there(i)))
                    && text::lowered((#[trigger] files[i]).0) != text::lowered(there(i))
                    && !disk.paths().contains(there(i)) ==> p.moves.contains(
                    (MoveView { from: files[i].0, to: there(i), sidecars: along(i) }),
                )
            &&& forall|k: int|
                0 <= k < p.moves.len() ==> exists|i: int|
                    0 <= i < files.len() && #[trigger] p.moves[k] == (MoveView {
                        from: (#[trigger] files[i]).0,
                        to: there(i),
                        sidecars: along(i),
                    })
        }),
{
    reveal_strlit("/");
    assert("/"@ =~= seq!['/']);
    let info = organizer::group_info(files, hint, release_type);
    let p = organizer::group_plan(files, cfg, hint, release_type, disk);
    let n = files.len() as int;
    let (keys, sizes) = (organizer::song_keys(files), organizer::sizes_of(files, disk));
    let losers = organizer::losers_of(keys, sizes);
    let from = organizer::group_sources(files);
    let to = organizer::group_targets(files, info, cfg, p.target_dir);
    let with = organizer::group_companions(files, cfg, disk);
    let fates = organizer::fates_of(from, to, losers, disk.paths(), true);
    let there = |i: int| place_of(files, cfg, hint, release_type, disk, i);
    let along = |i: int|
        if cfg.rename_sidecars {
            organizer::companions(
                disk.names(organizer::parent(files[i].0)),
                organizer::stem(organizer::last_part(files[i].0)),
            )
        } else {
            Seq::<Seq<char>>::empty()
        };
    assert(p.moves == organizer::moves_of(from, to, fates, with, n));
    assert forall|i: int| 0 <= i < n implies #[trigger] to[i] == there(i) && from[i] == files[i].0
        && with[i] == along(i) by {}
    assert forall|i: int|
        0 <= i < files.len() && (forall|j: int|
            0 <= j < i ==> !same_version(#[trigger] files[j], files[i], disk)) && (forall|j: int|
            0 <= j < i ==> text::lowered(#[trigger] there(j)) != text::lowered(there(i)))
            && text::lowered((#[trigger] files[i]).0) != text::lowered(there(i))
            && !disk.paths().contains(there(i)) implies p.moves.contains(
        (MoveView { from: files[i].0, to: there(i), sidecars: along(i) }),
    ) by {
        duplicates_are_equal_files(files, disk, i);
        assert(!losers[i]);
        assert(to[i] == there(i));
        if organizer::claimed_before(from, to, losers, i) {
            let j = choose|j: int|
                0 <= j < i && organizer::claims(from, to, losers, j) && organizer::same_but_case(
                    #[trigger] to[j],
                    to[i],
                );
            assert(to[j] == there(j));
        }
        assert(fates[i] == Fate::Moved);
        moved_files_are_moves(from, to, fates, with, n, i);
    }
    assert forall|k: int| 0 <= k < p.moves.len() implies exists|i: int|
        0 <= i < files.len() && #[trigger] p.moves[k] == (MoveView {
            from: (#[trigger] files[i]).0,
            to: there(i),
            sidecars: along(i),
        }) by {
        let i = move_has_a_file(from, to, fates, with, n, k);
        assert(to[i] == there(i));
        assert(files[i].0 == from[i]);
    }
}

/// The fields that name a file are those of its own tags; only album, album artist, year and genre are
/// those of the album as a whole. A file without a title is called as its name says.
pub proof fn files_are_named_by_their_tags(f: (Seq<char>, TagsView), info: organizer::InfoView)
    ensures
        ({
            let v = organizer::fields_of_file(f, info);
            &&& v.track == f.1.track && v.disc == f.1.disc && v.mbid == f.1.mbid_recording
            &&& f.1.title.len() > 0 ==> v.title == f.1.title
            &&& f.1.title.len() == 0 ==> v.title == organizer::name_parts(
                organizer::last_part(f.0),
            ).1
            &&& f.1.artist.len() > 0 ==> v.artist == f.1.artist
            &&& f.1.artist.len() == 0 ==> v.artist == f.1.album_artist
            &&& v.album == info.album && v.album_artist == info.album_artist && v.year == info.year
                && v.genre == info.genre
        }),
{
}

/// With the usual schema a file is called by its number in two digits or more and its title, and keeps
/// its extension in lower case. A live track or a bootleg gets that behind its name where recordings
/// are kept apart and the name does not say it yet.
pub proof fn files_have_the_usual_names(
    cfg: Config,
    f: FieldsView,
    recording: Recording,
    path: Seq<char>,
)
    requires
        cfg.file_schema@ == "{track:02} - {title}"@,
    ensures
        ({
            let number = match f.track {
                Some(n) => template::padded(text::decimal(n as nat), seq!['0', '2']),
                None => Seq::empty(),
            };
            let name = template::sanitized(
                number + seq![' ', '-', ' '] + f.title,
                organizer::options(cfg),
            );
            let said = match recording {
                Recording::Live => text::has(text::lowered(name), text::lowered("Live"@)),
                Recording::Bootleg => text::has(text::lowered(name), text::lowered("Bootleg"@)),
                _ => true,
            };
            organizer::file_target(cfg, f, recording, path) == name + (if cfg.preserve_recording_type
                && !said {
                places::mark(recording)
            } else {
                Seq::empty()
            }) + seq!['.'] + organizer::extension(path)
        }),
{
    reveal_strlit("{track:02} - {title}");
    reveal_strlit("track");
    reveal_strlit("title");
    reveal_strlit("disc");
    reveal_strlit("year");
    reveal_strlit(".");
    reveal_strlit(":");
    assert("."@ =~= seq!['.']);
    rendering::placeholders_stand_for_their_fields(f);
    let none = Seq::<char>::empty();
    let dash = seq![' ', '-', ' '];
    let t = rendering::token("title"@);
    let rest = dash + t;
    let s = cfg.file_schema@;
    let inner = "track"@ + seq![':', '0', '2'];
    assert(s =~= rendering::token(inner) + rest);
    rendering::token_is_cut(inner, rest);
    assert(t =~= t + none);
    rendering::tokens_are_replaced("title"@, none, f);
    rendering::plain_text_is_kept(dash, t, f);
    assert(template::rendered(none, f) =~= none);
    assert(f.title + none =~= f.title);
    assert(template::rendered(rest, f) == dash + f.title);
    // The number.
    let pat = ":"@;
    text::find_from_meaning(inner, pat, 0);
    assert(inner[5] == ':');
    assert(inner.subrange(5, 6) =~= pat);
    assert(text::stands_at(inner, pat, 5));
    match text::found(inner, pat) {
        Some(k) => {
            assert(inner.subrange(k, k + 1)[0] == inner[k]);
            if k < 5 {
                assert(inner[k] == "track"@[k]);
            }
        },
        None => {},
    }
    assert(inner.take(5) =~= "track"@);
    assert(inner.skip(6) =~= seq!['0', '2']);
    let number = match f.track {
        Some(n) => template::padded(text::decimal(n as nat), seq!['0', '2']),
        None => Seq::empty(),
    };
    if f.track is None {
        assert(f.value("track"@) =~= none);
    } else {
        text::decimal_reads_back(f.track->0 as nat);
    }
    assert(template::token_value(inner, f) == number);
    assert(template::rendered(s, f) == number + (dash + f.title));
    assert(number + (dash + f.title) =~= number + dash + f.title);
    let name = number + dash + f.title;
    assert(name[number.len() as int + 1] == '-');
    template::plain_char_is_kept(name, organizer::options(cfg), number.len() as int + 1);
    places::marks_are_suffixes(recording);
    let shown = template::sanitized(name, organizer::options(cfg));
    assert(shown + none =~= shown);
}

// ---------------------------------------------------------------------------
// Singles

/// A duplicate, or a file that is paired to no album, goes into the folder for singles of its artist,
/// or of various artists where none is named. It keeps its own name where that is free there, and gets
/// the album named behind it where it is not.
pub proof fn singles_keep_their_names(
    cfg: Config,
    occupied: Seq<Seq<char>>,
    album_artist: Seq<char>,
    album: Seq<char>,
    path: Seq<char>,
)
    ensures
        ({
            let opts = organizer::options(cfg);
            let artist = template::sanitized(text::trimmed(album_artist), opts);
            let dir = (if artist.len() > 0 {
                artist
            } else {
                cfg.various_folder@
            }) + seq!['/'] + cfg.singles_folder@ + seq!['/'];
            let name = template::sanitized(organizer::stem(organizer::last_part(path)), opts);
            let ext = seq!['.'] + organizer::extension(path);
            let from = if text::trimmed(album).len() > 0 {
                text::trimmed(album)
            } else {
                "another album"@
            };
            let long = template::sanitized(name + " (from "@ + from + seq![')'], opts);
            let r = organizer::single_target(cfg, occupied, album_artist, album, path);
            &&& !occupied.contains(dir + name + ext) ==> r == dir + name + ext
            &&& occupied.contains(dir + name + ext) && !occupied.contains(dir + long + ext) ==> r
                == dir + long + ext
            &&& occupied.contains(dir + name + ext) && occupied.contains(dir + long + ext) ==> exists|
                n: nat,
            |
                n >= 2 && r == dir + long + seq!['-'] + #[trigger] text::decimal(n) + ext
        }),
{
    reveal_strlit("/");
    reveal_strlit(".");
    reveal_strlit("-");
    reveal_strlit(")");
    assert("/"@ =~= seq!['/'] && "."@ =~= seq!['.'] && "-"@ =~= seq!['-'] && ")"@ =~= seq![')']);
    let opts = organizer::options(cfg);
    let base = organizer::singles_dir(cfg, album_artist);
    let dir = base + seq!['/'];
    let name = template::sanitized(organizer::stem(organizer::last_part(path)), opts);
    let x = organizer::extension(path);
    let ext = seq!['.'] + x;
    let long = organizer::from_album(cfg, name, album);
    assert(organizer::single_path(base, name, x) =~= dir + name + ext);
    assert(organizer::single_path(base, long, x) =~= dir + long + ext);
    organizer::free_number_exists(base, long, x, occupied);
    let n = choose|n: int| organizer::first_free(base, long, x, occupied, n);
    assert(organizer::numbered_path(base, long, x, n) =~= dir + long + seq!['-'] + text::decimal(
        n as nat,
    ) + ext);
}

// ---------------------------------------------------------------------------
// Fillers

/// The title by which a file may be a filler: that of its tags, or else that of its name.
pub open spec fn title_of(f: (Seq<char>, TagsView)) -> Seq<char> {
    if text::trimmed(f.1.title).len() > 0 {
        f.1.title
    } else {
        organizer::name_parts(organizer::last_part(f.0)).1
    }
}

/// The filler tracks of a plan are those of its files that are no duplicates and whose title is that
/// of a filler: all of them, in their order.
pub proof fn every_filler_is_told(
    files: Seq<(Seq<char>, TagsView)>,
    losers: Seq<bool>,
    words: Seq<Seq<char>>,
    n: int,
)
    requires
        0 <= n <= files.len(),
        losers.len() == files.len(),
    ensures
        organizer::fillers_of(files, losers, words, n) == Seq::new(
            n as nat,
            |i: int| (files[i], losers[i]),
        ).filter(
            |x: ((Seq<char>, TagsView), bool)| !x.1 && organizer::filler(title_of(x.0), words),
        ).map_values(|x: ((Seq<char>, TagsView), bool)| x.0.0),
    decreases n,
{
    reveal(Seq::filter);
    let pair = |i: int| (files[i], losers[i]);
    let p = |x: ((Seq<char>, TagsView), bool)| !x.1 && organizer::filler(title_of(x.0), words);
    let path = |x: ((Seq<char>, TagsView), bool)| x.0.0;
    let all = Seq::new(n as nat, pair);
    if n > 0 {
        every_filler_is_told(files, losers, words, n - 1);
        let front = Seq::new((n - 1) as nat, pair);
        assert(all.drop_last() =~= front);
        let x = all.last();
        assert(front.filter(p).push(x).map_values(path) =~= front.filter(p).map_values(path).push(
            path(x),
        ));
    } else {
        assert(all.filter(p).map_values(path) =~= Seq::empty());
    }
}

/// A title is that of a filler where a keyword stands in it as a word of its own, whatever the case of
/// either: alone, in front, at the end or in between, before a dash or a colon, or in brackets. A
/// title that holds none of the keywords is none, and neither is one without keywords.
pub proof fn fillers_hold_a_keyword(title: Seq<char>, words: Seq<Seq<char>>, k: int, x: Seq<char>)
    requires
        0 <= k < words.len(),
        text::trimmed(words[k]).len() > 0,
    ensures
        ({
            let t = text::lowered(text::trimmed(title));
            let w = text::lowered(text::trimmed(words[k]));
            &&& t == w ==> organizer::filler(title, words)
            &&& t == w + seq![' '] + x ==> organizer::filler(title, words)
            &&& t == x + seq![' '] + w ==> organizer::filler(title, words)
            &&& t == w + seq!['-'] + x ==> organizer::filler(title, words)
            &&& t == w + seq![':'] + x ==> organizer::filler(title, words)
            &&& t == x + seq!['('] + w + seq![')'] ==> organizer::filler(title, words)
            &&& t == x + seq!['['] + w + seq![']'] ==> organizer::filler(title, words)
            &&& organizer::filler(title, words) ==> exists|i: int|
                0 <= i < words.len() && text::has(
                    t,
                    text::lowered(text::trimmed(#[trigger] words[i])),
                ) && text::trimmed(words[i]).len() > 0
        }),
{
    reveal_strlit(" ");
    reveal_strlit("-");
    reveal_strlit(":");
    reveal_strlit("(");
    reveal_strlit(")");
    reveal_strlit("[");
    reveal_strlit("]");
    assert(" "@ =~= seq![' '] && "-"@ =~= seq!['-'] && ":"@ =~= seq![':'] && "("@ =~= seq!['('] && ")"@
        =~= seq![')'] && "["@ =~= seq!['['] && "]"@ =~= seq![']']);
    let t = text::lowered(text::trimmed(title));
    let w = text::lowered(text::trimmed(words[k]));
    assert(w.len() > 0);
    assert(organizer::normal(words[k]).len() > 0);
    if t == w {
        assert(organizer::word_in(t, w));
    }
    if t == w + seq![' '] + x {
        assert(t.subrange(0, (w + " "@).len() as int) =~= w + " "@);
        assert(organizer::word_in(t, w));
    }
    if t == x + seq![' '] + w {
        let tail = " "@ + w;
        assert(t.subrange(t.len() - tail.len(), t.len() as int) =~= tail);
        assert(organizer::word_in(t, w));
    }
    if t == w + seq!['-'] + x {
        assert(t.subrange(0, (w + "-"@).len() as int) =~= w + "-"@);
        assert(organizer::word_in(t, w));
    }
    if t == w + seq![':'] + x {
        assert(t.subrange(0, (w + ":"@).len() as int) =~= w + ":"@);
        assert(organizer::word_in(t, w));
    }
    if t == x + seq!['('] + w + seq![')'] {
        let mid = "("@ + w + ")"@;
        assert(t.subrange(x.len() as int, (x.len() + mid.len()) as int) =~= mid);
        assert(text::stands_at(t, mid, x.len() as int));
        assert(organizer::word_in(t, w));
    }
    if t == x + seq!['['] + w + seq![']'] {
        let mid = "["@ + w + "]"@;
        assert(t.subrange(x.len() as int, (x.len() + mid.len()) as int) =~= mid);
        assert(text::stands_at(t, mid, x.len() as int));
        assert(organizer::word_in(t, w));
    }
    if organizer::filler(title, words) {
        let i = choose|i: int|
            0 <= i < words.len() && organizer::normal(#[trigger] words[i]).len() > 0
                && organizer::word_in(organizer::normal(title), organizer::normal(words[i]));
        word_stands_in(t, organizer::normal(words[i]));
        assert(text::trimmed(words[i]).len() == organizer::normal(words[i]).len());
    }
}

proof fn piece_stands_in(t: Seq<char>, a: Seq<char>, w: Seq<char>, b: Seq<char>, at: int)
    requires
        text::stands_at(t, a + w + b, at),
    ensures
        text::has(t, w),
{
    let whole = a + w + b;
    assert(t.subrange(at, at + whole.len()) == whole);
    assert(t.subrange(at + a.len(), at + a.len() + w.len()) =~= w) by {
        assert forall|i: int| 0 <= i < w.len() implies t[at + a.len() + i] == #[trigger] w[i] by {
            assert(t.subrange(at, at + whole.len())[a.len() + i] == whole[a.len() + i]);
        }
    }
    assert(text::stands_at(t, w, at + a.len()));
}

proof fn word_stands_in(t: Seq<char>, k: Seq<char>)
    requires
        organizer::word_in(t, k),
    ensures
        text::has(t, k),
{
    let none = Seq::<char>::empty();
    if t == k {
        assert(t.subrange(0, t.len() as int) =~= k);
        assert(text::stands_at(t, k, 0));
    } else if text::begins(t, k + " "@) {
        assert(none + k + " "@ =~= k + " "@);
        piece_stands_in(t, none, k, " "@, 0);
    } else if text::begins(t, k + "-"@) {
        assert(none + k + "-"@ =~= k + "-"@);
        piece_stands_in(t, none, k, "-"@, 0);
    } else if text::begins(t, k + ":"@) {
        assert(none + k + ":"@ =~= k + ":"@);
        piece_stands_in(t, none, k, ":"@, 0);
    } else if text::ends(t, " "@ + k) {
        assert(" "@ + k + none =~= " "@ + k);
        piece_stands_in(t, " "@, k, none, t.len() - (" "@ + k).len());
    } else if text::has(t, " "@ + k + " "@) {
        let i = choose|i: int| text::stands_at(t, " "@ + k + " "@, i);
        piece_stands_in(t, " "@, k, " "@, i);
    } else if text::has(t, "("@ + k + ")"@) {
        let i = choose|i: int| text::stands_at(t, "("@ + k + ")"@, i);
        piece_stands_in(t, "("@, k, ")"@, i);
    } else {
        let i = choose|i: int| text::stands_at(t, "["@ + k + "]"@, i);
        piece_stands_in(t, "["@, k, "]"@, i);
    }
}

/// Texts without the white space around them, and without empty ones.
proof fn texts_are_trimmed(pieces: Seq<Seq<char>>)
    ensures
        crate::config::filled_texts(pieces) == pieces.map_values(
            |s: Seq<char>| text::trimmed(s),
        ).filter(|s: Seq<char>| s.len() > 0),
    decreases pieces.len(),
{
    reveal(Seq::filter);
    let trim = |s: Seq<char>| text::trimmed(s);
    if pieces.len() > 0 {
        texts_are_trimmed(pieces.drop_last());
        assert(pieces.map_values(trim).drop_last() =~= pieces.drop_last().map_values(trim));
    } else {
        assert(pieces.map_values(trim) =~= Seq::empty());
    }
}

/// The keywords of the settings are the pieces between commas, without white space around them and
/// without empty ones.
pub proof fn keywords_stand_between_commas(cfg: Config)
    ensures
        organizer::keywords_of(cfg) == text::split_by(
            cfg.filler_keywords@,
            |c: char| c == ',',
        ).map_values(|s: Seq<char>| text::trimmed(s)).filter(|s: Seq<char>| s.len() > 0),
{
    reveal_strlit(",");
    assert(","@ =~= seq![',']);
    let p = text::among(","@);
    assert forall|c: char| #[trigger] p(c) == (c == ',') by {
        assert(seq![','][0] == ',');
    }
    assert(p =~= (|c: char| c == ','));
    texts_are_trimmed(text::split_by(cfg.filler_keywords@, p));
}

/// What becomes of a file: a duplicate that loses is put aside; a file that lies in its place stays;
/// one whose place an earlier file takes, or where something lies already, is passed over; and every
/// other one moves. A file that is put aside or stays takes no place from another.
pub proof fn fates_are_decided_in_order(
    from: Seq<Seq<char>>,
    to: Seq<Seq<char>>,
    losers: Seq<bool>,
    existing: Seq<Seq<char>>,
    guard: bool,
    i: int,
)
    requires
        0 <= i < from.len(),
        from.len() == to.len(),
        from.len() == losers.len(),
    ensures
        ({
            let f = organizer::fate(from, to, losers, existing, guard, i);
            let here = |k: int| text::lowered(from[k]) == text::lowered(to[k]);
            let taken = exists|j: int|
                0 <= j < i && !losers[j] && !here(j) && text::lowered(#[trigger] to[j])
                    == text::lowered(to[i]);
            &&& f == Fate::Loser <==> losers[i]
            &&& f == Fate::Kept <==> !losers[i] && here(i)
            &&& f == Fate::NameTaken <==> !losers[i] && !here(i) && taken
            &&& f == Fate::TargetExists <==> !losers[i] && !here(i) && !taken && guard
                && existing.contains(to[i])
            &&& f == Fate::Moved <==> !losers[i] && !here(i) && !taken && !(guard
                && existing.contains(to[i]))
        }),
{
    let here = |k: int| text::lowered(from[k]) == text::lowered(to[k]);
    if organizer::claimed_before(from, to, losers, i) {
        let j = choose|j: int|
            0 <= j < i && organizer::claims(from, to, losers, j) && organizer::same_but_case(
                #[trigger] to[j],
                to[i],
            );
        assert(!losers[j] && !here(j) && text::lowered(to[j]) == text::lowered(to[i]));
    }
    if exists|j: int|
        0 <= j < i && !losers[j] && !here(j) && text::lowered(#[trigger] to[j]) == text::lowered(
            to[i],
        ) {
        let j = choose|j: int|
            0 <= j < i && !losers[j] && !here(j) && text::lowered(#[trigger] to[j])
                == text::lowered(to[i]);
        assert(organizer::claims(from, to, losers, j));
        assert(organizer::same_but_case(to[j], to[i]));
    }
}

/// Every file that is passed over is told, with the reason.
pub proof fn every_skip_has_its_reason(from: Seq<Seq<char>>, fates: Seq<Fate>, n: int)
    requires
        0 <= n < from.len(),
        from.len() == fates.len(),
    ensures
        ({
            let before = organizer::skips_of(from, fates, n);
            let after = organizer::skips_of(from, fates, n + 1);
            &&& fates[n] == Fate::NameTaken ==> after == before.push(
                (from[n], "duplicate target name"@),
            )
            &&& fates[n] == Fate::TargetExists ==> after == before.push(
                (from[n], "target file already exists"@),
            )
            &&& fates[n] != Fate::NameTaken && fates[n] != Fate::TargetExists ==> after == before
        }),
        organizer::skips_of(from, fates, 0).len() == 0,
{
}

} // verus!
