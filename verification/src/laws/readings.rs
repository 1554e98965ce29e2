//! What is read of folders, of sidecars and of what an analysis finds.

use crate::config::Config;
use crate::group;
use crate::json;
use crate::json::JsonView;
use crate::laws::sources::members_are_found_by_name;
use crate::nfo;
use crate::nfo::{AlbumNfoView, ArtistNfoView, EventView};
use crate::organizer;
use crate::organizer::InfoView;
use crate::scan;
use crate::scan::{CheckedView, EntryKind, EntryUse, NextView};
use crate::sidecars;
use crate::sidecars::Analysis;
use crate::text;
use crate::walk;
use vstd::prelude::*;

verus! {

// ---------------------------------------------------------------------------
// Scanning

/// An entry is read exactly where it is an audio file, descended into exactly where it is a folder,
/// and neither where it is hidden and hidden ones are passed over.
pub proof fn entries_are_read_or_descended(name: Seq<char>, kind: EntryKind, skip_hidden: bool)
    ensures
        ({
            let shown = !(skip_hidden && name.len() > 0 && name[0] == '.');
            let sound = organizer::audio(name);
            &&& scan::use_of(name, kind, skip_hidden) == EntryUse::Read <==> shown && kind
                == EntryKind::File && sound
            &&& scan::use_of(name, kind, skip_hidden) == EntryUse::Descend <==> shown && kind
                == EntryKind::Folder
            &&& scan::walk_use(name, kind, skip_hidden) == EntryUse::Read <==> shown && kind
                == EntryKind::File && sound
            &&& scan::walk_use(name, kind, skip_hidden) == EntryUse::Descend <==> shown && kind
                == EntryKind::Folder && !sound
        }),
{
}

/// A task reads as many files as is set, one at least; and a pass is full when it has read as many as
/// it may, where there is a limit.
pub proof fn passes_end_at_their_limit(cfg: Config, before: int, now: int)
    ensures
        cfg.files_per_scan_task >= 1 ==> scan::per_task(cfg) == cfg.files_per_scan_task,
        cfg.files_per_scan_task < 1 ==> scan::per_task(cfg) == 1,
        cfg.max_scan_entries <= 0 ==> !scan::pass_is_full(cfg, before, now),
        cfg.max_scan_entries > 0 ==> (scan::pass_is_full(cfg, before, now) <==> cfg.max_scan_entries
            <= before + now),
{
}

/// The next folder is the last open one of the stack. The clock is looked at every so many folders
/// and the count begins anew.
pub proof fn the_clock_is_looked_at(
    stack: Seq<Seq<char>>,
    patterns: Seq<Seq<char>>,
    since: int,
    every: int,
)
    ensures
        ({
            let (rest, dir) = walk::next_open(stack, patterns);
            let (left, count, next) = scan::next_of(stack, patterns, since, every);
            &&& left == rest
            &&& dir is None ==> next == NextView::Finished && count == since
            &&& dir is Some && since + 1 < every ==> next == NextView::List(dir->0) && count == since
                + 1
            &&& dir is Some && since + 1 >= every ==> next == NextView::CheckClock(dir->0) && count
                == 0
        }),
{
}

/// The folders in a folder are put on the stack so that the first of them comes next; a folder that
/// is to be listed again comes before them.
pub proof fn folders_come_in_their_order(
    stack: Seq<Seq<char>>,
    dir: Seq<char>,
    inside: Seq<Seq<char>>,
    i: int,
)
    ensures
        ({
            let all = scan::closed(stack, dir, inside, false);
            &&& all.len() == stack.len() + inside.len()
            &&& 0 <= i < stack.len() ==> all[i] == stack[i]
            &&& 0 <= i < inside.len() ==> all[all.len() - 1 - i] == inside[i]
            &&& scan::closed(stack, dir, inside, true) == all.push(dir)
        }),
{
}

/// The next folder of a walk is the last of the stack that is neither excluded nor gone through: all
/// that was behind it is one or the other.
pub proof fn the_last_new_folder_is_next(
    stack: Seq<Seq<char>>,
    patterns: Seq<Seq<char>>,
    visited: Seq<Seq<char>>,
)
    ensures
        ({
            let (rest, next) = scan::next_unvisited(stack, patterns, visited);
            let old_news = |d: Seq<char>| walk::excluded(d, patterns) || visited.contains(d);
            match next {
                Some(dir) => {
                    &&& rest.len() < stack.len()
                    &&& rest == stack.take(rest.len() as int)
                    &&& dir == stack[rest.len() as int]
                    &&& !old_news(dir)
                    &&& forall|i: int| rest.len() < i < stack.len() ==> old_news(#[trigger] stack[i])
                },
                None => rest.len() == 0 && forall|i: int|
                    0 <= i < stack.len() ==> old_news(#[trigger] stack[i]),
            }
        }),
    decreases stack.len(),
{
    let old_news = |d: Seq<char>| walk::excluded(d, patterns) || visited.contains(d);
    if stack.len() > 0 {
        if old_news(stack.last()) {
            let less = stack.drop_last();
            the_last_new_folder_is_next(less, patterns, visited);
            let (rest, next) = scan::next_unvisited(less, patterns, visited);
            assert forall|i: int| 0 <= i < less.len() implies #[trigger] stack[i] == less[i] by {}
            if next is Some {
                assert(less.take(rest.len() as int) =~= stack.take(rest.len() as int));
                assert forall|i: int| rest.len() < i < stack.len() implies old_news(
                    #[trigger] stack[i],
                ) by {
                    if i < less.len() {
                        assert(old_news(less[i]));
                    }
                }
            } else {
                assert forall|i: int| 0 <= i < stack.len() implies old_news(#[trigger] stack[i]) by {
                    if i < less.len() {
                        assert(old_news(less[i]));
                    }
                }
            }
        } else {
            assert(stack.drop_last() =~= stack.take(stack.len() - 1));
        }
    }
}

/// Tags are of use exactly where they give a title or an artist.
pub proof fn tags_need_a_title_or_an_artist(title: Seq<char>, artist: Seq<char>)
    ensures
        scan::usable(title, artist) <==> text::trimmed(title).len() > 0 || text::trimmed(artist).len()
            > 0,
{
}

/// A file is looked up unless one of its ids is known, or it was looked up before.
pub proof fn known_files_are_not_looked_up(tags: JsonView)
    ensures
        ({
            let holds = |f: Seq<char>|
                text::trimmed(json::text_or_empty(json::member(tags, f))).len() > 0;
            scan::identified(tags) <==> holds("mbid_album"@) || holds("mbid_recording"@) || holds(
                "mbid_artist"@,
            ) || holds("isrc"@) || json::member(tags, "_acoustid_checked"@) == Some(
                JsonView::Bool(true),
            )
        }),
{
}

/// One more file is one more to be looked up, unless it is known.
pub proof fn every_unknown_file_is_looked_up(files: Seq<(Seq<char>, int)>, known: Seq<bool>)
    requires
        files.len() > 0,
        files.len() == known.len(),
    ensures
        scan::unidentified(files, known) == scan::unidentified(files.drop_last(), known) + if known.last() {
            Seq::empty()
        } else {
            seq![files.last()]
        },
        scan::unidentified(Seq::empty(), known).len() == 0,
{
}

/// A lookup is about the first fifty files, or all where there are fewer.
pub proof fn lookups_are_about_the_first(files: Seq<(Seq<char>, int)>)
    ensures
        files.len() <= 50 ==> scan::batch_of(files) == files,
        files.len() > 50 ==> scan::batch_of(files).len() == 50,
        forall|i: int|
            0 <= i < scan::batch_of(files).len() ==> #[trigger] scan::batch_of(files)[i] == files[i],
{
}

/// A match gives the id of its recording and that of its first release group.
pub proof fn the_first_match_gives_the_ids(
    result: JsonView,
    m: JsonView,
    g: JsonView,
    more: Seq<JsonView>,
    others: Seq<JsonView>,
    recording: Seq<char>,
    album: Seq<char>,
)
    requires
        json::member(result, "matches"@) == Some(JsonView::Array(seq![m] + more)),
        json::member(m, "id"@) == Some(JsonView::Str(recording)),
        json::member(m, "releaseGroups"@) == Some(JsonView::Array(seq![g] + others)),
        json::member(g, "id"@) == Some(JsonView::Str(album)),
    ensures
        scan::match_ids_of(result) == Some((album, recording)),
{
}

/// Where there is no match there are no ids.
pub proof fn no_match_gives_no_ids(result: JsonView)
    requires
        json::items_of(json::member(result, "matches"@)).len() == 0,
    ensures
        scan::match_ids_of(result) is None,
{
}

/// One more result is about one more file, the one at its path, unless it names none.
pub proof fn results_are_about_their_path(results: Seq<JsonView>, r: JsonView, root: Seq<char>)
    ensures
        ({
            let before = scan::checked_of(results, root);
            let after = scan::checked_of(results.push(r), root);
            match json::member(r, "path"@) {
                Some(JsonView::Str(path)) => after == before.push(
                    (CheckedView { rel: group::relative(path, root), ids: scan::match_ids_of(r) }),
                ),
                _ => after == before,
            }
        }),
{
    assert(results.push(r).drop_last() =~= results);
}

// ---------------------------------------------------------------------------
// Sidecars

/// An element of an album's sidecar is the field that its name says: a title, a key or an id replaces
/// what was there, an artist, a genre, a style, a mood, a chord or a section comes after the others,
/// and no other field changes.
pub proof fn album_elements_are_their_fields(n: AlbumNfoView, v: Seq<char>)
    requires
        v.len() > 0,
    ensures
        nfo::album_with(n, "title"@, v) == (AlbumNfoView { title: v, ..n }),
        nfo::album_with(n, "artist"@, v) == (AlbumNfoView { artists: n.artists.push(v), ..n }),
        nfo::album_with(n, "albumartist"@, v) == (AlbumNfoView {
            album_artists: n.album_artists.push(v),
            ..n
        }),
        nfo::album_with(n, "genre"@, v) == (AlbumNfoView { genres: n.genres.push(v), ..n }),
        nfo::album_with(n, "styles"@, v) == (AlbumNfoView { styles: n.styles.push(v), ..n }),
        nfo::album_with(n, "moods"@, v) == (AlbumNfoView { moods: n.moods.push(v), ..n }),
        nfo::album_with(n, "mbid"@, v) == (AlbumNfoView { mbid: v, ..n }),
        nfo::album_with(n, "releasedate"@, v) == (AlbumNfoView { releasedate: v, ..n }),
        nfo::album_with(n, "description"@, v) == (AlbumNfoView { description: v, ..n }),
        nfo::album_with(n, "key"@, v) == (AlbumNfoView { key: v, ..n }),
        nfo::album_with(n, "chord"@, v) == (AlbumNfoView { chords: n.chords.push(v), ..n }),
        nfo::album_with(n, "structure"@, v) == (AlbumNfoView { structure: n.structure.push(v), ..n }),
        ({
            let r = nfo::album_with(n, "year"@, v);
            r == (AlbumNfoView { year: r.year, ..n })
        }),
        ({
            let r = nfo::album_with(n, "bpm"@, v);
            r == (AlbumNfoView { bpm: r.bpm, ..n }) && (r.bpm is Some ==> r.bpm == Some(v))
        }),
{
    nfo::album_names_differ();
}

/// Empty elements add nothing to a list and do not wipe out an id, a date, a description or a key.
pub proof fn empty_elements_say_nothing(n: AlbumNfoView, m: ArtistNfoView)
    ensures
        ({
            let none = Seq::<char>::empty();
            &&& nfo::album_with(n, "artist"@, none) == n && nfo::album_with(n, "albumartist"@, none)
                == n
            &&& nfo::album_with(n, "genre"@, none) == n && nfo::album_with(n, "styles"@, none) == n
            &&& nfo::album_with(n, "moods"@, none) == n && nfo::album_with(n, "mbid"@, none) == n
            &&& nfo::album_with(n, "releasedate"@, none) == n && nfo::album_with(
                n,
                "description"@,
                none,
            ) == n
            &&& nfo::album_with(n, "key"@, none) == n && nfo::album_with(n, "chord"@, none) == n
            &&& nfo::album_with(n, "structure"@, none) == n
            &&& nfo::artist_with(m, "genre"@, none) == m && nfo::artist_with(m, "styles"@, none) == m
            &&& nfo::artist_with(m, "moods"@, none) == m && nfo::artist_with(m, "mbid"@, none) == m
            &&& nfo::artist_with(m, "similarartist"@, none) == m
        }),
{
    nfo::album_names_differ();
    nfo::artist_names_differ();
}

/// An element of an artist's sidecar is the field that its name says, and no other field changes.
pub proof fn artist_elements_are_their_fields(n: ArtistNfoView, v: Seq<char>)
    requires
        v.len() > 0,
    ensures
        nfo::artist_with(n, "name"@, v) == (ArtistNfoView { name: v, ..n }),
        nfo::artist_with(n, "genre"@, v) == (ArtistNfoView { genres: n.genres.push(v), ..n }),
        nfo::artist_with(n, "styles"@, v) == (ArtistNfoView { styles: n.styles.push(v), ..n }),
        nfo::artist_with(n, "moods"@, v) == (ArtistNfoView { moods: n.moods.push(v), ..n }),
        nfo::artist_with(n, "mbid"@, v) == (ArtistNfoView { mbid: v, ..n }),
        nfo::artist_with(n, "biography"@, v) == (ArtistNfoView { biography: v, ..n }),
        nfo::artist_with(n, "similarartist"@, v) == (ArtistNfoView {
            similar_artists: n.similar_artists.push(v),
            ..n
        }),
{
    nfo::artist_names_differ();
}

/// A text in an element is taken in as the element's field, trimmed, and the element is closed again;
/// the case of its name does not matter.
pub proof fn elements_are_taken_in(e: Seq<EventView>, tag: Seq<char>, v: Seq<char>)
    ensures
        ({
            let all = e.push(EventView::Start(tag)).push(EventView::Text(Some(v))).push(
                EventView::End,
            );
            &&& nfo::album_of(all) == nfo::album_with(
                nfo::album_of(e),
                text::lowered(tag),
                text::trimmed(v),
            )
            &&& nfo::artist_of(all) == nfo::artist_with(
                nfo::artist_of(e),
                text::lowered(tag),
                text::trimmed(v),
            )
            &&& nfo::open_elements(all) == nfo::open_elements(e)
        }),
{
    let a = e.push(EventView::Start(tag));
    let b = a.push(EventView::Text(Some(v)));
    nfo::album_of_push(e, EventView::Start(tag));
    nfo::album_of_push(a, EventView::Text(Some(v)));
    nfo::album_of_push(b, EventView::End);
    nfo::artist_of_push(e, EventView::Start(tag));
    nfo::artist_of_push(a, EventView::Text(Some(v)));
    nfo::artist_of_push(b, EventView::End);
    let before = nfo::open_elements(e);
    assert(before.push(text::lowered(tag)).drop_last() =~= before);
}

/// A credit is taken in with its name and its role, and not at all where it has no name.
pub proof fn credits_are_taken_in(e: Seq<EventView>, who: Seq<char>, role: Seq<char>)
    ensures
        ({
            let n = nfo::album_of(e);
            let attrs = seq![Some(("name"@, who)), Some(("role"@, role))];
            nfo::album_of(e.push(EventView::Empty("credit"@, attrs))) == if who.len() > 0 {
                AlbumNfoView { credits: n.credits.push((who, role)), ..n }
            } else {
                n
            }
        }),
{
    let attrs = seq![Some(("name"@, who)), Some(("role"@, role))];
    nfo::album_of_push(e, EventView::Empty("credit"@, attrs));
    reveal_with_fuel(nfo::attribute, 3);
    reveal_strlit("name");
    reveal_strlit("role");
    reveal_strlit("credit");
    assert("name"@[0] == 'n' && "role"@[0] == 'r');
    assert(attrs.last() == Some(("role"@, role)));
    assert(attrs.drop_last() =~= seq![Some(("name"@, who))]);
    assert(text::lowered("credit"@) =~= "credit"@);
}

/// A sidecar of an album counts where it gives a title, an artist, a year or an id, and one of an
/// artist where it gives a name or an id.
pub proof fn sidecars_must_say_something(n: AlbumNfoView, m: ArtistNfoView)
    ensures
        nfo::useful_album(n) <==> n.title.len() > 0 || n.artists.len() > 0 || n.year is Some
            || n.mbid.len() > 0,
        nfo::useful_artist(m) <==> m.name.len() > 0 || m.mbid.len() > 0,
{
}

/// The digits of a text are all of its digits, in their order.
proof fn digits_are_kept(s: Seq<char>)
    ensures
        nfo::digits_of(s) == s.filter(|c: char| '0' <= c <= '9'),
    decreases s.len(),
{
    reveal(Seq::filter);
    if s.len() > 0 {
        digits_are_kept(s.drop_last());
    }
}

/// A year is made of the first four digits of a text: what follows them does not matter.
pub proof fn years_are_four_digits(s: Seq<char>, rest: Seq<char>)
    requires
        s.len() == 4,
        forall|i: int| 0 <= i < 4 ==> '0' <= #[trigger] s[i] <= '9',
    ensures
        nfo::year_in(s + rest) == Some(
            1000 * (s[0] as int - 48) + 100 * (s[1] as int - 48) + 10 * (s[2] as int - 48) + (s[3] as int
                - 48),
        ),
{
    digits_are_kept(s + rest);
    let keep = |c: char| '0' <= c <= '9';
    Seq::<char>::filter_distributes_over_add(s, rest, keep);
    all_are_kept(s);
    let d = nfo::digits_of(s + rest);
    assert(d == s + rest.filter(keep));
    let four = if d.len() > 4 {
        d.take(4)
    } else {
        d
    };
    assert(four =~= s);
    reveal_with_fuel(text::digits_value, 5);
    assert(text::all_digits(s));
    let a = s.drop_last();
    let b = a.drop_last();
    let c = b.drop_last();
    assert(c.drop_last().len() == 0);
    assert(text::digits_value(s) == 1000 * (s[0] as int - 48) + 100 * (s[1] as int - 48) + 10 * (
    s[2] as int - 48) + (s[3] as int - 48));
}

proof fn all_are_kept(s: Seq<char>)
    requires
        forall|i: int| 0 <= i < s.len() ==> '0' <= #[trigger] s[i] <= '9',
    ensures
        s.filter(|c: char| '0' <= c <= '9') == s,
    decreases s.len(),
{
    reveal(Seq::filter);
    if s.len() > 0 {
        let less = s.drop_last();
        assert forall|i: int| 0 <= i < less.len() implies '0' <= #[trigger] less[i] <= '9' by {
            assert(less[i] == s[i]);
        }
        all_are_kept(less);
        assert(s[s.len() - 1] == s.last());
        assert(less.push(s.last()) =~= s);
    }
}

/// Characters that mean something in a sidecar are written as entities, and no others are changed.
pub proof fn only_marks_are_escaped(a: Seq<char>, c: char)
    ensures
        nfo::escaped(a.push(c)) == nfo::escaped(a) + if c == '&' {
            "&amp;"@
        } else if c == '<' {
            "&lt;"@
        } else if c == '>' {
            "&gt;"@
        } else if c == '"' {
            "&quot;"@
        } else if c == '\'' {
            "&apos;"@
        } else {
            seq![c]
        },
        nfo::escaped(Seq::empty()).len() == 0,
{
    assert(a.push(c).drop_last() =~= a);
}

// ---------------------------------------------------------------------------
// Analyses

/// The album's sidecar says what the files and the analysis say: title, artist, year and genre of the
/// album, the description, the tempo, the key with its mode, the chords, the sections and the credits
/// that were found, and nothing else.
pub proof fn sidecars_say_what_was_found(
    info: InfoView,
    description: Seq<char>,
    data: Option<JsonView>,
    tempo: Option<Seq<char>>,
    structure: Seq<Seq<char>>,
    credits: Seq<(Seq<char>, Seq<char>)>,
)
    ensures
        ({
            let n = sidecars::album_sidecar(info, description, data, tempo, structure, credits);
            let one = |v: Seq<Seq<char>>, s: Seq<char>|
                (s.len() == 0 ==> v.len() == 0) && (s.len() > 0 ==> v == seq![s]);
            &&& n.title == info.album
            &&& one(n.album_artists, info.album_artist) && one(n.genres, info.genre)
            &&& n.year == info.year
            &&& n.description == description && n.bpm == tempo && n.structure == structure
            &&& n.credits == credits
            &&& n.artists.len() == 0 && n.styles.len() == 0 && n.moods.len() == 0
            &&& n.mbid.len() == 0 && n.releasedate.len() == 0
        }),
{
}

/// The artist's sidecar has the name, the genre and the similar artists anew.
pub proof fn artist_sidecars_are_renewed(
    info: InfoView,
    similar: Seq<Seq<char>>,
    existing: ArtistNfoView,
)
    ensures
        ({
            let n = sidecars::artist_sidecar(info, similar, existing);
            &&& n.name == info.album_artist
            &&& info.genre.len() > 0 ==> n.genres == seq![info.genre]
            &&& info.genre.len() == 0 ==> n.genres.len() == 0
            &&& n.similar_artists == similar
        }),
{
}

/// The key of an analysis is named with its mode where both are known.
pub proof fn keys_come_with_their_mode(data: JsonView, key: Seq<char>, mode: Seq<char>)
    requires
        json::member(data, "key"@) == Some(JsonView::Str(key)),
    ensures
        json::member(data, "mode"@) is None ==> sidecars::key_of(Some(data)) == key,
        json::member(data, "mode"@) == Some(JsonView::Str(mode)) && key.len() > 0 && mode.len() > 0
            ==> sidecars::key_of(Some(data)) == key + seq![' '] + mode,
{
    reveal_strlit(" ");
    assert(" "@ =~= seq![' ']);
}

/// The chords of an analysis are those of its changes that name one, in their order.
pub proof fn every_chord_is_named(v: Seq<JsonView>)
    ensures
        sidecars::chords_among(v) == v.filter(
            |e: JsonView| json::member(e, "chord"@) is Some && json::member(e, "chord"@)->0 is Str,
        ).map_values(|e: JsonView| json::member(e, "chord"@)->0->Str_0),
    decreases v.len(),
{
    reveal(Seq::filter);
    let keep = |e: JsonView|
        json::member(e, "chord"@) is Some && json::member(e, "chord"@)->0 is Str;
    let name = |e: JsonView| json::member(e, "chord"@)->0->Str_0;
    if v.len() > 0 {
        every_chord_is_named(v.drop_last());
        let rest = v.drop_last().filter(keep);
        assert(rest.push(v.last()).map_values(name) =~= rest.map_values(name).push(name(v.last())));
    } else {
        assert(sidecars::chords_among(v) =~= v.filter(keep).map_values(name));
    }
}

/// One more section counts where it has a label and a start.
pub proof fn sections_have_a_label_and_a_start(v: Seq<JsonView>, e: JsonView)
    ensures
        ({
            let before = sidecars::sections_among(v);
            let after = sidecars::sections_among(v.push(e));
            match (json::member(e, "label"@), json::number_text(json::member(e, "start"@))) {
                (Some(JsonView::Str(label)), Some(start)) => after == before.push((label, start)),
                _ => after == before,
            }
        }),
{
    assert(v.push(e).drop_last() =~= v);
}

/// A section is written with its label and its start in seconds.
pub proof fn sections_are_written(label: Seq<char>, start: Seq<char>)
    ensures
        sidecars::section_line((label, start)) == label + seq!['@'] + start + seq!['s'],
{
    reveal_strlit("@");
    reveal_strlit("s");
    assert("@"@ =~= seq!['@']);
    assert("s"@ =~= seq!['s']);
}

/// An analysis is asked for the file, and for just what is wanted of it; genres and moods are asked
/// for elsewhere.
pub proof fn analyses_are_asked_for_what_is_wanted(path: Seq<char>, want: Analysis)
    ensures
        ({
            let body = sidecars::analysis_body(path, want);
            &&& json::member(body, "path"@) == Some(JsonView::Str(path))
            &&& json::member(body, "structure"@) == Some(JsonView::Bool(want.structure))
            &&& json::member(body, "chroma"@) == Some(JsonView::Bool(want.chords))
            &&& json::member(body, "bpm"@) == Some(JsonView::Bool(want.bpm))
            &&& json::member(body, "genres"@) == Some(JsonView::Bool(false))
            &&& json::member(body, "moods"@) == Some(JsonView::Bool(false))
        }),
{
    reveal_strlit("path");
    reveal_strlit("structure");
    reveal_strlit("chroma");
    reveal_strlit("bpm");
    reveal_strlit("genres");
    reveal_strlit("moods");
    assert("genres"@[0] == 'g' && "chroma"@[0] == 'c');
    assert("path"@.len() == 4 && "structure"@.len() == 9 && "bpm"@.len() == 3 && "genres"@.len() == 6
        && "moods"@.len() == 5 && "chroma"@.len() == 6);
    let m = sidecars::analysis_body(path, want)->Object_0;
    assert(m[0].0 == "path"@ && m[1].0 == "genres"@ && m[2].0 == "moods"@ && m[3].0 == "structure"@
        && m[4].0 == "chroma"@ && m[5].0 == "bpm"@);
    members_are_found_by_name(m, 0);
    members_are_found_by_name(m, 1);
    members_are_found_by_name(m, 2);
    members_are_found_by_name(m, 3);
    members_are_found_by_name(m, 4);
    members_are_found_by_name(m, 5);
}

} // verus!
