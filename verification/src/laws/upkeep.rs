//! Which folders and files are looked at, which are cleaned up, and how much is done at a time.

use crate::cleanup;
use crate::cleanup::Folder;
use crate::config::Config;
use crate::group;
use crate::organizer;
use crate::text;
use crate::walk;
use vstd::prelude::*;

verus! {

// ---------------------------------------------------------------------------
// Excluded folders

/// A folder that is excluded, and with it all that lies beneath, but no folder whose name only begins
/// like it. A slash or a star at the end of the pattern makes no difference.
pub proof fn exclusion_reaches_down(p: Seq<char>, rel: Seq<char>)
    requires
        p.len() > 0,
        p.last() != '/',
        p.last() != '*',
    ensures
        ({
            let beneath = rel == p || (rel.len() > p.len() && rel.take(p.len() as int) == p
                && rel[p.len() as int] == '/');
            &&& organizer::covers(p, rel) <==> beneath
            &&& organizer::covers(p + seq!['/'], rel) <==> beneath
            &&& organizer::covers(p + seq!['/', '*'], rel) <==> beneath
        }),
{
    reveal_strlit("/");
    reveal_strlit("/*");
    assert("/"@ =~= seq!['/']);
    assert("/*"@ =~= seq!['/', '*']);
    let f = text::among("/"@);
    assert("/"@[0] == '/');
    assert forall|c: char| #[trigger] f(c) <==> c == '/' by {}
    let slashed = p + seq!['/'];
    assert(slashed.drop_last() =~= p && slashed.last() == '/');
    assert(text::strip_back(p, f) == p);
    assert(text::strip_back(slashed, f) == p);
    let starred = p + seq!['/', '*'];
    assert(starred.last() == '*');
    assert(text::strip_back(starred, f) == starred);
    assert(starred.subrange(starred.len() - 2, starred.len() as int) =~= "/*"@);
    assert(text::ends(starred, "/*"@));
    assert(starred.take(starred.len() - 2) =~= p);
    if text::ends(p, "/*"@) {
        assert(p.subrange(p.len() - 2, p.len() as int)[1] == '*');
    }
    let q = p + "/"@;
    if text::begins(rel, q) {
        assert(rel.subrange(0, q.len() as int) == q);
        assert(rel.take(p.len() as int) =~= q.take(p.len() as int));
        assert(q.take(p.len() as int) =~= p);
        assert(rel[p.len() as int] == rel.subrange(0, q.len() as int)[p.len() as int]);
    }
    if rel.len() > p.len() && rel.take(p.len() as int) == p && rel[p.len() as int] == '/' {
        assert forall|i: int| 0 <= i < q.len() implies rel.subrange(0, q.len() as int)[i] == q[i] by {
            if i < p.len() {
                assert(rel.take(p.len() as int)[i] == p[i]);
            }
        }
        assert(rel.subrange(0, q.len() as int) =~= q);
    }
}

// ---------------------------------------------------------------------------
// Walking

/// The audio files of a folder are all entries that are named like one and are not passed over as
/// hidden, and no others.
pub proof fn every_audio_file_is_found(entries: Seq<(Seq<char>, bool)>, skip_hidden: bool)
    ensures
        walk::audio_names(entries, skip_hidden) == entries.filter(
            |e: (Seq<char>, bool)|
                organizer::audio(e.0) && !(skip_hidden && e.0.len() > 0 && e.0[0] == '.'),
        ).map_values(|e: (Seq<char>, bool)| e.0),
    decreases entries.len(),
{
    reveal(Seq::filter);
    let keep = |e: (Seq<char>, bool)|
        organizer::audio(e.0) && !(skip_hidden && e.0.len() > 0 && e.0[0] == '.');
    let name = |e: (Seq<char>, bool)| e.0;
    if entries.len() > 0 {
        every_audio_file_is_found(entries.drop_last(), skip_hidden);
        let rest = entries.drop_last().filter(keep);
        assert(rest.push(entries.last()).map_values(name) =~= rest.map_values(name).push(
            entries.last().0,
        ));
    } else {
        assert(walk::audio_names(entries, skip_hidden) =~= entries.filter(keep).map_values(name));
    }
}

/// The folders that are looked into are all of the entries that are folders, are not named like audio
/// and are not passed over as hidden, each under the folder that holds it.
pub proof fn every_folder_is_looked_into(
    dir: Seq<char>,
    entries: Seq<(Seq<char>, bool)>,
    skip_hidden: bool,
)
    ensures
        walk::subfolders(dir, entries, skip_hidden) == entries.filter(
            |e: (Seq<char>, bool)|
                e.1 && !organizer::audio(e.0) && !(skip_hidden && e.0.len() > 0 && e.0[0] == '.'),
        ).map_values(
            |e: (Seq<char>, bool)|
                if dir.len() == 0 {
                    e.0
                } else {
                    dir + seq!['/'] + e.0
                },
        ),
    decreases entries.len(),
{
    reveal(Seq::filter);
    reveal_strlit("/");
    assert("/"@ =~= seq!['/']);
    let keep = |e: (Seq<char>, bool)|
        e.1 && !organizer::audio(e.0) && !(skip_hidden && e.0.len() > 0 && e.0[0] == '.');
    let place = |e: (Seq<char>, bool)|
        if dir.len() == 0 {
            e.0
        } else {
            dir + seq!['/'] + e.0
        };
    if entries.len() > 0 {
        every_folder_is_looked_into(dir, entries.drop_last(), skip_hidden);
        let rest = entries.drop_last().filter(keep);
        assert(rest.push(entries.last()).map_values(place) =~= rest.map_values(place).push(
            place(entries.last()),
        ));
    } else {
        assert(walk::subfolders(dir, entries, skip_hidden) =~= entries.filter(keep).map_values(
            place,
        ));
    }
}

/// The folder that is looked at next is the last one that is waiting and not excluded: nothing that
/// was before it is lost, and all that was behind it is excluded. There is none only where all are.
pub proof fn the_last_open_folder_is_next(stack: Seq<Seq<char>>, patterns: Seq<Seq<char>>)
    ensures
        ({
            let (rest, next) = walk::next_open(stack, patterns);
            match next {
                Some(dir) => {
                    &&& rest.len() < stack.len()
                    &&& rest == stack.take(rest.len() as int)
                    &&& dir == stack[rest.len() as int]
                    &&& !walk::excluded(dir, patterns)
                    &&& forall|i: int|
                        rest.len() < i < stack.len() ==> walk::excluded(#[trigger] stack[i], patterns)
                },
                None => rest.len() == 0 && forall|i: int|
                    0 <= i < stack.len() ==> walk::excluded(#[trigger] stack[i], patterns),
            }
        }),
    decreases stack.len(),
{
    if stack.len() > 0 {
        if walk::excluded(stack.last(), patterns) {
            let less = stack.drop_last();
            the_last_open_folder_is_next(less, patterns);
            let (rest, next) = walk::next_open(less, patterns);
            assert(stack[stack.len() - 1] == stack.last());
            assert forall|i: int| 0 <= i < stack.len() - 1 implies #[trigger] stack[i] == less[i] by {}
            if next is Some {
                assert(less.take(rest.len() as int) =~= stack.take(rest.len() as int));
                assert forall|i: int| rest.len() < i < stack.len() implies walk::excluded(
                    #[trigger] stack[i],
                    patterns,
                ) by {
                    if i < less.len() {
                        assert(walk::excluded(less[i], patterns));
                    }
                }
            } else {
                assert forall|i: int| 0 <= i < stack.len() implies walk::excluded(
                    #[trigger] stack[i],
                    patterns,
                ) by {
                    if i < less.len() {
                        assert(walk::excluded(less[i], patterns));
                    }
                }
            }
        } else {
            assert(stack.drop_last() =~= stack.take(stack.len() - 1));
        }
    }
}

// ---------------------------------------------------------------------------
// Cleaning up

/// All of some folders are silent exactly where each of them is.
proof fn each_is_silent(v: Seq<Folder>)
    ensures
        cleanup::all_silent(v) <==> forall|i: int|
            0 <= i < v.len() ==> cleanup::silent(#[trigger] v[i]),
    decreases v.len(),
{
    if v.len() > 0 {
        let less = v.drop_last();
        each_is_silent(less);
        assert forall|i: int| 0 <= i < less.len() implies less[i] == #[trigger] v[i] by {}
        assert(v[v.len() - 1] == v.last());
        if cleanup::all_silent(v) {
            assert forall|i: int| 0 <= i < v.len() implies cleanup::silent(#[trigger] v[i]) by {
                if i < less.len() {
                    assert(cleanup::silent(less[i]));
                }
            }
        }
        if forall|i: int| 0 <= i < v.len() ==> cleanup::silent(#[trigger] v[i]) {
            assert forall|i: int| 0 <= i < less.len() implies cleanup::silent(#[trigger] less[i]) by {
                assert(cleanup::silent(v[i]));
            }
        }
    }
}

/// A folder is silent where it could be listed, none of its files is audio, and every folder in it is
/// silent in turn.
pub proof fn silence_reaches_down(f: Folder)
    ensures
        cleanup::silent(f) <==> f.listed && (forall|i: int|
            0 <= i < f.files@.len() ==> !organizer::audio((#[trigger] f.files@[i])@)) && (forall|
            i: int,
        |
            0 <= i < f.folders@.len() ==> cleanup::silent(#[trigger] f.folders@[i])),
{
    each_is_silent(f.folders@);
    let names = text::views(f.files@);
    if cleanup::any_audio(names) {
        let i = choose|i: int| 0 <= i < names.len() && organizer::audio(#[trigger] names[i]);
        assert(organizer::audio(f.files@[i]@));
    } else {
        assert forall|i: int| 0 <= i < f.files@.len() implies !organizer::audio(
            (#[trigger] f.files@[i])@,
        ) by {
            assert(!organizer::audio(names[i]));
        }
    }
}

/// Without exclusions, what is silent need not stay and what need not stay is silent.
proof fn silence_decides(f: Folder, patterns: Seq<Seq<char>>)
    requires
        patterns.len() == 0,
    ensures
        cleanup::stays(f, patterns) <==> !cleanup::silent(f),
    decreases f, 0nat,
{
    silence_decides_inside(f.folders@, patterns);
    assert(!walk::excluded(f.rel@, patterns));
}

proof fn silence_decides_inside(v: Seq<Folder>, patterns: Seq<Seq<char>>)
    requires
        patterns.len() == 0,
    ensures
        cleanup::some_stay(v, patterns) <==> !cleanup::all_silent(v),
    decreases v, v.len(),
{
    if v.len() > 0 {
        silence_decides_inside(v.drop_last(), patterns);
        silence_decides(v.last(), patterns);
    }
}

/// Where nothing is excluded, a folder that could be listed is deleted exactly where it is silent;
/// it is deleted last, after what it holds. The root never is.
pub proof fn silent_folders_go(f: Folder, patterns: Seq<Seq<char>>, skip_hidden: bool)
    requires
        patterns.len() == 0,
        f.listed,
    ensures
        ({
            let inside = cleanup::all_doomed(f.folders@, patterns, skip_hidden);
            &&& cleanup::silent(f) ==> cleanup::doomed(f, patterns, skip_hidden, false)
                == inside.push(f)
            &&& !cleanup::silent(f) ==> cleanup::doomed(f, patterns, skip_hidden, false) == inside
            &&& cleanup::doomed(f, patterns, skip_hidden, true) == inside
        }),
{
    silence_decides(f, patterns);
    assert(!walk::excluded(f.rel@, patterns));
}

/// Every folder is looked at for itself: one more folder beside others adds what is deleted of it,
/// and nothing where it is hidden and hidden ones are passed over.
pub proof fn folders_are_cleaned_one_by_one(
    v: Seq<Folder>,
    f: Folder,
    patterns: Seq<Seq<char>>,
    skip_hidden: bool,
)
    ensures
        ({
            let name = organizer::last_part(f.rel@);
            cleanup::all_doomed(v.push(f), patterns, skip_hidden) == if skip_hidden && name.len() > 0
                && name[0] == '.' {
                cleanup::all_doomed(v, patterns, skip_hidden)
            } else {
                cleanup::all_doomed(v, patterns, skip_hidden) + cleanup::doomed(
                    f,
                    patterns,
                    skip_hidden,
                    false,
                )
            }
        }),
{
    assert(v.push(f).drop_last() =~= v);
}

/// An excluded folder, or one that could not be listed, is left with all that it holds.
pub proof fn excluded_folders_are_left(f: Folder, patterns: Seq<Seq<char>>, skip_hidden: bool, i: int)
    requires
        !f.listed || (0 <= i < patterns.len() && organizer::covers(patterns[i], f.rel@)),
    ensures
        cleanup::stays(f, patterns),
        cleanup::doomed(f, patterns, skip_hidden, false).len() == 0,
{
}

// ---------------------------------------------------------------------------
// Budgets and tasks

/// Without a limit every album is planned. With one, no more than what is left of it, and all of them
/// where that is enough; what is planned is taken off what is left.
pub proof fn budgets_are_kept(limit: int, stored: Option<Seq<char>>, albums: int)
    requires
        limit >= 0,
        albums >= 0,
    ensures
        ({
            let n = group::planned(limit, stored, albums);
            let left = match stored {
                Some(s) => match text::parsed_int(s, i64::MIN as int, i64::MAX as int) {
                    Some(k) => k,
                    None => limit,
                },
                None => limit,
            };
            &&& limit == 0 ==> n == albums && group::budget_after(limit, stored, albums) is None
            &&& limit > 0 && left <= 0 ==> n == 0 && group::budget_after(
                limit,
                stored,
                albums,
            ) is None
            &&& limit > 0 && 0 < left <= albums ==> n == left && group::budget_after(
                limit,
                stored,
                albums,
            ) == Some(0int)
            &&& limit > 0 && left > albums ==> n == albums && group::budget_after(
                limit,
                stored,
                albums,
            ) == Some(left - albums)
        }),
{
}

/// Albums are planned in as few tasks as hold them: all albums fit in, and one task fewer would not
/// hold them.
pub proof fn tasks_are_no_more_than_needed(albums: int, each: int)
    requires
        albums >= 0,
        each >= 1,
    ensures
        albums <= group::task_count(albums, each) * each,
        albums > (group::task_count(albums, each) - 1) * each,
{
    let n = group::task_count(albums, each);
    assert(albums <= n * each && albums > (n - 1) * each) by (nonlinear_arith)
        requires
            n == (albums + each - 1) / each,
            each >= 1,
            albums >= 0,
    ;
}

/// As many albums go into a task as is set, and one at least.
pub proof fn tasks_hold_what_is_set(cfg: Config)
    ensures
        cfg.albums_per_task >= 1 ==> group::albums_each(cfg) == cfg.albums_per_task,
        cfg.albums_per_task < 1 ==> group::albums_each(cfg) == 1,
{
}

// ---------------------------------------------------------------------------
// Look-alikes

/// The files of one mark are all those that have it, in their order.
pub proof fn marks_gather_their_files(files: Seq<(Seq<char>, u64)>, mark: u64)
    ensures
        group::with_mark(files, mark) == files.filter(
            |f: (Seq<char>, u64)| f.1 == mark,
        ).map_values(|f: (Seq<char>, u64)| f.0),
    decreases files.len(),
{
    reveal(Seq::filter);
    let keep = |f: (Seq<char>, u64)| f.1 == mark;
    let name = |f: (Seq<char>, u64)| f.0;
    if files.len() > 0 {
        marks_gather_their_files(files.drop_last(), mark);
        let rest = files.drop_last().filter(keep);
        assert(rest.push(files.last()).map_values(name) =~= rest.map_values(name).push(
            files.last().0,
        ));
    } else {
        assert(group::with_mark(files, mark) =~= files.filter(keep).map_values(name));
    }
}

/// The groups of look-alikes are the files of each mark in turn, where there is more than one.
pub proof fn look_alikes_go_by_mark(files: Seq<(Seq<char>, u64)>, ms: Seq<u64>)
    ensures
        group::alike(files, ms) == ms.map_values(|m: u64| group::with_mark(files, m)).filter(
            |g: Seq<Seq<char>>| g.len() >= 2,
        ),
    decreases ms.len(),
{
    reveal(Seq::filter);
    let of = |m: u64| group::with_mark(files, m);
    let many = |g: Seq<Seq<char>>| g.len() >= 2;
    if ms.len() > 0 {
        look_alikes_go_by_mark(files, ms.drop_last());
        assert(ms.map_values(of).drop_last() =~= ms.drop_last().map_values(of));
        assert(ms.map_values(of).last() == of(ms.last()));
    } else {
        assert(group::alike(files, ms) =~= ms.map_values(of).filter(many));
    }
}

/// Every mark that a file has is among the marks, and each of them is there once.
pub proof fn every_mark_counts_once(files: Seq<(Seq<char>, u64)>)
    ensures
        forall|i: int|
            0 <= i < files.len() ==> group::marks(files).contains((#[trigger] files[i]).1),
        group::marks(files).no_duplicates(),
    decreases files.len(),
{
    if files.len() > 0 {
        let less = files.drop_last();
        every_mark_counts_once(less);
        let rest = group::marks(less);
        let all = group::marks(files);
        assert forall|m: u64| rest.contains(m) implies all.contains(m) by {
            let k = choose|k: int| 0 <= k < rest.len() && rest[k] == m;
            assert(all[k] == m);
        }
        assert forall|i: int| 0 <= i < files.len() implies all.contains((#[trigger] files[i]).1) by {
            if i < less.len() {
                assert(less[i] == files[i]);
                assert(rest.contains(less[i].1));
            } else if !rest.contains(files.last().1) {
                assert(all.last() == files.last().1);
                assert(all[all.len() - 1] == files.last().1);
            }
        }
    }
}

} // verus!
