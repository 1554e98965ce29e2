//! Folders in which no audio is left.

use crate::organizer;
use crate::text;
use crate::walk;
use vstd::prelude::*;

verus! {

/// A folder and all that is in it.
#[derive(Debug)]
pub struct Folder {
    /// Path relative to the library root, empty for the root itself.
    pub rel: String,
    /// Whether its entries could be listed.
    pub listed: bool,
    pub files: Vec<String>,
    pub folders: Vec<Folder>,
}

/// One of the names is that of an audio file.
pub open spec fn any_audio(files: Seq<Seq<char>>) -> bool {
    exists|i: int| 0 <= i < files.len() && organizer::audio(#[trigger] files[i])
}

/// A folder is passed over: it is hidden, and hidden ones are.
pub open spec fn passed_over(f: Folder, skip_hidden: bool) -> bool {
    walk::hidden(organizer::last_part(f.rel@), skip_hidden)
}

/// A folder and all that is in it, hidden or not, could be listed and holds no audio.
pub open spec fn silent(f: Folder) -> bool
    decreases f, 0nat,
{
    f.listed && !any_audio(text::views(f.files@)) && all_silent(f.folders@)
}

/// All the folders are without audio.
pub open spec fn all_silent(v: Seq<Folder>) -> bool
    decreases v, v.len(),
{
    if v.len() == 0 {
        true
    } else {
        all_silent(v.drop_last()) && silent(v.last())
    }
}

/// A folder has to stay: it is excluded, or it could not be listed, or there is audio in it, or
/// something in it has to stay. Hidden files and folders count like all others.
pub open spec fn stays(f: Folder, patterns: Seq<Seq<char>>) -> bool
    decreases f, 0nat,
{
    walk::excluded(f.rel@, patterns) || !f.listed || any_audio(text::views(f.files@)) || some_stay(
        f.folders@,
        patterns,
    )
}

/// One of the folders has to stay.
pub open spec fn some_stay(v: Seq<Folder>, patterns: Seq<Seq<char>>) -> bool
    decreases v, v.len(),
{
    if v.len() == 0 {
        false
    } else {
        some_stay(v.drop_last(), patterns) || stays(v.last(), patterns)
    }
}

/// The folders to delete in a folder, from the inside out, and itself where it may be deleted.
pub open spec fn doomed(
    f: Folder,
    patterns: Seq<Seq<char>>,
    skip_hidden: bool,
    is_root: bool,
) -> Seq<Folder>
    decreases f, 0nat,
{
    if walk::excluded(f.rel@, patterns) || !f.listed {
        Seq::empty()
    } else {
        let inside = all_doomed(f.folders@, patterns, skip_hidden);
        if !is_root && !stays(f, patterns) {
            inside.push(f)
        } else {
            inside
        }
    }
}

pub open spec fn all_doomed(v: Seq<Folder>, patterns: Seq<Seq<char>>, skip_hidden: bool) -> Seq<Folder>
    decreases v, v.len(),
{
    if v.len() == 0 {
        Seq::empty()
    } else {
        let before = all_doomed(v.drop_last(), patterns, skip_hidden);
        if passed_over(v.last(), skip_hidden) {
            before
        } else {
            before + doomed(v.last(), patterns, skip_hidden, false)
        }
    }
}

pub open spec fn places(v: Seq<Folder>) -> Seq<Seq<char>> {
    v.map_values(|f: Folder| f.rel@)
}

fn has_audio_file(files: &Vec<String>) -> (r: bool)
    ensures
        r == any_audio(text::views(files@)),
{
    let ghost names = text::views(files@);
    let mut i: usize = 0;
    while i < files.len()
        invariant
            i <= files@.len(),
            names == text::views(files@),
            forall|k: int| 0 <= k < i ==> !organizer::audio(#[trigger] names[k]),
        decreases files@.len() - i,
    {
        assert(names[i as int] == files@[i as int]@);
        if organizer::is_audio(files[i].as_str()) {
            return true;
        }
        i = i + 1;
    }
    false
}

/// The folders to delete, from the inside out: those in which there is no audio at any depth. The
/// root is never one of them, nor is anything in an excluded folder. Says too whether the folder
/// has to stay.
fn sweep(f: &Folder, excludes: &Vec<String>, skip_hidden: bool, is_root: bool) -> (r: (
    bool,
    Vec<String>,
))
    ensures
        r.0 == stays(*f, text::views(excludes@)),
        text::views(r.1@) == places(doomed(*f, text::views(excludes@), skip_hidden, is_root)),
    decreases f,
{
    let ghost patterns = text::views(excludes@);
    let mut out: Vec<String> = Vec::new();
    proof {
        assert(text::views(out@) =~= places(Seq::<Folder>::empty()));
    }
    if walk::is_excluded_by(f.rel.as_str(), excludes) || !f.listed {
        return (true, out);
    }
    let own = has_audio_file(&f.files);
    let mut deep = false;
    let mut i: usize = 0;
    assert(f.folders@.take(0) == Seq::<Folder>::empty());
    while i < f.folders.len()
        invariant
            i <= f.folders@.len(),
            patterns == text::views(excludes@),
            deep == some_stay(f.folders@.take(i as int), patterns),
            text::views(out@) == places(
                all_doomed(f.folders@.take(i as int), patterns, skip_hidden),
            ),
        decreases f.folders@.len() - i,
    {
        proof {
            assert(f.folders@.take(i + 1).drop_last() == f.folders@.take(i as int));
            assert(f.folders@.take(i + 1).last() == f.folders@[i as int]);
            assert(decreases_to!(f => f.folders@[i as int]));
        }
        let sub = &f.folders[i];
        let (needed, places_inside) = sweep(sub, excludes, skip_hidden, false);
        if !walk::is_hidden(organizer::last_part_of(sub.rel.as_str()).as_str(), skip_hidden) {
            let ghost before = out@;
            let mut more = places_inside;
            let ghost added = more@;
            out.append(&mut more);
            proof {
                assert(text::views(out@) =~= text::views(before) + text::views(added));
                assert(places(
                    all_doomed(f.folders@.take(i as int), patterns, skip_hidden) + doomed(
                        *sub,
                        patterns,
                        skip_hidden,
                        false,
                    ),
                ) =~= places(all_doomed(f.folders@.take(i as int), patterns, skip_hidden)) + places(
                    doomed(*sub, patterns, skip_hidden, false),
                ));
            }
        }
        if needed {
            deep = true;
        }
        i = i + 1;
    }
    assert(f.folders@.take(i as int) == f.folders@);
    let needed = own || deep;
    if !needed && !is_root {
        let rel = f.rel.clone();
        proof {
            text::views_push(out@, rel);
            let inside = all_doomed(f.folders@, patterns, skip_hidden);
            assert(places(inside.push(*f)) =~= places(inside).push(f.rel@));
        }
        out.push(rel);
    }
    (needed, out)
}

/// The folders of a library in which no audio is left, from the inside out.
pub fn folders_without_audio(root: &Folder, excludes: &Vec<String>, skip_hidden: bool) -> (r: Vec<
    String,
>)
    ensures
        text::views(r@) == places(doomed(*root, text::views(excludes@), skip_hidden, true)),
{
    let (needed, out) = sweep(root, excludes, skip_hidden, true);
    out
}

// ---------------------------------------------------------------------------
// Laws

proof fn what_need_not_stay_is_silent(f: Folder, patterns: Seq<Seq<char>>)
    requires
        !stays(f, patterns),
    ensures
        silent(f),
    decreases f, 0nat,
{
    assert(decreases_to!(f => f.folders@));
    none_stays_all_silent(f.folders@, patterns);
}

proof fn none_stays_all_silent(v: Seq<Folder>, patterns: Seq<Seq<char>>)
    requires
        !some_stay(v, patterns),
    ensures
        all_silent(v),
    decreases v, v.len(),
{
    if v.len() > 0 {
        none_stays_all_silent(v.drop_last(), patterns);
        what_need_not_stay_is_silent(v.last(), patterns);
    }
}

/// Only folders whose entire subtree holds no audio, not even in hidden files and folders, are
/// deleted, and none that is excluded.
pub proof fn audio_is_never_deleted(
    f: Folder,
    patterns: Seq<Seq<char>>,
    skip_hidden: bool,
    is_root: bool,
)
    ensures
        forall|i: int|
            0 <= i < doomed(f, patterns, skip_hidden, is_root).len() ==> silent(
                #[trigger] doomed(f, patterns, skip_hidden, is_root)[i],
            ) && !walk::excluded(doomed(f, patterns, skip_hidden, is_root)[i].rel@, patterns),
    decreases f, 0nat,
{
    if !walk::excluded(f.rel@, patterns) && f.listed {
        assert(decreases_to!(f => f.folders@));
        audio_is_never_deleted_inside(f.folders@, patterns, skip_hidden);
        let inside = all_doomed(f.folders@, patterns, skip_hidden);
        let all = doomed(f, patterns, skip_hidden, is_root);
        assert forall|i: int| 0 <= i < all.len() implies silent(#[trigger] all[i])
            && !walk::excluded(all[i].rel@, patterns) by {
            if i < inside.len() {
                assert(all[i] == inside[i]);
            } else {
                assert(all[i] == f);
                what_need_not_stay_is_silent(f, patterns);
            }
        }
    }
}

proof fn audio_is_never_deleted_inside(
    v: Seq<Folder>,
    patterns: Seq<Seq<char>>,
    skip_hidden: bool,
)
    ensures
        forall|i: int|
            0 <= i < all_doomed(v, patterns, skip_hidden).len() ==> silent(
                #[trigger] all_doomed(v, patterns, skip_hidden)[i],
            ) && !walk::excluded(all_doomed(v, patterns, skip_hidden)[i].rel@, patterns),
    decreases v, v.len(),
{
    if v.len() > 0 {
        audio_is_never_deleted_inside(v.drop_last(), patterns, skip_hidden);
        let before = all_doomed(v.drop_last(), patterns, skip_hidden);
        let all = all_doomed(v, patterns, skip_hidden);
        if !passed_over(v.last(), skip_hidden) {
            audio_is_never_deleted(v.last(), patterns, skip_hidden, false);
            let inside = doomed(v.last(), patterns, skip_hidden, false);
            assert forall|i: int| 0 <= i < all.len() implies silent(#[trigger] all[i])
                && !walk::excluded(all[i].rel@, patterns) by {
                if i < before.len() {
                    assert(all[i] == before[i]);
                } else {
                    assert(all[i] == inside[i - before.len()]);
                }
            }
        }
    }
}

/// Every folder in a folder has a path of its own, at any depth.
pub open spec fn named(v: Seq<Folder>) -> bool
    decreases v, v.len(),
{
    if v.len() == 0 {
        true
    } else {
        named(v.drop_last()) && v.last().rel@.len() > 0 && named_inside(v.last())
    }
}

pub open spec fn named_inside(f: Folder) -> bool
    decreases f, 0nat,
{
    named(f.folders@)
}

/// The library root is never deleted.
pub proof fn root_is_never_deleted(root: Folder, patterns: Seq<Seq<char>>, skip_hidden: bool)
    requires
        named_inside(root),
    ensures
        forall|i: int|
            0 <= i < doomed(root, patterns, skip_hidden, true).len() ==> (#[trigger] doomed(
                root,
                patterns,
                skip_hidden,
                true,
            )[i]).rel@.len() > 0,
{
    doomed_inside_are_named(root.folders@, patterns, skip_hidden);
    let all = doomed(root, patterns, skip_hidden, true);
    let inside = all_doomed(root.folders@, patterns, skip_hidden);
    assert forall|i: int| 0 <= i < all.len() implies (#[trigger] all[i]).rel@.len() > 0 by {
        assert(all == inside);
        assert(inside[i].rel@.len() > 0);
    }
}

proof fn doomed_inside_are_named(v: Seq<Folder>, patterns: Seq<Seq<char>>, skip_hidden: bool)
    requires
        named(v),
    ensures
        forall|i: int|
            0 <= i < all_doomed(v, patterns, skip_hidden).len() ==> (#[trigger] all_doomed(
                v,
                patterns,
                skip_hidden,
            )[i]).rel@.len() > 0,
    decreases v, v.len(),
{
    if v.len() > 0 {
        doomed_inside_are_named(v.drop_last(), patterns, skip_hidden);
        let before = all_doomed(v.drop_last(), patterns, skip_hidden);
        let all = all_doomed(v, patterns, skip_hidden);
        let last = v.last();
        if !passed_over(last, skip_hidden) {
            let inside = doomed(last, patterns, skip_hidden, false);
            doomed_is_named(last, patterns, skip_hidden);
            assert forall|i: int| 0 <= i < all.len() implies (#[trigger] all[i]).rel@.len() > 0 by {
                if i < before.len() {
                    assert(all[i] == before[i]);
                } else {
                    assert(all[i] == inside[i - before.len()]);
                }
            }
        }
    }
}

proof fn doomed_is_named(f: Folder, patterns: Seq<Seq<char>>, skip_hidden: bool)
    requires
        f.rel@.len() > 0,
        named_inside(f),
    ensures
        forall|i: int|
            0 <= i < doomed(f, patterns, skip_hidden, false).len() ==> (#[trigger] doomed(
                f,
                patterns,
                skip_hidden,
                false,
            )[i]).rel@.len() > 0,
    decreases f, 0nat,
{
    if !walk::excluded(f.rel@, patterns) && f.listed {
        assert(decreases_to!(f => f.folders@));
        doomed_inside_are_named(f.folders@, patterns, skip_hidden);
        let inside = all_doomed(f.folders@, patterns, skip_hidden);
        let all = doomed(f, patterns, skip_hidden, false);
        assert forall|i: int| 0 <= i < all.len() implies (#[trigger] all[i]).rel@.len() > 0 by {
            if i < inside.len() {
                assert(all[i] == inside[i]);
            } else {
                assert(all[i] == f);
            }
        }
    }
}

} // verus!
