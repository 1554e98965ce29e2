//! Finding the album folders of a library, one folder's listing after the other.

use crate::order;
use crate::organizer;
use crate::organizer::{AlbumDir, TrackEntry};
use crate::text;
use vstd::prelude::*;

verus! {

/// One entry of a folder's listing.
#[derive(Debug, Clone)]
pub struct DirEntry {
    pub name: String,
    pub is_dir: bool,
}

pub open spec fn entry_views(v: Seq<DirEntry>) -> Seq<(Seq<char>, bool)> {
    v.map_values(|e: DirEntry| (e.name@, e.is_dir))
}

/// Where a walk stands: the folders still to be looked at, the last one first, the albums found
/// and the entries seen.
#[derive(Debug)]
pub struct Walk {
    pub stack: Vec<String>,
    pub albums: Vec<AlbumDir>,
    pub scanned: usize,
}

/// A folder is excluded by one of the patterns.
pub open spec fn excluded(rel: Seq<char>, patterns: Seq<Seq<char>>) -> bool {
    exists|i: int| 0 <= i < patterns.len() && organizer::covers(#[trigger] patterns[i], rel)
}

/// The folder to look at next, and what is left of the stack then. Excluded folders are passed
/// over.
pub open spec fn next_open(stack: Seq<Seq<char>>, patterns: Seq<Seq<char>>) -> (
    Seq<Seq<char>>,
    Option<Seq<char>>,
)
    decreases stack.len(),
{
    if stack.len() == 0 {
        (stack, None)
    } else if excluded(stack.last(), patterns) {
        next_open(stack.drop_last(), patterns)
    } else {
        (stack.drop_last(), Some(stack.last()))
    }
}

/// Whether an entry is passed over as hidden.
pub open spec fn hidden(name: Seq<char>, skip_hidden: bool) -> bool {
    skip_hidden && name.len() > 0 && name[0] == '.'
}

/// The audio files of a listing.
pub open spec fn audio_names(entries: Seq<(Seq<char>, bool)>, skip_hidden: bool) -> Seq<Seq<char>>
    decreases entries.len(),
{
    if entries.len() == 0 {
        Seq::empty()
    } else {
        let rest = audio_names(entries.drop_last(), skip_hidden);
        let (name, is_dir) = entries.last();
        if !hidden(name, skip_hidden) && organizer::audio(name) {
            rest.push(name)
        } else {
            rest
        }
    }
}

/// The folders of a listing. What is named like an audio file counts as none.
pub open spec fn subfolders(
    dir: Seq<char>,
    entries: Seq<(Seq<char>, bool)>,
    skip_hidden: bool,
) -> Seq<Seq<char>>
    decreases entries.len(),
{
    if entries.len() == 0 {
        Seq::empty()
    } else {
        let rest = subfolders(dir, entries.drop_last(), skip_hidden);
        let (name, is_dir) = entries.last();
        if !hidden(name, skip_hidden) && !organizer::audio(name) && is_dir {
            rest.push(organizer::joined_rel(dir, name))
        } else {
            rest
        }
    }
}

/// An album that was found: its folder and its files, of which no tags were read yet.
pub open spec fn untagged(album: AlbumDir, dir: Seq<char>, names: Seq<Seq<char>>) -> bool {
    &&& album.dir@ == dir
    &&& album.tracks@.len() == names.len()
    &&& forall|i: int|
        0 <= i < names.len() ==> (#[trigger] album.tracks@[i]).name@ == names[i]
            && album.tracks@[i].tags is None
}

/// The listing of a folder was taken in.
pub open spec fn taken_in(
    before: Walk,
    after: Walk,
    dir: Seq<char>,
    entries: Seq<(Seq<char>, bool)>,
    skip_hidden: bool,
) -> bool {
    let names = audio_names(entries, skip_hidden);
    &&& text::views(after.stack@) == text::views(before.stack@) + subfolders(
        dir,
        entries,
        skip_hidden,
    )
    &&& after.scanned == before.scanned + entries.len()
    &&& if names.len() == 0 {
        after.albums@ == before.albums@
    } else {
        &&& after.albums@.len() == before.albums@.len() + 1
        &&& after.albums@.drop_last() == before.albums@
        &&& untagged(after.albums@.last(), dir, names)
    }
}

/// The relation by which albums are ordered: their folders.
pub open spec fn folder_before() -> spec_fn(AlbumDir, AlbumDir) -> bool {
    |a: AlbumDir, b: AlbumDir| order::text_before(a.dir@, b.dir@)
}

/// Whether an entry is passed over as hidden.
pub fn is_hidden(name: &str, skip_hidden: bool) -> (r: bool)
    ensures
        r == hidden(name@, skip_hidden),
{
    proof {
        reveal_strlit(".");
        assert("."@ == seq!['.']);
        if name@.len() > 0 {
            assert(name@.subrange(0, 1) == seq![name@[0]]);
            assert(seq![name@[0]][0] == name@[0]);
        }
    }
    skip_hidden && text::starts_with(name, ".")
}

impl Walk {
    /// A walk that begins at the library root.
    pub fn start() -> (r: Self)
        ensures
            text::views(r.stack@) == seq![Seq::<char>::empty()],
            r.albums@.len() == 0,
            r.scanned == 0,
    {
        let root = text::copy("");
        proof {
            reveal_strlit("");
            assert(root@ == Seq::<char>::empty());
        }
        let mut stack: Vec<String> = Vec::new();
        stack.push(root);
        assert(text::views(stack@) == seq![root@]);
        Walk { stack, albums: Vec::new(), scanned: 0 }
    }

    /// The folder to list next; nothing where the walk is over, because no folder is left or a
    /// limit was reached. A limit of zero is none.
    pub fn next_dir(&mut self, excludes: &Vec<String>, limit: usize, max_entries: usize) -> (r:
        Option<String>)
        ensures
            final(self).albums == old(self).albums,
            final(self).scanned == old(self).scanned,
            (limit > 0 && old(self).albums@.len() >= limit) || (max_entries > 0
                && old(self).scanned >= max_entries) ==> r is None && final(self).stack == old(
                self,
            ).stack,
            !((limit > 0 && old(self).albums@.len() >= limit) || (max_entries > 0
                && old(self).scanned >= max_entries)) ==> (
                text::views(final(self).stack@),
                text::view_opt(r),
            ) == next_open(text::views(old(self).stack@), text::views(excludes@)),
    {
        if (limit > 0 && self.albums.len() >= limit) || (max_entries > 0 && self.scanned
            >= max_entries) {
            return None;
        }
        let ghost given = next_open(text::views(self.stack@), text::views(excludes@));
        while self.stack.len() > 0
            invariant
                next_open(text::views(self.stack@), text::views(excludes@)) == given,
                given == next_open(text::views(old(self).stack@), text::views(excludes@)),
                !((limit > 0 && old(self).albums@.len() >= limit) || (max_entries > 0 && old(
                    self,
                ).scanned >= max_entries)),
                self.albums == old(self).albums,
                self.scanned == old(self).scanned,
            decreases self.stack@.len(),
        {
            let ghost was = self.stack@;
            match self.stack.pop() {
                Some(dir) => {
                    proof {
                        assert(text::views(was).drop_last() == text::views(self.stack@));
                        assert(text::views(was).last() == dir@);
                    }
                    if !is_excluded_by(dir.as_str(), excludes) {
                        return Some(dir);
                    }
                },
                None => {},
            }
        }
        None
    }

    /// Takes in the listing of a folder: its audio files make an album, its folders are looked
    /// at later.
    pub fn take_listing(&mut self, dir: &str, entries: &Vec<DirEntry>, skip_hidden: bool)
        requires
            old(self).scanned + entries@.len() <= usize::MAX,
        ensures
            taken_in(*old(self), *final(self), dir@, entry_views(entries@), skip_hidden),
    {
        let ghost all = entry_views(entries@);
        let ghost before = text::views(self.stack@);
        let mut tracks: Vec<TrackEntry> = Vec::new();
        let mut i: usize = 0;
        assert(before + subfolders(dir@, all.take(0), skip_hidden) == before);
        while i < entries.len()
            invariant
                i <= entries@.len(),
                all == entry_views(entries@),
                self.albums == old(self).albums,
                self.scanned == old(self).scanned,
                text::views(self.stack@) == before + subfolders(
                    dir@,
                    all.take(i as int),
                    skip_hidden,
                ),
                tracks@.len() == audio_names(all.take(i as int), skip_hidden).len(),
                forall|k: int|
                    0 <= k < tracks@.len() ==> (#[trigger] tracks@[k]).name@ == audio_names(
                        all.take(i as int),
                        skip_hidden,
                    )[k] && tracks@[k].tags is None,
            decreases entries@.len() - i,
        {
            let name = entries[i].name.as_str();
            proof {
                assert(all.take(i + 1).drop_last() == all.take(i as int));
                assert(all.take(i + 1).last() == (name@, entries@[i as int].is_dir));
            }
            if !is_hidden(name, skip_hidden) {
                if organizer::is_audio(name) {
                    tracks.push(TrackEntry { name: text::copy(name), tags: None });
                } else if entries[i].is_dir {
                    let sub = organizer::join_rel(dir, name);
                    proof {
                        text::views_push(self.stack@, sub);
                        assert((before + subfolders(dir@, all.take(i as int), skip_hidden)).push(
                            sub@,
                        ) == before + subfolders(dir@, all.take(i as int), skip_hidden).push(
                            sub@,
                        ));
                    }
                    self.stack.push(sub);
                }
            }
            i = i + 1;
        }
        assert(all.take(i as int) == all);
        self.scanned = self.scanned + entries.len();
        if tracks.len() > 0 {
            let album = AlbumDir { dir: text::copy(dir), tracks };
            self.albums.push(album);
            assert(self.albums@.drop_last() == old(self).albums@);
        }
    }

    /// The albums found, ordered by folder.
    pub fn finish(self) -> (r: Vec<AlbumDir>)
        ensures
            r@ == order::sorted_by(self.albums@, folder_before()),
    {
        let before = |a: &AlbumDir, b: &AlbumDir| -> (x: bool)
            ensures
                x == order::text_before(a.dir@, b.dir@),
            { order::comes_before(a.dir.as_str(), b.dir.as_str()) };
        order::sort_by(self.albums, before, Ghost(folder_before()))
    }
}

/// The walk never hands out an excluded folder.
pub proof fn excluded_folders_are_never_listed(stack: Seq<Seq<char>>, patterns: Seq<Seq<char>>)
    ensures
        next_open(stack, patterns).1 matches Some(dir) ==> !excluded(dir, patterns)
            && stack.contains(dir),
    decreases stack.len(),
{
    if stack.len() > 0 {
        if excluded(stack.last(), patterns) {
            excluded_folders_are_never_listed(stack.drop_last(), patterns);
            if next_open(stack.drop_last(), patterns).1 is Some {
                let dir = next_open(stack.drop_last(), patterns).1->0;
                let k = stack.drop_last().index_of(dir);
                assert(stack[k] == dir);
            }
        } else {
            assert(stack[stack.len() - 1] == stack.last());
        }
    }
}

/// Whether a folder is excluded by one of the patterns.
pub fn is_excluded_by(rel: &str, excludes: &Vec<String>) -> (r: bool)
    ensures
        r == excluded(rel@, text::views(excludes@)),
{
    let out = organizer::is_excluded(rel, excludes.as_slice());
    proof {
        let pats = text::views(excludes@);
        if out {
            let i = choose|i: int|
                0 <= i < excludes@.len() && organizer::covers((#[trigger] excludes@[i])@, rel@);
            assert(organizer::covers(pats[i], rel@));
        }
        if excluded(rel@, pats) {
            let i = choose|i: int|
                0 <= i < pats.len() && organizer::covers(#[trigger] pats[i], rel@);
            assert(organizer::covers(excludes@[i]@, rel@));
        }
    }
    out
}

} // verus!
