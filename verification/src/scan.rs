//! Scanning a library in chunks: which folder comes next, which file is read, and when a chunk
//! ends. Nothing that was listed is lost between two chunks.

use crate::config::Config;
use crate::group;
use crate::json;
use crate::json::{Json, JsonView};
use crate::net;
use crate::net::{Body, BodyView, Reply, Request};
use crate::organizer;
use crate::state;
use crate::tags::TrackTags;
use crate::text;
use crate::walk;
use vstd::prelude::*;

verus! {

/// How a chunk ended: more is left for the next task, all is done, or the limit of a pass was
/// reached.
#[derive(Debug, Clone, Copy, PartialEq, Eq, Structural)]
pub enum ScanOutcome {
    More,
    Done,
    Paused,
}

/// What a chunk does next.
#[derive(Debug)]
pub enum Next {
    /// No folder is left.
    Finished,
    /// The folder is listed.
    List(String),
    /// The clock is looked at before the folder is listed.
    CheckClock(String),
}

pub enum NextView {
    Finished,
    List(Seq<char>),
    CheckClock(Seq<char>),
}

impl View for Next {
    type V = NextView;

    open spec fn view(&self) -> NextView {
        match self {
            Next::Finished => NextView::Finished,
            Next::List(d) => NextView::List(d@),
            Next::CheckClock(d) => NextView::CheckClock(d@),
        }
    }
}

/// What an entry of a listing is.
#[derive(Debug, Clone, Copy, PartialEq, Eq, Structural)]
pub enum EntryKind {
    File,
    Folder,
    Other,
}

/// What is done with an entry.
#[derive(Debug, Clone, Copy, PartialEq, Eq, Structural)]
pub enum EntryUse {
    Ignore,
    Descend,
    Read,
}

/// Key under which something of a library is stored.
pub fn library_key(prefix: &str, library_id: i32) -> (r: String)
    ensures
        r@ == prefix@ + text::decimal_int(library_id as int),
{
    text::join_two(prefix, text::format_int(library_id as i64).as_str())
}

// ---------------------------------------------------------------------------
// Walking and reading in one go

/// A chunk of a scan that reads tags while it walks.
#[derive(Debug)]
pub struct ScanChunk {
    pub stack: Vec<String>,
    pub processed: usize,
    pub skipped: usize,
    pub dirs_walked: usize,
    pub dirs_since_check: usize,
    pub hit_limit: bool,
    pub last_rel: String,
}

/// The folder that comes next, what is left of the stack, and whether the clock is due: every
/// two hundredth folder.
pub open spec fn next_of(
    stack: Seq<Seq<char>>,
    patterns: Seq<Seq<char>>,
    since_check: int,
    every: int,
) -> (Seq<Seq<char>>, int, NextView) {
    let (rest, dir) = walk::next_open(stack, patterns);
    match dir {
        None => (rest, since_check, NextView::Finished),
        Some(d) => if since_check + 1 >= every {
            (rest, 0, NextView::CheckClock(d))
        } else {
            (rest, since_check + 1, NextView::List(d))
        },
    }
}

/// Takes the next folder off a stack, passing over excluded ones.
fn pop_open(stack: &mut Vec<String>, excludes: &Vec<String>) -> (r: Option<String>)
    ensures
        (text::views(final(stack)@), text::view_opt(r)) == walk::next_open(
            text::views(old(stack)@),
            text::views(excludes@),
        ),
{
    let ghost given = walk::next_open(text::views(stack@), text::views(excludes@));
    while stack.len() > 0
        invariant
            walk::next_open(text::views(stack@), text::views(excludes@)) == given,
            given == walk::next_open(text::views(old(stack)@), text::views(excludes@)),
        decreases stack@.len(),
    {
        let ghost was = stack@;
        match stack.pop() {
            Some(dir) => {
                proof {
                    assert(text::views(was).drop_last() == text::views(stack@));
                    assert(text::views(was).last() == dir@);
                }
                if !walk::is_excluded_by(dir.as_str(), excludes) {
                    return Some(dir);
                }
            },
            None => {},
        }
    }
    None
}

/// What is done with an entry: hidden ones are passed over, folders are descended into, audio
/// files are read.
pub open spec fn use_of(name: Seq<char>, kind: EntryKind, skip_hidden: bool) -> EntryUse {
    if walk::hidden(name, skip_hidden) {
        EntryUse::Ignore
    } else if kind == EntryKind::Folder {
        EntryUse::Descend
    } else if kind == EntryKind::File && organizer::audio(name) {
        EntryUse::Read
    } else {
        EntryUse::Ignore
    }
}

pub fn entry_use(name: &str, kind: EntryKind, skip_hidden: bool) -> (r: EntryUse)
    ensures
        r == use_of(name@, kind, skip_hidden),
{
    if walk::is_hidden(name, skip_hidden) {
        EntryUse::Ignore
    } else if kind == EntryKind::Folder {
        EntryUse::Descend
    } else if kind == EntryKind::File && organizer::is_audio(name) {
        EntryUse::Read
    } else {
        EntryUse::Ignore
    }
}

/// The files that a task reads at most.
pub open spec fn per_task(cfg: Config) -> int {
    if cfg.files_per_scan_task >= 1 {
        cfg.files_per_scan_task as int
    } else {
        1
    }
}

/// The pass has read as many files as it may.
pub open spec fn pass_is_full(cfg: Config, pass_count: int, processed: int) -> bool {
    cfg.max_scan_entries > 0 && pass_count + processed >= cfg.max_scan_entries
}

fn is_pass_full(cfg: &Config, pass_count: usize, processed: usize) -> (r: bool)
    ensures
        r == pass_is_full(*cfg, pass_count as int, processed as int),
{
    cfg.max_scan_entries > 0 && (pass_count as u128) + (processed as u128)
        >= cfg.max_scan_entries as u128
}

/// The folder is closed: its folders are put on the stack, the first one on top. A folder that is
/// to be listed again is put on top of them.
pub open spec fn closed(
    stack: Seq<Seq<char>>,
    dir: Seq<char>,
    subdirs: Seq<Seq<char>>,
    again: bool,
) -> Seq<Seq<char>> {
    if again {
        (stack + subdirs.reverse()).push(dir)
    } else {
        stack + subdirs.reverse()
    }
}

fn push_reversed(stack: &mut Vec<String>, subdirs: &Vec<String>)
    ensures
        text::views(final(stack)@) == text::views(old(stack)@) + text::views(subdirs@).reverse(),
{
    let ghost start = text::views(stack@);
    let ghost all = text::views(subdirs@).reverse();
    let n: usize = subdirs.len();
    let mut i: usize = 0;
    assert(start + all.take(0) == start);
    while i < n
        invariant
            i <= n == subdirs@.len(),
            all == text::views(subdirs@).reverse(),
            text::views(stack@) == start + all.take(i as int),
        decreases n - i,
    {
        let dir = subdirs[n - 1 - i].clone();
        proof {
            assert(all[i as int] == dir@);
            assert(all.take(i + 1) == all.take(i as int).push(dir@));
            text::views_push(stack@, dir);
            assert((start + all.take(i as int)).push(dir@) == start + all.take(i as int).push(dir@));
        }
        stack.push(dir);
        i = i + 1;
    }
    assert(all.take(n as int) == all);
}

impl ScanChunk {
    /// A chunk that goes on with the given folders.
    pub fn start(stack: Vec<String>) -> (r: Self)
        ensures
            r.stack == stack,
            r.processed == 0,
            r.skipped == 0,
            r.dirs_walked == 0,
            r.dirs_since_check == 0,
            !r.hit_limit,
            r.last_rel@.len() == 0,
    {
        ScanChunk {
            stack,
            processed: 0,
            skipped: 0,
            dirs_walked: 0,
            dirs_since_check: 0,
            hit_limit: false,
            last_rel: String::new(),
        }
    }

    /// Nothing but the stack and the count since the last look at the clock is different.
    pub open spec fn same_counts(self, other: Self) -> bool {
        &&& self.processed == other.processed
        &&& self.skipped == other.skipped
        &&& self.dirs_walked == other.dirs_walked
        &&& self.hit_limit == other.hit_limit
        &&& self.last_rel == other.last_rel
    }

    /// The folder to list next.
    pub fn next_dir(&mut self, excludes: &Vec<String>) -> (r: Next)
        requires
            old(self).dirs_since_check < usize::MAX,
        ensures
            final(self).same_counts(*old(self)),
            (text::views(final(self).stack@), final(self).dirs_since_check as int, r@) == next_of(
                text::views(old(self).stack@),
                text::views(excludes@),
                old(self).dirs_since_check as int,
                200,
            ),
    {
        match pop_open(&mut self.stack, excludes) {
            None => Next::Finished,
            Some(dir) => if self.dirs_since_check + 1 >= 200 {
                self.dirs_since_check = 0;
                Next::CheckClock(dir)
            } else {
                self.dirs_since_check = self.dirs_since_check + 1;
                Next::List(dir)
            },
        }
    }

    /// Time is up: the folder waits for the next chunk.
    pub fn out_of_time(&mut self, dir: String)
        ensures
            text::views(final(self).stack@) == text::views(old(self).stack@).push(dir@),
            final(self).hit_limit,
            final(self).processed == old(self).processed,
            final(self).skipped == old(self).skipped,
            final(self).dirs_walked == old(self).dirs_walked,
            final(self).dirs_since_check == old(self).dirs_since_check,
            final(self).last_rel == old(self).last_rel,
    {
        proof {
            text::views_push(self.stack@, dir);
        }
        self.stack.push(dir);
        self.hit_limit = true;
    }

    /// Whether another file may be read in this pass; if not, the chunk ends.
    pub fn may_read(&mut self, cfg: &Config, pass_count: usize) -> (r: bool)
        ensures
            r == !pass_is_full(*cfg, pass_count as int, old(self).processed as int),
            final(self).hit_limit == (old(self).hit_limit || !r),
            final(self).stack == old(self).stack,
            final(self).processed == old(self).processed,
            final(self).skipped == old(self).skipped,
            final(self).dirs_walked == old(self).dirs_walked,
            final(self).dirs_since_check == old(self).dirs_since_check,
            final(self).last_rel == old(self).last_rel,
    {
        if is_pass_full(cfg, pass_count, self.processed) {
            self.hit_limit = true;
            false
        } else {
            true
        }
    }

    /// A file was looked at: either its tags were read, or it was known already. Says whether the
    /// folder goes on.
    pub fn looked_at(&mut self, cfg: &Config, rel: String, did_work: bool) -> (r: bool)
        requires
            old(self).processed < usize::MAX,
            old(self).skipped < usize::MAX,
        ensures
            final(self).stack == old(self).stack,
            final(self).last_rel == rel,
            final(self).dirs_walked == old(self).dirs_walked,
            final(self).dirs_since_check == old(self).dirs_since_check,
            final(self).processed == old(self).processed + (if did_work {
                1int
            } else {
                0
            }),
            final(self).skipped == old(self).skipped + (if did_work {
                0int
            } else {
                1
            }),
            r == (final(self).processed < per_task(*cfg)),
            final(self).hit_limit == (old(self).hit_limit || !r),
    {
        self.last_rel = rel;
        if did_work {
            self.processed = self.processed + 1;
        } else {
            self.skipped = self.skipped + 1;
        }
        let limit: usize = if cfg.files_per_scan_task >= 1 {
            cfg.files_per_scan_task
        } else {
            1
        };
        if self.processed >= limit {
            self.hit_limit = true;
            false
        } else {
            true
        }
    }

    /// A folder was gone through. Folders in which nothing was read cost nothing; after fifty
    /// others the chunk ends. Where the chunk ends, the folder is listed again in the next one:
    /// what was read there is known then. Says whether the chunk goes on.
    pub fn close_dir(&mut self, dir: String, subdirs: &Vec<String>, processed_before: usize) -> (r:
        bool)
        requires
            old(self).dirs_walked < usize::MAX,
        ensures
            final(self).processed == old(self).processed,
            final(self).skipped == old(self).skipped,
            final(self).last_rel == old(self).last_rel,
            final(self).dirs_since_check == old(self).dirs_since_check,
            final(self).dirs_walked == old(self).dirs_walked + (if old(self).processed
                > processed_before {
                1int
            } else {
                0
            }),
            final(self).hit_limit == (old(self).hit_limit || final(self).dirs_walked >= 50),
            r == !final(self).hit_limit,
            text::views(final(self).stack@) == closed(
                text::views(old(self).stack@),
                dir@,
                text::views(subdirs@),
                final(self).hit_limit,
            ),
    {
        push_reversed(&mut self.stack, subdirs);
        if self.processed > processed_before {
            self.dirs_walked = self.dirs_walked + 1;
        }
        if self.dirs_walked >= 50 {
            self.hit_limit = true;
        }
        if self.hit_limit {
            proof {
                text::views_push(self.stack@, dir);
            }
            self.stack.push(dir);
            false
        } else {
            true
        }
    }

    /// How the chunk ended.
    pub fn outcome(&self, cfg: &Config, pass_count: usize) -> (r: ScanOutcome)
        ensures
            r == (if !self.hit_limit {
                ScanOutcome::Done
            } else if pass_is_full(*cfg, pass_count as int, self.processed as int) {
                ScanOutcome::Paused
            } else {
                ScanOutcome::More
            }),
    {
        if !self.hit_limit {
            ScanOutcome::Done
        } else if is_pass_full(cfg, pass_count, self.processed) {
            ScanOutcome::Paused
        } else {
            ScanOutcome::More
        }
    }
}

/// What a chunk left on its stack is no less than what was there: no folder that was to be listed
/// gets lost when a folder is closed.
pub proof fn closing_keeps_every_folder(
    stack: Seq<Seq<char>>,
    dir: Seq<char>,
    subdirs: Seq<Seq<char>>,
    again: bool,
    wanted: Seq<char>,
)
    requires
        stack.contains(wanted) || subdirs.contains(wanted) || (again && wanted == dir),
    ensures
        closed(stack, dir, subdirs, again).contains(wanted),
{
    let all = closed(stack, dir, subdirs, again);
    if stack.contains(wanted) {
        let i = stack.index_of(wanted);
        assert(all[i] == wanted);
    } else if subdirs.contains(wanted) {
        let i = subdirs.index_of(wanted);
        let k = stack.len() + (subdirs.len() - 1 - i);
        assert(subdirs.reverse()[subdirs.len() - 1 - i] == wanted);
        assert(all[k] == wanted);
    } else {
        assert(all[all.len() - 1] == wanted);
    }
}

// ---------------------------------------------------------------------------
// Walking first

/// A chunk of a walk that only collects audio files.
#[derive(Debug)]
pub struct WalkChunk {
    pub stack: Vec<String>,
    /// Folders that were gone through to the end.
    pub visited: Vec<String>,
    /// Audio files with the time of their last change.
    pub files: Vec<(String, i64)>,
    pub dirs_since_check: usize,
    pub entries_since_check: usize,
    pub hit_limit: bool,
    /// A folder that was cut short, and the entry with which it goes on.
    pub resume: Option<(String, usize)>,
}

/// The folder that comes next: neither excluded nor gone through already.
pub open spec fn next_unvisited(
    stack: Seq<Seq<char>>,
    patterns: Seq<Seq<char>>,
    visited: Seq<Seq<char>>,
) -> (Seq<Seq<char>>, Option<Seq<char>>)
    decreases stack.len(),
{
    if stack.len() == 0 {
        (stack, None)
    } else if walk::excluded(stack.last(), patterns) || visited.contains(stack.last()) {
        next_unvisited(stack.drop_last(), patterns, visited)
    } else {
        (stack.drop_last(), Some(stack.last()))
    }
}

/// The folders that are new: neither gone through nor on the stack.
pub open spec fn pushed_new(
    stack: Seq<Seq<char>>,
    visited: Seq<Seq<char>>,
    subdirs: Seq<Seq<char>>,
) -> Seq<Seq<char>>
    decreases subdirs.len(),
{
    if subdirs.len() == 0 {
        stack
    } else if visited.contains(subdirs.last()) || stack.contains(subdirs.last()) {
        pushed_new(stack, visited, subdirs.drop_last())
    } else {
        pushed_new(stack.push(subdirs.last()), visited, subdirs.drop_last())
    }
}

pub open spec fn stamped(v: Seq<(String, i64)>) -> Seq<(Seq<char>, int)> {
    v.map_values(|f: (String, i64)| (f.0@, f.1 as int))
}

/// What an entry of a walk is: an audio file, a folder, or nothing. What is named like audio is
/// never descended into.
pub open spec fn walk_use(name: Seq<char>, kind: EntryKind, skip_hidden: bool) -> EntryUse {
    if walk::hidden(name, skip_hidden) {
        EntryUse::Ignore
    } else if organizer::audio(name) {
        if kind == EntryKind::File {
            EntryUse::Read
        } else {
            EntryUse::Ignore
        }
    } else if kind == EntryKind::Folder {
        EntryUse::Descend
    } else {
        EntryUse::Ignore
    }
}

impl WalkChunk {
    /// A chunk that goes on with the given folders.
    pub fn start(
        stack: Vec<String>,
        visited: Vec<String>,
        resume: Option<(String, usize)>,
    ) -> (r: Self)
        ensures
            r.stack == stack,
            r.visited == visited,
            r.files@.len() == 0,
            r.dirs_since_check == 0,
            r.entries_since_check == 0,
            !r.hit_limit,
            r.resume == resume,
    {
        WalkChunk {
            stack,
            visited,
            files: Vec::new(),
            dirs_since_check: 0,
            entries_since_check: 0,
            hit_limit: false,
            resume,
        }
    }

    /// The folder to list next; the clock is looked at every ten folders.
    pub fn next_dir(&mut self, excludes: &Vec<String>) -> (r: Next)
        requires
            old(self).dirs_since_check < usize::MAX,
        ensures
            final(self).visited == old(self).visited,
            final(self).files == old(self).files,
            final(self).entries_since_check == old(self).entries_since_check,
            final(self).hit_limit == old(self).hit_limit,
            final(self).resume == old(self).resume,
            ({
                let (rest, dir) = next_unvisited(
                    text::views(old(self).stack@),
                    text::views(excludes@),
                    text::views(old(self).visited@),
                );
                let due = old(self).dirs_since_check + 1 >= 10;
                &&& text::views(final(self).stack@) == rest
                &&& match dir {
                    None => r@ == NextView::Finished && final(self).dirs_since_check == old(
                        self,
                    ).dirs_since_check,
                    Some(d) => r@ == (if due {
                        NextView::CheckClock(d)
                    } else {
                        NextView::List(d)
                    }) && final(self).dirs_since_check == (if due {
                        0
                    } else {
                        old(self).dirs_since_check + 1
                    }),
                }
            }),
    {
        let ghost given = next_unvisited(
            text::views(self.stack@),
            text::views(excludes@),
            text::views(self.visited@),
        );
        while self.stack.len() > 0
            invariant
                next_unvisited(
                    text::views(self.stack@),
                    text::views(excludes@),
                    text::views(self.visited@),
                ) == given,
                given == next_unvisited(
                    text::views(old(self).stack@),
                    text::views(excludes@),
                    text::views(old(self).visited@),
                ),
                self.visited == old(self).visited,
                self.files == old(self).files,
                self.entries_since_check == old(self).entries_since_check,
                self.hit_limit == old(self).hit_limit,
                self.resume == old(self).resume,
                self.dirs_since_check == old(self).dirs_since_check < usize::MAX,
            decreases self.stack@.len(),
        {
            let ghost was = self.stack@;
            match self.stack.pop() {
                Some(dir) => {
                    proof {
                        assert(text::views(was).drop_last() == text::views(self.stack@));
                        assert(text::views(was).last() == dir@);
                    }
                    if !walk::is_excluded_by(dir.as_str(), excludes) && !organizer::among_texts(
                        &self.visited,
                        dir.as_str(),
                    ) {
                        if self.dirs_since_check + 1 >= 10 {
                            self.dirs_since_check = 0;
                            return Next::CheckClock(dir);
                        }
                        self.dirs_since_check = self.dirs_since_check + 1;
                        return Next::List(dir);
                    }
                },
                None => {},
            }
        }
        Next::Finished
    }

    /// Time is up: the folder waits for the next chunk.
    pub fn out_of_time(&mut self, dir: String)
        ensures
            text::views(final(self).stack@) == text::views(old(self).stack@).push(dir@),
            final(self).hit_limit,
            final(self).visited == old(self).visited,
            final(self).files == old(self).files,
            final(self).resume == old(self).resume,
            final(self).dirs_since_check == old(self).dirs_since_check,
            final(self).entries_since_check == old(self).entries_since_check,
    {
        proof {
            text::views_push(self.stack@, dir);
        }
        self.stack.push(dir);
        self.hit_limit = true;
    }

    /// The entry with which a folder's listing begins: the first, or where it was cut short.
    pub fn first_entry(&self, dir: &str) -> (r: usize)
        ensures
            r == (match self.resume {
                Some((d, n)) => if d@ == dir@ {
                    n as int
                } else {
                    0
                },
                None => 0,
            }),
    {
        match &self.resume {
            Some((d, n)) => if text::same(d.as_str(), dir) {
                *n
            } else {
                0
            },
            None => 0,
        }
    }

    /// Takes in one entry. Says whether the clock is to be looked at: every two hundredth entry.
    pub fn take_entry(
        &mut self,
        dir: &str,
        name: &str,
        kind: EntryKind,
        mtime: i64,
        skip_hidden: bool,
        subdirs: &mut Vec<String>,
    ) -> (r: bool)
        requires
            old(self).entries_since_check < usize::MAX,
        ensures
            final(self).stack == old(self).stack,
            final(self).visited == old(self).visited,
            final(self).hit_limit == old(self).hit_limit,
            final(self).resume == old(self).resume,
            final(self).dirs_since_check == old(self).dirs_since_check,
            stamped(final(self).files@) == (if walk_use(name@, kind, skip_hidden)
                == EntryUse::Read {
                stamped(old(self).files@).push((organizer::joined_rel(dir@, name@), mtime as int))
            } else {
                stamped(old(self).files@)
            }),
            text::views(final(subdirs)@) == (if walk_use(name@, kind, skip_hidden)
                == EntryUse::Descend {
                text::views(old(subdirs)@).push(organizer::joined_rel(dir@, name@))
            } else {
                text::views(old(subdirs)@)
            }),
            r == (!walk::hidden(name@, skip_hidden) && old(self).entries_since_check + 1 >= 200),
            final(self).entries_since_check == (if walk::hidden(name@, skip_hidden) {
                old(self).entries_since_check as int
            } else if r {
                0
            } else {
                old(self).entries_since_check + 1
            }),
    {
        if walk::is_hidden(name, skip_hidden) {
            return false;
        }
        let rel = organizer::join_rel(dir, name);
        if organizer::is_audio(name) {
            if kind == EntryKind::File {
                let ghost before = self.files@;
                self.files.push((rel, mtime));
                assert(stamped(self.files@) =~= stamped(before).push((rel@, mtime as int)));
            }
        } else if kind == EntryKind::Folder {
            proof {
                text::views_push(subdirs@, rel);
            }
            subdirs.push(rel);
        }
        if self.entries_since_check + 1 >= 200 {
            self.entries_since_check = 0;
            true
        } else {
            self.entries_since_check = self.entries_since_check + 1;
            false
        }
    }

    /// The clock was looked at inside a folder: the chunk ends where time is up or five hundred
    /// files were found.
    pub fn clock_checked(&mut self, time_is_up: bool) -> (r: bool)
        ensures
            r == (time_is_up || old(self).files@.len() >= 500),
            final(self).hit_limit == (old(self).hit_limit || r),
            final(self).stack == old(self).stack,
            final(self).visited == old(self).visited,
            final(self).files == old(self).files,
            final(self).resume == old(self).resume,
            final(self).dirs_since_check == old(self).dirs_since_check,
            final(self).entries_since_check == old(self).entries_since_check,
    {
        if time_is_up || self.files.len() >= 500 {
            self.hit_limit = true;
            true
        } else {
            false
        }
    }

    /// A folder was gone through, up to the entry where it was cut short if it was. New folders
    /// are put on the stack, the first one on top, and a folder that was cut short on top of them.
    pub fn close_dir(&mut self, dir: String, subdirs: &Vec<String>, cut_at: Option<usize>)
        ensures
            final(self).files == old(self).files,
            final(self).hit_limit == old(self).hit_limit,
            final(self).dirs_since_check == old(self).dirs_since_check,
            final(self).entries_since_check == old(self).entries_since_check,
            ({
                let below = pushed_new(
                    text::views(old(self).stack@),
                    text::views(old(self).visited@),
                    text::views(subdirs@),
                );
                match cut_at {
                    Some(n) => {
                        &&& text::views(final(self).stack@) == below.push(dir@)
                        &&& final(self).visited == old(self).visited
                        &&& match final(self).resume {
                            Some((d, k)) => d@ == dir@ && k == n,
                            None => false,
                        }
                    },
                    None => {
                        &&& text::views(final(self).stack@) == below
                        &&& text::views(final(self).visited@) == text::views(
                            old(self).visited@,
                        ).push(dir@)
                        &&& final(self).resume is None
                    },
                }
            }),
    {
        let ghost all = text::views(subdirs@);
        let ghost visited = text::views(self.visited@);
        let ghost given = pushed_new(text::views(self.stack@), visited, all);
        let mut i: usize = subdirs.len();
        assert(all.take(i as int) == all);
        while i > 0
            invariant
                i <= subdirs@.len(),
                all == text::views(subdirs@),
                visited == text::views(self.visited@),
                self.visited == old(self).visited,
                self.files == old(self).files,
                self.hit_limit == old(self).hit_limit,
                self.dirs_since_check == old(self).dirs_since_check,
                self.entries_since_check == old(self).entries_since_check,
                pushed_new(text::views(self.stack@), visited, all.take(i as int)) == given,
            decreases i,
        {
            i = i - 1;
            let sub = &subdirs[i];
            proof {
                assert(all.take(i + 1).drop_last() == all.take(i as int));
                assert(all.take(i + 1).last() == sub@);
            }
            if !organizer::among_texts(&self.visited, sub.as_str()) && !organizer::among_texts(
                &self.stack,
                sub.as_str(),
            ) {
                let s = sub.clone();
                proof {
                    text::views_push(self.stack@, s);
                }
                self.stack.push(s);
            }
        }
        assert(all.take(0) == Seq::<Seq<char>>::empty());
        match cut_at {
            Some(n) => {
                let top = dir.clone();
                proof {
                    text::views_push(self.stack@, top);
                }
                self.stack.push(top);
                self.resume = Some((dir, n));
            },
            None => {
                proof {
                    text::views_push(self.visited@, dir);
                }
                self.visited.push(dir);
                self.resume = None;
            },
        }
    }

    /// The walk is over when no folder is left.
    pub fn outcome(&self) -> (r: ScanOutcome)
        ensures
            r == (if self.stack@.len() == 0 {
                ScanOutcome::Done
            } else {
                ScanOutcome::More
            }),
    {
        if self.stack.len() == 0 {
            ScanOutcome::Done
        } else {
            ScanOutcome::More
        }
    }
}

/// No folder that is on the stack or was found in a folder gets lost when that folder is closed: it
/// is on the stack then, or was gone through before.
pub proof fn walking_keeps_every_folder(
    stack: Seq<Seq<char>>,
    visited: Seq<Seq<char>>,
    subdirs: Seq<Seq<char>>,
    wanted: Seq<char>,
)
    requires
        stack.contains(wanted) || subdirs.contains(wanted),
    ensures
        pushed_new(stack, visited, subdirs).contains(wanted) || visited.contains(wanted),
    decreases subdirs.len(),
{
    if subdirs.len() > 0 {
        let last = subdirs.last();
        let rest = subdirs.drop_last();
        if subdirs.contains(wanted) && wanted != last {
            let i = subdirs.index_of(wanted);
            assert(rest[i] == wanted);
        }
        if visited.contains(last) || stack.contains(last) {
            if stack.contains(wanted) || rest.contains(wanted) {
                walking_keeps_every_folder(stack, visited, rest, wanted);
            } else {
                assert(wanted == last);
                if stack.contains(last) {
                    walking_keeps_every_folder(stack, visited, rest, wanted);
                }
            }
        } else {
            let more = stack.push(last);
            if stack.contains(wanted) {
                let i = stack.index_of(wanted);
                assert(more[i] == wanted);
            } else if wanted == last {
                assert(more[more.len() - 1] == wanted);
            }
            walking_keeps_every_folder(more, visited, rest, wanted);
        }
    }
}

/// A folder that was gone through is never listed again.
pub proof fn visited_folders_are_not_listed_again(
    stack: Seq<Seq<char>>,
    patterns: Seq<Seq<char>>,
    visited: Seq<Seq<char>>,
)
    ensures
        next_unvisited(stack, patterns, visited).1 matches Some(dir) ==> !visited.contains(dir)
            && !walk::excluded(dir, patterns),
    decreases stack.len(),
{
    if stack.len() > 0 && (walk::excluded(stack.last(), patterns) || visited.contains(
        stack.last(),
    )) {
        visited_folders_are_not_listed_again(stack.drop_last(), patterns, visited);
    }
}

// ---------------------------------------------------------------------------
// Reading what was found

/// Whether a file's tags are read: not where it was read at the time of its last change.
pub fn needs_index(stored_mtime: Option<i64>, mtime: i64) -> (r: bool)
    ensures
        r == (stored_mtime != Some(mtime)),
{
    match stored_mtime {
        Some(t) => t != mtime,
        None => true,
    }
}

/// Tags are of use where they give a title or an artist.
pub open spec fn usable(title: Seq<char>, artist: Seq<char>) -> bool {
    text::trimmed(title).len() > 0 || text::trimmed(artist).len() > 0
}

/// Whether the file's name stands in for its tags: there are none of use, and names are parsed.
pub fn name_stands_in(cfg: &Config, tags: &Option<TrackTags>) -> (r: bool)
    ensures
        r == (cfg.parse_filenames && !(tags matches Some(t) && usable(t@.title, t@.artist))),
{
    let of_use = match tags {
        Some(t) => text::length(text::trim(t.title.as_str()).as_str()) > 0 || text::length(
            text::trim(t.artist.as_str()).as_str(),
        ) > 0,
        None => false,
    };
    !of_use && cfg.parse_filenames
}

/// A chunk of reading files from a list.
#[derive(Debug)]
pub struct IndexChunk {
    /// The file that comes next.
    pub next: usize,
    pub processed: usize,
    pub skipped: usize,
}

impl IndexChunk {
    pub fn start() -> (r: Self)
        ensures
            r.next == 0,
            r.processed == 0,
            r.skipped == 0,
    {
        IndexChunk { next: 0, processed: 0, skipped: 0 }
    }

    /// Every file up to the next one was either read or known.
    pub open spec fn wf(self, len: int) -> bool {
        self.next <= len && self.processed + self.skipped == self.next
    }

    /// Whether the next file is looked at in this chunk.
    pub fn goes_on(&self, cfg: &Config, len: usize, pass_count: usize, time_is_up: bool) -> (r: bool)
        requires
            self.wf(len as int),
        ensures
            r == (self.next < len && !time_is_up && !pass_is_full(
                *cfg,
                pass_count as int,
                self.processed as int,
            ) && self.processed < per_task(*cfg)),
    {
        let limit: usize = if cfg.files_per_scan_task >= 1 {
            cfg.files_per_scan_task
        } else {
            1
        };
        self.next < len && !time_is_up && !is_pass_full(cfg, pass_count, self.processed)
            && self.processed < limit
    }

    /// The next file was looked at.
    pub fn looked_at(&mut self, did_work: bool, len: usize)
        requires
            old(self).wf(len as int),
            old(self).next < len,
        ensures
            final(self).wf(len as int),
            final(self).next == old(self).next + 1,
            final(self).processed == old(self).processed + (if did_work {
                1int
            } else {
                0
            }),
    {
        self.next = self.next + 1;
        if did_work {
            self.processed = self.processed + 1;
        } else {
            self.skipped = self.skipped + 1;
        }
    }

    /// How the chunk ended: with the limit of the pass, with files left, or with all of them.
    pub fn outcome(&self, cfg: &Config, len: usize, pass_count: usize) -> (r: ScanOutcome)
        requires
            self.wf(len as int),
        ensures
            r == (if pass_is_full(*cfg, pass_count as int, self.processed as int) {
                ScanOutcome::Paused
            } else if self.next < len {
                ScanOutcome::More
            } else {
                ScanOutcome::Done
            }),
    {
        if is_pass_full(cfg, pass_count, self.processed) {
            ScanOutcome::Paused
        } else if self.next < len {
            ScanOutcome::More
        } else {
            ScanOutcome::Done
        }
    }
}

/// The files that are left after the first `n`.
pub fn files_left(files: &Vec<(String, i64)>, n: usize) -> (r: Vec<(String, i64)>)
    requires
        n <= files@.len(),
    ensures
        stamped(r@) == stamped(files@).skip(n as int),
{
    let ghost all = stamped(files@);
    let mut out: Vec<(String, i64)> = Vec::new();
    let mut i: usize = n;
    assert(stamped(out@) == all.subrange(n as int, n as int));
    while i < files.len()
        invariant
            n <= i <= files@.len(),
            all == stamped(files@),
            stamped(out@) == all.subrange(n as int, i as int),
        decreases files@.len() - i,
    {
        let ghost before = out@;
        out.push((files[i].0.clone(), files[i].1));
        proof {
            assert(stamped(out@) == stamped(before).push(all[i as int]));
            assert(all.subrange(n as int, i + 1) == all.subrange(n as int, i as int).push(
                all[i as int],
            ));
        }
        i = i + 1;
    }
    assert(all.subrange(n as int, i as int) == all.skip(n as int));
    out
}

// ---------------------------------------------------------------------------
// Asking for identities

/// A field of a file's tags holds an id.
pub open spec fn holds_id(tags: JsonView, field: Seq<char>) -> bool {
    text::trimmed(json::text_or_empty(json::member(tags, field))).len() > 0
}

/// A file needs no lookup: it has a MusicBrainz id or an ISRC, or it was looked up before.
pub open spec fn identified(tags: JsonView) -> bool {
    holds_id(tags, "mbid_album"@) || holds_id(tags, "mbid_recording"@) || holds_id(
        tags,
        "mbid_artist"@,
    ) || holds_id(tags, "isrc"@) || json::bool_of(json::member(tags, "_acoustid_checked"@)) == Some(
        true,
    )
}

fn has_id(tags: &Json, field: &str) -> (r: bool)
    ensures
        r == holds_id(tags@, field@),
{
    text::length(text::trim(json::str_or_empty(tags.get(field)).as_str()).as_str()) > 0
}

pub fn is_identified(tags: &Json) -> (r: bool)
    ensures
        r == identified(tags@),
{
    has_id(tags, "mbid_album") || has_id(tags, "mbid_recording") || has_id(tags, "mbid_artist")
        || has_id(tags, "isrc") || match json::bool_value(tags.get("_acoustid_checked")) {
        Some(b) => b,
        None => false,
    }
}

/// The files that are still to be looked up.
pub open spec fn unidentified(files: Seq<(Seq<char>, int)>, known: Seq<bool>) -> Seq<
    (Seq<char>, int),
>
    decreases files.len(),
{
    if files.len() == 0 {
        files
    } else {
        let rest = unidentified(files.drop_last(), known);
        if known[files.len() - 1] {
            rest
        } else {
            rest.push(files.last())
        }
    }
}

pub fn unverified_files(files: &Vec<(String, i64)>, known: &Vec<bool>) -> (r: Vec<(String, i64)>)
    requires
        files@.len() == known@.len(),
    ensures
        stamped(r@) == unidentified(stamped(files@), known@),
{
    let ghost all = stamped(files@);
    let mut out: Vec<(String, i64)> = Vec::new();
    let mut i: usize = 0;
    proof {
        assert(all.take(0) == Seq::<(Seq<char>, int)>::empty());
        assert(stamped(out@) == Seq::<(Seq<char>, int)>::empty());
    }
    while i < files.len()
        invariant
            i <= files@.len() == known@.len(),
            all == stamped(files@),
            stamped(out@) == unidentified(all.take(i as int), known@),
        decreases files@.len() - i,
    {
        proof {
            assert(all.take(i + 1).drop_last() == all.take(i as int));
            assert(all.take(i + 1).last() == all[i as int]);
        }
        if !known[i] {
            let ghost before = out@;
            out.push((files[i].0.clone(), files[i].1));
            assert(stamped(out@) == stamped(before).push(all[i as int]));
        }
        i = i + 1;
    }
    assert(all.take(i as int) == all);
    out
}

/// A file of a lookup: where it is and when it last changed.
pub open spec fn lookup_file(root: Seq<char>, f: (Seq<char>, int)) -> JsonView {
    JsonView::Object(
        seq![
            ("path"@, JsonView::Str(organizer::joined_rel(root, f.0))),
            ("mtime"@, JsonView::Int(f.1)),
        ],
    )
}

pub open spec fn lookup_files(root: Seq<char>, files: Seq<(Seq<char>, int)>) -> Seq<JsonView> {
    files.map_values(|f: (Seq<char>, int)| lookup_file(root, f))
}

/// The files of one lookup: the first fifty.
pub open spec fn batch_of(files: Seq<(Seq<char>, int)>) -> Seq<(Seq<char>, int)> {
    files.take(
        if files.len() < 50 {
            files.len() as int
        } else {
            50
        },
    )
}

/// The request that looks files up, fifty at a time.
pub fn verify_request(cfg: &Config, root: &str, files: &Vec<(String, i64)>) -> (r: Request)
    ensures
        r@ == net::posting(
            text::strip_back(text::trimmed(cfg.acoustid_url@), text::among("/"@)) + "/batch"@,
            Seq::empty(),
            BodyView::Tree(
                JsonView::Object(
                    seq![
                        (
                            "files"@,
                            JsonView::Array(lookup_files(root@, batch_of(stamped(files@)))),
                        ),
                        ("acoustidApiKey"@, JsonView::Str(cfg.acoustid_api_key@)),
                    ],
                ),
            ),
            300_000,
        ),
{
    let ghost batch = batch_of(stamped(files@));
    let n: usize = if files.len() < 50 {
        files.len()
    } else {
        50
    };
    let mut list: Vec<Json> = Vec::new();
    let mut i: usize = 0;
    proof {
        assert(batch.len() == n);
        assert(json::trees(list@) == lookup_files(root@, batch.take(0)));
    }
    while i < n
        invariant
            i <= n == batch.len(),
            n <= files@.len(),
            batch == batch_of(stamped(files@)),
            json::trees(list@) == lookup_files(root@, batch.take(i as int)),
        decreases n - i,
    {
        let mut one: Vec<(String, Json)> = Vec::new();
        json::put(
            &mut one,
            "path",
            json::string(organizer::join_rel(root, files[i].0.as_str()).as_str()),
        );
        json::put(&mut one, "mtime", json::number(files[i].1));
        proof {
            assert(batch[i as int] == (files@[i as int].0@, files@[i as int].1 as int));
            assert(json::members(one@) =~= seq![
                (
                    "path"@,
                    JsonView::Str(organizer::joined_rel(root@, files@[i as int].0@)),
                ),
                ("mtime"@, JsonView::Int(files@[i as int].1 as int)),
            ]);
            assert(batch.take(i + 1) == batch.take(i as int).push(batch[i as int]));
            assert(lookup_files(root@, batch.take(i + 1)) == lookup_files(
                root@,
                batch.take(i as int),
            ).push(lookup_file(root@, batch[i as int])));
        }
        json::append(&mut list, Json::Object(one));
        i = i + 1;
    }
    assert(batch.take(i as int) == batch);
    let mut body: Vec<(String, Json)> = Vec::new();
    let ghost sent = json::trees(list@);
    json::put(&mut body, "files", Json::Array(list));
    json::put(&mut body, "acoustidApiKey", json::string(cfg.acoustid_api_key.as_str()));
    assert(json::members(body@) =~= seq![
        ("files"@, JsonView::Array(sent)),
        ("acoustidApiKey"@, JsonView::Str(cfg.acoustid_api_key@)),
    ]);
    let base = text::trim_back(text::trim(cfg.acoustid_url.as_str()).as_str(), "/");
    net::post(
        text::join_two(base.as_str(), "/batch"),
        net::no_headers(),
        Body::Tree(Json::Object(body)),
        300_000,
    )
}

/// The ids that a result gives for a file: those of its first match. Nothing where there is no
/// match.
pub open spec fn match_ids_of(result: JsonView) -> Option<(Seq<char>, Seq<char>)> {
    let matches = json::items_of(json::member(result, "matches"@));
    if matches.len() == 0 {
        None
    } else {
        let groups = json::items_of(json::member(matches[0], "releaseGroups"@));
        let album = if groups.len() == 0 {
            Seq::empty()
        } else {
            json::text_or_empty(json::member(groups[0], "id"@))
        };
        Some((album, json::text_or_empty(json::member(matches[0], "id"@))))
    }
}

/// The album's and the recording's id that a result gives for a file.
pub fn match_ids(result: &Json) -> (r: Option<(String, String)>)
    ensures
        match r {
            Some((album, recording)) => match_ids_of(result@) == Some((album@, recording@)),
            None => match_ids_of(result@) is None,
        },
{
    match json::items(result.get("matches")) {
        Some(v) => {
            proof {
                json::trees_index(v@);
            }
            if v.len() == 0 {
                return None;
            }
            let top = &v[0];
            let album = match json::items(top.get("releaseGroups")) {
                Some(g) => {
                    proof {
                        json::trees_index(g@);
                    }
                    if g.len() == 0 {
                        String::new()
                    } else {
                        json::str_or_empty(g[0].get("id"))
                    }
                },
                None => String::new(),
            };
            Some((album, json::str_or_empty(top.get("id"))))
        },
        None => None,
    }
}

/// What is left to look up after so many files were, and how that ends.
pub fn verify_outcome(files: &Vec<(String, i64)>, processed: usize) -> (r: (
    Vec<(String, i64)>,
    ScanOutcome,
))
    requires
        processed <= files@.len(),
    ensures
        stamped(r.0@) == stamped(files@).skip(processed as int),
        r.1 == (if processed < files@.len() {
            ScanOutcome::More
        } else {
            ScanOutcome::Done
        }),
{
    let left = files_left(files, processed);
    if processed < files.len() {
        (left, ScanOutcome::More)
    } else {
        (left, ScanOutcome::Done)
    }
}

/// Key of a file in a library's index.
pub open spec fn index_key(library_id: int, rel: Seq<char>) -> Seq<char> {
    "scan.filev2."@ + text::decimal_int(library_id) + "."@ + state::hex(
        state::hashed_text(rel) as nat,
        16,
    )
}

pub fn file_key(library_id: i32, rel: &str) -> (r: String)
    ensures
        r@ == index_key(library_id as int, rel@),
{
    let mut key = library_key("scan.filev2.", library_id);
    key.append(".");
    key.append(state::format_hex16(state::fnv1a64(rel)).as_str());
    key
}

/// What came of a lookup: the service cannot be used, its answer cannot be read, or it is here.
#[derive(Debug)]
pub enum VerifyReply {
    Unavailable,
    Unreadable,
    Answered(Json),
}

/// What came of a lookup of files. Every other answer than 200 counts as none.
pub fn verify_reply(reply: &Reply) -> (r: VerifyReply)
    ensures
        match net::good_body(reply@) {
            None => r is Unavailable,
            Some(body) => match json::document(body) {
                None => r is Unreadable,
                Some(doc) => r matches VerifyReply::Answered(v) && v@ == doc,
            },
        },
{
    match net::ok_body(reply) {
        None => VerifyReply::Unavailable,
        Some(body) => match json::parse(body.as_str()) {
            None => VerifyReply::Unreadable,
            Some(doc) => VerifyReply::Answered(doc),
        },
    }
}

/// A file that was looked up, relative to the library, with the ids of its first match.
#[derive(Debug)]
pub struct Checked {
    pub rel: String,
    pub ids: Option<(String, String)>,
}

/// The mathematical value of a file that was looked up.
#[verifier::ext_equal]
pub struct CheckedView {
    pub rel: Seq<char>,
    pub ids: Option<(Seq<char>, Seq<char>)>,
}

impl View for Checked {
    type V = CheckedView;

    open spec fn view(&self) -> CheckedView {
        CheckedView {
            rel: self.rel@,
            ids: match self.ids {
                Some((album, recording)) => Some((album@, recording@)),
                None => None,
            },
        }
    }
}

pub open spec fn checked_views(v: Seq<Checked>) -> Seq<CheckedView> {
    v.map_values(|c: Checked| c@)
}

/// The files that results are about, in their order. A result without a path is about none.
pub open spec fn checked_of(results: Seq<JsonView>, root: Seq<char>) -> Seq<CheckedView>
    decreases results.len(),
{
    if results.len() == 0 {
        Seq::empty()
    } else {
        let before = checked_of(results.drop_last(), root);
        match json::string_of(json::member(results.last(), "path"@)) {
            Some(path) => before.push(
                CheckedView {
                    rel: group::relative(path, root),
                    ids: match_ids_of(results.last()),
                },
            ),
            None => before,
        }
    }
}

/// The files that an answer is about, each with the ids of its first match.
pub fn checked_files(answer: &Json, root: &str) -> (r: Vec<Checked>)
    ensures
        checked_views(r@) == checked_of(json::items_of(json::member(answer@, "results"@)), root@),
{
    let mut out: Vec<Checked> = Vec::new();
    match json::items(answer.get("results")) {
        None => {
            assert(checked_views(out@) =~= checked_of(Seq::empty(), root@));
            out
        },
        Some(results) => {
            let ghost all = json::trees(results@);
            proof {
                json::trees_index(results@);
                assert(checked_views(out@) =~= checked_of(all.take(0), root@));
            }
            let mut i: usize = 0;
            while i < results.len()
                invariant
                    i <= results@.len() == all.len(),
                    all == json::trees(results@),
                    forall|k: int| 0 <= k < all.len() ==> #[trigger] all[k] == results@[k]@,
                    checked_views(out@) == checked_of(all.take(i as int), root@),
                decreases results.len() - i,
            {
                proof {
                    assert(all.take(i + 1).drop_last() =~= all.take(i as int));
                    assert(all.take(i + 1).last() == results@[i as int]@);
                }
                let ghost before = checked_views(out@);
                match json::str_value(results[i].get("path")) {
                    Some(path) => {
                        let one = Checked {
                            rel: group::relative_path(path.as_str(), root),
                            ids: match_ids(&results[i]),
                        };
                        let ghost shown = one@;
                        out.push(one);
                        assert(checked_views(out@) =~= before.push(shown));
                    },
                    None => {},
                }
                i = i + 1;
            }
            assert(all.take(i as int) =~= all);
            out
        },
    }
}

/// How many files an answer says were processed; none where it says nothing.
pub fn processed_files(answer: &Json) -> (r: u64)
    ensures
        r == match json::natural(json::member(answer@, "processed"@)) {
            Some(n) => n,
            None => 0int,
        },
{
    match json::natural_value(answer.get("processed")) {
        Some(n) => n,
        None => 0,
    }
}

/// What a status says of a walk.
pub open spec fn walk_text(outcome: ScanOutcome, found: nat, folders_left: nat) -> Seq<char> {
    if outcome is Done {
        "walk complete: "@ + text::decimal(found) + " files found"@
    } else {
        "walking... "@ + text::decimal(found) + " files found, "@ + text::decimal(
            folders_left,
        ) + " directories remaining"@
    }
}

pub fn walk_words(outcome: ScanOutcome, found: usize, folders_left: usize) -> (r: String)
    ensures
        r@ == walk_text(outcome, found as nat, folders_left as nat),
{
    let found = text::format_nat(found as u64);
    if let ScanOutcome::Done = outcome {
        let mut s = text::copy("walk complete: ");
        s.append(found.as_str());
        s.append(" files found");
        s
    } else {
        let mut s = text::copy("walking... ");
        s.append(found.as_str());
        s.append(" files found, ");
        s.append(text::format_nat(folders_left as u64).as_str());
        s.append(" directories remaining");
        s
    }
}

/// What a status says when every file was read.
pub fn index_words(processed: usize, skipped: usize) -> (r: String)
    ensures
        r@ == "indexing complete: "@ + text::decimal(processed as nat) + " files indexed, "@
            + text::decimal(skipped as nat) + " skipped (unchanged)"@,
{
    let mut s = text::copy("indexing complete: ");
    s.append(text::format_nat(processed as u64).as_str());
    s.append(" files indexed, ");
    s.append(text::format_nat(skipped as u64).as_str());
    s.append(" skipped (unchanged)");
    s
}

/// What a status says of a lookup: how far it is, or that it is over.
pub fn verify_words(outcome: ScanOutcome, processed: usize, total: usize) -> (r: String)
    ensures
        r@ == if outcome is Done {
            "verification complete"@
        } else {
            "verifying... "@ + text::decimal(processed as nat) + "/"@ + text::decimal(
                total as nat,
            ) + " files verified"@
        },
{
    if let ScanOutcome::Done = outcome {
        text::copy("verification complete")
    } else {
        let mut s = text::copy("verifying... ");
        s.append(text::format_nat(processed as u64).as_str());
        s.append("/");
        s.append(text::format_nat(total as u64).as_str());
        s.append(" files verified");
        s
    }
}

} // verus!
