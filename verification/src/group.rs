//! From indexed files to albums: which files are grouped in which chunk, how many albums a run
//! plans, which files look alike, and when everything stored is stale.

use crate::config::Config;
use crate::fraction::Fraction;
use crate::json;
use crate::json::{Json, JsonView};
use crate::order;
use crate::organizer;
use crate::state;
use crate::text;
use vstd::prelude::*;

verus! {

// ---------------------------------------------------------------------------
// Where a file's path leads back to

/// The path without the root before it, as often as it stands there.
pub open spec fn without_root(path: Seq<char>, root: Seq<char>) -> Seq<char>
    decreases path.len(),
{
    if root.len() > 0 && text::begins(path, root) {
        without_root(path.skip(root.len() as int), root)
    } else {
        path
    }
}

/// The path of a file relative to the library root.
pub open spec fn relative(path: Seq<char>, root: Seq<char>) -> Seq<char> {
    text::strip_front(without_root(path, root), text::among("/"@))
}

pub fn relative_path(path: &str, root: &str) -> (r: String)
    ensures
        r@ == relative(path@, root@),
{
    let n: usize = text::length(root);
    let mut rest = text::copy(path);
    if n == 0 {
        return text::trim_front(rest.as_str(), "/");
    }
    while text::starts_with(rest.as_str(), root)
        invariant
            n == root@.len() > 0,
            without_root(rest@, root@) == without_root(path@, root@),
        decreases rest@.len(),
    {
        let len: usize = text::length(rest.as_str());
        let tail = text::slice(rest.as_str(), n, len);
        assert(tail@ == rest@.skip(n as int));
        rest = tail;
    }
    text::trim_front(rest.as_str(), "/")
}

/// A path put together from the root and a relative path leads back to the relative path, unless
/// the root stands there once more.
pub proof fn relative_paths_are_found_again(root: Seq<char>, rel: Seq<char>)
    requires
        root.len() > 0,
        rel.len() > 0,
        rel[0] != '/',
        !text::begins("/"@ + rel, root),
    ensures
        relative(root + "/"@ + rel, root) == rel,
{
    reveal_strlit("/");
    let path = root + "/"@ + rel;
    let rest = "/"@ + rel;
    assert(path.subrange(0, root.len() as int) == root);
    assert(path.skip(root.len() as int) == rest);
    assert(without_root(rest, root) == rest);
    assert(without_root(path, root) == without_root(rest, root));
    let slash = text::among("/"@);
    assert("/"@[0] == '/');
    assert("/"@.contains('/'));
    assert(slash(rest[0]));
    assert(rest.drop_first() == rel);
    assert(!slash(rel[0])) by {
        if "/"@.contains(rel[0]) {
            let k = choose|k: int| 0 <= k < "/"@.len() && "/"@[k] == rel[0];
            assert(k == 0);
        }
    }
    reveal_with_fuel(text::strip_front, 3);
}

// ---------------------------------------------------------------------------
// Chunks of grouping

/// Where grouping goes on: at the cursor, or at the beginning where nothing is known of how much
/// there is.
pub fn resume_at(cursor: usize, total: usize) -> (r: usize)
    ensures
        r == (if total == 0 {
            0
        } else {
            cursor
        }),
{
    if total == 0 {
        0
    } else {
        cursor
    }
}

/// The end of the next batch of up to five hundred files; none where time is up or all files were
/// taken.
pub fn next_batch(cursor: usize, len: usize, time_is_up: bool) -> (r: Option<usize>)
    requires
        cursor <= len,
    ensures
        match r {
            Some(end) => !time_is_up && cursor < end <= len && end == (if len - cursor < 500 {
                len as int
            } else {
                cursor + 500
            }),
            None => time_is_up || cursor == len,
        },
{
    if time_is_up || cursor == len {
        None
    } else if len - cursor < 500 {
        Some(len)
    } else {
        Some(cursor + 500)
    }
}

/// How many albums may still be planned in this run; the whole budget where nothing is stored.
pub open spec fn budget_left(max_albums: int, stored: Option<Seq<char>>) -> int {
    match stored {
        Some(s) => match text::parsed_int(s, i64::MIN as int, i64::MAX as int) {
            Some(n) => n,
            None => max_albums,
        },
        None => max_albums,
    }
}

/// How many of so many albums are planned. No limit is a limit of nought.
pub open spec fn planned(max_albums: int, stored: Option<Seq<char>>, albums: int) -> int {
    let left = budget_left(max_albums, stored);
    if max_albums == 0 {
        albums
    } else if left <= 0 {
        0
    } else if left < albums {
        left
    } else {
        albums
    }
}

/// What is left of the budget then; nothing is stored where there is no limit or nothing is left.
pub open spec fn budget_after(max_albums: int, stored: Option<Seq<char>>, albums: int) -> Option<int> {
    if max_albums == 0 || budget_left(max_albums, stored) <= 0 {
        None
    } else {
        Some(budget_left(max_albums, stored) - planned(max_albums, stored, albums))
    }
}

/// The albums that are planned in this run, and what is left of the budget.
pub fn apply_album_budget(
    cfg: &Config,
    stored: &Option<String>,
    groups: Vec<Vec<String>>,
) -> (r: (Vec<Vec<String>>, Option<i64>))
    requires
        cfg.max_albums_per_run <= i64::MAX,
    ensures
        r.0@ == groups@.take(
            planned(
                cfg.max_albums_per_run as int,
                text::view_opt(*stored),
                groups@.len() as int,
            ),
        ),
        match r.1 {
            Some(n) => budget_after(
                cfg.max_albums_per_run as int,
                text::view_opt(*stored),
                groups@.len() as int,
            ) == Some(n as int),
            None => budget_after(
                cfg.max_albums_per_run as int,
                text::view_opt(*stored),
                groups@.len() as int,
            ) is None,
        },
{
    if cfg.max_albums_per_run == 0 {
        assert(groups@.take(groups@.len() as int) == groups@);
        return (groups, None);
    }
    let left: i64 = match stored {
        Some(s) => match text::parse_int(s.as_str(), i64::MIN, i64::MAX) {
            Some(n) => n,
            None => cfg.max_albums_per_run as i64,
        },
        None => cfg.max_albums_per_run as i64,
    };
    let mut out = groups;
    let n: usize = out.len();
    if left <= 0 {
        out.truncate(0);
        return (out, None);
    }
    if (left as u64) < (n as u64) {
        out.truncate(left as usize);
        (out, Some(0))
    } else {
        assert(groups@.take(n as int) == groups@);
        (out, Some(left - n as i64))
    }
}

/// A run never plans more albums than its budget allows, however they come.
pub proof fn budget_is_never_exceeded(max_albums: int, first: int, second: int)
    requires
        0 < max_albums <= i64::MAX,
        0 <= first,
        0 <= second,
    ensures
        ({
            let a = planned(max_albums, None, first);
            let left = budget_after(max_albums, None, first)->0;
            let b = planned(max_albums, Some(text::decimal_int(left)), second);
            0 <= a <= first && 0 <= b <= second && a + b <= max_albums
        }),
{
    let a = planned(max_albums, None, first);
    let left = max_albums - a;
    text::decimal_int_reads_back(left, i64::MIN as int, i64::MAX as int);
}

/// The batches in which albums are planned: as many tasks as are needed for so many at a time (one
/// at least).
pub open spec fn task_count(albums: int, per_task: int) -> int {
    (albums + per_task - 1) / per_task
}

pub open spec fn albums_each(cfg: Config) -> int {
    if cfg.albums_per_task >= 1 {
        cfg.albums_per_task as int
    } else {
        1
    }
}

/// One task: its albums begin and end there.
#[derive(Debug, Clone, Copy, PartialEq, Eq, Structural)]
pub struct PlanTask {
    pub from: usize,
    pub to: usize,
}

/// The tasks of planning so many albums: one after the other, each full but for the last.
pub fn plan_tasks(cfg: &Config, albums: usize) -> (r: Vec<PlanTask>)
    ensures
        r@.len() == task_count(albums as int, albums_each(*cfg)),
        forall|i: int|
            0 <= i < r@.len() ==> {
                &&& (#[trigger] r@[i]).from == i * albums_each(*cfg)
                &&& r@[i].to == (if (i + 1) * albums_each(*cfg) < albums {
                    (i + 1) * albums_each(*cfg)
                } else {
                    albums as int
                })
                &&& r@[i].from < r@[i].to <= albums
            },
{
    let each: usize = if cfg.albums_per_task >= 1 {
        cfg.albums_per_task
    } else {
        1
    };
    let ghost k = each as int;
    let mut out: Vec<PlanTask> = Vec::new();
    let mut from: usize = 0;
    while from < albums
        invariant
            each == k >= 1,
            k == albums_each(*cfg),
            from == (if out@.len() * k < albums {
                out@.len() * k
            } else {
                albums as int
            }),
            out@.len() == 0 ==> from == 0,
            out@.len() > 0 ==> (out@.len() - 1) * k < albums,
            forall|i: int|
                0 <= i < out@.len() ==> {
                    &&& (#[trigger] out@[i]).from == i * k
                    &&& out@[i].to == (if (i + 1) * k < albums {
                        (i + 1) * k
                    } else {
                        albums as int
                    })
                    &&& out@[i].from < out@[i].to <= albums
                },
        decreases albums - from,
    {
        let to: usize = if albums - from > each {
            from + each
        } else {
            albums
        };
        let ghost n = out@.len() as int;
        assert((n + 1) * k == n * k + k) by (nonlinear_arith);
        out.push(PlanTask { from, to });
        from = to;
    }
    proof {
        let n = out@.len() as int;
        if n == 0 {
            assert(albums == 0);
            assert((0 + k - 1) / k == 0) by (nonlinear_arith)
                requires
                    k >= 1,
            ;
        } else {
            assert((n - 1) * k == n * k - k) by (nonlinear_arith);
            assert((albums + k - 1) / k == n) by (nonlinear_arith)
                requires
                    k >= 1,
                    n * k - k < albums,
                    albums <= n * k,
            ;
        }
    }
    out
}

/// The tasks cover every album once: the first begins with the first, each begins where the one
/// before it ends, and the last ends with the last.
pub proof fn tasks_cover_every_album(tasks: Seq<PlanTask>, albums: int, each: int)
    requires
        each >= 1,
        albums >= 0,
        tasks.len() == task_count(albums, each),
        forall|i: int|
            0 <= i < tasks.len() ==> (#[trigger] tasks[i]).from == i * each && tasks[i].to == (if (i
                + 1) * each < albums {
                (i + 1) * each
            } else {
                albums
            }),
    ensures
        albums > 0 ==> tasks.len() > 0 && tasks[0].from == 0 && tasks.last().to == albums,
        forall|i: int|
            0 <= i < tasks.len() - 1 ==> (#[trigger] tasks[i]).to == tasks[i + 1].from,
{
    let n = tasks.len() as int;
    assert(n * each >= albums && (n - 1) * each < albums) by (nonlinear_arith)
        requires
            each >= 1,
            albums >= 0,
            n == (albums + each - 1) / each,
    ;
    if albums > 0 {
        assert(n > 0) by (nonlinear_arith)
            requires
                n * each >= albums,
                albums > 0,
                each >= 1,
        ;
        assert(0 * each == 0);
        assert(tasks.last() == tasks[n - 1]);
        assert((n - 1 + 1) * each == n * each);
    }
    assert forall|i: int| 0 <= i < tasks.len() - 1 implies (#[trigger] tasks[i]).to == tasks[i
        + 1].from by {
        assert((i + 1) * each <= (n - 1) * each) by (nonlinear_arith)
            requires
                i + 1 <= n - 1,
                each >= 1,
        ;
    }
}

// ---------------------------------------------------------------------------
// Has the server's database changed?

pub open spec fn text_order() -> spec_fn(Seq<char>, Seq<char>) -> bool {
    |a: Seq<char>, b: Seq<char>| order::text_before(a, b)
}

/// The fingerprint of a database: the libraries' places in order, and how many files it knows.
pub open spec fn fingerprint(mounts: Seq<Seq<char>>, count: int) -> Seq<char> {
    text::joined(order::sorted_by(mounts, text_order()), ","@) + "|"@ + text::decimal_int(count)
}

pub fn db_fingerprint(mounts: Vec<String>, count: i64) -> (r: String)
    ensures
        r@ == fingerprint(text::views(mounts@), count as int),
{
    let before = |a: &String, b: &String| -> (x: bool)
        ensures
            x == order::text_before(a@, b@),
        { order::comes_before(a.as_str(), b.as_str()) };
    let ghost shown = |s: String| s@;
    let ghost rel = |a: String, b: String| text_order()(shown(a), shown(b));
    let ghost given = mounts@;
    let sorted = order::sort_by(mounts, before, Ghost(rel));
    proof {
        order::sorting_commutes(given, shown, text_order());
        assert(text::views(given) =~= given.map_values(shown));
        assert(text::views(sorted@) =~= sorted@.map_values(shown));
    }
    let mut s = text::join(&sorted, ",");
    s.append("|");
    s.append(text::format_int(count).as_str());
    s
}

/// What is stored belongs to another database: a fingerprint is stored, and it differs.
pub fn db_changed(stored: &Option<String>, now: &str) -> (r: bool)
    ensures
        r == (stored matches Some(s) && s@ != now@),
{
    match stored {
        Some(s) => !text::same(s.as_str(), now),
        None => false,
    }
}

/// How many files an answer to `getScanStatus` says there are.
pub open spec fn media_count_of(doc: Option<JsonView>) -> int {
    match json::int_of(
        json::member_opt(
            json::member_opt(json::member_opt(doc, "subsonic-response"@), "scanStatus"@),
            "count"@,
        ),
    ) {
        Some(n) => n,
        None => 0,
    }
}

pub fn media_count(doc: &Option<Json>) -> (r: i64)
    ensures
        r == media_count_of(json::doc_view(*doc)),
{
    match json::int_value(
        json::get_opt(
            json::get_opt(json::get_opt(json::root(doc), "subsonic-response"), "scanStatus"),
            "count",
        ),
    ) {
        Some(n) => n,
        None => 0,
    }
}

/// What the keys begin with that are bound to a database.
pub open spec fn stale_prefix_texts() -> Seq<Seq<char>> {
    seq![
        "scan.filev2."@,
        "scan.stackv2."@,
        "star.tally."@,
        "star.pub."@,
        "stat.play."@,
        "stat.skip."@,
    ]
}

pub fn stale_prefixes() -> (r: Vec<&'static str>)
    ensures
        r@.len() == stale_prefix_texts().len(),
        forall|i: int| 0 <= i < r@.len() ==> (#[trigger] r@[i])@ == stale_prefix_texts()[i],
{
    vec![
        "scan.filev2.",
        "scan.stackv2.",
        "star.tally.",
        "star.pub.",
        "stat.play.",
        "stat.skip.",
    ]
}

// ---------------------------------------------------------------------------
// Files that look alike

/// The fingerprint of a file: its size and what it begins and ends with.
pub open spec fn content_hash(size: nat, head: Seq<u8>, tail: Seq<u8>) -> u64 {
    state::hashed(vstd::utf8::encode_utf8(text::decimal(size)) + seq![124u8] + head + seq![124u8] + tail)
}

pub fn content_fingerprint(size: u64, head: &Vec<u8>, tail: &Vec<u8>) -> (r: u64)
    ensures
        r == content_hash(size as nat, head@, tail@),
{
    let shown = text::format_nat(size);
    let digits = shown.as_str().as_bytes();
    let mut all: Vec<u8> = Vec::new();
    all.extend_from_slice(digits);
    all.push(124);
    all.extend_from_slice(head.as_slice());
    all.push(124);
    all.extend_from_slice(tail.as_slice());
    proof {
        assert(all@ =~= vstd::utf8::encode_utf8(text::decimal(size as nat)) + seq![124u8] + head@
            + seq![124u8] + tail@);
    }
    state::fnv1a64_bytes(all.as_slice())
}

/// How many bytes a file's end is read for its fingerprint; a short file has been read whole.
pub fn tail_length(size: u64) -> (r: u64)
    ensures
        r == (if size > 16384 {
            8192u64
        } else {
            0
        }),
{
    if size > 16384 {
        8192
    } else {
        0
    }
}

pub open spec fn marked_views(v: Seq<(String, u64)>) -> Seq<(Seq<char>, u64)> {
    v.map_values(|f: (String, u64)| (f.0@, f.1))
}

/// The files of one mark.
pub open spec fn with_mark(files: Seq<(Seq<char>, u64)>, mark: u64) -> Seq<Seq<char>>
    decreases files.len(),
{
    if files.len() == 0 {
        Seq::empty()
    } else {
        let rest = with_mark(files.drop_last(), mark);
        if files.last().1 == mark {
            rest.push(files.last().0)
        } else {
            rest
        }
    }
}

/// The marks, each once, in the order in which they come.
pub open spec fn marks(files: Seq<(Seq<char>, u64)>) -> Seq<u64>
    decreases files.len(),
{
    if files.len() == 0 {
        Seq::empty()
    } else {
        let rest = marks(files.drop_last());
        if rest.contains(files.last().1) {
            rest
        } else {
            rest.push(files.last().1)
        }
    }
}

/// The groups of two or more files with one mark.
pub open spec fn alike(files: Seq<(Seq<char>, u64)>, ms: Seq<u64>) -> Seq<Seq<Seq<char>>>
    decreases ms.len(),
{
    if ms.len() == 0 {
        Seq::empty()
    } else {
        let rest = alike(files, ms.drop_last());
        let group = with_mark(files, ms.last());
        if group.len() > 1 {
            rest.push(group)
        } else {
            rest
        }
    }
}

fn marks_in(files: &Vec<(String, u64)>) -> (r: Vec<u64>)
    ensures
        r@ == marks(marked_views(files@)),
{
    let ghost all = marked_views(files@);
    let mut out: Vec<u64> = Vec::new();
    let mut i: usize = 0;
    assert(all.take(0) == Seq::<(Seq<char>, u64)>::empty());
    while i < files.len()
        invariant
            i <= files@.len(),
            all == marked_views(files@),
            out@ == marks(all.take(i as int)),
        decreases files@.len() - i,
    {
        let mark: u64 = files[i].1;
        proof {
            assert(all.take(i + 1).drop_last() == all.take(i as int));
            assert(all.take(i + 1).last() == all[i as int]);
        }
        let mut known = false;
        let mut k: usize = 0;
        while k < out.len()
            invariant
                k <= out@.len(),
                known == out@.take(k as int).contains(mark),
            decreases out@.len() - k,
        {
            proof {
                assert(out@.take(k + 1) == out@.take(k as int).push(out@[k as int]));
                let before = out@.take(k as int);
                if before.contains(mark) {
                    let j = before.index_of(mark);
                    assert(out@.take(k + 1)[j] == mark);
                }
                if out@[k as int] == mark {
                    assert(out@.take(k + 1)[k as int] == mark);
                }
                if out@.take(k + 1).contains(mark) && out@[k as int] != mark {
                    let j = out@.take(k + 1).index_of(mark);
                    assert(before[j] == mark);
                }
            }
            if out[k] == mark {
                known = true;
            }
            k = k + 1;
        }
        assert(out@.take(k as int) == out@);
        if !known {
            out.push(mark);
        }
        i = i + 1;
    }
    assert(all.take(i as int) == all);
    out
}

fn files_with(files: &Vec<(String, u64)>, mark: u64) -> (r: Vec<String>)
    ensures
        text::views(r@) == with_mark(marked_views(files@), mark),
{
    let ghost all = marked_views(files@);
    let mut out: Vec<String> = Vec::new();
    let mut i: usize = 0;
    proof {
        assert(all.take(0) == Seq::<(Seq<char>, u64)>::empty());
        assert(text::views(out@) == Seq::<Seq<char>>::empty());
    }
    while i < files.len()
        invariant
            i <= files@.len(),
            all == marked_views(files@),
            text::views(out@) == with_mark(all.take(i as int), mark),
        decreases files@.len() - i,
    {
        proof {
            assert(all.take(i + 1).drop_last() == all.take(i as int));
            assert(all.take(i + 1).last() == all[i as int]);
        }
        if files[i].1 == mark {
            let path = files[i].0.clone();
            proof {
                text::views_push(out@, path);
            }
            out.push(path);
        }
        i = i + 1;
    }
    assert(all.take(i as int) == all);
    out
}

/// The groups of two or more files that have the same size, or the same fingerprint.
pub fn look_alikes(files: &Vec<(String, u64)>) -> (r: Vec<Vec<String>>)
    ensures
        organizer::list_views(r@) == alike(
            marked_views(files@),
            marks(marked_views(files@)),
        ),
{
    let ms = marks_in(files);
    let mut out: Vec<Vec<String>> = Vec::new();
    let mut i: usize = 0;
    proof {
        assert(ms@.take(0) == Seq::<u64>::empty());
        assert(organizer::list_views(out@) == Seq::<Seq<Seq<char>>>::empty());
    }
    while i < ms.len()
        invariant
            i <= ms@.len(),
            organizer::list_views(out@) == alike(marked_views(files@), ms@.take(i as int)),
        decreases ms@.len() - i,
    {
        proof {
            assert(ms@.take(i + 1).drop_last() == ms@.take(i as int));
            assert(ms@.take(i + 1).last() == ms@[i as int]);
        }
        let group = files_with(files, ms[i]);
        if group.len() > 1 {
            let ghost before = out@;
            let ghost shown = text::views(group@);
            out.push(group);
            assert(organizer::list_views(out@) =~= organizer::list_views(before).push(shown));
        }
        i = i + 1;
    }
    assert(ms@.take(i as int) == ms@);
    out
}

pub open spec fn alike_lines(groups: Seq<Seq<Seq<char>>>) -> Seq<char>
    decreases groups.len(),
{
    if groups.len() == 0 {
        "nd-organizer: possible duplicate audio files:\n"@
    } else {
        alike_lines(groups.drop_last()) + "  "@ + text::joined(groups.last(), " <=> "@) + "\n"@
    }
}

/// What is said of files that look alike; nothing where there are none.
pub fn duplicates_message(groups: &Vec<Vec<String>>) -> (r: Option<String>)
    ensures
        match r {
            Some(s) => groups@.len() > 0 && s@ == alike_lines(organizer::list_views(groups@)),
            None => groups@.len() == 0,
        },
{
    if groups.len() == 0 {
        return None;
    }
    let ghost all = organizer::list_views(groups@);
    let mut s = text::copy("nd-organizer: possible duplicate audio files:\n");
    let mut i: usize = 0;
    assert(all.take(0) == Seq::<Seq<Seq<char>>>::empty());
    while i < groups.len()
        invariant
            i <= groups@.len(),
            all == organizer::list_views(groups@),
            s@ == alike_lines(all.take(i as int)),
        decreases groups@.len() - i,
    {
        proof {
            assert(all.take(i + 1).drop_last() == all.take(i as int));
            assert(all.take(i + 1).last() == all[i as int]);
            assert(all[i as int] == text::views(groups@[i as int]@));
        }
        s.append("  ");
        s.append(text::join(&groups[i], " <=> ").as_str());
        s.append("\n");
        i = i + 1;
    }
    assert(all.take(i as int) == all);
    Some(s)
}

/// How alike two files sound.
#[derive(Debug, Clone, Copy, PartialEq, Eq, Structural)]
pub enum Likeness {
    Same,
    Cover,
    Different,
}

/// From 95 of a hundred on they are the same, from half on one is a cover of the other.
pub fn likeness(similarity: &Fraction) -> (r: Likeness)
    requires
        similarity.wf(),
    ensures
        r == (if 20 * similarity.num >= 19 * similarity.den {
            Likeness::Same
        } else if 2 * similarity.num >= similarity.den {
            Likeness::Cover
        } else {
            Likeness::Different
        }),
{
    let n: i128 = similarity.num as i128;
    let d: i128 = similarity.den as i128;
    if 20 * n >= 19 * d {
        Likeness::Same
    } else if 2 * n >= d {
        Likeness::Cover
    } else {
        Likeness::Different
    }
}

/// The pairs of a group's first twenty files, each once.
pub fn pairs_to_compare(files: usize) -> (r: Vec<(usize, usize)>)
    ensures
        forall|i: int, j: int|
            0 <= i < j < files && j < 20 ==> r@.contains(#[trigger] pair(i, j)),
        forall|k: int|
            0 <= k < r@.len() ==> (#[trigger] r@[k]).0 < r@[k].1 < files && r@[k].1 < 20,
        r@.no_duplicates(),
{
    let n: usize = if files < 20 {
        files
    } else {
        20
    };
    let mut out: Vec<(usize, usize)> = Vec::new();
    let mut i: usize = 0;
    while i < n
        invariant
            i <= n <= files,
            n <= 20,
            forall|a: int, b: int| 0 <= a < i && a < b < n ==> out@.contains(#[trigger] pair(a, b)),
            forall|k: int|
                0 <= k < out@.len() ==> (#[trigger] out@[k]).0 < i && out@[k].0 < out@[k].1 < n,
            out@.no_duplicates(),
        decreases n - i,
    {
        let mut j: usize = i + 1;
        while j < n
            invariant
                i < j <= n,
                n <= files,
                n <= 20,
                forall|a: int, b: int|
                    0 <= a < i && a < b < n ==> out@.contains(#[trigger] pair(a, b)),
                forall|b: int| i < b < j ==> out@.contains(#[trigger] pair(i as int, b)),
                forall|k: int|
                    0 <= k < out@.len() ==> (#[trigger] out@[k]).0 <= i && out@[k].0 < out@[k].1 < n
                        && (out@[k].0 == i ==> out@[k].1 < j),
                out@.no_duplicates(),
            decreases n - j,
        {
            let ghost before = out@;
            out.push((i, j));
            proof {
                assert forall|a: int, b: int| 0 <= a < i && a < b < n implies out@.contains(
                    #[trigger] pair(a, b),
                ) by {
                    let k = before.index_of(pair(a, b));
                    assert(out@[k] == pair(a, b));
                }
                assert forall|b: int| i < b < j + 1 implies out@.contains(
                    #[trigger] pair(i as int, b),
                ) by {
                    if b < j {
                        let k = before.index_of(pair(i as int, b));
                        assert(out@[k] == pair(i as int, b));
                    } else {
                        assert(out@[before.len() as int] == pair(i as int, b));
                    }
                }
            }
            j = j + 1;
        }
        i = i + 1;
    }
    out
}

/// Two positions, as they are listed.
pub open spec fn pair(i: int, j: int) -> (usize, usize) {
    (i as usize, j as usize)
}

} // verus!
