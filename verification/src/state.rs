//! What is remembered of a run: the keys under which it is stored, and how it is undone.

use crate::files;
use crate::json;
use crate::json::{Json, JsonView};
use crate::order;
use crate::organizer;
use crate::text;
use vstd::prelude::*;

verus! {

/// One file that got another name; the folder stands in the record.
#[derive(Debug, Clone)]
pub struct FileRename {
    pub from: String,
    pub to: String,
}

/// One album that was put in order: its folder went from `from_dir` to `to_dir`, and there its
/// files got new names.
#[derive(Debug, Clone)]
pub struct ApplyRecord {
    pub seq: i64,
    pub ts: i64,
    pub run_id: String,
    pub library_id: i32,
    pub from_dir: String,
    pub to_dir: String,
    pub file_renames: Vec<FileRename>,
    pub dir_sidecars: Vec<String>,
    /// Path of the `album.nfo` that was written, relative to the library root.
    pub nfo_written: Option<String>,
    /// Key of the content that stood there before.
    pub nfo_backup: Option<String>,
}

// ---------------------------------------------------------------------------
// Keys

/// One step of the hash: take in a byte, then scatter.
pub open spec fn hash_step(h: u64, b: u8) -> u64 {
    (h ^ (b as u64)).wrapping_mul(0x100_0000_01b3)
}

/// The 64-bit FNV-1a hash of the bytes.
pub open spec fn hashed(bytes: Seq<u8>) -> u64
    decreases bytes.len(),
{
    if bytes.len() == 0 {
        0xcbf2_9ce4_8422_2325
    } else {
        hash_step(hashed(bytes.drop_last()), bytes.last())
    }
}

/// The hash of bytes, which is the same in every process.
pub fn fnv1a64_bytes(bytes: &[u8]) -> (r: u64)
    ensures
        r == hashed(bytes@),
{
    let mut h: u64 = 0xcbf2_9ce4_8422_2325;
    let mut i: usize = 0;
    assert(bytes@.take(0) == Seq::<u8>::empty());
    while i < bytes.len()
        invariant
            i <= bytes@.len(),
            h == hashed(bytes@.take(i as int)),
        decreases bytes@.len() - i,
    {
        proof {
            assert(bytes@.take(i + 1).drop_last() == bytes@.take(i as int));
            assert(bytes@.take(i + 1).last() == bytes@[i as int]);
        }
        h = (h ^ (bytes[i] as u64)).wrapping_mul(0x100_0000_01b3);
        i = i + 1;
    }
    assert(bytes@.take(i as int) == bytes@);
    h
}

/// The hash of a text's bytes.
pub open spec fn hashed_text(s: Seq<char>) -> u64 {
    hashed(vstd::utf8::encode_utf8(s))
}

/// Hash for cache keys.
pub fn fnv1a64(s: &str) -> (r: u64)
    ensures
        r == hashed_text(s@),
{
    fnv1a64_bytes(s.as_bytes())
}

/// The sixteen hexadecimal digits, in lower case.
pub open spec fn hex_digit(d: int) -> char {
    if d < 10 {
        text::digit_char(d)
    } else {
        (87 + d) as char
    }
}

/// The last `width` hexadecimal digits of a number.
pub open spec fn hex(n: nat, width: nat) -> Seq<char>
    decreases width,
{
    if width == 0 {
        Seq::empty()
    } else {
        hex(n / 16, (width - 1) as nat).push(hex_digit((n % 16) as int))
    }
}

fn char_of_hex(d: u64) -> (r: char)
    requires
        d < 16,
    ensures
        r == hex_digit(d as int),
{
    if d < 10 {
        (48 + d as u8) as char
    } else {
        (87 + d as u8) as char
    }
}

fn push_hex(n: u64, width: u64, s: &mut String)
    ensures
        final(s)@ == old(s)@ + hex(n as nat, width as nat),
    decreases width,
{
    if width == 0 {
        assert(s@ + Seq::<char>::empty() == s@);
    } else {
        let ghost start = s@;
        push_hex(n / 16, width - 1, s);
        s.push(char_of_hex(n % 16));
        assert(s@ == start + hex((n / 16) as nat, (width - 1) as nat).push(
            hex_digit((n % 16) as int),
        ));
    }
}

/// A hash as sixteen hexadecimal digits.
pub fn format_hex16(n: u64) -> (r: String)
    ensures
        r@ == hex(n as nat, 16),
{
    let mut s = text::copy("");
    proof {
        reveal_strlit("");
    }
    push_hex(n, 16, &mut s);
    assert(s@ == Seq::<char>::empty() + hex(n as nat, 16));
    s
}

/// Name of the run that starts at the given time.
pub fn new_run_id(now: i64) -> (r: String)
    ensures
        r@ == "run-"@ + text::decimal_int(now as int),
{
    let mut s = text::copy("run-");
    s.append(text::format_int(now).as_str());
    s
}

pub open spec fn keyed(prefix: Seq<char>, run_id: Seq<char>, seq: int) -> Seq<char> {
    prefix + run_id + ":"@ + text::decimal_int(seq)
}

fn keyed_text(prefix: &str, run_id: &str, seq: i64) -> (r: String)
    ensures
        r@ == keyed(prefix@, run_id@, seq as int),
{
    let mut s = text::copy(prefix);
    s.append(run_id);
    s.append(":");
    s.append(text::format_int(seq).as_str());
    s
}

/// Key of the content that a run's step replaced.
pub fn backup_key(run_id: &str, seq: i64) -> (r: String)
    ensures
        r@ == keyed("backup:"@, run_id@, seq as int),
{
    keyed_text("backup:", run_id, seq)
}

/// Key of a run's record.
pub fn apply_key(run_id: &str, seq: i64) -> (r: String)
    ensures
        r@ == keyed("apply:"@, run_id@, seq as int),
{
    keyed_text("apply:", run_id, seq)
}

/// What all the keys of a run's records begin with.
pub fn apply_prefix(run_id: &str) -> (r: String)
    ensures
        r@ == "apply:"@ + run_id@ + ":"@,
{
    let mut s = text::copy("apply:");
    s.append(run_id);
    s.append(":");
    s
}

/// Key of a run's counter.
pub fn seq_key(run_id: &str) -> (r: String)
    ensures
        r@ == "seq:"@ + run_id@,
{
    text::join_two("seq:", run_id)
}

/// Key of the mark that a run was rolled back.
pub fn rollback_done_key(run_id: &str) -> (r: String)
    ensures
        r@ == "rollback:done:"@ + run_id@,
{
    text::join_two("rollback:done:", run_id)
}

/// Key of what a source answered to a query.
pub fn meta_key(source: &str, query: &str) -> (r: String)
    ensures
        r@ == "meta:"@ + source@ + ":"@ + text::decimal(hashed_text(query@) as nat),
{
    let mut s = text::copy("meta:");
    s.append(source);
    s.append(":");
    s.append(text::format_nat(fnv1a64(query)).as_str());
    s
}

/// The number that a stored text holds; nothing, or another text, counts as zero.
pub open spec fn stored_number(stored: Option<Seq<char>>) -> int {
    match stored {
        Some(s) => match text::parsed_int(s, i64::MIN as int, i64::MAX as int) {
            Some(n) => n,
            None => 0,
        },
        None => 0,
    }
}

pub fn stored_int(stored: &Option<String>) -> (r: i64)
    ensures
        r == stored_number(text::view_opt(*stored)),
{
    match stored {
        Some(s) => match text::parse_int(s.as_str(), i64::MIN, i64::MAX) {
            Some(n) => n,
            None => 0,
        },
        None => 0,
    }
}

/// The number of a run's next record, from what its counter holds.
pub fn next_seq(stored: &Option<String>) -> (r: i64)
    requires
        stored_number(text::view_opt(*stored)) < i64::MAX,
    ensures
        r == stored_number(text::view_opt(*stored)) + 1,
{
    stored_int(stored) + 1
}

/// The relation by which a run's records are ordered.
pub open spec fn earlier() -> spec_fn(ApplyRecord, ApplyRecord) -> bool {
    |a: ApplyRecord, b: ApplyRecord| a.seq < b.seq
}

/// A run's records in the order in which they were made.
pub fn in_run_order(recs: Vec<ApplyRecord>) -> (r: Vec<ApplyRecord>)
    ensures
        r@ == order::sorted_by(recs@, earlier()),
{
    let before = |a: &ApplyRecord, b: &ApplyRecord| -> (x: bool)
        ensures
            x == (a.seq < b.seq),
        { a.seq < b.seq };
    order::sort_by(recs, before, Ghost(earlier()))
}

// ---------------------------------------------------------------------------
// Undoing

/// One step of undoing a record. The two moves take place only where something stands at the
/// old place and nothing at the new one.
#[derive(Debug)]
pub enum UndoStep {
    RenameFile { dir: String, from: String, to: String },
    WriteNfo { path: String, content: Vec<u8> },
    MoveFolder { from: String, to: String },
}

pub enum UndoView {
    RenameFile { dir: Seq<char>, from: Seq<char>, to: Seq<char> },
    WriteNfo { path: Seq<char>, content: Seq<u8> },
    MoveFolder { from: Seq<char>, to: Seq<char> },
}

impl View for UndoStep {
    type V = UndoView;

    open spec fn view(&self) -> UndoView {
        match self {
            UndoStep::RenameFile { dir, from, to } => UndoView::RenameFile {
                dir: dir@,
                from: from@,
                to: to@,
            },
            UndoStep::WriteNfo { path, content } => UndoView::WriteNfo {
                path: path@,
                content: content@,
            },
            UndoStep::MoveFolder { from, to } => UndoView::MoveFolder { from: from@, to: to@ },
        }
    }
}

pub open spec fn step_views(v: Seq<UndoStep>) -> Seq<UndoView> {
    v.map_values(|s: UndoStep| s@)
}

pub open spec fn rename_views(v: Seq<FileRename>) -> Seq<(Seq<char>, Seq<char>)> {
    v.map_values(|r: FileRename| (r.from@, r.to@))
}

/// The renames taken back, the last one first. A rename that changed only the case of letters
/// stays.
pub open spec fn restores(dir: Seq<char>, renames: Seq<(Seq<char>, Seq<char>)>) -> Seq<UndoView>
    decreases renames.len(),
{
    if renames.len() == 0 {
        Seq::empty()
    } else {
        let (from, to) = renames.last();
        let rest = restores(dir, renames.drop_last());
        if organizer::same_but_case(from, to) {
            rest
        } else {
            seq![UndoView::RenameFile { dir, from: to, to: from }] + rest
        }
    }
}

/// How a sidecar that was written is undone: it gets its former content. Without one it stays.
pub open spec fn nfo_undo(nfo_written: Option<Seq<char>>, nfo_content: Option<Seq<u8>>) -> Seq<
    UndoView,
> {
    match (nfo_written, nfo_content) {
        (Some(path), Some(content)) => seq![UndoView::WriteNfo { path, content }],
        _ => Seq::empty(),
    }
}

/// How the move of a folder is undone. A move that changed only the case of letters stays.
pub open spec fn folder_undo(from_dir: Seq<char>, to_dir: Seq<char>) -> Seq<UndoView> {
    if organizer::same_but_case(from_dir, to_dir) {
        Seq::empty()
    } else {
        seq![UndoView::MoveFolder { from: to_dir, to: from_dir }]
    }
}

/// The steps that undo a record: names, then the sidecar, then the folder.
pub open spec fn undo_steps(
    from_dir: Seq<char>,
    to_dir: Seq<char>,
    renames: Seq<(Seq<char>, Seq<char>)>,
    nfo_written: Option<Seq<char>>,
    nfo_content: Option<Seq<u8>>,
) -> Seq<UndoView> {
    restores(to_dir, renames) + nfo_undo(nfo_written, nfo_content) + folder_undo(from_dir, to_dir)
}

pub open spec fn bytes_opt(o: Option<Vec<u8>>) -> Option<Seq<u8>> {
    match o {
        Some(v) => Some(v@),
        None => None,
    }
}

/// Reverses one album: file names back, the sidecar's content from its backup, then the folder back
/// to where it was.
pub fn rollback_record(rec: &ApplyRecord, nfo_content: Option<Vec<u8>>) -> (r: Vec<UndoStep>)
    ensures
        step_views(r@) == undo_steps(
            rec.from_dir@,
            rec.to_dir@,
            rename_views(rec.file_renames@),
            text::view_opt(rec.nfo_written),
            bytes_opt(nfo_content),
        ),
{
    let ghost renames = rename_views(rec.file_renames@);
    let ghost all = restores(rec.to_dir@, renames);
    let mut steps: Vec<UndoStep> = Vec::new();
    let mut i: usize = rec.file_renames.len();
    proof {
        assert(renames.take(i as int) == renames);
        assert(step_views(steps@) + restores(rec.to_dir@, renames.take(i as int)) == all);
    }
    while i > 0
        invariant
            i <= rec.file_renames@.len(),
            renames == rename_views(rec.file_renames@),
            all == restores(rec.to_dir@, renames),
            step_views(steps@) + restores(rec.to_dir@, renames.take(i as int)) == all,
        decreases i,
    {
        i = i - 1;
        let ghost before = step_views(steps@);
        let from = &rec.file_renames[i].from;
        let to = &rec.file_renames[i].to;
        proof {
            assert(renames.take(i + 1).drop_last() == renames.take(i as int));
            assert(renames.take(i + 1).last() == (from@, to@));
        }
        if !organizer::equal_but_case(from.as_str(), to.as_str()) {
            let step = UndoStep::RenameFile {
                dir: rec.to_dir.clone(),
                from: to.clone(),
                to: from.clone(),
            };
            let ghost shown = step@;
            steps.push(step);
            proof {
                assert(step_views(steps@) == before.push(shown));
                let rest = restores(rec.to_dir@, renames.take(i as int));
                assert(before.push(shown) + rest == before + (seq![shown] + rest));
            }
        }
    }
    proof {
        assert(renames.take(0) == Seq::<(Seq<char>, Seq<char>)>::empty());
        assert(step_views(steps@) == all);
    }
    match (&rec.nfo_written, nfo_content) {
        (Some(path), Some(content)) => {
            let step = UndoStep::WriteNfo { path: path.clone(), content };
            let ghost shown = step@;
            steps.push(step);
            assert(step_views(steps@) == all + seq![shown]);
        },
        _ => {
            assert(step_views(steps@) == all + Seq::<UndoView>::empty());
        },
    }
    let ghost done = step_views(steps@);
    if !organizer::equal_but_case(rec.from_dir.as_str(), rec.to_dir.as_str()) {
        let step = UndoStep::MoveFolder { from: rec.to_dir.clone(), to: rec.from_dir.clone() };
        let ghost shown = step@;
        steps.push(step);
        assert(step_views(steps@) == done + seq![shown]);
    } else {
        assert(done == done + Seq::<UndoView>::empty());
    }
    steps
}

/// Whether a move of undoing takes place, given what stands at the old and at the new place.
pub fn takes_place(source_exists: bool, target_exists: bool) -> (r: bool)
    ensures
        r == (source_exists && !target_exists),
{
    source_exists && !target_exists
}

/// What is said of a step that failed with the given cause.
pub open spec fn step_failure(step: UndoView, cause: Seq<char>) -> Seq<char> {
    match step {
        UndoView::RenameFile { dir, from, to } => "restore file "@ + from + " -> "@ + to + ": "@
            + cause,
        UndoView::WriteNfo { path, content } => "restore nfo "@ + path + ": "@ + cause,
        UndoView::MoveFolder { from, to } => "move "@ + from + " -> "@ + to + ": "@ + cause,
    }
}

pub fn step_failed(step: &UndoStep, cause: &str) -> (r: String)
    ensures
        r@ == step_failure(step@, cause@),
{
    match step {
        UndoStep::RenameFile { dir, from, to } => {
            let mut s = text::copy("restore file ");
            s.append(from.as_str());
            s.append(" -> ");
            s.append(to.as_str());
            s.append(": ");
            s.append(cause);
            s
        },
        UndoStep::WriteNfo { path, content } => {
            let mut s = text::copy("restore nfo ");
            s.append(path.as_str());
            s.append(": ");
            s.append(cause);
            s
        },
        UndoStep::MoveFolder { from, to } => {
            let mut s = text::copy("move ");
            s.append(from.as_str());
            s.append(" -> ");
            s.append(to.as_str());
            s.append(": ");
            s.append(cause);
            s
        },
    }
}

pub open spec fn failure_lines(failures: Seq<(i64, String)>) -> Seq<Seq<char>> {
    failures.map_values(
        |f: (i64, String)| "seq "@ + text::decimal_int(f.0 as int) + ": "@ + f.1@,
    )
}

/// The outcome of rolling back a run, from the records that failed and why.
pub fn rollback_outcome(failures: &Vec<(i64, String)>) -> (r: Result<(), String>)
    ensures
        r is Ok <==> failures@.len() == 0,
        r matches Err(e) ==> e@ == text::joined(failure_lines(failures@), "; "@),
{
    if failures.len() == 0 {
        return Ok(());
    }
    let mut lines: Vec<String> = Vec::new();
    let mut i: usize = 0;
    while i < failures.len()
        invariant
            i <= failures@.len(),
            text::views(lines@) == failure_lines(failures@.take(i as int)),
        decreases failures@.len() - i,
    {
        let mut s = text::copy("seq ");
        s.append(text::format_int(failures[i].0).as_str());
        s.append(": ");
        s.append(failures[i].1.as_str());
        proof {
            text::views_push(lines@, s);
            assert(failures@.take(i + 1) == failures@.take(i as int).push(failures@[i as int]));
            assert(failure_lines(failures@.take(i + 1)) == failure_lines(
                failures@.take(i as int),
            ).push(s@));
        }
        lines.push(s);
        i = i + 1;
    }
    assert(failures@.take(i as int) == failures@);
    Err(text::join(&lines, "; "))
}

// ---------------------------------------------------------------------------
// What undoing gives back

/// What a move of undoing does to the files.
pub open spec fn moved_if_free(files: Map<Seq<char>, Seq<u8>>, from: Seq<char>, to: Seq<char>) -> Map<
    Seq<char>,
    Seq<u8>,
> {
    if files::exists_at(files, from) && !files::exists_at(files, to) {
        files::moved(files, from, to)
    } else {
        files
    }
}

/// The files after one step of undoing.
pub open spec fn after_step(files: Map<Seq<char>, Seq<u8>>, step: UndoView) -> Map<
    Seq<char>,
    Seq<u8>,
> {
    match step {
        UndoView::RenameFile { dir, from, to } => moved_if_free(
            files,
            organizer::joined_rel(dir, from),
            organizer::joined_rel(dir, to),
        ),
        UndoView::WriteNfo { path, content } => files.insert(path, content),
        UndoView::MoveFolder { from, to } => moved_if_free(files, from, to),
    }
}

/// The files after the steps, one after the other.
pub open spec fn after_steps(files: Map<Seq<char>, Seq<u8>>, steps: Seq<UndoView>) -> Map<
    Seq<char>,
    Seq<u8>,
>
    decreases steps.len(),
{
    if steps.len() == 0 {
        files
    } else {
        after_steps(after_step(files, steps[0]), steps.skip(1))
    }
}

/// The files after an album's files got their new names.
pub open spec fn renamed(
    files: Map<Seq<char>, Seq<u8>>,
    dir: Seq<char>,
    renames: Seq<(Seq<char>, Seq<char>)>,
) -> Map<Seq<char>, Seq<u8>>
    decreases renames.len(),
{
    if renames.len() == 0 {
        files
    } else {
        files::moved(
            renamed(files, dir, renames.drop_last()),
            organizer::joined_rel(dir, renames.last().0),
            organizer::joined_rel(dir, renames.last().1),
        )
    }
}

/// Every rename has a file to take, a free place to put it, and leaves the sidecar alone. A
/// rename that changes only the case of letters is none of these: undoing leaves it as it is.
pub open spec fn renames_fit(
    files: Map<Seq<char>, Seq<u8>>,
    dir: Seq<char>,
    renames: Seq<(Seq<char>, Seq<char>)>,
    nfo: Option<Seq<char>>,
) -> bool
    decreases renames.len(),
{
    renames.len() > 0 ==> {
        let before = renamed(files, dir, renames.drop_last());
        let from = organizer::joined_rel(dir, renames.last().0);
        let to = organizer::joined_rel(dir, renames.last().1);
        &&& renames_fit(files, dir, renames.drop_last(), nfo)
        &&& !organizer::same_but_case(renames.last().0, renames.last().1)
        &&& files::exists_at(before, from)
        &&& !files::exists_at(before, to)
        &&& files::apart(from, to)
        &&& (nfo matches Some(path) ==> !files::within(from, path) && !files::within(to, path))
    }
}

/// The folder has a free place to go to, or stays.
pub open spec fn folder_fits(
    files: Map<Seq<char>, Seq<u8>>,
    from_dir: Seq<char>,
    to_dir: Seq<char>,
) -> bool {
    from_dir != to_dir ==> {
        &&& !organizer::same_but_case(from_dir, to_dir)
        &&& files::exists_at(files, from_dir)
        &&& !files::exists_at(files, to_dir)
        &&& files::apart(from_dir, to_dir)
    }
}

/// The files after an album's folder was moved.
pub open spec fn folder_moved(
    files: Map<Seq<char>, Seq<u8>>,
    from_dir: Seq<char>,
    to_dir: Seq<char>,
) -> Map<Seq<char>, Seq<u8>> {
    if from_dir == to_dir {
        files
    } else {
        files::moved(files, from_dir, to_dir)
    }
}

/// The files with the sidecar written over.
pub open spec fn with_nfo(files: Map<Seq<char>, Seq<u8>>, nfo: Option<(Seq<char>, Seq<u8>)>) -> Map<
    Seq<char>,
    Seq<u8>,
> {
    match nfo {
        Some((path, content)) => files.insert(path, content),
        None => files,
    }
}

/// The backup holds what the sidecar held before it was written over; there is none where there
/// was no sidecar.
pub open spec fn backup_fits(
    files: Map<Seq<char>, Seq<u8>>,
    nfo: Option<Seq<char>>,
    backup: Option<Seq<u8>>,
) -> bool {
    nfo matches Some(path) ==> backup == if files.contains_key(path) {
        Some(files[path])
    } else {
        None
    }
}

/// The steps of two lists, one list after the other.
proof fn steps_in_turn(files: Map<Seq<char>, Seq<u8>>, a: Seq<UndoView>, b: Seq<UndoView>)
    ensures
        after_steps(files, a + b) == after_steps(after_steps(files, a), b),
    decreases a.len(),
{
    if a.len() == 0 {
        assert(a + b == b);
    } else {
        assert((a + b)[0] == a[0]);
        assert((a + b).skip(1) == a.skip(1) + b);
        steps_in_turn(after_step(files, a[0]), a.skip(1), b);
    }
}

proof fn one_step(files: Map<Seq<char>, Seq<u8>>, step: UndoView)
    ensures
        after_steps(files, seq![step]) == after_step(files, step),
{
    assert(seq![step].skip(1) == Seq::<UndoView>::empty());
    assert(after_steps(after_step(files, step), Seq::<UndoView>::empty()) == after_step(
        files,
        step,
    ));
}

/// Taking the renames back gives every file the name it had.
pub proof fn restoring_undoes_renaming(
    files: Map<Seq<char>, Seq<u8>>,
    dir: Seq<char>,
    renames: Seq<(Seq<char>, Seq<char>)>,
    nfo: Option<(Seq<char>, Seq<u8>)>,
)
    requires
        renames_fit(
            files,
            dir,
            renames,
            match nfo {
                Some(n) => Some(n.0),
                None => None,
            },
        ),
    ensures
        after_steps(with_nfo(renamed(files, dir, renames), nfo), restores(dir, renames))
            == with_nfo(files, nfo),
    decreases renames.len(),
{
    if renames.len() > 0 {
        let before = renamed(files, dir, renames.drop_last());
        let (old_name, new_name) = renames.last();
        let from = organizer::joined_rel(dir, old_name);
        let to = organizer::joined_rel(dir, new_name);
        let there = files::moved(before, from, to);
        let step = UndoView::RenameFile { dir, from: new_name, to: old_name };
        let rest = restores(dir, renames.drop_last());
        files::moving_is_undone(before, from, to);
        files::moving_changes_place(before, from, to);
        assert(after_step(with_nfo(there, nfo), step) == with_nfo(before, nfo)) by {
            match nfo {
                Some((path, content)) => {
                    files::moving_beside_a_file(there, to, from, path, content);
                },
                None => {},
            }
        }
        restoring_undoes_renaming(files, dir, renames.drop_last(), nfo);
        one_step(with_nfo(there, nfo), step);
        steps_in_turn(with_nfo(there, nfo), seq![step], rest);
    }
}

/// The place of a sidecar once the album's folder went back.
pub open spec fn nfo_back(path: Seq<char>, from_dir: Seq<char>, to_dir: Seq<char>) -> Seq<char> {
    if from_dir == to_dir {
        path
    } else {
        files::shifted(path, to_dir, from_dir)
    }
}

/// An album that was moved, renamed and given a new sidecar is as it was before once its record
/// was rolled back. A sidecar that was not there before stays with the album.
pub proof fn rollback_undoes_apply(
    files: Map<Seq<char>, Seq<u8>>,
    from_dir: Seq<char>,
    to_dir: Seq<char>,
    renames: Seq<(Seq<char>, Seq<char>)>,
    nfo: Option<Seq<char>>,
    written: Seq<u8>,
    backup: Option<Seq<u8>>,
)
    requires
        folder_fits(files, from_dir, to_dir),
        renames_fit(folder_moved(files, from_dir, to_dir), to_dir, renames, nfo),
        backup_fits(folder_moved(files, from_dir, to_dir), nfo, backup),
        nfo matches Some(path) ==> from_dir == to_dir || files::within(to_dir, path),
    ensures
        after_steps(
            with_nfo(
                renamed(folder_moved(files, from_dir, to_dir), to_dir, renames),
                match nfo {
                    Some(path) => Some((path, written)),
                    None => None,
                },
            ),
            undo_steps(from_dir, to_dir, renames, nfo, backup),
        ) == with_nfo(
            files,
            match (nfo, backup) {
                (Some(path), None) => Some((nfo_back(path, from_dir, to_dir), written)),
                _ => None,
            },
        ),
{
    let moved = folder_moved(files, from_dir, to_dir);
    let note = match nfo {
        Some(path) => Some((path, written)),
        None => None,
    };
    let left = match backup {
        Some(content) => None,
        None => note,
    };
    let applied = with_nfo(renamed(moved, to_dir, renames), note);
    let names = restores(to_dir, renames);
    let write = nfo_undo(nfo, backup);
    let folder = folder_undo(from_dir, to_dir);
    restoring_undoes_renaming(moved, to_dir, renames, note);
    steps_in_turn(applied, names, write);
    steps_in_turn(applied, names + write, folder);
    assert(after_steps(with_nfo(moved, note), write) == with_nfo(moved, left)) by {
        match (nfo, backup) {
            (Some(path), Some(content)) => {
                one_step(with_nfo(moved, note), UndoView::WriteNfo { path, content });
                assert(moved.insert(path, written).insert(path, content) =~= moved);
            },
            _ => {},
        }
    }
    if from_dir != to_dir {
        files::moving_is_undone(files, from_dir, to_dir);
        files::moving_changes_place(files, from_dir, to_dir);
        one_step(with_nfo(moved, left), UndoView::MoveFolder { from: to_dir, to: from_dir });
        match left {
            Some((path, content)) => {
                files::moving_with_a_file(moved, to_dir, from_dir, path, content);
            },
            None => {},
        }
    }
}

/// Where nothing stands at the place an album went to, rolling back once more changes nothing.
pub proof fn rollback_is_idempotent(
    files: Map<Seq<char>, Seq<u8>>,
    from_dir: Seq<char>,
    to_dir: Seq<char>,
    renames: Seq<(Seq<char>, Seq<char>)>,
    nfo: Option<Seq<char>>,
)
    requires
        to_dir.len() > 0,
        !files::exists_at(files, to_dir),
    ensures
        after_steps(files, undo_steps(from_dir, to_dir, renames, nfo, None)) == files,
{
    nothing_to_restore(files, to_dir, renames);
    let names = restores(to_dir, renames);
    steps_in_turn(files, names, nfo_undo(nfo, None));
    steps_in_turn(files, names + nfo_undo(nfo, None), folder_undo(from_dir, to_dir));
    one_step(files, UndoView::MoveFolder { from: to_dir, to: from_dir });
}

proof fn nothing_to_restore(
    files: Map<Seq<char>, Seq<u8>>,
    dir: Seq<char>,
    renames: Seq<(Seq<char>, Seq<char>)>,
)
    requires
        dir.len() > 0,
        !files::exists_at(files, dir),
    ensures
        after_steps(files, restores(dir, renames)) == files,
    decreases renames.len(),
{
    if renames.len() > 0 {
        let (from, to) = renames.last();
        let step = UndoView::RenameFile { dir, from: to, to: from };
        nothing_to_restore(files, dir, renames.drop_last());
        let there = organizer::joined_rel(dir, to);
        assert(!files::exists_at(files, there)) by {
            assert forall|path: Seq<char>| #[trigger]
                files.contains_key(path) implies !files::within(there, path) by {
                if files::within(there, path) {
                    files::within_a_part(dir, to, path);
                }
            }
        }
        one_step(files, step);
        steps_in_turn(files, seq![step], restores(dir, renames.drop_last()));
    }
}

// ---------------------------------------------------------------------------
// Records as documents

/// The mathematical value of a record.
#[verifier::ext_equal]
pub struct RecordView {
    pub seq: int,
    pub ts: int,
    pub run_id: Seq<char>,
    pub library_id: int,
    pub from_dir: Seq<char>,
    pub to_dir: Seq<char>,
    pub file_renames: Seq<(Seq<char>, Seq<char>)>,
    pub dir_sidecars: Seq<Seq<char>>,
    pub nfo_written: Option<Seq<char>>,
    pub nfo_backup: Option<Seq<char>>,
}

impl View for ApplyRecord {
    type V = RecordView;

    open spec fn view(&self) -> RecordView {
        RecordView {
            seq: self.seq as int,
            ts: self.ts as int,
            run_id: self.run_id@,
            library_id: self.library_id as int,
            from_dir: self.from_dir@,
            to_dir: self.to_dir@,
            file_renames: rename_views(self.file_renames@),
            dir_sidecars: text::views(self.dir_sidecars@),
            nfo_written: text::view_opt(self.nfo_written),
            nfo_backup: text::view_opt(self.nfo_backup),
        }
    }
}

pub open spec fn rename_doc(r: (Seq<char>, Seq<char>)) -> JsonView {
    JsonView::Object(seq![("from"@, JsonView::Str(r.0)), ("to"@, JsonView::Str(r.1))])
}

pub open spec fn rename_docs(v: Seq<(Seq<char>, Seq<char>)>) -> Seq<JsonView> {
    v.map_values(|r: (Seq<char>, Seq<char>)| rename_doc(r))
}

/// A record as a document.
pub open spec fn record_doc(v: RecordView) -> JsonView {
    JsonView::Object(
        seq![
            ("seq"@, JsonView::Int(v.seq)),
            ("ts"@, JsonView::Int(v.ts)),
            ("run_id"@, JsonView::Str(v.run_id)),
            ("library_id"@, JsonView::Int(v.library_id)),
            ("from_dir"@, JsonView::Str(v.from_dir)),
            ("to_dir"@, JsonView::Str(v.to_dir)),
            ("file_renames"@, JsonView::Array(rename_docs(v.file_renames))),
            (
                "dir_sidecars"@,
                JsonView::Array(v.dir_sidecars.map_values(|s: Seq<char>| JsonView::Str(s))),
            ),
            ("nfo_written"@, json::text_or_null(v.nfo_written)),
            ("nfo_backup"@, json::text_or_null(v.nfo_backup)),
        ],
    )
}

fn rename_json(r: &FileRename) -> (j: Json)
    ensures
        j@ == rename_doc((r.from@, r.to@)),
{
    let mut out: Vec<(String, Json)> = Vec::new();
    json::put(&mut out, "from", json::string(r.from.as_str()));
    json::put(&mut out, "to", json::string(r.to.as_str()));
    assert(json::members(out@) =~= seq![
        ("from"@, JsonView::Str(r.from@)),
        ("to"@, JsonView::Str(r.to@)),
    ]);
    Json::Object(out)
}

fn nullable_text(o: &Option<String>) -> (r: Json)
    ensures
        r@ == json::text_or_null(text::view_opt(*o)),
{
    match o {
        Some(s) => json::string(s.as_str()),
        None => Json::Null,
    }
}

/// The document that is stored of a record.
pub fn record_apply(rec: &ApplyRecord) -> (r: Json)
    ensures
        r@ == record_doc(rec@),
{
    let ghost all = rename_docs(rename_views(rec.file_renames@));
    let mut renames: Vec<Json> = Vec::new();
    let mut i: usize = 0;
    assert(json::trees(renames@) =~= all.take(0));
    while i < rec.file_renames.len()
        invariant
            i <= rec.file_renames@.len(),
            all == rename_docs(rename_views(rec.file_renames@)),
            json::trees(renames@) == all.take(i as int),
        decreases rec.file_renames@.len() - i,
    {
        json::append(&mut renames, rename_json(&rec.file_renames[i]));
        assert(all.take(i + 1) =~= all.take(i as int).push(all[i as int]));
        i = i + 1;
    }
    assert(all.take(i as int) =~= all);
    let mut out: Vec<(String, Json)> = Vec::new();
    json::put(&mut out, "seq", json::number(rec.seq));
    json::put(&mut out, "ts", json::number(rec.ts));
    json::put(&mut out, "run_id", json::string(rec.run_id.as_str()));
    json::put(&mut out, "library_id", json::number(rec.library_id as i64));
    json::put(&mut out, "from_dir", json::string(rec.from_dir.as_str()));
    json::put(&mut out, "to_dir", json::string(rec.to_dir.as_str()));
    json::put(&mut out, "file_renames", Json::Array(renames));
    json::put(&mut out, "dir_sidecars", json::strings(&rec.dir_sidecars));
    json::put(&mut out, "nfo_written", nullable_text(&rec.nfo_written));
    json::put(&mut out, "nfo_backup", nullable_text(&rec.nfo_backup));
    proof {
        match record_doc(rec@) {
            JsonView::Object(m) => {
                assert(json::members(out@) =~= m);
            },
            _ => {},
        }
    }
    Json::Object(out)
}

/// The renames that the values describe; nothing where one of them is none.
pub open spec fn renames_of(v: Seq<JsonView>) -> Option<Seq<(Seq<char>, Seq<char>)>>
    decreases v.len(),
{
    if v.len() == 0 {
        Some(Seq::empty())
    } else {
        match (
            renames_of(v.drop_last()),
            json::string_of(json::slot(v.last(), "from"@, 0, 2, 2)),
            json::string_of(json::slot(v.last(), "to"@, 1, 2, 2)),
        ) {
            (Some(rest), Some(from), Some(to)) => Some(rest.push((from, to))),
            _ => None,
        }
    }
}

/// A whole number that fits the ID of a library.
pub open spec fn small_int(v: Option<JsonView>) -> Option<int> {
    match json::int_of(v) {
        Some(n) => if i32::MIN <= n <= i32::MAX {
            Some(n)
        } else {
            None
        },
        None => None,
    }
}

pub open spec fn renames_in(v: Option<JsonView>) -> Option<Seq<(Seq<char>, Seq<char>)>> {
    match v {
        Some(JsonView::Array(s)) => renames_of(s),
        _ => None,
    }
}

pub open spec fn texts_in(v: Option<JsonView>) -> Option<Seq<Seq<char>>> {
    match v {
        Some(w) => json::all_texts(w),
        None => None,
    }
}

/// The record that a document describes. Every field has its type; the two on the sidecar may be
/// missing.
pub open spec fn record_of(v: JsonView) -> Option<RecordView> {
    match (
        json::int_of(json::slot(v, "seq"@, 0, 10, 10)),
        json::int_of(json::slot(v, "ts"@, 1, 10, 10)),
        json::string_of(json::slot(v, "run_id"@, 2, 10, 10)),
        small_int(json::slot(v, "library_id"@, 3, 10, 10)),
        json::string_of(json::slot(v, "from_dir"@, 4, 10, 10)),
        json::string_of(json::slot(v, "to_dir"@, 5, 10, 10)),
        renames_in(json::slot(v, "file_renames"@, 6, 10, 10)),
        texts_in(json::slot(v, "dir_sidecars"@, 7, 10, 10)),
        json::optional_text(json::slot(v, "nfo_written"@, 8, 10, 10)),
        json::optional_text(json::slot(v, "nfo_backup"@, 9, 10, 10)),
    ) {
        (
            Some(seq),
            Some(ts),
            Some(run_id),
            Some(library_id),
            Some(from_dir),
            Some(to_dir),
            Some(file_renames),
            Some(dir_sidecars),
            Some(nfo_written),
            Some(nfo_backup),
        ) => Some(
            RecordView {
                seq,
                ts,
                run_id,
                library_id,
                from_dir,
                to_dir,
                file_renames,
                dir_sidecars,
                nfo_written,
                nfo_backup,
            },
        ),
        _ => None,
    }
}

pub open spec fn record_view(r: Option<ApplyRecord>) -> Option<RecordView> {
    match r {
        Some(v) => Some(v@),
        None => None,
    }
}

fn read_renames(v: Option<&Json>) -> (r: Option<Vec<FileRename>>)
    ensures
        match r {
            Some(f) => renames_in(json::shown(v)) == Some(rename_views(f@)),
            None => renames_in(json::shown(v)) is None,
        },
{
    let a = match json::items(v) {
        Some(a) => a,
        None => {
            return None;
        },
    };
    let ghost all = json::trees(a@);
    let mut out: Vec<FileRename> = Vec::new();
    let mut i: usize = 0;
    proof {
        json::trees_index(a@);
        assert(all.take(0) =~= Seq::<JsonView>::empty());
        assert(rename_views(out@) =~= Seq::<(Seq<char>, Seq<char>)>::empty());
    }
    while i < a.len()
        invariant
            i <= a@.len(),
            all == json::trees(a@),
            json::shown(v) == Some(JsonView::Array(all)),
            all.len() == a@.len(),
            forall|k: int| 0 <= k < a@.len() ==> all[k] == json::tree(#[trigger] a@[k]),
            renames_of(all.take(i as int)) == Some(rename_views(out@)),
        decreases a@.len() - i,
    {
        proof {
            assert(all.take(i + 1).drop_last() == all.take(i as int));
            assert(all.take(i + 1).last() == json::tree(a@[i as int]));
        }
        let from = json::str_value(a[i].slot("from", 0, 2, 2));
        let to = json::str_value(a[i].slot("to", 1, 2, 2));
        match (from, to) {
            (Some(from), Some(to)) => {
                let ghost before = out@;
                let ghost shown = (from@, to@);
                out.push(FileRename { from, to });
                assert(rename_views(out@) =~= rename_views(before).push(shown));
            },
            _ => {
                proof {
                    unreadable_stays(all, i + 1, all.len() as int);
                    assert(all.take(all.len() as int) == all);
                }
                return None;
            },
        }
        i = i + 1;
    }
    assert(all.take(i as int) == all);
    Some(out)
}

proof fn unreadable_stays(items: Seq<JsonView>, a: int, b: int)
    requires
        0 <= a <= b <= items.len(),
        renames_of(items.take(a)) is None,
    ensures
        renames_of(items.take(b)) is None,
    decreases b,
{
    if a < b {
        unreadable_stays(items, a, b - 1);
        assert(items.take(b).drop_last() == items.take(b - 1));
    }
}

fn read_small(v: Option<&Json>) -> (r: Option<i32>)
    ensures
        match r {
            Some(n) => small_int(json::shown(v)) == Some(n as int),
            None => small_int(json::shown(v)) is None,
        },
{
    match json::int_value(v) {
        Some(n) => if (i32::MIN as i64) <= n && n <= (i32::MAX as i64) {
            Some(n as i32)
        } else {
            None
        },
        None => None,
    }
}

/// Reads a record out of its document.
pub fn stored_record(doc: &Json) -> (r: Option<ApplyRecord>)
    ensures
        record_view(r) == record_of(doc@),
{
    let sidecars = match doc.slot("dir_sidecars", 7, 10, 10) {
        Some(v) => json::only_texts(v),
        None => None,
    };
    match (
        json::int_value(doc.slot("seq", 0, 10, 10)),
        json::int_value(doc.slot("ts", 1, 10, 10)),
        json::str_value(doc.slot("run_id", 2, 10, 10)),
        read_small(doc.slot("library_id", 3, 10, 10)),
        json::str_value(doc.slot("from_dir", 4, 10, 10)),
        json::str_value(doc.slot("to_dir", 5, 10, 10)),
        read_renames(doc.slot("file_renames", 6, 10, 10)),
        sidecars,
        json::optional_string(doc.slot("nfo_written", 8, 10, 10)),
        json::optional_string(doc.slot("nfo_backup", 9, 10, 10)),
    ) {
        (
            Some(seq),
            Some(ts),
            Some(run_id),
            Some(library_id),
            Some(from_dir),
            Some(to_dir),
            Some(file_renames),
            Some(dir_sidecars),
            Some(nfo_written),
            Some(nfo_backup),
        ) => Some(
            ApplyRecord {
                seq,
                ts,
                run_id,
                library_id,
                from_dir,
                to_dir,
                file_renames,
                dir_sidecars,
                nfo_written,
                nfo_backup,
            },
        ),
        _ => None,
    }
}

proof fn renames_read_back(v: Seq<(Seq<char>, Seq<char>)>)
    ensures
        renames_of(rename_docs(v)) == Some(v),
    decreases v.len(),
{
    if v.len() == 0 {
        assert(v =~= Seq::empty());
    } else {
        renames_read_back(v.drop_last());
        assert(rename_docs(v).drop_last() =~= rename_docs(v.drop_last()));
        assert(rename_docs(v).last() == rename_doc(v.last()));
        reveal_strlit("from");
        reveal_strlit("to");
        reveal_with_fuel(json::member_from, 3);
        assert("from"@.len() == 4 && "to"@.len() == 2);
        assert(v.drop_last().push(v.last()) =~= v);
    }
}

proof fn texts_read_back(v: Seq<Seq<char>>)
    ensures
        json::texts_among(v.map_values(|s: Seq<char>| JsonView::Str(s))) == v,
    decreases v.len(),
{
    let docs = v.map_values(|s: Seq<char>| JsonView::Str(s));
    if v.len() == 0 {
        assert(v =~= Seq::empty());
    } else {
        texts_read_back(v.drop_last());
        assert(docs.drop_last() =~= v.drop_last().map_values(|s: Seq<char>| JsonView::Str(s)));
        assert(docs.last() == JsonView::Str(v.last()));
        assert(v.drop_last().push(v.last()) =~= v);
    }
}

/// A record that was stored is read back as it was.
pub proof fn records_read_back(v: RecordView)
    requires
        i64::MIN <= v.seq <= i64::MAX,
        i64::MIN <= v.ts <= i64::MAX,
        i32::MIN <= v.library_id <= i32::MAX,
    ensures
        record_of(record_doc(v)) == Some(v),
{
    renames_read_back(v.file_renames);
    texts_read_back(v.dir_sidecars);
    reveal_strlit("seq");
    reveal_strlit("ts");
    reveal_strlit("run_id");
    reveal_strlit("library_id");
    reveal_strlit("from_dir");
    reveal_strlit("to_dir");
    reveal_strlit("file_renames");
    reveal_strlit("dir_sidecars");
    reveal_strlit("nfo_written");
    reveal_strlit("nfo_backup");
    assert("seq"@.len() == 3 && "ts"@.len() == 2 && "run_id"@.len() == 6 && "library_id"@.len() == 10
        && "from_dir"@.len() == 8 && "to_dir"@.len() == 6 && "file_renames"@.len() == 12
        && "dir_sidecars"@.len() == 12 && "nfo_written"@.len() == 11 && "nfo_backup"@.len() == 10);
    assert("run_id"@[0] == 'r' && "to_dir"@[0] == 't' && "file_renames"@[0] == 'f'
        && "dir_sidecars"@[0] == 'd' && "library_id"@[0] == 'l' && "nfo_backup"@[0] == 'n');
    reveal_with_fuel(json::member_from, 11);
}

// ---------------------------------------------------------------------------
// Texts that are stored

proof fn record_is_plain(v: RecordView)
    requires
        i64::MIN <= v.seq <= i64::MAX,
        i64::MIN <= v.ts <= i64::MAX,
        i32::MIN <= v.library_id <= i32::MAX,
    ensures
        json::plain(record_doc(v), 100),
{
    reveal_strlit("seq");
    reveal_strlit("ts");
    reveal_strlit("run_id");
    reveal_strlit("library_id");
    reveal_strlit("from_dir");
    reveal_strlit("to_dir");
    reveal_strlit("file_renames");
    reveal_strlit("dir_sidecars");
    reveal_strlit("nfo_written");
    reveal_strlit("nfo_backup");
    reveal_strlit("from");
    reveal_strlit("to");
    assert("seq"@.len() == 3 && "ts"@.len() == 2 && "run_id"@.len() == 6 && "library_id"@.len() == 10
        && "from_dir"@.len() == 8 && "to_dir"@.len() == 6 && "file_renames"@.len() == 12
        && "dir_sidecars"@.len() == 12 && "nfo_written"@.len() == 11 && "nfo_backup"@.len() == 10);
    assert("run_id"@[0] == 'r' && "to_dir"@[0] == 't' && "file_renames"@[0] == 'f'
        && "dir_sidecars"@[0] == 'd' && "library_id"@[0] == 'l' && "nfo_backup"@[0] == 'n');
    assert("from"@.len() == 4 && "to"@.len() == 2);
    let renames = rename_docs(v.file_renames);
    assert forall|i: int| 0 <= i < renames.len() implies json::plain(#[trigger] renames[i], 98) by {
        assert(renames[i] == rename_doc(v.file_renames[i]));
        reveal_with_fuel(json::plain, 2);
    }
    assert(json::plain(JsonView::Array(renames), 99));
    let names = v.dir_sidecars.map_values(|s: Seq<char>| JsonView::Str(s));
    assert forall|i: int| 0 <= i < names.len() implies json::plain(#[trigger] names[i], 98) by {
        assert(names[i] == JsonView::Str(v.dir_sidecars[i]));
    }
    assert(json::plain(JsonView::Array(names), 99));
    match record_doc(v) {
        JsonView::Object(m) => {
            assert forall|i: int| #![trigger m[i]] 0 <= i < m.len() implies json::plain(
                m[i].1,
                99,
            ) by {
                assert(i == 0 || i == 1 || i == 2 || i == 3 || i == 4 || i == 5 || i == 6 || i == 7
                    || i == 8 || i == 9);
            }
        },
        _ => {},
    }
}

proof fn alike_renames(x: Seq<JsonView>, y: Seq<JsonView>)
    requires
        x.len() == y.len(),
        forall|i: int| 0 <= i < x.len() ==> json::alike(#[trigger] x[i], y[i]),
    ensures
        renames_of(x) == renames_of(y),
    decreases x.len(),
{
    if x.len() > 0 {
        let n = x.len() - 1;
        assert forall|i: int| 0 <= i < n implies json::alike(
            #[trigger] x.drop_last()[i],
            y.drop_last()[i],
        ) by {
            assert(json::alike(x[i], y[i]));
        }
        alike_renames(x.drop_last(), y.drop_last());
        assert(json::alike(x[n], y[n]));
        json::alike_slots(x[n], y[n], "from"@, 0, 2, 2);
        json::alike_slots(x[n], y[n], "to"@, 1, 2, 2);
    }
}

proof fn alike_texts(x: Seq<JsonView>, y: Seq<JsonView>)
    requires
        x.len() == y.len(),
        forall|i: int| 0 <= i < x.len() ==> json::alike(#[trigger] x[i], y[i]),
    ensures
        json::texts_among(x) == json::texts_among(y),
    decreases x.len(),
{
    if x.len() > 0 {
        let n = x.len() - 1;
        assert forall|i: int| 0 <= i < n implies json::alike(
            #[trigger] x.drop_last()[i],
            y.drop_last()[i],
        ) by {
            assert(json::alike(x[i], y[i]));
        }
        alike_texts(x.drop_last(), y.drop_last());
        assert(json::alike(x[n], y[n]));
    }
}

proof fn alike_records(a: JsonView, b: JsonView)
    requires
        json::alike(a, b),
    ensures
        record_of(a) == record_of(b),
{
    json::alike_slots(a, b, "seq"@, 0, 10, 10);
    json::alike_slots(a, b, "ts"@, 1, 10, 10);
    json::alike_slots(a, b, "run_id"@, 2, 10, 10);
    json::alike_slots(a, b, "library_id"@, 3, 10, 10);
    json::alike_slots(a, b, "from_dir"@, 4, 10, 10);
    json::alike_slots(a, b, "to_dir"@, 5, 10, 10);
    json::alike_slots(a, b, "file_renames"@, 6, 10, 10);
    json::alike_slots(a, b, "dir_sidecars"@, 7, 10, 10);
    json::alike_slots(a, b, "nfo_written"@, 8, 10, 10);
    json::alike_slots(a, b, "nfo_backup"@, 9, 10, 10);
    match (
        json::slot(a, "file_renames"@, 6, 10, 10),
        json::slot(b, "file_renames"@, 6, 10, 10),
    ) {
        (Some(JsonView::Array(x)), Some(JsonView::Array(y))) => {
            alike_renames(x, y);
        },
        _ => {},
    }
    match (
        json::slot(a, "dir_sidecars"@, 7, 10, 10),
        json::slot(b, "dir_sidecars"@, 7, 10, 10),
    ) {
        (Some(JsonView::Array(x)), Some(JsonView::Array(y))) => {
            alike_texts(x, y);
        },
        _ => {},
    }
}

/// The record that a stored text holds.
pub open spec fn record_in(doc: Option<JsonView>) -> Option<RecordView> {
    match doc {
        Some(v) => record_of(v),
        None => None,
    }
}

/// A record as it is stored. It is read back as it was.
pub fn save_record(rec: &ApplyRecord) -> (r: String)
    ensures
        r@ == json::written(record_doc(rec@)),
        record_in(json::document(r@)) == Some(rec@),
{
    let doc = record_apply(rec);
    let r = json::print(&doc);
    proof {
        record_is_plain(rec@);
        records_read_back(rec@);
        alike_records(doc@, json::document(r@)->0);
    }
    r
}

/// The record that a stored text holds.
pub fn load_record(text: &str) -> (r: Option<ApplyRecord>)
    ensures
        record_view(r) == record_in(json::document(text@)),
{
    match json::parse(text) {
        Some(doc) => stored_record(&doc),
        None => None,
    }
}

} // verus!
