//! Carrying out a plan: the moves in their order, and the folders that may be left empty.

use crate::files;
use crate::organizer;
use crate::organizer::{AlbumPlan, AlbumPlanView, Duplicate, DuplicateView, FileMove, GroupPlan};
use crate::organizer::{GroupPlanView, MoveView};
use crate::state;
use crate::state::{ApplyRecord, FileRename};
use crate::text;
use vstd::prelude::*;

verus! {

/// One move. The target's folder is made first, and a move that fails stops no other.
#[derive(Debug)]
pub enum ApplyStep {
    /// A track, and the files of its folder that go with it once it was moved.
    Track { from: String, to: String, companions: Vec<(String, String)> },
    /// A file of the folder as a whole, moved where it is there.
    FolderFile { name: String, from: String, to: String },
    /// A duplicate, moved where it is there.
    Duplicate { from: String, to: String },
}

pub enum StepView {
    Track { from: Seq<char>, to: Seq<char>, companions: Seq<(Seq<char>, Seq<char>)> },
    FolderFile { name: Seq<char>, from: Seq<char>, to: Seq<char> },
    Duplicate { from: Seq<char>, to: Seq<char> },
}

impl View for ApplyStep {
    type V = StepView;

    open spec fn view(&self) -> StepView {
        match self {
            ApplyStep::Track { from, to, companions } => StepView::Track {
                from: from@,
                to: to@,
                companions: organizer::pair_views(companions@),
            },
            ApplyStep::FolderFile { name, from, to } => StepView::FolderFile {
                name: name@,
                from: from@,
                to: to@,
            },
            ApplyStep::Duplicate { from, to } => StepView::Duplicate { from: from@, to: to@ },
        }
    }
}

pub open spec fn step_views(v: Seq<ApplyStep>) -> Seq<StepView> {
    v.map_values(|s: ApplyStep| s@)
}

/// Where a name goes when a file's folder changes.
pub open spec fn companion(m: MoveView, name: Seq<char>) -> (Seq<char>, Seq<char>) {
    (
        organizer::joined_rel(organizer::parent(m.from), name),
        organizer::joined_rel(organizer::parent(m.to), name),
    )
}

/// The step of a planned move: the track, and its sidecars into the target's folder.
pub open spec fn track_step(m: MoveView) -> StepView {
    StepView::Track {
        from: m.from,
        to: m.to,
        companions: m.sidecars.map_values(|n: Seq<char>| companion(m, n)),
    }
}

pub open spec fn track_steps(moves: Seq<MoveView>) -> Seq<StepView> {
    moves.map_values(|m: MoveView| track_step(m))
}

pub open spec fn duplicate_steps(dups: Seq<DuplicateView>) -> Seq<StepView> {
    dups.map_values(|d: DuplicateView| StepView::Duplicate { from: d.loser, to: d.target })
}

/// The files of the folder as a whole follow the album, unless only the case changed.
pub open spec fn folder_steps(p: AlbumPlanView) -> Seq<StepView> {
    if organizer::same_but_case(p.current_dir, p.target_dir) {
        Seq::empty()
    } else {
        p.dir_sidecars.map_values(
            |n: Seq<char>| StepView::FolderFile {
                name: n,
                from: organizer::joined_rel(p.current_dir, n),
                to: organizer::joined_rel(p.target_dir, n),
            },
        )
    }
}

fn track_step_of(m: &FileMove) -> (r: ApplyStep)
    ensures
        r@ == track_step(m@),
{
    let from_dir = organizer::parent_of(m.from.as_str());
    let to_dir = organizer::parent_of(m.to.as_str());
    let mut companions: Vec<(String, String)> = Vec::new();
    let mut i: usize = 0;
    while i < m.sidecars.len()
        invariant
            i <= m.sidecars@.len(),
            from_dir@ == organizer::parent(m.from@),
            to_dir@ == organizer::parent(m.to@),
            organizer::pair_views(companions@) == m@.sidecars.take(i as int).map_values(
                |n: Seq<char>| companion(m@, n),
            ),
        decreases m.sidecars@.len() - i,
    {
        let name = m.sidecars[i].as_str();
        let ghost before = companions@;
        companions.push(
            (
                organizer::join_rel(from_dir.as_str(), name),
                organizer::join_rel(to_dir.as_str(), name),
            ),
        );
        proof {
            assert(m@.sidecars.take(i + 1) == m@.sidecars.take(i as int).push(name@));
            assert(organizer::pair_views(companions@) == organizer::pair_views(before).push(
                companion(m@, name@),
            ));
            assert(m@.sidecars.take(i + 1).map_values(|n: Seq<char>| companion(m@, n))
                == m@.sidecars.take(i as int).map_values(|n: Seq<char>| companion(m@, n)).push(
                companion(m@, name@),
            ));
        }
        i = i + 1;
    }
    assert(m@.sidecars.take(i as int) == m@.sidecars);
    ApplyStep::Track { from: m.from.clone(), to: m.to.clone(), companions }
}

fn push_tracks(moves: &Vec<FileMove>, steps: &mut Vec<ApplyStep>)
    ensures
        step_views(final(steps)@) == step_views(old(steps)@) + track_steps(
            organizer::move_views(moves@),
        ),
{
    let ghost start = step_views(steps@);
    let ghost views = organizer::move_views(moves@);
    let mut i: usize = 0;
    assert(start == start + track_steps(views.take(0)));
    while i < moves.len()
        invariant
            i <= moves@.len(),
            views == organizer::move_views(moves@),
            step_views(steps@) == start + track_steps(views.take(i as int)),
        decreases moves@.len() - i,
    {
        let ghost before = step_views(steps@);
        let step = track_step_of(&moves[i]);
        let ghost shown = step@;
        steps.push(step);
        proof {
            assert(step_views(steps@) == before.push(shown));
            assert(views.take(i + 1) == views.take(i as int).push(views[i as int]));
            assert(track_steps(views.take(i + 1)) == track_steps(views.take(i as int)).push(shown));
            assert(before.push(shown) == start + track_steps(views.take(i as int)).push(shown));
        }
        i = i + 1;
    }
    assert(views.take(i as int) == views);
}

/// The moves of an album's plan: the tracks, then the files of the folder as a whole.
pub fn apply_plan(plan: &AlbumPlan) -> (r: Vec<ApplyStep>)
    ensures
        step_views(r@) == track_steps(plan@.moves) + folder_steps(plan@),
{
    let mut steps: Vec<ApplyStep> = Vec::new();
    push_tracks(&plan.moves, &mut steps);
    let ghost tracks = track_steps(plan@.moves);
    assert(step_views(steps@) == tracks);
    if organizer::equal_but_case(plan.current_dir.as_str(), plan.target_dir.as_str()) {
        assert(tracks == tracks + folder_steps(plan@));
        return steps;
    }
    let ghost names = plan@.dir_sidecars;
    let ghost step_for = |n: Seq<char>| StepView::FolderFile {
        name: n,
        from: organizer::joined_rel(plan@.current_dir, n),
        to: organizer::joined_rel(plan@.target_dir, n),
    };
    let mut i: usize = 0;
    assert(tracks == tracks + names.take(0).map_values(step_for));
    while i < plan.dir_sidecars.len()
        invariant
            i <= plan.dir_sidecars@.len(),
            names == text::views(plan.dir_sidecars@),
            forall|n: Seq<char>| #[trigger]
                step_for(n) == (StepView::FolderFile {
                    name: n,
                    from: organizer::joined_rel(plan.current_dir@, n),
                    to: organizer::joined_rel(plan.target_dir@, n),
                }),
            step_views(steps@) == tracks + names.take(i as int).map_values(step_for),
        decreases plan.dir_sidecars@.len() - i,
    {
        let name = &plan.dir_sidecars[i];
        let ghost before = step_views(steps@);
        let step = ApplyStep::FolderFile {
            name: name.clone(),
            from: organizer::join_rel(plan.current_dir.as_str(), name.as_str()),
            to: organizer::join_rel(plan.target_dir.as_str(), name.as_str()),
        };
        let ghost shown = step@;
        steps.push(step);
        proof {
            assert(shown == step_for(name@));
            assert(step_views(steps@) == before.push(shown));
            assert(names.take(i + 1) == names.take(i as int).push(name@));
            assert(names.take(i + 1).map_values(step_for) == names.take(i as int).map_values(
                step_for,
            ).push(shown));
        }
        i = i + 1;
    }
    proof {
        assert(names.take(i as int) == names);
        assert(names.map_values(step_for) == folder_steps(plan@));
    }
    steps
}

/// The moves of a group's plan: the tracks, then the duplicates.
pub fn apply_group_plan(plan: &GroupPlan) -> (r: Vec<ApplyStep>)
    ensures
        step_views(r@) == track_steps(plan@.moves) + duplicate_steps(plan@.duplicates),
{
    let mut steps: Vec<ApplyStep> = Vec::new();
    push_tracks(&plan.moves, &mut steps);
    let ghost tracks = track_steps(plan@.moves);
    let ghost dups = plan@.duplicates;
    let mut i: usize = 0;
    proof {
        assert(step_views(steps@) == tracks);
        assert(tracks == tracks + duplicate_steps(dups.take(0)));
    }
    while i < plan.duplicates.len()
        invariant
            i <= plan.duplicates@.len(),
            dups == organizer::duplicate_views(plan.duplicates@),
            step_views(steps@) == tracks + duplicate_steps(dups.take(i as int)),
        decreases plan.duplicates@.len() - i,
    {
        let ghost before = step_views(steps@);
        let step = ApplyStep::Duplicate {
            from: plan.duplicates[i].loser.clone(),
            to: plan.duplicates[i].target.clone(),
        };
        let ghost shown = step@;
        steps.push(step);
        proof {
            assert(step_views(steps@) == before.push(shown));
            assert(dups.take(i + 1) == dups.take(i as int).push(dups[i as int]));
            assert(duplicate_steps(dups.take(i + 1)) == duplicate_steps(dups.take(i as int)).push(
                shown,
            ));
        }
        i = i + 1;
    }
    assert(dups.take(i as int) == dups);
    steps
}

/// What is said of a step that failed with the given cause.
pub open spec fn step_failure(step: StepView, cause: Seq<char>) -> Seq<char> {
    match step {
        StepView::Track { from, to, companions } => "move "@ + from + " -> "@ + to + ": "@ + cause,
        StepView::FolderFile { name, from, to } => "move sidecar "@ + name + ": "@ + cause,
        StepView::Duplicate { from, to } => "move duplicate "@ + from + " -> "@ + to + ": "@ + cause,
    }
}

pub fn step_failed(step: &ApplyStep, cause: &str) -> (r: String)
    ensures
        r@ == step_failure(step@, cause@),
{
    match step {
        ApplyStep::Track { from, to, companions } => {
            let mut s = text::copy("move ");
            s.append(from.as_str());
            s.append(" -> ");
            s.append(to.as_str());
            s.append(": ");
            s.append(cause);
            s
        },
        ApplyStep::FolderFile { name, from, to } => {
            let mut s = text::copy("move sidecar ");
            s.append(name.as_str());
            s.append(": ");
            s.append(cause);
            s
        },
        ApplyStep::Duplicate { from, to } => {
            let mut s = text::copy("move duplicate ");
            s.append(from.as_str());
            s.append(" -> ");
            s.append(to.as_str());
            s.append(": ");
            s.append(cause);
            s
        },
    }
}

/// The outcome of carrying out a plan, from what was said of the steps that failed.
pub fn apply_outcome(failures: &Vec<String>) -> (r: Result<(), String>)
    ensures
        r is Ok <==> failures@.len() == 0,
        r matches Err(e) ==> e@ == text::joined(text::views(failures@), "; "@),
{
    if failures.len() == 0 {
        Ok(())
    } else {
        Err(text::join(failures, "; "))
    }
}

// ---------------------------------------------------------------------------
// Folders left empty

/// A folder and the folders above it, up to but without the library root.
pub open spec fn chain(dir: Seq<char>) -> Seq<Seq<char>>
    decreases dir.len(),
{
    if dir.len() == 0 || organizer::parent(dir).len() >= dir.len() {
        Seq::empty()
    } else {
        seq![dir] + chain(organizer::parent(dir))
    }
}

/// The folders to remove, from the inside out, as long as each is empty.
pub fn prune_chain(dir: &str) -> (r: Vec<String>)
    ensures
        text::views(r@) == chain(dir@),
{
    let mut out: Vec<String> = Vec::new();
    let mut cur = text::copy(dir);
    let ghost all = chain(dir@);
    proof {
        parent_is_shorter(cur@);
        assert(text::views(out@) + chain(cur@) == all);
    }
    while text::length(cur.as_str()) > 0
        invariant
            text::views(out@) + chain(cur@) == all,
        decreases cur@.len(),
    {
        let up = organizer::parent_of(cur.as_str());
        let ghost here = cur@;
        proof {
            parent_is_shorter(here);
            text::views_push(out@, cur);
            assert(text::views(out@) + (seq![here] + chain(up@)) == text::views(out@).push(here)
                + chain(up@));
        }
        out.push(cur);
        cur = up;
    }
    assert(text::views(out@) == all);
    out
}

proof fn parent_is_shorter(path: Seq<char>)
    ensures
        path.len() > 0 ==> organizer::parent(path).len() < path.len(),
{
    text::find_back_meaning(path, "/"@, path.len() as int);
    reveal_strlit("/");
}

pub open spec fn source_dirs(moves: Seq<MoveView>, dups: Seq<DuplicateView>) -> Seq<Seq<char>> {
    organizer::distinct(
        moves.map_values(|m: MoveView| organizer::parent(m.from)) + dups.map_values(
            |d: DuplicateView| organizer::parent(d.loser),
        ),
    )
}

fn push_distinct(list: &mut Vec<String>, s: String, Ghost(seen): Ghost<Seq<Seq<char>>>)
    requires
        text::views(old(list)@) == organizer::distinct(seen),
    ensures
        text::views(final(list)@) == organizer::distinct(seen.push(s@)),
{
    proof {
        assert(seen.push(s@).drop_last() == seen);
    }
    if !organizer::among_texts(list, s.as_str()) {
        proof {
            text::views_push(list@, s);
        }
        list.push(s);
    }
}

/// The folders that a group's files came from, each once.
pub fn group_source_dirs(plan: &GroupPlan) -> (r: Vec<String>)
    ensures
        text::views(r@) == source_dirs(plan@.moves, plan@.duplicates),
{
    let ghost from_moves = plan@.moves.map_values(|m: MoveView| organizer::parent(m.from));
    let ghost from_dups = plan@.duplicates.map_values(
        |d: DuplicateView| organizer::parent(d.loser),
    );
    let mut out: Vec<String> = Vec::new();
    let mut i: usize = 0;
    assert(from_moves.take(0) == Seq::<Seq<char>>::empty());
    while i < plan.moves.len()
        invariant
            i <= plan.moves@.len(),
            from_moves == plan@.moves.map_values(|m: MoveView| organizer::parent(m.from)),
            text::views(out@) == organizer::distinct(from_moves.take(i as int)),
        decreases plan.moves@.len() - i,
    {
        let dir = organizer::parent_of(plan.moves[i].from.as_str());
        proof {
            assert(from_moves[i as int] == dir@);
            assert(from_moves.take(i + 1) == from_moves.take(i as int).push(dir@));
        }
        push_distinct(&mut out, dir, Ghost(from_moves.take(i as int)));
        i = i + 1;
    }
    let mut j: usize = 0;
    proof {
        assert(from_moves.take(i as int) == from_moves);
        assert(from_moves + from_dups.take(0) == from_moves);
    }
    while j < plan.duplicates.len()
        invariant
            j <= plan.duplicates@.len(),
            from_dups == plan@.duplicates.map_values(
                |d: DuplicateView| organizer::parent(d.loser),
            ),
            text::views(out@) == organizer::distinct(from_moves + from_dups.take(j as int)),
        decreases plan.duplicates@.len() - j,
    {
        let dir = organizer::parent_of(plan.duplicates[j].loser.as_str());
        proof {
            assert(from_dups[j as int] == dir@);
            assert(from_moves + from_dups.take(j + 1) == (from_moves + from_dups.take(
                j as int,
            )).push(dir@));
        }
        push_distinct(&mut out, dir, Ghost(from_moves + from_dups.take(j as int)));
        j = j + 1;
    }
    assert(from_dups.take(j as int) == from_dups);
    out
}

// ---------------------------------------------------------------------------
// What carrying out gives

/// The moves of a step, the track before what goes with it.
pub open spec fn step_moves(step: StepView) -> Seq<(Seq<char>, Seq<char>)> {
    match step {
        StepView::Track { from, to, companions } => seq![(from, to)] + companions,
        StepView::FolderFile { name, from, to } => seq![(from, to)],
        StepView::Duplicate { from, to } => seq![(from, to)],
    }
}

pub open spec fn all_moves(steps: Seq<StepView>) -> Seq<(Seq<char>, Seq<char>)>
    decreases steps.len(),
{
    if steps.len() == 0 {
        Seq::empty()
    } else {
        all_moves(steps.drop_last()) + step_moves(steps.last())
    }
}

/// The files after the moves, one after the other.
pub open spec fn after_moves(
    files: Map<Seq<char>, Seq<u8>>,
    moves: Seq<(Seq<char>, Seq<char>)>,
) -> Map<Seq<char>, Seq<u8>>
    decreases moves.len(),
{
    if moves.len() == 0 {
        files
    } else {
        files::moved(after_moves(files, moves.drop_last()), moves.last().0, moves.last().1)
    }
}

/// No source and no target of two moves lie within each other, nor those of one move.
pub open spec fn moves_apart(moves: Seq<(Seq<char>, Seq<char>)>) -> bool {
    &&& forall|i: int| 0 <= i < moves.len() ==> files::apart((#[trigger] moves[i]).0, moves[i].1)
    &&& forall|i: int, j: int|
        0 <= i < moves.len() && 0 <= j < moves.len() && i != j ==> {
            &&& files::apart((#[trigger] moves[i]).0, (#[trigger] moves[j]).0)
            &&& files::apart(moves[i].0, moves[j].1)
            &&& files::apart(moves[i].1, moves[j].1)
        }
}

proof fn move_takes_one_file(
    files: Map<Seq<char>, Seq<u8>>,
    from: Seq<char>,
    to: Seq<char>,
    other: Seq<char>,
)
    requires
        files.contains_key(from),
        files::apart(from, to),
        files::apart(from, other),
        files::apart(to, other),
    ensures
        files::moved(files, from, to).contains_key(to),
        files::moved(files, from, to)[to] == files[from],
        files::moved(files, from, to).contains_key(other) == files.contains_key(other),
        files.contains_key(other) ==> files::moved(files, from, to)[other] == files[other],
{
    assert(to.skip(to.len() as int) == Seq::<char>::empty());
    assert(from + Seq::<char>::empty() == from);
    assert(files::shifted(to, to, from) == from);
}

/// Carrying out moves that keep clear of each other brings every file to its target, with its
/// content.
pub proof fn every_file_arrives(
    files: Map<Seq<char>, Seq<u8>>,
    moves: Seq<(Seq<char>, Seq<char>)>,
)
    requires
        moves_apart(moves),
        forall|i: int| 0 <= i < moves.len() ==> files.contains_key((#[trigger] moves[i]).0),
    ensures
        forall|i: int|
            0 <= i < moves.len() ==> after_moves(files, moves).contains_key(
                (#[trigger] moves[i]).1,
            ) && after_moves(files, moves)[moves[i].1] == files[moves[i].0],
{
    moves_so_far(files, moves, moves.len() as int);
    assert(moves.take(moves.len() as int) == moves);
}

/// A file that no move touches stays as it is.
pub proof fn other_files_stay(
    files: Map<Seq<char>, Seq<u8>>,
    moves: Seq<(Seq<char>, Seq<char>)>,
    path: Seq<char>,
)
    requires
        forall|i: int|
            0 <= i < moves.len() ==> !files::within((#[trigger] moves[i]).0, path)
                && !files::within(moves[i].1, path),
    ensures
        after_moves(files, moves).contains_key(path) == files.contains_key(path),
        files.contains_key(path) ==> after_moves(files, moves)[path] == files[path],
    decreases moves.len(),
{
    if moves.len() > 0 {
        assert forall|i: int| 0 <= i < moves.drop_last().len() implies !files::within(
            (#[trigger] moves.drop_last()[i]).0,
            path,
        ) && !files::within(moves.drop_last()[i].1, path) by {
            assert(moves.drop_last()[i] == moves[i]);
        }
        other_files_stay(files, moves.drop_last(), path);
        assert(moves.last() == moves[moves.len() - 1]);
    }
}

proof fn moves_so_far(
    files: Map<Seq<char>, Seq<u8>>,
    moves: Seq<(Seq<char>, Seq<char>)>,
    n: int,
)
    requires
        0 <= n <= moves.len(),
        moves_apart(moves),
        forall|i: int| 0 <= i < moves.len() ==> files.contains_key((#[trigger] moves[i]).0),
    ensures
        forall|i: int|
            0 <= i < n ==> after_moves(files, moves.take(n)).contains_key((#[trigger] moves[i]).1)
                && after_moves(files, moves.take(n))[moves[i].1] == files[moves[i].0],
        forall|i: int|
            n <= i < moves.len() ==> after_moves(files, moves.take(n)).contains_key(
                (#[trigger] moves[i]).0,
            ) && after_moves(files, moves.take(n))[moves[i].0] == files[moves[i].0],
    decreases n,
{
    if n == 0 {
        assert(moves.take(0) == Seq::<(Seq<char>, Seq<char>)>::empty());
    } else {
        moves_so_far(files, moves, n - 1);
        let before = after_moves(files, moves.take(n - 1));
        let (from, to) = moves[n - 1];
        assert(moves.take(n).drop_last() == moves.take(n - 1));
        assert(moves.take(n).last() == moves[n - 1]);
        let after = files::moved(before, from, to);
        assert forall|i: int| 0 <= i < n implies after.contains_key((#[trigger] moves[i]).1)
            && after[moves[i].1] == files[moves[i].0] by {
            if i < n - 1 {
                move_takes_one_file(before, from, to, moves[i].1);
            } else {
                assert(moves[i] == (from, to));
                assert(to.skip(to.len() as int) == Seq::<char>::empty());
                assert(from + Seq::<char>::empty() == from);
            }
        }
        assert forall|i: int| n <= i < moves.len() implies after.contains_key(
            (#[trigger] moves[i]).0,
        ) && after[moves[i].0] == files[moves[i].0] by {
            move_takes_one_file(before, from, to, moves[i].0);
        }
    }
}

// ---------------------------------------------------------------------------
// What is recorded of a group

/// Where the sidecar of an album stands.
pub open spec fn nfo_place(dir: Seq<char>) -> Seq<char> {
    organizer::joined_rel(dir, "album.nfo"@)
}

/// Every move that carrying out a group's plan makes, in order.
pub open spec fn group_moves(p: GroupPlanView) -> Seq<(Seq<char>, Seq<char>)> {
    all_moves(track_steps(p.moves) + duplicate_steps(p.duplicates))
}

fn push_rename(list: &mut Vec<FileRename>, from: &str, to: &str)
    ensures
        state::rename_views(final(list)@) == state::rename_views(old(list)@).push((from@, to@)),
{
    let ghost before = list@;
    list.push(FileRename { from: text::copy(from), to: text::copy(to) });
    assert(state::rename_views(list@) == state::rename_views(before).push((from@, to@)));
}

fn push_step_renames(list: &mut Vec<FileRename>, step: &ApplyStep)
    ensures
        state::rename_views(final(list)@) == state::rename_views(old(list)@) + step_moves(step@),
{
    let ghost start = state::rename_views(list@);
    match step {
        ApplyStep::Track { from, to, companions } => {
            push_rename(list, from.as_str(), to.as_str());
            let ghost views = organizer::pair_views(companions@);
            let ghost head = start.push((from@, to@));
            let mut i: usize = 0;
            assert(head == head + views.take(0));
            while i < companions.len()
                invariant
                    i <= companions@.len(),
                    views == organizer::pair_views(companions@),
                    state::rename_views(list@) == head + views.take(i as int),
                decreases companions@.len() - i,
            {
                push_rename(list, companions[i].0.as_str(), companions[i].1.as_str());
                proof {
                    assert(views.take(i + 1) == views.take(i as int).push(views[i as int]));
                    assert((head + views.take(i as int)).push(views[i as int]) == head
                        + views.take(i + 1));
                }
                i = i + 1;
            }
            proof {
                assert(views.take(i as int) == views);
                assert(head + views == start + (seq![(from@, to@)] + views));
            }
        },
        ApplyStep::FolderFile { name, from, to } => {
            push_rename(list, from.as_str(), to.as_str());
            assert(start.push((from@, to@)) == start + seq![(from@, to@)]);
        },
        ApplyStep::Duplicate { from, to } => {
            push_rename(list, from.as_str(), to.as_str());
            assert(start.push((from@, to@)) == start + seq![(from@, to@)]);
        },
    }
}

/// The record of a group that was carried out. Its files come from several folders, so every
/// file is recorded with its path under the library root, and no folder is moved as a whole.
/// `nfo_backup` tells where the former content of the album's sidecar is kept.
pub fn group_record(
    plan: &GroupPlan,
    run_id: &str,
    ts: i64,
    library_id: i32,
    nfo_backup: Option<String>,
) -> (r: ApplyRecord)
    ensures
        r.seq == 0,
        r.ts == ts,
        r.run_id@ == run_id@,
        r.library_id == library_id,
        r.from_dir@.len() == 0,
        r.to_dir@.len() == 0,
        state::rename_views(r.file_renames@) == group_moves(plan@),
        r.dir_sidecars@.len() == 0,
        text::view_opt(r.nfo_written) == Some(nfo_place(plan@.target_dir)),
        r.nfo_backup == nfo_backup,
{
    let steps = apply_group_plan(plan);
    let ghost views = step_views(steps@);
    let mut renames: Vec<FileRename> = Vec::new();
    let mut i: usize = 0;
    assert(state::rename_views(renames@) == all_moves(views.take(0)));
    while i < steps.len()
        invariant
            i <= steps@.len(),
            views == step_views(steps@),
            state::rename_views(renames@) == all_moves(views.take(i as int)),
        decreases steps@.len() - i,
    {
        proof {
            assert(views.take(i + 1).drop_last() == views.take(i as int));
            assert(views.take(i + 1).last() == steps@[i as int]@);
        }
        push_step_renames(&mut renames, &steps[i]);
        i = i + 1;
    }
    assert(views.take(i as int) == views);
    ApplyRecord {
        seq: 0,
        ts,
        run_id: text::copy(run_id),
        library_id,
        from_dir: String::new(),
        to_dir: String::new(),
        file_renames: renames,
        dir_sidecars: Vec::new(),
        nfo_written: Some(organizer::join_rel(plan.target_dir.as_str(), "album.nfo")),
        nfo_backup,
    }
}

proof fn moving_is_renaming(
    files: Map<Seq<char>, Seq<u8>>,
    moves: Seq<(Seq<char>, Seq<char>)>,
)
    ensures
        state::renamed(files, Seq::empty(), moves) == after_moves(files, moves),
    decreases moves.len(),
{
    if moves.len() > 0 {
        moving_is_renaming(files, moves.drop_last());
    }
}

/// Rolling back the record of a group brings every file, sidecar and duplicate back to the folder
/// and the name it had, and the album's sidecar back to its former content. A sidecar that was not
/// there before stays.
pub proof fn rollback_undoes_a_group(
    files: Map<Seq<char>, Seq<u8>>,
    p: GroupPlanView,
    written: Seq<u8>,
)
    requires
        state::renames_fit(files, Seq::empty(), group_moves(p), Some(nfo_place(p.target_dir))),
    ensures
        ({
            let nfo = nfo_place(p.target_dir);
            let applied = after_moves(files, group_moves(p)).insert(nfo, written);
            let backup = if files.contains_key(nfo) {
                Some(files[nfo])
            } else {
                None
            };
            state::after_steps(
                applied,
                state::undo_steps(
                    Seq::empty(),
                    Seq::empty(),
                    group_moves(p),
                    Some(nfo),
                    backup,
                ),
            ) == if backup is Some {
                files
            } else {
                files.insert(nfo, written)
            }
        }),
{
    let nfo = nfo_place(p.target_dir);
    moving_is_renaming(files, group_moves(p));
    state::rollback_undoes_apply(
        files,
        Seq::empty(),
        Seq::empty(),
        group_moves(p),
        Some(nfo),
        written,
        if files.contains_key(nfo) {
            Some(files[nfo])
        } else {
            None
        },
    );
}

} // verus!
