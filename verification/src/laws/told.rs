//! What is told of a run: documents, reports and warnings.

use crate::config::{AcoustIdMode, Config, Mode};
use crate::health;
use crate::health::{CheckView, Facts};
use crate::json;
use crate::json::JsonView;
use crate::net::ReplyView;
use crate::organizer::{AlbumPlanView, GroupPlanView, InfoView, MoveView};
use crate::posts;
use crate::posts::LibraryStatus;
use crate::report;
use crate::text;
use vstd::prelude::*;

verus! {

// ---------------------------------------------------------------------------
// Documents

/// What was done is told in words, with its time.
pub proof fn actions_are_told(
    ts: int,
    words: Seq<char>,
)
    ensures
        ({
            let doc = posts::action_doc(ts, words);
            &&& json::member(doc, "ts"@) == Some(JsonView::Int(ts))
            &&& json::member(doc, "text"@) == Some(JsonView::Str(words))
        }),
{
    reveal_strlit("ts");
    reveal_strlit("text");
    let m = posts::action_doc(ts, words)->Object_0;
    assert(m[0].0 == "ts"@ && "ts"@.len() == 2);
    assert(m[1].0 == "text"@ && "text"@.len() == 4);
    reveal_with_fuel(json::member_from, 3);
}

/// A move is shown with both of its ends.
pub proof fn moves_are_shown(
    from: Seq<char>,
    to: Seq<char>,
)
    ensures
        ({
            let doc = posts::move_doc(from, to);
            &&& json::member(doc, "from"@) == Some(JsonView::Str(from))
            &&& json::member(doc, "to"@) == Some(JsonView::Str(to))
        }),
{
    reveal_strlit("from");
    reveal_strlit("to");
    let m = posts::move_doc(from, to)->Object_0;
    assert(m[0].0 == "from"@ && "from"@.len() == 4);
    assert(m[1].0 == "to"@ && "to"@.len() == 2);
    reveal_with_fuel(json::member_from, 3);
}

/// A batch is shown with its number and how many there are.
pub proof fn batches_are_shown(
    index: int,
    total: int,
)
    ensures
        ({
            let doc = posts::batch_doc(index, total);
            &&& json::member(doc, "index"@) == Some(JsonView::Int(index))
            &&& json::member(doc, "total"@) == Some(JsonView::Int(total))
        }),
{
    reveal_strlit("index");
    reveal_strlit("total");
    let m = posts::batch_doc(index, total)->Object_0;
    assert(m[0].0 == "index"@ && "index"@.len() == 5);
    assert(m[1].0 == "total"@ && "total"@.len() == 5);
    assert("index"@[0] == 'i' && "total"@[0] == 't');
    reveal_with_fuel(json::member_from, 3);
}

/// The counts of a library are shown under their names.
pub proof fn libraries_are_counted(
    library_id: int,
    found: int,
    to_move: int,
    moves: int,
    duplicates: int,
)
    ensures
        ({
            let doc = posts::library_doc(library_id, found, to_move, moves, duplicates);
            &&& json::member(doc, "id"@) == Some(JsonView::Int(library_id))
            &&& json::member(doc, "albumsFound"@) == Some(JsonView::Int(found))
            &&& json::member(doc, "albumsToMove"@) == Some(JsonView::Int(to_move))
            &&& json::member(doc, "fileMoves"@) == Some(JsonView::Int(moves))
            &&& json::member(doc, "duplicates"@) == Some(JsonView::Int(duplicates))
            &&& json::member(doc, "kept"@) == Some(JsonView::Int(0))
            &&& json::member(doc, "skipped"@) == Some(JsonView::Int(0))
        }),
{
    reveal_strlit("id");
    reveal_strlit("albumsFound");
    reveal_strlit("albumsToMove");
    reveal_strlit("fileMoves");
    reveal_strlit("duplicates");
    reveal_strlit("kept");
    reveal_strlit("skipped");
    let m = posts::library_doc(library_id, found, to_move, moves, duplicates)->Object_0;
    assert(m[0].0 == "id"@ && "id"@.len() == 2);
    assert(m[1].0 == "albumsFound"@ && "albumsFound"@.len() == 11);
    assert(m[2].0 == "albumsToMove"@ && "albumsToMove"@.len() == 12);
    assert(m[3].0 == "fileMoves"@ && "fileMoves"@.len() == 9);
    assert(m[4].0 == "duplicates"@ && "duplicates"@.len() == 10);
    assert(m[5].0 == "kept"@ && "kept"@.len() == 4);
    assert(m[6].0 == "skipped"@ && "skipped"@.len() == 7);
    reveal_with_fuel(json::member_from, 8);
}

/// A library that was read is shown with the number of its files.
pub proof fn scanned_files_are_counted(
    library_id: int,
    total: int,
)
    ensures
        ({
            let doc = posts::scanned_doc(library_id, total);
            &&& json::member(doc, "id"@) == Some(JsonView::Int(library_id))
            &&& json::member(doc, "albumsFound"@) == Some(JsonView::Int(0))
            &&& json::member(doc, "albumsToMove"@) == Some(JsonView::Int(0))
            &&& json::member(doc, "fileMoves"@) == Some(JsonView::Int(0))
            &&& json::member(doc, "kept"@) == Some(JsonView::Int(0))
            &&& json::member(doc, "skipped"@) == Some(JsonView::Int(0))
            &&& json::member(doc, "duplicates"@) == Some(JsonView::Int(0))
            &&& json::member(doc, "filesScanned"@) == Some(JsonView::Int(total))
        }),
{
    reveal_strlit("id");
    reveal_strlit("albumsFound");
    reveal_strlit("albumsToMove");
    reveal_strlit("fileMoves");
    reveal_strlit("kept");
    reveal_strlit("skipped");
    reveal_strlit("duplicates");
    reveal_strlit("filesScanned");
    let m = posts::scanned_doc(library_id, total)->Object_0;
    assert(m[0].0 == "id"@ && "id"@.len() == 2);
    assert(m[1].0 == "albumsFound"@ && "albumsFound"@.len() == 11);
    assert(m[2].0 == "albumsToMove"@ && "albumsToMove"@.len() == 12);
    assert(m[3].0 == "fileMoves"@ && "fileMoves"@.len() == 9);
    assert(m[4].0 == "kept"@ && "kept"@.len() == 4);
    assert(m[5].0 == "skipped"@ && "skipped"@.len() == 7);
    assert(m[6].0 == "duplicates"@ && "duplicates"@.len() == 10);
    assert(m[7].0 == "filesScanned"@ && "filesScanned"@.len() == 12);
    assert("albumsToMove"@[0] == 'a' && "filesScanned"@[0] == 'f');
    reveal_with_fuel(json::member_from, 9);
}

/// The plan of an album is shown with its kind, the album, its target and all of its moves.
pub proof fn plans_are_shown(
    info: InfoView,
    p: GroupPlanView,
)
    ensures
        ({
            let doc = posts::plan_doc(info, p);
            &&& json::member(doc, "kind"@) == Some(JsonView::Str(posts::bucket_word(p.bucket)))
            &&& json::member(doc, "album"@) == Some(JsonView::Str(info.album))
            &&& json::member(doc, "albumArtist"@) == Some(JsonView::Str(info.album_artist))
            &&& json::member(doc, "year"@) == Some(posts::year_value(info.year))
            &&& json::member(doc, "trackCount"@) == Some(JsonView::Int(info.track_count as int))
            &&& json::member(doc, "target"@) == Some(JsonView::Str(p.target_dir))
            &&& json::member(doc, "moves"@) == Some(JsonView::Array(posts::moves_docs(p.moves)))
            &&& json::member(doc, "duplicates"@) == Some(JsonView::Int(p.duplicates.len() as int))
            &&& json::member(doc, "fillers"@) == Some(JsonView::Int(p.fillers.len() as int))
        }),
{
    reveal_strlit("kind");
    reveal_strlit("album");
    reveal_strlit("albumArtist");
    reveal_strlit("year");
    reveal_strlit("trackCount");
    reveal_strlit("target");
    reveal_strlit("moves");
    reveal_strlit("duplicates");
    reveal_strlit("fillers");
    let m = posts::plan_doc(info, p)->Object_0;
    assert(m[0].0 == "kind"@ && "kind"@.len() == 4);
    assert(m[1].0 == "album"@ && "album"@.len() == 5);
    assert(m[2].0 == "albumArtist"@ && "albumArtist"@.len() == 11);
    assert(m[3].0 == "year"@ && "year"@.len() == 4);
    assert(m[4].0 == "trackCount"@ && "trackCount"@.len() == 10);
    assert(m[5].0 == "target"@ && "target"@.len() == 6);
    assert(m[6].0 == "moves"@ && "moves"@.len() == 5);
    assert(m[7].0 == "duplicates"@ && "duplicates"@.len() == 10);
    assert(m[8].0 == "fillers"@ && "fillers"@.len() == 7);
    assert("kind"@[0] == 'k' && "year"@[0] == 'y');
    assert("album"@[0] == 'a' && "moves"@[0] == 'm');
    assert("trackCount"@[0] == 't' && "duplicates"@[0] == 'd');
    reveal_with_fuel(json::member_from, 10);
}

/// A report is sent with its time, its mode, the run, the text and all that belongs to it.
pub proof fn reports_are_sent(
    ts: int,
    mode: Mode,
    dry: bool,
    batch: JsonView,
    run_id: Seq<char>,
    text: Seq<char>,
    plans: JsonView,
    actions: JsonView,
    library: JsonView,
)
    ensures
        ({
            let doc = posts::report_doc(ts, mode, dry, batch, run_id, text, plans, actions, library);
            &&& json::member(doc, "ts"@) == Some(JsonView::Int(ts))
            &&& json::member(doc, "mode"@) == Some(JsonView::Str(posts::mode_word(mode)))
            &&& json::member(doc, "kind"@) == Some(JsonView::Str("report"@))
            &&& json::member(doc, "dryRun"@) == Some(JsonView::Bool(dry))
            &&& json::member(doc, "batch"@) == Some(batch)
            &&& json::member(doc, "runId"@) == Some(JsonView::Str(run_id))
            &&& json::member(doc, "text"@) == Some(JsonView::Str(text))
            &&& json::member(doc, "plans"@) == Some(plans)
            &&& json::member(doc, "actions"@) == Some(actions)
            &&& json::member(doc, "libraries"@) == Some(JsonView::Array(seq![library]))
        }),
{
    reveal_strlit("ts");
    reveal_strlit("mode");
    reveal_strlit("kind");
    reveal_strlit("dryRun");
    reveal_strlit("batch");
    reveal_strlit("runId");
    reveal_strlit("text");
    reveal_strlit("plans");
    reveal_strlit("actions");
    reveal_strlit("libraries");
    let m = posts::report_doc(ts, mode, dry, batch, run_id, text, plans, actions, library)->Object_0;
    assert(m[0].0 == "ts"@ && "ts"@.len() == 2);
    assert(m[1].0 == "mode"@ && "mode"@.len() == 4);
    assert(m[2].0 == "kind"@ && "kind"@.len() == 4);
    assert(m[3].0 == "dryRun"@ && "dryRun"@.len() == 6);
    assert(m[4].0 == "batch"@ && "batch"@.len() == 5);
    assert(m[5].0 == "runId"@ && "runId"@.len() == 5);
    assert(m[6].0 == "text"@ && "text"@.len() == 4);
    assert(m[7].0 == "plans"@ && "plans"@.len() == 5);
    assert(m[8].0 == "actions"@ && "actions"@.len() == 7);
    assert(m[9].0 == "libraries"@ && "libraries"@.len() == 9);
    assert("mode"@[0] == 'm' && "kind"@[0] == 'k');
    assert("mode"@[0] == 'm' && "text"@[0] == 't');
    assert("kind"@[0] == 'k' && "text"@[0] == 't');
    assert("batch"@[0] == 'b' && "runId"@[0] == 'r');
    assert("batch"@[0] == 'b' && "plans"@[0] == 'p');
    assert("runId"@[0] == 'r' && "plans"@[0] == 'p');
    reveal_with_fuel(json::member_from, 11);
}

/// While albums are moved, the state says so, with what was and what is to be done.
pub proof fn moving_is_shown(
    ts: int,
    batch: JsonView,
    library: JsonView,
    to_move: int,
    moves: int,
    plans: JsonView,
    actions: JsonView,
    integrations: JsonView,
    tasks: JsonView,
)
    ensures
        ({
            let doc = posts::plan_status_doc(ts, batch, library, to_move, moves, plans, actions, integrations, tasks);
            &&& json::member(doc, "ts"@) == Some(JsonView::Int(ts))
            &&& json::member(doc, "mode"@) == Some(JsonView::Str("apply"@))
            &&& json::member(doc, "inProgress"@) == Some(JsonView::Bool(true))
            &&& json::member(doc, "phase"@) == Some(JsonView::Str("plan"@))
            &&& json::member(doc, "batch"@) == Some(batch)
            &&& json::member(doc, "libraries"@) == Some(JsonView::Array(seq![library]))
            &&& json::member(doc, "totalAlbumsToMove"@) == Some(JsonView::Int(to_move))
            &&& json::member(doc, "totalFileMoves"@) == Some(JsonView::Int(moves))
            &&& json::member(doc, "plans"@) == Some(plans)
            &&& json::member(doc, "actions"@) == Some(actions)
            &&& json::member(doc, "warnings"@) == Some(JsonView::Array(Seq::empty()))
            &&& json::member(doc, "integrations"@) == Some(integrations)
            &&& json::member(doc, "tasks"@) == Some(tasks)
        }),
{
    reveal_strlit("ts");
    reveal_strlit("mode");
    reveal_strlit("inProgress");
    reveal_strlit("phase");
    reveal_strlit("batch");
    reveal_strlit("libraries");
    reveal_strlit("totalAlbumsToMove");
    reveal_strlit("totalFileMoves");
    reveal_strlit("plans");
    reveal_strlit("actions");
    reveal_strlit("warnings");
    reveal_strlit("integrations");
    reveal_strlit("tasks");
    let m = posts::plan_status_doc(ts, batch, library, to_move, moves, plans, actions, integrations, tasks)->Object_0;
    assert(m[0].0 == "ts"@ && "ts"@.len() == 2);
    assert(m[1].0 == "mode"@ && "mode"@.len() == 4);
    assert(m[2].0 == "inProgress"@ && "inProgress"@.len() == 10);
    assert(m[3].0 == "phase"@ && "phase"@.len() == 5);
    assert(m[4].0 == "batch"@ && "batch"@.len() == 5);
    assert(m[5].0 == "libraries"@ && "libraries"@.len() == 9);
    assert(m[6].0 == "totalAlbumsToMove"@ && "totalAlbumsToMove"@.len() == 17);
    assert(m[7].0 == "totalFileMoves"@ && "totalFileMoves"@.len() == 14);
    assert(m[8].0 == "plans"@ && "plans"@.len() == 5);
    assert(m[9].0 == "actions"@ && "actions"@.len() == 7);
    assert(m[10].0 == "warnings"@ && "warnings"@.len() == 8);
    assert(m[11].0 == "integrations"@ && "integrations"@.len() == 12);
    assert(m[12].0 == "tasks"@ && "tasks"@.len() == 5);
    assert("phase"@[0] == 'p' && "batch"@[0] == 'b');
    assert("phase"@[1] == 'h' && "plans"@[1] == 'l');
    assert("phase"@[0] == 'p' && "tasks"@[0] == 't');
    assert("batch"@[0] == 'b' && "plans"@[0] == 'p');
    assert("batch"@[0] == 'b' && "tasks"@[0] == 't');
    assert("plans"@[0] == 'p' && "tasks"@[0] == 't');
    reveal_with_fuel(json::member_from, 14);
}

/// When a batch was enriched, the state says that it is over.
pub proof fn enriching_is_shown(
    ts: int,
    batch: JsonView,
    integrations: JsonView,
    tasks: JsonView,
)
    ensures
        ({
            let doc = posts::enrich_status_doc(ts, batch, integrations, tasks);
            &&& json::member(doc, "ts"@) == Some(JsonView::Int(ts))
            &&& json::member(doc, "mode"@) == Some(JsonView::Str("apply"@))
            &&& json::member(doc, "inProgress"@) == Some(JsonView::Bool(false))
            &&& json::member(doc, "phase"@) == Some(JsonView::Str("enrich"@))
            &&& json::member(doc, "batch"@) == Some(batch)
            &&& json::member(doc, "warnings"@) == Some(JsonView::Array(Seq::empty()))
            &&& json::member(doc, "integrations"@) == Some(integrations)
            &&& json::member(doc, "tasks"@) == Some(tasks)
        }),
{
    reveal_strlit("ts");
    reveal_strlit("mode");
    reveal_strlit("inProgress");
    reveal_strlit("phase");
    reveal_strlit("batch");
    reveal_strlit("warnings");
    reveal_strlit("integrations");
    reveal_strlit("tasks");
    let m = posts::enrich_status_doc(ts, batch, integrations, tasks)->Object_0;
    assert(m[0].0 == "ts"@ && "ts"@.len() == 2);
    assert(m[1].0 == "mode"@ && "mode"@.len() == 4);
    assert(m[2].0 == "inProgress"@ && "inProgress"@.len() == 10);
    assert(m[3].0 == "phase"@ && "phase"@.len() == 5);
    assert(m[4].0 == "batch"@ && "batch"@.len() == 5);
    assert(m[5].0 == "warnings"@ && "warnings"@.len() == 8);
    assert(m[6].0 == "integrations"@ && "integrations"@.len() == 12);
    assert(m[7].0 == "tasks"@ && "tasks"@.len() == 5);
    assert("phase"@[0] == 'p' && "batch"@[0] == 'b');
    assert("phase"@[0] == 'p' && "tasks"@[0] == 't');
    assert("batch"@[0] == 'b' && "tasks"@[0] == 't');
    reveal_with_fuel(json::member_from, 9);
}

/// While a library is read, the state says how far it is and at which file.
pub proof fn reading_is_shown(
    ts: int,
    mode: Mode,
    library_id: int,
    total: int,
    chunk: int,
    current_file: Seq<char>,
    integrations: JsonView,
    tasks: JsonView,
)
    ensures
        ({
            let doc = posts::scan_status_doc(ts, mode, library_id, total, chunk, current_file, integrations, tasks);
            &&& json::member(doc, "ts"@) == Some(JsonView::Int(ts))
            &&& json::member(doc, "mode"@) == Some(JsonView::Str(posts::mode_word(mode)))
            &&& json::member(doc, "inProgress"@) == Some(JsonView::Bool(true))
            &&& json::member(doc, "phase"@) == Some(JsonView::Str("scan"@))
            &&& json::member(doc, "filesScanned"@) == Some(JsonView::Int(total))
            &&& json::member(doc, "chunkSize"@) == Some(JsonView::Int(chunk))
            &&& json::member(doc, "currentFile"@) == Some(JsonView::Str(current_file))
            &&& json::member(doc, "libraries"@) == Some(JsonView::Array(seq![posts::scanned_doc(library_id, total)]))
            &&& json::member(doc, "warnings"@) == Some(JsonView::Array(Seq::empty()))
            &&& json::member(doc, "integrations"@) == Some(integrations)
            &&& json::member(doc, "tasks"@) == Some(tasks)
        }),
{
    reveal_strlit("ts");
    reveal_strlit("mode");
    reveal_strlit("inProgress");
    reveal_strlit("phase");
    reveal_strlit("filesScanned");
    reveal_strlit("chunkSize");
    reveal_strlit("currentFile");
    reveal_strlit("libraries");
    reveal_strlit("warnings");
    reveal_strlit("integrations");
    reveal_strlit("tasks");
    let m = posts::scan_status_doc(ts, mode, library_id, total, chunk, current_file, integrations, tasks)->Object_0;
    assert(m[0].0 == "ts"@ && "ts"@.len() == 2);
    assert(m[1].0 == "mode"@ && "mode"@.len() == 4);
    assert(m[2].0 == "inProgress"@ && "inProgress"@.len() == 10);
    assert(m[3].0 == "phase"@ && "phase"@.len() == 5);
    assert(m[4].0 == "filesScanned"@ && "filesScanned"@.len() == 12);
    assert(m[5].0 == "chunkSize"@ && "chunkSize"@.len() == 9);
    assert(m[6].0 == "currentFile"@ && "currentFile"@.len() == 11);
    assert(m[7].0 == "libraries"@ && "libraries"@.len() == 9);
    assert(m[8].0 == "warnings"@ && "warnings"@.len() == 8);
    assert(m[9].0 == "integrations"@ && "integrations"@.len() == 12);
    assert(m[10].0 == "tasks"@ && "tasks"@.len() == 5);
    assert("phase"@[0] == 'p' && "tasks"@[0] == 't');
    assert("filesScanned"@[0] == 'f' && "integrations"@[0] == 'i');
    assert("chunkSize"@[0] == 'c' && "libraries"@[0] == 'l');
    reveal_with_fuel(json::member_from, 12);
}

/// The state of a run names its phase and says in words what that does.
pub proof fn phases_are_shown(
    ts: int,
    mode: Mode,
    library_id: int,
    phase: Seq<char>,
    integrations: JsonView,
    tasks: JsonView,
)
    ensures
        ({
            let doc = posts::phase_status_doc(ts, mode, library_id, phase, integrations, tasks);
            &&& json::member(doc, "ts"@) == Some(JsonView::Int(ts))
            &&& json::member(doc, "mode"@) == Some(JsonView::Str(posts::mode_word(mode)))
            &&& json::member(doc, "inProgress"@) == Some(JsonView::Bool(true))
            &&& json::member(doc, "phase"@) == Some(JsonView::Str(phase))
            &&& json::member(doc, "phaseDetail"@) == Some(JsonView::Str(posts::phase_words(phase)))
            &&& json::member(doc, "libraries"@) == Some(JsonView::Array(seq![posts::library_doc(library_id, 0, 0, 0, 0)]))
            &&& json::member(doc, "warnings"@) == Some(JsonView::Array(Seq::empty()))
            &&& json::member(doc, "integrations"@) == Some(integrations)
            &&& json::member(doc, "tasks"@) == Some(tasks)
        }),
{
    reveal_strlit("ts");
    reveal_strlit("mode");
    reveal_strlit("inProgress");
    reveal_strlit("phase");
    reveal_strlit("phaseDetail");
    reveal_strlit("libraries");
    reveal_strlit("warnings");
    reveal_strlit("integrations");
    reveal_strlit("tasks");
    let m = posts::phase_status_doc(ts, mode, library_id, phase, integrations, tasks)->Object_0;
    assert(m[0].0 == "ts"@ && "ts"@.len() == 2);
    assert(m[1].0 == "mode"@ && "mode"@.len() == 4);
    assert(m[2].0 == "inProgress"@ && "inProgress"@.len() == 10);
    assert(m[3].0 == "phase"@ && "phase"@.len() == 5);
    assert(m[4].0 == "phaseDetail"@ && "phaseDetail"@.len() == 11);
    assert(m[5].0 == "libraries"@ && "libraries"@.len() == 9);
    assert(m[6].0 == "warnings"@ && "warnings"@.len() == 8);
    assert(m[7].0 == "integrations"@ && "integrations"@.len() == 12);
    assert(m[8].0 == "tasks"@ && "tasks"@.len() == 5);
    assert("phase"@[0] == 'p' && "tasks"@[0] == 't');
    reveal_with_fuel(json::member_from, 10);
}

/// A pass that waits until nothing is played says so.
pub proof fn waiting_is_shown(
    cfg: Config,
    ts: int,
    warnings: JsonView,
    integrations: JsonView,
    tasks: JsonView,
)
    ensures
        ({
            let doc = posts::deferred_doc(cfg, ts, warnings, integrations, tasks);
            &&& json::member(doc, "ts"@) == Some(JsonView::Int(ts))
            &&& json::member(doc, "mode"@) == Some(JsonView::Str(posts::mode_word(cfg.mode)))
            &&& json::member(doc, "inProgress"@) == Some(JsonView::Bool(false))
            &&& json::member(doc, "deferredUntilIdle"@) == Some(JsonView::Bool(true))
            &&& json::member(doc, "warnings"@) == Some(warnings)
            &&& json::member(doc, "integrations"@) == Some(integrations)
            &&& json::member(doc, "octoFiestaUrl"@) == Some(JsonView::Str(cfg.octo_fiesta_url@))
            &&& json::member(doc, "octoFiestaProvider"@) == Some(JsonView::Str(cfg.octo_fiesta_provider@))
            &&& json::member(doc, "tasks"@) == Some(tasks)
        }),
{
    reveal_strlit("ts");
    reveal_strlit("mode");
    reveal_strlit("inProgress");
    reveal_strlit("deferredUntilIdle");
    reveal_strlit("warnings");
    reveal_strlit("integrations");
    reveal_strlit("octoFiestaUrl");
    reveal_strlit("octoFiestaProvider");
    reveal_strlit("tasks");
    let m = posts::deferred_doc(cfg, ts, warnings, integrations, tasks)->Object_0;
    assert(m[0].0 == "ts"@ && "ts"@.len() == 2);
    assert(m[1].0 == "mode"@ && "mode"@.len() == 4);
    assert(m[2].0 == "inProgress"@ && "inProgress"@.len() == 10);
    assert(m[3].0 == "deferredUntilIdle"@ && "deferredUntilIdle"@.len() == 17);
    assert(m[4].0 == "warnings"@ && "warnings"@.len() == 8);
    assert(m[5].0 == "integrations"@ && "integrations"@.len() == 12);
    assert(m[6].0 == "octoFiestaUrl"@ && "octoFiestaUrl"@.len() == 13);
    assert(m[7].0 == "octoFiestaProvider"@ && "octoFiestaProvider"@.len() == 18);
    assert(m[8].0 == "tasks"@ && "tasks"@.len() == 5);
    reveal_with_fuel(json::member_from, 10);
}

/// A pass that waits for a service names it.
pub proof fn missing_services_are_shown(
    cfg: Config,
    ts: int,
    provider: Seq<char>,
    warnings: JsonView,
    integrations: JsonView,
    tasks: JsonView,
)
    ensures
        ({
            let doc = posts::skipped_doc(cfg, ts, provider, warnings, integrations, tasks);
            &&& json::member(doc, "ts"@) == Some(JsonView::Int(ts))
            &&& json::member(doc, "mode"@) == Some(JsonView::Str(posts::mode_word(cfg.mode)))
            &&& json::member(doc, "inProgress"@) == Some(JsonView::Bool(false))
            &&& json::member(doc, "metaSkipped"@) == Some(JsonView::Str(provider))
            &&& json::member(doc, "warnings"@) == Some(warnings)
            &&& json::member(doc, "integrations"@) == Some(integrations)
            &&& json::member(doc, "octoFiestaUrl"@) == Some(JsonView::Str(cfg.octo_fiesta_url@))
            &&& json::member(doc, "octoFiestaProvider"@) == Some(JsonView::Str(cfg.octo_fiesta_provider@))
            &&& json::member(doc, "tasks"@) == Some(tasks)
        }),
{
    reveal_strlit("ts");
    reveal_strlit("mode");
    reveal_strlit("inProgress");
    reveal_strlit("metaSkipped");
    reveal_strlit("warnings");
    reveal_strlit("integrations");
    reveal_strlit("octoFiestaUrl");
    reveal_strlit("octoFiestaProvider");
    reveal_strlit("tasks");
    let m = posts::skipped_doc(cfg, ts, provider, warnings, integrations, tasks)->Object_0;
    assert(m[0].0 == "ts"@ && "ts"@.len() == 2);
    assert(m[1].0 == "mode"@ && "mode"@.len() == 4);
    assert(m[2].0 == "inProgress"@ && "inProgress"@.len() == 10);
    assert(m[3].0 == "metaSkipped"@ && "metaSkipped"@.len() == 11);
    assert(m[4].0 == "warnings"@ && "warnings"@.len() == 8);
    assert(m[5].0 == "integrations"@ && "integrations"@.len() == 12);
    assert(m[6].0 == "octoFiestaUrl"@ && "octoFiestaUrl"@.len() == 13);
    assert(m[7].0 == "octoFiestaProvider"@ && "octoFiestaProvider"@.len() == 18);
    assert(m[8].0 == "tasks"@ && "tasks"@.len() == 5);
    reveal_with_fuel(json::member_from, 10);
}

/// A run that was undone is named, with the number of errors.
pub proof fn undoing_is_shown(
    cfg: Config,
    ts: int,
    run_id: Seq<char>,
    errors: int,
)
    ensures
        ({
            let doc = posts::rolled_back_doc(cfg, ts, run_id, errors);
            &&& json::member(doc, "ts"@) == Some(JsonView::Int(ts))
            &&& json::member(doc, "mode"@) == Some(JsonView::Str(posts::mode_word(cfg.mode)))
            &&& json::member(doc, "inProgress"@) == Some(JsonView::Bool(false))
            &&& json::member(doc, "rollbackOfRun"@) == Some(JsonView::Str(run_id))
            &&& json::member(doc, "errors"@) == Some(JsonView::Int(errors))
        }),
{
    reveal_strlit("ts");
    reveal_strlit("mode");
    reveal_strlit("inProgress");
    reveal_strlit("rollbackOfRun");
    reveal_strlit("errors");
    let m = posts::rolled_back_doc(cfg, ts, run_id, errors)->Object_0;
    assert(m[0].0 == "ts"@ && "ts"@.len() == 2);
    assert(m[1].0 == "mode"@ && "mode"@.len() == 4);
    assert(m[2].0 == "inProgress"@ && "inProgress"@.len() == 10);
    assert(m[3].0 == "rollbackOfRun"@ && "rollbackOfRun"@.len() == 13);
    assert(m[4].0 == "errors"@ && "errors"@.len() == 6);
    reveal_with_fuel(json::member_from, 6);
}

/// A task is shown with what it does, its library, its state and what it says.
pub proof fn tasks_are_shown(
    ts: int,
    kind: Seq<char>,
    library_id: int,
    state: Seq<char>,
    message: Seq<char>,
)
    ensures
        ({
            let doc = posts::task_doc(ts, kind, library_id, state, message);
            &&& json::member(doc, "ts"@) == Some(JsonView::Int(ts))
            &&& json::member(doc, "kind"@) == Some(JsonView::Str(kind))
            &&& json::member(doc, "libraryId"@) == Some(JsonView::Int(library_id))
            &&& json::member(doc, "state"@) == Some(JsonView::Str(state))
            &&& json::member(doc, "message"@) == Some(JsonView::Str(message))
        }),
{
    reveal_strlit("ts");
    reveal_strlit("kind");
    reveal_strlit("libraryId");
    reveal_strlit("state");
    reveal_strlit("message");
    let m = posts::task_doc(ts, kind, library_id, state, message)->Object_0;
    assert(m[0].0 == "ts"@ && "ts"@.len() == 2);
    assert(m[1].0 == "kind"@ && "kind"@.len() == 4);
    assert(m[2].0 == "libraryId"@ && "libraryId"@.len() == 9);
    assert(m[3].0 == "state"@ && "state"@.len() == 5);
    assert(m[4].0 == "message"@ && "message"@.len() == 7);
    reveal_with_fuel(json::member_from, 6);
}

/// A service is shown with its name, its state and a detail.
pub proof fn states_are_shown(
    name: Seq<char>,
    state: Seq<char>,
    detail: Seq<char>,
)
    ensures
        ({
            let doc = posts::health_doc(name, state, detail);
            &&& json::member(doc, "name"@) == Some(JsonView::Str(name))
            &&& json::member(doc, "state"@) == Some(JsonView::Str(state))
            &&& json::member(doc, "detail"@) == Some(JsonView::Str(detail))
        }),
{
    reveal_strlit("name");
    reveal_strlit("state");
    reveal_strlit("detail");
    let m = posts::health_doc(name, state, detail)->Object_0;
    assert(m[0].0 == "name"@ && "name"@.len() == 4);
    assert(m[1].0 == "state"@ && "state"@.len() == 5);
    assert(m[2].0 == "detail"@ && "detail"@.len() == 6);
    reveal_with_fuel(json::member_from, 4);
}

/// A song is shown with its name, its path, its stars and how often it was played.
pub proof fn rated_songs_are_shown(
    name: Seq<char>,
    path: Seq<char>,
    stars: Seq<char>,
    plays: int,
)
    ensures
        ({
            let doc = posts::rated_doc(name, path, stars, plays);
            &&& json::member(doc, "name"@) == Some(JsonView::Str(name))
            &&& json::member(doc, "path"@) == Some(JsonView::Str(path))
            &&& json::member(doc, "stars"@) == Some(JsonView::Real(stars))
            &&& json::member(doc, "plays"@) == Some(JsonView::Int(plays))
        }),
{
    reveal_strlit("name");
    reveal_strlit("path");
    reveal_strlit("stars");
    reveal_strlit("plays");
    let m = posts::rated_doc(name, path, stars, plays)->Object_0;
    assert(m[0].0 == "name"@ && "name"@.len() == 4);
    assert(m[1].0 == "path"@ && "path"@.len() == 4);
    assert(m[2].0 == "stars"@ && "stars"@.len() == 5);
    assert(m[3].0 == "plays"@ && "plays"@.len() == 5);
    assert("name"@[0] == 'n' && "path"@[0] == 'p');
    assert("stars"@[0] == 's' && "plays"@[0] == 'p');
    reveal_with_fuel(json::member_from, 5);
}

/// What was heard is shown with its counts.
pub proof fn listening_is_shown(
    cfg: Config,
    ts: int,
    plays: int,
    skips: int,
    picks: int,
    filtered: int,
    ratings: int,
    meta_writes: int,
    now_playing: JsonView,
    top_rated: JsonView,
    warnings: JsonView,
    integrations: JsonView,
    tasks: JsonView,
)
    ensures
        ({
            let doc = posts::heartbeat_doc(cfg, ts, plays, skips, picks, filtered, ratings, meta_writes, now_playing, top_rated, warnings, integrations, tasks);
            &&& json::member(doc, "ts"@) == Some(JsonView::Int(ts))
            &&& json::member(doc, "mode"@) == Some(JsonView::Str(posts::mode_word(cfg.mode)))
            &&& json::member(doc, "inProgress"@) == Some(JsonView::Bool(false))
            &&& json::member(doc, "phase"@) == Some(JsonView::Str("stats"@))
            &&& json::member(doc, "plays"@) == Some(JsonView::Int(plays))
            &&& json::member(doc, "skips"@) == Some(JsonView::Int(skips))
            &&& json::member(doc, "topPicks"@) == Some(JsonView::Int(picks))
            &&& json::member(doc, "filtered"@) == Some(JsonView::Int(filtered))
            &&& json::member(doc, "ratings"@) == Some(JsonView::Int(ratings))
            &&& json::member(doc, "metaWrites"@) == Some(JsonView::Int(meta_writes))
            &&& json::member(doc, "nowPlaying"@) == Some(now_playing)
            &&& json::member(doc, "topRated"@) == Some(top_rated)
            &&& json::member(doc, "warnings"@) == Some(warnings)
            &&& json::member(doc, "integrations"@) == Some(integrations)
            &&& json::member(doc, "octoFiestaUrl"@) == Some(JsonView::Str(cfg.octo_fiesta_url@))
            &&& json::member(doc, "octoFiestaProvider"@) == Some(JsonView::Str(cfg.octo_fiesta_provider@))
            &&& json::member(doc, "tasks"@) == Some(tasks)
        }),
{
    reveal_strlit("ts");
    reveal_strlit("mode");
    reveal_strlit("inProgress");
    reveal_strlit("phase");
    reveal_strlit("plays");
    reveal_strlit("skips");
    reveal_strlit("topPicks");
    reveal_strlit("filtered");
    reveal_strlit("ratings");
    reveal_strlit("metaWrites");
    reveal_strlit("nowPlaying");
    reveal_strlit("topRated");
    reveal_strlit("warnings");
    reveal_strlit("integrations");
    reveal_strlit("octoFiestaUrl");
    reveal_strlit("octoFiestaProvider");
    reveal_strlit("tasks");
    let m = posts::heartbeat_doc(cfg, ts, plays, skips, picks, filtered, ratings, meta_writes, now_playing, top_rated, warnings, integrations, tasks)->Object_0;
    assert(m[0].0 == "ts"@ && "ts"@.len() == 2);
    assert(m[1].0 == "mode"@ && "mode"@.len() == 4);
    assert(m[2].0 == "inProgress"@ && "inProgress"@.len() == 10);
    assert(m[3].0 == "phase"@ && "phase"@.len() == 5);
    assert(m[4].0 == "plays"@ && "plays"@.len() == 5);
    assert(m[5].0 == "skips"@ && "skips"@.len() == 5);
    assert(m[6].0 == "topPicks"@ && "topPicks"@.len() == 8);
    assert(m[7].0 == "filtered"@ && "filtered"@.len() == 8);
    assert(m[8].0 == "ratings"@ && "ratings"@.len() == 7);
    assert(m[9].0 == "metaWrites"@ && "metaWrites"@.len() == 10);
    assert(m[10].0 == "nowPlaying"@ && "nowPlaying"@.len() == 10);
    assert(m[11].0 == "topRated"@ && "topRated"@.len() == 8);
    assert(m[12].0 == "warnings"@ && "warnings"@.len() == 8);
    assert(m[13].0 == "integrations"@ && "integrations"@.len() == 12);
    assert(m[14].0 == "octoFiestaUrl"@ && "octoFiestaUrl"@.len() == 13);
    assert(m[15].0 == "octoFiestaProvider"@ && "octoFiestaProvider"@.len() == 18);
    assert(m[16].0 == "tasks"@ && "tasks"@.len() == 5);
    assert("inProgress"@[0] == 'i' && "metaWrites"@[0] == 'm');
    assert("inProgress"@[0] == 'i' && "nowPlaying"@[0] == 'n');
    assert("phase"@[1] == 'h' && "plays"@[1] == 'l');
    assert("phase"@[0] == 'p' && "skips"@[0] == 's');
    assert("phase"@[0] == 'p' && "tasks"@[0] == 't');
    assert("plays"@[0] == 'p' && "skips"@[0] == 's');
    assert("plays"@[0] == 'p' && "tasks"@[0] == 't');
    assert("skips"@[0] == 's' && "tasks"@[0] == 't');
    assert("topPicks"@[0] == 't' && "filtered"@[0] == 'f');
    assert("topPicks"@[3] == 'P' && "topRated"@[3] == 'R');
    assert("topPicks"@[0] == 't' && "warnings"@[0] == 'w');
    assert("filtered"@[0] == 'f' && "topRated"@[0] == 't');
    assert("filtered"@[0] == 'f' && "warnings"@[0] == 'w');
    assert("metaWrites"@[0] == 'm' && "nowPlaying"@[0] == 'n');
    assert("topRated"@[0] == 't' && "warnings"@[0] == 'w');
    reveal_with_fuel(json::member_from, 18);
}

/// The state of a pass holds its libraries and the sums over all of them.
pub proof fn passes_are_shown(
    cfg: Config,
    ts: int,
    in_progress: bool,
    statuses: Seq<LibraryStatus>,
    batch: Option<(int, int)>,
    run_id: Option<Seq<char>>,
    warnings: JsonView,
    integrations: JsonView,
    tasks: JsonView,
)
    ensures
        ({
            let doc = posts::status_doc(cfg, ts, in_progress, statuses, batch, run_id, warnings, integrations, tasks);
            &&& json::member(doc, "ts"@) == Some(JsonView::Int(ts))
            &&& json::member(doc, "mode"@) == Some(JsonView::Str(posts::mode_word(cfg.mode)))
            &&& json::member(doc, "inProgress"@) == Some(JsonView::Bool(in_progress))
            &&& json::member(doc, "runId"@) == Some(json::text_or_null(run_id))
            &&& json::member(doc, "batch"@) == Some((match batch { Some((i, n)) => posts::batch_doc(i, n), None => JsonView::Null, }))
            &&& json::member(doc, "libraries"@) == Some(JsonView::Array(posts::status_entries(statuses)))
            &&& json::member(doc, "totalAlbumsToMove"@) == Some(JsonView::Int(posts::total_to_move(statuses)))
            &&& json::member(doc, "totalFileMoves"@) == Some(JsonView::Int(posts::total_moves(statuses)))
            &&& json::member(doc, "warnings"@) == Some(warnings)
            &&& json::member(doc, "integrations"@) == Some(integrations)
            &&& json::member(doc, "octoFiestaUrl"@) == Some(JsonView::Str(cfg.octo_fiesta_url@))
            &&& json::member(doc, "octoFiestaProvider"@) == Some(JsonView::Str(cfg.octo_fiesta_provider@))
            &&& json::member(doc, "persistenceBackend"@) == Some(JsonView::Str(cfg.persistence_backend@))
            &&& json::member(doc, "tasks"@) == Some(tasks)
        }),
{
    reveal_strlit("ts");
    reveal_strlit("mode");
    reveal_strlit("inProgress");
    reveal_strlit("runId");
    reveal_strlit("batch");
    reveal_strlit("libraries");
    reveal_strlit("totalAlbumsToMove");
    reveal_strlit("totalFileMoves");
    reveal_strlit("warnings");
    reveal_strlit("integrations");
    reveal_strlit("octoFiestaUrl");
    reveal_strlit("octoFiestaProvider");
    reveal_strlit("persistenceBackend");
    reveal_strlit("tasks");
    let m = posts::status_doc(cfg, ts, in_progress, statuses, batch, run_id, warnings, integrations, tasks)->Object_0;
    assert(m[0].0 == "ts"@ && "ts"@.len() == 2);
    assert(m[1].0 == "mode"@ && "mode"@.len() == 4);
    assert(m[2].0 == "inProgress"@ && "inProgress"@.len() == 10);
    assert(m[3].0 == "runId"@ && "runId"@.len() == 5);
    assert(m[4].0 == "batch"@ && "batch"@.len() == 5);
    assert(m[5].0 == "libraries"@ && "libraries"@.len() == 9);
    assert(m[6].0 == "totalAlbumsToMove"@ && "totalAlbumsToMove"@.len() == 17);
    assert(m[7].0 == "totalFileMoves"@ && "totalFileMoves"@.len() == 14);
    assert(m[8].0 == "warnings"@ && "warnings"@.len() == 8);
    assert(m[9].0 == "integrations"@ && "integrations"@.len() == 12);
    assert(m[10].0 == "octoFiestaUrl"@ && "octoFiestaUrl"@.len() == 13);
    assert(m[11].0 == "octoFiestaProvider"@ && "octoFiestaProvider"@.len() == 18);
    assert(m[12].0 == "persistenceBackend"@ && "persistenceBackend"@.len() == 18);
    assert(m[13].0 == "tasks"@ && "tasks"@.len() == 5);
    assert("runId"@[0] == 'r' && "batch"@[0] == 'b');
    assert("runId"@[0] == 'r' && "tasks"@[0] == 't');
    assert("batch"@[0] == 'b' && "tasks"@[0] == 't');
    assert("octoFiestaProvider"@[0] == 'o' && "persistenceBackend"@[0] == 'p');
    reveal_with_fuel(json::member_from, 15);
}

/// The sums of a pass are those of its libraries.
pub proof fn every_library_counts(v: Seq<LibraryStatus>, s: LibraryStatus)
    ensures
        posts::total_to_move(v.push(s)) == posts::total_to_move(v) + s.albums_to_move,
        posts::total_moves(v.push(s)) == posts::total_moves(v) + s.file_moves,
        posts::total_to_move(Seq::empty()) == 0,
        posts::total_moves(Seq::empty()) == 0,
{
    assert(v.push(s).drop_last() =~= v);
}

/// The log begins with the newest entry and keeps those before it, up to twenty.
pub proof fn the_newest_entry_comes_first(entry: JsonView, log: Seq<JsonView>, i: int)
    ensures
        ({
            let all = posts::logged(entry, log);
            &&& all[0] == entry
            &&& log.len() < 20 ==> all.len() == log.len() + 1
            &&& log.len() >= 20 ==> all.len() == 20
            &&& 0 < i < all.len() ==> all[i] == log[i - 1]
        }),
{
}

// ---------------------------------------------------------------------------
// Reports

/// The sums of a report take in every album: one that has something to move, its moves, the files
/// that stay and those that were passed over.
pub proof fn reports_sum_up_every_album(plans: Seq<AlbumPlanView>, k: int)
    requires
        0 <= k < plans.len(),
    ensures
        ({
            let (a, b, c, d) = report::sums(plans, k);
            let (x, y, z, w) = report::sums(plans, k + 1);
            &&& x == a + if plans[k].moves.len() > 0 {
                1int
            } else {
                0int
            }
            &&& y == b + plans[k].moves.len()
            &&& z == c + plans[k].keeps
            &&& w == d + plans[k].skipped.len()
        }),
        report::sums(plans, 0) == (0int, 0int, 0int, 0int),
{
}

/// A report names every move with both of its ends, in their order.
pub proof fn every_move_is_named(moves: Seq<MoveView>, m: MoveView)
    ensures
        report::arrows(moves.push(m)) == report::arrows(moves) + ("    - "@ + m.from + "  ->  /"@ + m.to
            + "\n"@),
        report::arrows(Seq::empty()).len() == 0,
{
    assert(moves.push(m).drop_last() =~= moves);
    assert(report::arrows(moves) + "    - "@ + m.from + "  ->  /"@ + m.to + "\n"@ =~= report::arrows(
        moves,
    ) + ("    - "@ + m.from + "  ->  /"@ + m.to + "\n"@));
}

/// A report says that nothing was changed exactly where it tells of a dry run; else it says how to
/// undo the run, where that has a name.
pub proof fn reports_say_what_was_done(mode: Seq<char>, run: Seq<char>)
    ensures
        mode == "dryRun"@ ==> report::closing(mode, Some(run))
            == "This was a dry run: nothing was written or renamed.\n"@,
        mode != "dryRun"@ ==> report::closing(mode, Some(run)) == "Changes above were applied.\n"@
            + "To undo this run, set the 'Rollback run ID' setting to: "@ + run + "\n"@,
        mode != "dryRun"@ ==> report::closing(mode, None) == "Changes above were applied.\n"@,
{
}

/// A target folder that differs by case alone counts as unchanged.
pub proof fn case_alone_is_no_change(p: AlbumPlanView)
    ensures
        text::lowered(p.current_dir) == text::lowered(p.target_dir) ==> report::target_line(p)
            == "  Target folder:  (unchanged)\n"@,
        text::lowered(p.current_dir) != text::lowered(p.target_dir) ==> report::target_line(p)
            == "  Target folder:  "@ + ("/"@ + p.target_dir) + "\n"@,
{
}

/// What would be done is told as such in a dry run, and what was done in a real one.
pub proof fn tenses_tell_plans_from_deeds(done: Seq<char>, planned: Seq<char>)
    ensures
        report::tense(true, done, planned) == planned,
        report::tense(false, done, planned) == done,
{
}

/// Batches are counted from one, and there is always one at least.
pub proof fn batches_count_from_one(index: nat, total: int)
    ensures
        total >= 1 ==> report::batch_number(index as int, total) == text::decimal(index + 1) + "/"@
            + text::decimal(total as nat),
        total < 1 ==> report::batch_number(index as int, total) == text::decimal(index + 1) + "/"@
            + text::decimal(1),
{
}

// ---------------------------------------------------------------------------
// Health

/// A service is in trouble exactly where it does not answer or answers with an error.
pub proof fn errors_are_trouble(status: int, body: Seq<char>, cause: Seq<char>)
    ensures
        health::trouble(ReplyView::Answer { status, body }) is None <==> status < 400,
        health::trouble(ReplyView::Silent) is Some,
        health::trouble(ReplyView::Failed { cause }) is Some,
        health::trouble(ReplyView::Answer { status: 429, body }) == Some(
            "rate limited (HTTP "@ + text::decimal(429) + ")"@,
        ),
{
}

/// The state of a service: fine where its check found nothing, and else out of reach, or refused where
/// it was to log in. Lidarr that refuses the key is still reached. A service that is not set up is
/// said to be so, whatever was found.
pub proof fn states_tell_what_was_found(
    name: Seq<char>,
    key: Seq<char>,
    address: Seq<char>,
    headers: Seq<(Seq<char>, Seq<char>)>,
    timeout_ms: int,
    ttl: int,
    fine: Seq<char>,
    found: Seq<char>,
)
    ensures
        ({
            let probe = CheckView::Probe { key, address, headers, timeout_ms, ttl, fine };
            let login = CheckView::Login { fine };
            let missing = CheckView::Missing { detail: fine };
            let refused = text::has(found, "HTTP 401"@) || text::has(found, "HTTP 403"@);
            &&& health::state_of(name, probe, None) == ("ok"@, fine)
            &&& health::state_of(name, login, None) == ("ok"@, fine)
            &&& health::state_of(name, login, Some(found)) == ("authFailed"@, found)
            &&& health::state_of(name, missing, Some(found)) == ("notConfigured"@, fine)
            &&& health::state_of(name, missing, None) == ("notConfigured"@, fine)
            &&& name == "Lidarr"@ && refused ==> health::state_of(name, probe, Some(found)) == (
                "reachable"@,
                found,
            )
            &&& !(name == "Lidarr"@ && refused) ==> health::state_of(name, probe, Some(found)) == (
                "unreachable"@,
                found,
            )
        }),
{
}

/// A text that is added where it applies is there, and nothing else is lost or added.
proof fn added_where_it_applies(list: Seq<Seq<char>>, applies: bool, s: Seq<char>, x: Seq<char>)
    ensures
        health::with_if(list, applies, s).contains(x) <==> list.contains(x) || (applies && x == s),
{
    if applies {
        let all = list.push(s);
        assert(all[list.len() as int] == s);
        if list.contains(x) {
            let i = list.index_of(x);
            assert(all[i] == x);
        }
        if all.contains(x) {
            let i = all.index_of(x);
            if i < list.len() {
                assert(list[i] == x);
            }
        }
    }
}

/// What is amiss with identity and plays is warned of, each thing exactly where it is so.
pub proof fn missing_keys_are_warned_of(list: Seq<Seq<char>>, cfg: Config, x: Seq<char>)
    ensures
        ({
            let empty = |s: Seq<char>| text::trimmed(s).len() == 0;
            health::listening_warnings(list, cfg).contains(x) <==> list.contains(x) || (
            cfg.acoustid_mode != AcoustIdMode::Disabled && empty(cfg.acoustid_api_key@) && x
                == "acoustidApiKey is empty but acoustidMode is enabled"@) || (cfg.verify_identity
                && empty(cfg.acoustid_url@) && x
                == "verifyIdentity is on but acoustidUrl is empty - files without an MBID/ISRC cannot be verified and will be routed to Singles. Deploy the AcoustID sidecar (acoustid/) and set its URL."@)
                || (cfg.write_playcount && (empty(cfg.lastfm_api_key@) || empty(cfg.lastfm_user@)) && x
                == "writePlaycount requires lastfmApiKey and lastfmUser"@) || ((cfg.lastfm_scrobble
                || cfg.lastfm_import_playcount) && (empty(cfg.lastfm_api_key@) || empty(
                cfg.lastfm_api_secret@,
            ) || empty(cfg.lastfm_password@)) && x
                == "lastfmScrobble / lastfmImportPlaycount need lastfmApiKey + lastfmApiSecret + lastfmPassword (Last.fm session)"@)
        }),
{
    let t1 = cfg.acoustid_mode != AcoustIdMode::Disabled && !text::said(cfg.acoustid_api_key@);
    let s1 = "acoustidApiKey is empty but acoustidMode is enabled"@;
    let a = health::with_if(list, t1, s1);
    let t2 = cfg.verify_identity && !text::said(cfg.acoustid_url@);
    let s2 = "verifyIdentity is on but acoustidUrl is empty - files without an MBID/ISRC cannot be verified and will be routed to Singles. Deploy the AcoustID sidecar (acoustid/) and set its URL."@;
    let b = health::with_if(a, t2, s2);
    let t3 = cfg.write_playcount && (!text::said(cfg.lastfm_api_key@) || !text::said(
        cfg.lastfm_user@,
    ));
    let s3 = "writePlaycount requires lastfmApiKey and lastfmUser"@;
    let c = health::with_if(b, t3, s3);
    let s4 = "lastfmScrobble / lastfmImportPlaycount need lastfmApiKey + lastfmApiSecret + lastfmPassword (Last.fm session)"@;
    added_where_it_applies(list, t1, s1, x);
    added_where_it_applies(a, t2, s2, x);
    added_where_it_applies(b, t3, s3, x);
    added_where_it_applies(c, health::lacks_session(cfg), s4, x);
}

/// Without a library that can be reached there is a warning; and libraries that cannot be written are
/// warned of where files are moved.
pub proof fn libraries_are_warned_of(cfg: Config, facts: Facts)
    ensures
        ({
            let all = health::library_warnings(cfg, facts);
            let none = if facts.has_libraries {
                0int
            } else {
                1int
            };
            &&& !facts.has_libraries ==> all.len() > 0 && all[0]
                == "no libraries are accessible - grant Library Access in the plugin permissions"@
            &&& cfg.mode == Mode::Apply ==> all.len() == none + facts.read_only@.len()
            &&& cfg.mode != Mode::Apply ==> all.len() == none
        }),
{
}

} // verus!
