//! What is told to the outside: the words for each action, and the documents that are posted.

use crate::config::{Config, Mode};
use crate::json;
use crate::json::{Json, JsonView};
use crate::net;
use crate::net::{Body, BodyView, Request};
use crate::organizer;
use crate::organizer::{AlbumInfo, Bucket, FileMove, GroupPlan, GroupPlanView, InfoView, MoveView};
use crate::text;
use vstd::prelude::*;

verus! {

/// The word for a mode.
pub open spec fn mode_word(mode: Mode) -> Seq<char> {
    match mode {
        Mode::DryRun => "dryRun"@,
        Mode::Apply => "apply"@,
    }
}

/// The word for the mode that is set.
pub fn mode_label(cfg: &Config) -> (r: &'static str)
    ensures
        r@ == mode_word(cfg.mode),
{
    match cfg.mode {
        Mode::DryRun => "dryRun",
        Mode::Apply => "apply",
    }
}

// ---------------------------------------------------------------------------
// Actions

/// Something that was done, or would be.
#[derive(Debug, Clone)]
pub enum Action {
    Moved { from: String, to: String },
    WouldMove { from: String, to: String },
    MovedAcross { files: usize, library: String },
    WroteNfo,
    Tagged { tracks: usize, album: String },
    WroteReplayGain { tracks: usize, album: String, album_tags: bool },
    FetchedLyrics { files: usize },
    WroteGenres { source: String, genres: usize },
    WroteAcoustic { tracks: usize },
    WroteEssentia { tracks: usize },
    AskedForResync,
    Refreshed { artist: String },
    RefreshedSource { artist: String },
}

/// The words for an action.
pub open spec fn words_for(a: Action) -> Seq<char> {
    match a {
        Action::Moved { from, to } => "moved "@ + from@ + " -> "@ + to@,
        Action::WouldMove { from, to } => "would move "@ + from@ + " -> "@ + to@,
        Action::MovedAcross { files, library } => "cross-library move: "@ + text::decimal(
            files as nat,
        ) + " file(s) to "@ + library@,
        Action::WroteNfo => "wrote album.nfo"@,
        Action::Tagged { tracks, album } => "auto-tagged "@ + text::decimal(tracks as nat)
            + " track(s) from MusicBrainz ("@ + album@ + ")"@,
        Action::WroteReplayGain { tracks, album, album_tags } => "wrote ReplayGain tags for "@
            + text::decimal(tracks as nat) + " track(s) ("@ + album@ + ")"@ + (if album_tags {
            " + album tags"@
        } else {
            ""@
        }),
        Action::FetchedLyrics { files } => "lyrics: fetched "@ + text::decimal(files as nat)
            + " sidecar(s)"@,
        Action::WroteGenres { source, genres } => "genre: "@ + source@ + " → "@ + text::decimal(
            genres as nat,
        ) + " tag(s)"@,
        Action::WroteAcoustic { tracks } => "acoustic tags: BPM/key/mood for "@ + text::decimal(
            tracks as nat,
        ) + " track(s)"@,
        Action::WroteEssentia { tracks } => "essentia genres: "@ + text::decimal(tracks as nat)
            + " track(s) tagged"@,
        Action::AskedForResync => "audiomuse: requested re-sync"@,
        Action::Refreshed { artist } => "lidarr: RefreshArtist for "@ + artist@,
        Action::RefreshedSource { artist } => "lidarr: RefreshArtist for source artist "@ + artist@,
    }
}

fn around(head: &str, n: usize, tail: &str) -> (r: String)
    ensures
        r@ == head@ + text::decimal(n as nat) + tail@,
{
    let mut s = text::copy(head);
    s.append(text::format_nat(n as u64).as_str());
    s.append(tail);
    s
}

/// Puts an action into words.
pub fn words(a: &Action) -> (r: String)
    ensures
        r@ == words_for(*a),
{
    match a {
        Action::Moved { from, to } => {
            let mut s = text::copy("moved ");
            s.append(from.as_str());
            s.append(" -> ");
            s.append(to.as_str());
            s
        },
        Action::WouldMove { from, to } => {
            let mut s = text::copy("would move ");
            s.append(from.as_str());
            s.append(" -> ");
            s.append(to.as_str());
            s
        },
        Action::MovedAcross { files, library } => {
            let mut s = around("cross-library move: ", *files, " file(s) to ");
            s.append(library.as_str());
            s
        },
        Action::WroteNfo => text::copy("wrote album.nfo"),
        Action::Tagged { tracks, album } => {
            let mut s = around("auto-tagged ", *tracks, " track(s) from MusicBrainz (");
            s.append(album.as_str());
            s.append(")");
            s
        },
        Action::WroteReplayGain { tracks, album, album_tags } => {
            let mut s = around("wrote ReplayGain tags for ", *tracks, " track(s) (");
            s.append(album.as_str());
            s.append(")");
            s.append(
                if *album_tags {
                    " + album tags"
                } else {
                    ""
                },
            );
            s
        },
        Action::FetchedLyrics { files } => around("lyrics: fetched ", *files, " sidecar(s)"),
        Action::WroteGenres { source, genres } => {
            let mut s = text::copy("genre: ");
            s.append(source.as_str());
            s.append(" → ");
            s.append(text::format_nat(*genres as u64).as_str());
            s.append(" tag(s)");
            s
        },
        Action::WroteAcoustic { tracks } => around(
            "acoustic tags: BPM/key/mood for ",
            *tracks,
            " track(s)",
        ),
        Action::WroteEssentia { tracks } => around(
            "essentia genres: ",
            *tracks,
            " track(s) tagged",
        ),
        Action::AskedForResync => text::copy("audiomuse: requested re-sync"),
        Action::Refreshed { artist } => text::join_two(
            "lidarr: RefreshArtist for ",
            artist.as_str(),
        ),
        Action::RefreshedSource { artist } => text::join_two(
            "lidarr: RefreshArtist for source artist ",
            artist.as_str(),
        ),
    }
}

/// The word for a bucket.
pub open spec fn bucket_word(b: Bucket) -> Seq<char> {
    match b {
        Bucket::Soundtrack => "soundtrack"@,
        Bucket::Various => "various"@,
        Bucket::Singles => "singles"@,
        Bucket::Normal => "normal"@,
    }
}

fn bucket_name(b: Bucket) -> (r: &'static str)
    ensures
        r@ == bucket_word(b),
{
    match b {
        Bucket::Soundtrack => "soundtrack",
        Bucket::Various => "various",
        Bucket::Singles => "singles",
        Bucket::Normal => "normal",
    }
}

pub open spec fn year_value(y: Option<u32>) -> JsonView {
    match y {
        Some(n) => JsonView::Int(n as int),
        None => JsonView::Null,
    }
}

fn year_json(y: Option<u32>) -> (r: Json)
    ensures
        r@ == year_value(y),
{
    match y {
        Some(n) => json::number(n as i64),
        None => Json::Null,
    }
}

/// What a phase does, in words.
pub open spec fn phase_words(phase: Seq<char>) -> Seq<char> {
    if phase == "group"@ {
        "Loading indexed files and reading tags from KV store..."@
    } else if phase == "plan"@ {
        "Moving files to organized folders and recording rollback..."@
    } else if phase == "enrich"@ {
        "Running metadata enrichment (artwork, lyrics, genre, etc.)..."@
    } else {
        ""@
    }
}

fn phase_detail(phase: &str) -> (r: &'static str)
    ensures
        r@ == phase_words(phase@),
{
    if text::same(phase, "group") {
        "Loading indexed files and reading tags from KV store..."
    } else if text::same(phase, "plan") {
        "Moving files to organized folders and recording rollback..."
    } else if text::same(phase, "enrich") {
        "Running metadata enrichment (artwork, lyrics, genre, etc.)..."
    } else {
        ""
    }
}

// ---------------------------------------------------------------------------
// Documents

/// An empty list.
fn empty_list() -> (r: Json)
    ensures
        r@ == JsonView::Array(Seq::empty()),
{
    let v: Vec<Json> = Vec::new();
    assert(json::trees(v@) =~= Seq::<JsonView>::empty());
    Json::Array(v)
}

fn label(mode: Mode) -> (r: &'static str)
    ensures
        r@ == mode_word(mode),
{
    match mode {
        Mode::DryRun => "dryRun",
        Mode::Apply => "apply",
    }
}

pub open spec fn action_doc(
    ts: int,
    words: Seq<char>,
) -> JsonView {
    JsonView::Object(
        seq![
            ("ts"@, JsonView::Int(ts)),
            ("text"@, JsonView::Str(words)),
        ],
    )
}

/// An action with its time.
pub fn action(
    ts: i64,
    words: &str,
) -> (r: Json)
    ensures
        r@ == action_doc(
            ts as int,
            words@,
        ),
{
    let mut out: Vec<(String, Json)> = Vec::new();
    json::put(&mut out, "ts", json::number(ts));
    json::put(&mut out, "text", json::string(words));
    proof {
        match action_doc(ts as int, words@) {
            JsonView::Object(m) => {
                assert(json::members(out@) =~= m);
            },
            _ => {},
        }
    }
    Json::Object(out)
}

pub open spec fn batch_doc(
    index: int,
    total: int,
) -> JsonView {
    JsonView::Object(
        seq![
            ("index"@, JsonView::Int(index)),
            ("total"@, JsonView::Int(total)),
        ],
    )
}

/// Which batch of how many.
pub fn batch(
    index: i32,
    total: i32,
) -> (r: Json)
    ensures
        r@ == batch_doc(
            index as int,
            total as int,
        ),
{
    let mut out: Vec<(String, Json)> = Vec::new();
    json::put(&mut out, "index", json::number(index as i64));
    json::put(&mut out, "total", json::number(total as i64));
    proof {
        match batch_doc(index as int, total as int) {
            JsonView::Object(m) => {
                assert(json::members(out@) =~= m);
            },
            _ => {},
        }
    }
    Json::Object(out)
}

pub open spec fn library_doc(
    library_id: int,
    found: int,
    to_move: int,
    moves: int,
    duplicates: int,
) -> JsonView {
    JsonView::Object(
        seq![
            ("id"@, JsonView::Int(library_id)),
            ("albumsFound"@, JsonView::Int(found)),
            ("albumsToMove"@, JsonView::Int(to_move)),
            ("fileMoves"@, JsonView::Int(moves)),
            ("duplicates"@, JsonView::Int(duplicates)),
            ("kept"@, JsonView::Int(0)),
            ("skipped"@, JsonView::Int(0)),
        ],
    )
}

/// What was found in a library.
pub fn library(
    library_id: i32,
    found: usize,
    to_move: usize,
    moves: usize,
    duplicates: usize,
) -> (r: Json)
    ensures
        r@ == library_doc(
            library_id as int,
            found as int,
            to_move as int,
            moves as int,
            duplicates as int,
        ),
{
    let mut out: Vec<(String, Json)> = Vec::new();
    json::put(&mut out, "id", json::number(library_id as i64));
    json::put(&mut out, "albumsFound", json::count(found));
    json::put(&mut out, "albumsToMove", json::count(to_move));
    json::put(&mut out, "fileMoves", json::count(moves));
    json::put(&mut out, "duplicates", json::count(duplicates));
    json::put(&mut out, "kept", json::number(0));
    json::put(&mut out, "skipped", json::number(0));
    proof {
        match library_doc(library_id as int, found as int, to_move as int, moves as int, duplicates as int) {
            JsonView::Object(m) => {
                assert(json::members(out@) =~= m);
            },
            _ => {},
        }
    }
    Json::Object(out)
}

pub open spec fn scanned_doc(
    library_id: int,
    total: int,
) -> JsonView {
    JsonView::Object(
        seq![
            ("id"@, JsonView::Int(library_id)),
            ("albumsFound"@, JsonView::Int(0)),
            ("albumsToMove"@, JsonView::Int(0)),
            ("fileMoves"@, JsonView::Int(0)),
            ("kept"@, JsonView::Int(0)),
            ("skipped"@, JsonView::Int(0)),
            ("duplicates"@, JsonView::Int(0)),
            ("filesScanned"@, JsonView::Int(total)),
        ],
    )
}

/// How far a library was read.
pub fn scanned_library(
    library_id: i32,
    total: i64,
) -> (r: Json)
    ensures
        r@ == scanned_doc(
            library_id as int,
            total as int,
        ),
{
    let mut out: Vec<(String, Json)> = Vec::new();
    json::put(&mut out, "id", json::number(library_id as i64));
    json::put(&mut out, "albumsFound", json::number(0));
    json::put(&mut out, "albumsToMove", json::number(0));
    json::put(&mut out, "fileMoves", json::number(0));
    json::put(&mut out, "kept", json::number(0));
    json::put(&mut out, "skipped", json::number(0));
    json::put(&mut out, "duplicates", json::number(0));
    json::put(&mut out, "filesScanned", json::number(total));
    proof {
        match scanned_doc(library_id as int, total as int) {
            JsonView::Object(m) => {
                assert(json::members(out@) =~= m);
            },
            _ => {},
        }
    }
    Json::Object(out)
}

pub open spec fn move_doc(
    from: Seq<char>,
    to: Seq<char>,
) -> JsonView {
    JsonView::Object(
        seq![
            ("from"@, JsonView::Str(from)),
            ("to"@, JsonView::Str(to)),
        ],
    )
}

/// A move.
pub fn one_move(
    from: &str,
    to: &str,
) -> (r: Json)
    ensures
        r@ == move_doc(
            from@,
            to@,
        ),
{
    let mut out: Vec<(String, Json)> = Vec::new();
    json::put(&mut out, "from", json::string(from));
    json::put(&mut out, "to", json::string(to));
    proof {
        match move_doc(from@, to@) {
            JsonView::Object(m) => {
                assert(json::members(out@) =~= m);
            },
            _ => {},
        }
    }
    Json::Object(out)
}

pub open spec fn moves_docs(moves: Seq<MoveView>) -> Seq<JsonView> {
    moves.map_values(|m: MoveView| move_doc(m.from, m.to))
}

fn moves_json(moves: &Vec<FileMove>) -> (r: Json)
    ensures
        r@ == JsonView::Array(moves_docs(organizer::move_views(moves@))),
{
    let ghost all = moves_docs(organizer::move_views(moves@));
    let mut out: Vec<Json> = Vec::new();
    let mut i: usize = 0;
    assert(json::trees(out@) =~= all.take(0));
    while i < moves.len()
        invariant
            i <= moves@.len(),
            all == moves_docs(organizer::move_views(moves@)),
            json::trees(out@) == all.take(i as int),
        decreases moves@.len() - i,
    {
        json::append(&mut out, one_move(moves[i].from.as_str(), moves[i].to.as_str()));
        proof {
            assert(organizer::move_views(moves@)[i as int] == moves@[i as int]@);
            assert(all.take(i + 1) =~= all.take(i as int).push(all[i as int]));
        }
        i = i + 1;
    }
    assert(all.take(i as int) =~= all);
    Json::Array(out)
}

/// The plan of a group, as it is shown.
pub open spec fn plan_doc(info: InfoView, p: GroupPlanView) -> JsonView {
    JsonView::Object(
        seq![
            ("kind"@, JsonView::Str(bucket_word(p.bucket))),
            ("album"@, JsonView::Str(info.album)),
            ("albumArtist"@, JsonView::Str(info.album_artist)),
            ("year"@, year_value(info.year)),
            ("trackCount"@, JsonView::Int(info.track_count as int)),
            ("target"@, JsonView::Str(p.target_dir)),
            ("moves"@, JsonView::Array(moves_docs(p.moves))),
            ("duplicates"@, JsonView::Int(p.duplicates.len() as int)),
            ("fillers"@, JsonView::Int(p.fillers.len() as int)),
        ],
    )
}

pub fn plan_json(info: &AlbumInfo, plan: &GroupPlan) -> (r: Json)
    ensures
        r@ == plan_doc(info@, plan@),
{
    let mut out: Vec<(String, Json)> = Vec::new();
    json::put(&mut out, "kind", json::string(bucket_name(plan.bucket)));
    json::put(&mut out, "album", json::string(info.album.as_str()));
    json::put(&mut out, "albumArtist", json::string(info.album_artist.as_str()));
    json::put(&mut out, "year", year_json(info.year));
    json::put(&mut out, "trackCount", json::count(info.track_count));
    json::put(&mut out, "target", json::string(plan.target_dir.as_str()));
    json::put(&mut out, "moves", moves_json(&plan.moves));
    json::put(&mut out, "duplicates", json::count(plan.duplicates.len()));
    json::put(&mut out, "fillers", json::count(plan.fillers.len()));
    proof {
        match plan_doc(info@, plan@) {
            JsonView::Object(m) => {
                assert(json::members(out@) =~= m);
            },
            _ => {},
        }
    }
    Json::Object(out)
}

pub open spec fn report_doc(
    ts: int,
    mode: Mode,
    dry: bool,
    batch: JsonView,
    run_id: Seq<char>,
    text: Seq<char>,
    plans: JsonView,
    actions: JsonView,
    library: JsonView,
) -> JsonView {
    JsonView::Object(
        seq![
            ("ts"@, JsonView::Int(ts)),
            ("mode"@, JsonView::Str(mode_word(mode))),
            ("kind"@, JsonView::Str("report"@)),
            ("dryRun"@, JsonView::Bool(dry)),
            ("batch"@, batch),
            ("runId"@, JsonView::Str(run_id)),
            ("text"@, JsonView::Str(text)),
            ("plans"@, plans),
            ("actions"@, actions),
            ("libraries"@, JsonView::Array(seq![library])),
        ],
    )
}

/// A report with what belongs to it.
pub fn report_envelope(
    ts: i64,
    mode: Mode,
    dry: bool,
    batch: Json,
    run_id: &str,
    text: &str,
    plans: Json,
    actions: Json,
    library: Json,
) -> (r: Json)
    ensures
        r@ == report_doc(
            ts as int,
            mode,
            dry,
            batch@,
            run_id@,
            text@,
            plans@,
            actions@,
            library@,
        ),
{
    let ghost shown_batch = batch@;
    let ghost shown_plans = plans@;
    let ghost shown_actions = actions@;
    let ghost shown_library = library@;
    let mut out: Vec<(String, Json)> = Vec::new();
    json::put(&mut out, "ts", json::number(ts));
    json::put(&mut out, "mode", json::string(label(mode)));
    json::put(&mut out, "kind", json::string("report"));
    json::put(&mut out, "dryRun", Json::Bool(dry));
    json::put(&mut out, "batch", batch);
    json::put(&mut out, "runId", json::string(run_id));
    json::put(&mut out, "text", json::string(text));
    json::put(&mut out, "plans", plans);
    json::put(&mut out, "actions", actions);
    json::put(&mut out, "libraries", json::one(library));
    proof {
        match report_doc(ts as int, mode, dry, shown_batch, run_id@, text@, shown_plans, shown_actions, shown_library) {
            JsonView::Object(m) => {
                assert(json::members(out@) =~= m);
            },
            _ => {},
        }
    }
    Json::Object(out)
}

pub open spec fn plan_status_doc(
    ts: int,
    batch: JsonView,
    library: JsonView,
    to_move: int,
    moves: int,
    plans: JsonView,
    actions: JsonView,
    integrations: JsonView,
    tasks: JsonView,
) -> JsonView {
    JsonView::Object(
        seq![
            ("ts"@, JsonView::Int(ts)),
            ("mode"@, JsonView::Str("apply"@)),
            ("inProgress"@, JsonView::Bool(true)),
            ("phase"@, JsonView::Str("plan"@)),
            ("batch"@, batch),
            ("libraries"@, JsonView::Array(seq![library])),
            ("totalAlbumsToMove"@, JsonView::Int(to_move)),
            ("totalFileMoves"@, JsonView::Int(moves)),
            ("plans"@, plans),
            ("actions"@, actions),
            ("warnings"@, JsonView::Array(Seq::empty())),
            ("integrations"@, integrations),
            ("tasks"@, tasks),
        ],
    )
}

/// How far planning a batch is.
pub fn plan_status(
    ts: i64,
    batch: Json,
    library: Json,
    to_move: usize,
    moves: usize,
    plans: Json,
    actions: Json,
    integrations: Json,
    tasks: Json,
) -> (r: Json)
    ensures
        r@ == plan_status_doc(
            ts as int,
            batch@,
            library@,
            to_move as int,
            moves as int,
            plans@,
            actions@,
            integrations@,
            tasks@,
        ),
{
    let ghost shown_batch = batch@;
    let ghost shown_library = library@;
    let ghost shown_plans = plans@;
    let ghost shown_actions = actions@;
    let ghost shown_integrations = integrations@;
    let ghost shown_tasks = tasks@;
    let mut out: Vec<(String, Json)> = Vec::new();
    json::put(&mut out, "ts", json::number(ts));
    json::put(&mut out, "mode", json::string("apply"));
    json::put(&mut out, "inProgress", Json::Bool(true));
    json::put(&mut out, "phase", json::string("plan"));
    json::put(&mut out, "batch", batch);
    json::put(&mut out, "libraries", json::one(library));
    json::put(&mut out, "totalAlbumsToMove", json::count(to_move));
    json::put(&mut out, "totalFileMoves", json::count(moves));
    json::put(&mut out, "plans", plans);
    json::put(&mut out, "actions", actions);
    json::put(&mut out, "warnings", empty_list());
    json::put(&mut out, "integrations", integrations);
    json::put(&mut out, "tasks", tasks);
    proof {
        match plan_status_doc(ts as int, shown_batch, shown_library, to_move as int, moves as int, shown_plans, shown_actions, shown_integrations, shown_tasks) {
            JsonView::Object(m) => {
                assert(json::members(out@) =~= m);
            },
            _ => {},
        }
    }
    Json::Object(out)
}

pub open spec fn enrich_status_doc(
    ts: int,
    batch: JsonView,
    integrations: JsonView,
    tasks: JsonView,
) -> JsonView {
    JsonView::Object(
        seq![
            ("ts"@, JsonView::Int(ts)),
            ("mode"@, JsonView::Str("apply"@)),
            ("inProgress"@, JsonView::Bool(false)),
            ("phase"@, JsonView::Str("enrich"@)),
            ("batch"@, batch),
            ("warnings"@, JsonView::Array(Seq::empty())),
            ("integrations"@, integrations),
            ("tasks"@, tasks),
        ],
    )
}

/// That a batch was enriched.
pub fn enrich_status(
    ts: i64,
    batch: Json,
    integrations: Json,
    tasks: Json,
) -> (r: Json)
    ensures
        r@ == enrich_status_doc(
            ts as int,
            batch@,
            integrations@,
            tasks@,
        ),
{
    let ghost shown_batch = batch@;
    let ghost shown_integrations = integrations@;
    let ghost shown_tasks = tasks@;
    let mut out: Vec<(String, Json)> = Vec::new();
    json::put(&mut out, "ts", json::number(ts));
    json::put(&mut out, "mode", json::string("apply"));
    json::put(&mut out, "inProgress", Json::Bool(false));
    json::put(&mut out, "phase", json::string("enrich"));
    json::put(&mut out, "batch", batch);
    json::put(&mut out, "warnings", empty_list());
    json::put(&mut out, "integrations", integrations);
    json::put(&mut out, "tasks", tasks);
    proof {
        match enrich_status_doc(ts as int, shown_batch, shown_integrations, shown_tasks) {
            JsonView::Object(m) => {
                assert(json::members(out@) =~= m);
            },
            _ => {},
        }
    }
    Json::Object(out)
}

pub open spec fn scan_status_doc(
    ts: int,
    mode: Mode,
    library_id: int,
    total: int,
    chunk: int,
    current_file: Seq<char>,
    integrations: JsonView,
    tasks: JsonView,
) -> JsonView {
    JsonView::Object(
        seq![
            ("ts"@, JsonView::Int(ts)),
            ("mode"@, JsonView::Str(mode_word(mode))),
            ("inProgress"@, JsonView::Bool(true)),
            ("phase"@, JsonView::Str("scan"@)),
            ("filesScanned"@, JsonView::Int(total)),
            ("chunkSize"@, JsonView::Int(chunk)),
            ("currentFile"@, JsonView::Str(current_file)),
            ("libraries"@, JsonView::Array(seq![scanned_doc(library_id, total)])),
            ("warnings"@, JsonView::Array(Seq::empty())),
            ("integrations"@, integrations),
            ("tasks"@, tasks),
        ],
    )
}

/// How far reading a library is.
pub fn post_scan_status(
    ts: i64,
    mode: Mode,
    library_id: i32,
    total: i64,
    chunk: usize,
    current_file: &str,
    integrations: Json,
    tasks: Json,
) -> (r: Json)
    ensures
        r@ == scan_status_doc(
            ts as int,
            mode,
            library_id as int,
            total as int,
            chunk as int,
            current_file@,
            integrations@,
            tasks@,
        ),
{
    let ghost shown_integrations = integrations@;
    let ghost shown_tasks = tasks@;
    let mut out: Vec<(String, Json)> = Vec::new();
    json::put(&mut out, "ts", json::number(ts));
    json::put(&mut out, "mode", json::string(label(mode)));
    json::put(&mut out, "inProgress", Json::Bool(true));
    json::put(&mut out, "phase", json::string("scan"));
    json::put(&mut out, "filesScanned", json::number(total));
    json::put(&mut out, "chunkSize", json::count(chunk));
    json::put(&mut out, "currentFile", json::string(current_file));
    json::put(&mut out, "libraries", json::one(scanned_library(library_id, total)));
    json::put(&mut out, "warnings", empty_list());
    json::put(&mut out, "integrations", integrations);
    json::put(&mut out, "tasks", tasks);
    proof {
        match scan_status_doc(ts as int, mode, library_id as int, total as int, chunk as int, current_file@, shown_integrations, shown_tasks) {
            JsonView::Object(m) => {
                assert(json::members(out@) =~= m);
            },
            _ => {},
        }
    }
    Json::Object(out)
}

pub open spec fn phase_status_doc(
    ts: int,
    mode: Mode,
    library_id: int,
    phase: Seq<char>,
    integrations: JsonView,
    tasks: JsonView,
) -> JsonView {
    JsonView::Object(
        seq![
            ("ts"@, JsonView::Int(ts)),
            ("mode"@, JsonView::Str(mode_word(mode))),
            ("inProgress"@, JsonView::Bool(true)),
            ("phase"@, JsonView::Str(phase)),
            ("phaseDetail"@, JsonView::Str(phase_words(phase))),
            ("libraries"@, JsonView::Array(seq![library_doc(library_id, 0, 0, 0, 0)])),
            ("warnings"@, JsonView::Array(Seq::empty())),
            ("integrations"@, integrations),
            ("tasks"@, tasks),
        ],
    )
}

/// Which phase a library is in.
pub fn post_phase_status(
    ts: i64,
    mode: Mode,
    library_id: i32,
    phase: &str,
    integrations: Json,
    tasks: Json,
) -> (r: Json)
    ensures
        r@ == phase_status_doc(
            ts as int,
            mode,
            library_id as int,
            phase@,
            integrations@,
            tasks@,
        ),
{
    let ghost shown_integrations = integrations@;
    let ghost shown_tasks = tasks@;
    let mut out: Vec<(String, Json)> = Vec::new();
    json::put(&mut out, "ts", json::number(ts));
    json::put(&mut out, "mode", json::string(label(mode)));
    json::put(&mut out, "inProgress", Json::Bool(true));
    json::put(&mut out, "phase", json::string(phase));
    json::put(&mut out, "phaseDetail", json::string(phase_detail(phase)));
    json::put(&mut out, "libraries", json::one(library(library_id, 0, 0, 0, 0)));
    json::put(&mut out, "warnings", empty_list());
    json::put(&mut out, "integrations", integrations);
    json::put(&mut out, "tasks", tasks);
    proof {
        match phase_status_doc(ts as int, mode, library_id as int, phase@, shown_integrations, shown_tasks) {
            JsonView::Object(m) => {
                assert(json::members(out@) =~= m);
            },
            _ => {},
        }
    }
    Json::Object(out)
}

pub open spec fn init_doc(
    cfg: Config,
    ts: int,
    integrations: JsonView,
    warnings: JsonView,
) -> JsonView {
    JsonView::Object(
        seq![
            ("ts"@, JsonView::Int(ts)),
            ("mode"@, JsonView::Str(mode_word(cfg.mode))),
            ("inProgress"@, JsonView::Bool(false)),
            ("integrations"@, integrations),
            ("octoFiestaUrl"@, JsonView::Str(cfg.octo_fiesta_url@)),
            ("octoFiestaProvider"@, JsonView::Str(cfg.octo_fiesta_provider@)),
            ("warnings"@, warnings),
        ],
    )
}

/// The state of the services when the plugin starts.
pub fn init_status(
    cfg: &Config,
    ts: i64,
    integrations: Json,
    warnings: Json,
) -> (r: Json)
    ensures
        r@ == init_doc(
            *cfg,
            ts as int,
            integrations@,
            warnings@,
        ),
{
    let ghost shown_integrations = integrations@;
    let ghost shown_warnings = warnings@;
    let mut out: Vec<(String, Json)> = Vec::new();
    json::put(&mut out, "ts", json::number(ts));
    json::put(&mut out, "mode", json::string(mode_label(cfg)));
    json::put(&mut out, "inProgress", Json::Bool(false));
    json::put(&mut out, "integrations", integrations);
    json::put(&mut out, "octoFiestaUrl", json::string(cfg.octo_fiesta_url.as_str()));
    json::put(&mut out, "octoFiestaProvider", json::string(cfg.octo_fiesta_provider.as_str()));
    json::put(&mut out, "warnings", warnings);
    proof {
        match init_doc(*cfg, ts as int, shown_integrations, shown_warnings) {
            JsonView::Object(m) => {
                assert(json::members(out@) =~= m);
            },
            _ => {},
        }
    }
    Json::Object(out)
}

pub open spec fn deferred_doc(
    cfg: Config,
    ts: int,
    warnings: JsonView,
    integrations: JsonView,
    tasks: JsonView,
) -> JsonView {
    JsonView::Object(
        seq![
            ("ts"@, JsonView::Int(ts)),
            ("mode"@, JsonView::Str(mode_word(cfg.mode))),
            ("inProgress"@, JsonView::Bool(false)),
            ("deferredUntilIdle"@, JsonView::Bool(true)),
            ("warnings"@, warnings),
            ("integrations"@, integrations),
            ("octoFiestaUrl"@, JsonView::Str(cfg.octo_fiesta_url@)),
            ("octoFiestaProvider"@, JsonView::Str(cfg.octo_fiesta_provider@)),
            ("tasks"@, tasks),
        ],
    )
}

/// That a run waits until nothing is played.
pub fn deferred_status(
    cfg: &Config,
    ts: i64,
    warnings: Json,
    integrations: Json,
    tasks: Json,
) -> (r: Json)
    ensures
        r@ == deferred_doc(
            *cfg,
            ts as int,
            warnings@,
            integrations@,
            tasks@,
        ),
{
    let ghost shown_warnings = warnings@;
    let ghost shown_integrations = integrations@;
    let ghost shown_tasks = tasks@;
    let mut out: Vec<(String, Json)> = Vec::new();
    json::put(&mut out, "ts", json::number(ts));
    json::put(&mut out, "mode", json::string(mode_label(cfg)));
    json::put(&mut out, "inProgress", Json::Bool(false));
    json::put(&mut out, "deferredUntilIdle", Json::Bool(true));
    json::put(&mut out, "warnings", warnings);
    json::put(&mut out, "integrations", integrations);
    json::put(&mut out, "octoFiestaUrl", json::string(cfg.octo_fiesta_url.as_str()));
    json::put(&mut out, "octoFiestaProvider", json::string(cfg.octo_fiesta_provider.as_str()));
    json::put(&mut out, "tasks", tasks);
    proof {
        match deferred_doc(*cfg, ts as int, shown_warnings, shown_integrations, shown_tasks) {
            JsonView::Object(m) => {
                assert(json::members(out@) =~= m);
            },
            _ => {},
        }
    }
    Json::Object(out)
}

pub open spec fn skipped_doc(
    cfg: Config,
    ts: int,
    provider: Seq<char>,
    warnings: JsonView,
    integrations: JsonView,
    tasks: JsonView,
) -> JsonView {
    JsonView::Object(
        seq![
            ("ts"@, JsonView::Int(ts)),
            ("mode"@, JsonView::Str(mode_word(cfg.mode))),
            ("inProgress"@, JsonView::Bool(false)),
            ("metaSkipped"@, JsonView::Str(provider)),
            ("warnings"@, warnings),
            ("integrations"@, integrations),
            ("octoFiestaUrl"@, JsonView::Str(cfg.octo_fiesta_url@)),
            ("octoFiestaProvider"@, JsonView::Str(cfg.octo_fiesta_provider@)),
            ("tasks"@, tasks),
        ],
    )
}

/// That a run was left out because a service is offline.
pub fn skipped_status(
    cfg: &Config,
    ts: i64,
    provider: &str,
    warnings: Json,
    integrations: Json,
    tasks: Json,
) -> (r: Json)
    ensures
        r@ == skipped_doc(
            *cfg,
            ts as int,
            provider@,
            warnings@,
            integrations@,
            tasks@,
        ),
{
    let ghost shown_warnings = warnings@;
    let ghost shown_integrations = integrations@;
    let ghost shown_tasks = tasks@;
    let mut out: Vec<(String, Json)> = Vec::new();
    json::put(&mut out, "ts", json::number(ts));
    json::put(&mut out, "mode", json::string(mode_label(cfg)));
    json::put(&mut out, "inProgress", Json::Bool(false));
    json::put(&mut out, "metaSkipped", json::string(provider));
    json::put(&mut out, "warnings", warnings);
    json::put(&mut out, "integrations", integrations);
    json::put(&mut out, "octoFiestaUrl", json::string(cfg.octo_fiesta_url.as_str()));
    json::put(&mut out, "octoFiestaProvider", json::string(cfg.octo_fiesta_provider.as_str()));
    json::put(&mut out, "tasks", tasks);
    proof {
        match skipped_doc(*cfg, ts as int, provider@, shown_warnings, shown_integrations, shown_tasks) {
            JsonView::Object(m) => {
                assert(json::members(out@) =~= m);
            },
            _ => {},
        }
    }
    Json::Object(out)
}

pub open spec fn rolled_back_doc(
    cfg: Config,
    ts: int,
    run_id: Seq<char>,
    errors: int,
) -> JsonView {
    JsonView::Object(
        seq![
            ("ts"@, JsonView::Int(ts)),
            ("mode"@, JsonView::Str(mode_word(cfg.mode))),
            ("inProgress"@, JsonView::Bool(false)),
            ("rollbackOfRun"@, JsonView::Str(run_id)),
            ("errors"@, JsonView::Int(errors)),
        ],
    )
}

/// That a run was rolled back.
pub fn rollback_status(
    cfg: &Config,
    ts: i64,
    run_id: &str,
    errors: usize,
) -> (r: Json)
    ensures
        r@ == rolled_back_doc(
            *cfg,
            ts as int,
            run_id@,
            errors as int,
        ),
{
    let mut out: Vec<(String, Json)> = Vec::new();
    json::put(&mut out, "ts", json::number(ts));
    json::put(&mut out, "mode", json::string(mode_label(cfg)));
    json::put(&mut out, "inProgress", Json::Bool(false));
    json::put(&mut out, "rollbackOfRun", json::string(run_id));
    json::put(&mut out, "errors", json::count(errors));
    proof {
        match rolled_back_doc(*cfg, ts as int, run_id@, errors as int) {
            JsonView::Object(m) => {
                assert(json::members(out@) =~= m);
            },
            _ => {},
        }
    }
    Json::Object(out)
}

pub open spec fn task_doc(
    ts: int,
    kind: Seq<char>,
    library_id: int,
    state: Seq<char>,
    message: Seq<char>,
) -> JsonView {
    JsonView::Object(
        seq![
            ("ts"@, JsonView::Int(ts)),
            ("kind"@, JsonView::Str(kind)),
            ("libraryId"@, JsonView::Int(library_id)),
            ("state"@, JsonView::Str(state)),
            ("message"@, JsonView::Str(message)),
        ],
    )
}

/// An entry of the task log.
pub fn task_entry(
    ts: i64,
    kind: &str,
    library_id: i32,
    state: &str,
    message: &str,
) -> (r: Json)
    ensures
        r@ == task_doc(
            ts as int,
            kind@,
            library_id as int,
            state@,
            message@,
        ),
{
    let mut out: Vec<(String, Json)> = Vec::new();
    json::put(&mut out, "ts", json::number(ts));
    json::put(&mut out, "kind", json::string(kind));
    json::put(&mut out, "libraryId", json::number(library_id as i64));
    json::put(&mut out, "state", json::string(state));
    json::put(&mut out, "message", json::string(message));
    proof {
        match task_doc(ts as int, kind@, library_id as int, state@, message@) {
            JsonView::Object(m) => {
                assert(json::members(out@) =~= m);
            },
            _ => {},
        }
    }
    Json::Object(out)
}

pub open spec fn health_doc(
    name: Seq<char>,
    state: Seq<char>,
    detail: Seq<char>,
) -> JsonView {
    JsonView::Object(
        seq![
            ("name"@, JsonView::Str(name)),
            ("state"@, JsonView::Str(state)),
            ("detail"@, JsonView::Str(detail)),
        ],
    )
}

/// The state of a service.
pub fn health_entry(
    name: &str,
    state: &str,
    detail: &str,
) -> (r: Json)
    ensures
        r@ == health_doc(
            name@,
            state@,
            detail@,
        ),
{
    let mut out: Vec<(String, Json)> = Vec::new();
    json::put(&mut out, "name", json::string(name));
    json::put(&mut out, "state", json::string(state));
    json::put(&mut out, "detail", json::string(detail));
    proof {
        match health_doc(name@, state@, detail@) {
            JsonView::Object(m) => {
                assert(json::members(out@) =~= m);
            },
            _ => {},
        }
    }
    Json::Object(out)
}

pub open spec fn rated_doc(
    name: Seq<char>,
    path: Seq<char>,
    stars: Seq<char>,
    plays: int,
) -> JsonView {
    JsonView::Object(
        seq![
            ("name"@, JsonView::Str(name)),
            ("path"@, JsonView::Str(path)),
            ("stars"@, JsonView::Real(stars)),
            ("plays"@, JsonView::Int(plays)),
        ],
    )
}

/// A song with its stars, in the text of the number, and its plays.
pub fn rated_entry(
    name: &str,
    path: &str,
    stars: &str,
    plays: i64,
) -> (r: Json)
    ensures
        r@ == rated_doc(
            name@,
            path@,
            stars@,
            plays as int,
        ),
{
    let mut out: Vec<(String, Json)> = Vec::new();
    json::put(&mut out, "name", json::string(name));
    json::put(&mut out, "path", json::string(path));
    json::put(&mut out, "stars", Json::Real(text::copy(stars)));
    json::put(&mut out, "plays", json::number(plays));
    proof {
        match rated_doc(name@, path@, stars@, plays as int) {
            JsonView::Object(m) => {
                assert(json::members(out@) =~= m);
            },
            _ => {},
        }
    }
    Json::Object(out)
}

pub open spec fn heartbeat_doc(
    cfg: Config,
    ts: int,
    plays: int,
    skips: int,
    picks: int,
    filtered: int,
    ratings: int,
    meta_writes: int,
    now_playing: JsonView,
    top_rated: JsonView,
    warnings: JsonView,
    integrations: JsonView,
    tasks: JsonView,
) -> JsonView {
    JsonView::Object(
        seq![
            ("ts"@, JsonView::Int(ts)),
            ("mode"@, JsonView::Str(mode_word(cfg.mode))),
            ("inProgress"@, JsonView::Bool(false)),
            ("phase"@, JsonView::Str("stats"@)),
            ("plays"@, JsonView::Int(plays)),
            ("skips"@, JsonView::Int(skips)),
            ("topPicks"@, JsonView::Int(picks)),
            ("filtered"@, JsonView::Int(filtered)),
            ("ratings"@, JsonView::Int(ratings)),
            ("metaWrites"@, JsonView::Int(meta_writes)),
            ("nowPlaying"@, now_playing),
            ("topRated"@, top_rated),
            ("warnings"@, warnings),
            ("integrations"@, integrations),
            ("octoFiestaUrl"@, JsonView::Str(cfg.octo_fiesta_url@)),
            ("octoFiestaProvider"@, JsonView::Str(cfg.octo_fiesta_provider@)),
            ("tasks"@, tasks),
        ],
    )
}

/// What listening brought, between the runs.
pub fn heartbeat(
    cfg: &Config,
    ts: i64,
    plays: i64,
    skips: i64,
    picks: usize,
    filtered: usize,
    ratings: usize,
    meta_writes: usize,
    now_playing: Json,
    top_rated: Json,
    warnings: Json,
    integrations: Json,
    tasks: Json,
) -> (r: Json)
    ensures
        r@ == heartbeat_doc(
            *cfg,
            ts as int,
            plays as int,
            skips as int,
            picks as int,
            filtered as int,
            ratings as int,
            meta_writes as int,
            now_playing@,
            top_rated@,
            warnings@,
            integrations@,
            tasks@,
        ),
{
    let ghost shown_now_playing = now_playing@;
    let ghost shown_top_rated = top_rated@;
    let ghost shown_warnings = warnings@;
    let ghost shown_integrations = integrations@;
    let ghost shown_tasks = tasks@;
    let mut out: Vec<(String, Json)> = Vec::new();
    json::put(&mut out, "ts", json::number(ts));
    json::put(&mut out, "mode", json::string(mode_label(cfg)));
    json::put(&mut out, "inProgress", Json::Bool(false));
    json::put(&mut out, "phase", json::string("stats"));
    json::put(&mut out, "plays", json::number(plays));
    json::put(&mut out, "skips", json::number(skips));
    json::put(&mut out, "topPicks", json::count(picks));
    json::put(&mut out, "filtered", json::count(filtered));
    json::put(&mut out, "ratings", json::count(ratings));
    json::put(&mut out, "metaWrites", json::count(meta_writes));
    json::put(&mut out, "nowPlaying", now_playing);
    json::put(&mut out, "topRated", top_rated);
    json::put(&mut out, "warnings", warnings);
    json::put(&mut out, "integrations", integrations);
    json::put(&mut out, "octoFiestaUrl", json::string(cfg.octo_fiesta_url.as_str()));
    json::put(&mut out, "octoFiestaProvider", json::string(cfg.octo_fiesta_provider.as_str()));
    json::put(&mut out, "tasks", tasks);
    proof {
        match heartbeat_doc(*cfg, ts as int, plays as int, skips as int, picks as int, filtered as int, ratings as int, meta_writes as int, shown_now_playing, shown_top_rated, shown_warnings, shown_integrations, shown_tasks) {
            JsonView::Object(m) => {
                assert(json::members(out@) =~= m);
            },
            _ => {},
        }
    }
    Json::Object(out)
}

/// What a pass found in a library.
#[derive(Debug, Clone)]
pub struct LibraryStatus {
    pub library_id: i32,
    pub name: String,
    pub albums_found: usize,
    pub albums_to_move: usize,
    pub file_moves: usize,
    pub kept: usize,
    pub skipped: usize,
}

pub open spec fn status_entry(s: LibraryStatus) -> JsonView {
    JsonView::Object(
        seq![
            ("id"@, JsonView::Int(s.library_id as int)),
            ("name"@, JsonView::Str(s.name@)),
            ("albumsFound"@, JsonView::Int(s.albums_found as int)),
            ("albumsToMove"@, JsonView::Int(s.albums_to_move as int)),
            ("fileMoves"@, JsonView::Int(s.file_moves as int)),
            ("kept"@, JsonView::Int(s.kept as int)),
            ("skipped"@, JsonView::Int(s.skipped as int)),
        ],
    )
}

pub open spec fn status_entries(v: Seq<LibraryStatus>) -> Seq<JsonView> {
    v.map_values(|s: LibraryStatus| status_entry(s))
}

pub open spec fn total_to_move(v: Seq<LibraryStatus>) -> int
    decreases v.len(),
{
    if v.len() == 0 {
        0
    } else {
        total_to_move(v.drop_last()) + v.last().albums_to_move
    }
}

pub open spec fn total_moves(v: Seq<LibraryStatus>) -> int
    decreases v.len(),
{
    if v.len() == 0 {
        0
    } else {
        total_moves(v.drop_last()) + v.last().file_moves
    }
}

fn entry_json(s: &LibraryStatus) -> (r: Json)
    ensures
        r@ == status_entry(*s),
{
    let mut out: Vec<(String, Json)> = Vec::new();
    json::put(&mut out, "id", json::number(s.library_id as i64));
    json::put(&mut out, "name", json::string(s.name.as_str()));
    json::put(&mut out, "albumsFound", json::count(s.albums_found));
    json::put(&mut out, "albumsToMove", json::count(s.albums_to_move));
    json::put(&mut out, "fileMoves", json::count(s.file_moves));
    json::put(&mut out, "kept", json::count(s.kept));
    json::put(&mut out, "skipped", json::count(s.skipped));
    proof {
        match status_entry(*s) {
            JsonView::Object(m) => {
                assert(json::members(out@) =~= m);
            },
            _ => {},
        }
    }
    Json::Object(out)
}

/// The state of a pass, as it is kept and shown.
pub open spec fn status_doc(
    cfg: Config,
    ts: int,
    in_progress: bool,
    statuses: Seq<LibraryStatus>,
    batch: Option<(int, int)>,
    run_id: Option<Seq<char>>,
    warnings: JsonView,
    integrations: JsonView,
    tasks: JsonView,
) -> JsonView {
    JsonView::Object(
        seq![
            ("ts"@, JsonView::Int(ts)),
            ("mode"@, JsonView::Str(mode_word(cfg.mode))),
            ("inProgress"@, JsonView::Bool(in_progress)),
            ("runId"@, json::text_or_null(run_id)),
            (
                "batch"@,
                match batch {
                    Some((i, n)) => batch_doc(i, n),
                    None => JsonView::Null,
                },
            ),
            ("libraries"@, JsonView::Array(status_entries(statuses))),
            ("totalAlbumsToMove"@, JsonView::Int(total_to_move(statuses))),
            ("totalFileMoves"@, JsonView::Int(total_moves(statuses))),
            ("warnings"@, warnings),
            ("integrations"@, integrations),
            ("octoFiestaUrl"@, JsonView::Str(cfg.octo_fiesta_url@)),
            ("octoFiestaProvider"@, JsonView::Str(cfg.octo_fiesta_provider@)),
            ("persistenceBackend"@, JsonView::Str(cfg.persistence_backend@)),
            ("tasks"@, tasks),
        ],
    )
}

proof fn totals_fit(v: Seq<LibraryStatus>)
    ensures
        0 <= total_to_move(v) <= v.len() * usize::MAX,
        0 <= total_moves(v) <= v.len() * usize::MAX,
    decreases v.len(),
{
    if v.len() > 0 {
        totals_fit(v.drop_last());
        assert((v.len() - 1) * usize::MAX + usize::MAX == v.len() * usize::MAX)
            by (nonlinear_arith);
    }
}

/// The state of a pass.
pub fn status_json(
    cfg: &Config,
    ts: i64,
    in_progress: bool,
    statuses: &Vec<LibraryStatus>,
    batch_of: Option<(i32, i32)>,
    run_id: Option<&str>,
    warnings: Json,
    integrations: Json,
    tasks: Json,
) -> (r: Json)
    requires
        statuses@.len() <= u32::MAX,
    ensures
        r@ == status_doc(
            *cfg,
            ts as int,
            in_progress,
            statuses@,
            match batch_of {
                Some(p) => Some((p.0 as int, p.1 as int)),
                None => None,
            },
            match run_id {
                Some(s) => Some(s@),
                None => None,
            },
            warnings@,
            integrations@,
            tasks@,
        ),
{
    let ghost shown = (warnings@, integrations@, tasks@);
    let ghost all = status_entries(statuses@);
    let mut libraries: Vec<Json> = Vec::new();
    let mut to_move: i128 = 0;
    let mut moves: i128 = 0;
    let mut i: usize = 0;
    assert(json::trees(libraries@) =~= all.take(0));
    while i < statuses.len()
        invariant
            i <= statuses@.len() <= u32::MAX,
            all == status_entries(statuses@),
            json::trees(libraries@) == all.take(i as int),
            to_move == total_to_move(statuses@.take(i as int)),
            moves == total_moves(statuses@.take(i as int)),
        decreases statuses@.len() - i,
    {
        let s = &statuses[i];
        proof {
            totals_fit(statuses@.take(i as int));
            assert(i * usize::MAX <= u32::MAX * usize::MAX) by (nonlinear_arith)
                requires
                    i <= u32::MAX,
            ;
            assert(statuses@.take(i + 1).drop_last() =~= statuses@.take(i as int));
            assert(statuses@.take(i + 1).last() == *s);
            assert(all.take(i + 1) =~= all.take(i as int).push(status_entry(*s)));
        }
        to_move = to_move + s.albums_to_move as i128;
        moves = moves + s.file_moves as i128;
        json::append(&mut libraries, entry_json(s));
        i = i + 1;
    }
    proof {
        assert(statuses@.take(i as int) =~= statuses@);
        assert(all.take(i as int) =~= all);
    }
    let mut out: Vec<(String, Json)> = Vec::new();
    json::put(&mut out, "ts", json::number(ts));
    json::put(&mut out, "mode", json::string(mode_label(cfg)));
    json::put(&mut out, "inProgress", Json::Bool(in_progress));
    json::put(&mut out, "runId", json::nullable(run_id));
    json::put(
        &mut out,
        "batch",
        match batch_of {
            Some(p) => batch(p.0, p.1),
            None => Json::Null,
        },
    );
    json::put(&mut out, "libraries", Json::Array(libraries));
    json::put(&mut out, "totalAlbumsToMove", Json::Int(to_move));
    json::put(&mut out, "totalFileMoves", Json::Int(moves));
    json::put(&mut out, "warnings", warnings);
    json::put(&mut out, "integrations", integrations);
    json::put(&mut out, "octoFiestaUrl", json::string(cfg.octo_fiesta_url.as_str()));
    json::put(&mut out, "octoFiestaProvider", json::string(cfg.octo_fiesta_provider.as_str()));
    json::put(&mut out, "persistenceBackend", json::string(cfg.persistence_backend.as_str()));
    json::put(&mut out, "tasks", tasks);
    proof {
        let b = match batch_of {
            Some(p) => Some((p.0 as int, p.1 as int)),
            None => None,
        };
        let id = match run_id {
            Some(s) => Some(s@),
            None => None,
        };
        match status_doc(*cfg, ts as int, in_progress, statuses@, b, id, shown.0, shown.1, shown.2) {
            JsonView::Object(m) => {
                assert(json::members(out@) =~= m);
            },
            _ => {},
        }
    }
    Json::Object(out)
}

/// The headers of a post.
pub open spec fn post_headers(token: Seq<char>) -> Seq<(Seq<char>, Seq<char>)> {
    if token.len() == 0 {
        seq![("Content-Type"@, "text/plain"@)]
    } else {
        seq![
            ("Content-Type"@, "text/plain"@),
            ("X-Token"@, token),
            ("Authorization"@, "Bearer "@ + token),
        ]
    }
}

/// The post of a log or a report; none where no address is set.
pub fn post_webhook(cfg: &Config, body: String) -> (r: Option<Request>)
    ensures
        ({
            let place = text::trimmed(cfg.log_webhook_url@);
            match r {
                Some(q) => place.len() > 0 && q@ == net::posting(
                    place,
                    post_headers(cfg.log_webhook_token@),
                    BodyView::Text(body@),
                    10_000,
                ),
                None => place.len() == 0,
            }
        }),
{
    let place = text::trim(cfg.log_webhook_url.as_str());
    if text::length(place.as_str()) == 0 {
        return None;
    }
    let mut sent = net::no_headers();
    net::put_header(&mut sent, "Content-Type", "text/plain");
    if text::length(cfg.log_webhook_token.as_str()) > 0 {
        net::put_header(&mut sent, "X-Token", cfg.log_webhook_token.as_str());
        net::put_header(
            &mut sent,
            "Authorization",
            text::join_two("Bearer ", cfg.log_webhook_token.as_str()).as_str(),
        );
    }
    assert(organizer::pair_views(sent@) =~= post_headers(cfg.log_webhook_token@));
    Some(net::post(place, sent, Body::Text(body), 10_000))
}

// ---------------------------------------------------------------------------
// The task log

/// The latest twenty entries, the newest first.
pub open spec fn logged(entry: JsonView, log: Seq<JsonView>) -> Seq<JsonView> {
    let all = seq![entry] + log;
    if all.len() > 20 {
        all.take(20)
    } else {
        all
    }
}

/// The task log with a new entry.
pub fn record_task(entry: Json, log: Vec<Json>) -> (r: Vec<Json>)
    ensures
        json::trees(r@) == logged(entry@, json::trees(log@)),
{
    let ghost first = entry@;
    let ghost rest = json::trees(log@);
    let ghost given = log@;
    let mut all = log;
    all.insert(0, entry);
    proof {
        json::trees_index(all@);
        json::trees_index(given);
        assert forall|i: int| 0 <= i < all@.len() implies json::trees(all@)[i] == (seq![first]
            + rest)[i] by {
            assert(json::trees(all@)[i] == json::tree(all@[i]));
            if i > 0 {
                assert(all@[i] == given[i - 1]);
                assert(rest[i - 1] == json::tree(given[i - 1]));
            }
        }
        assert(json::trees(all@) =~= seq![first] + rest);
    }
    if all.len() > 20 {
        let ghost whole = all@;
        all.truncate(20);
        proof {
            json::trees_index(all@);
            json::trees_index(whole);
            assert forall|i: int| 0 <= i < 20 implies json::trees(all@)[i] == json::trees(whole)[i] by {
                assert(all@[i] == whole[i]);
                assert(json::trees(all@)[i] == json::tree(all@[i]));
                assert(json::trees(whole)[i] == json::tree(whole[i]));
            }
            assert(json::trees(all@) =~= json::trees(whole).take(20));
        }
    }
    all
}

// ---------------------------------------------------------------------------
// Laws

/// The task log never grows beyond twenty entries, and the newest stands first.
pub proof fn the_log_stays_short(entry: JsonView, log: Seq<JsonView>)
    ensures
        logged(entry, log).len() <= 20,
        logged(entry, log)[0] == entry,
        log.len() < 20 ==> logged(entry, log) == seq![entry] + log,
{
}

} // verus!
