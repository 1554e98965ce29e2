//! A pass over the libraries: when it runs, what it waits for, and what it says.

use crate::config::{AcoustIdMode, Config, LidarrMode, Mode, PrimarySource};
use crate::favorites::SyncSummary;
use crate::json;
use crate::json::{Json, JsonView};
use crate::net;
use crate::net::Request;
use crate::organizer;
use crate::scan::ScanOutcome;
use crate::state;
use crate::state::ApplyRecord;
use crate::template;
use crate::text;
use vstd::prelude::*;

verus! {

// ---------------------------------------------------------------------------
// Tasks

/// What a task of the queue carries.
#[derive(Debug, Clone)]
pub struct TaskPayload {
    /// What is to be done: read a part of a library, group its files, plan a batch, ...
    pub kind: String,
    pub library_id: i32,
    pub dir: String,
    pub run_id: String,
    pub dirs: Vec<String>,
    /// Groups of files, for planning.
    pub groups: Vec<Vec<String>>,
    pub batch_index: i32,
    pub batch_total: i32,
}

/// A task of the given kind that carries nothing else.
pub fn enqueue(kind: &str, library_id: i32, dir: &str, run_id: &str) -> (r: TaskPayload)
    ensures
        r.kind@ == kind@,
        r.library_id == library_id,
        r.dir@ == dir@,
        r.run_id@ == run_id@,
        r.dirs@.len() == 0,
        r.groups@.len() == 0,
        r.batch_index == -1,
        r.batch_total == -1,
{
    TaskPayload {
        kind: text::copy(kind),
        library_id,
        dir: text::copy(dir),
        run_id: text::copy(run_id),
        dirs: Vec::new(),
        groups: Vec::new(),
        batch_index: -1,
        batch_total: -1,
    }
}

/// The kinds of tasks.
#[derive(Debug, Clone, Copy, PartialEq, Eq, Structural)]
pub enum TaskKind {
    Scan,
    Group,
    Plan,
    FavoritesSync,
    Cleanup,
    Migrate,
    Stats,
}

pub open spec fn kind_named(word: Seq<char>) -> Option<TaskKind> {
    if word == "scan"@ {
        Some(TaskKind::Scan)
    } else if word == "group"@ {
        Some(TaskKind::Group)
    } else if word == "plan"@ {
        Some(TaskKind::Plan)
    } else if word == "favsync"@ {
        Some(TaskKind::FavoritesSync)
    } else if word == "cleanup"@ {
        Some(TaskKind::Cleanup)
    } else if word == "migrate"@ {
        Some(TaskKind::Migrate)
    } else if word == "stats"@ {
        Some(TaskKind::Stats)
    } else {
        None
    }
}

/// The kind of a task, or what is said of one that is unknown.
pub fn task_kind(word: &str) -> (r: Result<TaskKind, String>)
    ensures
        match r {
            Ok(k) => kind_named(word@) == Some(k),
            Err(e) => kind_named(word@) is None && e@ == "unknown task kind "@ + word@,
        },
{
    if text::same(word, "scan") {
        Ok(TaskKind::Scan)
    } else if text::same(word, "group") {
        Ok(TaskKind::Group)
    } else if text::same(word, "plan") {
        Ok(TaskKind::Plan)
    } else if text::same(word, "favsync") {
        Ok(TaskKind::FavoritesSync)
    } else if text::same(word, "cleanup") {
        Ok(TaskKind::Cleanup)
    } else if text::same(word, "migrate") {
        Ok(TaskKind::Migrate)
    } else if text::same(word, "stats") {
        Ok(TaskKind::Stats)
    } else {
        Err(text::join_two("unknown task kind ", word))
    }
}

fn counted(head: &str, n: usize, tail: &str) -> (r: String)
    ensures
        r@ == head@ + text::decimal(n as nat) + tail@,
{
    let mut s = text::copy(head);
    s.append(text::format_nat(n as u64).as_str());
    s.append(tail);
    s
}

/// What is said of a part of a library that was read.
pub open spec fn scan_words(outcome: ScanOutcome, n: int, total: int) -> Seq<char> {
    let count = text::decimal(n as nat);
    let all = text::decimal_int(total);
    match outcome {
        ScanOutcome::More => "scanned "@ + count + " files this chunk ("@ + all
            + " indexed so far - more remain)"@,
        ScanOutcome::Done => "scan complete: "@ + count + " files in the final chunk ("@ + all
            + " indexed)"@,
        ScanOutcome::Paused => "scan paused at maxScanEntries: "@ + count + " this chunk ("@ + all
            + " indexed - resumes next run)"@,
    }
}

pub fn scan_message(outcome: ScanOutcome, n: usize, total: i64) -> (r: String)
    ensures
        r@ == scan_words(outcome, n as int, total as int),
{
    let all = text::format_int(total);
    match outcome {
        ScanOutcome::More => {
            let mut s = counted("scanned ", n, " files this chunk (");
            s.append(all.as_str());
            s.append(" indexed so far - more remain)");
            s
        },
        ScanOutcome::Done => {
            let mut s = counted("scan complete: ", n, " files in the final chunk (");
            s.append(all.as_str());
            s.append(" indexed)");
            s
        },
        ScanOutcome::Paused => {
            let mut s = counted("scan paused at maxScanEntries: ", n, " this chunk (");
            s.append(all.as_str());
            s.append(" indexed - resumes next run)");
            s
        },
    }
}

/// What is said of files that were grouped.
pub fn group_message(files: usize, tasks: usize) -> (r: String)
    ensures
        r@ == "grouped "@ + text::decimal(files as nat) + " files into "@ + text::decimal(
            tasks as nat,
        ) + " plan tasks"@,
{
    let mut s = counted("grouped ", files, " files into ");
    s.append(text::format_nat(tasks as u64).as_str());
    s.append(" plan tasks");
    s
}

/// What is said of a batch that was planned.
pub fn plan_message(index: i32, total: i32) -> (r: String)
    ensures
        r@ == "plan batch "@ + text::decimal_int(index + 1) + "/"@ + text::decimal_int(
            if total < 1 {
                1
            } else {
                total as int
            },
        ) + " done"@,
{
    let n: i64 = if total < 1 {
        1
    } else {
        total as i64
    };
    let mut s = text::copy("plan batch ");
    s.append(text::format_int(index as i64 + 1).as_str());
    s.append("/");
    s.append(text::format_int(n).as_str());
    s.append(" done");
    s
}

/// What is said of favorites that were brought together.
pub fn favorites_message(sum: &SyncSummary) -> (r: String)
    ensures
        r@ == "favorites sync: "@ + text::decimal(sum.nav_to_lastfm as nat) + " -> Last.fm, "@
            + text::decimal(sum.lastfm_to_nav as nat) + " -> Navidrome, "@ + text::decimal(
            sum.errors as nat,
        ) + " errors"@,
{
    let mut s = counted("favorites sync: ", sum.nav_to_lastfm, " -> Last.fm, ");
    s.append(text::format_nat(sum.lastfm_to_nav as u64).as_str());
    s.append(" -> Navidrome, ");
    s.append(text::format_nat(sum.errors as u64).as_str());
    s.append(" errors");
    s
}

/// What is said of folders without music.
pub fn cleanup_message(n: usize, mode: Mode) -> (r: String)
    ensures
        r@ == "cleanup: "@ + text::decimal(n as nat) + " no-audio folder(s) "@ + (if mode
            == Mode::Apply {
            "deleted"@
        } else {
            "would be deleted (dry-run)"@
        }),
{
    let mut s = counted("cleanup: ", n, " no-audio folder(s) ");
    s.append(
        if mode == Mode::Apply {
            "deleted"
        } else {
            "would be deleted (dry-run)"
        },
    );
    s
}

// ---------------------------------------------------------------------------
// Schedules

/// Every so many minutes, an hour at most.
pub open spec fn stats_schedule(cfg: Config) -> Option<Seq<char>> {
    if cfg.playback_stats_enabled && cfg.stats_poll_minutes > 0 {
        Some(
            "*/"@ + text::decimal_int(
                if cfg.stats_poll_minutes > 60 {
                    60
                } else {
                    cfg.stats_poll_minutes as int
                },
            ) + " * * * *"@,
        )
    } else {
        None
    }
}

/// When listening is looked at, where that is switched on.
pub fn stats_cron(cfg: &Config) -> (r: Option<String>)
    ensures
        text::view_opt(r) == stats_schedule(*cfg),
{
    if !cfg.playback_stats_enabled || cfg.stats_poll_minutes <= 0 {
        return None;
    }
    let n: i64 = if cfg.stats_poll_minutes > 60 {
        60
    } else {
        cfg.stats_poll_minutes as i64
    };
    let mut s = text::copy("*/");
    s.append(text::format_int(n).as_str());
    s.append(" * * * *");
    Some(s)
}

/// At four o'clock every so many days, thirty at most.
pub open spec fn trim_schedule(cfg: Config) -> Option<Seq<char>> {
    if cfg.trim_missing_days > 0 {
        Some(
            "0 4 */"@ + text::decimal_int(
                if cfg.trim_missing_days > 30 {
                    30
                } else {
                    cfg.trim_missing_days as int
                },
            ) + " * *"@,
        )
    } else {
        None
    }
}

/// When the list of missing files is emptied, where that is switched on.
pub fn trim_cron(cfg: &Config) -> (r: Option<String>)
    ensures
        text::view_opt(r) == trim_schedule(*cfg),
{
    if cfg.trim_missing_days <= 0 {
        return None;
    }
    let n: i64 = if cfg.trim_missing_days > 30 {
        30
    } else {
        cfg.trim_missing_days
    };
    let mut s = text::copy("0 4 */");
    s.append(text::format_int(n).as_str());
    s.append(" * *");
    Some(s)
}

/// What a call of the scheduler asks for.
#[derive(Debug, Clone, Copy, PartialEq, Eq, Structural)]
pub enum Call {
    Stats,
    Trim,
    Rescan,
    Pass,
}

/// What a call with the given payload asks for.
pub fn on_callback(cfg: &Config, payload: &str) -> (r: Call)
    ensures
        r == if payload@ == "stats"@ && cfg.playback_stats_enabled {
            Call::Stats
        } else if payload@ == "trim"@ && cfg.trim_missing_days > 0 {
            Call::Trim
        } else if payload@ == "rescan"@ {
            Call::Rescan
        } else {
            Call::Pass
        },
{
    if text::same(payload, "stats") && cfg.playback_stats_enabled {
        Call::Stats
    } else if text::same(payload, "trim") && cfg.trim_missing_days > 0 {
        Call::Trim
    } else if text::same(payload, "rescan") {
        Call::Rescan
    } else {
        Call::Pass
    }
}

// ---------------------------------------------------------------------------
// Users and players

pub open spec fn first_name(names: Seq<Seq<char>>) -> Option<Seq<char>> {
    if names.len() > 0 && names[0].len() > 0 {
        Some(names[0])
    } else {
        None
    }
}

fn first_named(names: &Vec<String>) -> (r: Option<String>)
    ensures
        text::view_opt(r) == first_name(text::views(names@)),
{
    if names.len() > 0 {
        assert(text::views(names@)[0] == names@[0]@);
        if text::length(names[0].as_str()) > 0 {
            return Some(names[0].clone());
        }
    }
    None
}

/// The user to act for: the one that is set where it is among the users, else the first
/// administrator, else the first user. Where no users are listed the one that is set is taken.
pub open spec fn acting_user(
    configured: Seq<char>,
    users: Seq<Seq<char>>,
    admins: Seq<Seq<char>>,
) -> Seq<char> {
    if users.len() == 0 || (configured.len() > 0 && users.contains(configured)) {
        configured
    } else {
        match first_name(admins) {
            Some(a) => a,
            None => match first_name(users) {
                Some(u) => u,
                None => configured,
            },
        }
    }
}

/// The user to act for, given the users and administrators that may be acted for.
pub fn scan_user(cfg: &Config, users: &Vec<String>, admins: &Vec<String>) -> (r: String)
    ensures
        r@ == acting_user(
            text::trimmed(cfg.scan_user@),
            text::views(users@),
            text::views(admins@),
        ),
{
    let configured = text::trim(cfg.scan_user.as_str());
    if users.len() == 0 {
        return configured;
    }
    if text::length(configured.as_str()) > 0 && organizer::among_texts(users, configured.as_str()) {
        return configured;
    }
    match first_named(admins) {
        Some(a) => a,
        None => match first_named(users) {
            Some(u) => u,
            None => configured,
        },
    }
}

/// A player that plays or is about to.
pub open spec fn plays(entry: JsonView) -> bool {
    let state = json::string_of(json::member(entry, "state"@));
    state == Some("playing"@) || state == Some("starting"@)
}

/// The players of an answer.
pub open spec fn players_in(answer: Option<JsonView>) -> Seq<JsonView> {
    json::items_of(
        json::member_opt(
            json::member_opt(json::member_opt(answer, "subsonic-response"@), "nowPlaying"@),
            "entry"@,
        ),
    )
}

/// Nothing is played.
pub open spec fn quiet(answer: Option<JsonView>) -> bool {
    forall|i: int| 0 <= i < players_in(answer).len() ==> !plays(#[trigger] players_in(answer)[i])
}

/// Whether nothing is played, as the answer says. Paused players do not count.
pub fn is_quiet(answer: &Option<Json>) -> (r: bool)
    ensures
        r == quiet(json::doc_view(*answer)),
{
    let entries = json::get_opt(
        json::get_opt(json::get_opt(json::root(answer), "subsonic-response"), "nowPlaying"),
        "entry",
    );
    match json::items(entries) {
        Some(a) => {
            let ghost all = json::trees(a@);
            let mut i: usize = 0;
            proof {
                json::trees_index(a@);
            }
            while i < a.len()
                invariant
                    i <= a@.len(),
                    all == json::trees(a@),
                    all == players_in(json::doc_view(*answer)),
                    all.len() == a@.len(),
                    forall|k: int| 0 <= k < a@.len() ==> all[k] == json::tree(#[trigger] a@[k]),
                    forall|k: int| 0 <= k < i ==> !plays(#[trigger] all[k]),
                decreases a@.len() - i,
            {
                assert(all[i as int] == json::tree(a@[i as int]));
                match json::str_value(a[i].get("state")) {
                    Some(s) => if text::same(s.as_str(), "playing") || text::same(
                        s.as_str(),
                        "starting",
                    ) {
                        assert(plays(players_in(json::doc_view(*answer))[i as int]));
                        return false;
                    },
                    None => {},
                }
                i = i + 1;
            }
            true
        },
        None => true,
    }
}

/// Whether a run may start: always where it need not wait, where nobody can be asked, or where
/// there was no answer; else where nothing is played.
pub fn is_idle(cfg: &Config, user: &str, answer: &Option<String>) -> (r: bool)
    ensures
        r == (!cfg.run_only_when_idle || user@.len() == 0 || match text::view_opt(*answer) {
            Some(s) => quiet(json::document(s)),
            None => true,
        }),
{
    if !cfg.run_only_when_idle || text::length(user) == 0 {
        return true;
    }
    match answer {
        Some(s) => is_quiet(&json::parse(s.as_str())),
        None => true,
    }
}

// ---------------------------------------------------------------------------
// Services that a run needs

/// A service that a run cannot do without.
#[derive(Debug, Clone, Copy, PartialEq, Eq, Structural)]
pub enum Provider {
    AcoustId,
    MusicBrainz,
    Lidarr,
}

impl Provider {
    pub open spec fn label(self) -> Seq<char> {
        match self {
            Provider::AcoustId => "AcoustID"@,
            Provider::MusicBrainz => "MusicBrainz"@,
            Provider::Lidarr => "Lidarr"@,
        }
    }

    pub fn name(self) -> (r: &'static str)
        ensures
            r@ == self.label(),
    {
        match self {
            Provider::AcoustId => "AcoustID",
            Provider::MusicBrainz => "MusicBrainz",
            Provider::Lidarr => "Lidarr",
        }
    }
}

/// Whether a run needs the service.
pub open spec fn needs(cfg: Config, p: Provider) -> bool {
    match p {
        Provider::AcoustId => cfg.verify_identity && cfg.acoustid_mode != AcoustIdMode::Disabled
            && text::said(cfg.acoustid_url@),
        Provider::MusicBrainz => cfg.classify_from_mb || cfg.genre_from@ == "musicbrainz"@
            || cfg.genre_from@ == "both"@ || cfg.primary_source == PrimarySource::MusicBrainz,
        Provider::Lidarr => cfg.lidarr_mode != LidarrMode::Disabled && text::said(cfg.lidarr_url@),
    }
}

fn is_needed(cfg: &Config, p: Provider) -> (r: bool)
    ensures
        r == needs(*cfg, p),
{
    match p {
        Provider::AcoustId => cfg.verify_identity && cfg.acoustid_mode != AcoustIdMode::Disabled
            && text::is_said(cfg.acoustid_url.as_str()),
        Provider::MusicBrainz => cfg.classify_from_mb || text::same(
            cfg.genre_from.as_str(),
            "musicbrainz",
        ) || text::same(cfg.genre_from.as_str(), "both") || cfg.primary_source
            == PrimarySource::MusicBrainz,
        Provider::Lidarr => cfg.lidarr_mode != LidarrMode::Disabled && text::is_said(
            cfg.lidarr_url.as_str(),
        ),
    }
}

pub open spec fn needed_of(cfg: Config, all: Seq<Provider>) -> Seq<Provider>
    decreases all.len(),
{
    if all.len() == 0 {
        Seq::empty()
    } else if needs(cfg, all.last()) {
        needed_of(cfg, all.drop_last()).push(all.last())
    } else {
        needed_of(cfg, all.drop_last())
    }
}

pub open spec fn all_providers() -> Seq<Provider> {
    seq![Provider::AcoustId, Provider::MusicBrainz, Provider::Lidarr]
}

/// The services that a run needs, in the order in which they are checked. The first that cannot
/// be reached holds the run up.
pub fn required_meta_unreachable(cfg: &Config) -> (r: Vec<Provider>)
    ensures
        r@ == needed_of(*cfg, all_providers()),
{
    let mut all: Vec<Provider> = Vec::new();
    all.push(Provider::AcoustId);
    all.push(Provider::MusicBrainz);
    all.push(Provider::Lidarr);
    assert(all@ =~= all_providers());
    let mut out: Vec<Provider> = Vec::new();
    let mut i: usize = 0;
    assert(all@.take(0) =~= Seq::<Provider>::empty());
    while i < all.len()
        invariant
            i <= all@.len(),
            all@ == all_providers(),
            out@ == needed_of(*cfg, all@.take(i as int)),
        decreases all@.len() - i,
    {
        proof {
            assert(all@.take(i + 1).drop_last() =~= all@.take(i as int));
            assert(all@.take(i + 1).last() == all@[i as int]);
        }
        if is_needed(cfg, all[i]) {
            out.push(all[i]);
        }
        i = i + 1;
    }
    assert(all@.take(i as int) =~= all@);
    out
}

// ---------------------------------------------------------------------------
// A pass

/// What is known so far when a pass begins.
#[derive(Debug, Clone, Copy)]
pub struct Known {
    /// How many libraries can be reached.
    pub libraries: Option<usize>,
    /// Whether nothing is played.
    pub idle: Option<bool>,
    /// Whether the services were checked, and which one cannot be reached.
    pub services: Option<Option<Provider>>,
}

/// What a pass does next.
#[derive(Debug, Clone, Copy, PartialEq, Eq, Structural)]
pub enum PassStep {
    /// Undo the run that is set.
    RollBack,
    /// Find out which libraries can be reached.
    ListLibraries,
    /// There is nothing to organize.
    NothingToOrganize,
    /// Find out whether something is played.
    CheckIdle,
    /// Something is played: try again after so many seconds.
    Defer { seconds: i32 },
    /// Find out whether the services can be reached.
    CheckServices,
    /// A service cannot be reached: try again after so many seconds.
    Skip { provider: Provider, seconds: i32 },
    /// Begin.
    Start,
}

/// What a pass does next: a pending rollback comes before everything. Else there must be
/// libraries, nothing may be played, and the services that are needed must answer.
pub open spec fn next_step(cfg: Config, known: Known) -> PassStep {
    if cfg.rollback_run_id@.len() > 0 {
        PassStep::RollBack
    } else {
        match known.libraries {
            None => PassStep::ListLibraries,
            Some(n) => if n == 0 {
                PassStep::NothingToOrganize
            } else {
                match known.idle {
                    None => PassStep::CheckIdle,
                    Some(idle) => if !idle {
                        PassStep::Defer { seconds: 120 }
                    } else if !cfg.meta_gate_enabled {
                        PassStep::Start
                    } else {
                        match known.services {
                            None => PassStep::CheckServices,
                            Some(Some(provider)) => PassStep::Skip { provider, seconds: 300 },
                            Some(None) => PassStep::Start,
                        }
                    },
                }
            },
        }
    }
}

pub fn run_pass(cfg: &Config, known: &Known) -> (r: PassStep)
    ensures
        r == next_step(*cfg, *known),
{
    if text::length(cfg.rollback_run_id.as_str()) > 0 {
        return PassStep::RollBack;
    }
    match known.libraries {
        None => PassStep::ListLibraries,
        Some(n) => if n == 0 {
            PassStep::NothingToOrganize
        } else {
            match known.idle {
                None => PassStep::CheckIdle,
                Some(idle) => if !idle {
                    PassStep::Defer { seconds: 120 }
                } else if !cfg.meta_gate_enabled {
                    PassStep::Start
                } else {
                    match known.services {
                        None => PassStep::CheckServices,
                        Some(Some(provider)) => PassStep::Skip { provider, seconds: 300 },
                        Some(None) => PassStep::Start,
                    }
                },
            }
        },
    }
}

/// What is posted where a run waits.
pub fn deferred_post(status: &str) -> (r: String)
    ensures
        r@ == "nd-organizer: run deferred - playback active.\n"@ + status@,
{
    text::join_two("nd-organizer: run deferred - playback active.\n", status)
}

/// What is posted where a run is left out.
pub fn skipped_post(provider: Provider, status: &str) -> (r: String)
    ensures
        r@ == "nd-organizer: run skipped - "@ + provider.label()
            + " is offline; retrying later so it never acts on missing metadata.\n"@ + status@,
{
    let mut s = text::copy("nd-organizer: run skipped - ");
    s.append(provider.name());
    s.append(" is offline; retrying later so it never acts on missing metadata.\n");
    s.append(status);
    s
}

/// The number of albums that the pass may plan, where it is limited.
pub fn album_budget(cfg: &Config) -> (r: Option<String>)
    ensures
        text::view_opt(r) == if cfg.max_albums_per_run > 0 {
            Some(text::decimal(cfg.max_albums_per_run as nat))
        } else {
            None
        },
{
    if cfg.max_albums_per_run > 0 {
        Some(text::format_nat(cfg.max_albums_per_run as u64))
    } else {
        None
    }
}

/// The run of a library: the one that was begun, else a new one named after the time. The second
/// value tells whether it is new.
pub fn current_run_id(stored: &Option<String>, now: i64) -> (r: (String, bool))
    ensures
        match text::view_opt(*stored) {
            Some(s) => if s.len() > 0 {
                r.0@ == s && !r.1
            } else {
                r.0@ == "run-"@ + text::decimal_int(now as int) && r.1
            },
            None => r.0@ == "run-"@ + text::decimal_int(now as int) && r.1,
        },
{
    match stored {
        Some(s) => if text::length(s.as_str()) > 0 {
            return (s.clone(), false);
        },
        None => {},
    }
    (state::new_run_id(now), true)
}

// ---------------------------------------------------------------------------
// Undoing a run

/// What is to be done about a run that is to be undone.
#[derive(Debug)]
pub enum Rollback {
    /// No run is set.
    Nothing,
    /// The run was undone before.
    AlreadyDone { run_id: String },
    /// The run is undone.
    Undo { run_id: String },
}

/// What is to be done, given whether the run was undone before.
pub fn do_rollback(cfg: &Config, done: bool) -> (r: Rollback)
    ensures
        ({
            let id = text::trimmed(cfg.rollback_run_id@);
            match r {
                Rollback::Nothing => id.len() == 0,
                Rollback::AlreadyDone { run_id } => id.len() > 0 && done && run_id@ == id,
                Rollback::Undo { run_id } => id.len() > 0 && !done && run_id@ == id,
            }
        }),
{
    let run_id = text::trim(cfg.rollback_run_id.as_str());
    if text::length(run_id.as_str()) == 0 {
        Rollback::Nothing
    } else if done {
        Rollback::AlreadyDone { run_id }
    } else {
        Rollback::Undo { run_id }
    }
}

/// The records of a library, in their order.
pub open spec fn records_of(recs: Seq<ApplyRecord>, library_id: i32) -> Seq<ApplyRecord>
    decreases recs.len(),
{
    if recs.len() == 0 {
        Seq::empty()
    } else if recs.last().library_id == library_id {
        records_of(recs.drop_last(), library_id).push(recs.last())
    } else {
        records_of(recs.drop_last(), library_id)
    }
}

pub open spec fn chosen(recs: Seq<ApplyRecord>, at: Seq<usize>) -> Seq<ApplyRecord> {
    at.map_values(|i: usize| recs[i as int])
}

/// Where the records of a library stand.
pub fn library_records(recs: &Vec<ApplyRecord>, library_id: i32) -> (r: Vec<usize>)
    ensures
        forall|k: int| 0 <= k < r@.len() ==> (#[trigger] r@[k]) < recs@.len(),
        chosen(recs@, r@) == records_of(recs@, library_id),
{
    let mut out: Vec<usize> = Vec::new();
    let mut i: usize = 0;
    assert(recs@.take(0) =~= Seq::<ApplyRecord>::empty());
    assert(chosen(recs@, out@) =~= records_of(recs@.take(0), library_id));
    while i < recs.len()
        invariant
            i <= recs@.len(),
            forall|k: int| 0 <= k < out@.len() ==> (#[trigger] out@[k]) < recs@.len(),
            chosen(recs@, out@) == records_of(recs@.take(i as int), library_id),
        decreases recs@.len() - i,
    {
        proof {
            assert(recs@.take(i + 1).drop_last() =~= recs@.take(i as int));
            assert(recs@.take(i + 1).last() == recs@[i as int]);
        }
        if recs[i].library_id == library_id {
            let ghost before = out@;
            out.push(i);
            assert(chosen(recs@, out@) =~= chosen(recs@, before).push(recs@[i as int]));
        }
        i = i + 1;
    }
    assert(recs@.take(i as int) =~= recs@);
    out
}

/// What is said of a library that could not be undone.
pub open spec fn undo_failure(library_id: int, cause: Option<Seq<char>>) -> Seq<char> {
    match cause {
        Some(e) => "library "@ + text::decimal_int(library_id) + ": "@ + e,
        None => "library "@ + text::decimal_int(library_id) + " has no filesystem mount"@,
    }
}

/// What is said of a library: the cause, or that it has no files here.
pub fn undo_failed(library_id: i32, cause: &Option<String>) -> (r: String)
    ensures
        r@ == undo_failure(library_id as int, text::view_opt(*cause)),
{
    let mut s = text::copy("library ");
    s.append(text::format_int(library_id as i64).as_str());
    match cause {
        Some(e) => {
            s.append(": ");
            s.append(e.as_str());
        },
        None => {
            s.append(" has no filesystem mount");
        },
    }
    s
}

// ---------------------------------------------------------------------------
// Libraries and scans

/// How a library can be used.
pub open spec fn access(mount: Seq<char>, writable: bool) -> Seq<char> {
    if mount.len() == 0 {
        "NO ACCESS (grant library access in the plugin settings)"@
    } else if writable {
        "READ-WRITE"@
    } else {
        "READ-ONLY (grant write access via: navidrome plugin edit nd-organizer --write-access)"@
    }
}

/// A line on a library.
pub fn log_library_inventory(id: i32, name: &str, path: &str, mount: &str, writable: bool) -> (r:
    String)
    ensures
        r@ == "library "@ + text::decimal_int(id as int) + " \""@ + name@ + "\" path="@ + (
        if path@.len() == 0 {
            "?"@
        } else {
            path@
        }) + " access="@ + access(mount@, writable),
{
    let mut s = text::copy("library ");
    s.append(text::format_int(id as i64).as_str());
    s.append(" \"");
    s.append(name);
    s.append("\" path=");
    s.append(
        if text::length(path) == 0 {
            "?"
        } else {
            path
        },
    );
    s.append(" access=");
    s.append(
        if text::length(mount) == 0 {
            "NO ACCESS (grant library access in the plugin settings)"
        } else if writable {
            "READ-WRITE"
        } else {
            "READ-ONLY (grant write access via: navidrome plugin edit nd-organizer --write-access)"
        },
    );
    s
}

/// When Navidrome looks at the files again.
#[derive(Debug, Clone, Copy, PartialEq, Eq, Structural)]
pub enum Rescan {
    Never,
    Later { seconds: i32 },
    Now,
}

/// When Navidrome looks at the files again after they were moved. Several changes in a row make
/// one scan where it is put off.
pub fn trigger_navidrome_scan(cfg: &Config) -> (r: Rescan)
    ensures
        r == if !cfg.trigger_scan_after_run {
            Rescan::Never
        } else if cfg.scan_debounce_seconds > 0 {
            Rescan::Later { seconds: cfg.scan_debounce_seconds }
        } else {
            Rescan::Now
        },
{
    if !cfg.trigger_scan_after_run {
        Rescan::Never
    } else if cfg.scan_debounce_seconds > 0 {
        Rescan::Later { seconds: cfg.scan_debounce_seconds }
    } else {
        Rescan::Now
    }
}

/// The call that makes Navidrome look at its files; none without a user.
pub fn rescan_now(user: &str) -> (r: Option<String>)
    ensures
        text::view_opt(r) == if user@.len() == 0 {
            None
        } else {
            Some("startScan?u="@ + user@)
        },
{
    if text::length(user) == 0 {
        None
    } else {
        Some(text::join_two("startScan?u=", user))
    }
}

// ---------------------------------------------------------------------------
// Lidarr's names

/// Whether Lidarr's patterns for names are used.
pub fn uses_lidarr_names(cfg: &Config) -> (r: bool)
    ensures
        r == (cfg.use_lidarr_naming_schema && cfg.lidarr_url@.len() > 0 && cfg.lidarr_api_key@.len()
            > 0),
{
    cfg.use_lidarr_naming_schema && text::length(cfg.lidarr_url.as_str()) > 0 && text::length(
        cfg.lidarr_api_key.as_str(),
    ) > 0
}

/// The question for Lidarr's patterns.
pub fn naming_request(cfg: &Config, base: &str) -> (r: Request)
    ensures
        r@ == net::asking(
            base@ + "/api/v1/config/naming"@,
            seq![("X-Api-Key"@, cfg.lidarr_api_key@)],
            15_000,
        ),
{
    let mut h = net::no_headers();
    net::put_header(&mut h, "X-Api-Key", cfg.lidarr_api_key.as_str());
    assert(organizer::pair_views(h@) =~= seq![("X-Api-Key"@, cfg.lidarr_api_key@)]);
    net::ask(text::join_two(base, "/api/v1/config/naming"), h, 15_000)
}

/// Lidarr's patterns as they are used here, for folders and for files.
pub open spec fn patterns_of(doc: Option<JsonView>) -> Option<(Seq<char>, Seq<char>)> {
    match (
        json::string_of(json::member_opt(doc, "artistFolderFormat"@)),
        json::string_of(json::member_opt(doc, "albumFolderFormat"@)),
        json::string_of(json::member_opt(doc, "standardTrackFormat"@)),
    ) {
        (Some(artist), Some(album), Some(track)) => Some(
            (
                template::translated(artist) + "/"@ + template::translated(album),
                template::translated(track),
            ),
        ),
        _ => None,
    }
}

/// Lidarr's patterns, given what it said; none where one of them is missing.
pub fn lidarr_patterns(doc: &Option<Json>) -> (r: Option<(String, String)>)
    ensures
        match r {
            Some(p) => patterns_of(json::doc_view(*doc)) == Some((p.0@, p.1@)),
            None => patterns_of(json::doc_view(*doc)) is None,
        },
{
    let root = json::root(doc);
    match (
        json::str_value(json::get_opt(root, "artistFolderFormat")),
        json::str_value(json::get_opt(root, "albumFolderFormat")),
        json::str_value(json::get_opt(root, "standardTrackFormat")),
    ) {
        (Some(artist), Some(album), Some(track)) => {
            let mut folder = template::translate_lidarr_format(artist.as_str());
            folder.append("/");
            folder.append(template::translate_lidarr_format(album.as_str()).as_str());
            Some((folder, template::translate_lidarr_format(track.as_str())))
        },
        _ => None,
    }
}

/// The patterns for folders and files that Lidarr's answer gives; they take the place of those
/// that are set.
pub fn apply_lidarr_naming(answer: &str) -> (r: Option<(String, String)>)
    ensures
        match r {
            Some(p) => patterns_of(json::document(answer@)) == Some((p.0@, p.1@)),
            None => patterns_of(json::document(answer@)) is None,
        },
{
    lidarr_patterns(&json::parse(answer))
}

// ---------------------------------------------------------------------------
// Laws

/// A run begins only where there is a library, nothing is played, and no service that it needs is
/// known to be offline; a pending rollback always comes first.
pub proof fn runs_begin_only_when_all_is_well(cfg: Config, known: Known)
    ensures
        next_step(cfg, known) == PassStep::Start ==> {
            &&& cfg.rollback_run_id@.len() == 0
            &&& (known.libraries matches Some(n) && n > 0)
            &&& known.idle == Some(true)
            &&& cfg.meta_gate_enabled ==> known.services == Some(None::<Provider>)
        },
        cfg.rollback_run_id@.len() > 0 ==> next_step(cfg, known) == PassStep::RollBack,
{
}

/// Once everything is known a pass asks for nothing more.
pub proof fn a_pass_comes_to_a_decision(cfg: Config, known: Known)
    requires
        known.libraries is Some,
        known.idle is Some,
        known.services is Some,
    ensures
        next_step(cfg, known) != PassStep::ListLibraries,
        next_step(cfg, known) != PassStep::CheckIdle,
        next_step(cfg, known) != PassStep::CheckServices,
{
}

/// The user to act for is one of those that may be acted for, where any are listed and named.
pub proof fn the_user_is_granted(
    configured: Seq<char>,
    users: Seq<Seq<char>>,
    admins: Seq<Seq<char>>,
)
    requires
        users.len() > 0,
        users[0].len() > 0,
    ensures
        users.contains(acting_user(configured, users, admins)) || admins.contains(
            acting_user(configured, users, admins),
        ),
{
    if first_name(admins) is Some {
        assert(admins.contains(admins[0]));
    }
    assert(users.contains(users[0]));
}

} // verus!
