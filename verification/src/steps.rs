//! The phases of a run and what each of them does, in order: which phase follows which, what is
//! done with an album when it is moved and when it is enriched, and what is told of a batch.

use crate::apply;
use crate::config::{Config, LidarrMode, Mode, PrimarySource};
use crate::enrich;
use crate::json;
use crate::json::{Json, JsonView};
use crate::lyrics;
use crate::organizer;
use crate::organizer::{AlbumInfo, DuplicateView, GroupPlan, GroupPlanView, InfoView, MoveView};
use crate::posts;
use crate::posts::Action;
use crate::report;
use crate::scan::ScanOutcome;
use crate::text;
use vstd::prelude::*;

verus! {

// ---------------------------------------------------------------------------
// Phases

/// A phase of a run on a library.
#[derive(Debug, Clone, Copy, PartialEq, Eq, Structural)]
pub enum Phase {
    /// Walking and reading in one go.
    Scan,
    Walk,
    Index,
    Verify,
    Group,
    Cleanup,
}

/// The phase that a phase leads to when it is done.
pub open spec fn phase_after(p: Phase, cleans_up: bool) -> Option<Phase> {
    match p {
        Phase::Scan => Some(Phase::Group),
        Phase::Walk => Some(Phase::Index),
        Phase::Index => Some(Phase::Verify),
        Phase::Verify => Some(Phase::Group),
        Phase::Group => if cleans_up {
            Some(Phase::Cleanup)
        } else {
            None
        },
        Phase::Cleanup => None,
    }
}

/// The phase of the next task: the same one where more is left, none where the pass is full, and
/// else the one that it leads to.
pub open spec fn next_phase_of(p: Phase, outcome: ScanOutcome, cleans_up: bool) -> Option<Phase> {
    match outcome {
        ScanOutcome::More => Some(p),
        ScanOutcome::Paused => None,
        ScanOutcome::Done => phase_after(p, cleans_up),
    }
}

/// The phase of the next task of a library.
pub fn next_phase(cfg: &Config, p: Phase, outcome: ScanOutcome) -> (r: Option<Phase>)
    ensures
        r == next_phase_of(p, outcome, cfg.cleanup_no_audio_folders),
{
    match outcome {
        ScanOutcome::More => Some(p),
        ScanOutcome::Paused => None,
        ScanOutcome::Done => match p {
            Phase::Scan => Some(Phase::Group),
            Phase::Walk => Some(Phase::Index),
            Phase::Index => Some(Phase::Verify),
            Phase::Verify => Some(Phase::Group),
            Phase::Group => if cfg.cleanup_no_audio_folders {
                Some(Phase::Cleanup)
            } else {
                None
            },
            Phase::Cleanup => None,
        },
    }
}

/// How far a phase is in a run.
pub open spec fn rank(p: Phase) -> int {
    match p {
        Phase::Walk => 0,
        Phase::Index => 1,
        Phase::Scan => 2,
        Phase::Verify => 2,
        Phase::Group => 3,
        Phase::Cleanup => 4,
    }
}

/// A run only goes on: a phase that is done leads to a later one, and only one that has more to
/// do comes again.
pub proof fn runs_only_go_on(p: Phase, outcome: ScanOutcome, cleans_up: bool)
    ensures
        match next_phase_of(p, outcome, cleans_up) {
            Some(q) => if outcome == ScanOutcome::More {
                q == p
            } else {
                rank(q) > rank(p)
            },
            None => true,
        },
{
}

// ---------------------------------------------------------------------------
// Moving an album

/// Whether the release of an album is looked up before it is classified.
pub open spec fn looks_up(cfg: Config) -> bool {
    cfg.classify_from_mb && cfg.primary_source == PrimarySource::MusicBrainz
}

pub fn looks_up_release(cfg: &Config) -> (r: bool)
    ensures
        r == looks_up(*cfg),
{
    cfg.classify_from_mb && cfg.primary_source == PrimarySource::MusicBrainz
}

/// Whether Lidarr is asked to search for albums that lack tracks.
pub fn completes_albums(cfg: &Config) -> (r: bool)
    ensures
        r == (cfg.lidarr_force_search_incomplete && text::said(cfg.lidarr_url@)),
{
    cfg.lidarr_force_search_incomplete && text::is_said(cfg.lidarr_url.as_str())
}

/// Something that is done when an album is moved.
#[derive(Debug)]
pub enum MoveStep {
    /// The plan is carried out. Where that fails, the task ends.
    Apply,
    /// The album's folder goes on into another library.
    MoveAcross { library: String },
    /// The server is told to scan.
    Rescan,
    /// What the sidecar at that place holds is kept.
    KeepSidecar { place: String },
    /// The listens of a file go with it.
    MoveTally { from: String, to: String },
    /// The moves are written down, so that they can be undone.
    Record,
    /// The sidecars are written.
    WriteSidecars,
}

/// The mathematical value of a step.
pub enum MoveStepView {
    Apply,
    MoveAcross { library: Seq<char> },
    Rescan,
    KeepSidecar { place: Seq<char> },
    MoveTally { from: Seq<char>, to: Seq<char> },
    Record,
    WriteSidecars,
}

impl View for MoveStep {
    type V = MoveStepView;

    open spec fn view(&self) -> MoveStepView {
        match self {
            MoveStep::Apply => MoveStepView::Apply,
            MoveStep::MoveAcross { library } => MoveStepView::MoveAcross { library: library@ },
            MoveStep::Rescan => MoveStepView::Rescan,
            MoveStep::KeepSidecar { place } => MoveStepView::KeepSidecar { place: place@ },
            MoveStep::MoveTally { from, to } => MoveStepView::MoveTally { from: from@, to: to@ },
            MoveStep::Record => MoveStepView::Record,
            MoveStep::WriteSidecars => MoveStepView::WriteSidecars,
        }
    }
}

pub open spec fn move_step_views(v: Seq<MoveStep>) -> Seq<MoveStepView> {
    v.map_values(|s: MoveStep| s@)
}

/// The step alone, where it applies.
pub open spec fn step_if(applies: bool, step: MoveStepView) -> Seq<MoveStepView> {
    if applies {
        seq![step]
    } else {
        Seq::empty()
    }
}

/// The steps that take the listens of moved files along.
pub open spec fn tally_steps(moves: Seq<MoveView>) -> Seq<MoveStepView> {
    moves.map_values(|m: MoveView| MoveStepView::MoveTally { from: m.from, to: m.to })
}

/// The steps that take the listens of duplicates along.
pub open spec fn duplicate_tally_steps(duplicates: Seq<DuplicateView>) -> Seq<MoveStepView> {
    duplicates.map_values(
        |d: DuplicateView| MoveStepView::MoveTally { from: d.loser, to: d.target },
    )
}

/// The steps of moving an album. In a dry run, and where neither a file nor a duplicate moves, there
/// are none. Where no file is paired to the album, so that there is no `album`, nothing is done to
/// its folder.
pub open spec fn move_steps(
    cfg: Config,
    destination: Seq<char>,
    p: GroupPlanView,
    album: bool,
) -> Seq<MoveStepView> {
    if cfg.mode != Mode::Apply || (p.moves.len() == 0 && p.duplicates.len() == 0) {
        Seq::empty()
    } else {
        seq![MoveStepView::Apply] + step_if(
            album && destination.len() > 0,
            MoveStepView::MoveAcross { library: destination },
        ) + step_if(cfg.scan_after_album, MoveStepView::Rescan) + step_if(
            album,
            MoveStepView::KeepSidecar { place: apply::nfo_place(p.target_dir) },
        ) + tally_steps(p.moves) + duplicate_tally_steps(p.duplicates) + seq![
            MoveStepView::Record,
        ] + step_if(
            album && cfg.write_nfo,
            MoveStepView::WriteSidecars,
        )
    }
}

fn add_step(steps: &mut Vec<MoveStep>, step: MoveStep)
    ensures
        move_step_views(final(steps)@) == move_step_views(old(steps)@) + seq![step@],
{
    let ghost before = steps@;
    steps.push(step);
    assert(move_step_views(steps@) =~= move_step_views(before) + seq![step@]);
}

fn add_tallies(steps: &mut Vec<MoveStep>, plan: &GroupPlan)
    ensures
        move_step_views(final(steps)@) == move_step_views(old(steps)@) + tally_steps(plan@.moves),
{
    let ghost before = move_step_views(steps@);
    let ghost all = tally_steps(plan@.moves);
    let mut i: usize = 0;
    assert(before + all.take(0) =~= before);
    while i < plan.moves.len()
        invariant
            i <= plan.moves@.len(),
            all == tally_steps(plan@.moves),
            all.len() == plan.moves@.len(),
            move_step_views(steps@) == before + all.take(i as int),
        decreases plan.moves@.len() - i,
    {
        let m = &plan.moves[i];
        assert(plan@.moves[i as int] == m@);
        let step = MoveStep::MoveTally { from: m.from.clone(), to: m.to.clone() };
        assert(step@ == all[i as int]);
        add_step(steps, step);
        assert(all.take(i + 1) =~= all.take(i as int).push(all[i as int]));
        assert(before + all.take(i + 1) =~= (before + all.take(i as int)) + seq![all[i as int]]);
        i = i + 1;
    }
    assert(all.take(i as int) =~= all);
}

fn add_duplicate_tallies(steps: &mut Vec<MoveStep>, plan: &GroupPlan)
    ensures
        move_step_views(final(steps)@) == move_step_views(old(steps)@) + duplicate_tally_steps(
            plan@.duplicates,
        ),
{
    let ghost before = move_step_views(steps@);
    let ghost all = duplicate_tally_steps(plan@.duplicates);
    let mut i: usize = 0;
    assert(before + all.take(0) =~= before);
    while i < plan.duplicates.len()
        invariant
            i <= plan.duplicates@.len(),
            all == duplicate_tally_steps(plan@.duplicates),
            all.len() == plan.duplicates@.len(),
            move_step_views(steps@) == before + all.take(i as int),
        decreases plan.duplicates@.len() - i,
    {
        let d = &plan.duplicates[i];
        assert(plan@.duplicates[i as int] == d@);
        let step = MoveStep::MoveTally { from: d.loser.clone(), to: d.target.clone() };
        assert(step@ == all[i as int]);
        add_step(steps, step);
        assert(before + all.take(i + 1) =~= (before + all.take(i as int)) + seq![all[i as int]]);
        i = i + 1;
    }
    assert(all.take(i as int) =~= all);
}

/// What is done, in order, to move an album: its files, then everything that goes with them.
/// `album` says whether a file of the plan is paired to the album.
pub fn plan_move_step(cfg: &Config, destination: &str, plan: &GroupPlan, album: bool) -> (r: Vec<
    MoveStep,
>)
    ensures
        move_step_views(r@) == move_steps(*cfg, destination@, plan@, album),
{
    let mut steps: Vec<MoveStep> = Vec::new();
    if cfg.mode == Mode::DryRun || (plan.moves.len() == 0 && plan.duplicates.len() == 0) {
        assert(move_step_views(steps@) =~= Seq::<MoveStepView>::empty());
        return steps;
    }
    steps.push(MoveStep::Apply);
    assert(move_step_views(steps@) =~= seq![MoveStepView::Apply]);
    if album && text::length(destination) > 0 {
        add_step(&mut steps, MoveStep::MoveAcross { library: text::copy(destination) });
    } else {
        assert(move_step_views(steps@) + Seq::<MoveStepView>::empty() =~= move_step_views(steps@));
    }
    if cfg.scan_after_album {
        add_step(&mut steps, MoveStep::Rescan);
    } else {
        assert(move_step_views(steps@) + Seq::<MoveStepView>::empty() =~= move_step_views(steps@));
    }
    if album {
        let place = organizer::join_rel(plan.target_dir.as_str(), "album.nfo");
        add_step(&mut steps, MoveStep::KeepSidecar { place });
    } else {
        assert(move_step_views(steps@) + Seq::<MoveStepView>::empty() =~= move_step_views(steps@));
    }
    add_tallies(&mut steps, plan);
    add_duplicate_tallies(&mut steps, plan);
    add_step(&mut steps, MoveStep::Record);
    if album && cfg.write_nfo {
        add_step(&mut steps, MoveStep::WriteSidecars);
    } else {
        assert(move_step_views(steps@) + Seq::<MoveStepView>::empty() =~= move_step_views(steps@));
    }
    steps
}

/// A dry run changes nothing: there is not one step.
pub proof fn dry_runs_change_nothing(
    cfg: Config,
    destination: Seq<char>,
    p: GroupPlanView,
    album: bool,
)
    requires
        cfg.mode == Mode::DryRun,
    ensures
        move_steps(cfg, destination, p, album).len() == 0,
{
}

/// Whatever is moved is written down: every run of steps that carries a plan out also records it.
pub proof fn every_move_is_recorded(
    cfg: Config,
    destination: Seq<char>,
    p: GroupPlanView,
    album: bool,
)
    requires
        move_steps(cfg, destination, p, album).contains(MoveStepView::Apply),
    ensures
        move_steps(cfg, destination, p, album).contains(MoveStepView::Record),
{
    let steps = move_steps(cfg, destination, p, album);
    let tail = step_if(album && cfg.write_nfo, MoveStepView::WriteSidecars);
    let at = steps.len() - tail.len() - 1;
    assert(steps[at] == MoveStepView::Record);
}

// ---------------------------------------------------------------------------
// What is told of a batch that is moved

/// What has been gathered on the albums of a batch.
#[derive(Debug)]
pub struct MoveBatch {
    /// The parts of the report.
    pub parts: Vec<String>,
    pub plans: Vec<Json>,
    pub actions: Vec<Json>,
    pub moves: usize,
    pub duplicates: usize,
    /// How many albums move.
    pub to_move: usize,
}

/// The mathematical value of a batch.
#[verifier::ext_equal]
pub struct MoveBatchView {
    pub parts: Seq<Seq<char>>,
    pub plans: Seq<JsonView>,
    pub actions: Seq<JsonView>,
    pub moves: int,
    pub duplicates: int,
    pub to_move: int,
}

impl View for MoveBatch {
    type V = MoveBatchView;

    open spec fn view(&self) -> MoveBatchView {
        MoveBatchView {
            parts: text::views(self.parts@),
            plans: json::trees(self.plans@),
            actions: json::trees(self.actions@),
            moves: self.moves as int,
            duplicates: self.duplicates as int,
            to_move: self.to_move as int,
        }
    }
}

/// A batch of which nothing is known yet.
pub open spec fn no_albums() -> MoveBatchView {
    MoveBatchView {
        parts: Seq::empty(),
        plans: Seq::empty(),
        actions: Seq::empty(),
        moves: 0,
        duplicates: 0,
        to_move: 0,
    }
}

/// What is told of moves: that they were made, or that they would be.
pub open spec fn move_actions(moves: Seq<MoveView>, done: bool, ts: int) -> Seq<JsonView> {
    moves.map_values(
        |m: MoveView|
            posts::action_doc(
                ts,
                (if done {
                    "moved "@
                } else {
                    "would move "@
                }) + m.from + " -> "@ + m.to,
            ),
    )
}

/// The part of the report on the stars of an album's files, where stars are kept and there are any.
pub open spec fn star_parts(cfg: Config, stars: Seq<(String, u8, i64)>) -> Seq<Seq<char>> {
    if cfg.star_tally_enabled && stars.len() > 0 {
        seq![
            "  Star ratings (tally preview):\n"@ + text::joined(report::star_views(stars), "\n"@),
        ]
    } else {
        Seq::empty()
    }
}

/// A batch with one more album.
pub open spec fn with_album(
    b: MoveBatchView,
    cfg: Config,
    info: InfoView,
    p: GroupPlanView,
    stars: Seq<(String, u8, i64)>,
    ts: int,
) -> MoveBatchView {
    MoveBatchView {
        parts: b.parts.push(report::group_block(p, cfg.mode != Mode::Apply)) + star_parts(cfg, stars),
        plans: b.plans.push(posts::plan_doc(info, p)),
        actions: if cfg.mode == Mode::Apply {
            b.actions
        } else {
            b.actions + move_actions(p.moves, false, ts)
        },
        moves: b.moves + p.moves.len(),
        duplicates: b.duplicates + p.duplicates.len(),
        to_move: b.to_move + (if p.moves.len() > 0 {
            1int
        } else {
            0
        }),
    }
}

fn move_words(m: &organizer::FileMove, done: bool) -> (r: String)
    ensures
        r@ == (if done {
            "moved "@
        } else {
            "would move "@
        }) + m@.from + " -> "@ + m@.to,
{
    let mut s = text::copy(
        if done {
            "moved "
        } else {
            "would move "
        },
    );
    s.append(m.from.as_str());
    s.append(" -> ");
    s.append(m.to.as_str());
    s
}

fn tell_moves(actions: &mut Vec<Json>, plan: &GroupPlan, done: bool, ts: i64)
    ensures
        json::trees(final(actions)@) == json::trees(old(actions)@) + move_actions(
            plan@.moves,
            done,
            ts as int,
        ),
{
    let ghost before = json::trees(actions@);
    let ghost all = move_actions(plan@.moves, done, ts as int);
    let mut i: usize = 0;
    assert(before + all.take(0) =~= before);
    while i < plan.moves.len()
        invariant
            i <= plan.moves@.len(),
            all == move_actions(plan@.moves, done, ts as int),
            all.len() == plan.moves@.len(),
            json::trees(actions@) == before + all.take(i as int),
        decreases plan.moves@.len() - i,
    {
        let m = &plan.moves[i];
        assert(plan@.moves[i as int] == m@);
        let words = move_words(m, done);
        json::append(actions, posts::action(ts, words.as_str()));
        assert(before + all.take(i + 1) =~= (before + all.take(i as int)).push(all[i as int]));
        i = i + 1;
    }
    assert(all.take(i as int) =~= all);
}

impl MoveBatch {
    /// There is room for the counts of one more album.
    pub open spec fn has_room(self, p: GroupPlanView) -> bool {
        &&& self.moves + p.moves.len() <= usize::MAX
        &&& self.duplicates + p.duplicates.len() <= usize::MAX
        &&& self.to_move < usize::MAX
    }

    /// A batch without albums.
    pub fn start() -> (r: Self)
        ensures
            r@ == no_albums(),
    {
        let r = MoveBatch {
            parts: Vec::new(),
            plans: Vec::new(),
            actions: Vec::new(),
            moves: 0,
            duplicates: 0,
            to_move: 0,
        };
        assert(r@ =~= no_albums());
        r
    }

    /// Takes in the plan of an album, with the stars of its files.
    pub fn take_album(
        &mut self,
        cfg: &Config,
        info: &AlbumInfo,
        plan: &GroupPlan,
        stars: &Vec<(String, u8, i64)>,
        ts: i64,
    )
        requires
            old(self).has_room(plan@),
        ensures
            final(self)@ == with_album(old(self)@, *cfg, info@, plan@, stars@, ts as int),
    {
        let dry = cfg.mode == Mode::DryRun;
        let part = report::group_report(plan, dry);
        proof {
            text::views_push(self.parts@, part);
        }
        self.parts.push(part);
        let ghost parts = text::views(self.parts@);
        if cfg.star_tally_enabled {
            match report::star_preview(stars) {
                Some(s) => {
                    proof {
                        text::views_push(self.parts@, s);
                        assert(parts.push(s@) =~= parts + seq![s@]);
                    }
                    self.parts.push(s);
                },
                None => {
                    assert(parts + Seq::<Seq<char>>::empty() =~= parts);
                },
            }
        } else {
            assert(parts + Seq::<Seq<char>>::empty() =~= parts);
        }
        json::append(&mut self.plans, posts::plan_json(info, plan));
        if dry {
            tell_moves(&mut self.actions, plan, false, ts);
        }
        self.moves = self.moves + plan.moves.len();
        self.duplicates = self.duplicates + plan.duplicates.len();
        if plan.moves.len() > 0 {
            self.to_move = self.to_move + 1;
        }
    }

    /// The moves of an album were made.
    pub fn moved(&mut self, plan: &GroupPlan, ts: i64)
        ensures
            final(self)@ == (MoveBatchView {
                actions: old(self)@.actions + move_actions(plan@.moves, true, ts as int),
                ..old(self)@
            }),
    {
        tell_moves(&mut self.actions, plan, true, ts);
    }

    /// Something else was done.
    pub fn note(&mut self, a: &Action, ts: i64)
        ensures
            final(self)@ == (MoveBatchView {
                actions: old(self)@.actions.push(posts::action_doc(ts as int, posts::words_for(*a))),
                ..old(self)@
            }),
    {
        let words = posts::words(a);
        json::append(&mut self.actions, posts::action(ts, words.as_str()));
    }

    /// The report on a dry run, and the document that is posted of it.
    pub fn dry_run(
        self,
        cfg: &Config,
        library_id: i32,
        found: usize,
        index: i32,
        total: i32,
        run_id: &str,
        ts: i64,
    ) -> (r: (String, Json))
        ensures
            r.0@ == report::dry_run_text(self@.parts, index as int, total as int, run_id@),
            r.1@ == posts::report_doc(
                ts as int,
                cfg.mode,
                true,
                posts::batch_doc(index as int, total as int),
                run_id@,
                r.0@,
                JsonView::Array(self@.plans),
                JsonView::Array(self@.actions),
                posts::library_doc(
                    library_id as int,
                    found as int,
                    self@.to_move,
                    self@.moves,
                    self@.duplicates,
                ),
            ),
    {
        let said = report::dry_run_report(&self.parts, index, total, run_id);
        let doc = posts::report_envelope(
            ts,
            cfg.mode,
            true,
            posts::batch(index, total),
            run_id,
            said.as_str(),
            Json::Array(self.plans),
            Json::Array(self.actions),
            posts::library(library_id, found, self.to_move, self.moves, self.duplicates),
        );
        (said, doc)
    }

    /// The status that is posted after the albums of a batch were moved.
    pub fn status(
        self,
        library_id: i32,
        found: usize,
        index: i32,
        total: i32,
        ts: i64,
        integrations: Json,
        tasks: Json,
    ) -> (r: Json)
        ensures
            r@ == posts::plan_status_doc(
                ts as int,
                posts::batch_doc(index as int, total as int),
                posts::library_doc(
                    library_id as int,
                    found as int,
                    self@.to_move,
                    self@.moves,
                    self@.duplicates,
                ),
                self@.to_move,
                self@.moves,
                JsonView::Array(self@.plans),
                JsonView::Array(self@.actions),
                integrations@,
                tasks@,
            ),
    {
        posts::plan_status(
            ts,
            posts::batch(index, total),
            posts::library(library_id, found, self.to_move, self.moves, self.duplicates),
            self.to_move,
            self.moves,
            Json::Array(self.plans),
            Json::Array(self.actions),
            integrations,
            tasks,
        )
    }
}

// ---------------------------------------------------------------------------
// Enriching an album

/// Something that is done when an album is enriched.
#[derive(Debug, Clone, Copy, PartialEq, Eq, Structural)]
pub enum EnrichStep {
    /// Missing names come from the release.
    AutoTag,
    /// Loudness is written, for the album as a whole too where that is wanted.
    ReplayGain { album: bool },
    Artwork,
    Lyrics,
    Genres,
    AcousticTags,
    EssentiaGenres,
    /// The server is told to scan.
    Rescan,
    /// AudioMuse-AI is told to analyse anew.
    Resync,
    /// Lidarr looks at the artists again.
    RefreshArtists,
}

pub open spec fn enrich_if(applies: bool, step: EnrichStep) -> Seq<EnrichStep> {
    if applies {
        seq![step]
    } else {
        Seq::empty()
    }
}

/// The steps of enriching an album of which something moves.
pub open spec fn enrich_steps(
    cfg: Config,
    lyrics_source: Seq<char>,
    genre_source: Seq<char>,
    has_release: bool,
) -> Seq<EnrichStep> {
    enrich_if(cfg.auto_tag_from_mb && has_release, EnrichStep::AutoTag) + enrich_if(
        cfg.write_replaygain,
        EnrichStep::ReplayGain { album: cfg.replay_gain_mode@ == "album"@ },
    ) + enrich_if(cfg.embed_artwork || cfg.write_cover_jpg, EnrichStep::Artwork) + enrich_if(
        lyrics_source == "lrclib"@ || lyrics_source == "genius"@,
        EnrichStep::Lyrics,
    ) + enrich_if(genre_source.len() > 0, EnrichStep::Genres) + enrich_if(
        cfg.write_acoustic_tags && text::said(cfg.audiomuse_url@),
        EnrichStep::AcousticTags,
    ) + enrich_if(
        genre_source == "essentia"@ && text::said(cfg.essentia_url@),
        EnrichStep::EssentiaGenres,
    ) + enrich_if(cfg.scan_after_tag_write, EnrichStep::Rescan) + enrich_if(
        cfg.notify_audiomuse_after_run && text::said(cfg.audiomuse_url@),
        EnrichStep::Resync,
    ) + enrich_if(
        cfg.lidarr_mode == LidarrMode::MetadataPlusRescan && text::said(cfg.lidarr_url@) && text::said(
            cfg.lidarr_api_key@,
        ),
        EnrichStep::RefreshArtists,
    )
}

fn add_if(steps: &mut Vec<EnrichStep>, applies: bool, step: EnrichStep)
    ensures
        final(steps)@ == old(steps)@ + enrich_if(applies, step),
{
    let ghost before = steps@;
    if applies {
        steps.push(step);
        assert(steps@ =~= before + seq![step]);
    } else {
        assert(steps@ =~= before + Seq::<EnrichStep>::empty());
    }
}

/// What is done, in order, to enrich an album; nothing where no file moves or where, with no file
/// paired to it, there is no `album`.
pub fn plan_enrich_step(
    cfg: &Config,
    lyrics_source: &str,
    genre_source: &str,
    has_release: bool,
    plan: &GroupPlan,
    album: bool,
) -> (r: Vec<EnrichStep>)
    ensures
        r@ == if plan@.moves.len() == 0 || !album {
            Seq::empty()
        } else {
            enrich_steps(*cfg, lyrics_source@, genre_source@, has_release)
        },
{
    let mut steps: Vec<EnrichStep> = Vec::new();
    if plan.moves.len() == 0 || !album {
        return steps;
    }
    if cfg.auto_tag_from_mb && has_release {
        steps.push(EnrichStep::AutoTag);
    }
    assert(steps@ =~= enrich_if(cfg.auto_tag_from_mb && has_release, EnrichStep::AutoTag));
    let whole = text::same(cfg.replay_gain_mode.as_str(), "album");
    add_if(&mut steps, cfg.write_replaygain, EnrichStep::ReplayGain { album: whole });
    add_if(&mut steps, cfg.embed_artwork || cfg.write_cover_jpg, EnrichStep::Artwork);
    add_if(&mut steps, lyrics::is_wanted(lyrics_source), EnrichStep::Lyrics);
    add_if(&mut steps, text::length(genre_source) > 0, EnrichStep::Genres);
    let muse = text::is_said(cfg.audiomuse_url.as_str());
    add_if(&mut steps, cfg.write_acoustic_tags && muse, EnrichStep::AcousticTags);
    let essentia = text::same(genre_source, "essentia") && text::is_said(cfg.essentia_url.as_str());
    add_if(&mut steps, essentia, EnrichStep::EssentiaGenres);
    add_if(&mut steps, cfg.scan_after_tag_write, EnrichStep::Rescan);
    add_if(&mut steps, cfg.notify_audiomuse_after_run && muse, EnrichStep::Resync);
    add_if(&mut steps, enrich::refreshes(cfg), EnrichStep::RefreshArtists);
    steps
}

// ---------------------------------------------------------------------------
// What is told of a batch that is enriched

/// What has been gathered on the albums of a batch that is enriched.
#[derive(Debug)]
pub struct EnrichBatch {
    pub parts: Vec<String>,
    pub actions: Vec<Json>,
    /// How many tracks were tagged.
    pub autotags: usize,
    /// How many tracks got their loudness.
    pub replaygains: usize,
}

/// The mathematical value of such a batch.
#[verifier::ext_equal]
pub struct EnrichBatchView {
    pub parts: Seq<Seq<char>>,
    pub actions: Seq<JsonView>,
    pub autotags: int,
    pub replaygains: int,
}

impl View for EnrichBatch {
    type V = EnrichBatchView;

    open spec fn view(&self) -> EnrichBatchView {
        EnrichBatchView {
            parts: text::views(self.parts@),
            actions: json::trees(self.actions@),
            autotags: self.autotags as int,
            replaygains: self.replaygains as int,
        }
    }
}

/// How many tracks an action tagged.
pub open spec fn tagged_by(a: Action) -> int {
    match a {
        Action::Tagged { tracks, album } => tracks as int,
        _ => 0,
    }
}

/// How many tracks an action gave their loudness.
pub open spec fn levelled_by(a: Action) -> int {
    match a {
        Action::WroteReplayGain { tracks, album, album_tags } => tracks as int,
        _ => 0,
    }
}

/// Whether an action did something: one that is about no track is not told.
pub open spec fn did_something(a: Action) -> bool {
    match a {
        Action::Tagged { tracks, album } => tracks > 0,
        Action::WroteReplayGain { tracks, album, album_tags } => tracks > 0,
        Action::FetchedLyrics { files } => files > 0,
        Action::WroteAcoustic { tracks } => tracks > 0,
        Action::WroteEssentia { tracks } => tracks > 0,
        _ => true,
    }
}

/// A batch after an action.
pub open spec fn with_action(b: EnrichBatchView, a: Action, ts: int) -> EnrichBatchView {
    if did_something(a) {
        EnrichBatchView {
            actions: b.actions.push(posts::action_doc(ts, posts::words_for(a))),
            autotags: b.autotags + tagged_by(a),
            replaygains: b.replaygains + levelled_by(a),
            ..b
        }
    } else {
        b
    }
}

impl EnrichBatch {
    /// A batch without albums.
    pub fn start() -> (r: Self)
        ensures
            r@ == (EnrichBatchView {
                parts: Seq::empty(),
                actions: Seq::empty(),
                autotags: 0,
                replaygains: 0,
            }),
    {
        let r = EnrichBatch {
            parts: Vec::new(),
            actions: Vec::new(),
            autotags: 0,
            replaygains: 0,
        };
        assert(r@.parts =~= Seq::<Seq<char>>::empty());
        assert(r@.actions =~= Seq::<JsonView>::empty());
        r
    }

    /// Takes in the plan of an album.
    pub fn take_album(&mut self, plan: &GroupPlan)
        ensures
            final(self)@ == (EnrichBatchView {
                parts: old(self)@.parts.push(report::group_block(plan@, false)),
                ..old(self)@
            }),
    {
        let part = report::group_report(plan, false);
        proof {
            text::views_push(self.parts@, part);
        }
        self.parts.push(part);
    }

    /// Something was done.
    pub fn note(&mut self, a: &Action, ts: i64)
        requires
            old(self).autotags + tagged_by(*a) <= usize::MAX,
            old(self).replaygains + levelled_by(*a) <= usize::MAX,
        ensures
            final(self)@ == with_action(old(self)@, *a, ts as int),
    {
        let told = match a {
            Action::Tagged { tracks, album } => {
                self.autotags = self.autotags + *tracks;
                *tracks > 0
            },
            Action::WroteReplayGain { tracks, album, album_tags } => {
                self.replaygains = self.replaygains + *tracks;
                *tracks > 0
            },
            Action::FetchedLyrics { files } => *files > 0,
            Action::WroteAcoustic { tracks } => *tracks > 0,
            Action::WroteEssentia { tracks } => *tracks > 0,
            _ => true,
        };
        if told {
            let words = posts::words(a);
            json::append(&mut self.actions, posts::action(ts, words.as_str()));
        }
    }

    /// Something was done that is told in words of its own.
    pub fn note_words(&mut self, words: &str, ts: i64)
        ensures
            final(self)@ == (EnrichBatchView {
                actions: old(self)@.actions.push(posts::action_doc(ts as int, words@)),
                ..old(self)@
            }),
    {
        json::append(&mut self.actions, posts::action(ts, words));
    }

    /// The report on a batch, and the document that is posted of it.
    pub fn finish(
        self,
        cfg: &Config,
        library_id: i32,
        found: usize,
        index: i32,
        total: i32,
        run_id: &str,
        ts: i64,
    ) -> (r: (String, Json))
        ensures
            r.0@ == report::enriched_text(
                self@.parts,
                index as int,
                total as int,
                self@.autotags,
                self@.replaygains,
                run_id@,
            ),
            r.1@ == posts::report_doc(
                ts as int,
                cfg.mode,
                false,
                posts::batch_doc(index as int, total as int),
                run_id@,
                r.0@,
                JsonView::Array(Seq::empty()),
                JsonView::Array(self@.actions),
                posts::library_doc(library_id as int, found as int, 0, 0, 0),
            ),
    {
        let said = report::enrich_report(
            &self.parts,
            index,
            total,
            self.autotags,
            self.replaygains,
            run_id,
        );
        let none: Vec<Json> = Vec::new();
        assert(json::trees(none@) =~= Seq::<JsonView>::empty());
        let doc = posts::report_envelope(
            ts,
            cfg.mode,
            false,
            posts::batch(index, total),
            run_id,
            said.as_str(),
            Json::Array(none),
            Json::Array(self.actions),
            posts::library(library_id, found, 0, 0, 0),
        );
        (said, doc)
    }
}

/// The rollback note is the last thing that a report says: whoever reads one knows how to undo
/// the run.
pub proof fn reports_say_how_to_undo(
    parts: Seq<Seq<char>>,
    index: int,
    total: int,
    autotags: int,
    replaygains: int,
    run_id: Seq<char>,
)
    ensures
        text::ends(
            report::enriched_text(parts, index, total, autotags, replaygains, run_id),
            report::rollback_note(run_id),
        ),
        text::ends(
            report::dry_run_text(parts, index, total, run_id),
            report::rollback_note(run_id),
        ),
{
    let note = report::rollback_note(run_id);
    let a = report::enriched_text(parts, index, total, autotags, replaygains, run_id);
    let b = report::dry_run_text(parts, index, total, run_id);
    assert(a.subrange(a.len() - note.len(), a.len() as int) =~= note);
    assert(b.subrange(b.len() - note.len(), b.len() as int) =~= note);
}

} // verus!
