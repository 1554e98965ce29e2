//! What a run does, when it does it, and what it leaves alone.

use crate::config::{AcoustIdMode, Config, LidarrMode, Mode, PrimarySource};
use crate::json;
use crate::json::JsonView;
use crate::organizer::{GroupPlanView, InfoView, MoveView};
use crate::pass;
use crate::pass::{Known, PassStep, Provider, TaskKind};
use crate::posts;
use crate::posts::Action;
use crate::scan::ScanOutcome;
use crate::state::ApplyRecord;
use crate::steps;
use crate::steps::{EnrichBatchView, EnrichStep, MoveBatchView, MoveStepView, Phase};
use crate::text;
use vstd::prelude::*;

verus! {

// ---------------------------------------------------------------------------
// Phases

/// A library is walked, read, checked and grouped, in this order, and cleaned up at the end where
/// that is wanted. A phase is repeated as long as more is left of it, and a full pass ends the run.
pub proof fn phases_follow_each_other(p: Phase, cleans_up: bool)
    ensures
        steps::next_phase_of(p, ScanOutcome::More, cleans_up) == Some(p),
        steps::next_phase_of(p, ScanOutcome::Paused, cleans_up) is None,
        steps::next_phase_of(Phase::Walk, ScanOutcome::Done, cleans_up) == Some(Phase::Index),
        steps::next_phase_of(Phase::Index, ScanOutcome::Done, cleans_up) == Some(Phase::Verify),
        steps::next_phase_of(Phase::Verify, ScanOutcome::Done, cleans_up) == Some(Phase::Group),
        steps::next_phase_of(Phase::Scan, ScanOutcome::Done, cleans_up) == Some(Phase::Group),
        steps::next_phase_of(Phase::Group, ScanOutcome::Done, true) == Some(Phase::Cleanup),
        steps::next_phase_of(Phase::Group, ScanOutcome::Done, false) is None,
        steps::next_phase_of(Phase::Cleanup, ScanOutcome::Done, cleans_up) is None,
{
}

// ---------------------------------------------------------------------------
// Moving

/// What stands in two lists one behind the other stands in one of them.
proof fn in_either(a: Seq<MoveStepView>, b: Seq<MoveStepView>, x: MoveStepView)
    ensures
        (a + b).contains(x) <==> a.contains(x) || b.contains(x),
{
    vstd::seq_lib::lemma_seq_concat_contains_all_elements(a, b, x);
}

proof fn only_if(applies: bool, step: MoveStepView, x: MoveStepView)
    ensures
        steps::step_if(applies, step).contains(x) <==> applies && x == step,
{
    if applies {
        assert(seq![step][0] == step);
    }
}

/// What is done with an album that is moved: its files are moved first of all, and what was moved is
/// written down. Tallies go along with every file and every duplicate. The folder goes to another
/// library where one is named, its description is kept and written anew, and the server is told,
/// each where it is wanted and nowhere else.
pub proof fn albums_are_moved_as_told(
    cfg: Config,
    destination: Seq<char>,
    p: GroupPlanView,
    album: bool,
    x: MoveStepView,
)
    ensures
        ({
            let all = steps::move_steps(cfg, destination, p, album);
            let acts = cfg.mode == Mode::Apply && (p.moves.len() > 0 || p.duplicates.len() > 0);
            &&& acts <==> all.len() > 0
            &&& acts ==> all[0] == MoveStepView::Apply
            &&& all.contains(x) <==> acts && match x {
                MoveStepView::Apply => true,
                MoveStepView::MoveAcross { library } => album && library == destination
                    && destination.len() > 0,
                MoveStepView::Rescan => cfg.scan_after_album,
                MoveStepView::KeepSidecar { place } => album && place == if p.target_dir.len() == 0 {
                    "album.nfo"@
                } else {
                    p.target_dir + "/album.nfo"@
                },
                MoveStepView::MoveTally { from, to } => {
                    ||| exists|i: int|
                        0 <= i < p.moves.len() && (#[trigger] p.moves[i]).from == from
                            && p.moves[i].to == to
                    ||| exists|i: int|
                        0 <= i < p.duplicates.len() && (#[trigger] p.duplicates[i]).loser == from
                            && p.duplicates[i].target == to
                },
                MoveStepView::Record => true,
                MoveStepView::WriteSidecars => album && cfg.write_nfo,
            }
        }),
{
    let acts = cfg.mode == Mode::Apply && (p.moves.len() > 0 || p.duplicates.len() > 0);
    if acts {
        let a = seq![MoveStepView::Apply];
        let b = steps::step_if(
            album && destination.len() > 0,
            MoveStepView::MoveAcross { library: destination },
        );
        let c = steps::step_if(cfg.scan_after_album, MoveStepView::Rescan);
        let place = crate::apply::nfo_place(p.target_dir);
        let d = steps::step_if(album, MoveStepView::KeepSidecar { place });
        let e = steps::tally_steps(p.moves);
        let f = steps::duplicate_tally_steps(p.duplicates);
        let g = seq![MoveStepView::Record];
        let h = steps::step_if(album && cfg.write_nfo, MoveStepView::WriteSidecars);
        in_either(a, b, x);
        in_either(a + b, c, x);
        in_either(a + b + c, d, x);
        in_either(a + b + c + d, e, x);
        in_either(a + b + c + d + e, f, x);
        in_either(a + b + c + d + e + f, g, x);
        in_either(a + b + c + d + e + f + g, h, x);
        only_if(
            album && destination.len() > 0,
            MoveStepView::MoveAcross { library: destination },
            x,
        );
        only_if(cfg.scan_after_album, MoveStepView::Rescan, x);
        only_if(album, MoveStepView::KeepSidecar { place }, x);
        only_if(album && cfg.write_nfo, MoveStepView::WriteSidecars, x);
        assert(a[0] == MoveStepView::Apply && g[0] == MoveStepView::Record);
        assert forall|i: int| 0 <= i < p.moves.len() implies #[trigger] e[i]
            == (MoveStepView::MoveTally { from: p.moves[i].from, to: p.moves[i].to }) by {}
        assert forall|i: int| 0 <= i < p.duplicates.len() implies #[trigger] f[i]
            == (MoveStepView::MoveTally {
            from: p.duplicates[i].loser,
            to: p.duplicates[i].target,
        }) by {}
        if let MoveStepView::MoveTally { from, to } = x {
            if e.contains(x) {
                let i = choose|i: int| 0 <= i < e.len() && e[i] == x;
                assert(p.moves[i].from == from);
            }
            if f.contains(x) {
                let i = choose|i: int| 0 <= i < f.len() && f[i] == x;
                assert(p.duplicates[i].loser == from);
            }
            if exists|i: int|
                0 <= i < p.moves.len() && (#[trigger] p.moves[i]).from == from && p.moves[i].to == to {
                let i = choose|i: int|
                    0 <= i < p.moves.len() && (#[trigger] p.moves[i]).from == from && p.moves[i].to
                        == to;
                assert(e[i] == x);
            }
            if exists|i: int|
                0 <= i < p.duplicates.len() && (#[trigger] p.duplicates[i]).loser == from
                    && p.duplicates[i].target == to {
                let i = choose|i: int|
                    0 <= i < p.duplicates.len() && (#[trigger] p.duplicates[i]).loser == from
                        && p.duplicates[i].target == to;
                assert(f[i] == x);
            }
        }
        reveal_strlit("/");
        reveal_strlit("/album.nfo");
        reveal_strlit("album.nfo");
        assert("/"@ + "album.nfo"@ =~= "/album.nfo"@);
        assert(p.target_dir + "/"@ + "album.nfo"@ =~= p.target_dir + ("/"@ + "album.nfo"@));
    }
}

/// The counts of a batch are those of its albums: every move, every duplicate, and every album that
/// has something to move. One more album is one more plan that is told, and in a dry run every move
/// of it is told as one that would be made.
pub proof fn batches_count_every_album(
    b: MoveBatchView,
    cfg: Config,
    info: InfoView,
    p: GroupPlanView,
    stars: Seq<(String, u8, i64)>,
    ts: int,
)
    ensures
        ({
            let after = steps::with_album(b, cfg, info, p, stars, ts);
            &&& after.moves == b.moves + p.moves.len()
            &&& after.duplicates == b.duplicates + p.duplicates.len()
            &&& after.to_move == b.to_move + if p.moves.len() > 0 {
                1int
            } else {
                0int
            }
            &&& after.plans == b.plans.push(posts::plan_doc(info, p))
            &&& after.parts.len() == b.parts.len() + 1 + if cfg.star_tally_enabled && stars.len() > 0 {
                1int
            } else {
                0int
            }
            &&& cfg.mode == Mode::Apply ==> after.actions == b.actions
            &&& cfg.mode != Mode::Apply ==> after.actions.len() == b.actions.len() + p.moves.len()
            &&& forall|i: int|
                0 <= i < b.actions.len() ==> #[trigger] after.actions[i] == b.actions[i]
            &&& cfg.mode != Mode::Apply ==> forall|i: int|
                0 <= i < p.moves.len() ==> #[trigger] after.actions[b.actions.len() + i]
                    == posts::action_doc(
                    ts,
                    "would move "@ + p.moves[i].from + " -> "@ + p.moves[i].to,
                )
        }),
{
}

/// Moves that were made are told as such.
pub proof fn moves_are_told(moves: Seq<MoveView>, ts: int, i: int)
    requires
        0 <= i < moves.len(),
    ensures
        steps::move_actions(moves, true, ts).len() == moves.len(),
        steps::move_actions(moves, true, ts)[i] == posts::action_doc(
            ts,
            "moved "@ + moves[i].from + " -> "@ + moves[i].to,
        ),
{
}

// ---------------------------------------------------------------------------
// Enriching

proof fn in_either_part(a: Seq<EnrichStep>, b: Seq<EnrichStep>, x: EnrichStep)
    ensures
        (a + b).contains(x) <==> a.contains(x) || b.contains(x),
{
    vstd::seq_lib::lemma_seq_concat_contains_all_elements(a, b, x);
}

proof fn only_where(applies: bool, step: EnrichStep, x: EnrichStep)
    ensures
        steps::enrich_if(applies, step).contains(x) <==> applies && x == step,
{
    if applies {
        assert(seq![step][0] == step);
    }
}

/// What is done to enrich an album: each step where it is wanted, and where what it needs is there,
/// and nowhere else.
pub proof fn albums_are_enriched_as_told(
    cfg: Config,
    lyrics: Seq<char>,
    genres: Seq<char>,
    has_release: bool,
    x: EnrichStep,
)
    ensures
        ({
            let set = |s: Seq<char>| text::trimmed(s).len() > 0;
            steps::enrich_steps(cfg, lyrics, genres, has_release).contains(x) <==> match x {
                EnrichStep::AutoTag => cfg.auto_tag_from_mb && has_release,
                EnrichStep::ReplayGain { album } => cfg.write_replaygain && (album
                    <==> cfg.replay_gain_mode@ == "album"@),
                EnrichStep::Artwork => cfg.embed_artwork || cfg.write_cover_jpg,
                EnrichStep::Lyrics => lyrics == "lrclib"@ || lyrics == "genius"@,
                EnrichStep::Genres => genres.len() > 0,
                EnrichStep::AcousticTags => cfg.write_acoustic_tags && set(cfg.audiomuse_url@),
                EnrichStep::EssentiaGenres => genres == "essentia"@ && set(cfg.essentia_url@),
                EnrichStep::Rescan => cfg.scan_after_tag_write,
                EnrichStep::Resync => cfg.notify_audiomuse_after_run && set(cfg.audiomuse_url@),
                EnrichStep::RefreshArtists => cfg.lidarr_mode == LidarrMode::MetadataPlusRescan && set(
                    cfg.lidarr_url@,
                ) && set(cfg.lidarr_api_key@),
            }
        }),
{
    let whole = cfg.replay_gain_mode@ == "album"@;
    let watch = cfg.lidarr_mode == LidarrMode::MetadataPlusRescan && text::said(cfg.lidarr_url@)
        && text::said(cfg.lidarr_api_key@);
    let sound = cfg.write_acoustic_tags && text::said(cfg.audiomuse_url@);
    let heard = genres == "essentia"@ && text::said(cfg.essentia_url@);
    let told = cfg.notify_audiomuse_after_run && text::said(cfg.audiomuse_url@);
    let words = lyrics == "lrclib"@ || lyrics == "genius"@;
    let a = steps::enrich_if(cfg.auto_tag_from_mb && has_release, EnrichStep::AutoTag);
    let b = steps::enrich_if(cfg.write_replaygain, EnrichStep::ReplayGain { album: whole });
    let c = steps::enrich_if(cfg.embed_artwork || cfg.write_cover_jpg, EnrichStep::Artwork);
    let d = steps::enrich_if(words, EnrichStep::Lyrics);
    let e = steps::enrich_if(genres.len() > 0, EnrichStep::Genres);
    let f = steps::enrich_if(sound, EnrichStep::AcousticTags);
    let g = steps::enrich_if(heard, EnrichStep::EssentiaGenres);
    let h = steps::enrich_if(cfg.scan_after_tag_write, EnrichStep::Rescan);
    let i = steps::enrich_if(told, EnrichStep::Resync);
    let j = steps::enrich_if(watch, EnrichStep::RefreshArtists);
    in_either_part(a, b, x);
    in_either_part(a + b, c, x);
    in_either_part(a + b + c, d, x);
    in_either_part(a + b + c + d, e, x);
    in_either_part(a + b + c + d + e, f, x);
    in_either_part(a + b + c + d + e + f, g, x);
    in_either_part(a + b + c + d + e + f + g, h, x);
    in_either_part(a + b + c + d + e + f + g + h, i, x);
    in_either_part(a + b + c + d + e + f + g + h + i, j, x);
    only_where(cfg.auto_tag_from_mb && has_release, EnrichStep::AutoTag, x);
    only_where(cfg.write_replaygain, EnrichStep::ReplayGain { album: whole }, x);
    only_where(cfg.embed_artwork || cfg.write_cover_jpg, EnrichStep::Artwork, x);
    only_where(words, EnrichStep::Lyrics, x);
    only_where(genres.len() > 0, EnrichStep::Genres, x);
    only_where(sound, EnrichStep::AcousticTags, x);
    only_where(heard, EnrichStep::EssentiaGenres, x);
    only_where(cfg.scan_after_tag_write, EnrichStep::Rescan, x);
    only_where(told, EnrichStep::Resync, x);
    only_where(watch, EnrichStep::RefreshArtists, x);
}

/// What was done is told, and the tracks that were tagged or levelled are counted. What was done to
/// no track is not told.
pub proof fn what_was_done_is_told(b: EnrichBatchView, a: Action, ts: int)
    ensures
        ({
            let after = steps::with_action(b, a, ts);
            let told = match a {
                Action::Tagged { tracks, album } => tracks > 0,
                Action::WroteReplayGain { tracks, album, album_tags } => tracks > 0,
                Action::FetchedLyrics { files } => files > 0,
                Action::WroteAcoustic { tracks } => tracks > 0,
                Action::WroteEssentia { tracks } => tracks > 0,
                _ => true,
            };
            &&& told ==> after.actions == b.actions.push(posts::action_doc(ts, posts::words_for(a)))
            &&& !told ==> after.actions == b.actions
            &&& after.autotags == b.autotags + match a {
                Action::Tagged { tracks, album } => tracks as int,
                _ => 0int,
            }
            &&& after.replaygains == b.replaygains + match a {
                Action::WroteReplayGain { tracks, album, album_tags } => tracks as int,
                _ => 0int,
            }
        }),
{
}

// ---------------------------------------------------------------------------
// Passes

/// A pass begins exactly where no rollback is pending, there are libraries, nothing is played, and
/// the services are either not asked for or all in reach.
pub proof fn passes_begin_when_all_is_well(cfg: Config, known: Known)
    ensures
        pass::next_step(cfg, known) == PassStep::Start <==> cfg.rollback_run_id@.len() == 0 && (
        known.libraries matches Some(n) && n > 0) && known.idle == Some(true) && (
        !cfg.meta_gate_enabled || known.services == Some(None::<Provider>)),
{
}

/// A pass that does not begin says why: a rollback comes before everything, and then, in this order,
/// it asks for the libraries, for quiet and for the services, and tries again after two minutes
/// where something is played and after five where a service is out of reach.
pub proof fn passes_say_what_they_wait_for(cfg: Config, known: Known, n: usize, p: Provider)
    ensures
        ({
            let step = pass::next_step(cfg, known);
            let free = cfg.rollback_run_id@.len() == 0;
            let some = free && known.libraries == Some(n) && n > 0;
            &&& step == PassStep::RollBack <==> !free
            &&& step == PassStep::ListLibraries <==> free && known.libraries is None
            &&& step == PassStep::NothingToOrganize <==> free && known.libraries == Some(0usize)
            &&& some && known.idle is None ==> step == PassStep::CheckIdle
            &&& some && known.idle == Some(false) ==> step == PassStep::Defer { seconds: 120 }
            &&& some && known.idle == Some(true) && cfg.meta_gate_enabled && known.services is None
                ==> step == PassStep::CheckServices
            &&& some && known.idle == Some(true) && cfg.meta_gate_enabled && known.services == Some(
                Some(p),
            ) ==> step == PassStep::Skip { provider: p, seconds: 300 }
        }),
{
}

/// Each kind of task goes by one word, and no other word names a task.
pub proof fn tasks_go_by_their_word(word: Seq<char>)
    ensures
        ({
            let kind = pass::kind_named(word);
            &&& kind == Some(TaskKind::Scan) <==> word == "scan"@
            &&& kind == Some(TaskKind::Group) <==> word == "group"@
            &&& kind == Some(TaskKind::Plan) <==> word == "plan"@
            &&& kind == Some(TaskKind::FavoritesSync) <==> word == "favsync"@
            &&& kind == Some(TaskKind::Cleanup) <==> word == "cleanup"@
            &&& kind == Some(TaskKind::Migrate) <==> word == "migrate"@
            &&& kind == Some(TaskKind::Stats) <==> word == "stats"@
        }),
{
    reveal_strlit("scan");
    reveal_strlit("group");
    reveal_strlit("plan");
    reveal_strlit("favsync");
    reveal_strlit("cleanup");
    reveal_strlit("migrate");
    reveal_strlit("stats");
    assert("scan"@[0] == 's' && "plan"@[0] == 'p');
    assert("group"@[0] == 'g' && "stats"@[0] == 's');
    assert("favsync"@[0] == 'f' && "cleanup"@[0] == 'c' && "migrate"@[0] == 'm');
    assert("scan"@ != "plan"@ && "group"@ != "stats"@ && "favsync"@ != "cleanup"@);
    assert("favsync"@ != "migrate"@ && "cleanup"@ != "migrate"@);
    assert("scan"@.len() == 4 && "group"@.len() == 5 && "favsync"@.len() == 7);
}

/// The user who acts is the one that is set where it is among the users; else the first
/// administrator, and else the first user.
pub proof fn the_set_user_acts(set: Seq<char>, users: Seq<Seq<char>>, admins: Seq<Seq<char>>)
    ensures
        set.len() > 0 && users.contains(set) ==> pass::acting_user(set, users, admins) == set,
        users.len() == 0 ==> pass::acting_user(set, users, admins) == set,
        users.len() > 0 && !(set.len() > 0 && users.contains(set)) && admins.len() > 0
            && admins[0].len() > 0 ==> pass::acting_user(set, users, admins) == admins[0],
        users.len() > 0 && !(set.len() > 0 && users.contains(set)) && admins.len() == 0
            && users[0].len() > 0 ==> pass::acting_user(set, users, admins) == users[0],
{
}

/// Nothing is played exactly where no player of the answer says that it plays or is about to.
pub proof fn players_break_the_quiet(players: Seq<JsonView>)
    ensures
        ({
            let answer = JsonView::Object(
                seq![
                    (
                        "subsonic-response"@,
                        JsonView::Object(
                            seq![
                                (
                                    "nowPlaying"@,
                                    JsonView::Object(seq![("entry"@, JsonView::Array(players))]),
                                ),
                            ],
                        ),
                    ),
                ],
            );
            pass::quiet(Some(answer)) <==> forall|i: int|
                0 <= i < players.len() ==> !(json::member(#[trigger] players[i], "state"@) == Some(
                    JsonView::Str("playing"@),
                ) || json::member(players[i], "state"@) == Some(JsonView::Str("starting"@)))
        }),
        pass::quiet(None),
{
    let inner = seq![("entry"@, JsonView::Array(players))];
    let mid = seq![("nowPlaying"@, JsonView::Object(inner))];
    let outer = seq![("subsonic-response"@, JsonView::Object(mid))];
    assert(inner[0].0 == "entry"@ && mid[0].0 == "nowPlaying"@ && outer[0].0
        == "subsonic-response"@);
    let answer = JsonView::Object(outer);
    assert(json::member(answer, "subsonic-response"@) == Some(JsonView::Object(mid)));
    assert(json::member(JsonView::Object(mid), "nowPlaying"@) == Some(JsonView::Object(inner)));
    assert(json::member(JsonView::Object(inner), "entry"@) == Some(JsonView::Array(players)));
    assert(pass::players_in(Some(answer)) == players);
    assert(pass::players_in(None).len() == 0);
    assert forall|i: int| 0 <= i < players.len() implies pass::plays(#[trigger] players[i]) == (
    json::member(players[i], "state"@) == Some(JsonView::Str("playing"@)) || json::member(
        players[i],
        "state"@,
    ) == Some(JsonView::Str("starting"@))) by {}
    if pass::quiet(Some(answer)) {
        assert forall|i: int| 0 <= i < players.len() implies !(json::member(
            #[trigger] players[i],
            "state"@,
        ) == Some(JsonView::Str("playing"@)) || json::member(players[i], "state"@) == Some(
            JsonView::Str("starting"@),
        )) by {
            assert(!pass::plays(pass::players_in(Some(answer))[i]));
        }
    }
}

/// A run asks for exactly the services that its settings make use of.
pub proof fn services_are_needed_where_used(cfg: Config)
    ensures
        ({
            let set = |s: Seq<char>| text::trimmed(s).len() > 0;
            &&& pass::needs(cfg, Provider::AcoustId) <==> cfg.verify_identity && cfg.acoustid_mode
                != AcoustIdMode::Disabled && set(cfg.acoustid_url@)
            &&& pass::needs(cfg, Provider::MusicBrainz) <==> cfg.classify_from_mb || cfg.genre_from@
                == "musicbrainz"@ || cfg.genre_from@ == "both"@ || cfg.primary_source
                == PrimarySource::MusicBrainz
            &&& pass::needs(cfg, Provider::Lidarr) <==> cfg.lidarr_mode != LidarrMode::Disabled && set(
                cfg.lidarr_url@,
            )
        }),
{
}

/// The services that are asked for are those of the list that are needed, all of them.
pub proof fn every_needed_service_is_asked(cfg: Config, all: Seq<Provider>)
    ensures
        pass::needed_of(cfg, all) == all.filter(|p: Provider| pass::needs(cfg, p)),
    decreases all.len(),
{
    reveal(Seq::filter);
    if all.len() > 0 {
        every_needed_service_is_asked(cfg, all.drop_last());
    } else {
        assert(pass::needed_of(cfg, all) =~= Seq::empty());
    }
}

/// The records that are undone in a library are all those that were made in it, and no others.
pub proof fn records_go_by_library(recs: Seq<ApplyRecord>, library_id: i32)
    ensures
        pass::records_of(recs, library_id) == recs.filter(
            |r: ApplyRecord| r.library_id == library_id,
        ),
    decreases recs.len(),
{
    reveal(Seq::filter);
    if recs.len() > 0 {
        records_go_by_library(recs.drop_last(), library_id);
    } else {
        assert(pass::records_of(recs, library_id) =~= Seq::empty());
    }
}

/// Playback is looked at every so many minutes, hourly at most, where it is looked at at all; and
/// missing files are trimmed every so many days, monthly at most.
pub proof fn schedules_follow_the_settings(cfg: Config)
    ensures
        pass::stats_schedule(cfg) is Some <==> cfg.playback_stats_enabled && cfg.stats_poll_minutes
            > 0,
        pass::stats_schedule(cfg) is Some && cfg.stats_poll_minutes <= 60 ==> pass::stats_schedule(
            cfg,
        ) == Some("*/"@ + text::decimal(cfg.stats_poll_minutes as nat) + " * * * *"@),
        pass::stats_schedule(cfg) is Some && cfg.stats_poll_minutes > 60 ==> pass::stats_schedule(
            cfg,
        ) == Some("*/"@ + text::decimal(60) + " * * * *"@),
        pass::trim_schedule(cfg) is Some <==> cfg.trim_missing_days > 0,
        0 < cfg.trim_missing_days <= 30 ==> pass::trim_schedule(cfg) == Some(
            "0 4 */"@ + text::decimal(cfg.trim_missing_days as nat) + " * *"@,
        ),
        cfg.trim_missing_days > 30 ==> pass::trim_schedule(cfg) == Some(
            "0 4 */"@ + text::decimal(30) + " * *"@,
        ),
{
}

} // verus!
