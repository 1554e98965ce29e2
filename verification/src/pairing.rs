//! Which files are paired to an album: only those whose identity is sure enough. The others go to
//! their artist's singles folder.

use crate::config::Config;
use crate::fraction::Fraction;
use crate::identity;
use crate::organizer;
use crate::organizer::{Disk, FileMove, GroupPlan, GroupPlanView, MoveView};
use crate::tags::{TagsView, TrackTags};
use crate::text;
use vstd::prelude::*;

verus! {

/// A file is paired to its album: its identity reaches the threshold, or files are not checked, or
/// those that are not sure are organized by their tags all the same.
pub open spec fn paired(cfg: Config, t: TagsView, floor: Fraction) -> bool {
    !cfg.verify_identity || !cfg.skip_unverified || identity::scored(t, None).reaches(
        floor.within_one(),
    )
}

/// The files of a group that are paired to its album, in their order.
pub open spec fn sure_files(files: Seq<(Seq<char>, TagsView)>, cfg: Config, floor: Fraction) -> Seq<
    (Seq<char>, TagsView),
>
    decreases files.len(),
{
    if files.len() == 0 {
        Seq::empty()
    } else {
        let before = sure_files(files.drop_last(), cfg, floor);
        if paired(cfg, files.last().1, floor) {
            before.push(files.last())
        } else {
            before
        }
    }
}

/// The files of a group that are not paired to its album, in their order.
pub open spec fn unsure_files(files: Seq<(Seq<char>, TagsView)>, cfg: Config, floor: Fraction) -> Seq<
    (Seq<char>, TagsView),
>
    decreases files.len(),
{
    if files.len() == 0 {
        Seq::empty()
    } else {
        let before = unsure_files(files.drop_last(), cfg, floor);
        if paired(cfg, files.last().1, floor) {
            before
        } else {
            before.push(files.last())
        }
    }
}

/// The artist in whose folder a file goes that is paired to no album.
pub open spec fn owner(t: TagsView) -> Seq<char> {
    if text::trimmed(t.album_artist).len() > 0 {
        t.album_artist
    } else {
        t.artist
    }
}

/// A file lies in its artist's singles folder already.
pub open spec fn is_single(cfg: Config, f: (Seq<char>, TagsView)) -> bool {
    organizer::parent(f.0) == organizer::singles_dir(cfg, owner(f.1))
}

/// Where moves go.
pub open spec fn ends(v: Seq<MoveView>) -> Seq<Seq<char>> {
    v.map_values(|m: MoveView| m.to)
}

/// The moves that take files to their artists' singles folders, each to a path that nothing holds
/// and no earlier move takes. A file that lies there already stays.
pub open spec fn routes(
    files: Seq<(Seq<char>, TagsView)>,
    cfg: Config,
    disk: Disk,
    held: Seq<Seq<char>>,
) -> Seq<MoveView>
    decreases files.len(),
{
    if files.len() == 0 {
        Seq::empty()
    } else {
        let before = routes(files.drop_last(), cfg, disk, held);
        let f = files.last();
        if is_single(cfg, f) {
            before
        } else {
            before.push(
                MoveView {
                    from: f.0,
                    to: organizer::single_target(
                        cfg,
                        held + ends(before),
                        owner(f.1),
                        f.1.album,
                        f.0,
                    ),
                    sidecars: if cfg.rename_sidecars {
                        organizer::companions(
                            disk.names(organizer::parent(f.0)),
                            organizer::sidecar_stem(f.0),
                        )
                    } else {
                        Seq::empty()
                    },
                },
            )
        }
    }
}

/// What is there once an album's own files are in place.
pub open spec fn held_by(p: GroupPlanView, disk: Disk) -> Seq<Seq<char>> {
    disk.paths() + ends(p.moves) + organizer::targets_of(p.duplicates)
}

/// The plan for a group of which only the files that are sure enough make the album. The others
/// are named as unverified and go to their artists' singles folders. Without a sure file there is
/// no album, and so no folder of one.
pub open spec fn checked_plan(
    files: Seq<(Seq<char>, TagsView)>,
    cfg: Config,
    floor: Fraction,
    folder_hint: Seq<char>,
    release_type: Seq<char>,
    disk: Disk,
) -> GroupPlanView {
    let sure = sure_files(files, cfg, floor);
    let unsure = unsure_files(files, cfg, floor);
    let p = organizer::group_plan(sure, cfg, folder_hint, release_type, disk);
    let routed = routes(unsure, cfg, disk, held_by(p, disk));
    GroupPlanView {
        target_dir: if sure.len() > 0 {
            p.target_dir
        } else {
            Seq::empty()
        },
        moves: p.moves + routed,
        unverified: organizer::group_sources(unsure),
        kept: (p.kept + (unsure.len() - routed.len())) as nat,
        ..p
    }
}

fn copy_tags(t: &TrackTags) -> (r: TrackTags)
    ensures
        r@ == t@,
{
    TrackTags {
        title: t.title.clone(),
        artist: t.artist.clone(),
        album_artist: t.album_artist.clone(),
        album: t.album.clone(),
        year: t.year,
        track: t.track,
        disc: t.disc,
        genre: t.genre.clone(),
        recording: t.recording,
        isrc: t.isrc.clone(),
        mbid_recording: t.mbid_recording.clone(),
        mbid_album: t.mbid_album.clone(),
        mbid_artist: t.mbid_artist.clone(),
    }
}

fn is_paired(cfg: &Config, t: &TrackTags, floor: &Fraction) -> (r: bool)
    requires
        floor.wf(),
    ensures
        r == paired(*cfg, t@, *floor),
{
    !cfg.verify_identity || !cfg.skip_unverified || identity::is_verified(t, *floor, None)
}

fn push_file(list: &mut Vec<(String, TrackTags)>, path: &str, t: &TrackTags)
    ensures
        organizer::file_views(final(list)@) == organizer::file_views(old(list)@).push((path@, t@)),
{
    let ghost before = list@;
    list.push((text::copy(path), copy_tags(t)));
    assert(organizer::file_views(list@) =~= organizer::file_views(before).push((path@, t@)));
}

/// Parts the files that are paired to the album from the others.
pub fn part_files(files: &Vec<(String, TrackTags)>, cfg: &Config, floor: &Fraction) -> (r: (
    Vec<(String, TrackTags)>,
    Vec<(String, TrackTags)>,
))
    requires
        floor.wf(),
    ensures
        organizer::file_views(r.0@) == sure_files(organizer::file_views(files@), *cfg, *floor),
        organizer::file_views(r.1@) == unsure_files(organizer::file_views(files@), *cfg, *floor),
        r.0@.len() + r.1@.len() == files@.len(),
{
    let ghost all = organizer::file_views(files@);
    let mut sure: Vec<(String, TrackTags)> = Vec::new();
    let mut unsure: Vec<(String, TrackTags)> = Vec::new();
    let mut i: usize = 0;
    proof {
        assert(organizer::file_views(sure@) =~= sure_files(all.take(0), *cfg, *floor));
        assert(organizer::file_views(unsure@) =~= unsure_files(all.take(0), *cfg, *floor));
    }
    while i < files.len()
        invariant
            i <= files@.len() == all.len(),
            floor.wf(),
            all == organizer::file_views(files@),
            organizer::file_views(sure@) == sure_files(all.take(i as int), *cfg, *floor),
            organizer::file_views(unsure@) == unsure_files(all.take(i as int), *cfg, *floor),
            sure@.len() + unsure@.len() == i,
        decreases files@.len() - i,
    {
        proof {
            assert(all.take(i + 1).drop_last() =~= all.take(i as int));
            assert(all.take(i + 1).last() == (files@[i as int].0@, files@[i as int].1@));
        }
        let path = files[i].0.as_str();
        let t = &files[i].1;
        if is_paired(cfg, t, floor) {
            push_file(&mut sure, path, t);
            assert(organizer::file_views(sure@).len() == sure@.len());
        } else {
            push_file(&mut unsure, path, t);
            assert(organizer::file_views(unsure@).len() == unsure@.len());
        }
        i = i + 1;
    }
    assert(all.take(i as int) =~= all);
    (sure, unsure)
}

/// Whose singles folder a file goes to.
fn owner_of(t: &TrackTags) -> (r: String)
    ensures
        r@ == owner(t@),
{
    if text::length(text::trim(t.album_artist.as_str()).as_str()) > 0 {
        t.album_artist.clone()
    } else {
        t.artist.clone()
    }
}

fn push_path(list: &mut Vec<String>, path: &str)
    ensures
        text::views(final(list)@) == text::views(old(list)@).push(path@),
        final(list)@.len() == old(list)@.len() + 1,
{
    let p = text::copy(path);
    proof {
        text::views_push(list@, p);
    }
    list.push(p);
}

/// Everything that is there once an album's own files are in place.
fn list_held(plan: &GroupPlan, disk: &Disk) -> (r: Vec<String>)
    ensures
        text::views(r@) == held_by(plan@, *disk),
        r@.len() == disk.existing@.len() + plan.moves@.len() + plan.duplicates@.len(),
{
    let mut held: Vec<String> = Vec::new();
    let ghost there = disk.paths();
    let ghost moved = ends(plan@.moves);
    let ghost singles = organizer::targets_of(plan@.duplicates);
    let mut i: usize = 0;
    assert(text::views(held@) =~= there.take(0));
    while i < disk.existing.len()
        invariant
            i <= disk.existing@.len(),
            there == disk.paths(),
            there.len() == disk.existing@.len(),
            held@.len() == i,
            text::views(held@) == there.take(i as int),
        decreases disk.existing@.len() - i,
    {
        push_path(&mut held, disk.existing[i].as_str());
        assert(there.take(i + 1) =~= there.take(i as int).push(disk.existing@[i as int]@));
        i = i + 1;
    }
    assert(there.take(i as int) =~= there);
    let mut j: usize = 0;
    assert(there + moved.take(0) =~= there);
    while j < plan.moves.len()
        invariant
            j <= plan.moves@.len(),
            moved == ends(plan@.moves),
            moved.len() == plan.moves@.len(),
            held@.len() == disk.existing@.len() + j,
            text::views(held@) == there + moved.take(j as int),
        decreases plan.moves@.len() - j,
    {
        assert(plan@.moves[j as int] == plan.moves@[j as int]@);
        push_path(&mut held, plan.moves[j].to.as_str());
        assert(there + moved.take(j + 1) =~= (there + moved.take(j as int)).push(moved[j as int]));
        j = j + 1;
    }
    assert(moved.take(j as int) =~= moved);
    let mut k: usize = 0;
    assert(there + moved + singles.take(0) =~= there + moved);
    while k < plan.duplicates.len()
        invariant
            k <= plan.duplicates@.len(),
            singles == organizer::targets_of(plan@.duplicates),
            singles.len() == plan.duplicates@.len(),
            held@.len() == disk.existing@.len() + plan.moves@.len() + k,
            text::views(held@) == there + moved + singles.take(k as int),
        decreases plan.duplicates@.len() - k,
    {
        assert(plan@.duplicates[k as int] == plan.duplicates@[k as int]@);
        push_path(&mut held, plan.duplicates[k].target.as_str());
        assert(there + moved + singles.take(k + 1) =~= (there + moved + singles.take(
            k as int,
        )).push(singles[k as int]));
        k = k + 1;
    }
    assert(singles.take(k as int) =~= singles);
    held
}

/// Plans the moves of the files that are paired to no album.
fn route_files(files: &Vec<(String, TrackTags)>, cfg: &Config, disk: &Disk, held: Vec<String>) -> (r:
    Vec<FileMove>)
    requires
        held@.len() + files@.len() <= i32::MAX,
    ensures
        organizer::move_views(r@) == routes(
            organizer::file_views(files@),
            *cfg,
            *disk,
            text::views(held@),
        ),
        r@.len() <= files@.len(),
{
    let ghost all = organizer::file_views(files@);
    let ghost first = text::views(held@);
    let ghost size = held@.len();
    let mut taken = held;
    let mut out: Vec<FileMove> = Vec::new();
    let mut i: usize = 0;
    proof {
        assert(organizer::move_views(out@) =~= routes(all.take(0), *cfg, *disk, first));
        assert(first + ends(organizer::move_views(out@)) =~= first);
    }
    while i < files.len()
        invariant
            i <= files@.len() == all.len(),
            all == organizer::file_views(files@),
            size + files@.len() <= i32::MAX,
            taken@.len() == size + out@.len(),
            out@.len() <= i,
            organizer::move_views(out@) == routes(all.take(i as int), *cfg, *disk, first),
            text::views(taken@) == first + ends(organizer::move_views(out@)),
        decreases files@.len() - i,
    {
        proof {
            assert(all.take(i + 1).drop_last() =~= all.take(i as int));
            assert(all.take(i + 1).last() == (files@[i as int].0@, files@[i as int].1@));
        }
        let path = files[i].0.as_str();
        let t = &files[i].1;
        let artist = owner_of(t);
        let home = organizer::singles_folder_of(cfg, artist.as_str());
        if !text::same(organizer::parent_of(path).as_str(), home.as_str()) {
            let to = organizer::singles_target(
                cfg,
                &taken,
                artist.as_str(),
                t.album.as_str(),
                path,
            );
            let ghost before = organizer::move_views(out@);
            push_path(&mut taken, to.as_str());
            let sidecars = organizer::file_companions(path, cfg, disk);
            let m = FileMove { from: text::copy(path), to, sidecars };
            let ghost shown = m@;
            out.push(m);
            proof {
                assert(organizer::move_views(out@) =~= before.push(shown));
                assert(first + ends(before.push(shown)) =~= (first + ends(before)).push(shown.to));
            }
        }
        i = i + 1;
    }
    assert(all.take(i as int) =~= all);
    out
}

/// Builds the change plan for a group of files of which only those that are sure enough make the
/// album. `floor` is the threshold.
pub fn build_checked_plan(
    disk: &Disk,
    cfg: &Config,
    files: &Vec<(String, TrackTags)>,
    floor: &Fraction,
    folder_hint: &str,
    mb_release_type: &str,
) -> (r: GroupPlan)
    requires
        floor.wf(),
        disk.existing@.len() + files@.len() <= i32::MAX,
    ensures
        r@ == checked_plan(
            organizer::file_views(files@),
            *cfg,
            *floor,
            folder_hint@,
            mb_release_type@,
            *disk,
        ),
{
    let (sure, unsure) = part_files(files, cfg, floor);
    let ghost plain = organizer::file_views(sure@);
    let ghost p = organizer::group_plan(plain, *cfg, folder_hint@, mb_release_type@, *disk);
    let mut plan = organizer::build_group_plan(disk, cfg, &sure, folder_hint, mb_release_type);
    proof {
        organizer::plan_adds_up(plain, *cfg, folder_hint@, mb_release_type@, *disk);
        assert(plain.len() == sure@.len());
        assert(plan@.moves.len() == plan.moves@.len());
        assert(plan@.duplicates.len() == plan.duplicates@.len());
    }
    let held = list_held(&plan, disk);
    let mut routed = route_files(&unsure, cfg, disk, held);
    let ghost more = organizer::move_views(routed@);
    let staying: usize = unsure.len() - routed.len();
    let ghost before = organizer::move_views(plan.moves@);
    let ghost added = routed@;
    plan.moves.append(&mut routed);
    assert(organizer::move_views(plan.moves@) =~= before + more);
    plan.kept = plan.kept + staying;
    let mut i: usize = 0;
    let ghost lost = organizer::file_views(unsure@);
    let ghost names = organizer::group_sources(lost);
    plan.unverified = Vec::new();
    assert(text::views(plan.unverified@) =~= names.take(0));
    while i < unsure.len()
        invariant
            i <= unsure@.len(),
            lost == organizer::file_views(unsure@),
            names == organizer::group_sources(lost),
            names.len() == unsure@.len(),
            text::views(plan.unverified@) == names.take(i as int),
            plan.bucket == p.bucket,
            plan.target_dir@ == p.target_dir,
            organizer::move_views(plan.moves@) == p.moves + more,
            organizer::duplicate_views(plan.duplicates@) == p.duplicates,
            text::views(plan.fillers@) == p.fillers,
            plan.kept == p.kept + staying,
            organizer::pair_views(plan.skipped@) == p.skipped,
        decreases unsure@.len() - i,
    {
        push_path(&mut plan.unverified, unsure[i].0.as_str());
        assert(names.take(i + 1) =~= names.take(i as int).push(unsure@[i as int].0@));
        i = i + 1;
    }
    assert(names.take(i as int) =~= names);
    if sure.len() == 0 {
        plan.target_dir = String::new();
        assert(plan.target_dir@ =~= Seq::<char>::empty());
    }
    plan
}

// ---------------------------------------------------------------------------
// Laws

proof fn parted(files: Seq<(Seq<char>, TagsView)>, cfg: Config, floor: Fraction)
    ensures
        sure_files(files, cfg, floor).len() + unsure_files(files, cfg, floor).len() == files.len(),
        forall|i: int|
            0 <= i < sure_files(files, cfg, floor).len() ==> paired(
                cfg,
                (#[trigger] sure_files(files, cfg, floor)[i]).1,
                floor,
            ),
        forall|i: int|
            0 <= i < unsure_files(files, cfg, floor).len() ==> !paired(
                cfg,
                (#[trigger] unsure_files(files, cfg, floor)[i]).1,
                floor,
            ),
    decreases files.len(),
{
    if files.len() > 0 {
        parted(files.drop_last(), cfg, floor);
    }
}

/// Only files that are sure enough make an album: the others are not among those that it is
/// planned from.
pub proof fn only_sure_files_make_an_album(
    files: Seq<(Seq<char>, TagsView)>,
    cfg: Config,
    floor: Fraction,
    i: int,
)
    requires
        cfg.verify_identity,
        cfg.skip_unverified,
        0 <= i < sure_files(files, cfg, floor).len(),
    ensures
        identity::scored(sure_files(files, cfg, floor)[i].1, None).reaches(floor.within_one()),
{
    parted(files, cfg, floor);
    assert(paired(cfg, sure_files(files, cfg, floor)[i].1, floor));
}

proof fn all_sure(files: Seq<(Seq<char>, TagsView)>, cfg: Config, floor: Fraction)
    requires
        forall|i: int| 0 <= i < files.len() ==> paired(cfg, (#[trigger] files[i]).1, floor),
    ensures
        sure_files(files, cfg, floor) == files,
        unsure_files(files, cfg, floor).len() == 0,
    decreases files.len(),
{
    if files.len() > 0 {
        assert forall|i: int| 0 <= i < files.drop_last().len() implies paired(
            cfg,
            (#[trigger] files.drop_last()[i]).1,
            floor,
        ) by {
            assert(files.drop_last()[i] == files[i]);
        }
        all_sure(files.drop_last(), cfg, floor);
        assert(files[files.len() - 1] == files.last());
        assert(files.drop_last().push(files.last()) =~= files);
    } else {
        assert(sure_files(files, cfg, floor) =~= files);
    }
}

/// A group in which every file is sure enough is planned as a whole.
pub proof fn a_sure_group_is_planned_as_a_whole(
    files: Seq<(Seq<char>, TagsView)>,
    cfg: Config,
    floor: Fraction,
    folder_hint: Seq<char>,
    release_type: Seq<char>,
    disk: Disk,
)
    requires
        files.len() > 0,
        forall|i: int| 0 <= i < files.len() ==> paired(cfg, (#[trigger] files[i]).1, floor),
    ensures
        checked_plan(files, cfg, floor, folder_hint, release_type, disk) == organizer::group_plan(
            files,
            cfg,
            folder_hint,
            release_type,
            disk,
        ),
{
    all_sure(files, cfg, floor);
    let p = organizer::group_plan(files, cfg, folder_hint, release_type, disk);
    assert(p.moves + Seq::<MoveView>::empty() =~= p.moves);
    assert(organizer::group_sources(unsure_files(files, cfg, floor)) =~= Seq::<Seq<char>>::empty());
}

proof fn routes_hold(
    files: Seq<(Seq<char>, TagsView)>,
    cfg: Config,
    disk: Disk,
    held: Seq<Seq<char>>,
)
    ensures
        ({
            let v = routes(files, cfg, disk, held);
            &&& v.len() <= files.len()
            &&& forall|a: int|
                0 <= a < v.len() ==> !held.contains((#[trigger] v[a]).to) && exists|i: int|
                    #![trigger files[i]]
                    0 <= i < files.len() && v[a].from == files[i].0 && text::begins(
                        v[a].to,
                        organizer::singles_dir(cfg, owner(files[i].1)) + "/"@,
                    )
            &&& forall|a: int, b: int|
                0 <= a < b < v.len() ==> (#[trigger] v[a]).to != (#[trigger] v[b]).to
        }),
    decreases files.len(),
{
    if files.len() > 0 {
        let rest = files.drop_last();
        routes_hold(rest, cfg, disk, held);
        let before = routes(rest, cfg, disk, held);
        let v = routes(files, cfg, disk, held);
        let f = files.last();
        assert forall|a: int| 0 <= a < before.len() implies exists|i: int|
            #![trigger files[i]]
            0 <= i < files.len() && before[a].from == files[i].0 && text::begins(
                (#[trigger] before[a]).to,
                organizer::singles_dir(cfg, owner(files[i].1)) + "/"@,
            ) by {
            let i = choose|i: int|
                #![trigger rest[i]]
                0 <= i < rest.len() && before[a].from == rest[i].0 && text::begins(
                    before[a].to,
                    organizer::singles_dir(cfg, owner(rest[i].1)) + "/"@,
                );
            assert(rest[i] == files[i]);
        }
        if !is_single(cfg, f) {
            let occ = held + ends(before);
            organizer::single_target_is_free(cfg, occ, owner(f.1), f.1.album, f.0);
            organizer::single_target_lies_there(cfg, occ, owner(f.1), f.1.album, f.0);
            let last = v[v.len() - 1];
            assert(files[files.len() - 1] == f);
            assert(!held.contains(last.to)) by {
                if held.contains(last.to) {
                    let k = choose|k: int| 0 <= k < held.len() && held[k] == last.to;
                    assert(occ[k] == last.to);
                }
            }
            assert forall|a: int| 0 <= a < v.len() implies !held.contains((#[trigger] v[a]).to)
                && exists|i: int|
                #![trigger files[i]]
                0 <= i < files.len() && v[a].from == files[i].0 && text::begins(
                    v[a].to,
                    organizer::singles_dir(cfg, owner(files[i].1)) + "/"@,
                ) by {
                if a < before.len() {
                    assert(v[a] == before[a]);
                }
            }
            assert forall|a: int, b: int| 0 <= a < b < v.len() implies (#[trigger] v[a]).to != (
            #[trigger] v[b]).to by {
                assert(v[a] == before[a]);
                if b < before.len() {
                    assert(v[b] == before[b]);
                } else if v[a].to == last.to {
                    assert(occ[held.len() + a] == last.to);
                }
            }
        }
    }
}

/// A file that is not sure enough is moved to its artist's singles folder or stays there, and on
/// its way overwrites nothing: neither what exists, nor what the album's own files or another
/// such file become.
pub proof fn unsure_files_go_to_singles(
    files: Seq<(Seq<char>, TagsView)>,
    cfg: Config,
    floor: Fraction,
    folder_hint: Seq<char>,
    release_type: Seq<char>,
    disk: Disk,
)
    ensures
        ({
            let unsure = unsure_files(files, cfg, floor);
            let p = organizer::group_plan(
                sure_files(files, cfg, floor),
                cfg,
                folder_hint,
                release_type,
                disk,
            );
            let c = checked_plan(files, cfg, floor, folder_hint, release_type, disk);
            let n = p.moves.len();
            &&& forall|a: int|
                n <= a < c.moves.len() ==> !held_by(p, disk).contains((#[trigger] c.moves[a]).to)
                    && exists|i: int|
                    #![trigger unsure[i]]
                    0 <= i < unsure.len() && c.moves[a].from == unsure[i].0 && text::begins(
                        c.moves[a].to,
                        organizer::singles_dir(cfg, owner(unsure[i].1)) + "/"@,
                    )
            &&& forall|a: int, b: int|
                n <= a < b < c.moves.len() ==> (#[trigger] c.moves[a]).to != (#[trigger] c.moves[b]).to
        }),
{
    let unsure = unsure_files(files, cfg, floor);
    let p = organizer::group_plan(
        sure_files(files, cfg, floor),
        cfg,
        folder_hint,
        release_type,
        disk,
    );
    let c = checked_plan(files, cfg, floor, folder_hint, release_type, disk);
    let v = routes(unsure, cfg, disk, held_by(p, disk));
    let n = p.moves.len();
    routes_hold(unsure, cfg, disk, held_by(p, disk));
    assert forall|a: int| n <= a < c.moves.len() implies #[trigger] c.moves[a] == v[a - n] by {}
    assert forall|a: int, b: int| n <= a < b < c.moves.len() implies (#[trigger] c.moves[a]).to != (
    #[trigger] c.moves[b]).to by {
        assert(v[a - n].to != v[b - n].to);
    }
}

/// A plan with a check accounts for every file of the group once too.
pub proof fn checked_plan_accounts_for_every_file(
    files: Seq<(Seq<char>, TagsView)>,
    cfg: Config,
    floor: Fraction,
    folder_hint: Seq<char>,
    release_type: Seq<char>,
    disk: Disk,
)
    ensures
        ({
            let c = checked_plan(files, cfg, floor, folder_hint, release_type, disk);
            c.moves.len() + c.skipped.len() + c.kept + c.duplicates.len() == files.len()
        }),
{
    let sure = sure_files(files, cfg, floor);
    parted(files, cfg, floor);
    organizer::plan_adds_up(sure, cfg, folder_hint, release_type, disk);
    let p = organizer::group_plan(sure, cfg, folder_hint, release_type, disk);
    routes_hold(unsure_files(files, cfg, floor), cfg, disk, held_by(p, disk));
}

} // verus!
