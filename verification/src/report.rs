//! Reports in plain words: what was or would be moved, kept and skipped.

use crate::organizer;
use crate::organizer::{AlbumPlan, AlbumPlanView, Bucket, Duplicate, DuplicateView, FileMove};
use crate::organizer::{GroupPlan, GroupPlanView, MoveView};
use crate::tags;
use crate::text;
use vstd::prelude::*;

verus! {

/// A path as it is shown.
pub open spec fn shown_path(rel: Seq<char>) -> Seq<char> {
    "/"@ + rel
}

fn display_path(rel: &str) -> (r: String)
    ensures
        r@ == shown_path(rel@),
{
    text::join_two("/", rel)
}

/// A bucket in words.
pub open spec fn bucket_words(b: Bucket) -> Seq<char> {
    match b {
        Bucket::Soundtrack => "Soundtrack"@,
        Bucket::Various => "Various artists (compilation)"@,
        Bucket::Singles => "Single / incomplete"@,
        Bucket::Normal => "Normal album"@,
    }
}

fn bucket_text(b: Bucket) -> (r: &'static str)
    ensures
        r@ == bucket_words(b),
{
    match b {
        Bucket::Soundtrack => "Soundtrack",
        Bucket::Various => "Various artists (compilation)",
        Bucket::Singles => "Single / incomplete",
        Bucket::Normal => "Normal album",
    }
}

// ---------------------------------------------------------------------------
// The report on a run

/// The line on the files that go along.
pub open spec fn extras_line(extras: Seq<Seq<char>>) -> Seq<char> {
    if extras.len() == 0 {
        Seq::empty()
    } else {
        "      also moves: "@ + text::joined(extras, ", "@) + "\n"@
    }
}

/// The lines on one move. The files of the folder as a whole are named with every move.
pub open spec fn move_lines(m: MoveView, dir_sidecars: Seq<Seq<char>>) -> Seq<char> {
    "    - "@ + organizer::last_part(m.to) + "\n"@ + "      from: "@ + shown_path(m.from) + "\n"@
        + "      to:   "@ + shown_path(m.to) + "\n"@ + extras_line(dir_sidecars + m.sidecars)
}

pub open spec fn all_move_lines(moves: Seq<MoveView>, dir_sidecars: Seq<Seq<char>>) -> Seq<char>
    decreases moves.len(),
{
    if moves.len() == 0 {
        Seq::empty()
    } else {
        all_move_lines(moves.drop_last(), dir_sidecars) + move_lines(moves.last(), dir_sidecars)
    }
}

pub open spec fn skip_lines(skipped: Seq<(Seq<char>, Seq<char>)>) -> Seq<char>
    decreases skipped.len(),
{
    if skipped.len() == 0 {
        Seq::empty()
    } else {
        skip_lines(skipped.drop_last()) + "    - "@ + shown_path(skipped.last().0) + "  --  "@
            + skipped.last().1 + "\n"@
    }
}

pub open spec fn target_line(p: AlbumPlanView) -> Seq<char> {
    if organizer::same_but_case(p.current_dir, p.target_dir) {
        "  Target folder:  (unchanged)\n"@
    } else {
        "  Target folder:  "@ + shown_path(p.target_dir) + "\n"@
    }
}

pub open spec fn album_moves(p: AlbumPlanView) -> Seq<char> {
    if p.moves.len() > 0 {
        "  Files to move ("@ + text::decimal(p.moves.len()) + "):\n"@ + all_move_lines(
            p.moves,
            p.dir_sidecars,
        )
    } else {
        "  No files to move.\n"@
    }
}

pub open spec fn album_skips(p: AlbumPlanView) -> Seq<char> {
    if p.skipped.len() > 0 {
        "  Could not move ("@ + text::decimal(p.skipped.len()) + "):\n"@ + skip_lines(p.skipped)
    } else {
        Seq::empty()
    }
}

/// The block on one album of so many.
pub open spec fn album_block(i: nat, n: nat, p: AlbumPlanView) -> Seq<char> {
    "--- Album "@ + text::decimal(i) + "/"@ + text::decimal(n) + "  ("@ + bucket_words(p.bucket)
        + ") ---\n"@ + "  Current folder: "@ + shown_path(p.current_dir) + "\n"@ + target_line(p)
        + album_moves(p) + album_skips(p) + "\n"@
}

pub open spec fn plan_views(v: Seq<AlbumPlan>) -> Seq<AlbumPlanView> {
    v.map_values(|p: AlbumPlan| p@)
}

/// The blocks on the first `k` of so many albums.
pub open spec fn album_blocks(plans: Seq<AlbumPlanView>, k: int) -> Seq<char>
    decreases k,
{
    if k <= 0 {
        Seq::empty()
    } else {
        album_blocks(plans, k - 1) + album_block(k as nat, plans.len(), plans[k - 1])
    }
}

/// Sums over the first `k` plans: albums with moves, moves, files kept, files skipped.
pub open spec fn sums(plans: Seq<AlbumPlanView>, k: int) -> (int, int, int, int)
    decreases k,
{
    if k <= 0 {
        (0, 0, 0, 0)
    } else {
        let (albums, moves, kept, skipped) = sums(plans, k - 1);
        let p = plans[k - 1];
        (
            albums + if p.moves.len() > 0 {
                1int
            } else {
                0
            },
            moves + p.moves.len(),
            kept + p.keeps,
            skipped + p.skipped.len(),
        )
    }
}

/// The sums of a report fit a counter.
pub open spec fn sums_fit(plans: Seq<AlbumPlanView>) -> bool {
    let (albums, moves, kept, skipped) = sums(plans, plans.len() as int);
    moves <= u64::MAX && kept <= u64::MAX && skipped <= u64::MAX
}

proof fn sums_grow(plans: Seq<AlbumPlanView>, a: int, b: int)
    requires
        0 <= a <= b <= plans.len(),
    ensures
        0 <= sums(plans, a).0 <= a,
        0 <= sums(plans, a).1 <= sums(plans, b).1,
        0 <= sums(plans, a).2 <= sums(plans, b).2,
        0 <= sums(plans, a).3 <= sums(plans, b).3,
    decreases b,
{
    if a < b {
        sums_grow(plans, a, b - 1);
    } else if a > 0 {
        sums_grow(plans, a - 1, a - 1);
    }
}

pub open spec fn run_line(run_id: Option<Seq<char>>) -> Seq<char> {
    match run_id {
        Some(run) => "Run ID: "@ + run
            + "   (copy this into the 'Rollback run ID' setting to undo this run)\n"@,
        None => Seq::empty(),
    }
}

pub open spec fn report_head(
    mode: Seq<char>,
    label: Seq<char>,
    n: nat,
    run_id: Option<Seq<char>>,
) -> Seq<char> {
    "===== nd-organizer run report =====\n"@ + "Mode: "@ + mode + "\n"@ + "Library: "@ + label
        + "\n"@ + "Albums checked: "@ + text::decimal(n) + "\n"@ + run_line(run_id) + "\n"@
}

pub open spec fn closing(mode: Seq<char>, run_id: Option<Seq<char>>) -> Seq<char> {
    if mode == "dryRun"@ {
        "This was a dry run: nothing was written or renamed.\n"@
    } else {
        match run_id {
            Some(run) => "Changes above were applied.\n"@
                + "To undo this run, set the 'Rollback run ID' setting to: "@ + run + "\n"@,
            None => "Changes above were applied.\n"@,
        }
    }
}

pub open spec fn report_foot(
    mode: Seq<char>,
    n: nat,
    totals: (int, int, int, int),
    run_id: Option<Seq<char>>,
) -> Seq<char> {
    "===== Summary =====\n"@ + "Albums that need changes: "@ + text::decimal(totals.0 as nat)
        + " of "@ + text::decimal(n) + "\n"@ + "Files to move: "@ + text::decimal(totals.1 as nat)
        + "\n"@ + "Files unchanged: "@ + text::decimal(totals.2 as nat) + "\n"@ + "Files skipped: "@
        + text::decimal(totals.3 as nat) + "\n"@ + closing(mode, run_id)
}

/// Both lists, one after the other.
fn both(a: &Vec<String>, b: &Vec<String>) -> (r: Vec<String>)
    ensures
        text::views(r@) == text::views(a@) + text::views(b@),
{
    let ghost all = text::views(a@);
    let ghost own = text::views(b@);
    let mut extras: Vec<String> = Vec::new();
    let mut i: usize = 0;
    assert(text::views(extras@) == all.take(0));
    while i < a.len()
        invariant
            i <= a@.len(),
            all == text::views(a@),
            text::views(extras@) == all.take(i as int),
        decreases a@.len() - i,
    {
        let name = a[i].clone();
        proof {
            text::views_push(extras@, name);
            assert(all.take(i + 1) == all.take(i as int).push(name@));
        }
        extras.push(name);
        i = i + 1;
    }
    assert(all.take(i as int) + own.take(0) == all);
    let mut j: usize = 0;
    while j < b.len()
        invariant
            j <= b@.len(),
            own == text::views(b@),
            text::views(extras@) == all + own.take(j as int),
        decreases b@.len() - j,
    {
        let name = b[j].clone();
        proof {
            text::views_push(extras@, name);
            assert((all + own.take(j as int)).push(name@) == all + own.take(j + 1));
        }
        extras.push(name);
        j = j + 1;
    }
    assert(own.take(j as int) == own);
    extras
}

fn also_moves(extras: &Vec<String>) -> (r: String)
    ensures
        r@ == extras_line(text::views(extras@)),
{
    if extras.len() == 0 {
        return String::new();
    }
    let mut out = text::copy("      also moves: ");
    out.append(text::join(extras, ", ").as_str());
    out.append("\n");
    out
}

fn move_text(m: &FileMove, dir_sidecars: &Vec<String>) -> (r: String)
    ensures
        r@ == move_lines(m@, text::views(dir_sidecars@)),
{
    let mut out = text::copy("    - ");
    out.append(organizer::last_part_of(m.to.as_str()).as_str());
    out.append("\n");
    out.append("      from: ");
    out.append(display_path(m.from.as_str()).as_str());
    out.append("\n");
    out.append("      to:   ");
    out.append(display_path(m.to.as_str()).as_str());
    out.append("\n");
    out.append(also_moves(&both(dir_sidecars, &m.sidecars)).as_str());
    out
}

fn moves_text(moves: &Vec<FileMove>, dir_sidecars: &Vec<String>) -> (r: String)
    ensures
        r@ == all_move_lines(organizer::move_views(moves@), text::views(dir_sidecars@)),
{
    let ghost all = organizer::move_views(moves@);
    let ghost side = text::views(dir_sidecars@);
    let mut out = String::new();
    let mut k: usize = 0;
    assert(all_move_lines(all.take(0), side) == out@);
    while k < moves.len()
        invariant
            k <= moves@.len(),
            all == organizer::move_views(moves@),
            side == text::views(dir_sidecars@),
            out@ == all_move_lines(all.take(k as int), side),
        decreases moves@.len() - k,
    {
        proof {
            assert(all.take(k + 1).drop_last() == all.take(k as int));
            assert(all.take(k + 1).last() == all[k as int]);
            assert(all[k as int] == moves@[k as int]@);
        }
        out.append(move_text(&moves[k], dir_sidecars).as_str());
        k = k + 1;
    }
    assert(all.take(k as int) == all);
    out
}

fn skips_text(skipped: &Vec<(String, String)>) -> (r: String)
    ensures
        r@ == skip_lines(organizer::pair_views(skipped@)),
{
    let ghost all = organizer::pair_views(skipped@);
    let mut out = String::new();
    let mut i: usize = 0;
    assert(skip_lines(all.take(0)) == out@);
    while i < skipped.len()
        invariant
            i <= skipped@.len(),
            all == organizer::pair_views(skipped@),
            out@ == skip_lines(all.take(i as int)),
        decreases skipped@.len() - i,
    {
        proof {
            assert(all.take(i + 1).drop_last() == all.take(i as int));
            assert(all.take(i + 1).last() == all[i as int]);
        }
        out.append("    - ");
        out.append(display_path(skipped[i].0.as_str()).as_str());
        out.append("  --  ");
        out.append(skipped[i].1.as_str());
        out.append("\n");
        i = i + 1;
    }
    assert(all.take(i as int) == all);
    out
}

fn target_text(p: &AlbumPlan) -> (r: String)
    ensures
        r@ == target_line(p@),
{
    if organizer::equal_but_case(p.current_dir.as_str(), p.target_dir.as_str()) {
        text::copy("  Target folder:  (unchanged)\n")
    } else {
        let mut out = text::copy("  Target folder:  ");
        out.append(display_path(p.target_dir.as_str()).as_str());
        out.append("\n");
        out
    }
}

fn album_moves_text(p: &AlbumPlan) -> (r: String)
    ensures
        r@ == album_moves(p@),
{
    if p.moves.len() > 0 {
        let mut out = text::copy("  Files to move (");
        out.append(text::format_nat(p.moves.len() as u64).as_str());
        out.append("):\n");
        out.append(moves_text(&p.moves, &p.dir_sidecars).as_str());
        out
    } else {
        text::copy("  No files to move.\n")
    }
}

fn album_skips_text(p: &AlbumPlan) -> (r: String)
    ensures
        r@ == album_skips(p@),
{
    if p.skipped.len() > 0 {
        let mut out = text::copy("  Could not move (");
        out.append(text::format_nat(p.skipped.len() as u64).as_str());
        out.append("):\n");
        out.append(skips_text(&p.skipped).as_str());
        out
    } else {
        String::new()
    }
}

fn block_text(i: usize, n: usize, p: &AlbumPlan) -> (r: String)
    ensures
        r@ == album_block(i as nat, n as nat, p@),
{
    let mut out = text::copy("--- Album ");
    out.append(text::format_nat(i as u64).as_str());
    out.append("/");
    out.append(text::format_nat(n as u64).as_str());
    out.append("  (");
    out.append(bucket_text(p.bucket));
    out.append(") ---\n");
    out.append("  Current folder: ");
    out.append(display_path(p.current_dir.as_str()).as_str());
    out.append("\n");
    out.append(target_text(p).as_str());
    out.append(album_moves_text(p).as_str());
    out.append(album_skips_text(p).as_str());
    out.append("\n");
    out
}

pub open spec fn str_opt(o: Option<&str>) -> Option<Seq<char>> {
    match o {
        Some(s) => Some(s@),
        None => None,
    }
}

fn run_text(run_id: Option<&str>) -> (r: String)
    ensures
        r@ == run_line(str_opt(run_id)),
{
    match run_id {
        Some(run) => {
            let mut out = text::copy("Run ID: ");
            out.append(run);
            out.append("   (copy this into the 'Rollback run ID' setting to undo this run)\n");
            out
        },
        None => String::new(),
    }
}

fn head_text(mode: &str, label: &str, n: usize, run_id: Option<&str>) -> (r: String)
    ensures
        r@ == report_head(mode@, label@, n as nat, str_opt(run_id)),
{
    let mut out = text::copy("===== nd-organizer run report =====\n");
    out.append("Mode: ");
    out.append(mode);
    out.append("\n");
    out.append("Library: ");
    out.append(label);
    out.append("\n");
    out.append("Albums checked: ");
    out.append(text::format_nat(n as u64).as_str());
    out.append("\n");
    out.append(run_text(run_id).as_str());
    out.append("\n");
    out
}

fn closing_text(mode: &str, run_id: Option<&str>) -> (r: String)
    ensures
        r@ == closing(mode@, str_opt(run_id)),
{
    if text::same(mode, "dryRun") {
        return text::copy("This was a dry run: nothing was written or renamed.\n");
    }
    let mut out = text::copy("Changes above were applied.\n");
    match run_id {
        Some(run) => {
            out.append("To undo this run, set the 'Rollback run ID' setting to: ");
            out.append(run);
            out.append("\n");
        },
        None => {},
    }
    out
}

fn foot_text(mode: &str, n: usize, totals: (u64, u64, u64, u64), run_id: Option<&str>) -> (r: String)
    ensures
        r@ == report_foot(
            mode@,
            n as nat,
            (totals.0 as int, totals.1 as int, totals.2 as int, totals.3 as int),
            str_opt(run_id),
        ),
{
    let mut out = text::copy("===== Summary =====\n");
    out.append("Albums that need changes: ");
    out.append(text::format_nat(totals.0).as_str());
    out.append(" of ");
    out.append(text::format_nat(n as u64).as_str());
    out.append("\n");
    out.append("Files to move: ");
    out.append(text::format_nat(totals.1).as_str());
    out.append("\n");
    out.append("Files unchanged: ");
    out.append(text::format_nat(totals.2).as_str());
    out.append("\n");
    out.append("Files skipped: ");
    out.append(text::format_nat(totals.3).as_str());
    out.append("\n");
    out.append(closing_text(mode, run_id).as_str());
    out
}

/// The report on a run.
pub fn build_report(mode: &str, root_label: &str, plans: &[AlbumPlan], run_id: Option<&str>) -> (r:
    String)
    requires
        sums_fit(plan_views(plans@)),
    ensures
        r@ == report_head(mode@, root_label@, plans@.len(), str_opt(run_id)) + album_blocks(
            plan_views(plans@),
            plans@.len() as int,
        ) + report_foot(
            mode@,
            plans@.len(),
            sums(plan_views(plans@), plans@.len() as int),
            str_opt(run_id),
        ),
{
    let ghost views = plan_views(plans@);
    let n: usize = plans.len();
    let mut out = head_text(mode, root_label, n, run_id);
    let mut blocks = String::new();
    let mut albums: u64 = 0;
    let mut moves: u64 = 0;
    let mut kept: u64 = 0;
    let mut skipped: u64 = 0;
    let mut i: usize = 0;
    assert(album_blocks(views, 0) == blocks@);
    while i < n
        invariant
            i <= n == plans@.len(),
            views == plan_views(plans@),
            sums_fit(views),
            blocks@ == album_blocks(views, i as int),
            (albums as int, moves as int, kept as int, skipped as int) == sums(views, i as int),
        decreases n - i,
    {
        let p = &plans[i];
        proof {
            assert(views[i as int] == p@);
            sums_grow(views, i as int, i as int);
            sums_grow(views, i + 1, n as int);
        }
        if p.moves.len() > 0 {
            albums = albums + 1;
        }
        moves = moves + p.moves.len() as u64;
        kept = kept + p.keeps as u64;
        skipped = skipped + p.skipped.len() as u64;
        blocks.append(block_text(i + 1, n, p).as_str());
        i = i + 1;
    }
    out.append(blocks.as_str());
    out.append(foot_text(mode, n, (albums, moves, kept, skipped), run_id).as_str());
    out
}

// ---------------------------------------------------------------------------
// The report on a group

/// The first word for what is done, the second for what would be done.
pub open spec fn tense(dry: bool, done: Seq<char>, planned: Seq<char>) -> Seq<char> {
    if dry {
        planned
    } else {
        done
    }
}

pub open spec fn arrows(moves: Seq<MoveView>) -> Seq<char>
    decreases moves.len(),
{
    if moves.len() == 0 {
        Seq::empty()
    } else {
        arrows(moves.drop_last()) + "    - "@ + moves.last().from + "  ->  /"@ + moves.last().to
            + "\n"@
    }
}

pub open spec fn group_moves(p: GroupPlanView, dry: bool) -> Seq<char> {
    if p.moves.len() == 0 {
        "  No files to move.\n"@
    } else {
        "  Files to "@ + tense(dry, "moved"@, "would move"@) + " ("@ + text::decimal(p.moves.len())
            + "):\n"@ + arrows(p.moves)
    }
}

pub open spec fn duplicate_lines(dups: Seq<DuplicateView>, dry: bool) -> Seq<char>
    decreases dups.len(),
{
    if dups.len() == 0 {
        Seq::empty()
    } else {
        duplicate_lines(dups.drop_last(), dry) + "    - "@ + dups.last().loser
            + "  is a duplicate of  "@ + dups.last().winner + "  -> "@ + tense(
            dry,
            "moved"@,
            "would move"@,
        ) + " to /"@ + dups.last().target + "\n"@
    }
}

pub open spec fn group_duplicates(p: GroupPlanView, dry: bool) -> Seq<char> {
    if p.duplicates.len() == 0 {
        Seq::empty()
    } else {
        "  Duplicates found ("@ + text::decimal(p.duplicates.len()) + "):\n"@ + duplicate_lines(
            p.duplicates,
            dry,
        )
    }
}

/// A line for each text, with something after it.
pub open spec fn entries(v: Seq<Seq<char>>, rest: Seq<char>) -> Seq<char>
    decreases v.len(),
{
    if v.len() == 0 {
        Seq::empty()
    } else {
        entries(v.drop_last(), rest) + "    - "@ + v.last() + rest
    }
}

pub open spec fn group_fillers(p: GroupPlanView, dry: bool) -> Seq<char> {
    if p.fillers.len() == 0 {
        Seq::empty()
    } else {
        "  Filler tracks "@ + tense(dry, "flagged"@, "would flag"@)
            + " (dropped by the filter proxy, files kept) ("@ + text::decimal(p.fillers.len())
            + "):\n"@ + entries(p.fillers, "\n"@)
    }
}

pub open spec fn reasons(skipped: Seq<(Seq<char>, Seq<char>)>) -> Seq<char>
    decreases skipped.len(),
{
    if skipped.len() == 0 {
        Seq::empty()
    } else {
        reasons(skipped.drop_last()) + "    - "@ + skipped.last().0 + "  --  "@ + skipped.last().1
            + "\n"@
    }
}

pub open spec fn nfo_note(p: GroupPlanView, dry: bool) -> Seq<char> {
    if dry && p.target_dir.len() > 0 {
        "  would write /"@ + p.target_dir + "/album.nfo\n"@
    } else {
        Seq::empty()
    }
}

/// The block on one album, as a simulation or as what was done.
pub open spec fn group_block(p: GroupPlanView, dry: bool) -> Seq<char> {
    "--- Album ("@ + bucket_words(p.bucket) + ")"@ + tense(
        dry,
        ""@,
        "  [DRY RUN - no changes made]"@,
    ) + " ---\n"@ + "  Target folder: /"@ + p.target_dir + "\n"@ + group_moves(p, dry)
        + group_duplicates(p, dry) + group_fillers(p, dry) + entries(
        p.unverified,
        "  --  unverified (no MBID/ISRC); routed to Singles folder.\n"@,
    ) + reasons(p.skipped) + nfo_note(p, dry)
}

fn worded(dry: bool, done: &'static str, planned: &'static str) -> (r: &'static str)
    ensures
        r@ == tense(dry, done@, planned@),
{
    if dry {
        planned
    } else {
        done
    }
}

fn group_moves_text(p: &GroupPlan, dry: bool) -> (r: String)
    ensures
        r@ == group_moves(p@, dry),
{
    if p.moves.len() == 0 {
        return text::copy("  No files to move.\n");
    }
    let ghost all = organizer::move_views(p.moves@);
    let mut lines = String::new();
    let mut i: usize = 0;
    assert(arrows(all.take(0)) == lines@);
    while i < p.moves.len()
        invariant
            i <= p.moves@.len(),
            all == organizer::move_views(p.moves@),
            lines@ == arrows(all.take(i as int)),
        decreases p.moves@.len() - i,
    {
        proof {
            assert(all.take(i + 1).drop_last() == all.take(i as int));
            assert(all.take(i + 1).last() == p.moves@[i as int]@);
        }
        lines.append("    - ");
        lines.append(p.moves[i].from.as_str());
        lines.append("  ->  /");
        lines.append(p.moves[i].to.as_str());
        lines.append("\n");
        i = i + 1;
    }
    assert(all.take(i as int) == all);
    let mut out = text::copy("  Files to ");
    out.append(worded(dry, "moved", "would move"));
    out.append(" (");
    out.append(text::format_nat(p.moves.len() as u64).as_str());
    out.append("):\n");
    out.append(lines.as_str());
    out
}

fn group_duplicates_text(p: &GroupPlan, dry: bool) -> (r: String)
    ensures
        r@ == group_duplicates(p@, dry),
{
    if p.duplicates.len() == 0 {
        return String::new();
    }
    let ghost all = organizer::duplicate_views(p.duplicates@);
    let mut lines = String::new();
    let mut i: usize = 0;
    assert(duplicate_lines(all.take(0), dry) == lines@);
    while i < p.duplicates.len()
        invariant
            i <= p.duplicates@.len(),
            all == organizer::duplicate_views(p.duplicates@),
            lines@ == duplicate_lines(all.take(i as int), dry),
        decreases p.duplicates@.len() - i,
    {
        let dup: &Duplicate = &p.duplicates[i];
        proof {
            assert(all.take(i + 1).drop_last() == all.take(i as int));
            assert(all.take(i + 1).last() == dup@);
        }
        lines.append("    - ");
        lines.append(dup.loser.as_str());
        lines.append("  is a duplicate of  ");
        lines.append(dup.winner.as_str());
        lines.append("  -> ");
        lines.append(worded(dry, "moved", "would move"));
        lines.append(" to /");
        lines.append(dup.target.as_str());
        lines.append("\n");
        i = i + 1;
    }
    assert(all.take(i as int) == all);
    let mut out = text::copy("  Duplicates found (");
    out.append(text::format_nat(p.duplicates.len() as u64).as_str());
    out.append("):\n");
    out.append(lines.as_str());
    out
}

fn entries_text(v: &Vec<String>, rest: &str) -> (r: String)
    ensures
        r@ == entries(text::views(v@), rest@),
{
    let ghost all = text::views(v@);
    let mut lines = String::new();
    let mut i: usize = 0;
    assert(entries(all.take(0), rest@) == lines@);
    while i < v.len()
        invariant
            i <= v@.len(),
            all == text::views(v@),
            lines@ == entries(all.take(i as int), rest@),
        decreases v@.len() - i,
    {
        proof {
            assert(all.take(i + 1).drop_last() == all.take(i as int));
            assert(all.take(i + 1).last() == v@[i as int]@);
        }
        lines.append("    - ");
        lines.append(v[i].as_str());
        lines.append(rest);
        i = i + 1;
    }
    assert(all.take(i as int) == all);
    lines
}

fn group_fillers_text(p: &GroupPlan, dry: bool) -> (r: String)
    ensures
        r@ == group_fillers(p@, dry),
{
    if p.fillers.len() == 0 {
        return String::new();
    }
    let mut out = text::copy("  Filler tracks ");
    out.append(worded(dry, "flagged", "would flag"));
    out.append(" (dropped by the filter proxy, files kept) (");
    out.append(text::format_nat(p.fillers.len() as u64).as_str());
    out.append("):\n");
    out.append(entries_text(&p.fillers, "\n").as_str());
    out
}

fn reasons_text(skipped: &Vec<(String, String)>) -> (r: String)
    ensures
        r@ == reasons(organizer::pair_views(skipped@)),
{
    let ghost all = organizer::pair_views(skipped@);
    let mut out = String::new();
    let mut i: usize = 0;
    assert(reasons(all.take(0)) == out@);
    while i < skipped.len()
        invariant
            i <= skipped@.len(),
            all == organizer::pair_views(skipped@),
            out@ == reasons(all.take(i as int)),
        decreases skipped@.len() - i,
    {
        proof {
            assert(all.take(i + 1).drop_last() == all.take(i as int));
            assert(all.take(i + 1).last() == all[i as int]);
        }
        out.append("    - ");
        out.append(skipped[i].0.as_str());
        out.append("  --  ");
        out.append(skipped[i].1.as_str());
        out.append("\n");
        i = i + 1;
    }
    assert(all.take(i as int) == all);
    out
}

fn nfo_note_text(p: &GroupPlan, dry: bool) -> (r: String)
    ensures
        r@ == nfo_note(p@, dry),
{
    if dry && text::length(p.target_dir.as_str()) > 0 {
        let mut out = text::copy("  would write /");
        out.append(p.target_dir.as_str());
        out.append("/album.nfo\n");
        out
    } else {
        String::new()
    }
}

/// A report block on one album group. A dry run words every action as a simulation.
pub fn group_report(plan: &GroupPlan, dry: bool) -> (r: String)
    ensures
        r@ == group_block(plan@, dry),
{
    let mut out = text::copy("--- Album (");
    out.append(bucket_text(plan.bucket));
    out.append(")");
    out.append(worded(dry, "", "  [DRY RUN - no changes made]"));
    out.append(" ---\n");
    out.append("  Target folder: /");
    out.append(plan.target_dir.as_str());
    out.append("\n");
    out.append(group_moves_text(plan, dry).as_str());
    out.append(group_duplicates_text(plan, dry).as_str());
    out.append(group_fillers_text(plan, dry).as_str());
    out.append(
        entries_text(
            &plan.unverified,
            "  --  unverified (no MBID/ISRC); routed to Singles folder.\n",
        ).as_str(),
    );
    out.append(reasons_text(&plan.skipped).as_str());
    out.append(nfo_note_text(plan, dry).as_str());
    out
}

/// The stars of a file, as one line of the preview.
pub open spec fn star_line(rel: Seq<char>, half: int, plays: int) -> Seq<char> {
    "    - "@ + rel + ": "@ + tags::stars_shown(half) + " stars ("@ + text::decimal_int(plays)
        + " playcount)"@
}

pub open spec fn star_views(v: Seq<(String, u8, i64)>) -> Seq<Seq<char>> {
    v.map_values(|e: (String, u8, i64)| star_line(e.0@, e.1 as int, e.2 as int))
}

/// A preview of the files' stars, in half-star steps with the plays, where there are any.
pub fn star_preview(stars: &Vec<(String, u8, i64)>) -> (r: Option<String>)
    ensures
        match r {
            Some(s) => stars@.len() > 0 && s@ == "  Star ratings (tally preview):\n"@
                + text::joined(star_views(stars@), "\n"@),
            None => stars@.len() == 0,
        },
{
    if stars.len() == 0 {
        return None;
    }
    let mut lines: Vec<String> = Vec::new();
    let mut i: usize = 0;
    assert(text::views(lines@) == star_views(stars@).take(0));
    while i < stars.len()
        invariant
            i <= stars@.len(),
            text::views(lines@) == star_views(stars@).take(i as int),
        decreases stars@.len() - i,
    {
        let mut line = text::copy("    - ");
        line.append(stars[i].0.as_str());
        line.append(": ");
        line.append(tags::stars_text(stars[i].1).as_str());
        line.append(" stars (");
        line.append(text::format_int(stars[i].2).as_str());
        line.append(" playcount)");
        proof {
            text::views_push(lines@, line);
            assert(star_views(stars@)[i as int] == line@);
            assert(star_views(stars@).take(i + 1) == star_views(stars@).take(i as int).push(line@));
        }
        lines.push(line);
        i = i + 1;
    }
    assert(star_views(stars@).take(i as int) == star_views(stars@));
    Some(text::join_two("  Star ratings (tally preview):\n", text::join(&lines, "\n").as_str()))
}

// ---------------------------------------------------------------------------
// The report on a batch

/// A batch among the others, counted from one.
pub open spec fn batch_number(index: int, total: int) -> Seq<char> {
    text::decimal_int(index + 1) + "/"@ + text::decimal_int(
        if total < 1 {
            1
        } else {
            total
        },
    )
}

fn batch_text(index: i32, total: i32) -> (r: String)
    ensures
        r@ == batch_number(index as int, total as int),
{
    let n: i64 = if total < 1 {
        1
    } else {
        total as i64
    };
    let mut out = text::format_int(index as i64 + 1);
    out.append("/");
    out.append(text::format_int(n).as_str());
    out
}

pub open spec fn batch_body(parts: Seq<Seq<char>>, index: int, total: int) -> Seq<char> {
    if parts.len() == 0 {
        "No albums in batch "@ + batch_number(index, total) + "\n"@
    } else {
        text::joined(parts, "\n"@)
    }
}

fn body_text(parts: &Vec<String>, index: i32, total: i32) -> (r: String)
    ensures
        r@ == batch_body(text::views(parts@), index as int, total as int),
{
    if parts.len() == 0 {
        let mut out = text::copy("No albums in batch ");
        out.append(batch_text(index, total).as_str());
        out.append("\n");
        out
    } else {
        text::join(parts, "\n")
    }
}

/// How to undo the run, at the end of every report.
pub open spec fn rollback_note(run_id: Seq<char>) -> Seq<char> {
    "\n[rollback] Run ID: "@ + run_id
        + "\nTo undo everything in this run, set 'rollbackRunId' = "@ + run_id
        + " in the plugin settings, then run a pass.\n"@
}

fn rollback_text(run_id: &str) -> (r: String)
    ensures
        r@ == rollback_note(run_id@),
{
    let mut out = text::copy("\n[rollback] Run ID: ");
    out.append(run_id);
    out.append("\nTo undo everything in this run, set 'rollbackRunId' = ");
    out.append(run_id);
    out.append(" in the plugin settings, then run a pass.\n");
    out
}

/// The report on a simulated batch.
pub open spec fn dry_run_text(
    parts: Seq<Seq<char>>,
    index: int,
    total: int,
    run_id: Seq<char>,
) -> Seq<char> {
    "[DRY RUN] batch "@ + batch_number(index, total) + " - simulated, nothing changed.\n"@
        + "Switch mode to 'apply' to execute exactly these actions.\n"@ + batch_body(
        parts,
        index,
        total,
    ) + "\n"@ + rollback_note(run_id)
}

pub fn dry_run_report(parts: &Vec<String>, index: i32, total: i32, run_id: &str) -> (r: String)
    ensures
        r@ == dry_run_text(text::views(parts@), index as int, total as int, run_id@),
{
    let mut out = text::copy("[DRY RUN] batch ");
    out.append(batch_text(index, total).as_str());
    out.append(" - simulated, nothing changed.\n");
    out.append("Switch mode to 'apply' to execute exactly these actions.\n");
    out.append(body_text(parts, index, total).as_str());
    out.append("\n");
    out.append(rollback_text(run_id).as_str());
    out
}

/// A line on so many tracks, where there are any.
pub open spec fn count_line(head: Seq<char>, n: int, tail: Seq<char>) -> Seq<char> {
    if n > 0 {
        head + text::decimal(n as nat) + tail
    } else {
        Seq::empty()
    }
}

fn count_text(head: &str, n: usize, tail: &str) -> (r: String)
    ensures
        r@ == count_line(head@, n as int, tail@),
{
    if n > 0 {
        let mut out = text::copy(head);
        out.append(text::format_nat(n as u64).as_str());
        out.append(tail);
        out
    } else {
        String::new()
    }
}

/// The report on a batch that was enriched.
pub open spec fn enriched_text(
    parts: Seq<Seq<char>>,
    index: int,
    total: int,
    autotags: int,
    replaygains: int,
    run_id: Seq<char>,
) -> Seq<char> {
    batch_body(parts, index, total) + count_line(
        "\nauto-tag: "@,
        autotags,
        " track(s) tagged from MusicBrainz\n"@,
    ) + count_line("\nReplayGain: "@, replaygains, " track(s) tagged\n"@) + rollback_note(run_id)
}

pub fn enrich_report(
    parts: &Vec<String>,
    index: i32,
    total: i32,
    autotags: usize,
    replaygains: usize,
    run_id: &str,
) -> (r: String)
    ensures
        r@ == enriched_text(
            text::views(parts@),
            index as int,
            total as int,
            autotags as int,
            replaygains as int,
            run_id@,
        ),
{
    let mut out = body_text(parts, index, total);
    out.append(
        count_text("\nauto-tag: ", autotags, " track(s) tagged from MusicBrainz\n").as_str(),
    );
    out.append(count_text("\nReplayGain: ", replaygains, " track(s) tagged\n").as_str());
    out.append(rollback_text(run_id).as_str());
    out
}

} // verus!
