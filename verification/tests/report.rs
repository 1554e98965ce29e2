use nd_organizer::organizer::{AlbumPlan, Bucket, Duplicate, FileMove, GroupPlan};
use nd_organizer::report::{build_report, dry_run_report, enrich_report, group_report, star_preview};

fn plan() -> AlbumPlan {
    AlbumPlan {
        bucket: Bucket::Normal,
        current_dir: "Artist A/Album One".into(),
        target_dir: "Artist A/Album One (2020)".into(),
        moves: vec![FileMove {
            from: "Artist A/Album One/01 - Song.flac".into(),
            to: "Artist A/Album One (2020)/01 - Song.flac".into(),
            sidecars: vec!["01 - Song.lrc".into()],
        }],
        dir_sidecars: vec!["album.nfo".into()],
        keeps: 2,
        skipped: vec![(
            "Artist A/Album One/02 - Dup.flac".into(),
            "target already exists".into(),
        )],
    }
}

#[test]
fn report_uses_plain_language() {
    let report = build_report("dryRun", "Music", &[plan()], Some("run-123"));
    assert!(report.contains("Mode: dryRun"), "header shows mode");
    assert!(report.contains("Run ID: run-123"), "run id shown");
    assert!(
        report.contains("copy this into the 'Rollback run ID' setting"),
        "rollback hint shown"
    );
    assert!(report.contains("Current folder"), "clear folder label");
    assert!(report.contains("Target folder"), "clear target label");
    assert!(report.contains("Files to move"), "clear move wording");
    assert!(report.contains("from:"), "from line");
    assert!(report.contains("to:"), "to line");
    assert!(report.contains("also moves"), "sidecar wording");
    assert!(report.contains("Could not move"), "skip wording");
    assert!(report.contains("Albums that need changes"), "summary wording");
    assert!(report.contains("nothing was written or renamed"), "dry-run notice");
    assert!(!report.contains("mv "), "no cryptic mv");
    assert!(!report.contains("->"), "no cryptic arrow");
}

#[test]
fn report_is_exact() {
    let report = build_report("apply", "Music", &[plan()], None);
    let want = "===== nd-organizer run report =====\n\
                Mode: apply\n\
                Library: Music\n\
                Albums checked: 1\n\
                \n\
                --- Album 1/1  (Normal album) ---\n  \
                Current folder: /Artist A/Album One\n  \
                Target folder:  /Artist A/Album One (2020)\n  \
                Files to move (1):\n    \
                - 01 - Song.flac\n      \
                from: /Artist A/Album One/01 - Song.flac\n      \
                to:   /Artist A/Album One (2020)/01 - Song.flac\n      \
                also moves: album.nfo, 01 - Song.lrc\n  \
                Could not move (1):\n    \
                - /Artist A/Album One/02 - Dup.flac  --  target already exists\n\
                \n\
                ===== Summary =====\n\
                Albums that need changes: 1 of 1\n\
                Files to move: 1\n\
                Files unchanged: 2\n\
                Files skipped: 1\n\
                Changes above were applied.\n";
    assert_eq!(report, want);
}

#[test]
fn group_report_words_a_dry_run_as_a_simulation() {
    let plan = GroupPlan {
        bucket: Bucket::Singles,
        target_dir: "X/Singles".into(),
        moves: vec![FileMove { from: "a.flac".into(), to: "X/Singles/a.flac".into(), sidecars: vec![] }],
        duplicates: vec![Duplicate {
            winner: "a.flac".into(),
            loser: "b.flac".into(),
            target: "X/Singles/b.flac".into(),
        }],
        fillers: vec!["intro.flac".into()],
        unverified: vec!["u.flac".into()],
        kept: 0,
        skipped: vec![("c.flac".into(), "taken".into())],
    };
    let want = "--- Album (Single / incomplete)  [DRY RUN - no changes made] ---\n  \
                Target folder: /X/Singles\n  \
                Files to would move (1):\n    \
                - a.flac  ->  /X/Singles/a.flac\n  \
                Duplicates found (1):\n    \
                - b.flac  is a duplicate of  a.flac  -> would move to /X/Singles/b.flac\n  \
                Filler tracks would flag (dropped by the filter proxy, files kept) (1):\n    \
                - intro.flac\n    \
                - u.flac  --  unverified (no MBID/ISRC); routed to Singles folder.\n    \
                - c.flac  --  taken\n  \
                would write /X/Singles/album.nfo\n";
    assert_eq!(group_report(&plan, true), want);
    assert!(!group_report(&plan, false).contains("would"));
}

#[test]
fn reports_end_with_the_run() {
    let note = "\n[rollback] Run ID: run-1\nTo undo everything in this run, set 'rollbackRunId' = \
                run-1 in the plugin settings, then run a pass.\n";
    let dry = dry_run_report(&vec![], 0, 0, "run-1");
    assert!(dry.starts_with("[DRY RUN] batch 1/1 - simulated, nothing changed.\n"));
    assert!(dry.contains("No albums in batch 1/1\n"));
    assert!(dry.ends_with(note));
    let done = enrich_report(&vec!["a".into(), "b".into()], 1, 3, 2, 0, "run-1");
    assert!(done.starts_with("a\nb\nauto-tag: 2 track(s) tagged from MusicBrainz\n"));
    assert!(!done.contains("ReplayGain"));
    assert!(done.ends_with(note));
}

#[test]
fn star_preview_shows_half_stars() {
    assert_eq!(star_preview(&vec![]), None);
    assert_eq!(
        star_preview(&vec![("a.flac".into(), 9, 4), ("b.flac".into(), 8, 0)]),
        Some(
            "  Star ratings (tally preview):\n    - a.flac: 4.5 stars (4 playcount)\n    \
             - b.flac: 4 stars (0 playcount)"
                .into()
        )
    );
}
