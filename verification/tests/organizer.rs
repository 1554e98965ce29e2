use std::collections::{BTreeMap, BTreeSet};

use nd_organizer::apply::{apply_group_plan, apply_plan, group_record, group_source_dirs};
use nd_organizer::apply::{prune_chain, ApplyStep};
use nd_organizer::config::Config;
use nd_organizer::fraction::Fraction;
use nd_organizer::nfo::parse_album_nfo;
use nd_organizer::organizer::{album_info, album_info_with_nfo, build_group_plan, build_plan};
use nd_organizer::organizer::{classify, group_entries, is_filler, singles_target};
use nd_organizer::organizer::{target_album_dir, AlbumDir, AlbumInfo, Bucket, Disk};
use nd_organizer::pairing::{build_checked_plan, part_files};
use nd_organizer::state::{rollback_record, takes_place, UndoStep};
use nd_organizer::tags::{Recording, TrackTags};
use nd_organizer::walk::{DirEntry, Walk};

/// A library held in memory: its files and its folders.
#[derive(Default)]
struct Library {
    files: BTreeMap<String, Vec<u8>>,
    dirs: BTreeSet<String>,
}

fn parent(path: &str) -> &str {
    path.rfind('/').map(|i| &path[..i]).unwrap_or("")
}

fn name(path: &str) -> &str {
    path.rfind('/').map(|i| &path[i + 1..]).unwrap_or(path)
}

impl Library {
    fn with(files: &[(&str, &[u8])]) -> Library {
        let mut lib = Library::default();
        for (path, content) in files {
            lib.put(path, content);
        }
        lib
    }

    fn make_dirs(&mut self, dir: &str) {
        let mut d = dir;
        while !d.is_empty() {
            self.dirs.insert(d.to_string());
            d = parent(d);
        }
    }

    fn put(&mut self, path: &str, content: &[u8]) {
        self.make_dirs(parent(path));
        self.files.insert(path.to_string(), content.to_vec());
    }

    fn stands(&self, path: &str) -> bool {
        self.files.contains_key(path) || self.dirs.contains(path)
    }

    fn entries(&self, dir: &str) -> Vec<DirEntry> {
        let dirs = self.dirs.iter().filter(|d| parent(d) == dir);
        let files = self.files.keys().filter(|f| parent(f) == dir);
        dirs.map(|d| DirEntry { name: name(d).to_string(), is_dir: true })
            .chain(files.map(|f| DirEntry { name: name(f).to_string(), is_dir: false }))
            .collect()
    }

    fn discover(&self, skip_hidden: bool, excludes: &[String]) -> Vec<AlbumDir> {
        let excludes = excludes.to_vec();
        let mut walk = Walk::start();
        while let Some(dir) = walk.next_dir(&excludes, 0, 0) {
            let entries = self.entries(&dir);
            walk.take_listing(&dir, &entries, skip_hidden);
        }
        walk.finish()
    }

    fn disk(&self) -> Disk {
        Disk {
            existing: self.files.keys().chain(self.dirs.iter()).cloned().collect(),
            sizes: self.files.iter().map(|(p, c)| (p.clone(), c.len() as u64)).collect(),
            listings: self
                .dirs
                .iter()
                .map(|d| {
                    let names = self.files.keys().filter(|f| parent(f) == d);
                    (d.clone(), names.map(|f| name(f).to_string()).collect())
                })
                .collect(),
        }
    }

    fn rename(&mut self, from: &str, to: &str) {
        let content = self.files.remove(from).expect("a file to move");
        self.put(to, &content);
    }

    fn apply(&mut self, steps: &[ApplyStep]) {
        for step in steps {
            match step {
                ApplyStep::Track { from, to, companions } => {
                    self.rename(from, to);
                    for (a, b) in companions {
                        self.rename(a, b);
                    }
                }
                ApplyStep::FolderFile { from, to, .. } | ApplyStep::Duplicate { from, to } => {
                    if self.files.contains_key(from) {
                        self.rename(from, to);
                    }
                }
            }
        }
    }

    fn prune(&mut self, dir: &str) {
        for d in prune_chain(dir) {
            let beneath = format!("{d}/");
            if self.files.keys().chain(self.dirs.iter()).any(|p| p.starts_with(&beneath)) {
                break;
            }
            self.dirs.remove(&d);
        }
    }

    fn undo(&mut self, steps: &[UndoStep]) {
        for step in steps {
            match step {
                UndoStep::RenameFile { dir, from, to } => {
                    let full = |n: &String| {
                        if dir.is_empty() { n.clone() } else { format!("{dir}/{n}") }
                    };
                    let (from, to) = (full(from), full(to));
                    if takes_place(self.stands(&from), self.stands(&to)) {
                        self.rename(&from, &to);
                    }
                }
                UndoStep::WriteNfo { path, content } => self.put(path, content),
                UndoStep::MoveFolder { .. } => panic!("no folder is moved as a whole"),
            }
        }
    }
}

fn fixture() -> Library {
    Library::with(&[
        ("Artist A/Album One/01 - Dream On.flac", b"not really audio"),
        ("Artist A/Album One/02 - Walk This Way.mp3", b"not really audio"),
        ("Various Artists/Greatest Hits/01 - Hit One.flac", b"not really audio"),
        ("OST Sample/Original Soundtrack/01 - Theme.flac", b"not really audio"),
        ("Lone Singer/Single Song/01 - Only One.flac", b"not really audio"),
    ])
}

fn cfg() -> Config {
    Config::default()
}

fn info(album: &str, artist: &str, genre: &str, tracks: usize, multi: bool) -> AlbumInfo {
    AlbumInfo {
        album: album.into(),
        album_artist: artist.into(),
        year: None,
        genre: genre.into(),
        track_count: tracks,
        distinct_artists: if multi { vec!["A".into(), "B".into()] } else { vec![] },
        recording: Recording::Studio,
        release_type: String::new(),
    }
}

#[test]
fn discovers_all_albums() {
    let albums = fixture().discover(true, &[]);
    assert_eq!(albums.len(), 4, "expected 4 album dirs: {albums:?}");
}

#[test]
fn classify_pure_rules() {
    let c = cfg();
    assert_eq!(classify(&info("OST", "X", "Soundtrack", 12, false), &c), Bucket::Soundtrack);
    assert_eq!(classify(&info("Album", "X", "OST", 12, false), &c), Bucket::Soundtrack);
    assert_eq!(classify(&info("Greatest", "Various Artists", "", 20, false), &c), Bucket::Various);
    assert_eq!(classify(&info("Comp", "Various", "Rock", 14, false), &c), Bucket::Various);
    assert_eq!(classify(&info("Multi", "", "Rock", 10, true), &c), Bucket::Various);
    assert_eq!(classify(&info("Solo", "X", "Rock", 1, false), &c), Bucket::Singles);
    let mut c2 = cfg();
    c2.classify_from_mb = true;
    let mb_info = |t: &str| AlbumInfo {
        release_type: t.to_string(),
        ..info("Whatever", "X", "", 14, false)
    };
    assert_eq!(classify(&mb_info("Soundtrack"), &c2), Bucket::Soundtrack);
    assert_eq!(classify(&mb_info("Compilation"), &c2), Bucket::Various);
    assert_eq!(classify(&mb_info("Single"), &c2), Bucket::Singles);
    assert_eq!(classify(&mb_info("Album"), &c2), Bucket::Normal);
    assert_eq!(classify(&info("Partial", "X", "Rock", 2, false), &c), Bucket::Singles);
    assert_eq!(classify(&info("Real", "X", "Rock", 12, false), &c), Bucket::Normal);
    let mut c2 = cfg();
    c2.incomplete_album_min_tracks = 5;
    assert_eq!(classify(&info("Partial", "X", "Rock", 4, false), &c2), Bucket::Singles);
    let mut c3 = cfg();
    c3.singles_enabled = false;
    assert_eq!(classify(&info("Solo", "X", "Rock", 1, false), &c3), Bucket::Normal);
    assert_eq!(classify(&info("Partial", "X", "Rock", 2, false), &c3), Bucket::Normal);
}

#[test]
fn album_info_falls_back_to_folder_names() {
    let albums = fixture().discover(true, &[]);
    let one = albums.iter().find(|a| a.dir.ends_with("Album One")).unwrap();
    let info = album_info(one);
    assert_eq!(info.album, "Album One");
    assert_eq!(info.track_count, 2);
}

#[test]
fn plan_builds_for_tagless_fixture() {
    let lib = fixture();
    let c = cfg();
    for a in &lib.discover(true, &[]) {
        let p = build_plan(a, &c, &None, &None, &lib.disk());
        assert!(!p.target_dir.is_empty(), "target empty for {:?}", a.dir);
        if p.bucket == Bucket::Soundtrack {
            let expect = format!("{}/{}", c.various_folder, c.soundtrack_folder);
            assert!(p.target_dir.starts_with(&expect), "{:?}", p.target_dir);
        } else {
            assert_eq!(p.bucket, Bucket::Singles);
            let expect = format!("{}/{}", c.various_folder, c.singles_folder);
            assert!(p.target_dir.starts_with(&expect), "{:?}", p.target_dir);
        }
    }
}

#[test]
fn singles_land_under_artist_when_known() {
    let mut c = cfg();
    let info = info("Crazy", "Beyonce", "", 1, false);
    assert_eq!(target_album_dir(Bucket::Singles, &info, &c, "Crazy"), "Beyonce/Singles/Crazy");
    let mut anon = info.clone();
    anon.album_artist = String::new();
    assert_eq!(
        target_album_dir(Bucket::Singles, &anon, &c, "Crazy"),
        "Various Artist/Singles/ - Crazy"
    );
    let mut live = info.clone();
    live.recording = Recording::Live;
    assert_eq!(
        target_album_dir(Bucket::Singles, &live, &c, "Crazy"),
        "Beyonce/Singles/Crazy (Live)"
    );
    c.singles_under_artist = false;
    assert_eq!(
        target_album_dir(Bucket::Singles, &info, &c, "Crazy"),
        "Various Artist/Singles/Beyonce - Crazy"
    );
}

#[test]
fn soundtrack_nesting_respects_config() {
    let albums = fixture().discover(true, &[]);
    let soundtrack = albums.iter().find(|a| a.dir.contains("Soundtrack")).unwrap();
    let mut c = cfg();
    let dir = |c: &Config| {
        let info = album_info_with_nfo(soundtrack, c, &None, &None);
        target_album_dir(Bucket::Soundtrack, &info, c, "Theme")
    };
    assert!(dir(&c).starts_with(&format!("{}/{}", c.various_folder, c.soundtrack_folder)));
    c.nest_buckets_under_various = false;
    assert!(dir(&c).starts_with(&c.soundtrack_folder));
}

#[test]
fn discovery_respects_excludes() {
    let excludes = ["Artist A".to_string(), "OST Sample/*".to_string()];
    let albums = fixture().discover(true, &excludes);
    assert_eq!(albums.len(), 2, "expected 2 remaining albums: {albums:?}");
}

#[test]
fn nfo_fills_missing_fields() {
    let xml = "<album><title>Great Album</title><albumartist>Real Artist</albumartist>\
               <year>1987</year><genre>Synthpop</genre></album>";
    let lib = Library::with(&[
        ("Artist Folder/01 - Track.flac", b"x"),
        ("Artist Folder/album.nfo", xml.as_bytes()),
    ]);
    let albums = lib.discover(true, &[]);
    assert_eq!(albums.len(), 1);
    let nfo = parse_album_nfo(xml);
    assert!(nfo.is_some(), "the sidecar was not read");
    let info = album_info_with_nfo(&albums[0], &cfg(), &nfo, &None);
    assert_eq!(info.album, "Great Album");
    assert_eq!(info.album_artist, "Real Artist");
    assert_eq!(info.year, Some(1987));
    assert_eq!(info.genre, "Synthpop");

    let info_no_nfo = album_info(&albums[0]);
    assert_eq!(info_no_nfo.album, "Artist Folder");
    assert!(info_no_nfo.album_artist.is_empty());
}

#[test]
fn apply_moves_files_and_cleans_source() {
    let mut lib = fixture();
    let c = cfg();
    let mut any_move = false;
    for a in &lib.discover(true, &[]) {
        let plan = build_plan(a, &c, &None, &None, &lib.disk());
        if !plan.moves.is_empty() {
            any_move = true;
            lib.apply(&apply_plan(&plan));
            lib.prune(&plan.current_dir);
        }
    }
    assert!(any_move, "fixture should produce at least one move");
    assert!(!lib.stands("Artist A/Album One"));
    assert!(!lib.stands("Various Artists/Greatest Hits"));
    assert!(!lib.stands("Lone Singer/Single Song"));
    assert_eq!(lib.files.len(), 5, "no file is lost");
}

#[test]
fn render_sidecar_moves_only_matching_stem() {
    let lib = Library::with(&[
        ("Album/01 - Song.flac", b"x"),
        ("Album/01 - Song.lrc", b"x"),
        ("Album/album.nfo", b"<album/>"),
        ("Album/cover.jpg", b"x"),
    ]);
    let albums = lib.discover(true, &[]);
    assert_eq!(albums.len(), 1);
    let plan = build_plan(&albums[0], &cfg(), &None, &None, &lib.disk());
    assert_eq!(plan.moves.len(), 1);
    assert_eq!(plan.moves[0].sidecars, vec!["01 - Song.lrc"]);
    assert!(plan.dir_sidecars.contains(&"album.nfo".to_string()));
    assert!(plan.dir_sidecars.contains(&"cover.jpg".to_string()));
}

#[test]
fn apply_moves_dir_sidecars() {
    let mut lib = Library::with(&[
        ("Some Artist/Some Album/01 - Song.flac", b"x"),
        ("Some Artist/Some Album/album.nfo", b"<album/>"),
    ]);
    let albums = lib.discover(true, &[]);
    let plan = build_plan(&albums[0], &cfg(), &None, &None, &lib.disk());
    assert!(plan.dir_sidecars.contains(&"album.nfo".to_string()));
    lib.apply(&apply_plan(&plan));
    assert!(lib.stands(&format!("{}/album.nfo", plan.target_dir)));
    assert!(!lib.stands("Some Artist/Some Album/album.nfo"));
}

#[test]
fn prune_can_be_disabled() {
    let mut lib = Library::with(&[("Some Artist/Some Album/01 - Song.flac", b"x")]);
    let albums = lib.discover(true, &[]);
    let plan = build_plan(&albums[0], &cfg(), &None, &None, &lib.disk());
    assert!(!plan.moves.is_empty());
    lib.apply(&apply_plan(&plan));
    assert!(lib.stands(&format!("{}/{}", plan.target_dir, name(&plan.moves[0].to))));
    assert!(lib.stands("Some Artist/Some Album"));
}

#[test]
fn filler_detection_whole_words_only() {
    let kws = vec!["intro".to_string(), "outro".to_string(), "interlude".to_string()];
    assert!(is_filler("Intro", &kws));
    assert!(is_filler("Interlude (Live)", &kws));
    assert!(is_filler("The Outro", &kws));
    assert!(is_filler("1. Interlude", &kws));
    assert!(!is_filler("Introspection", &kws));
    assert!(!is_filler("Main Song", &kws));
    assert!(!is_filler("", &kws));
}

#[test]
fn filler_tracks_are_reported_but_not_moved() {
    let lib = Library::with(&[
        ("Album/01 - Intro.flac", b"x"),
        ("Album/02 - Real Song.flac", b"x"),
    ]);
    let t1 = TrackTags {
        album_artist: "Artist".into(),
        album: "Album".into(),
        title: "Intro".into(),
        track: Some(1),
        ..Default::default()
    };
    let mut t2 = t1.clone();
    t2.title = "Real Song".into();
    t2.track = Some(2);
    let files = vec![
        ("Album/01 - Intro.flac".to_string(), t1),
        ("Album/02 - Real Song.flac".to_string(), t2),
    ];
    let plan = build_group_plan(&lib.disk(), &cfg(), &files, "Album", "");
    assert_eq!(plan.fillers.len(), 1);
    assert!(plan.fillers[0].contains("01 - Intro.flac"));
    assert!(plan.moves.iter().all(|m| !m.to.contains("_filler")));
    assert!(plan.moves.iter().any(|m| m.to.ends_with("02 - Real Song.flac")));
}

#[test]
fn groups_scattered_files_by_album_metadata() {
    let t = |artist: &str, album: &str, track: u32| TrackTags {
        album_artist: artist.into(),
        album: album.into(),
        artist: artist.into(),
        track: Some(track),
        ..Default::default()
    };
    let entries = vec![
        ("Scattered/A/01 - Song.flac".to_string(), t("Artist X", "Great Album", 1)),
        ("Elsewhere/B/02 - Song.flac".to_string(), t("Artist X", "Great Album", 2)),
        ("Scattered/A/01 - Solo.flac".to_string(), t("Artist Y", "Solo EP", 1)),
        ("NOMETA/song.flac".to_string(), TrackTags::default()),
    ];
    let groups = group_entries(&entries);
    assert!(groups.iter().any(|g| g.len() == 2
        && g.contains(&"Scattered/A/01 - Song.flac".to_string())
        && g.contains(&"Elsewhere/B/02 - Song.flac".to_string())));
    assert!(groups.iter().any(|g| g.len() == 1 && g[0] == "NOMETA/song.flac"));
}

fn third_track() -> TrackTags {
    TrackTags {
        album_artist: "X".into(),
        album: "Album".into(),
        title: "Song".into(),
        track: Some(3),
        ..Default::default()
    }
}

#[test]
fn group_plan_detects_duplicates_by_track_number() {
    let lib = Library::with(&[
        ("A/03 - Song.flac", b"same-bytes-here"),
        ("B/03 - Song.flac", b"same-bytes-here"),
    ]);
    let files = vec![
        ("A/03 - Song.flac".to_string(), third_track()),
        ("B/03 - Song.flac".to_string(), third_track()),
    ];
    let plan = build_group_plan(&lib.disk(), &cfg(), &files, "Album", "");
    assert_eq!(plan.duplicates.len(), 1, "one duplicate pair");
    assert_eq!(plan.duplicates[0].winner, "A/03 - Song.flac");
    assert_eq!(plan.duplicates[0].loser, "B/03 - Song.flac");
    assert!(
        plan.duplicates[0].target.starts_with("X/Singles/"),
        "target: {}",
        plan.duplicates[0].target
    );
    assert_eq!(plan.moves.len(), 1);
    assert_eq!(plan.moves[0].from, "A/03 - Song.flac");
}

#[test]
fn different_sizes_are_not_confirmed_duplicates() {
    let lib = Library::with(&[
        ("A/03 - Song.flac", b"small"),
        ("B/03 - Song.flac", b"large-bytes-here"),
    ]);
    let files = vec![
        ("A/03 - Song.flac".to_string(), third_track()),
        ("B/03 - Song.flac".to_string(), third_track()),
    ];
    let plan = build_group_plan(&lib.disk(), &cfg(), &files, "Album", "");
    assert!(plan.duplicates.is_empty(), "not 100% same -> not a confirmed duplicate");
    assert_eq!(plan.moves.len(), 1);
    assert_eq!(plan.skipped.len(), 1);
}

fn two_tracks() -> (Library, Vec<(String, TrackTags)>) {
    let lib = Library::with(&[("One/1.flac", b"x"), ("Two/2.flac", b"y")]);
    let tags = TrackTags {
        album_artist: "Artist".into(),
        album: "Album".into(),
        track: Some(1),
        ..Default::default()
    };
    let mut tags2 = tags.clone();
    tags2.track = Some(2);
    let files = vec![("One/1.flac".to_string(), tags), ("Two/2.flac".to_string(), tags2)];
    (lib, files)
}

#[test]
fn group_plan_moves_all_files_to_one_target() {
    let (mut lib, files) = two_tracks();
    let plan = build_group_plan(&lib.disk(), &cfg(), &files, "Album", "");
    assert_eq!(plan.moves.len(), 2);
    assert!(plan.moves.iter().all(|m| m.to.starts_with(&plan.target_dir)));
    lib.apply(&apply_group_plan(&plan));
    let files_after = lib.files.keys().filter(|f| parent(f) == plan.target_dir).count();
    assert_eq!(files_after, 2, "both files moved into the target dir");
}

#[test]
fn group_sources_are_listed_once() {
    let (lib, files) = two_tracks();
    let plan = build_group_plan(&lib.disk(), &cfg(), &files, "Album", "");
    assert_eq!(group_source_dirs(&plan), vec!["One", "Two"]);
}

#[test]
fn rolling_back_a_group_brings_everything_home() {
    let mut lib = Library::with(&[
        ("A/03 - Song.flac", b"same-bytes-here"),
        ("A/03 - Song.lrc", b"words"),
        ("B/03 - Song.flac", b"same-bytes-here"),
        ("C/other.flac", b"z"),
    ]);
    let files = vec![
        ("A/03 - Song.flac".to_string(), third_track()),
        ("B/03 - Song.flac".to_string(), third_track()),
    ];
    let before = lib.files.clone();
    let plan = build_group_plan(&lib.disk(), &cfg(), &files, "Album", "");
    let record = group_record(&plan, "run-7", 12, 3, None);
    assert_eq!(record.run_id, "run-7");
    assert_eq!(record.library_id, 3);
    assert_eq!(record.file_renames.len(), 3, "track, words and duplicate");
    assert_eq!(record.nfo_written, Some(format!("{}/album.nfo", plan.target_dir)));
    lib.apply(&apply_group_plan(&plan));
    assert_ne!(lib.files, before);
    lib.undo(&rollback_record(&record, None));
    assert_eq!(lib.files, before);
}

#[test]
fn a_rewritten_sidecar_gets_its_content_back() {
    let (mut lib, files) = two_tracks();
    let plan = build_group_plan(&lib.disk(), &cfg(), &files, "Album", "");
    let nfo = format!("{}/album.nfo", plan.target_dir);
    lib.put(&nfo, b"<album>OLD</album>");
    let before = lib.files.clone();
    let record = group_record(&plan, "run-8", 0, 1, Some("backup:run-8:1".into()));
    lib.apply(&apply_group_plan(&plan));
    lib.put(&nfo, b"<album>NEW</album>");
    lib.undo(&rollback_record(&record, Some(b"<album>OLD</album>".to_vec())));
    assert_eq!(lib.files, before);
}

#[test]
fn folders_are_pruned_from_the_inside_out_but_never_the_root() {
    assert_eq!(prune_chain("A/B/C"), vec!["A/B/C", "A/B", "A"]);
    assert!(prune_chain("").is_empty());
}

#[test]
fn grouping_loses_no_file() {
    let entries: Vec<(String, TrackTags)> = (0..7u32)
        .map(|i| {
            let t = TrackTags {
                album: format!("Album {}", i % 3),
                album_artist: "X".into(),
                ..Default::default()
            };
            (format!("f/{i}.mp3"), t)
        })
        .collect();
    let groups = group_entries(&entries);
    assert_eq!(groups.len(), 3);
    assert_eq!(groups.iter().map(|g| g.len()).sum::<usize>(), 7);
}

#[test]
fn duplicates_find_a_free_name() {
    let first = singles_target(&cfg(), &vec![], "X", "Album", "B/03 - Song.flac");
    assert!(first.starts_with("X/Singles/"), "{first}");
    let second =
        singles_target(&cfg(), &vec![first.clone()], "X", "Album", "B/03 - Song.flac");
    assert!(second.starts_with("X/Singles/"), "{second}");
    assert_ne!(first, second);
}

#[test]
fn hidden_folders_are_passed_over() {
    let lib = Library::with(&[("A/1.mp3", b"x"), (".trash/2.mp3", b"x")]);
    assert_eq!(lib.discover(true, &[]).len(), 1);
    assert_eq!(lib.discover(false, &[]).len(), 2);
}

#[test]
fn a_third_size_cancels_no_duplicate() {
    let lib = Library::with(&[("A/03.flac", b"12345"), ("B/03.flac", b"abcde"), ("C/03.flac", b"123456789")]);
    let files: Vec<(String, TrackTags)> = ["A/03.flac", "B/03.flac", "C/03.flac"]
        .iter()
        .map(|p| (p.to_string(), third_track()))
        .collect();
    let plan = build_group_plan(&lib.disk(), &cfg(), &files, "Album", "");
    assert_eq!(plan.duplicates.len(), 1);
    assert_eq!(plan.duplicates[0].winner, "A/03.flac");
    assert_eq!(plan.duplicates[0].loser, "B/03.flac");
    assert_eq!(plan.moves.len() + plan.skipped.len() + plan.kept, 2);
}

#[test]
fn a_sidecar_that_was_not_there_stays() {
    let (mut lib, files) = two_tracks();
    let plan = build_group_plan(&lib.disk(), &cfg(), &files, "Album", "");
    let mut after = lib.files.clone();
    let record = group_record(&plan, "run-9", 0, 1, None);
    lib.apply(&apply_group_plan(&plan));
    let nfo = format!("{}/album.nfo", plan.target_dir);
    lib.put(&nfo, b"<album>NEW</album>");
    lib.undo(&rollback_record(&record, None));
    after.insert(nfo, b"<album>NEW</album>".to_vec());
    assert_eq!(lib.files, after);
}

#[test]
fn live_albums_get_the_suffix_in_every_bucket() {
    for bucket in [Bucket::Normal, Bucket::Various, Bucket::Soundtrack, Bucket::Singles] {
        for (title, artist) in [("Album", "X"), ("", ""), ("A/B", "")] {
            let studio = info(title, artist, "", 10, false);
            let live = AlbumInfo { recording: Recording::Live, ..studio.clone() };
            let bootleg = AlbumInfo { recording: Recording::Bootleg, ..studio.clone() };
            let base = target_album_dir(bucket, &studio, &cfg(), "T");
            assert_eq!(target_album_dir(bucket, &live, &cfg(), "T"), format!("{base} (Live)"));
            assert_eq!(target_album_dir(bucket, &bootleg, &cfg(), "T"), format!("{base} (Bootleg)"));
        }
    }
}

#[test]
fn only_sure_files_are_paired_to_the_album() {
    let floor = Fraction { num: 3, den: 5 };
    let sure = TrackTags { isrc: "USRC17607839".into(), ..third_track() };
    let unsure = TrackTags { title: "Other".into(), track: Some(4), ..third_track() };
    let lib = Library::with(&[("A/3.flac", b"1"), ("A/4.flac", b"12"), ("A/4.lrc", b"w")]);
    let files = vec![("A/3.flac".to_string(), sure), ("A/4.flac".to_string(), unsure)];
    let plan = build_checked_plan(&lib.disk(), &cfg(), &files, &floor, "Album", "");
    assert_eq!(plan.unverified, vec!["A/4.flac"]);
    assert_eq!(plan.moves.len(), 2);
    assert!(plan.moves[0].to.starts_with(&plan.target_dir));
    assert_eq!(plan.moves[1].to, "X/Singles/4.flac");
    assert_eq!(plan.moves[1].sidecars, vec!["4.lrc"]);

    let (paired, others) = part_files(&files, &cfg(), &floor);
    assert_eq!((paired.len(), others.len()), (1, 1));

    let lenient = Config { skip_unverified: false, ..cfg() };
    let plan = build_checked_plan(&lib.disk(), &lenient, &files, &floor, "Album", "");
    assert!(plan.unverified.is_empty());
    assert!(plan.moves.iter().all(|m| m.to.starts_with(&plan.target_dir)));
    let unchecked = Config { verify_identity: false, ..cfg() };
    let plan = build_checked_plan(&lib.disk(), &unchecked, &files, &floor, "Album", "");
    assert_eq!((plan.unverified.len(), plan.moves.len()), (0, 2));
}

#[test]
fn unsure_singles_stay_and_overwrite_nothing() {
    let floor = Fraction { num: 3, den: 5 };
    let lib = Library::with(&[("X/Singles/3.flac", b"1"), ("B/3.flac", b"12")]);
    let files = vec![
        ("X/Singles/3.flac".to_string(), third_track()),
        ("B/3.flac".to_string(), third_track()),
    ];
    let plan = build_checked_plan(&lib.disk(), &cfg(), &files, &floor, "Album", "");
    assert_eq!(plan.target_dir, "");
    assert_eq!((plan.kept, plan.moves.len()), (1, 1));
    assert_eq!(plan.moves[0].to, "X/Singles/3 (from Album).flac");
}

#[test]
fn names_without_extension_or_title_are_read_from_the_last_part() {
    let t = TrackTags { title: String::new(), ..third_track() };
    let lib = Library::with(&[("07 Folder/03 - Song.flac", b"1"), ("07 Folder/bare", b"2"), ("07 Folder/bare.lrc", b"3")]);
    let files = vec![
        ("07 Folder/03 - Song.flac".to_string(), t),
        ("07 Folder/bare".to_string(), TrackTags { title: "Bare".into(), ..third_track() }),
    ];
    let plan = build_group_plan(&lib.disk(), &cfg(), &files, "Album", "");
    assert!(plan.moves[0].to.ends_with("/03 - Song.flac"), "{}", plan.moves[0].to);
    assert_eq!(plan.moves[1].sidecars, vec!["bare.lrc"]);
}
