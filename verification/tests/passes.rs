use nd_organizer::config::{Config, LidarrMode, Mode};
use nd_organizer::enrich::{album_release, autotag_album, enrichments, fetch_genre_with_fallback};
use nd_organizer::enrich::{folder_hint, moved_files, refresh_artists, should_write_tags};
use nd_organizer::enrich::{GenreSource, MbTrack};
use nd_organizer::favorites::SyncSummary;
use nd_organizer::health::{collect_warnings, health_entry, integration_health, probe_kept};
use nd_organizer::health::{probe_ok, probe_recalled, probe_trouble, Check, Facts};
use nd_organizer::hosts::{bind_address, host_of_baseurl, host_replace, is_base_url_key};
use nd_organizer::hosts::{resolve_base, resolve_url_base, subnet_gateway};
use nd_organizer::json::{parse, print, Json};
use nd_organizer::metadata::{collect_metadata, MetadataRecord};
use nd_organizer::net::{body_text, circuit_paused, circuit_stage, Reply, Stage};
use nd_organizer::nfo::serialize_album;
use nd_organizer::organizer::{AlbumInfo, Bucket, Duplicate, FileMove, GroupPlan};
use nd_organizer::pass::{album_budget, apply_lidarr_naming, cleanup_message, current_run_id};
use nd_organizer::pass::{do_rollback, favorites_message, group_message, is_idle, library_records};
use nd_organizer::pass::{log_library_inventory, on_callback, plan_message, required_meta_unreachable};
use nd_organizer::pass::{rescan_now, run_pass, scan_message, scan_user, stats_cron, task_kind};
use nd_organizer::pass::{trigger_navidrome_scan, trim_cron, undo_failed, Call, Known, PassStep};
use nd_organizer::pass::{Provider, Rescan, Rollback, TaskKind};
use nd_organizer::posts::{action, post_webhook, record_task, status_json, task_entry, words, Action};
use nd_organizer::posts::LibraryStatus;
use nd_organizer::records::{index_file, load_mtime, load_playing, load_star, load_tags};
use nd_organizer::records::{mark_checked, save_playing, save_star};
use nd_organizer::replaygain::{kept_loudness, loudness, loudness_key, replaygain_for};
use nd_organizer::scan::ScanOutcome;
use nd_organizer::scan::is_identified;
use nd_organizer::sidecars::{compare_request, genres_request, likeness_message};
use nd_organizer::sidecars::{album_nfo, artist_nfo, section_lines, sections, tempo};
use nd_organizer::state::{load_record, record_apply, save_record, stored_record, ApplyRecord, FileRename};
use nd_organizer::stats::{NowPlayingEntry, StarTally};
use nd_organizer::steps::{next_phase, plan_enrich_step, plan_move_step, EnrichBatch, EnrichStep};
use nd_organizer::steps::{MoveBatch, MoveStep, Phase};
use nd_organizer::store::{append_log, prunes_file, prunes_key, write_report};
use nd_organizer::tags::{Recording, TrackTags};

fn answer(status: i32, body: &str) -> Reply {
    Reply::Answer { status, body: body.into() }
}

fn strings(v: &[&str]) -> Vec<String> {
    v.iter().map(|s| s.to_string()).collect()
}

fn member<'a>(j: &'a Json, key: &str) -> &'a Json {
    match j {
        Json::Object(m) => &m.iter().find(|(k, _)| k == key).expect(key).1,
        _ => panic!("an object"),
    }
}

fn text(j: &Json) -> &str {
    match j {
        Json::Str(s) => s,
        _ => panic!("a text"),
    }
}

fn number(j: &Json) -> i128 {
    match j {
        Json::Int(n) => *n,
        _ => panic!("a number"),
    }
}

// Records

fn record() -> ApplyRecord {
    ApplyRecord {
        seq: 1,
        ts: 123,
        run_id: "run-1".into(),
        library_id: 1,
        from_dir: "Artist/Album".into(),
        to_dir: "Artist/Album (2020)".into(),
        file_renames: vec![FileRename { from: "01 - Old.flac".into(), to: "01 - New.flac".into() }],
        dir_sidecars: vec!["album.nfo".into()],
        nfo_written: Some("Artist/Album (2020)/album.nfo".into()),
        nfo_backup: Some("backups/run-1-1-album.nfo".into()),
    }
}

#[test]
fn apply_record_round_trips() {
    let rec = record();
    let back = load_record(&save_record(&rec)).unwrap();
    assert_eq!(format!("{back:?}"), format!("{rec:?}"));
    assert_eq!(save_record(&rec), print(&record_apply(&rec)));
}

#[test]
fn records_without_their_fields_are_none() {
    assert!(stored_record(&parse(r#"{"seq": 1}"#).unwrap()).is_none());
    assert!(stored_record(&Json::Null).is_none());
    let row = r#"[1, 2, "r", 3, "a", "b", [["x", "y"]], [], null, null]"#;
    let rec = stored_record(&parse(row).unwrap()).unwrap();
    assert_eq!((rec.seq, rec.file_renames[0].to.as_str()), (1, "y"));
    let short = r#"[1, 2, "r", 3, "a", "b", [["x", "y"]], [], null]"#;
    assert!(stored_record(&parse(short).unwrap()).is_none());
}

#[test]
fn records_are_chosen_by_library() {
    let mut other = record();
    other.library_id = 2;
    let recs = vec![record(), other, record()];
    assert_eq!(library_records(&recs, 1), vec![0, 2]);
    assert_eq!(library_records(&recs, 9), Vec::<usize>::new());
}

// Reports

#[test]
fn reports_last_as_long_as_they_should() {
    assert_eq!(write_report(86_400), ("report:86400".into(), "report-86400.txt".into()));
    let now = 10 * 86_400;
    assert!(prunes_key("report:86400", now, 8));
    assert!(!prunes_key("report:86400", now, 9));
    assert!(!prunes_key("report:86400", now, 0));
    assert!(!prunes_key("report:latest", now, 1));
    assert!(prunes_file("report-86400.txt", now, 8));
    assert!(!prunes_file("report-86400.log", now, 8));
    assert_eq!(append_log(7, "INFO", "x"), "[7] [INFO] x\n");
}

// Addresses

#[test]
fn hosts_are_read_and_replaced() {
    assert_eq!(host_of_baseurl("http://192.168.1.5:4533/music"), Some("192.168.1.5".into()));
    assert_eq!(host_of_baseurl("https://nd.example?x"), Some("nd.example".into()));
    assert_eq!(host_of_baseurl("/music"), None);
    assert_eq!(host_of_baseurl("http://:80"), None);
    assert_eq!(
        host_replace("http://10.0.0.2:8686/lidarr", "host.docker.internal"),
        Some("http://host.docker.internal:8686/lidarr".into())
    );
    assert_eq!(host_replace("http://lidarr", "x"), Some("http://x".into()));
    assert_eq!(host_replace("lidarr:8686", "x"), None);
    assert_eq!(
        subnet_gateway("http://172.18.0.5:8000/a"),
        Some("http://172.18.0.1:8000/a".into())
    );
    assert_eq!(subnet_gateway("http://lidarr:8686"), None);
    assert_eq!(subnet_gateway("http://172.18.0.5"), None);
    assert!(is_base_url_key("ND_BaseUrl") && is_base_url_key("URL") && !is_base_url_key("Port"));
    assert_eq!(bind_address(" 0.0.0.0 "), None);
    assert_eq!(bind_address(" 10.0.0.1 "), Some("10.0.0.1".into()));
}

#[test]
fn services_are_looked_for_in_order() {
    assert_eq!(
        resolve_url_base("lidarr", "http://172.18.0.5:8686", &Some("10.0.0.1".into())),
        strings(&[
            "http://172.18.0.5:8686",
            "http://10.0.0.1:8686",
            "http://host.docker.internal:8686",
            "http://172.17.0.1:8686",
            "http://lidarr:8686",
            "http://172.18.0.1:8686",
        ])
    );
    assert_eq!(
        resolve_url_base("x", "http://172.17.0.1:1", &None),
        strings(&["http://172.17.0.1:1", "http://host.docker.internal:1"])
    );
    assert!(resolve_base(" / ", &None).is_empty());
    assert_eq!(resolve_base("http://muse/", &Some("h".into()))[1], "http://h:");
    assert_eq!(resolve_base("http://muse:8001/x", &Some("h".into()))[1], "http://h:8001");
    assert_eq!(resolve_base("muse", &Some("h".into()))[1], "http://h:8000");
}

// Health

#[test]
fn probes_tell_what_is_wrong() {
    assert_eq!(probe_trouble(&answer(302, "")), None);
    assert_eq!(probe_trouble(&answer(429, "")), Some("rate limited (HTTP 429)".into()));
    assert_eq!(
        probe_trouble(&answer(401, "")),
        Some("unreachable or wrong credentials (HTTP 401)".into())
    );
    assert_eq!(probe_trouble(&Reply::Silent), Some("no response".into()));
    assert_eq!(
        probe_trouble(&Reply::Failed { cause: "unexpected EOF".into() }),
        Some("transient (EOF, retrying)".into())
    );
    assert_eq!(
        probe_trouble(&Reply::Failed { cause: "refused".into() }),
        Some("connection failed: refused".into())
    );
    assert_eq!(probe_kept(&None, 60), ("ok".into(), 60));
    assert_eq!(probe_kept(&Some("w".into()), 60), ("warn:w".into(), 30));
    assert_eq!(probe_recalled("ok"), None);
    assert_eq!(probe_recalled("warn:w"), Some("warn:w".into()));
    assert_eq!(probe_ok("k", &Some("w".into())), Some("k: w".into()));
}

#[test]
fn services_are_shown_with_their_state() {
    let mut c = Config::default();
    c.acoustid_url = String::new();
    c.lidarr_url = "http://l".into();
    let services = integration_health(&c, "http://l", "http://m");
    assert_eq!(services.len(), 10);
    let names: Vec<&str> = services.iter().map(|s| s.name.as_str()).collect();
    assert_eq!(names[..3], ["AcoustID", "Lidarr", "AudioMuse-AI"]);
    assert!(matches!(services[0].check, Check::Missing { .. }));
    assert_eq!(text(member(&health_entry(&services[0], &None), "state")), "notConfigured");
    let state = |w: Option<&str>| {
        let e = health_entry(&services[1], &w.map(|s| s.to_string()));
        text(member(&e, "state")).to_string()
    };
    assert_eq!(state(None), "ok");
    assert_eq!(state(Some("x (HTTP 401)")), "reachable");
    assert_eq!(state(Some("x (HTTP 500)")), "unreachable");
}

fn facts() -> Facts {
    Facts {
        has_libraries: true,
        read_only: vec![],
        auth_issue: None,
        has_user: true,
        lidarr: None,
        audiomuse: None,
    }
}

#[test]
fn warnings_name_what_is_amiss() {
    let mut c = Config::default();
    c.verify_identity = true;
    c.acoustid_url = String::new();
    let mut f = facts();
    f.has_libraries = false;
    f.read_only = vec![(4, "Music".into())];
    let w = collect_warnings(&c, &f);
    assert!(w[0].starts_with("no libraries are accessible"));
    assert!(w.iter().any(|s| s.starts_with("verifyIdentity is on")));
    assert!(!w.iter().any(|s| s.contains("READ-ONLY")));
    c.mode = Mode::Apply;
    let w = collect_warnings(&c, &f);
    assert!(w[1].starts_with("library 4 \"Music\" is READ-ONLY"));
    c.favorites_sync_lastfm = true;
    c.lastfm_api_secret = "s".into();
    c.lastfm_password = "p".into();
    f.auth_issue = Some("auth failed: no".into());
    f.has_user = false;
    let w = collect_warnings(&c, &f);
    assert!(w.iter().any(|s| s.contains("cannot log in: auth failed: no. Check")));
    assert!(w.iter().any(|s| s.starts_with("favorites sync needs a Navidrome user")));
}

// Passes

fn known(libraries: usize, idle: bool, offline: Option<Provider>) -> Known {
    Known { libraries: Some(libraries), idle: Some(idle), services: Some(offline) }
}

#[test]
fn a_pass_waits_for_what_it_needs() {
    let mut c = Config::default();
    c.meta_gate_enabled = true;
    let nothing = Known { libraries: None, idle: None, services: None };
    assert_eq!(run_pass(&c, &nothing), PassStep::ListLibraries);
    assert_eq!(run_pass(&c, &known(0, true, None)), PassStep::NothingToOrganize);
    assert_eq!(run_pass(&c, &known(1, false, None)), PassStep::Defer { seconds: 120 });
    assert_eq!(
        run_pass(&c, &known(1, true, Some(Provider::Lidarr))),
        PassStep::Skip { provider: Provider::Lidarr, seconds: 300 }
    );
    assert_eq!(run_pass(&c, &known(1, true, None)), PassStep::Start);
    c.meta_gate_enabled = false;
    assert_eq!(run_pass(&c, &known(1, true, Some(Provider::Lidarr))), PassStep::Start);
    c.rollback_run_id = "run-3".into();
    assert_eq!(run_pass(&c, &known(1, true, None)), PassStep::RollBack);
}

#[test]
fn rollbacks_happen_once() {
    let mut c = Config::default();
    assert!(matches!(do_rollback(&c, false), Rollback::Nothing));
    c.rollback_run_id = " run-3 ".into();
    match do_rollback(&c, false) {
        Rollback::Undo { run_id } => assert_eq!(run_id, "run-3"),
        other => panic!("{other:?}"),
    }
    assert!(matches!(do_rollback(&c, true), Rollback::AlreadyDone { .. }));
    assert_eq!(undo_failed(2, &Some("e".into())), "library 2: e");
    assert_eq!(undo_failed(2, &None), "library 2 has no filesystem mount");
}

#[test]
fn the_user_to_act_for() {
    let mut c = Config::default();
    c.scan_user = " bob ".into();
    assert_eq!(scan_user(&c, &vec![], &vec![]), "bob");
    assert_eq!(scan_user(&c, &strings(&["amy", "bob"]), &strings(&["root"])), "bob");
    assert_eq!(scan_user(&c, &strings(&["amy"]), &strings(&["root"])), "root");
    assert_eq!(scan_user(&c, &strings(&["amy"]), &vec![]), "amy");
    assert_eq!(rescan_now(""), None);
    assert_eq!(rescan_now("amy"), Some("startScan?u=amy".into()));
}

#[test]
fn paused_players_do_not_hold_a_run_up() {
    let mut c = Config::default();
    c.run_only_when_idle = true;
    let doc = |state: &str| {
        Some(format!(
            r#"{{"subsonic-response": {{"nowPlaying": {{"entry": [{{"state": "{state}"}}]}}}}}}"#
        ))
    };
    assert!(!is_idle(&c, "u", &doc("playing")));
    assert!(!is_idle(&c, "u", &doc("starting")));
    assert!(is_idle(&c, "u", &doc("paused")));
    assert!(is_idle(&c, "", &doc("playing")));
    assert!(is_idle(&c, "u", &None));
    c.run_only_when_idle = false;
    assert!(is_idle(&c, "u", &doc("playing")));
}

#[test]
fn needed_services_depend_on_the_settings() {
    let mut c = Config::default();
    c.verify_identity = false;
    c.classify_from_mb = false;
    c.genre_from = "both".into();
    c.lidarr_mode = LidarrMode::MetadataOnly;
    c.lidarr_url = "http://l".into();
    assert_eq!(required_meta_unreachable(&c), vec![Provider::MusicBrainz, Provider::Lidarr]);
}

#[test]
fn schedules_and_calls() {
    let mut c = Config::default();
    c.playback_stats_enabled = true;
    c.stats_poll_minutes = 90;
    c.trim_missing_days = 45;
    assert_eq!(stats_cron(&c), Some("*/60 * * * *".into()));
    assert_eq!(trim_cron(&c), Some("0 4 */30 * *".into()));
    assert_eq!(on_callback(&c, "stats"), Call::Stats);
    assert_eq!(on_callback(&c, "trim"), Call::Trim);
    assert_eq!(on_callback(&c, "rescan"), Call::Rescan);
    assert_eq!(on_callback(&c, "startup"), Call::Pass);
    c.playback_stats_enabled = false;
    c.trim_missing_days = 0;
    assert_eq!((stats_cron(&c), trim_cron(&c)), (None, None));
    assert_eq!(on_callback(&c, "stats"), Call::Pass);
    assert_eq!(task_kind("plan"), Ok(TaskKind::Plan));
    assert_eq!(task_kind("nap"), Err("unknown task kind nap".into()));
}

#[test]
fn rescans_are_put_off_where_they_should_be() {
    let mut c = Config::default();
    c.trigger_scan_after_run = true;
    c.scan_debounce_seconds = 0;
    assert_eq!(trigger_navidrome_scan(&c), Rescan::Now);
    c.scan_debounce_seconds = 30;
    assert_eq!(trigger_navidrome_scan(&c), Rescan::Later { seconds: 30 });
    c.trigger_scan_after_run = false;
    assert_eq!(trigger_navidrome_scan(&c), Rescan::Never);
}

#[test]
fn messages_of_tasks() {
    assert_eq!(
        scan_message(ScanOutcome::More, 3, 10),
        "scanned 3 files this chunk (10 indexed so far - more remain)"
    );
    assert_eq!(
        scan_message(ScanOutcome::Done, 3, 10),
        "scan complete: 3 files in the final chunk (10 indexed)"
    );
    assert_eq!(
        scan_message(ScanOutcome::Paused, 3, 10),
        "scan paused at maxScanEntries: 3 this chunk (10 indexed - resumes next run)"
    );
    assert_eq!(group_message(5, 2), "grouped 5 files into 2 plan tasks");
    assert_eq!(plan_message(-1, -1), "plan batch 0/1 done");
    assert_eq!(
        favorites_message(&SyncSummary { nav_to_lastfm: 1, lastfm_to_nav: 2, errors: 3 }),
        "favorites sync: 1 -> Last.fm, 2 -> Navidrome, 3 errors"
    );
    assert_eq!(cleanup_message(1, Mode::DryRun), "cleanup: 1 no-audio folder(s) would be deleted (dry-run)");
    assert_eq!(
        log_library_inventory(1, "M", "", "", true),
        "library 1 \"M\" path=? access=NO ACCESS (grant library access in the plugin settings)"
    );
    assert_eq!(
        log_library_inventory(1, "M", "/m", "/m", true),
        "library 1 \"M\" path=/m access=READ-WRITE"
    );
}

#[test]
fn runs_keep_their_name() {
    assert_eq!(current_run_id(&Some("run-1".into()), 5), ("run-1".into(), false));
    assert_eq!(current_run_id(&Some(String::new()), 5), ("run-5".into(), true));
    assert_eq!(current_run_id(&None, 5), ("run-5".into(), true));
    let mut c = Config::default();
    c.max_albums_per_run = 7;
    assert_eq!(album_budget(&c), Some("7".into()));
    c.max_albums_per_run = 0;
    assert_eq!(album_budget(&c), None);
}

#[test]
fn lidarr_patterns_are_translated() {
    assert_eq!(
        apply_lidarr_naming(
            r#"{"artistFolderFormat": "{Artist Name}", "albumFolderFormat": "{Album Title}",
                "standardTrackFormat": "{track:00} - {Track Title}"}"#
        ),
        Some(("{albumArtist}/{album}".into(), "{track:02} - {title}".into()))
    );
    assert_eq!(apply_lidarr_naming("{}"), None);
    assert_eq!(apply_lidarr_naming("no"), None);
}

// Enriching

fn tags(title: &str, recording: &str, track: Option<u32>) -> TrackTags {
    TrackTags {
        title: title.into(),
        mbid_recording: recording.into(),
        track,
        ..Default::default()
    }
}

#[test]
fn only_files_that_lack_names_are_filled() {
    let track = |n: u32| MbTrack {
        title: format!("T{n}"),
        artist: "A".into(),
        recording_mbid: format!("r{n}"),
        number: Some(n),
        position: Some(n + 10),
    };
    let files = vec![
        ("a".to_string(), tags("x", "r", Some(2))),
        ("b".to_string(), tags(" ", "r", Some(2))),
        ("c".to_string(), tags("x", "", Some(12))),
        ("d".to_string(), tags("", "", Some(9))),
        ("e".to_string(), tags("", "", None)),
    ];
    assert_eq!(
        autotag_album(&files, &vec![track(1), track(2)]),
        vec![(1, 1), (2, 1), (3, 0), (4, 0)]
    );
    assert!(autotag_album(&files, &vec![]).is_empty());
}

#[test]
fn genres_come_from_the_chosen_source_first() {
    let nfo = strings(&["Rock"]);
    assert_eq!(
        fetch_genre_with_fallback("nfo", true, "", "k", &nfo),
        vec![GenreSource::Nfo, GenreSource::MusicBrainz, GenreSource::TheAudioDb]
    );
    assert_eq!(fetch_genre_with_fallback("essentia", false, "", "", &vec![]), vec![]);
    assert_eq!(
        fetch_genre_with_fallback("discogs", true, "t", "", &vec![]),
        vec![GenreSource::Discogs, GenreSource::MusicBrainz]
    );
}

#[test]
fn what_belongs_to_an_album() {
    assert_eq!(folder_hint(&strings(&["A/B/c.mp3", "D/e.mp3"])), "A/B");
    assert_eq!(folder_hint(&vec![]), "");
    let mut t = tags("x", "r", None);
    t.mbid_album = "m".into();
    let files = vec![("a".to_string(), tags("x", "r", None)), ("b".to_string(), t)];
    assert_eq!(album_release(&files), Some("m".into()));
    let moves = vec![
        FileMove { from: "b".into(), to: "X/b".into(), sidecars: vec![] },
        FileMove { from: "z".into(), to: "X/z".into(), sidecars: vec![] },
    ];
    assert_eq!(moved_files(&moves, &files), vec![(0, 1)]);
    assert_eq!(refresh_artists(&info()), strings(&["Artist", "Guest"]));
    let mut c = Config::default();
    c.lidarr_mode = LidarrMode::MetadataOnly;
    c.write_tags_for_tracked = false;
    assert!(!should_write_tags(&c, true));
    assert!(should_write_tags(&c, false));
    c.write_tags_for_tracked = true;
    assert!(should_write_tags(&c, true));
    c.auto_tag_from_mb = true;
    c.write_replaygain = false;
    c.embed_artwork = false;
    c.write_cover_jpg = false;
    c.write_acoustic_tags = false;
    c.scan_after_tag_write = false;
    c.write_nfo = true;
    assert_eq!(enrichments(&c, "lrclib", ""), strings(&["auto-tag", "lyrics", "nfo"]));
}

fn info() -> AlbumInfo {
    AlbumInfo {
        album: "Album".into(),
        album_artist: "Artist".into(),
        year: Some(1999),
        genre: "Rock".into(),
        track_count: 2,
        distinct_artists: strings(&["ARTIST", "Guest"]),
        recording: Recording::Studio,
        release_type: String::new(),
    }
}

#[test]
fn sidecars_hold_what_the_analysis_found() {
    let data = parse(
        r#"{"bpm": 120.0, "key": "C", "mode": "major",
            "chords": {"changes": [{"chord": "C"}, {}, {"chord": "G"}]},
            "structure": [{"label": "intro", "start": 0.4}, {"label": "x"}]}"#,
    );
    assert_eq!(sections(&data), vec![("intro".to_string(), "0.4".to_string())]);
    let lines = section_lines(&vec![("intro".into(), "0".into())]);
    assert_eq!(lines, strings(&["intro@0s"]));
    let shown = tempo(&data);
    assert_eq!(shown, Some("120.0".into()));
    assert_eq!(tempo(&parse(r#"{"bpm": "fast"}"#)), None);
    assert_eq!(tempo(&None), None);
    let n = album_nfo(&info(), "about".into(), &data, shown, lines, &vec![]);
    assert_eq!(n.bpm, Some("120.0".into()));
    assert!(serialize_album(&n).contains("  <bpm>120.0</bpm>\n"));
    assert_eq!(n.key, "C major");
    assert_eq!(n.chords, strings(&["C", "G"]));
    assert!(serialize_album(&n).contains("<title>Album</title>"));
    let (path, artist) = artist_nfo(&info(), "Artist/Album", strings(&["Other"]), None).unwrap();
    assert_eq!(path, "Artist/artist.nfo");
    assert_eq!((artist.name.as_str(), artist.similar_artists.len()), ("Artist", 1));
    let mut old = artist.clone();
    old.biography = "life".into();
    let (_, again) = artist_nfo(&info(), "Artist/Album", vec![], Some(old)).unwrap();
    assert_eq!(again.biography, "life");
    assert!(artist_nfo(&info(), "", vec![], None).is_none());
}

#[test]
fn loudness_is_read() {
    let body = r#"{"ok": true, "replaygain": {"integrated": -9.5, "peak": 1}}"#;
    assert_eq!(loudness(&answer(200, body)), Some(("-9.5".into(), Some("1".into()))));
    assert_eq!(loudness(&answer(200, r#"{"replaygain": {"integrated": -9.5}}"#)), None);
    assert_eq!(kept_loudness(&parse(r#"{"integrated": -9}"#)), Some(("-9".into(), None)));
    assert_eq!(loudness_key(""), "rg:cbf29ce484222325");
    let mut c = Config::default();
    c.acoustid_url = "http://a/".into();
    assert_eq!(replaygain_for(&c, "/x").unwrap().url, "http://a/replaygain");
    c.acoustid_url = " ".into();
    assert!(replaygain_for(&c, "/x").is_none());
}

// Posts

#[test]
fn actions_are_put_into_words() {
    assert_eq!(words(&Action::WouldMove { from: "a".into(), to: "b".into() }), "would move a -> b");
    assert_eq!(
        words(&Action::WroteReplayGain { tracks: 2, album: "A".into(), album_tags: true }),
        "wrote ReplayGain tags for 2 track(s) (A) + album tags"
    );
    assert_eq!(
        words(&Action::WroteGenres { source: "nfo".into(), genres: 1 }),
        "genre: nfo → 1 tag(s)"
    );
    let a = action(5, "x");
    assert_eq!((number(member(&a, "ts")), text(member(&a, "text"))), (5, "x"));
}

#[test]
fn the_task_log_stays_short() {
    let mut log = Vec::new();
    for i in 0..25 {
        log = record_task(task_entry(i, "scan", 1, "done", "m"), log);
    }
    assert_eq!(log.len(), 20);
    assert_eq!(number(member(&log[0], "ts")), 24);
}

#[test]
fn status_sums_the_libraries() {
    let lib = |n: usize| LibraryStatus {
        library_id: n as i32,
        name: "L".into(),
        albums_found: 1,
        albums_to_move: n,
        file_moves: 10 * n,
        kept: 0,
        skipped: 0,
    };
    let c = Config::default();
    let s = status_json(&c, 3, true, &vec![lib(1), lib(2)], None, Some("run-1"), Json::Null, Json::Null, Json::Null);
    assert_eq!(number(member(&s, "totalAlbumsToMove")), 3);
    assert_eq!(number(member(&s, "totalFileMoves")), 30);
    assert_eq!(text(member(&s, "runId")), "run-1");
    assert!(matches!(member(&s, "batch"), Json::Null));
}

#[test]
fn posts_carry_their_token() {
    let mut c = Config::default();
    c.log_webhook_url = " ".into();
    assert!(post_webhook(&c, "b".into()).is_none());
    c.log_webhook_url = " http://w ".into();
    c.log_webhook_token = "t".into();
    let q = post_webhook(&c, "b".into()).unwrap();
    assert_eq!(q.url, "http://w");
    assert_eq!(q.headers.len(), 3);
    assert_eq!(q.headers[2].1, "Bearer t");
}

// Metadata and circuits

#[test]
fn the_first_source_wins() {
    let mut t = tags("Song", "", Some(3));
    t.year = Some(1990);
    let mut r = collect_metadata(&t);
    let mut other = MetadataRecord::default();
    other.title = Some("Other".into());
    other.style = Some("Prog".into());
    other.genres = strings(&["Rock"]);
    r.fill_from(&other);
    assert_eq!(r.title, Some("Song".into()));
    assert_eq!(r.style, Some("Prog".into()));
    assert_eq!(r.genres, strings(&["Rock"]));
    assert_eq!((r.year, r.track_number), (Some(1990), Some(3)));
    other.style = Some("Else".into());
    r.merge_with_priority(&other, 7);
    assert_eq!(r.style, Some("Prog".into()));
}

#[test]
fn failing_services_are_given_up_on_in_the_end() {
    let since = Some("100".to_string());
    assert_eq!(circuit_stage(&since, 105, 10, 60), Some(Stage::Retry));
    assert_eq!(circuit_stage(&since, 115, 10, 60), Some(Stage::Cooldown));
    assert_eq!(circuit_stage(&since, 160, 10, 60), Some(Stage::Degraded));
    assert_eq!(circuit_stage(&None, 160, 10, 60), None);
    assert!(circuit_paused(Some(Stage::Cooldown)));
    assert!(!circuit_paused(Some(Stage::Degraded)));
    assert!(!circuit_paused(None));
}

// Steps of a run

fn group_plan() -> GroupPlan {
    GroupPlan {
        bucket: Bucket::Normal,
        target_dir: "Artist/Album".into(),
        moves: vec![FileMove { from: "a.mp3".into(), to: "Artist/Album/01.mp3".into(), sidecars: vec![] }],
        duplicates: vec![],
        fillers: vec![],
        unverified: vec![],
        kept: 0,
        skipped: vec![],
    }
}

#[test]
fn phases_follow_each_other() {
    let mut c = Config::default();
    c.cleanup_no_audio_folders = true;
    assert_eq!(next_phase(&c, Phase::Scan, ScanOutcome::More), Some(Phase::Scan));
    assert_eq!(next_phase(&c, Phase::Scan, ScanOutcome::Done), Some(Phase::Group));
    assert_eq!(next_phase(&c, Phase::Scan, ScanOutcome::Paused), None);
    assert_eq!(next_phase(&c, Phase::Walk, ScanOutcome::Done), Some(Phase::Index));
    assert_eq!(next_phase(&c, Phase::Index, ScanOutcome::Done), Some(Phase::Verify));
    assert_eq!(next_phase(&c, Phase::Verify, ScanOutcome::Done), Some(Phase::Group));
    assert_eq!(next_phase(&c, Phase::Group, ScanOutcome::Done), Some(Phase::Cleanup));
    c.cleanup_no_audio_folders = false;
    assert_eq!(next_phase(&c, Phase::Group, ScanOutcome::Done), None);
}

#[test]
fn a_dry_run_takes_no_step() {
    let mut c = Config::default();
    c.mode = Mode::DryRun;
    assert!(plan_move_step(&c, "Other", &group_plan(), true).is_empty());
    c.mode = Mode::Apply;
    c.scan_after_album = false;
    c.write_nfo = true;
    let steps = plan_move_step(&c, "Other", &group_plan(), true);
    assert!(matches!(&steps[0], MoveStep::Apply));
    assert!(matches!(&steps[1], MoveStep::MoveAcross { library } if library == "Other"));
    assert!(matches!(&steps[2], MoveStep::KeepSidecar { place } if place == "Artist/Album/album.nfo"));
    assert!(matches!(&steps[3], MoveStep::MoveTally { from, .. } if from == "a.mp3"));
    assert!(matches!(&steps[4], MoveStep::Record));
    assert!(matches!(&steps[5], MoveStep::WriteSidecars));
    assert_eq!(steps.len(), 6);
    let mut still = group_plan();
    still.moves.clear();
    assert!(plan_move_step(&c, "", &still, true).is_empty());
}

#[test]
fn a_dry_run_tells_what_it_would_do() {
    let mut c = Config::default();
    c.mode = Mode::DryRun;
    c.star_tally_enabled = true;
    let mut b = MoveBatch::start();
    b.take_album(&c, &info(), &group_plan(), &vec![("a.mp3".into(), 7, 3)], 9);
    assert_eq!((b.moves, b.duplicates, b.to_move), (1, 0, 1));
    let (said, doc) = b.dry_run(&c, 4, 1, 0, 1, "run-9", 9);
    assert!(said.starts_with("[DRY RUN] batch 1/1"));
    assert!(said.contains("a.mp3: 3.5 stars (3 playcount)"), "{said}");
    assert!(said.ends_with("set 'rollbackRunId' = run-9 in the plugin settings, then run a pass.\n"));
    assert_eq!(text(member(&doc, "text")), said);
    match member(&doc, "actions") {
        Json::Array(v) => assert_eq!(text(member(&v[0], "text")), "would move a.mp3 -> Artist/Album/01.mp3"),
        _ => panic!("a list"),
    }
}

#[test]
fn an_applied_batch_tells_what_it_did() {
    let mut c = Config::default();
    c.mode = Mode::Apply;
    let mut b = MoveBatch::start();
    b.take_album(&c, &info(), &group_plan(), &vec![], 9);
    b.moved(&group_plan(), 9);
    b.note(&Action::WroteNfo, 9);
    let doc = b.status(4, 1, 0, 1, 9, Json::Null, Json::Null);
    assert_eq!(text(member(&doc, "phase")), "plan");
    match member(&doc, "actions") {
        Json::Array(v) => {
            assert_eq!(text(member(&v[0], "text")), "moved a.mp3 -> Artist/Album/01.mp3");
            assert_eq!(text(member(&v[1], "text")), "wrote album.nfo");
        }
        _ => panic!("a list"),
    }
}

#[test]
fn enriching_follows_the_settings() {
    let mut c = Config::default();
    c.auto_tag_from_mb = true;
    c.write_replaygain = true;
    c.replay_gain_mode = "album".into();
    c.embed_artwork = false;
    c.write_cover_jpg = true;
    c.write_acoustic_tags = false;
    c.scan_after_tag_write = false;
    c.notify_audiomuse_after_run = false;
    c.lidarr_mode = LidarrMode::MetadataPlusRescan;
    c.lidarr_url = "http://l".into();
    c.lidarr_api_key = "k".into();
    c.essentia_url = "http://e".into();
    assert_eq!(
        plan_enrich_step(&c, "genius", "essentia", true, &group_plan(), true),
        vec![
            EnrichStep::AutoTag,
            EnrichStep::ReplayGain { album: true },
            EnrichStep::Artwork,
            EnrichStep::Lyrics,
            EnrichStep::Genres,
            EnrichStep::EssentiaGenres,
            EnrichStep::RefreshArtists,
        ]
    );
    assert_eq!(
        plan_enrich_step(&c, "", "", false, &group_plan(), true)[0],
        EnrichStep::ReplayGain { album: true }
    );
    let mut still = group_plan();
    still.moves.clear();
    assert!(plan_enrich_step(&c, "genius", "nfo", true, &still, true).is_empty());
}

#[test]
fn actions_without_tracks_are_not_told() {
    let mut b = EnrichBatch::start();
    b.take_album(&group_plan());
    b.note(&Action::FetchedLyrics { files: 0 }, 1);
    b.note(&Action::Tagged { tracks: 2, album: "Album".into() }, 1);
    b.note(&Action::WroteReplayGain { tracks: 3, album: "Album".into(), album_tags: false }, 1);
    b.note_words("artwork: x", 1);
    assert_eq!((b.actions.len(), b.autotags, b.replaygains), (3, 2, 3));
    let (said, doc) = b.finish(&Config::default(), 4, 1, 0, 1, "run-1", 1);
    assert!(said.contains("auto-tag: 2 track(s) tagged from MusicBrainz"));
    assert!(said.contains("ReplayGain: 3 track(s) tagged"));
    assert_eq!(text(member(&doc, "runId")), "run-1");
}

// What is stored

#[test]
fn indexed_tags_read_back() {
    let mut t = tags("Song", "rec", Some(3));
    t.recording = Recording::Live;
    t.year = Some(1999);
    let doc = parse(&index_file("a.mp3", &Some(t.clone()), 7));
    assert_eq!(load_mtime(&doc), Some(7));
    assert_eq!(format!("{:?}", load_tags(&doc).unwrap()), format!("{t:?}"));
    let bare = parse(&index_file("a.mp3", &None, 7));
    assert!(load_tags(&bare).is_none());
    assert!(load_tags(&parse(r#"{"tags": {"title": "x"}}"#)).is_none());
}

#[test]
fn stored_tallies_read_back() {
    let t = StarTally {
        path: "a.mp3".into(),
        id: "7".into(),
        title: "T".into(),
        artist: "A".into(),
        full: 3,
        half: 2,
        skips: 1,
        loved: true,
    };
    let doc = parse(&save_star(&t)).unwrap();
    assert_eq!(format!("{:?}", load_star(&doc).unwrap()), format!("{t:?}"));
    let short = load_star(&parse(r#"{"path": "a", "full": 1, "half": 0, "skips": 0}"#).unwrap()).unwrap();
    assert_eq!((short.id.as_str(), short.loved), ("", false));
    assert!(load_star(&parse(r#"{"path": "a", "full": 1}"#).unwrap()).is_none());
    let row = load_star(&parse(r#"["a.mp3", "7", "T", "A", 3, 2, 1]"#).unwrap()).unwrap();
    assert_eq!((row.full, row.skips, row.loved), (3, 1, false));
    assert!(load_star(&parse(r#"["a.mp3", "7", "T", "A", 3, 2]"#).unwrap()).is_none());
    assert!(load_star(&parse(r#"["a.mp3", "7", "T", "A", 3, 2, 1, true, 0]"#).unwrap()).is_none());
}

#[test]
fn stored_songs_read_back() {
    let e = NowPlayingEntry {
        id: "7".into(),
        position_ms: 1,
        duration: 2,
        title: "T".into(),
        artist: "A".into(),
        album: "B".into(),
        path: "p".into(),
        play_count: 3,
    };
    let doc = parse(&save_playing(&vec![e.clone()]));
    assert_eq!(format!("{:?}", load_playing(&doc)), format!("{:?}", vec![e]));
    assert!(load_playing(&parse(r#"[{"id": "7"}]"#)).is_empty());
    assert!(load_playing(&None).is_empty());
}

#[test]
fn documents_are_written_as_text() {
    let doc = Json::Object(vec![
        ("b".into(), Json::Array(vec![Json::Int(-3), Json::Real("1.5".into()), Json::Null])),
        ("a".into(), Json::Str("\"ä\"\n".into())),
        ("c".into(), Json::Bool(true)),
    ]);
    assert_eq!(print(&doc), "{\"a\":\"\\\"ä\\\"\\n\",\"b\":[-3,1.5,null],\"c\":true}");
    match parse(&print(&doc)).unwrap() {
        Json::Object(m) => assert_eq!(m.len(), 3),
        _ => panic!("an object"),
    }
}

#[test]
fn files_that_were_looked_up_are_marked() {
    let entry = parse(&index_file("a.mp3", &Some(tags("Song", "", None)), 7)).unwrap();
    assert!(!is_identified(member(&entry, "tags")));
    let marked = mark_checked(entry, Some(("grp".into(), "rec".into())));
    assert!(is_identified(member(&marked, "tags")));
    let t = load_tags(&Some(marked)).unwrap();
    assert_eq!((t.mbid_album.as_str(), t.mbid_recording.as_str()), ("grp", "rec"));
    let entry = parse(&index_file("a.mp3", &Some(tags("Song", "", None)), 7)).unwrap();
    assert!(is_identified(member(&mark_checked(entry, None), "tags")));
    assert!(matches!(mark_checked(Json::Null, None), Json::Null));
}

#[test]
fn the_analyser_is_asked_in_json() {
    let mut c = Config::default();
    c.essentia_url = " http://e/ ".into();
    let q = genres_request(&c, "/a.mp3").unwrap();
    assert_eq!(q.url, "http://e/analyze");
    assert_eq!(body_text(&q.body), r#"{"genres":true,"moods":true,"path":"/a.mp3"}"#);
    let q = compare_request(&c, "/a", "/b").unwrap();
    assert_eq!(body_text(&q.body), r#"{"path_a":"/a","path_b":"/b"}"#);
    c.essentia_url = String::new();
    assert!(genres_request(&c, "/a").is_none() && compare_request(&c, "/a", "/b").is_none());
    assert_eq!(
        likeness_message(true, &strings(&["x", "y"])),
        Some("nd-organizer: Essentia duplicate audio:\n  x\n  y".into())
    );
    assert_eq!(likeness_message(false, &vec![]), None);
}

#[test]
fn a_duplicate_moves_though_its_winner_is_in_place() {
    let mut c = Config::default();
    c.mode = Mode::Apply;
    let mut plan = group_plan();
    plan.moves.clear();
    plan.duplicates.push(Duplicate {
        winner: "Artist/Album/01.mp3".into(),
        loser: "b.mp3".into(),
        target: "Artist/Singles/b.mp3".into(),
    });
    let steps = plan_move_step(&c, "", &plan, true);
    assert!(steps.iter().any(|s| matches!(s, MoveStep::Apply)));
    assert!(steps.iter().any(|s| matches!(s, MoveStep::Record)));
    assert!(steps
        .iter()
        .any(|s| matches!(s, MoveStep::MoveTally { from, .. } if from == "b.mp3")));
    let mut loose = group_plan();
    loose.target_dir = String::new();
    let steps = plan_move_step(&c, "Other", &loose, false);
    assert!(!steps.iter().any(|s| matches!(s, MoveStep::MoveAcross { .. })));
    assert!(!steps.iter().any(|s| matches!(s, MoveStep::WriteSidecars)));
    assert!(plan_enrich_step(&c, "lrclib", "nfo", true, &loose, false).is_empty());
}

#[test]
fn an_album_at_the_top_of_the_library_takes_every_step() {
    let mut c = Config::default();
    c.mode = Mode::Apply;
    c.write_nfo = true;
    let mut plan = group_plan();
    plan.target_dir = String::new();
    let steps = plan_move_step(&c, "Other", &plan, true);
    assert!(matches!(&steps[1], MoveStep::MoveAcross { library } if library == "Other"));
    assert!(steps
        .iter()
        .any(|s| matches!(s, MoveStep::KeepSidecar { place } if place == "album.nfo")));
    assert!(matches!(steps.last(), Some(MoveStep::WriteSidecars)));
    assert!(!plan_enrich_step(&c, "lrclib", "nfo", true, &plan, true).is_empty());
}

#[test]
fn any_id_identifies_a_file() {
    let id = |t: TrackTags| {
        let entry = parse(&index_file("a.mp3", &Some(t), 7)).unwrap();
        is_identified(member(&entry, "tags"))
    };
    let bare = TrackTags::default();
    assert!(!id(bare.clone()));
    assert!(id(TrackTags { isrc: "USRC17607839".into(), ..bare.clone() }));
    assert!(id(TrackTags { mbid_recording: "r".into(), ..bare.clone() }));
    assert!(id(TrackTags { mbid_artist: "a".into(), ..bare.clone() }));
    assert!(!id(TrackTags { mbid_album: "  ".into(), ..bare }));
}
