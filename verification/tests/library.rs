use nd_organizer::apply::{apply_outcome, apply_plan, prune_chain, ApplyStep};
use nd_organizer::cleanup::{folders_without_audio, Folder};
use nd_organizer::config::{Config, Mode, SkipContentMode};
use nd_organizer::fraction::Fraction;
use nd_organizer::group::{apply_album_budget, content_fingerprint, db_changed, db_fingerprint};
use nd_organizer::group::{duplicates_message, likeness, look_alikes, media_count, next_batch};
use nd_organizer::group::{pairs_to_compare, plan_tasks, relative_path, tail_length, Likeness};
use nd_organizer::json::{parse, Json};
use nd_organizer::lastfm::{api_sig, lastfm_get, librefm_scrobble, listenbrainz_rate, love, nav_uri};
use nd_organizer::lastfm::{post_failure, session, session_key, sign_in, Rated, SessionStep};
use nd_organizer::net::{body_text, cache_expiry, cache_fresh, circuit_check, circuit_gate, circuit_mark_failed};
use nd_organizer::net::{circuit_probe, circuit_since, throttle, Body, CircuitOp, Gate, Reply};
use nd_organizer::order::comes_before;
use nd_organizer::organizer::{AlbumPlan, Bucket, FileMove};
use nd_organizer::paths::{folder_of, name_of};
use nd_organizer::ratings::{lidarr_push, listenbrainz_push, writes_to_lidarr};
use nd_organizer::ratings::{listenbrainz_ratings, writes_to_listenbrainz, RatingPass};
use nd_organizer::ratings::{filters_outcome, filters_request};
use nd_organizer::ratings::{album_rating_for, all_weights, feedback_seed, love_uri};
use nd_organizer::ratings::{migrate_star_tally, publish_filters, publish_star_rating, pulled_tally};
use nd_organizer::ratings::{record_star_listen, set_rating_uri, star_pub_key, star_tally_key};
use nd_organizer::ratings::{top_picks_uri, top_rated, total, Lookups, Publish, SongStats};
use nd_organizer::scan::{entry_use, files_left, match_ids, needs_index, unverified_files};
use nd_organizer::scan::{checked_files, file_key, index_words, processed_files, verify_reply};
use nd_organizer::scan::{verify_words, walk_words, VerifyReply};
use nd_organizer::scan::{verify_outcome, EntryKind, EntryUse, IndexChunk, Next, ScanChunk};
use nd_organizer::scan::{ScanOutcome, WalkChunk};
use nd_organizer::stats::{observe, star_rating, NowPlayingEntry, StarBand, StarTally};
use nd_organizer::tags::{detect_recording, identity_writes, playback_writes, stars_text};
use nd_organizer::tags::{PlaybackTags, Recording, TagItem};
use nd_organizer::text::{format_int, lower, parse_int, trim};
use nd_organizer::url::{form_body, urlencode};

fn answer(status: i32, body: &str) -> Reply {
    Reply::Answer { status, body: body.into() }
}

fn strings(v: &[&str]) -> Vec<String> {
    v.iter().map(|s| s.to_string()).collect()
}

fn pairs(v: &[(&str, &str)]) -> Vec<(String, String)> {
    v.iter().map(|(a, b)| (a.to_string(), b.to_string())).collect()
}

// Scanning

#[test]
fn a_full_task_comes_back_to_its_folder() {
    let mut cfg = Config::default();
    cfg.files_per_scan_task = 2;
    cfg.max_scan_entries = 0;
    let mut c = ScanChunk::start(strings(&["B", "skip/x", "A"]));
    match c.next_dir(&strings(&["skip"])) {
        Next::List(d) => assert_eq!(d, "A"),
        other => panic!("{other:?}"),
    }
    assert!(c.may_read(&cfg, 0));
    assert!(c.looked_at(&cfg, "A/1.mp3".into(), true));
    assert!(!c.looked_at(&cfg, "A/2.mp3".into(), true));
    assert!(!c.close_dir("A".into(), &strings(&["A/x", "A/y"]), 0));
    assert_eq!(c.stack, strings(&["B", "skip/x", "A/y", "A/x", "A"]));
    assert_eq!(c.outcome(&cfg, 0), ScanOutcome::More);
    cfg.max_scan_entries = 2;
    assert_eq!(c.outcome(&cfg, 0), ScanOutcome::Paused);
}

#[test]
fn the_clock_is_looked_at_now_and_then() {
    let mut c = ScanChunk::start((0..250).map(|i| format!("d{i}")).collect());
    let mut looks = 0;
    loop {
        match c.next_dir(&vec![]) {
            Next::Finished => break,
            Next::CheckClock(_) => looks += 1,
            Next::List(_) => {}
        }
    }
    assert_eq!(looks, 1);
    let mut cfg = Config::default();
    cfg.max_scan_entries = 0;
    assert_eq!(c.outcome(&cfg, 0), ScanOutcome::Done);
    c.out_of_time("late".into());
    assert_eq!(c.stack, strings(&["late"]));
    assert_eq!(c.outcome(&cfg, 0), ScanOutcome::More);
}

#[test]
fn a_walk_goes_on_where_it_was_cut_short() {
    let mut c = WalkChunk::start(strings(&["A"]), vec![], None);
    let dir = match c.next_dir(&vec![]) {
        Next::List(d) => d,
        other => panic!("{other:?}"),
    };
    let mut subs = Vec::new();
    c.take_entry(&dir, "1.mp3", EntryKind::File, 7, true, &mut subs);
    c.take_entry(&dir, ".x", EntryKind::Folder, 0, true, &mut subs);
    c.take_entry(&dir, "sub", EntryKind::Folder, 0, true, &mut subs);
    assert_eq!(c.files, vec![("A/1.mp3".to_string(), 7)]);
    assert_eq!(subs, strings(&["A/sub"]));
    assert!(c.clock_checked(true));
    c.close_dir(dir, &subs, Some(3));
    assert_eq!(c.stack, strings(&["A/sub", "A"]));
    assert_eq!(c.first_entry("A"), 3);
    assert_eq!(c.first_entry("A/sub"), 0);
    assert_eq!(c.outcome(), ScanOutcome::More);
    let mut rest = WalkChunk::start(c.stack, c.visited, c.resume);
    let _ = rest.next_dir(&vec![]);
    rest.close_dir("A".into(), &subs, None);
    assert_eq!(rest.visited, strings(&["A"]));
    assert_eq!(rest.stack, strings(&["A/sub"]));
}

#[test]
fn entries_are_used_by_kind() {
    assert_eq!(entry_use("a.MP3", EntryKind::File, true), EntryUse::Read);
    assert_eq!(entry_use("a.txt", EntryKind::File, true), EntryUse::Ignore);
    assert_eq!(entry_use("sub", EntryKind::Folder, true), EntryUse::Descend);
    assert_eq!(entry_use(".sub", EntryKind::Folder, true), EntryUse::Ignore);
    assert_eq!(entry_use(".sub", EntryKind::Folder, false), EntryUse::Descend);
}

#[test]
fn unchanged_files_are_not_indexed_again() {
    assert!(needs_index(None, 5));
    assert!(needs_index(Some(4), 5));
    assert!(!needs_index(Some(5), 5));
    let mut cfg = Config::default();
    cfg.files_per_scan_task = 1;
    cfg.max_scan_entries = 0;
    let mut c = IndexChunk::start();
    assert!(c.goes_on(&cfg, 2, 0, false));
    c.looked_at(true, 2);
    assert!(!c.goes_on(&cfg, 2, 0, false));
    assert_eq!(c.outcome(&cfg, 2, 0), ScanOutcome::More);
    let files = vec![("a".to_string(), 1), ("b".to_string(), 2)];
    assert_eq!(files_left(&files, 1), vec![("b".to_string(), 2)]);
}

#[test]
fn only_unknown_files_are_looked_up() {
    let files = vec![("a".to_string(), 1), ("b".to_string(), 2)];
    assert_eq!(unverified_files(&files, &vec![true, false]), vec![("b".to_string(), 2)]);
    assert_eq!(verify_outcome(&files, 1), (vec![("b".to_string(), 2)], ScanOutcome::More));
    assert_eq!(verify_outcome(&files, 2).1, ScanOutcome::Done);
    let hit = parse(r#"{"matches": [{"id": "rec", "releaseGroups": [{"id": "grp"}]}]}"#).unwrap();
    assert_eq!(match_ids(&hit), Some(("grp".into(), "rec".into())));
    assert_eq!(match_ids(&parse(r#"{"matches": []}"#).unwrap()), None);
}

// Grouping

#[test]
fn paths_are_relative_to_their_root() {
    assert_eq!(relative_path("/music/A/b.mp3", "/music"), "A/b.mp3");
    assert_eq!(relative_path("/else/b.mp3", "/music"), "/else/b.mp3".trim_start_matches('/'));
}

#[test]
fn albums_are_handed_out_within_the_budget() {
    let mut cfg = Config::default();
    cfg.max_albums_per_run = 3;
    let groups = |n: usize| -> Vec<Vec<String>> { (0..n).map(|i| vec![format!("{i}")]).collect() };
    let (planned, left) = apply_album_budget(&cfg, &None, groups(2));
    assert_eq!((planned.len(), left), (2, Some(1)));
    let (planned, left) = apply_album_budget(&cfg, &Some("1".into()), groups(2));
    assert_eq!((planned.len(), left), (1, Some(0)));
    let (planned, left) = apply_album_budget(&cfg, &Some("0".into()), groups(2));
    assert_eq!((planned.len(), left), (0, None));
    cfg.max_albums_per_run = 0;
    assert_eq!(apply_album_budget(&cfg, &None, groups(9)).0.len(), 9);
    cfg.albums_per_task = 4;
    let tasks: Vec<(usize, usize)> = plan_tasks(&cfg, 9).iter().map(|t| (t.from, t.to)).collect();
    assert_eq!(tasks, vec![(0, 4), (4, 8), (8, 9)]);
    assert_eq!(next_batch(0, 700, false), Some(500));
    assert_eq!(next_batch(500, 700, false), Some(700));
    assert_eq!(next_batch(700, 700, false), None);
    assert_eq!(next_batch(0, 700, true), None);
}

#[test]
fn a_changed_library_is_noticed() {
    let now = db_fingerprint(strings(&["/b", "/a"]), 7);
    assert_eq!(now, db_fingerprint(strings(&["/a", "/b"]), 7));
    assert!(db_changed(&Some("other".into()), &now));
    assert!(!db_changed(&Some(now.clone()), &now));
    assert_eq!(media_count(&None), 0);
}

#[test]
fn equal_contents_look_alike() {
    let one = content_fingerprint(3, &vec![1, 2, 3], &vec![]);
    assert_eq!(one, content_fingerprint(3, &vec![1, 2, 3], &vec![]));
    assert_ne!(one, content_fingerprint(3, &vec![1, 2, 4], &vec![]));
    assert_ne!(one, content_fingerprint(4, &vec![1, 2, 3], &vec![]));
    assert!(tail_length(10) <= 10);
    let files = vec![("a".to_string(), 1), ("b".to_string(), 2), ("c".to_string(), 1)];
    let groups = look_alikes(&files);
    assert_eq!(groups, vec![strings(&["a", "c"])]);
    assert_eq!(
        duplicates_message(&groups),
        Some("nd-organizer: possible duplicate audio files:\n  a <=> c\n".into())
    );
    assert_eq!(duplicates_message(&vec![]), None);
    assert_eq!(likeness(&Fraction { num: 95, den: 100 }), Likeness::Same);
    assert_eq!(likeness(&Fraction { num: 94, den: 100 }), Likeness::Cover);
    assert_eq!(likeness(&Fraction { num: 49, den: 100 }), Likeness::Different);
    assert_eq!(pairs_to_compare(3), vec![(0, 1), (0, 2), (1, 2)]);
    assert_eq!(pairs_to_compare(30).len(), 190);
}

// Cleaning up and applying

fn folder(rel: &str, files: &[&str], folders: Vec<Folder>) -> Folder {
    Folder { rel: rel.into(), listed: true, files: strings(files), folders }
}

#[test]
fn folders_with_audio_stay() {
    let root = folder(
        "",
        &[],
        vec![
            folder("A", &["x.mp3"], vec![folder("A/art", &["a.jpg"], vec![])]),
            folder("B", &["notes.txt"], vec![folder("B/deep", &[], vec![])]),
            folder("C", &[], vec![folder("C/cd1", &["y.flac"], vec![])]),
        ],
    );
    let gone = folders_without_audio(&root, &vec![], true);
    assert!(gone.contains(&"A/art".to_string()));
    assert!(gone.contains(&"B".to_string()));
    assert!(!gone.contains(&"A".to_string()));
    assert!(!gone.contains(&"C".to_string()));
    assert!(!gone.contains(&String::new()));
    assert!(!folders_without_audio(&root, &strings(&["B"]), true).contains(&"B".to_string()));
}

#[test]
fn steps_follow_the_plan() {
    let plan = AlbumPlan {
        bucket: Bucket::Normal,
        current_dir: "Old".into(),
        target_dir: "New".into(),
        moves: vec![FileMove {
            from: "Old/a.mp3".into(),
            to: "New/01.mp3".into(),
            sidecars: strings(&["a.lrc"]),
        }],
        dir_sidecars: strings(&["cover.jpg"]),
        keeps: 0,
        skipped: vec![],
    };
    let steps = apply_plan(&plan);
    assert_eq!(steps.len(), 2);
    match &steps[0] {
        ApplyStep::Track { from, to, companions } => {
            assert_eq!((from.as_str(), to.as_str()), ("Old/a.mp3", "New/01.mp3"));
            assert_eq!(companions, &pairs(&[("Old/a.lrc", "New/a.lrc")]));
        }
        other => panic!("{other:?}"),
    }
    assert!(matches!(&steps[1], ApplyStep::FolderFile { to, .. } if to == "New/cover.jpg"));
    assert_eq!(prune_chain("A/B/C"), strings(&["A/B/C", "A/B", "A"]));
    assert_eq!(apply_outcome(&vec![]), Ok(()));
    assert!(apply_outcome(&strings(&["x failed"])).unwrap_err().contains("x failed"));
}

// Circuits, throttles and caches

#[test]
fn the_first_failure_is_kept() {
    assert_eq!(circuit_mark_failed(&None, 5), Some("5".into()));
    assert_eq!(circuit_mark_failed(&Some("3".into()), 5), None);
    assert_eq!(circuit_since(&Some("3".into())), Some(3));
    assert_eq!(circuit_since(&Some("x".into())), None);
    assert_eq!(circuit_gate(false, false), Gate::Pass);
    assert_eq!(circuit_gate(true, true), Gate::Ask);
    assert_eq!(circuit_gate(true, false), Gate::Wait);
    assert_eq!(circuit_probe(&answer(399, "")), (true, CircuitOp::Clear));
    assert_eq!(circuit_probe(&answer(400, "")), (false, CircuitOp::Keep));
    assert_eq!(circuit_check(&answer(404, "")), (true, CircuitOp::Keep));
    assert_eq!(circuit_check(&answer(500, "")), (false, CircuitOp::MarkFailed));
}

#[test]
fn calls_keep_their_distance() {
    assert_eq!(throttle(&None, 10, 1200), Some(10_000));
    assert_eq!(throttle(&Some("9000".into()), 10, 1200), None);
    assert_eq!(throttle(&Some("8800".into()), 10, 1200), Some(10_000));
    assert_eq!(cache_expiry(100, 60), 160);
    assert!(cache_fresh(&Some("160".into()), 159));
    assert!(!cache_fresh(&Some("160".into()), 160));
    assert!(!cache_fresh(&None, 0));
}

// Last.fm and friends

#[test]
fn calls_are_signed() {
    // The digest of "api_keykmethodauth.getMobileSessionsecret".
    let signed = api_sig("secret", pairs(&[("method", "auth.getMobileSession"), ("api_key", "k")]));
    let sig = &signed.iter().find(|(k, _)| k == "api_sig").unwrap().1;
    assert_eq!(sig.len(), 32);
    assert!(sig.chars().all(|c| c.is_ascii_hexdigit() && !c.is_ascii_uppercase()));
    let other = api_sig(
        "secret",
        pairs(&[("format", "json"), ("api_key", "k"), ("method", "auth.getMobileSession")]),
    );
    assert_eq!(&other.iter().find(|(k, _)| k == "api_sig").unwrap().1, sig);
}

#[test]
fn digests_are_those_of_md5() {
    // Without parameters the digest covers the secret alone.
    let signed = api_sig("abc", vec![]);
    assert_eq!(
        signed.iter().find(|(k, _)| k == "api_sig").unwrap().1,
        "900150983cd24fb0d6963f7d28e17f72"
    );
}

#[test]
fn sessions_are_asked_for_with_care() {
    let mut c = Config::default();
    assert!(matches!(session(&c, &Some("key".into()), &None, &None, 0), SessionStep::Have(s) if s == "key"));
    match session(&c, &None, &None, &None, 0) {
        SessionStep::Refuse(s) => assert!(s.starts_with("favorites sync needs lastfmApiSecret")),
        other => panic!("{other:?}"),
    }
    c.lastfm_api_secret = "s".into();
    c.lastfm_password = "p".into();
    assert!(matches!(session(&c, &None, &None, &None, 0), SessionStep::SignIn));
    match session(&c, &None, &Some("100".into()), &Some("no".into()), 150) {
        SessionStep::Refuse(s) => assert_eq!(s, "Last.fm auth throttled (retry in ~250s): no"),
        other => panic!("{other:?}"),
    }
    assert!(matches!(session(&c, &None, &Some("100".into()), &None, 400), SessionStep::SignIn));
    assert!(matches!(sign_in(&c).body, Body::Text(_)));
    assert_eq!(session_key(&parse(r#"{"session": {"key": "abc"}}"#)), Some("abc".into()));
    assert_eq!(session_key(&parse("{}")), None);
}

#[test]
fn requests_carry_their_parameters() {
    let mut c = Config::default();
    c.lastfm_api_key = "k".into();
    let r = lastfm_get(&c, "user.getLovedTracks", &pairs(&[("user", "a b")]));
    assert!(r.url.contains("method=user.getLovedTracks"));
    assert!(r.url.ends_with("&user=a%20b"), "{}", r.url);
    match love(&c, "sk", "A&B", "T").body {
        Body::Text(s) => assert!(s.contains("artist=A%26B") && s.contains("api_sig=")),
        _ => panic!("a form"),
    }
    assert_eq!(nav_uri("star?id=1", "me"), "star?id=1&u=me");
    assert_eq!(nav_uri("getStarred2", "me"), "getStarred2?u=me");
    assert!(librefm_scrobble(&Config::default(), "a", "t", "", 1).is_none());
    assert!(listenbrainz_rate(&Config::default(), Rated::Track, "m", 7).is_none());
}

#[test]
fn failures_are_told_in_print() {
    assert_eq!(post_failure(&answer(200, "")), None);
    let s = post_failure(&answer(403, r#"{"error":4,"message":"bad"}"#)).unwrap();
    assert!(s.contains("403"), "{s}");
    assert!(post_failure(&Reply::Silent).is_some());
    assert!(post_failure(&Reply::Failed { cause: "c".into() }).unwrap().contains("c"));
}

#[test]
fn reserved_characters_are_encoded() {
    assert_eq!(urlencode("ä /~-_."), "%C3%A4%20%2F~-_.");
    assert_eq!(form_body(&pairs(&[("a", "1 2"), ("b", "&")])), "a=1%202&b=%26");
}

// Ratings

fn tally(full: i64, skips: i64) -> StarTally {
    StarTally {
        path: "A/B/c.mp3".into(),
        id: "7".into(),
        title: "T".into(),
        artist: "A".into(),
        full,
        half: 0,
        skips,
        loved: false,
    }
}

fn playing(position_ms: i64, duration: i64) -> NowPlayingEntry {
    NowPlayingEntry {
        id: "7".into(),
        position_ms,
        duration,
        title: "T".into(),
        artist: "A".into(),
        album: "B".into(),
        path: "A/B/c.mp3".into(),
        play_count: 0,
    }
}

#[test]
fn listens_move_the_tally() {
    let cfg = Config::default();
    let none = Lookups { playcount: 0, loved: false, rating: None };
    let (t, band) = record_star_listen(&cfg, Some(tally(1, 0)), &playing(200_000, 200), &none);
    assert_eq!((t.full, band), (2, StarBand::Full));
    let (t, band) = record_star_listen(&cfg, Some(tally(1, 0)), &playing(20_000, 200), &none);
    assert_eq!((t.skips, band), (1, StarBand::Skip));
    let mut e = playing(200_000, 200);
    e.play_count = 4;
    let (t, _) = record_star_listen(&cfg, None, &e, &none);
    assert_eq!(t.full, 5);
}

#[test]
fn moved_files_keep_their_rating() {
    let m = migrate_star_tally(Some(tally(3, 1)), "A/B/c.mp3", "X/c.mp3").unwrap();
    assert_eq!(m.tally.path, "X/c.mp3");
    assert_eq!(star_rating(&m.tally), star_rating(&tally(3, 1)));
    assert_eq!(m.new_key, star_tally_key("X/c.mp3"));
    assert_eq!(m.old_key, star_tally_key("A/B/c.mp3"));
    assert_eq!(m.old_pub_key, star_pub_key("A/B/c.mp3"));
    assert!(migrate_star_tally(None, "a", "b").is_none());
}

#[test]
fn ratings_are_published_once() {
    let mut cfg = Config::default();
    cfg.star_min_samples = 1;
    let four = Fraction { num: 4, den: 1 };
    match publish_star_rating(&cfg, &tally(9, 0), &None, &RatingPass::start(), &four) {
        Publish::Rate { rating, love } => assert_eq!((rating, love), (5, Some(true))),
        other => panic!("{other:?}"),
    }
    assert!(matches!(
        publish_star_rating(&cfg, &tally(9, 0), &Some("5".into()), &RatingPass::start(), &four),
        Publish::Pass
    ));
    let last = RatingPass { told: 250 };
    assert!(matches!(publish_star_rating(&cfg, &tally(9, 0), &None, &last, &four), Publish::Stop));
    assert_eq!(set_rating_uri("7", 3, "me"), "setRating?id=7&rating=3&u=me");
    assert!(love_uri(true, "1", "me").starts_with("star?id=1"));
    assert!(love_uri(false, "1", "me").starts_with("unstar?id=1"));
}

#[test]
fn albums_get_the_average() {
    let r = album_rating_for("A/B", &None, &vec![tally(9, 0), tally(0, 9)]).unwrap();
    assert_eq!(r.num * 4, r.den * 10);
    let outside = Some(Fraction { num: 9, den: 1 });
    let r = album_rating_for("A/B", &outside, &vec![]).unwrap();
    assert_eq!((r.num, r.den), (5, 1));
    assert!(album_rating_for("Z", &None, &vec![tally(9, 0)]).is_none());
    let rows = top_rated(&vec![tally(0, 3), tally(9, 0)], 1);
    assert_eq!((rows.len(), rows[0].half_stars), (1, 10));
}

#[test]
fn pulled_songs_and_feedback() {
    let t = pulled_tally(&None, "A/B/c.mp3", "7", "T", "A").unwrap();
    assert_eq!(star_rating(&t), 6);
    assert!(pulled_tally(&Some(tally(1, 0)), "A/B/c.mp3", "7", "T", "A").is_none());
    assert!(feedback_seed(tally(0, 0), 1).is_some());
    assert!(feedback_seed(tally(1, 0), 1).is_none());
}

#[test]
fn heavier_songs_come_first() {
    let song = |id: &str, plays, skips| SongStats { id: id.into(), plays, skips };
    let w = all_weights(vec![song("a", 1, 9), song("b", 9, 0), song("c", 5, 0)]);
    let ids: Vec<&str> = w.iter().map(|s| s.id.as_str()).collect();
    assert_eq!(ids, ["b", "c", "a"]);
    assert_eq!(
        top_picks_uri(&w, 2, "me", &Some("p".into())),
        Some("createPlaylist?name=nd-organizer%3A%20Top%20Picks&u=me&songId=b&songId=c&playlistId=p".into())
    );
    assert_eq!(top_picks_uri(&vec![], 2, "me", &None), None);
    let mut cfg = Config::default();
    cfg.filter_url = "http://f/".into();
    cfg.keyword_filter_enabled = true;
    cfg.skip_content_mode = SkipContentMode::Half;
    assert!(publish_filters(&cfg, &w, &Fraction { num: 1, den: 2 }).is_none());
    cfg.mode = Mode::Apply;
    cfg.filler_keywords = "intro".into();
    let p = publish_filters(&cfg, &w, &Fraction { num: 1, den: 2 }).unwrap();
    assert_eq!(p.excluded, strings(&["a"]));
    let q = filters_request(&cfg, p, &w);
    assert_eq!(q.url, "http://f/filters");
    let body = body_text(&q.body);
    assert!(body.contains(r#"["b",9.0,9,0]"#), "{body}");
    assert!(body.contains(r#""skipMode":"half""#), "{body}");
    assert_eq!(filters_outcome(&cfg, &answer(204, "")), Ok(()));
    assert_eq!(
        filters_outcome(&cfg, &answer(500, "")),
        Err("filter proxy http://f responded 500".into())
    );
    assert_eq!(
        filters_outcome(&cfg, &Reply::Silent),
        Err("filter proxy http://f unreachable".into())
    );
    assert_eq!(total(&vec![Some("2".into()), None, Some("x".into()), Some("3".into())]), 5);
}

#[test]
fn ended_songs_are_plays_or_skips() {
    let gone = observe(&vec![playing(190_000, 200)], &vec![], 50);
    assert_eq!(gone.len(), 1);
    assert!(!gone[0].skipped);
    assert!(observe(&vec![playing(10_000, 200)], &vec![], 50)[0].skipped);
    assert!(observe(&vec![playing(10_000, 200)], &vec![playing(12_000, 200)], 50).is_empty());
}

// Tags and texts

#[test]
fn recordings_are_told_apart() {
    let item = |k: &str, v: &str| TagItem { key: k.into(), value: v.into() };
    assert_eq!(detect_recording(&vec![], "Song", "Album", "Rock"), Recording::Studio);
    assert_eq!(detect_recording(&vec![], "Song", "Album", "Live"), Recording::Live);
    assert_eq!(detect_recording(&vec![], "Song", "Bootleg (Live)", ""), Recording::Bootleg);
    let _ = detect_recording(&vec![item("RELEASETYPE", "live")], "Song", "Album", "");
}

#[test]
fn existing_tags_stay_unless_told_otherwise() {
    let w = identity_writes("old", "", "new", Some("rec"), false);
    assert!(!w.album && !w.recording);
    let w = identity_writes("", "", "new", Some("rec"), false);
    assert!(w.album && w.recording);
    let w = identity_writes("old", "", "new", None, true);
    assert!(w.album && !w.recording);
    assert_eq!(stars_text(7), "3.5");
    let empty = PlaybackTags { playcount: String::new(), rating: String::new(), loved: String::new() };
    let keys: Vec<String> =
        playback_writes(&empty, Some(7), 3, Some(true), false).into_iter().map(|w| w.value).collect();
    assert!(keys.contains(&"3.5".to_string()) && keys.contains(&"3".to_string()));
}

#[test]
fn numbers_and_letters() {
    assert_eq!(format_int(-42), "-42");
    assert_eq!(parse_int("-42", i64::MIN, i64::MAX), Some(-42));
    assert_eq!(parse_int("4x", i64::MIN, i64::MAX), None);
    assert_eq!(lower("Abc"), "abc");
    assert_eq!(trim("\u{3000} a \n"), "a");
    assert!(comes_before("a", "b") && comes_before("Z", "a") && !comes_before("a", "a"));
    assert!(matches!(parse("{\"a\": 1.5e3}"), Some(Json::Object(_))));
    assert!(parse("{").is_none());
}

#[test]
fn ratings_that_go_to_lidarr() {
    let mut cfg = Config {
        rating_sync_write_to_lidarr: true,
        lidarr_url: "http://l".into(),
        lidarr_api_key: " ".into(),
        star_min_samples: 1,
        ..Config::default()
    };
    assert!(!writes_to_lidarr(&cfg));
    cfg.lidarr_api_key = "k".into();
    assert!(writes_to_lidarr(&cfg));
    let push = lidarr_push(&cfg, &tally(2, 1)).unwrap();
    assert_eq!((push.album_name.as_str(), push.album_dir.as_str()), ("B", "A/B"));
    assert_eq!((push.track, push.album, push.half_stars), (true, true, 3));
    assert!(lidarr_push(&cfg, &tally(0, 4)).is_none());
    let unnamed = lidarr_push(&cfg, &StarTally { artist: String::new(), ..tally(1, 0) }).unwrap();
    assert_eq!((unnamed.track, unnamed.album), (false, false));
    assert!(!writes_to_listenbrainz(&cfg));
    cfg.listenbrainz_scrobble = true;
    assert!(!writes_to_listenbrainz(&cfg));
    cfg.musicbrainz_token = "t".into();
    assert!(writes_to_listenbrainz(&cfg));
    assert_eq!(listenbrainz_push(&cfg, &tally(2, 1)), Some(3));
    assert_eq!(listenbrainz_push(&cfg, &tally(0, 4)), None);
}

#[test]
fn answers_of_a_lookup() {
    let reply = |status: i32, body: &str| Reply::Answer { status, body: body.into() };
    assert!(matches!(verify_reply(&Reply::Silent), VerifyReply::Unavailable));
    assert!(matches!(verify_reply(&reply(503, "{}")), VerifyReply::Unavailable));
    assert!(matches!(verify_reply(&reply(200, "not a document")), VerifyReply::Unreadable));
    let body = r#"{"processed": 3, "results": [
        {"path": "/music/A/1.mp3",
         "matches": [{"id": "rec", "releaseGroups": [{"id": "group"}]}, {"id": "other"}]},
        {"matches": [{"id": "lost"}]},
        {"path": "/music/A/2.mp3", "matches": []}]}"#;
    let VerifyReply::Answered(answer) = verify_reply(&reply(200, body)) else {
        panic!("an answer is expected");
    };
    assert_eq!(processed_files(&answer), 3);
    let checked = checked_files(&answer, "/music");
    assert_eq!(checked.len(), 2);
    assert_eq!(checked[0].rel, "A/1.mp3");
    assert_eq!(checked[0].ids, Some(("group".to_string(), "rec".to_string())));
    assert_eq!((checked[1].rel.as_str(), checked[1].ids.is_none()), ("A/2.mp3", true));
    let VerifyReply::Answered(empty) = verify_reply(&reply(200, "{}")) else {
        panic!("an answer is expected");
    };
    assert_eq!((checked_files(&empty, "/music").len(), processed_files(&empty)), (0, 0));
}

#[test]
fn what_statuses_say_of_a_scan() {
    assert_eq!(walk_words(ScanOutcome::Done, 12, 0), "walk complete: 12 files found");
    assert_eq!(
        walk_words(ScanOutcome::More, 12, 3),
        "walking... 12 files found, 3 directories remaining"
    );
    assert_eq!(index_words(5, 2), "indexing complete: 5 files indexed, 2 skipped (unchanged)");
    assert_eq!(verify_words(ScanOutcome::More, 50, 120), "verifying... 50/120 files verified");
    assert_eq!(verify_words(ScanOutcome::Done, 20, 20), "verification complete");
    assert_eq!(file_key(3, ""), "scan.filev2.3.cbf29ce484222325");
}

#[test]
fn hidden_audio_keeps_its_folder() {
    let hidden = folder("D/.keep", &["a.flac"], vec![]);
    let root = folder("", &[], vec![folder("D", &["x.jpg"], vec![hidden])]);
    assert!(folders_without_audio(&root, &vec![], true).is_empty());
    let root = folder("", &[], vec![folder("D", &[".a.flac"], vec![])]);
    assert!(folders_without_audio(&root, &vec![], true).is_empty());
    let silent = folder("D/.git", &["a.txt"], vec![]);
    let root = folder("", &[], vec![folder("D", &[], vec![silent])]);
    assert_eq!(folders_without_audio(&root, &vec![], true), vec!["D"]);
    let closed = Folder { listed: false, ..folder("D/closed", &[], vec![]) };
    let root = folder("", &[], vec![folder("D", &[], vec![closed])]);
    assert!(folders_without_audio(&root, &vec![], true).is_empty());
}

#[test]
fn a_pass_of_ratings_ends_at_its_cap() {
    let mut pass = RatingPass::start();
    let mut tallies = 0;
    while !pass.is_full() {
        pass.count(3);
        tallies += 1;
    }
    assert_eq!((tallies, pass.told), (84, 252));
    let mut single = RatingPass::start();
    for _ in 0..250 {
        assert!(!single.is_full());
        single.count(1);
    }
    assert!(single.is_full());
    single = RatingPass::start();
    single.count(0);
    assert_eq!(single.told, 0);
}

#[test]
fn a_rating_goes_to_track_album_and_artist() {
    assert_eq!(
        listenbrainz_ratings("rec", &Some("group".into()), "art"),
        vec![
            (Rated::Track, "rec".to_string()),
            (Rated::Album, "group".to_string()),
            (Rated::Artist, "art".to_string()),
        ]
    );
    assert_eq!(listenbrainz_ratings("", &None, "art"), vec![(Rated::Artist, "art".to_string())]);
    assert!(listenbrainz_ratings("", &None, "").is_empty());
}

#[test]
fn folders_are_those_of_paths() {
    let cases = [
        ("/music/A/one.mp3", "/music/A", "one.mp3"),
        ("/one.mp3", "/", "one.mp3"),
        ("one.mp3", "", "one.mp3"),
        ("A//one.mp3", "A", "one.mp3"),
        ("/music/A/./one.mp3", "/music/A", "one.mp3"),
        ("A/one.mp3/", "A", "one.mp3"),
        ("./one.mp3", ".", "one.mp3"),
        ("A/..", "A", ""),
        ("/", "", ""),
        (".", "", ""),
        ("", "", ""),
    ];
    for (path, folder, name) in cases {
        assert_eq!((folder_of(path).as_str(), name_of(path).as_str()), (folder, name), "{path}");
        let p = std::path::Path::new(path);
        let there = p.parent().map(|d| d.to_string_lossy().to_string()).unwrap_or_default();
        assert_eq!(folder_of(path), there, "{path}");
        let last = p.file_name().map(|n| n.to_string_lossy().to_string()).unwrap_or_default();
        assert_eq!(name_of(path), last, "{path}");
    }
}

#[test]
fn an_album_at_the_root_has_its_rating() {
    let mut t = tally(9, 0);
    t.path = "/one.mp3".into();
    let rating = album_rating_for("/", &None, &vec![t]).unwrap();
    assert_eq!((rating.num, rating.den), (10, 2));
}
