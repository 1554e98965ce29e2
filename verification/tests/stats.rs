use nd_organizer::fraction::Fraction;
use nd_organizer::stats::{
    apply_band, describe, hard_exclude, is_skip, parse_nowplaying, parse_playlist_id, rating_1_5,
    star_band, star_credit, star_rating, weight, StarBand, StarTally, StatsReport,
};

/// A percentage of a song of a thousand seconds, in tenths of a percent.
fn band(tenths: i64, half: i32, full: i32, ignore: i32) -> StarBand {
    star_band(tenths * 1000, 1000, half, full, ignore)
}

fn stars(half_stars: u8) -> f64 {
    half_stars as f64 / 2.0
}

#[test]
fn skip_rule() {
    // 3-min song, played 30s -> skipped at 30% threshold.
    assert!(is_skip(180, 30_000, 30));
    // Played 90s of 180 -> not a skip.
    assert!(!is_skip(180, 90_000, 30));
    assert!(!is_skip(0, 10, 30));
}

#[test]
fn weight_and_rating() {
    assert_eq!(weight(10, 0) as f64, 10.0);
    assert_eq!(weight(10, 9) as f64, -8.0);
    assert!(rating_1_5(10, 0) >= 4);
    assert_eq!(rating_1_5(0, 0), 0);
    assert!(rating_1_5(2, 8) < rating_1_5(8, 2));
}

#[test]
fn hard_exclude_only_when_net_negative() {
    let ratio = Fraction { num: 6, den: 10 };
    // Skipped more than played, past cap, enough samples -> excluded.
    assert!(hard_exclude(1, 3, &ratio, 3));
    assert!(hard_exclude(2, 3, &ratio, 3));
    // Played as much as skipped: you keep coming back -> never excluded.
    assert!(!hard_exclude(3, 3, &ratio, 3));
    // You like it: more full plays than skips -> never excluded.
    assert!(!hard_exclude(5, 2, &ratio, 3));
    assert!(!hard_exclude(3, 1, &ratio, 3));
    // Not enough samples yet.
    assert!(!hard_exclude(0, 2, &ratio, 3));
    // A full play forgives a skip: 2 plays/3 skips (excluded) -> play in
    // full once more -> 3 plays/2 skips (kept).
    assert!(hard_exclude(2, 3, &ratio, 3));
    assert!(!hard_exclude(3, 2, &ratio, 3));
}

#[test]
fn parses_nowplaying_and_playlist_id() {
    let np = r#"{"subsonic-response":{"nowPlaying":{"entry":[
        {"id":"s1","positionMs":10000,"duration":180,"title":"Alright","artist":"Electric Light Orchestra","album":"All Over the World"},
        {"id":"s2","positionMs":120000,"duration":240}
    ]}}}"#;
    let entries = parse_nowplaying(np);
    assert_eq!(entries.len(), 2);
    assert_eq!(entries[0].position_ms, 10_000);
    assert_eq!(entries[1].duration, 240);
    assert_eq!(entries[0].title, "Alright");
    assert_eq!(entries[0].artist, "Electric Light Orchestra");
    assert_eq!(entries[0].album, "All Over the World");
    assert_eq!(entries[1].title, "", "missing fields default to empty");

    assert_eq!(
        parse_playlist_id(r#"{"subsonic-response":{"playlist":{"id":"pl-9"}}}"#),
        Some("pl-9".into())
    );
}

#[test]
fn describe_is_detailed_even_when_idle() {
    let r = StatsReport {
        plays: 1,
        skips: 2,
        events: vec![
            "full play: Electric Light Orchestra - Alright [All Over the World]".into(),
            "skipped: Radiohead - Creep [Pablo Honey] (stopped at 12% of 238s)".into(),
        ],
        total_plays: 40,
        total_skips: 9,
        tracked_songs: 27,
        now_playing: vec![],
    };
    let msg = describe(&r, 12, 3, 2, 4);
    assert!(msg.contains("1 play(s), 2 skip(s) observed"), "{}", msg);
    assert!(msg.contains("Electric Light Orchestra - Alright"), "{}", msg);
    assert!(msg.contains("40 full plays, 9 skips across 27 tracked songs"), "{}", msg);
    assert!(msg.contains("Top Picks playlist refreshed with 12 tracks"), "{}", msg);
    assert!(msg.contains("3 skip-heavy track(s) removed"), "{}", msg);
    assert!(msg.contains("2 rating(s) published to Navidrome"), "{}", msg);
    // Idle cycle still reports useful cumulative state.
    let idle = StatsReport { plays: 0, skips: 0, events: vec![], total_plays: 40, total_skips: 9, tracked_songs: 27, now_playing: vec![] };
    let idle_msg = describe(&idle, 0, 0, 0, 0);
    assert!(idle_msg.contains("no playback activity observed"), "{}", idle_msg);
    assert!(idle_msg.contains("40 full plays, 9 skips across 27 tracked songs"), "{}", idle_msg);
}

#[test]
fn star_band_boundaries() {
    // 55 half / 85 full / 5 ignore.
    assert_eq!(band(500, 55, 85, 5), StarBand::Skip);
    assert_eq!(band(549, 55, 85, 5), StarBand::Skip);
    assert_eq!(band(550, 55, 85, 5), StarBand::Half);
    assert_eq!(band(840, 55, 85, 5), StarBand::Half);
    assert_eq!(band(850, 55, 85, 5), StarBand::Full);
    assert_eq!(band(1000, 55, 85, 5), StarBand::Full);
    // Below the ignore threshold: ignored, no penalty.
    assert_eq!(band(0, 55, 85, 5), StarBand::Ignore);
    assert_eq!(band(49, 55, 85, 5), StarBand::Ignore);
    assert_eq!(band(50, 55, 85, 5), StarBand::Skip);
}

#[test]
fn star_ignored_listens_do_not_penalize() {
    let t = StarTally { skips: 0, ..Default::default() };
    let after = apply_band(t, StarBand::Ignore);
    assert_eq!(after.skips, 0);
    assert_eq!(after.full, 0);
    assert_eq!(after.half, 0);
}

#[test]
fn star_accumulates_with_penalty_and_cap() {
    // 3 full listens -> 3.0 stars (a single play can't max the rating).
    let t = apply_band(StarTally { full: 2, ..Default::default() }, StarBand::Full);
    assert_eq!(stars(star_rating(&t)), 3.0);
    // 5 full listens -> capped at 5.0 (credit never exceeds 5).
    let t = StarTally { full: 5, half: 2, skips: 1, ..Default::default() };
    assert_eq!(stars(star_credit(&t)), 5.0);
    assert_eq!(stars(star_rating(&t)), 5.0);
    // Below cap the credit is full + half*0.5 - skips*0.5.
    let t = StarTally { full: 3, half: 1, skips: 1, ..Default::default() };
    assert_eq!(stars(star_credit(&t)), 3.0);
    // 2 full + 2 half -> 3.0; skips penalize.
    let t = apply_band(apply_band(StarTally { full: 2, ..Default::default() }, StarBand::Half), StarBand::Half);
    assert_eq!(stars(star_rating(&t)), 3.0);
    // All skips -> 0.0 (penalty).
    let mut t = StarTally::default();
    for _ in 0..3 {
        t = apply_band(t, StarBand::Skip);
    }
    assert_eq!(stars(star_rating(&t)), 0.0);
}

#[test]
fn star_full_listen_forgives_one_skip() {
    // 1 skip then 1 full: skip penalty is forgiven.
    let t = apply_band(StarTally::default(), StarBand::Skip);
    let t = apply_band(t, StarBand::Full);
    assert_eq!(t.skips, 0);
    assert_eq!(t.full, 1);
    assert_eq!(stars(star_rating(&t)), 1.0);
    // Half-step precision: 2 full + 1 skip -> 1.5 (not 1.0).
    let t = apply_band(StarTally { full: 2, ..Default::default() }, StarBand::Skip);
    assert_eq!(stars(star_rating(&t)), 1.5);
}

#[test]
fn star_playcount_is_full_listens_only() {
    // Half listens and skips never increment the playcount.
    let t = apply_band(StarTally::default(), StarBand::Half);
    let t = apply_band(t, StarBand::Skip);
    assert_eq!(t.full, 0, "half/skip must not touch playcount");
    assert_eq!(stars(star_credit(&t)), 0.0);
}
