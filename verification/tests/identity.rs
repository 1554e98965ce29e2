use nd_organizer::fraction::Fraction;
use nd_organizer::identity::{confidence, is_verified, score, Confidence};
use nd_organizer::tags::TrackTags;

fn tags() -> TrackTags {
    TrackTags::default()
}

fn frac(num: i64, den: i64) -> Fraction {
    Fraction { num, den }
}

#[test]
fn text_only_is_unverified() {
    let mut t = tags();
    t.album = "Some Album".into();
    t.album_artist = "Some Artist".into();
    assert_eq!(confidence(&t), Confidence::Unverified);
    assert!(!score(&t, None).ge(&frac(6, 10)));
}

#[test]
fn any_id_is_verified() {
    let mut t = tags();
    t.mbid_album = "abc".into();
    assert_eq!(confidence(&t), Confidence::Verified);
    assert!(is_verified(&t, frac(6, 10), None));

    let mut t = tags();
    t.isrc = "USRC17607839".into();
    assert_eq!(confidence(&t), Confidence::Verified);
    assert!(is_verified(&t, frac(6, 10), None));

    let mut t = tags();
    t.mbid_recording = "def".into();
    assert_eq!(confidence(&t), Confidence::Verified);
}

#[test]
fn score_thresholds_and_acoustid() {
    let mut t = tags();
    t.mbid_album = "a".into();
    t.mbid_recording = "r".into();
    assert_eq!(score(&t, None), frac(1, 1));
    assert!(is_verified(&t, frac(9, 10), None));

    let bare = tags();
    assert!(is_verified(&bare, frac(7, 10), Some(frac(8, 10))));
    assert!(!is_verified(&bare, frac(7, 10), Some(frac(2, 10))));

    assert!(!is_verified(&bare, frac(95, 100), None));
}

#[test]
fn scores_are_exact() {
    let mut t = tags();
    assert_eq!(score(&t, None), frac(1, 5));
    assert_eq!(score(&t, Some(frac(3, 4))), frac(7, 8));
    assert_eq!(score(&t, Some(frac(9, 4))), frac(2, 2));
    t.isrc = "x".into();
    assert_eq!(score(&t, None), frac(17, 20));
    t.mbid_artist = " ".into();
    assert_eq!(score(&t, None), frac(17, 20));
    t.mbid_artist = "y".into();
    assert_eq!(score(&t, None), frac(9, 10));
}

#[test]
fn thresholds_beyond_the_scale_count_as_its_ends() {
    assert!(is_verified(&tags(), frac(-3, 1), None));
    assert!(!is_verified(&tags(), frac(7, 2), Some(frac(9, 10))));
    assert!(is_verified(&tags(), frac(7, 2), Some(frac(1, 1))));
}
