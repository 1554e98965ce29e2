use nd_organizer::favorites::{parse_loved, parse_starred, same_track, StarredSong};

#[test]
fn parses_getstarred2() {
    let json = r#"{"subsonic-response":{"starred2":{"song":[
        {"id":"s1","title":"Dream On","artist":"Aerosmith","album":"Rock","musicBrainzId":"abc"},
        {"id":"s2","title":"Walk This Way","artist":"Aerosmith","album":"Rock"}
    ]}}}"#;
    let songs = parse_starred(json);
    assert_eq!(songs.len(), 2);
    assert_eq!(songs[0].id, "s1");
    assert_eq!(songs[0].mbid, "abc");
    assert_eq!(songs[1].mbid, "");
}

#[test]
fn parses_loved_tracks() {
    let json = r#"{"lovedtracks":{"track":[
        {"name":"Dream On","artist":{"name":"Aerosmith"},"mbid":"abc"},
        {"name":"Bohemian Rhapsody","artist":{"name":"Queen"}}
    ]}}"#;
    let loved = parse_loved(json);
    assert_eq!(loved.len(), 2);
    assert_eq!(loved[0].mbid, "abc");
    assert_eq!(loved[1].mbid, "");
}

#[test]
fn matching_prefers_mbid_then_text() {
    let s = StarredSong {
        id: "x".into(),
        title: "Dream On".into(),
        artist: "Aerosmith".into(),
        album: String::new(),
        mbid: "abc".into(),
    };
    assert!(same_track("Dream On", "Aerosmith", "abc", &s));
    // Wrong mbid -> not same even if title matches.
    assert!(!same_track("Dream On", "Aerosmith", "zzz", &s));
    // No mbid -> text fallback (case-insensitive).
    let s2 = StarredSong {
        id: "x".into(),
        title: "dream on".into(),
        artist: "aerosmith".into(),
        album: String::new(),
        mbid: String::new(),
    };
    assert!(same_track("Dream On", "Aerosmith", "", &s2));
}
