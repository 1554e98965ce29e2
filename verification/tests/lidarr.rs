use nd_organizer::config::Config;
use nd_organizer::json::{parse, Json};
use nd_organizer::lidarr::{after_send, artist_answer, artist_tracked, command_outcome, find_album};
use nd_organizer::lidarr::{force_search, found_album, incomplete_monitored, keep, needs_detail};
use nd_organizer::lidarr::{parse_album, refresh_artist, save_album, with_detail, LidarrAlbum};
use nd_organizer::net::{Body, CircuitOp, Reply};
use nd_organizer::url::urlencode;

fn answer(status: i32, body: &str) -> Reply {
    Reply::Answer { status, body: body.into() }
}

fn configured() -> Config {
    let mut c = Config::default();
    c.lidarr_url = "http://lidarr:8686".into();
    c.lidarr_api_key = "k".into();
    c
}

const WALL: &str = r#"{
    "id": 42,
    "title": "The Wall",
    "monitored": true,
    "artistId": 99,
    "artist": { "id": 99, "artistName": "Pink Floyd", "monitored": true },
    "statistics": { "trackCount": 26 }
}"#;

#[test]
fn parses_album_resource() {
    let v = parse(WALL).unwrap();
    let a = parse_album(&v).unwrap();
    assert_eq!(a.id, 42);
    assert_eq!(a.title, "The Wall");
    assert_eq!(a.artist, "Pink Floyd");
    assert_eq!(a.artist_id, 99);
    assert!(a.monitored && a.artist_monitored);
    assert_eq!(a.track_count, Some(26));
}

#[test]
fn parses_unmonitored_and_missing_stats() {
    let v = parse(
        r#"{
            "id": 7,
            "title": "EP",
            "monitored": false,
            "artist": { "id": 12, "artistName": "Someone", "monitored": true }
        }"#,
    )
    .unwrap();
    let a = parse_album(&v).unwrap();
    assert!(!a.monitored);
    assert_eq!(a.track_count, None);
    assert_eq!(a.artist_id, 12);
}

#[test]
fn url_encodes_query() {
    assert_eq!(urlencode("Pink Floyd The Wall"), "Pink%20Floyd%20The%20Wall");
    assert_eq!(urlencode("a&b=c"), "a%26b%3Dc");
}

#[test]
fn albums_without_id_or_title_are_none() {
    assert!(parse_album(&parse(r#"{"title": "x"}"#).unwrap()).is_none());
    assert!(parse_album(&parse(r#"{"id": 3}"#).unwrap()).is_none());
    assert!(parse_album(&Json::Null).is_none());
}

#[test]
fn the_album_is_found_whatever_the_case() {
    let body = format!(r#"[{{"id": 1, "title": "Other", "artist": {{"artistName": "Pink Floyd"}}}}, {WALL}]"#);
    let found = found_album(&answer(200, &body), "the wall", "PINK FLOYD").unwrap();
    assert_eq!(found.id, 42);
    assert!(found_album(&answer(200, &body), "the wall", "someone").is_none());
    assert!(found_album(&answer(404, &body), "the wall", "Pink Floyd").is_none());
}

#[test]
fn details_are_asked_for_where_the_count_is_missing() {
    let a = parse_album(&parse(r#"{"id": 5, "title": "T"}"#).unwrap());
    assert_eq!(needs_detail(&a), Some(5));
    let with = with_detail(a.unwrap(), &answer(200, WALL));
    assert_eq!(with.track_count, Some(26));
    assert_eq!(needs_detail(&Some(with.clone())), None);
    assert_eq!(with_detail(with, &Reply::Silent).id, 42);
}

#[test]
fn what_is_kept_reads_back() {
    let a = parse_album(&parse(WALL).unwrap());
    let back = parse_album(&keep(&a)).unwrap();
    assert_eq!(back.id, 42);
    assert_eq!(back.artist, "Pink Floyd");
    assert_eq!(back.artist_id, 99);
    assert!(back.monitored && back.artist_monitored);
    assert_eq!(back.track_count, Some(26));
    assert!(parse_album(&keep(&None)).is_none());
    let stored = parse_album(&parse(&save_album(&a)).unwrap()).unwrap();
    assert_eq!((stored.id, stored.title, stored.track_count), (back.id, back.title, back.track_count));
    assert!(parse_album(&parse(&save_album(&None)).unwrap()).is_none());
}

#[test]
fn only_watched_incomplete_albums_are_searched_for() {
    let album = |monitored, artist_monitored, track_count| {
        Some(LidarrAlbum {
            id: 3,
            title: "T".into(),
            artist: "A".into(),
            artist_id: 4,
            monitored,
            artist_monitored,
            track_count,
        })
    };
    assert_eq!(incomplete_monitored(&album(true, true, Some(10)), 9, "T", "A"), Some(3));
    assert_eq!(incomplete_monitored(&album(true, true, Some(10)), 10, "T", "A"), None);
    assert_eq!(incomplete_monitored(&album(false, true, Some(10)), 9, "T", "A"), None);
    assert_eq!(incomplete_monitored(&album(true, false, Some(10)), 9, "T", "A"), None);
    assert_eq!(incomplete_monitored(&album(true, true, None), 9, "T", "A"), None);
    assert_eq!(incomplete_monitored(&album(true, true, Some(10)), 9, " ", "A"), None);
    assert_eq!(incomplete_monitored(&None, 9, "T", "A"), None);
}

#[test]
fn commands_name_what_they_are_about() {
    let c = configured();
    let r = force_search(&c, "http://l", 42);
    assert_eq!(r.url, "http://l/api/v1/command");
    match r.body {
        Body::Text(s) => assert_eq!(s, r#"{"name":"AlbumSearch","albumIds":[42]}"#),
        _ => panic!("a text"),
    }
    match refresh_artist(&c, "http://l", 7).body {
        Body::Text(s) => assert_eq!(s, r#"{"name":"RefreshArtist","artistIds":[7]}"#),
        _ => panic!("a text"),
    }
}

#[test]
fn failures_of_commands_are_told_apart() {
    assert_eq!(command_outcome(&answer(201, "")), Ok(()));
    assert_eq!(command_outcome(&answer(500, "")), Err("Lidarr command returned HTTP 500".into()));
    assert_eq!(command_outcome(&Reply::Silent), Err("no response".into()));
    assert_eq!(command_outcome(&Reply::Failed { cause: "refused".into() }), Err("refused".into()));
}

#[test]
fn only_an_outage_opens_the_circuit() {
    assert_eq!(after_send(&answer(204, "")), CircuitOp::Clear);
    assert_eq!(after_send(&answer(401, "")), CircuitOp::Keep);
    assert_eq!(after_send(&answer(503, "")), CircuitOp::MarkFailed);
    assert_eq!(after_send(&Reply::Silent), CircuitOp::Keep);
    assert_eq!(after_send(&Reply::Failed { cause: "x".into() }), CircuitOp::MarkFailed);
}

#[test]
fn questions_need_address_and_key() {
    assert!(find_album(&Config::default(), "http://l", "T", "A").is_none());
    let r = find_album(&configured(), "http://l", "The Wall", "Pink Floyd").unwrap();
    assert_eq!(r.url, "http://l/api/v1/album/lookup?term=Pink%20Floyd%20The%20Wall");
    assert_eq!(r.headers[0], ("X-Api-Key".to_string(), "k".to_string()));
    assert!(artist_tracked(&configured(), "http://l", "  ").is_none());
    let r = artist_tracked(&configured(), "http://l", " A B ").unwrap();
    assert_eq!(r.url, "http://l/api/v1/artist/search?term=A%20B");
}

#[test]
fn watched_artists_are_recognized() {
    let body = r#"[{"artistName": "Other"}, {"artistName": "pink floyd"}]"#;
    assert!(artist_answer(&answer(200, body), " Pink Floyd "));
    assert!(!artist_answer(&answer(200, body), "Nobody"));
    assert!(!artist_answer(&answer(500, body), "Pink Floyd"));
}
