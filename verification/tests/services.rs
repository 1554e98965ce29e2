use nd_organizer::apple_music::{answered_artist, detect_country, extract_bio_from_html};
use nd_organizer::apple_music::{extract_image_from_html, keeps_id, normalize_text, parse_countries};
use nd_organizer::apple_music::{picture_request, resolve_artist_id, rewrite_image_size, ArtistId};
use nd_organizer::apple_music::{artist_page, fetch_artist_bio, fetch_artist_image, keep_secs};
use nd_organizer::apple_music::kept_text;
use nd_organizer::artwork::{art_report, fetch_with_fallback, fetched, sniff_mime, ArtKind};
use nd_organizer::artwork::{ArtSource, ImageType};
use nd_organizer::audiomuse::{fetch_outcome, parse_acoustic, should_pause, sync_outcome};
use nd_organizer::audiomuse::{write_tags, Acoustic, AcousticTags};
use nd_organizer::config::Config;
use nd_organizer::discogs::{credited, search_release, searched};
use nd_organizer::genius::{answered_words, searched as searched_song};
use nd_organizer::json::parse;
use nd_organizer::lyrics::{fetch as fetch_lyrics, fetch_outcome as lyrics_outcome, write_sidecar, writes_lyrics};
use nd_organizer::lyrics::{lyrics_key, Lyrics};
use nd_organizer::musicbrainz::{lookup, lookup_key, lookup_outcome, pause_ms, release_kind, MbRelease};
use nd_organizer::musicbrainz::{parse_releases, release_group};
use nd_organizer::lidarr::headers_with_key;
use nd_organizer::net::{after_strict, CircuitOp, Reply};
use nd_organizer::theaudiodb::{answered_album, answered_artist as audiodb_artist, fetch_genres};
use nd_organizer::theaudiodb::{search_artist, fetch_album_artwork};
use nd_organizer::trim::{do_trim_missing, purge_missing, purge_outcome};

fn answer(status: i32, body: &str) -> Reply {
    Reply::Answer { status, body: body.into() }
}

// MusicBrainz

const RELEASES: &str = r#"{"releases": [
    {"id": "r1", "title": "Other", "release-group": {"id": "g1", "primary-type": "Album"}},
    {"id": "r2", "title": "THE WALL"},
    {"id": "r3", "title": "The Wall", "date": "1979",
     "release-group": {"id": "g3", "primary-type": "Album", "secondary-types": ["Live"]}}
]}"#;

#[test]
fn the_exact_title_with_a_group_wins() {
    let (r, op) = lookup_outcome(&answer(200, RELEASES), " the wall ");
    let r = r.unwrap();
    assert_eq!(r.release_mbid, "r3");
    assert_eq!(r.release_group_mbid, "g3");
    assert_eq!(r.date, Some("1979".into()));
    assert_eq!(op, CircuitOp::Clear);
    assert_eq!(release_kind(&Some(r)), "Compilation");
    let (r, _) = lookup_outcome(&answer(200, RELEASES), "unknown");
    assert_eq!(r.unwrap().release_mbid, "r1");
}

#[test]
fn unreadable_releases_give_none() {
    let (r, op) = lookup_outcome(&answer(200, r#"{"releases": [{"id": 3, "title": "x"}]}"#), "x");
    assert!(r.is_none());
    assert_eq!(op, CircuitOp::Clear);
    assert!(lookup_outcome(&answer(200, r#"{"releases": []}"#), "x").0.is_none());
    let (r, op) = lookup_outcome(&answer(404, RELEASES), "the wall");
    assert!(r.is_none());
    assert_eq!(op, CircuitOp::Keep);
    assert_eq!(lookup_outcome(&Reply::Silent, "x").1, CircuitOp::MarkFailed);
}

#[test]
fn kinds_of_releases() {
    let kind = |primary: &str, secondary: &[&str]| {
        release_kind(&Some(MbRelease {
            release_mbid: String::new(),
            release_group_mbid: String::new(),
            primary_type: primary.into(),
            secondary_types: secondary.iter().map(|s| s.to_string()).collect(),
            title: String::new(),
            date: None,
        }))
    };
    assert_eq!(kind("Soundtrack", &["Compilation"]), "Soundtrack");
    assert_eq!(kind("Album", &["cOMPILATION"]), "Compilation");
    assert_eq!(kind("Compilation", &[]), "Compilation");
    assert_eq!(kind("EP", &[]), "Single");
    assert_eq!(kind("Single", &[]), "Single");
    assert_eq!(kind("Album", &[]), "");
    assert_eq!(release_kind(&None), "");
}

#[test]
fn the_question_for_a_release() {
    let r = lookup("Pink Floyd", "The Wall", " t ");
    assert_eq!(
        r.url,
        "https://musicbrainz.org/ws/2/release/?query=release:%22The%20Wall%22%20AND%20artist:%22\
         Pink%20Floyd%22&fmt=json&limit=5"
    );
    assert_eq!(r.headers[1], ("Authorization".to_string(), "Bearer t".to_string()));
    assert_eq!(lookup("a", "b", " ").headers.len(), 1);
    assert_eq!(lookup_key("A", "Ä"), Some("mb:a|ä".into()));
    assert_eq!(lookup_key(" ", "b"), None);
    assert_eq!(pause_ms(""), 1200);
    assert_eq!(pause_ms("t"), 30);
}

// Discogs

#[test]
fn the_first_result_of_discogs_is_taken() {
    let body = r#"{"results": [{"id": 8, "title": "P - T", "year": 1979,
        "genre": ["Rock", 3], "style": ["Prog"],
        "community": {"rating": {"average": 4.5, "num_ratings": 12}}}]}"#;
    let r = searched(&answer(200, body)).unwrap();
    assert_eq!(r.id, 8);
    assert_eq!(r.year, Some(1979));
    assert_eq!(r.genres, vec!["Rock"]);
    assert_eq!(r.styles, vec!["Prog"]);
    assert_eq!(r.community_rating, Some("4.5".into()));
    assert_eq!(r.num_ratings, Some(12));
    assert!(searched(&answer(200, r#"{"results": []}"#)).is_none());
    assert!(searched(&answer(500, body)).is_none());
    assert!(search_release("", "a", "b").is_none());
    let q = search_release("t", "a", "b c").unwrap();
    assert_eq!(
        q.url,
        "https://api.discogs.com/database/search?q=a%20b%20c&type=release&per_page=5"
    );
}

#[test]
fn credits_need_name_and_role() {
    let body = r#"{"extraartists": [{"name": "A", "role": "Producer"}, {"name": "B"}]}"#;
    let c = credited(&answer(200, body));
    assert_eq!(c.len(), 1);
    assert_eq!((c[0].name.as_str(), c[0].role.as_str()), ("A", "Producer"));
    assert!(credited(&Reply::Silent).is_empty());
}

// Genius

#[test]
fn songs_and_words_of_genius() {
    let body = r#"{"response": {"hits": [{"result": {"id": 5, "title": "T",
        "primary_artist": {"name": "A"}, "url": "u"}}]}}"#;
    let s = searched_song(&answer(200, body)).unwrap();
    assert_eq!((s.id, s.artist.as_str(), s.lyrics_state.as_str()), (5, "A", "unknown"));
    assert!(s.album.is_none());
    let words = |w: &str| {
        let body = format!(r#"{{"response": {{"song": {{"lyrics": {{"plain": "{w}"}}}}}}}}"#);
        answered_words(&answer(200, &body))
    };
    assert_eq!(words("la la"), Some("la la".into()));
    assert_eq!(words(""), None);
    assert_eq!(words("Lyrics not yet available"), None);
}

// TheAudioDB

#[test]
fn albums_of_theaudiodb() {
    let body = r#"{"album": [{"idAlbum": "9", "strAlbum": "T", "strDescriptionEN": "d",
        "strAlbumThumb": "http://pic", "strGenre": "Rock, , Prog "}]}"#;
    let a = answered_album(&answer(200, body));
    assert_eq!(fetch_genres(&a), Some(vec!["Rock".to_string(), "Prog".to_string()]));
    let (key, q) = fetch_album_artwork(a.as_ref().unwrap()).unwrap();
    assert_eq!((key.as_str(), q.url.as_str()), ("tdb:art:9", "http://pic"));
    assert_eq!(fetch_genres(&None), None);
    assert!(answered_album(&answer(200, r#"{"album": [{"idAlbum": "9"}]}"#)).is_none());
    assert!(audiodb_artist(&answer(200, r#"{"artists": null}"#)).is_none());
    assert!(search_artist("k", false, "n").is_none());
    assert_eq!(
        search_artist("k", true, "a b").unwrap().url,
        "https://theaudiodb.com/api/v1/json/k/search.php?s=a%20b"
    );
}

// Apple Music

#[test]
fn countries_are_trimmed_and_lowered() {
    assert_eq!(parse_countries(" "), vec!["us"]);
    assert_eq!(parse_countries("US, De ,,GB"), vec!["us", "de", "gb"]);
    assert!(parse_countries(",").is_empty());
    assert_eq!(detect_country(&Some("de_DE".into()), &None), "de");
    assert_eq!(detect_country(&None, &Some("pt-BR".into())), "br");
    assert_eq!(detect_country(&None, &None), "us");
}

#[test]
fn pictures_are_asked_for_in_full_size() {
    assert_eq!(
        rewrite_image_size("https://is1-ssl.mzstatic.com/image/a.jpg/100x100bb.jpg", 1500),
        "https://is1-ssl.mzstatic.com/image/a.jpg/1500x1500bb.jpg"
    );
    assert_eq!(rewrite_image_size("https://x.y/z.jpg", 1500), "https://x.y/z.jpg");
    let body = r#"{"results": [{"wrapperType": "artist"},
        {"wrapperType": "collection", "collectionName": "THE WALL",
         "artworkUrl100": "http://p/100x100bb.jpg"}]}"#;
    let q = picture_request(&answer(200, body), " The Wall ").unwrap();
    assert_eq!(q.url, "http://p/1500x1500bb.jpg");
    assert!(picture_request(&answer(200, body), "Animals").is_none());
}

#[test]
fn artists_of_apple_music() {
    let body = r#"{"results": [{"wrapperType": "track"}, {"wrapperType": "artist", "artistId": 77}]}"#;
    assert_eq!(answered_artist(&answer(200, body)), ArtistId::Known(77));
    assert_eq!(answered_artist(&answer(200, "{}")), ArtistId::Unclear);
    assert_eq!(answered_artist(&answer(500, body)), ArtistId::Unanswered);
    assert_eq!(keeps_id(ArtistId::Known(77)), Some((77, 2_592_000)));
    assert_eq!(keeps_id(ArtistId::Unanswered), Some((0, 7200)));
    assert_eq!(keeps_id(ArtistId::Unclear), None);
    let (key, q) = resolve_artist_id(" Pink Floyd ", &vec!["de".into()]).unwrap();
    assert_eq!(key, "am:artist:pink floyd");
    assert!(q.url.ends_with("?term=pink%20floyd&entity=musicArtist&limit=5&country=de"));
}

#[test]
fn pages_of_artists() {
    let page = |ld: &str, og: &str| {
        format!(
            "<script type=\"application/ld+json\">{ld}</script>\
             <meta property=\"og:image\" content=\"{og}\">"
        )
    };
    let html = page(r#"{"image": "http://ld.jpg", "description": "One\r\n two   three "}"#, "http://og.jpg");
    assert_eq!(extract_image_from_html(&html), Some("http://ld.jpg".into()));
    assert_eq!(extract_bio_from_html(&html), Some("One\ntwo three".into()));
    let html = page(r#"{"image": "x/placeholder.png", "description": "Listen to A on Apple Music"}"#, "http://og.jpg");
    assert_eq!(extract_image_from_html(&html), Some("http://og.jpg".into()));
    assert_eq!(extract_bio_from_html(&html), None);
    assert_eq!(extract_image_from_html("<html>"), None);
    assert_eq!(normalize_text(" a \r b\n\n"), "a\nb");
}

// Artwork

#[test]
fn the_chosen_source_comes_first() {
    assert_eq!(
        fetch_with_fallback("theaudiodb", true, true, "k"),
        vec![ArtSource::TheAudioDb, ArtSource::CoverArtArchive, ArtSource::AppleMusic]
    );
    assert_eq!(fetch_with_fallback("applemusic", true, false, ""), vec![ArtSource::CoverArtArchive]);
    assert!(fetch_with_fallback("embedded", true, true, "k").is_empty());
    assert_eq!(
        fetch_with_fallback("", false, true, ""),
        vec![ArtSource::AppleMusic]
    );
}

#[test]
fn pictures_are_told_apart_and_fetched() {
    assert_eq!(sniff_mime(&[0x89, 0x50, 0x4e, 0x47, 1]), ImageType::Png);
    assert_eq!(sniff_mime(&[0xff, 0xd8]), ImageType::Jpeg);
    let (key, q) = nd_organizer::artwork::fetch(" m ", ArtKind::Cd).unwrap();
    assert_eq!(key, "art:m:cd");
    assert_eq!(q.url, "https://coverartarchive.org/release/m/cd");
    assert_eq!(fetched(Some((200, vec![1])), true), (Some(vec![1]), CircuitOp::Clear));
    assert_eq!(fetched(Some((200, vec![])), true), (None, CircuitOp::MarkFailed));
    assert_eq!(fetched(Some((404, vec![])), true), (None, CircuitOp::Keep));
    assert_eq!(fetched(Some((404, vec![])), false), (None, CircuitOp::MarkFailed));
    assert_eq!(art_report(ArtSource::AppleMusic, 0, false), None);
    assert_eq!(
        art_report(ArtSource::AppleMusic, 3, true),
        Some("artwork: applemusic → 3 image(s) + cover.jpg".into())
    );
}

// Lyrics

#[test]
fn lyrics_are_read_and_written() {
    let (l, op) = lyrics_outcome(&answer(200, r#"{"syncedLyrics": "", "plainLyrics": "la"}"#));
    let l = l.unwrap();
    assert_eq!((l.synced.clone(), l.plain.clone()), (None, Some("la".into())));
    assert_eq!(op, CircuitOp::Clear);
    assert!(lyrics_outcome(&answer(200, r#"{"syncedLyrics": ""}"#)).0.is_none());
    assert_eq!(lyrics_outcome(&answer(404, "")).1, CircuitOp::Keep);
    assert_eq!(write_sidecar("A/B/01 - x.flac", &l, "lrc"), Ok(("A/B/01 - x.lrc".into(), "la".into())));
    assert_eq!(write_sidecar(".hidden", &l, "txt"), Ok((".hidden.txt".into(), "la".into())));
    let none = Lyrics { synced: None, plain: None };
    assert_eq!(write_sidecar("a.mp3", &none, "txt"), Err("no lyrics to write".into()));
    assert!(writes_lyrics(false) && !writes_lyrics(true));
    assert_eq!(lyrics_key("A", "B"), Some("lyr:a|b".into()));
    assert_eq!(
        fetch_lyrics("a", "b", "", 3).url,
        "https://lrclib.net/api/get?artist_name=a&track_name=b&duration=3"
    );
    assert_eq!(
        fetch_lyrics("a", "b", "c d", 0).url,
        "https://lrclib.net/api/get?artist_name=a&track_name=b&album_name=c%20d"
    );
}

// AudioMuse-AI

#[test]
fn analyses_are_read() {
    let a = parse_acoustic(&parse(r#"{"bpm": 120.5, "key": "", "mood": "calm", "energy": null}"#)).unwrap();
    assert_eq!(a.bpm, Some("120.5".into()));
    assert_eq!(a.key, None);
    assert_eq!(a.mood, Some("calm".into()));
    assert_eq!(a.energy, None);
    assert!(parse_acoustic(&parse(r#"{"bpm": "fast"}"#)).is_none());
    assert!(parse_acoustic(&parse("[1, 2, 3, 4]")).is_none());
    assert!(parse_acoustic(&parse("7")).is_none());
    assert!(parse_acoustic(&parse(r#"[120.5, "", "calm", null, 1]"#)).is_none());
    let row = parse_acoustic(&parse(r#"[120.5, "", "calm"]"#)).unwrap();
    assert_eq!((row.bpm, row.key, row.mood, row.energy), (Some("120.5".into()), None, Some("calm".into()), None));
    assert!(parse_acoustic(&parse("[]")).unwrap().bpm.is_none());
    assert_eq!(fetch_outcome(&answer(405, "")).1, CircuitOp::Keep);
    assert_eq!(fetch_outcome(&answer(500, "")).1, CircuitOp::MarkFailed);
    assert_eq!(should_pause(true, true, true), (false, CircuitOp::Clear));
    assert_eq!(should_pause(true, true, false), (true, CircuitOp::Keep));
    assert_eq!(should_pause(false, true, false), (false, CircuitOp::Keep));
    assert_eq!(sync_outcome(&answer(409, "")), (Ok(()), CircuitOp::Clear));
    assert_eq!(
        sync_outcome(&answer(500, "")),
        (Err("AudioMuse-AI analysis start HTTP 500".into()), CircuitOp::MarkFailed)
    );
    assert_eq!(sync_outcome(&Reply::Silent).0, Err("AudioMuse-AI analysis start: no response".into()));
    assert_eq!(
        sync_outcome(&Reply::Failed { cause: "x".into() }).0,
        Err("AudioMuse-AI analysis start failed: x".into())
    );
}

#[test]
fn only_missing_tags_are_written() {
    let ac = Acoustic { bpm: Some("120".into()), key: Some("C".into()), mood: None, energy: Some("0.50".into()) };
    let now = AcousticTags { bpm: "90".into(), key: String::new(), mood: String::new(), energy: String::new() };
    let keys = |overwrite| -> Vec<(String, String)> {
        write_tags(&ac, &now, overwrite).into_iter().map(|w| (w.key, w.value)).collect()
    };
    assert_eq!(
        keys(false),
        vec![("INITIALKEY".to_string(), "C".to_string()), ("ENERGY".to_string(), "0.50".to_string())]
    );
    assert_eq!(keys(true).len(), 3);
}

// Missing files

#[test]
fn credentials_are_sent_in_base64() {
    let r = purge_missing("http://nd:4533/", "admin", "secret");
    assert_eq!(r.method, "DELETE");
    assert_eq!(r.url, "http://nd:4533/api/missing");
    assert_eq!(r.headers, vec![("Authorization".to_string(), "Basic YWRtaW46c2VjcmV0".to_string())]);
    assert_eq!(purge_missing("h", "a", "").headers[0].1, "Basic YTo=");
    assert_eq!(purge_missing("h", "a", "bc").headers[0].1, "Basic YTpiYw==");
    assert_eq!(purge_missing("h", "ü", "~?").headers[0].1, "Basic w7w6fj8=");
}

#[test]
fn outcomes_of_purging() {
    assert_eq!(purge_outcome(&answer(200, "17")), Ok(17));
    assert_eq!(purge_outcome(&answer(204, "")), Ok(0));
    assert_eq!(purge_outcome(&answer(200, "-1")), Ok(0));
    assert_eq!(
        purge_outcome(&answer(403, "")),
        Err("navidrome DELETE /api/missing HTTP 403".into())
    );
    assert_eq!(
        purge_outcome(&Reply::Silent),
        Err("navidrome DELETE /api/missing: no response".into())
    );
    assert_eq!(
        purge_outcome(&Reply::Failed { cause: "x".into() }),
        Err("navidrome DELETE /api/missing failed: x".into())
    );
}

#[test]
fn purging_needs_an_account() {
    let mut c = Config::default();
    c.trim_missing_days = 3;
    c.navidrome_admin_password = " p ".into();
    assert_eq!(do_trim_missing(&c, &None, ""), None);
    assert_eq!(
        do_trim_missing(&c, &Some("host".into()), "me"),
        Some(("http://host".into(), "me".into(), "p".into()))
    );
    c.navidrome_admin_user = "root".into();
    assert_eq!(
        do_trim_missing(&c, &None, "me"),
        Some(("http://navidrome:4533".into(), "root".into(), "p".into()))
    );
    c.trim_missing_days = 0;
    assert_eq!(do_trim_missing(&c, &None, "me"), None);
}

#[test]
fn apple_music_pages_and_what_is_kept_of_them() {
    assert_eq!(keep_secs(true, 7), 604_800);
    assert_eq!(keep_secs(false, 7), 7200);
    let page = artist_page(42, &vec!["de".to_string(), "us".to_string()]);
    assert_eq!(page.url, "https://music.apple.com/de/artist/-/42");
    assert_eq!(artist_page(42, &Vec::new()).url, "https://music.apple.com/us/artist/-/42");
    assert_eq!(fetch_artist_image(true, 42).as_deref(), Some("am:img:42"));
    assert_eq!(fetch_artist_image(false, 42), None);
    assert_eq!(fetch_artist_bio(true, 42).as_deref(), Some("am:bio:42"));
    assert_eq!(fetch_artist_bio(false, 42), None);
    assert_eq!(kept_text(Some("words".into())).as_deref(), Some("words"));
    assert_eq!(kept_text(Some(String::new())), None);
    assert_eq!(kept_text(None), None);
}

#[test]
fn every_other_status_than_200_is_a_failure_of_a_strict_service() {
    assert_eq!(after_strict(&answer(200, "")), CircuitOp::Clear);
    assert_eq!(after_strict(&answer(404, "")), CircuitOp::MarkFailed);
    assert_eq!(after_strict(&answer(201, "")), CircuitOp::MarkFailed);
    assert_eq!(after_strict(&Reply::Silent), CircuitOp::MarkFailed);
    assert_eq!(after_strict(&Reply::Failed { cause: "down".into() }), CircuitOp::MarkFailed);
}

#[test]
fn lidarr_is_probed_with_its_key() {
    let cfg = Config { lidarr_api_key: "k".into(), ..Config::default() };
    assert_eq!(headers_with_key(&cfg), vec![("X-Api-Key".to_string(), "k".to_string())]);
}

#[test]
fn releases_may_be_rows() {
    let rows = r#"{"releases": [["r1", "Other"], ["r2", "The Wall", null, ["g", "Album", ["Live"]]]]}"#;
    let found = parse_releases(&parse(rows), "the wall").unwrap();
    assert_eq!(found.release_mbid, "r2");
    assert_eq!(found.release_group_mbid, "g");
    assert_eq!(found.primary_type, "Album");
    assert_eq!(found.secondary_types, vec!["Live".to_string()]);
    let short = parse_releases(&parse(r#"{"releases": [["r", "T", "1999", ["g"]]]}"#), "T").unwrap();
    assert_eq!((short.date, short.primary_type), (Some("1999".into()), String::new()));
    for bad in [r#"["r"]"#, r#"["r", "T", null, null, 1]"#, r#"["r", "T", null, []]"#] {
        assert!(parse_releases(&parse(&format!("{{\"releases\": [{bad}]}}")), "T").is_none(), "{bad}");
    }
}

#[test]
fn a_release_names_its_group() {
    assert_eq!(release_group(&parse(r#"{"release-group": {"id": "g"}}"#)), Some("g".into()));
    assert_eq!(release_group(&parse(r#"{"release-group": {}}"#)), None);
    assert_eq!(release_group(&None), None);
}
