use nd_organizer::nfo::{parse_album_nfo, parse_artist_nfo, serialize_album, NfoAlbum, NfoCredit};

#[test]
fn parses_album_nfo() {
    let xml = r#"<?xml version="1.0" encoding="utf-8"?>
<album>
  <title>Dark Side of the Moon</title>
  <artist>Pink Floyd</artist>
  <albumartist>Pink Floyd</albumartist>
  <year>1973-03-01</year>
  <genre>Rock</genre>
  <genre>Progressive</genre>
  <styles>Progressive Rock</styles>
  <moods>Brooding</moods>
  <mbid>e1a4f3b4-4f2a-4d5a-8c1a-2a3b4c5d6e7f</mbid>
</album>"#;
    let nfo = parse_album_nfo(xml).unwrap();
    assert_eq!(nfo.title, "Dark Side of the Moon");
    assert_eq!(nfo.artists, vec!["Pink Floyd"]);
    assert_eq!(nfo.album_artists, vec!["Pink Floyd"]);
    assert_eq!(nfo.year, Some(1973));
    assert_eq!(nfo.genres, vec!["Rock", "Progressive"]);
    assert_eq!(nfo.styles, vec!["Progressive Rock"]);
    assert_eq!(nfo.moods, vec!["Brooding"]);
    assert!(!nfo.mbid.is_empty());
}

#[test]
fn parses_artist_nfo() {
    let xml = r#"<artist>
  <name>Pink Floyd</name>
  <genre>Rock</genre>
  <styles>Psychedelic</styles>
  <moods>Melancholy</moods>
  <mbid>83d91898-7763-47d7-b03b-b92132375c47</mbid>
  <biography>English rock band.</biography>
</artist>"#;
    let artist = parse_artist_nfo(xml).unwrap();
    assert_eq!(artist.name, "Pink Floyd");
    assert_eq!(artist.biography, "English rock band.");
    assert_eq!(artist.moods, vec!["Melancholy"]);
}

#[test]
fn rejects_empty_files() {
    assert!(parse_album_nfo("<album></album>").is_none());
    assert!(parse_artist_nfo("<artist><name></name></artist>").is_none());
}

#[test]
fn round_trips_serialize() {
    let nfo = NfoAlbum {
        title: "A & B <C>".into(),
        artists: vec!["Artist \"X\"".into()],
        year: Some(1999),
        ..Default::default()
    };
    let xml = serialize_album(&nfo);
    let reparsed = parse_album_nfo(&xml).unwrap();
    assert_eq!(reparsed.title, "A & B <C>");
    assert_eq!(reparsed.artists, vec!["Artist \"X\""]);
    assert_eq!(reparsed.year, Some(1999));
}

#[test]
fn credits_keep_their_entities() {
    let nfo = NfoAlbum {
        title: "T".into(),
        credits: vec![NfoCredit { name: "Simon & \"Art\" <G>".into(), role: "Words & Music".into() }],
        ..NfoAlbum::default()
    };
    let back = parse_album_nfo(&serialize_album(&nfo)).unwrap();
    assert_eq!(back.credits.len(), 1);
    assert_eq!(back.credits[0].name, "Simon &amp; &quot;Art&quot; &lt;G&gt;");
    assert_eq!(back.credits[0].role, "Words &amp; Music");
}

#[test]
fn the_tempo_has_one_place() {
    let cases = [
        ("120", "120.0"),
        ("120.0", "120.0"),
        ("120.37", "120.4"),
        ("120.25", "120.2"),
        ("120.75", "120.8"),
        ("99.96", "100.0"),
        ("+.5", "0.5"),
        ("-0.04", "-0.0"),
    ];
    for (held, written) in cases {
        let nfo = NfoAlbum { title: "T".into(), bpm: Some(held.into()), ..NfoAlbum::default() };
        let xml = serialize_album(&nfo);
        assert!(xml.contains(&format!("  <bpm>{written}</bpm>\n")), "{held}: {xml}");
    }
}
