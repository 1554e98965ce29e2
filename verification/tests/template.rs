use nd_organizer::template::{
    render, render_folder_path, sanitize, sanitize_with, translate_lidarr_format, SanitizeOptions,
    TemplateFields,
};

fn fields() -> TemplateFields {
    TemplateFields {
        track: Some(1),
        disc: Some(2),
        title: "Dream On".into(),
        artist: "Aerosmith".into(),
        album_artist: "Various Artists".into(),
        album: "Rock: 70's".into(),
        year: Some(1973),
        genre: "Rock".into(),
        recording: String::new(),
        mbid: "abc-123".into(),
    }
}

fn opts() -> SanitizeOptions {
    SanitizeOptions::default()
}

#[test]
fn pads_numeric_fields() {
    let f = fields();
    assert_eq!(render("{track:02} - {title}", &f), "01 - Dream On");
    assert_eq!(render("{disc:02}-{track:02}", &f), "02-01");
    assert_eq!(render("{year:04}", &f), "1973");
}

#[test]
fn recording_placeholder_renders() {
    let mut f = fields();
    f.recording = "Live".into();
    assert_eq!(render("{title} ({recording})", &f), "Dream On (Live)");
    f.recording = "".into();
    assert_eq!(render("{title} ({recording})", &f), "Dream On ()");
}

#[test]
fn lidarr_format_translation() {
    assert_eq!(
        translate_lidarr_format("{Artist Name}/{Album Title} ({Release Year})"),
        "{albumArtist}/{album} ({year})"
    );
    assert_eq!(
        translate_lidarr_format("{medium:00} - {track:00} - {Track Title}"),
        "{disc:02} - {track:02} - {title}"
    );
    assert_eq!(
        translate_lidarr_format("{Track Title With Artist}"),
        "{artist} - {title}"
    );
    // Unknown tokens survive (they render empty downstream).
    assert_eq!(translate_lidarr_format("{Some Custom Token}"), "{Some Custom Token}");
}

#[test]
fn missing_numeric_renders_empty() {
    let mut f = fields();
    f.track = None;
    assert_eq!(render("{track:02} {title}", &f), " Dream On");
}

#[test]
fn unknown_placeholder_is_dropped() {
    let f = fields();
    assert_eq!(render("a{unknown}b", &f), "ab");
}

#[test]
fn folder_schema_nests_and_sanitizes() {
    let f = fields();
    assert_eq!(
        render_folder_path("{albumArtist}/{album} ({year})", &f, &opts()),
        "Various Artists/Rock_ 70's (1973)"
    );
}

#[test]
fn empty_components_are_dropped() {
    let mut f = fields();
    f.album_artist = "".into();
    f.year = None;
    assert_eq!(render_folder_path("{albumArtist}/{album} ({year})", &f, &opts()), "Rock_ 70's ()");
}

#[test]
fn custom_sanitize_options_apply() {
    let o = SanitizeOptions {
        illegal_char_replacement: '-',
        max_name_length: 10,
    };
    assert_eq!(sanitize_with("a/b:c", &o), "a-b-c");
    let long = "x".repeat(50);
    assert_eq!(sanitize_with(&long, &o).chars().count(), 10);
}

#[test]
fn sanitize_replaces_illegal_and_trims() {
    assert_eq!(sanitize("a/b\\c:d*e?f\"g<h>i|j"), "a_b_c_d_e_f_g_h_i_j");
    assert_eq!(sanitize("trailing.. "), "trailing");
    assert_eq!(sanitize("CON"), "_CON");
    assert_eq!(sanitize("lpt1.txt"), "_lpt1.txt");
}

#[test]
fn long_names_capped() {
    let long = "x".repeat(500);
    let out = sanitize(&long);
    assert!(out.chars().count() <= 180);
}

#[test]
fn literal_text_of_a_schema_stays_as_it_is() {
    assert_eq!(render("Künstler – {artist}", &fields()), "Künstler – Aerosmith");
}
