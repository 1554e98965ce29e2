use nd_organizer::fraction::Fraction;
use nd_organizer::config::{
    parse_library_list, parse_string_list, AcoustIdMode, Config, LidarrMode, Mode, PrimarySource,
    Settings, SkipContentMode,
};

fn map(pairs: &[(&str, &str)]) -> Settings {
    let mut settings = Settings::new();
    for (k, v) in pairs {
        settings.insert(k.to_string(), v.to_string());
    }
    settings
}

fn share(f: Fraction) -> f64 {
    f.num as f64 / f.den as f64
}

fn number(text: &str) -> f64 {
    text.parse().unwrap()
}

#[test]
fn defaults_apply_when_empty() {
    let c = Config::from_map(&Settings::new());
    assert_eq!(c.mode, Mode::DryRun);
    assert_eq!(c.folder_schema, "{albumArtist}/{album} ({year})");
    assert_eq!(c.file_schema, "{track:02} - {title}");
    assert_eq!(c.soundtrack_folder, "Sound Tracks");
    assert_eq!(c.incomplete_album_min_tracks, 3);
    assert!(c.scan_after_album);
    // Star rating defaults
    assert!(c.star_tally_enabled);
    assert_eq!(c.star_half_play_percent, 55);
    assert_eq!(c.star_full_play_percent, 85);
    assert_eq!(c.star_min_samples, 3);
    // Proxy defaults
    assert!(c.keyword_filter_enabled);
    assert_eq!(c.skip_content_mode, SkipContentMode::LessThanHalf);
    assert!((number(&c.skip_heavy_ratio) - 0.6).abs() < f64::EPSILON);
}

#[test]
fn skip_content_mode_parse_and_fractions() {
    assert_eq!(SkipContentMode::parse("none"), SkipContentMode::Unlimited);
    assert_eq!(SkipContentMode::parse("exclude"), SkipContentMode::Exclude);
    assert_eq!(SkipContentMode::parse("third"), SkipContentMode::Third);
    assert_eq!(SkipContentMode::parse("lessThanHalf"), SkipContentMode::LessThanHalf);
    assert_eq!(SkipContentMode::parse("half"), SkipContentMode::Half);
    assert_eq!(SkipContentMode::parse("garbage"), SkipContentMode::LessThanHalf);
    assert_eq!(SkipContentMode::Unlimited.fraction(), None);
    assert_eq!(SkipContentMode::Exclude.fraction().map(share), Some(0.0));
    assert!((SkipContentMode::Third.fraction().map(share).unwrap() - 1.0 / 3.0).abs() < 1e-9);
    assert_eq!(SkipContentMode::LessThanHalf.fraction().map(share), Some(0.4));
    assert_eq!(SkipContentMode::Half.fraction().map(share), Some(0.5));
}

#[test]
fn parses_explicit_values() {
    let c = Config::from_map(&map(&[
        ("mode", "apply"),
        ("libraryId", "2"),
        ("runOnStartup", "true"),
        ("folderSchema", "{albumArtist}/{album}"),
        ("incompleteAlbumMinTracks", "5"),
        ("acoustidMode", "lookup"),
        ("primarySource", "lidarr"),
        ("lidarrMode", "metadataOnly"),
        ("minConfidence", "0.8"),
        ("scanDebounceSeconds", "5"),
        ("nestBucketsUnderVarious", "false"),
        ("readNfo", "true"),
        ("writeNfo", "true"),
        ("artworkBack", "true"),
        ("artworkFront", "false"),
        ("downloadLyrics", "true"),
        ("lyricsFormat", "lrc"),
        ("starTallyEnabled", "false"),
        ("starHalfPlayPercent", "60"),
        ("starFullPlayPercent", "90"),
        ("starMinSamples", "5"),
        ("keywordFilterEnabled", "false"),
        ("skipContentMode", "half"),
        ("skipHeavyRatio", "0.75"),
    ]));
    assert_eq!(c.mode, Mode::Apply);
    assert_eq!(c.libraries, vec![2]);
    assert_eq!(c.libraries, vec![2]);
    assert!(c.run_on_startup);
    assert_eq!(c.folder_schema, "{albumArtist}/{album}");
    assert_eq!(c.incomplete_album_min_tracks, 5);
    assert_eq!(c.acoustid_mode, AcoustIdMode::Lookup);
    assert_eq!(c.primary_source, PrimarySource::Lidarr);
    assert_eq!(c.lidarr_mode, LidarrMode::MetadataOnly);
    assert!((number(&c.min_confidence) - 0.8).abs() < f64::EPSILON);
    assert_eq!(c.scan_debounce_seconds, 5);
    assert!(!c.nest_buckets_under_various);
    assert!(c.read_nfo && c.write_nfo);
    assert!(c.artwork_back && !c.artwork_front);
    assert!(c.download_lyrics);
    assert_eq!(c.lyrics_format, "lrc");
    assert!(!c.star_tally_enabled);
    assert_eq!(c.star_half_play_percent, 60);
    assert_eq!(c.star_full_play_percent, 90);
    assert_eq!(c.star_min_samples, 5);
    assert!(!c.keyword_filter_enabled);
    assert_eq!(c.skip_content_mode, SkipContentMode::Half);
    assert!((number(&c.skip_heavy_ratio) - 0.75).abs() < f64::EPSILON);
    assert!(!c.cleanup_no_audio_folders); // opt-in
}

#[test]
fn parses_cleanup_no_audio_folders() {
    let c = Config::from_map(&map(&[("cleanupNoAudioFolders", "true")]));
    assert!(c.cleanup_no_audio_folders);
    let d = Config::from_map(&Settings::new());
    assert!(!d.cleanup_no_audio_folders);
}

#[test]
fn multi_library_parsing() {
    assert_eq!(parse_library_list("[1,2,3]"), vec![1, 2, 3]);
    assert_eq!(parse_library_list("1, 2, 3"), vec![1, 2, 3]);
    assert_eq!(parse_library_list("7"), vec![7]);
    assert_eq!(parse_library_list(""), Vec::<i32>::new());
    assert_eq!(parse_library_list("garbage"), Vec::<i32>::new());

    // `libraries` wins over `libraryId`.
    let c = Config::from_map(&map(&[("libraries", "[2,5]"), ("libraryId", "9")]));
    assert_eq!(c.libraries, vec![2, 5]);

    // Single `libraryId` fallback.
    let c = Config::from_map(&map(&[("libraryId", "4")]));
    assert_eq!(c.libraries, vec![4]);
}

#[test]
fn parses_extra_user_options() {
    let c = Config::from_map(&map(&[
        ("pruneEmptyDirs", "false"),
        ("skipHiddenFiles", "false"),
        ("illegalCharReplacement", "-"),
        ("maxNameLength", "120"),
        ("lidarrForceSearchIncomplete", "true"),
        ("preserveRecordingType", "false"),
        ("singlesUnderArtist", "false"),
        ("singlesEnabled", "false"),
        ("backupBeforeWrite", "false"),
        ("useLidarrNamingSchema", "true"),
        ("excludePaths", "[\"inbox\", \"Downloads/*\"]"),
    ]));
    assert!(!c.prune_empty_dirs);
    assert!(!c.skip_hidden_files);
    assert_eq!(c.illegal_char_replacement, "-");
    assert_eq!(c.max_name_length, 120);
    assert!(c.lidarr_force_search_incomplete);
    assert!(!c.preserve_recording_type);
    assert!(!c.singles_under_artist);
    assert!(!c.singles_enabled);
    assert!(!c.backup_before_write);
    assert!(c.use_lidarr_naming_schema);
    assert_eq!(c.exclude_paths, vec!["inbox", "Downloads/*"]);
}

#[test]
fn parses_comma_string_list() {
    assert_eq!(parse_string_list("a, b , c"), vec!["a", "b", "c"]);
    assert_eq!(parse_string_list("[\"x\",\"y\"]"), vec!["x", "y"]);
    assert_eq!(parse_string_list(""), Vec::<String>::new());
}

#[test]
fn parses_filler_and_playback_stats() {
    let c = Config::from_map(&map(&[
        ("fillerKeywords", "intro,outro,cold open"),
        ("playbackStatsEnabled", "true"),
        ("statsPollMinutes", "10"),
        ("skipThresholdPercent", "25"),
        ("topPicksCount", "80"),
    ]));
    assert_eq!(c.filler_keywords, "intro,outro,cold open");
    assert!(c.playback_stats_enabled);
    assert_eq!(c.stats_poll_minutes, 10);
    assert_eq!(c.skip_threshold_percent, 25);
    assert_eq!(c.top_picks_count, 80);
    // Defaults are opt-in (off).
    let d = Config::from_map(&Settings::new());
    assert!(!d.playback_stats_enabled);
    assert_eq!(d.skip_threshold_percent, 30);
}

#[test]
fn parses_octo_fiesta_fields() {
    let c = Config::from_map(&map(&[
        ("octoFiestaUrl", "http://octo-fiesta:8080"),
        ("octoFiestaProvider", "Deezer"),
    ]));
    assert_eq!(c.octo_fiesta_url, "http://octo-fiesta:8080");
    assert_eq!(c.octo_fiesta_provider, "Deezer");
    let d = Config::from_map(&Settings::new());
    assert_eq!(d.octo_fiesta_url, "http://octo-fiesta:8080");
    assert_eq!(d.octo_fiesta_provider, "SquidWTF");
}

#[test]
fn parses_persistence_mysql_fields() {
    let c = Config::from_map(&map(&[
        ("persistenceBackend", "mysql"),
        ("persistenceUrl", "http://nd-organizer-mysql:8098"),
        ("mysqlHost", "db.internal"),
        ("mysqlPort", "3307"),
        ("mysqlName", "navidrome_plugins"),
        ("mysqlUser", "plugin"),
        ("mysqlPassword", "s3cret"),
    ]));
    assert_eq!(c.persistence_backend, "mysql");
    assert_eq!(c.persistence_url, "http://nd-organizer-mysql:8098");
    assert_eq!(c.mysql_host, "db.internal");
    assert_eq!(c.mysql_port, 3307);
    assert_eq!(c.mysql_name, "navidrome_plugins");
    assert_eq!(c.mysql_user, "plugin");
    assert_eq!(c.mysql_password, "s3cret");
    // Default backend is the Navidrome host KVStore.
    let d = Config::from_map(&Settings::new());
    assert_eq!(d.persistence_backend, "host");
    assert_eq!(d.mysql_port, 3306);
    assert_eq!(d.rollback_retention_days, 30);
}

#[test]
fn the_essentia_address_needs_no_other_setting() {
    let c = Config::from_map(&map(&[("essentiaUrl", " http://e:1 ")]));
    assert_eq!(c.essentia_url, "http://e:1");
    let d = Config::from_map(&map(&[("audiomuseUrl", "http://m")]));
    assert_eq!(d.essentia_url, "http://nd-organizer-essentia:8080");
}

#[test]
fn numbers_out_of_range_leave_the_default_however_they_are_written() {
    let stars = |v: &str| Config::from_map(&map(&[("lovedThresholdStars", v)])).loved_threshold_stars;
    for kept in ["1", "5.000", "2e0", "25e-1", "0.0004E+4", "+4.5", "1.00000000000000000000001", "50e-1"] {
        assert_eq!(stars(kept), kept);
    }
    for bad in ["9e0", "5.1", "0.999999999999999999999", "inf", "nan", "-3", "5e1", "1e999999999999999999999999", "1e-9", "0e5", "e1", ""] {
        assert_eq!(stars(bad), "3.0", "{bad}");
    }
    let gain = |v: &str| Config::from_map(&map(&[("replayGainReference", v)])).replay_gain_reference;
    for kept in ["-40", "-4e1", "0", "-0.5", "-18.25", "0e9"] {
        assert_eq!(gain(kept), kept);
    }
    for bad in ["-40.0000000000000001", "0.1", "-4e2", "-inf", "1e-5"] {
        assert_eq!(gain(bad), "-18.0", "{bad}");
    }
}
