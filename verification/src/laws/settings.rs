//! What the settings mean, and what holds where they say nothing.

use crate::config;
use crate::config::{AcoustIdMode, Config, LidarrMode, Mode, PrimarySource, SkipContentMode};
use crate::fraction;
use crate::json;
use crate::json::JsonView;
use crate::text;
use vstd::prelude::*;

verus! {

// ---------------------------------------------------------------------------
// Switches, texts and numbers

/// A setting that switches something on.
pub open spec fn on(m: Map<Seq<char>, Seq<char>>, key: Seq<char>) -> bool {
    m.contains_key(key) && {
        let v = text::lowered(text::trimmed(m[key]));
        v == "true"@ || v == "1"@ || v == "yes"@
    }
}

/// A setting that switches something off.
pub open spec fn off(m: Map<Seq<char>, Seq<char>>, key: Seq<char>) -> bool {
    m.contains_key(key) && {
        let v = text::lowered(text::trimmed(m[key]));
        v == "false"@ || v == "0"@ || v == "no"@
    }
}

proof fn words_differ()
    ensures
        "true"@ != "false"@ && "true"@ != "0"@ && "true"@ != "no"@,
        "1"@ != "false"@ && "1"@ != "0"@ && "1"@ != "no"@,
        "yes"@ != "false"@ && "yes"@ != "0"@ && "yes"@ != "no"@,
{
    reveal_strlit("true");
    reveal_strlit("false");
    reveal_strlit("1");
    reveal_strlit("0");
    reveal_strlit("yes");
    reveal_strlit("no");
    assert("1"@[0] == '1' && "0"@[0] == '0');
    assert("true"@.len() == 4 && "false"@.len() == 5 && "yes"@.len() == 3 && "no"@.len() == 2);
}

/// A switch that is on is on and one that is off is off, whatever its default.
proof fn a_switch(m: Map<Seq<char>, Seq<char>>, key: Seq<char>, d: bool)
    ensures
        on(m, key) ==> config::flag_setting(m, key, d),
        off(m, key) ==> !config::flag_setting(m, key, d),
{
    words_differ();
}

/// Each switch of runs, favourites and listens does what its setting says, whatever else is set.
pub proof fn switches_of_runs_are_switched(c: Config, m: Map<Seq<char>, Seq<char>>)
    requires
        c.reads_passes(m),
    ensures
        (on(m, "runOnStartup"@) ==> c.run_on_startup) && (off(m, "runOnStartup"@) ==> !c.run_on_startup),
        (on(m, "runOnlyWhenIdle"@) ==> c.run_only_when_idle) && (off(m, "runOnlyWhenIdle"@) ==> !c.run_only_when_idle),
        (on(m, "favoritesSyncLastfm"@) ==> c.favorites_sync_lastfm) && (off(m, "favoritesSyncLastfm"@) ==> !c.favorites_sync_lastfm),
        (on(m, "favoritesSyncBidirectional"@) ==> c.favorites_sync_bidirectional) && (off(m, "favoritesSyncBidirectional"@) ==> !c.favorites_sync_bidirectional),
        (on(m, "playbackStatsEnabled"@) ==> c.playback_stats_enabled) && (off(m, "playbackStatsEnabled"@) ==> !c.playback_stats_enabled),
        (on(m, "keywordFilterEnabled"@) ==> c.keyword_filter_enabled) && (off(m, "keywordFilterEnabled"@) ==> !c.keyword_filter_enabled),
        (on(m, "starTallyEnabled"@) ==> c.star_tally_enabled) && (off(m, "starTallyEnabled"@) ==> !c.star_tally_enabled),
        (on(m, "ratingSyncWriteToLidarr"@) ==> c.rating_sync_write_to_lidarr) && (off(m, "ratingSyncWriteToLidarr"@) ==> !c.rating_sync_write_to_lidarr),
        (on(m, "ratingSyncPullFromNavidrome"@) ==> c.rating_sync_pull_from_navidrome) && (off(m, "ratingSyncPullFromNavidrome"@) ==> !c.rating_sync_pull_from_navidrome),
        (on(m, "lastfmScrobble"@) ==> c.lastfm_scrobble) && (off(m, "lastfmScrobble"@) ==> !c.lastfm_scrobble),
        (on(m, "listenbrainzScrobble"@) ==> c.listenbrainz_scrobble) && (off(m, "listenbrainzScrobble"@) ==> !c.listenbrainz_scrobble),
        (on(m, "lastfmImportPlaycount"@) ==> c.lastfm_import_playcount) && (off(m, "lastfmImportPlaycount"@) ==> !c.lastfm_import_playcount),
{
    a_switch(m, "runOnStartup"@, false);
    a_switch(m, "runOnlyWhenIdle"@, true);
    a_switch(m, "favoritesSyncLastfm"@, false);
    a_switch(m, "favoritesSyncBidirectional"@, false);
    a_switch(m, "playbackStatsEnabled"@, false);
    a_switch(m, "keywordFilterEnabled"@, true);
    a_switch(m, "starTallyEnabled"@, true);
    a_switch(m, "ratingSyncWriteToLidarr"@, false);
    a_switch(m, "ratingSyncPullFromNavidrome"@, false);
    a_switch(m, "lastfmScrobble"@, false);
    a_switch(m, "listenbrainzScrobble"@, false);
    a_switch(m, "lastfmImportPlaycount"@, false);
}

/// Each switch of folders, files and their names does what its setting says, whatever else is set.
pub proof fn switches_of_names_are_switched(c: Config, m: Map<Seq<char>, Seq<char>>)
    requires
        c.reads_names(m),
    ensures
        (on(m, "nestBucketsUnderVarious"@) ==> c.nest_buckets_under_various) && (off(m, "nestBucketsUnderVarious"@) ==> !c.nest_buckets_under_various),
        (on(m, "classifyFromMB"@) ==> c.classify_from_mb) && (off(m, "classifyFromMB"@) ==> !c.classify_from_mb),
        (on(m, "readNfo"@) ==> c.read_nfo) && (off(m, "readNfo"@) ==> !c.read_nfo),
        (on(m, "writeNfo"@) ==> c.write_nfo) && (off(m, "writeNfo"@) ==> !c.write_nfo),
        (on(m, "renameSidecars"@) ==> c.rename_sidecars) && (off(m, "renameSidecars"@) ==> !c.rename_sidecars),
        (on(m, "pruneEmptyDirs"@) ==> c.prune_empty_dirs) && (off(m, "pruneEmptyDirs"@) ==> !c.prune_empty_dirs),
        (on(m, "cleanupNoAudioFolders"@) ==> c.cleanup_no_audio_folders) && (off(m, "cleanupNoAudioFolders"@) ==> !c.cleanup_no_audio_folders),
        (on(m, "metaGateEnabled"@) ==> c.meta_gate_enabled) && (off(m, "metaGateEnabled"@) ==> !c.meta_gate_enabled),
        (on(m, "parseFilenames"@) ==> c.parse_filenames) && (off(m, "parseFilenames"@) ==> !c.parse_filenames),
        (on(m, "autoTagFromMB"@) ==> c.auto_tag_from_mb) && (off(m, "autoTagFromMB"@) ==> !c.auto_tag_from_mb),
        (on(m, "detectDuplicates"@) ==> c.detect_duplicates) && (off(m, "detectDuplicates"@) ==> !c.detect_duplicates),
        (on(m, "writeReplayGain"@) ==> c.write_replaygain) && (off(m, "writeReplayGain"@) ==> !c.write_replaygain),
        (on(m, "skipHiddenFiles"@) ==> c.skip_hidden_files) && (off(m, "skipHiddenFiles"@) ==> !c.skip_hidden_files),
        (on(m, "preserveRecordingType"@) ==> c.preserve_recording_type) && (off(m, "preserveRecordingType"@) ==> !c.preserve_recording_type),
        (on(m, "singlesUnderArtist"@) ==> c.singles_under_artist) && (off(m, "singlesUnderArtist"@) ==> !c.singles_under_artist),
        (on(m, "singlesEnabled"@) ==> c.singles_enabled) && (off(m, "singlesEnabled"@) ==> !c.singles_enabled),
{
    a_switch(m, "nestBucketsUnderVarious"@, true);
    a_switch(m, "classifyFromMB"@, true);
    a_switch(m, "readNfo"@, true);
    a_switch(m, "writeNfo"@, false);
    a_switch(m, "renameSidecars"@, true);
    a_switch(m, "pruneEmptyDirs"@, true);
    a_switch(m, "cleanupNoAudioFolders"@, false);
    a_switch(m, "metaGateEnabled"@, true);
    a_switch(m, "parseFilenames"@, true);
    a_switch(m, "autoTagFromMB"@, true);
    a_switch(m, "detectDuplicates"@, true);
    a_switch(m, "writeReplayGain"@, true);
    a_switch(m, "skipHiddenFiles"@, true);
    a_switch(m, "preserveRecordingType"@, true);
    a_switch(m, "singlesUnderArtist"@, true);
    a_switch(m, "singlesEnabled"@, true);
}

/// Each switch of safety, identity and tags does what its setting says, whatever else is set.
pub proof fn switches_of_sources_are_switched(c: Config, m: Map<Seq<char>, Seq<char>>)
    requires
        c.reads_sources(m),
    ensures
        (on(m, "backupBeforeWrite"@) ==> c.backup_before_write) && (off(m, "backupBeforeWrite"@) ==> !c.backup_before_write),
        (on(m, "verifyIdentity"@) ==> c.verify_identity) && (off(m, "verifyIdentity"@) ==> !c.verify_identity),
        (on(m, "skipUnverified"@) ==> c.skip_unverified) && (off(m, "skipUnverified"@) ==> !c.skip_unverified),
        (on(m, "overwriteExistingTags"@) ==> c.overwrite_existing_tags) && (off(m, "overwriteExistingTags"@) ==> !c.overwrite_existing_tags),
        (on(m, "writePlaycount"@) ==> c.write_playcount) && (off(m, "writePlaycount"@) ==> !c.write_playcount),
{
    a_switch(m, "backupBeforeWrite"@, true);
    a_switch(m, "verifyIdentity"@, true);
    a_switch(m, "skipUnverified"@, true);
    a_switch(m, "overwriteExistingTags"@, false);
    a_switch(m, "writePlaycount"@, false);
}

/// Each switch of pictures, words and services does what its setting says, whatever else is set.
pub proof fn switches_of_services_are_switched(c: Config, m: Map<Seq<char>, Seq<char>>)
    requires
        c.reads_enriching(m),
    ensures
        (on(m, "embedArtwork"@) ==> c.embed_artwork) && (off(m, "embedArtwork"@) ==> !c.embed_artwork),
        (on(m, "writeCoverJpg"@) ==> c.write_cover_jpg) && (off(m, "writeCoverJpg"@) ==> !c.write_cover_jpg),
        (on(m, "overwriteArt"@) ==> c.overwrite_art) && (off(m, "overwriteArt"@) ==> !c.overwrite_art),
        (on(m, "artworkFront"@) ==> c.artwork_front) && (off(m, "artworkFront"@) ==> !c.artwork_front),
        (on(m, "artworkBack"@) ==> c.artwork_back) && (off(m, "artworkBack"@) ==> !c.artwork_back),
        (on(m, "artworkCd"@) ==> c.artwork_cd) && (off(m, "artworkCd"@) ==> !c.artwork_cd),
        (on(m, "artworkBooklet"@) ==> c.artwork_booklet) && (off(m, "artworkBooklet"@) ==> !c.artwork_booklet),
        (on(m, "downloadLyrics"@) ==> c.download_lyrics) && (off(m, "downloadLyrics"@) ==> !c.download_lyrics),
        (on(m, "writeTagsForTracked"@) ==> c.write_tags_for_tracked) && (off(m, "writeTagsForTracked"@) ==> !c.write_tags_for_tracked),
        (on(m, "lidarrForceSearchIncomplete"@) ==> c.lidarr_force_search_incomplete) && (off(m, "lidarrForceSearchIncomplete"@) ==> !c.lidarr_force_search_incomplete),
        (on(m, "useLidarrNamingSchema"@) ==> c.use_lidarr_naming_schema) && (off(m, "useLidarrNamingSchema"@) ==> !c.use_lidarr_naming_schema),
        (on(m, "notifyAudiomuseAfterRun"@) ==> c.notify_audiomuse_after_run) && (off(m, "notifyAudiomuseAfterRun"@) ==> !c.notify_audiomuse_after_run),
        (on(m, "writeAcousticTags"@) ==> c.write_acoustic_tags) && (off(m, "writeAcousticTags"@) ==> !c.write_acoustic_tags),
        (on(m, "triggerScanAfterRun"@) ==> c.trigger_scan_after_run) && (off(m, "triggerScanAfterRun"@) ==> !c.trigger_scan_after_run),
        (on(m, "scanAfterAlbum"@) ==> c.scan_after_album) && (off(m, "scanAfterAlbum"@) ==> !c.scan_after_album),
        (on(m, "scanAfterTagWrite"@) ==> c.scan_after_tag_write) && (off(m, "scanAfterTagWrite"@) ==> !c.scan_after_tag_write),
{
    a_switch(m, "embedArtwork"@, true);
    a_switch(m, "writeCoverJpg"@, false);
    a_switch(m, "overwriteArt"@, false);
    a_switch(m, "artworkFront"@, true);
    a_switch(m, "artworkBack"@, false);
    a_switch(m, "artworkCd"@, false);
    a_switch(m, "artworkBooklet"@, false);
    a_switch(m, "downloadLyrics"@, false);
    a_switch(m, "writeTagsForTracked"@, false);
    a_switch(m, "lidarrForceSearchIncomplete"@, false);
    a_switch(m, "useLidarrNamingSchema"@, false);
    a_switch(m, "notifyAudiomuseAfterRun"@, true);
    a_switch(m, "writeAcousticTags"@, false);
    a_switch(m, "triggerScanAfterRun"@, true);
    a_switch(m, "scanAfterAlbum"@, true);
    a_switch(m, "scanAfterTagWrite"@, false);
}

/// Each text is what its setting says, as it stands or without the white space around it.
pub proof fn texts_are_taken(c: Config, m: Map<Seq<char>, Seq<char>>)
    requires
        c.reads(m),
    ensures
        m.contains_key("scheduleCron"@) ==> c.schedule_cron@ == m["scheduleCron"@],
        m.contains_key("rollbackRunId"@) ==> c.rollback_run_id@ == m["rollbackRunId"@],
        m.contains_key("logWebhookUrl"@) ==> c.log_webhook_url@ == m["logWebhookUrl"@],
        m.contains_key("logWebhookToken"@) ==> c.log_webhook_token@ == m["logWebhookToken"@],
        m.contains_key("mysqlPassword"@) ==> c.mysql_password@ == m["mysqlPassword"@],
        m.contains_key("soundtrackFolder"@) ==> c.soundtrack_folder@ == m["soundtrackFolder"@],
        m.contains_key("variousFolder"@) ==> c.various_folder@ == m["variousFolder"@],
        m.contains_key("singlesFolder"@) ==> c.singles_folder@ == m["singlesFolder"@],
        m.contains_key("folderSchema"@) ==> c.folder_schema@ == m["folderSchema"@],
        m.contains_key("fileSchema"@) ==> c.file_schema@ == m["fileSchema"@],
        m.contains_key("illegalCharReplacement"@) ==> c.illegal_char_replacement@ == m["illegalCharReplacement"@],
        m.contains_key("navidromeAdminPassword"@) ==> c.navidrome_admin_password@ == m["navidromeAdminPassword"@],
        m.contains_key("fillerKeywords"@) ==> c.filler_keywords@ == m["fillerKeywords"@],
        m.contains_key("acoustidApiKey"@) ==> c.acoustid_api_key@ == m["acoustidApiKey"@],
        m.contains_key("acoustidUrl"@) ==> c.acoustid_url@ == m["acoustidUrl"@],
        m.contains_key("musicbrainzToken"@) ==> c.musicbrainz_token@ == m["musicbrainzToken"@],
        m.contains_key("lastfmApiKey"@) ==> c.lastfm_api_key@ == m["lastfmApiKey"@],
        m.contains_key("lastfmUser"@) ==> c.lastfm_user@ == m["lastfmUser"@],
        m.contains_key("lastfmApiSecret"@) ==> c.lastfm_api_secret@ == m["lastfmApiSecret"@],
        m.contains_key("lastfmPassword"@) ==> c.lastfm_password@ == m["lastfmPassword"@],
        m.contains_key("genreFrom"@) ==> c.genre_from@ == m["genreFrom"@],
        m.contains_key("artworkPriority"@) ==> c.artwork_priority@ == m["artworkPriority"@],
        m.contains_key("lyricsFormat"@) ==> c.lyrics_format@ == m["lyricsFormat"@],
        m.contains_key("lidarrUrl"@) ==> c.lidarr_url@ == m["lidarrUrl"@],
        m.contains_key("lidarrApiKey"@) ==> c.lidarr_api_key@ == m["lidarrApiKey"@],
        m.contains_key("audiomuseUrl"@) ==> c.audiomuse_url@ == m["audiomuseUrl"@],
        m.contains_key("audiomuseToken"@) ==> c.audiomuse_token@ == m["audiomuseToken"@],
        m.contains_key("scanUser"@) ==> c.scan_user@ == m["scanUser"@],
        m.contains_key("filterUrl"@) ==> c.filter_url@ == text::trimmed(m["filterUrl"@]),
        m.contains_key("octoFiestaUrl"@) ==> c.octo_fiesta_url@ == text::trimmed(m["octoFiestaUrl"@]),
        m.contains_key("persistenceBackend"@) ==> c.persistence_backend@ == text::trimmed(m["persistenceBackend"@]),
        m.contains_key("persistenceUrl"@) ==> c.persistence_url@ == text::trimmed(m["persistenceUrl"@]),
        m.contains_key("mysqlHost"@) ==> c.mysql_host@ == text::trimmed(m["mysqlHost"@]),
        m.contains_key("mysqlName"@) ==> c.mysql_name@ == text::trimmed(m["mysqlName"@]),
        m.contains_key("mysqlUser"@) ==> c.mysql_user@ == text::trimmed(m["mysqlUser"@]),
        m.contains_key("navidromeAdminUser"@) ==> c.navidrome_admin_user@ == text::trimmed(m["navidromeAdminUser"@]),
        m.contains_key("essentiaUrl"@) ==> c.essentia_url@ == text::trimmed(m["essentiaUrl"@]),
        m.contains_key("octoFiestaProvider"@) && text::trimmed(m["octoFiestaProvider"@]).len() > 0 ==> c.octo_fiesta_provider@ == text::trimmed(m["octoFiestaProvider"@]),
{
}

/// Each number is what its setting says, where that is a number of its range.
pub proof fn numbers_are_taken(c: Config, m: Map<Seq<char>, Seq<char>>, n: int)
    requires
        c.reads(m),
    ensures
        m.contains_key("maxAlbumsPerRun"@) && text::parsed_int(text::trimmed(m["maxAlbumsPerRun"@]), 0, usize::MAX as int) == Some(n) ==> c.max_albums_per_run == n,
        m.contains_key("maxScanEntries"@) && text::parsed_int(text::trimmed(m["maxScanEntries"@]), 0, usize::MAX as int) == Some(n) ==> c.max_scan_entries == n,
        m.contains_key("albumsPerTask"@) && text::parsed_int(text::trimmed(m["albumsPerTask"@]), 0, usize::MAX as int) == Some(n) ==> c.albums_per_task == n,
        m.contains_key("filesPerScanTask"@) && text::parsed_int(text::trimmed(m["filesPerScanTask"@]), 0, usize::MAX as int) == Some(n) ==> c.files_per_scan_task == n,
        m.contains_key("favoritesSyncMax"@) && text::parsed_int(text::trimmed(m["favoritesSyncMax"@]), 0, usize::MAX as int) == Some(n) ==> c.favorites_sync_max == n,
        m.contains_key("statsPollMinutes"@) && text::parsed_int(text::trimmed(m["statsPollMinutes"@]), i32::MIN as int, i32::MAX as int) == Some(n) ==> c.stats_poll_minutes == n,
        m.contains_key("topPicksCount"@) && text::parsed_int(text::trimmed(m["topPicksCount"@]), 0, usize::MAX as int) == Some(n) ==> c.top_picks_count == n,
        m.contains_key("skipThresholdPercent"@) && text::parsed_int(text::trimmed(m["skipThresholdPercent"@]), i32::MIN as int, i32::MAX as int) == Some(n) ==> c.skip_threshold_percent == n,
        m.contains_key("starHalfPlayPercent"@) && text::parsed_int(text::trimmed(m["starHalfPlayPercent"@]), i32::MIN as int, i32::MAX as int) == Some(n) ==> c.star_half_play_percent == n,
        m.contains_key("starFullPlayPercent"@) && text::parsed_int(text::trimmed(m["starFullPlayPercent"@]), i32::MIN as int, i32::MAX as int) == Some(n) ==> c.star_full_play_percent == n,
        m.contains_key("starIgnorePercent"@) && text::parsed_int(text::trimmed(m["starIgnorePercent"@]), i32::MIN as int, i32::MAX as int) == Some(n) ==> c.star_ignore_percent == n,
        m.contains_key("starMinSamples"@) && text::parsed_int(text::trimmed(m["starMinSamples"@]), i32::MIN as int, i32::MAX as int) == Some(n) ==> c.star_min_samples == n,
        m.contains_key("mysqlPort"@) && text::parsed_int(text::trimmed(m["mysqlPort"@]), 0, 65535) == Some(n) ==> c.mysql_port == n,
        m.contains_key("incompleteAlbumMinTracks"@) && text::parsed_int(text::trimmed(m["incompleteAlbumMinTracks"@]), 0, usize::MAX as int) == Some(n) ==> c.incomplete_album_min_tracks == n,
        m.contains_key("maxNameLength"@) && text::parsed_int(text::trimmed(m["maxNameLength"@]), 0, usize::MAX as int) == Some(n) ==> c.max_name_length == n,
        m.contains_key("backupRetentionDays"@) && text::parsed_int(text::trimmed(m["backupRetentionDays"@]), i32::MIN as int, i32::MAX as int) == Some(n) ==> c.backup_retention_days == n,
        m.contains_key("rollbackRetentionDays"@) && text::parsed_int(text::trimmed(m["rollbackRetentionDays"@]), i32::MIN as int, i32::MAX as int) == Some(n) ==> c.rollback_retention_days == n,
        m.contains_key("scanDebounceSeconds"@) && text::parsed_int(text::trimmed(m["scanDebounceSeconds"@]), i32::MIN as int, i32::MAX as int) == Some(n) ==> c.scan_debounce_seconds == n,
        m.contains_key("skipHeavyRatio"@) && fraction::float_literal(text::trimmed(m["skipHeavyRatio"@])) ==> c.skip_heavy_ratio@ == text::trimmed(m["skipHeavyRatio"@]),
        m.contains_key("minConfidence"@) && fraction::float_literal(text::trimmed(m["minConfidence"@])) ==> c.min_confidence@ == text::trimmed(m["minConfidence"@]),
{
}

/// Where nothing is set, nothing is changed on disk, and all else is as it is documented.
pub proof fn defaults_are_safe(c: Config, m: Map<Seq<char>, Seq<char>>)
    requires
        c.reads(m),
        m.dom().is_empty(),
    ensures
        c.mode == Mode::DryRun,
        c.libraries@.len() == 0,
        c.exclude_paths@.len() == 0,
        c.skip_content_mode == SkipContentMode::LessThanHalf,
        c.acoustid_mode == AcoustIdMode::Fingerprint,
        c.primary_source == PrimarySource::MusicBrainz,
        c.lidarr_mode == LidarrMode::Disabled,
        c.replay_gain_mode@ == "track"@,
        c.trim_missing_days == 0,
        !c.run_on_startup,
        c.run_only_when_idle,
        !c.favorites_sync_lastfm,
        !c.favorites_sync_bidirectional,
        !c.playback_stats_enabled,
        c.keyword_filter_enabled,
        c.star_tally_enabled,
        !c.rating_sync_write_to_lidarr,
        !c.rating_sync_pull_from_navidrome,
        !c.lastfm_scrobble,
        !c.listenbrainz_scrobble,
        !c.lastfm_import_playcount,
        c.nest_buckets_under_various,
        c.classify_from_mb,
        c.read_nfo,
        !c.write_nfo,
        c.rename_sidecars,
        c.prune_empty_dirs,
        !c.cleanup_no_audio_folders,
        c.meta_gate_enabled,
        c.parse_filenames,
        c.auto_tag_from_mb,
        c.detect_duplicates,
        c.write_replaygain,
        c.skip_hidden_files,
        c.preserve_recording_type,
        c.singles_under_artist,
        c.singles_enabled,
        c.backup_before_write,
        c.verify_identity,
        c.skip_unverified,
        !c.overwrite_existing_tags,
        !c.write_playcount,
        c.embed_artwork,
        !c.write_cover_jpg,
        !c.overwrite_art,
        c.artwork_front,
        !c.artwork_back,
        !c.artwork_cd,
        !c.artwork_booklet,
        !c.download_lyrics,
        !c.write_tags_for_tracked,
        !c.lidarr_force_search_incomplete,
        !c.use_lidarr_naming_schema,
        c.notify_audiomuse_after_run,
        !c.write_acoustic_tags,
        c.trigger_scan_after_run,
        c.scan_after_album,
        !c.scan_after_tag_write,
        c.schedule_cron@.len() == 0,
        c.rollback_run_id@.len() == 0,
        c.log_webhook_url@ == "http://nd-organizer-webhook:8099"@,
        c.log_webhook_token@.len() == 0,
        c.mysql_password@.len() == 0,
        c.soundtrack_folder@ == "Sound Tracks"@,
        c.various_folder@ == "Various Artist"@,
        c.singles_folder@ == "Singles"@,
        c.folder_schema@ == "{albumArtist}/{album} ({year})"@,
        c.file_schema@ == "{track:02} - {title}"@,
        c.illegal_char_replacement@ == "_"@,
        c.navidrome_admin_password@.len() == 0,
        c.filler_keywords@ == "intro,outro,interlude,transition,prelude,postlude,christmas,commercial,skit,instrumental,interview,classical,karaoke"@,
        c.acoustid_api_key@.len() == 0,
        c.acoustid_url@ == "http://nd-organizer-acoustid:8097"@,
        c.musicbrainz_token@.len() == 0,
        c.lastfm_api_key@.len() == 0,
        c.lastfm_user@.len() == 0,
        c.lastfm_api_secret@.len() == 0,
        c.lastfm_password@.len() == 0,
        c.genre_from@ == "musicbrainz"@,
        c.artwork_priority@ == "coverartarchive"@,
        c.lyrics_format@ == "lrc"@,
        c.lidarr_url@ == "http://lidarr:8686"@,
        c.lidarr_api_key@.len() == 0,
        c.audiomuse_url@ == "http://audiomuse-ai-flask-app:8000"@,
        c.audiomuse_token@.len() == 0,
        c.scan_user@.len() == 0,
        c.filter_url@ == "http://nd-organizer-proxy:4534"@,
        c.octo_fiesta_url@ == "http://octo-fiesta:8080"@,
        c.persistence_backend@ == "host"@,
        c.persistence_url@ == "http://nd-organizer-mysql:8098"@,
        c.mysql_host@.len() == 0,
        c.mysql_name@.len() == 0,
        c.mysql_user@.len() == 0,
        c.navidrome_admin_user@.len() == 0,
        c.essentia_url@ == "http://nd-organizer-essentia:8080"@,
        c.octo_fiesta_provider@ == "SquidWTF"@,
        c.skip_heavy_ratio@ == "0.6"@,
        c.min_confidence@ == "0.6"@,
        c.loved_threshold_stars@ == "3.0"@,
        c.replay_gain_reference@ == "-18.0"@,
        c.max_albums_per_run == 100,
        c.max_scan_entries == 0,
        c.albums_per_task == 5,
        c.files_per_scan_task == 200,
        c.favorites_sync_max == 500,
        c.stats_poll_minutes == 5,
        c.top_picks_count == 50,
        c.skip_threshold_percent == 30,
        c.star_half_play_percent == 55,
        c.star_full_play_percent == 85,
        c.star_ignore_percent == 5,
        c.star_min_samples == 3,
        c.mysql_port == 3306,
        c.incomplete_album_min_tracks == 3,
        c.max_name_length == 180,
        c.backup_retention_days == 30,
        c.rollback_retention_days == 30,
        c.scan_debounce_seconds == 0,
{
    reveal_strlit("");
    assert forall|k: Seq<char>| !(#[trigger] m.contains_key(k)) by {
        assert(!m.dom().contains(k));
    }
    assert(text::trimmed(Seq::<char>::empty()).len() == 0);
    assert(text::views(c.exclude_paths@).len() == 0);
}

/// Files are moved only where the mode is exactly `apply`.
pub proof fn only_apply_applies(c: Config, m: Map<Seq<char>, Seq<char>>)
    requires
        c.reads(m),
    ensures
        c.mode == Mode::Apply <==> m.contains_key("mode"@) && m["mode"@] == "apply"@,
{
}

/// Modes go by their word, and every other word is the usual mode.
pub proof fn modes_go_by_their_word(c: Config, m: Map<Seq<char>, Seq<char>>)
    requires
        c.reads(m),
    ensures
        c.acoustid_mode == AcoustIdMode::Disabled <==> m.contains_key("acoustidMode"@)
            && m["acoustidMode"@] == "disabled"@,
        c.acoustid_mode == AcoustIdMode::Lookup <==> m.contains_key("acoustidMode"@)
            && m["acoustidMode"@] == "lookup"@,
        c.primary_source == PrimarySource::Lidarr <==> m.contains_key("primarySource"@)
            && m["primarySource"@] == "lidarr"@,
        c.primary_source == PrimarySource::Itunes <==> m.contains_key("primarySource"@)
            && m["primarySource"@] == "itunes"@,
        c.lidarr_mode == LidarrMode::MetadataOnly <==> m.contains_key("lidarrMode"@)
            && m["lidarrMode"@] == "metadataOnly"@,
        c.lidarr_mode == LidarrMode::MetadataPlusRescan <==> m.contains_key("lidarrMode"@)
            && m["lidarrMode"@] == "metadataPlusRescan"@,
        c.replay_gain_mode@ == "album"@ <==> m.contains_key("replayGainMode"@)
            && text::unicode_lowered(text::trimmed(m["replayGainMode"@])) == "album"@,
        c.replay_gain_mode@ == "album"@ || c.replay_gain_mode@ == "track"@,
{
    reveal_strlit("disabled");
    reveal_strlit("lookup");
    reveal_strlit("lidarr");
    reveal_strlit("itunes");
    reveal_strlit("metadataOnly");
    reveal_strlit("metadataPlusRescan");
    reveal_strlit("album");
    reveal_strlit("track");
    assert("lidarr"@[0] == 'l' && "itunes"@[0] == 'i');
    assert("album"@[0] == 'a' && "track"@[0] == 't');
    assert("disabled"@.len() == 8 && "lookup"@.len() == 6);
    assert("metadataOnly"@.len() == 12 && "metadataPlusRescan"@.len() == 18);
}

/// How much filler a queue may hold goes by a word, in any case.
pub proof fn filler_goes_by_its_word(s: Seq<char>)
    ensures
        ({
            let v = text::lowered(text::trimmed(s));
            let mode = config::skip_mode_named(s);
            &&& v == "none"@ || v == "off"@ || v == "disabled"@ || v.len() == 0 ==> mode
                == SkipContentMode::Unlimited
            &&& v == "exclude"@ || v == "excluded"@ || v == "drop"@ ==> mode
                == SkipContentMode::Exclude
            &&& v == "third"@ || v == "1/3"@ ==> mode == SkipContentMode::Third
            &&& v == "half"@ || v == "1/2"@ ==> mode == SkipContentMode::Half
            &&& v == "lessthanhalf"@ ==> mode == SkipContentMode::LessThanHalf
        }),
{
    reveal_strlit("none");
    reveal_strlit("off");
    reveal_strlit("disabled");
    reveal_strlit("");
    reveal_strlit("exclude");
    reveal_strlit("excluded");
    reveal_strlit("drop");
    reveal_strlit("third");
    reveal_strlit("1/3");
    reveal_strlit("half");
    reveal_strlit("1/2");
    reveal_strlit("lessthanhalf");
    let v = text::lowered(text::trimmed(s));
    if v.len() == 0 {
        assert(v =~= ""@);
    }
    assert("none"@[0] == 'n' && "half"@[0] == 'h' && "drop"@[0] == 'd');
    assert("off"@[0] == 'o' && "1/3"@[0] == '1' && "1/3"@[2] == '3' && "1/2"@[2] == '2' && "1/2"@[0]
        == '1');
    assert("disabled"@[0] == 'd' && "excluded"@[0] == 'e');
    assert("none"@.len() == 4 && "off"@.len() == 3 && "disabled"@.len() == 8 && ""@.len() == 0
        && "exclude"@.len() == 7 && "excluded"@.len() == 8 && "drop"@.len() == 4 && "third"@.len()
        == 5 && "1/3"@.len() == 3 && "half"@.len() == 4 && "1/2"@.len() == 3
        && "lessthanhalf"@.len() == 12);
}

// ---------------------------------------------------------------------------
// Lists

/// A list of texts holds each of them without the white space around it, in order, and none that is
/// empty then.
pub proof fn listed_texts_are_trimmed(v: Seq<Seq<char>>)
    ensures
        config::filled_texts(v) == v.map_values(|s: Seq<char>| text::trimmed(s)).filter(
            |s: Seq<char>| s.len() > 0,
        ),
    decreases v.len(),
{
    reveal(Seq::filter);
    let f = |s: Seq<char>| text::trimmed(s);
    let keep = |s: Seq<char>| s.len() > 0;
    if v.len() > 0 {
        listed_texts_are_trimmed(v.drop_last());
        assert(v.map_values(f).drop_last() =~= v.drop_last().map_values(f));
        assert(v.map_values(f).last() == f(v.last()));
    } else {
        assert(config::filled_texts(v) =~= v.map_values(f).filter(keep));
    }
}

/// A list is what a JSON list of texts says, and else what stands between the commas.
pub proof fn lists_are_json_or_commas(t: Seq<char>, words: Seq<Seq<char>>)
    ensures
        config::string_list(
            t,
            Some(JsonView::Array(words.map_values(|s: Seq<char>| JsonView::Str(s)))),
        ) == config::filled_texts(words),
        config::string_list(t, None) == config::filled_texts(
            text::split_by(t, |c: char| c == ','),
        ),
{
    let f = |s: Seq<char>| JsonView::Str(s);
    let items = words.map_values(f);
    assert(config::all_strings(items));
    assert(config::element_texts(items) =~= words);
    reveal_strlit(",");
    assert(","@ =~= seq![',']);
    let p = text::among(","@);
    assert forall|c: char| #[trigger] p(c) == (c == ',') by {
        assert(seq![','][0] == ',');
    }
    assert(p =~= (|c: char| c == ','));
}

/// One more text in a list of libraries is one more library, where it is a positive number.
pub proof fn libraries_are_positive_numbers(v: Seq<Seq<char>>, s: Seq<char>)
    ensures
        ({
            let before = config::text_ids(v);
            let after = config::text_ids(v.push(s));
            match text::parsed_int(text::trimmed(s), i32::MIN as int, i32::MAX as int) {
                Some(n) => if n > 0 {
                    after == before.push(n as i32)
                } else {
                    after == before
                },
                None => after == before,
            }
        }),
        config::text_ids(Seq::empty()).len() == 0,
{
    assert(v.push(s).drop_last() =~= v);
}

/// One more element of a JSON list of libraries is one more library, where it is a positive number
/// or a text that holds one.
pub proof fn library_elements_are_numbers(items: Seq<JsonView>, n: int, s: Seq<char>)
    requires
        0 < n <= i32::MAX,
        text::parsed_int(text::trimmed(s), i64::MIN as int, i64::MAX as int) == Some(n),
    ensures
        config::element_ids(items.push(JsonView::Int(n))) == config::element_ids(items).push(
            n as i32,
        ),
        config::element_ids(items.push(JsonView::Str(s))) == config::element_ids(items).push(
            n as i32,
        ),
        config::element_ids(items.push(JsonView::Int(-n))) == config::element_ids(items),
        config::element_ids(items.push(JsonView::Null)) == config::element_ids(items),
{
    assert(items.push(JsonView::Int(n)).drop_last() =~= items);
    assert(items.push(JsonView::Str(s)).drop_last() =~= items);
    assert(items.push(JsonView::Int(-n)).drop_last() =~= items);
    assert(items.push(JsonView::Null).drop_last() =~= items);
    assert((n as i64) as i32 == n as i32);
}

/// The libraries are those of `libraries`, and of `libraryId` only where that is not set.
pub proof fn libraries_count_before_the_library(c: Config, m: Map<Seq<char>, Seq<char>>)
    requires
        c.reads(m),
    ensures
        m.contains_key("libraries"@) && text::trimmed(m["libraries"@]).len() > 0 ==> c.libraries@
            == config::library_list(
            text::trimmed(m["libraries"@]),
            json::document(text::trimmed(m["libraries"@])),
        ),
        !m.contains_key("libraries"@) && m.contains_key("libraryId"@) && text::trimmed(
            m["libraryId"@],
        ).len() > 0 ==> c.libraries@ == config::library_list(
            text::trimmed(m["libraryId"@]),
            json::document(text::trimmed(m["libraryId"@])),
        ),
        m.contains_key("excludePaths"@) && text::trimmed(m["excludePaths"@]).len() > 0
            ==> text::views(c.exclude_paths@) == config::string_list(
            text::trimmed(m["excludePaths"@]),
            json::document(text::trimmed(m["excludePaths"@])),
        ),
{
}

/// Missing files are trimmed after as many days as are set, and never for a negative number.
pub proof fn days_are_never_negative(c: Config, m: Map<Seq<char>, Seq<char>>, n: int)
    requires
        c.reads(m),
        m.contains_key("trimMissingDays"@),
        text::parsed_int(
            text::trimmed(m["trimMissingDays"@]),
            i64::MIN as int,
            i64::MAX as int,
        ) == Some(n),
    ensures
        n >= 0 ==> c.trim_missing_days == n,
        n < 0 ==> c.trim_missing_days == 0,
{
}

} // verus!
