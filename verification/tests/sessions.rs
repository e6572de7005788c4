use plex_exporter::plex::library::Library;
use plex_exporter::plex::models::{Media, Metadata, NumOrString, Part, TranscodeSession};
use plex_exporter::plex::sessions::{SessionState, Sessions};

const SEC: u64 = 1_000_000_000;

fn library(id: &str, name: &str, library_type: &str) -> Library {
    Library {
        id: id.to_string(),
        name: name.to_string(),
        library_type: library_type.to_string(),
        duration_total: 0,
        storage_total: 0,
        item_count: 0,
    }
}

fn session_meta(bitrate: i64) -> Metadata {
    let mut m = Metadata::empty();
    m.player.device = "TV".to_string();
    m.player.product = "Plex Web".to_string();
    m.user.title = "alice".to_string();
    m.media = vec![Media {
        bitrate,
        video_resolution: "720".to_string(),
        part: vec![Part { decision: "transcode".to_string() }],
    }];
    m
}

fn media_meta(section: &str) -> Metadata {
    let mut m = Metadata::empty();
    m.media_type = "episode".to_string();
    m.title = "Pilot".to_string();
    m.parent_title = "Season 1".to_string();
    m.grandparent_title = "The Show".to_string();
    m.library_section_id = NumOrString(section.to_string());
    m.media = vec![Media { bitrate: 0, video_resolution: "1080".to_string(), part: vec![] }];
    m
}

#[test]
fn state_names_round_trip() {
    for s in [SessionState::Playing, SessionState::Paused, SessionState::Buffering, SessionState::Stopped] {
        assert_eq!(SessionState::from_plex(s.as_str()), s);
    }
    assert_eq!(SessionState::from_plex("playing"), SessionState::Playing);
    assert_eq!(SessionState::from_plex("paused"), SessionState::Paused);
    assert_eq!(SessionState::from_plex("buffering"), SessionState::Buffering);
    assert_eq!(SessionState::from_plex("stopped"), SessionState::Stopped);
    assert_eq!(SessionState::from_plex("something else"), SessionState::Stopped);
    assert_eq!(SessionState::from_plex(""), SessionState::Stopped);
}

#[test]
fn playing_session_reports_labels_and_play_time() {
    let mut s = Sessions::new();
    let libs = vec![library("3", "TV Shows", "show")];
    s.update("42", SessionState::Playing, Some(session_meta(2000)), Some(media_meta("3")), 10 * SEC);
    let samples = s.collect_samples("My Server", "abc", &libs, 25 * SEC);
    assert_eq!(samples.len(), 1);
    let sample = &samples[0];
    let expected: Vec<&str> = vec![
        "plex", "My Server", "abc", "show", "TV Shows", "3", "episode", "The Show", "Season 1",
        "Pilot", "transcode", "720", "1080", "2000", "TV", "Plex Web", "alice", "42",
    ];
    assert_eq!(sample.labels, expected);
    assert_eq!(sample.play_time_ns, 15 * SEC);
    assert_eq!(sample.active_state, Some(SessionState::Playing));
    assert_eq!(sample.transcode, None);
}

#[test]
fn stopping_flattens_play_time_and_transmitted_estimate() {
    let mut s = Sessions::new();
    let libs = vec![library("3", "TV Shows", "show")];
    s.update("1", SessionState::Playing, Some(session_meta(1000)), Some(media_meta("3")), 0);
    // 4 s at 1000 kbit/s while playing.
    assert_eq!(s.extrapolated_transmitted_kbit_ns(4 * SEC), 4 * 1000 * SEC as i128);
    s.update("1", SessionState::Paused, None, None, 4 * SEC);
    // Nothing more is counted while paused.
    assert_eq!(s.extrapolated_transmitted_kbit_ns(100 * SEC), 4 * 1000 * SEC as i128);
    let samples = s.collect_samples("srv", "id", &libs, 100 * SEC);
    assert_eq!(samples[0].play_time_ns, 4 * SEC);
    assert_eq!(samples[0].active_state, Some(SessionState::Paused));
    // Playing again adds a new stretch on top of the first one.
    s.update("1", SessionState::Playing, None, None, 200 * SEC);
    let samples = s.collect_samples("srv", "id", &libs, 203 * SEC);
    assert_eq!(samples[0].play_time_ns, 7 * SEC);
    assert_eq!(s.extrapolated_transmitted_kbit_ns(203 * SEC), 7 * 1000 * SEC as i128);
}

#[test]
fn update_keeps_play_time_at_its_moment() {
    let mut s = Sessions::new();
    let libs = vec![library("3", "TV Shows", "show")];
    s.update("1", SessionState::Playing, Some(session_meta(500)), Some(media_meta("3")), SEC);
    let before = s.collect_samples("srv", "id", &libs, 9 * SEC)[0].play_time_ns;
    s.update("1", SessionState::Stopped, None, None, 9 * SEC);
    let after = s.collect_samples("srv", "id", &libs, 9 * SEC)[0].play_time_ns;
    assert_eq!(before, after);
    assert_eq!(after, 8 * SEC);
}

#[test]
fn sessions_without_library_or_play_are_skipped() {
    let mut s = Sessions::new();
    let libs = vec![library("3", "TV Shows", "show")];
    // Never played.
    s.update("a", SessionState::Paused, Some(session_meta(1)), Some(media_meta("3")), 0);
    // Library not known.
    s.update("b", SessionState::Playing, Some(session_meta(1)), Some(media_meta("9")), 0);
    // Reported.
    s.update("c", SessionState::Buffering, Some(session_meta(1)), Some(media_meta("3")), 0);
    s.update("c", SessionState::Playing, None, None, 0);
    let samples = s.collect_samples("srv", "id", &libs, SEC);
    assert_eq!(samples.len(), 1);
    assert_eq!(samples[0].labels[17], "c");
}

#[test]
fn stopped_sessions_are_not_active_and_show_no_transcode() {
    let mut s = Sessions::new();
    let libs = vec![library("3", "TV Shows", "show")];
    let mut meta = session_meta(100);
    meta.transcode_session = Some(TranscodeSession { throttled: true, speed_bits: 1.5f64.to_bits() });
    s.update("1", SessionState::Playing, Some(meta), Some(media_meta("3")), 0);
    let samples = s.collect_samples("srv", "id", &libs, SEC);
    assert_eq!(
        samples[0].transcode,
        Some(TranscodeSession { throttled: true, speed_bits: 1.5f64.to_bits() })
    );
    s.update("1", SessionState::Stopped, None, None, SEC);
    let samples = s.collect_samples("srv", "id", &libs, 2 * SEC);
    assert_eq!(samples[0].active_state, None);
    assert_eq!(samples[0].transcode, None);
    // Plays are still counted for the stopped session.
    assert_eq!(samples.len(), 1);
}

#[test]
fn prune_forgets_only_stale_stopped_sessions() {
    let mut s = Sessions::new();
    let libs = vec![library("3", "TV Shows", "show")];
    s.update("old", SessionState::Playing, Some(session_meta(1)), Some(media_meta("3")), 0);
    s.update("old", SessionState::Stopped, None, None, SEC);
    s.update("recent", SessionState::Playing, Some(session_meta(1)), Some(media_meta("3")), 0);
    s.update("recent", SessionState::Stopped, None, None, 30 * SEC);
    s.update("paused", SessionState::Playing, Some(session_meta(1)), Some(media_meta("3")), 0);
    s.update("paused", SessionState::Paused, None, None, 0);
    // At 61 s + 1 ns, "old" stopped more than 60 s ago; exactly 60 s does not count.
    s.prune_old_sessions(61 * SEC);
    assert_eq!(s.collect_samples("srv", "id", &libs, 61 * SEC).len(), 3);
    s.prune_old_sessions(61 * SEC + 1);
    let ids: Vec<String> = s
        .collect_samples("srv", "id", &libs, 61 * SEC + 1)
        .iter()
        .map(|x| x.labels[17].clone())
        .collect();
    assert_eq!(ids, vec!["recent".to_string(), "paused".to_string()]);
    // Pruning again at the same moment removes nothing more.
    s.prune_old_sessions(61 * SEC + 1);
    assert_eq!(s.collect_samples("srv", "id", &libs, 61 * SEC + 1).len(), 2);
}

#[test]
fn estimate_is_conserved_by_updates_and_grows_with_time() {
    let mut s = Sessions::new();
    s.update("1", SessionState::Playing, Some(session_meta(300)), None, 0);
    s.update("2", SessionState::Playing, Some(session_meta(700)), None, 2 * SEC);
    let at5 = s.extrapolated_transmitted_kbit_ns(5 * SEC);
    assert_eq!(at5, (5 * 300 + 3 * 700) as i128 * SEC as i128);
    s.update("1", SessionState::Buffering, None, None, 5 * SEC);
    assert_eq!(s.extrapolated_transmitted_kbit_ns(5 * SEC), at5);
    assert!(s.extrapolated_transmitted_kbit_ns(6 * SEC) > at5);
}

#[test]
fn elapsed_time_is_zero_before_the_start() {
    let mut s = Sessions::new();
    let libs = vec![library("3", "TV Shows", "show")];
    s.update("1", SessionState::Playing, Some(session_meta(10)), Some(media_meta("3")), 10 * SEC);
    assert_eq!(s.collect_samples("srv", "id", &libs, 5 * SEC)[0].play_time_ns, 0);
    assert_eq!(s.extrapolated_transmitted_kbit_ns(5 * SEC), 0);
}

#[test]
fn missing_media_gives_empty_stream_labels_and_zero_bitrate() {
    let mut s = Sessions::new();
    let libs = vec![library("3", "Movies", "movie")];
    let mut media = media_meta("3");
    media.media_type = "movie".to_string();
    media.media = vec![];
    s.update("x", SessionState::Playing, Some(Metadata::empty()), Some(media), 0);
    let samples = s.collect_samples("srv", "id", &libs, 0);
    let l = &samples[0].labels;
    assert_eq!(l[7], "Pilot");
    assert_eq!(l[8], "");
    assert_eq!(l[9], "");
    assert_eq!(l[10], "");
    assert_eq!(l[11], "");
    assert_eq!(l[12], "");
    assert_eq!(l[13], "0");
}
