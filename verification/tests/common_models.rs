use plex_exporter::metrics::{
    active_session_labels, library_labels, play_labels, server_info_labels, server_labels,
};
use plex_exporter::plex::models::{JsonScalar, Metadata, NumOrString};
use plex_exporter::text::decimal_string;

#[test]
fn num_or_string_takes_strings_and_numbers() {
    let s = NumOrString::from_json(JsonScalar::Str("12".to_string())).unwrap();
    assert_eq!(s.as_str(), "12");
    let n = NumOrString::from_json(JsonScalar::Number("3".to_string())).unwrap();
    assert_eq!(n.as_str(), "3");
}

#[test]
fn num_or_string_null_is_empty() {
    let v = NumOrString::from_json(JsonScalar::Null).unwrap();
    assert_eq!(v.as_str(), "");
}

#[test]
fn num_or_string_refuses_other_values() {
    let err = NumOrString::from_json(JsonScalar::Other("[1]".to_string())).unwrap_err();
    assert_eq!(err, "unexpected value: [1]");
}

#[test]
fn play_labels_of_an_episode_use_show_season_episode() {
    let mut m = Metadata::empty();
    m.media_type = "episode".to_string();
    m.title = "Pilot".to_string();
    m.parent_title = "Season 1".to_string();
    m.grandparent_title = "The Show".to_string();
    assert_eq!(m.play_labels(), ("The Show", "Season 1", "Pilot"));
}

#[test]
fn play_labels_of_a_movie_use_the_title_alone() {
    let mut m = Metadata::empty();
    m.media_type = "movie".to_string();
    m.title = "Heat".to_string();
    m.parent_title = "ignored".to_string();
    assert_eq!(m.play_labels(), ("Heat", "", ""));
}

#[test]
fn decimal_string_matches_display() {
    for n in [0i64, 7, 10, 42, 1000, -1, -7, -120, i64::MAX, i64::MIN] {
        assert_eq!(decimal_string(n), n.to_string());
    }
}

#[test]
fn label_sets_are_built_from_each_other() {
    assert_eq!(server_labels(), vec!["server_type", "server", "server_id"]);
    assert_eq!(library_labels().len(), 6);
    assert_eq!(&library_labels()[3..], &["library_type", "library", "library_id"]);
    let play = play_labels();
    assert_eq!(play.len(), 18);
    assert_eq!(play[17], "session");
    let active = active_session_labels();
    assert_eq!(active.len(), 19);
    assert_eq!(&active[..18], &play[..]);
    assert_eq!(active[18], "state");
    assert_eq!(
        server_info_labels(),
        vec!["server_type", "server", "server_id", "version", "platform", "platform_version"]
    );
}

#[test]
fn label_names_are_distinct() {
    for labels in [server_labels(), library_labels(), play_labels(), active_session_labels(), server_info_labels()] {
        let mut sorted = labels.clone();
        sorted.sort();
        sorted.dedup();
        assert_eq!(sorted.len(), labels.len());
    }
}
