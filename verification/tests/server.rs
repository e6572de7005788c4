use plex_exporter::plex::library::{find_library, is_library_directory_type, Library};
use plex_exporter::plex::models::{
    Directory, Feature, LibraryItemsMediaContainer, MediaProvider, ProvidersMediaContainer,
    RootMediaContainer, StatisticsBandwidth,
};
use plex_exporter::plex::server::{
    bandwidth_update, libraries_from_providers, library_item_count_from, library_label_values,
    server_info_label_values, set_item_counts, unix_now, unix_secs_from,
};

fn dir(id: &str, title: &str, t: &str) -> Directory {
    Directory {
        identifier: id.to_string(),
        duration_total: 100,
        storage_total: 200,
        title: title.to_string(),
        directory_type: t.to_string(),
    }
}

fn lib(id: &str, name: &str) -> Library {
    Library {
        id: id.to_string(),
        name: name.to_string(),
        library_type: "movie".to_string(),
        duration_total: 1,
        storage_total: 2,
        item_count: 3,
    }
}

fn bw(at: i64, bytes: i64) -> StatisticsBandwidth {
    StatisticsBandwidth { at, bytes }
}

#[test]
fn library_directory_types() {
    assert!(is_library_directory_type(&"movie".to_string()));
    assert!(is_library_directory_type(&"show".to_string()));
    assert!(is_library_directory_type(&"artist".to_string()));
    assert!(!is_library_directory_type(&"photo".to_string()));
    assert!(!is_library_directory_type(&"".to_string()));
}

#[test]
fn libraries_come_from_content_features_of_the_library_provider() {
    let container = ProvidersMediaContainer {
        friendly_name: "srv".to_string(),
        machine_identifier: "id".to_string(),
        media_providers: vec![
            MediaProvider {
                identifier: "com.plexapp.plugins.library".to_string(),
                features: vec![
                    Feature {
                        feature_type: "content".to_string(),
                        directories: vec![dir("1", "Movies", "movie"), dir("2", "Photos", "photo"), dir("3", "TV", "show")],
                    },
                    Feature {
                        feature_type: "search".to_string(),
                        directories: vec![dir("9", "Search", "movie")],
                    },
                ],
            },
            MediaProvider {
                identifier: "tv.plex.provider.music".to_string(),
                features: vec![Feature {
                    feature_type: "content".to_string(),
                    directories: vec![dir("7", "Other", "artist")],
                }],
            },
        ],
    };
    let libs = libraries_from_providers(&container);
    let ids: Vec<&str> = libs.iter().map(|l| l.id.as_str()).collect();
    assert_eq!(ids, vec!["1", "3"]);
    assert_eq!(libs[1].name, "TV");
    assert_eq!(libs[1].library_type, "show");
    assert_eq!(libs[0].duration_total, 100);
    assert_eq!(libs[0].storage_total, 200);
    assert_eq!(libs[0].item_count, 0);
}

#[test]
fn item_count_prefers_total_size() {
    assert_eq!(library_item_count_from(&LibraryItemsMediaContainer { size: 5, total_size: 17 }), 17);
    assert_eq!(library_item_count_from(&LibraryItemsMediaContainer { size: 5, total_size: 0 }), 5);
    assert_eq!(library_item_count_from(&LibraryItemsMediaContainer { size: 5, total_size: -1 }), 5);
}

#[test]
fn find_library_returns_the_first_match() {
    let libs = vec![lib("1", "a"), lib("2", "b"), lib("2", "c")];
    assert_eq!(find_library(&libs, "2").unwrap().name, "b");
    assert!(find_library(&libs, "5").is_none());
    assert!(find_library(&Vec::new(), "1").is_none());
}

#[test]
fn label_values_of_server_info_and_libraries() {
    let root = RootMediaContainer {
        version: "1.40".to_string(),
        platform: "Linux".to_string(),
        platform_version: "6.1".to_string(),
    };
    assert_eq!(
        server_info_label_values("srv", "abc", &root),
        vec!["plex", "srv", "abc", "1.40", "Linux", "6.1"]
    );
    assert_eq!(
        library_label_values("srv", "abc", &lib("4", "Films")),
        vec!["plex", "srv", "abc", "movie", "Films", "4"]
    );
}

#[test]
fn bandwidth_counts_newer_updates_in_time_order() {
    let updates = vec![bw(30, 3), bw(10, 1), bw(20, 2), bw(5, 50), bw(20, 4)];
    let u = bandwidth_update(&updates, 9);
    assert_eq!(u.increments, vec![bw(10, 1), bw(20, 2), bw(20, 4), bw(30, 3)]);
    assert_eq!(u.last_at, 30);
}

#[test]
fn bandwidth_counts_each_update_once() {
    let updates = vec![bw(30, 3), bw(10, 1)];
    let first = bandwidth_update(&updates, 0);
    assert_eq!(first.increments.len(), 2);
    let second = bandwidth_update(&updates, first.last_at);
    assert!(second.increments.is_empty());
    assert_eq!(second.last_at, first.last_at);
}

#[test]
fn bandwidth_last_time_never_goes_back() {
    let u = bandwidth_update(&vec![bw(3, 1)], 100);
    assert!(u.increments.is_empty());
    assert_eq!(u.last_at, 100);
    let u = bandwidth_update(&Vec::new(), 7);
    assert_eq!(u.last_at, 7);
}

#[test]
fn unix_time_conversion() {
    assert_eq!(unix_secs_from(Some(1_700_000_000)), 1_700_000_000);
    assert_eq!(unix_secs_from(None), 0);
    assert_eq!(unix_secs_from(Some(u64::MAX)), -1);
    assert!(unix_now() > 1_600_000_000);
}

#[test]
fn item_counts_replace_only_fetched_ones() {
    let mut libs = vec![lib("1", "a"), lib("2", "b"), lib("3", "c")];
    set_item_counts(&mut libs, &vec![Some(10), None]);
    assert_eq!(libs[0].item_count, 10);
    assert_eq!(libs[1].item_count, 3);
    assert_eq!(libs[2].item_count, 3);
    assert_eq!(libs[0].name, "a");
}

#[test]
fn bandwidth_order_is_stable_within_a_time() {
    let updates = vec![bw(20, 1), bw(10, 2), bw(20, 3), bw(20, 4), bw(10, 5)];
    let u = bandwidth_update(&updates, 0);
    assert_eq!(u.increments, vec![bw(10, 2), bw(10, 5), bw(20, 1), bw(20, 3), bw(20, 4)]);
}
