use plex_exporter::plex::client::{client_config, request_url, status_outcome, ClientConfigError, StatusOutcome};

#[test]
fn client_config_keeps_url_and_token() {
    let c = client_config("http://192.168.0.10:32400", "secret").unwrap();
    assert_eq!(c.token, "secret");
    assert_eq!(c.base_url.as_str(), "http://192.168.0.10:32400/");
    assert_eq!(c.base_url.join("/status/sessions").unwrap().as_str(), "http://192.168.0.10:32400/status/sessions");
}

#[test]
fn client_config_refuses_a_relative_url() {
    match client_config("192.168.0.10:32400/x", "t") {
        Err(ClientConfigError::Url(_)) => {}
        other => panic!("unexpected: {other:?}"),
    }
    assert!(client_config("", "t").is_err());
    assert!(client_config("not a url", "t").is_err());
}

#[test]
fn status_outcomes() {
    assert_eq!(status_outcome(200), StatusOutcome::Success);
    assert_eq!(status_outcome(304), StatusOutcome::Success);
    assert_eq!(status_outcome(404), StatusOutcome::NotFound);
    assert_eq!(status_outcome(400), StatusOutcome::Failure);
    assert_eq!(status_outcome(401), StatusOutcome::Failure);
    assert_eq!(status_outcome(500), StatusOutcome::Failure);
    assert_eq!(status_outcome(599), StatusOutcome::Failure);
    assert_eq!(status_outcome(600), StatusOutcome::Success);
    assert_eq!(status_outcome(399), StatusOutcome::Success);
}

#[test]
fn client_config_carries_the_parser_result() {
    let c = client_config("http://plex.local:32400/base/", "t").unwrap();
    assert_eq!(c.base_url, url::Url::parse("http://plex.local:32400/base/").unwrap());
    match client_config("192.168.0.10", "t") {
        Err(ClientConfigError::Url(e)) => assert_eq!(e, url::Url::parse("192.168.0.10").unwrap_err()),
        Ok(_) => panic!("a URL without a scheme was accepted"),
    }
    match client_config("http://[::1", "t") {
        Err(ClientConfigError::Url(e)) => assert_eq!(e, url::ParseError::InvalidIpv6Address),
        Ok(_) => panic!("an unclosed IPv6 host was accepted"),
    }
}

#[test]
fn request_url_resolves_paths_against_the_server() {
    let base = url::Url::parse("http://plex.local:32400/").unwrap();
    assert_eq!(
        request_url(&base, "/media/providers?includeStorage=1").unwrap().as_str(),
        "http://plex.local:32400/media/providers?includeStorage=1"
    );
    assert_eq!(
        request_url(&base, "/library/sections/3/all").unwrap(),
        base.join("/library/sections/3/all").unwrap()
    );
}
