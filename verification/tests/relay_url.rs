use moq_clock::publisher::relay_target;
use moq_clock::relay::{normalize_relay_root, relay_root_path, resolve_relay, RelayError, RelayUrl};
use moq_clock::subscriber::url_or_default;

fn root(raw: &str) -> String {
    normalize_relay_root(RelayUrl::parse(raw).unwrap())
}

#[test]
fn clock_segment_is_cut_off_the_path() {
    assert_eq!(relay_root_path("/anon/clock").as_deref(), Some("/anon"));
    assert_eq!(relay_root_path("/anon/clock///").as_deref(), Some("/anon"));
    assert_eq!(relay_root_path("/a//clock").as_deref(), Some("/a/"));
    assert_eq!(relay_root_path("/clock/clock").as_deref(), Some("/clock"));
    assert_eq!(relay_root_path("/clock").as_deref(), Some("/"));
    assert_eq!(relay_root_path("//clock").as_deref(), Some("/"));
    assert_eq!(relay_root_path("/caf\u{e9}/clock/").as_deref(), Some("/caf\u{e9}"));
}

#[test]
fn other_paths_stay() {
    for path in ["", "/", "///", "/anon", "/anon/", "clock", "clock/", "/clocks", "/aclock"] {
        assert_eq!(relay_root_path(path), None);
    }
    for path in ["/Clock", "/clock/time", "/anon/o'clock", "/anon/cloc"] {
        assert_eq!(relay_root_path(path), None);
    }
}

#[test]
fn clock_url_and_relay_url_lead_to_the_same_relay() {
    assert_eq!(root("http://localhost:4443/anon/clock"), "http://localhost:4443/anon");
    assert_eq!(root("http://localhost:4443/anon"), "http://localhost:4443/anon");
    assert_eq!(root("https://relay.moq.dev/anon/clock/"), "https://relay.moq.dev/anon");
}

#[test]
fn url_without_clock_is_kept_with_its_slashes() {
    assert_eq!(root("https://relay.moq.dev/anon/"), "https://relay.moq.dev/anon/");
    assert_eq!(root("https://relay.moq.dev"), "https://relay.moq.dev/");
    assert_eq!(root("foo:clock"), "foo:clock");
    assert_eq!(root("http://clock"), "http://clock/");
    assert_eq!(root("http://clock/?clock#/clock"), "http://clock/?clock#/clock");
}

#[test]
fn only_the_path_is_cut() {
    assert_eq!(
        root("https://u:p@relay.moq.dev:99/a%20b/clock?jwt=x/clock#clock"),
        "https://u:p@relay.moq.dev:99/a%20b?jwt=x/clock#clock"
    );
    assert_eq!(root("https://relay.moq.dev/clock?q"), "https://relay.moq.dev/?q");
    assert_eq!(root("http://clock/clock"), "http://clock/");
    assert_eq!(root("http://h/anon/clock/?q#f"), "http://h/anon?q#f");
    assert_eq!(root("moqt://relay.moq.dev/a/clock"), "moqt://relay.moq.dev/a");
    assert_eq!(root("moqt://relay.moq.dev/clock"), "moqt://relay.moq.dev/");
    assert_eq!(root("https://relay.moq.dev//clock"), "https://relay.moq.dev/");
    assert_eq!(root("foo:a/b/clock"), "foo:a/b");
    assert_eq!(root("foo:/clock"), "foo:/");
    assert_eq!(root("web+demo:/.//clock"), "web+demo:/./");
}

#[test]
fn file_urls_are_cut_like_others() {
    assert_eq!(root("file:///a/clock?q#f"), "file:///a?q#f");
    assert_eq!(root("file:///clock"), "file:///");
    assert_eq!(root("file://host/clock"), "file://host/");
    assert_eq!(root("file:///C:/clock"), "file:///C:");
    assert_eq!(root("file:////C|/a"), "file:///C|/a");
}

#[test]
fn drive_letters_are_rewritten_in_file_urls_alone() {
    assert_eq!(root("file:///C|/clock"), "file:///C:");
    assert_eq!(root("file:////C|/clock"), "file:///C:");
    assert_eq!(root("file:///c|/a/clock?q#f"), "file:///c:/a?q#f");
    assert_eq!(root("file:///C|x/clock"), "file:///C|x");
    assert_eq!(root("file:///a/C|/clock"), "file:///a/C|");
    assert_eq!(root("http://h/C|/clock"), "http://h/C|");
}

#[test]
fn dot_segment_behind_a_drive_letter_is_left_out() {
    assert_eq!(root("file:/C:\t../clock"), "file:///C:/");
    assert_eq!(root("file:/C:\t../a/clock"), "file:///C:/a");
    assert_eq!(root("file:/C:\t%2E/a/clock#f"), "file:///C:/a#f");
    assert_eq!(root("file://host/C:\t.%2e/a/clock"), "file://host/C:/a");
    assert_eq!(root("file:/C:\t.../a/clock"), "file:///C:/.../a");
    assert_eq!(root("file:/C:\t../a"), "file:///C:/../a");
}

#[test]
fn clock_url_below_a_path_that_ends_in_clock_loses_one_segment() {
    assert_eq!(root("http://h/clock/clock"), "http://h/clock");
    assert_eq!(root("http://h/a/clock/clock//?q"), "http://h/a/clock?q");
}

#[test]
fn url_is_written_in_its_normal_form() {
    assert_eq!(root("HTTP://LocalHost:80/x/../anon/./clock"), "http://localhost/anon");
    assert_eq!(root(" https://relay.moq.dev\\anon\\clock "), "https://relay.moq.dev/anon");
    assert_eq!(root("https://relay.moq.dev/caf\u{e9}/clock"), "https://relay.moq.dev/caf%C3%A9");
}

#[test]
fn invalid_url_is_rejected_with_its_cause() {
    assert_eq!(RelayUrl::parse("relay").unwrap_err(), "relative URL without a base");
    match resolve_relay("https://relay:99999/") {
        Err(RelayError::InvalidUrl(cause)) => assert_eq!(cause, "invalid port number"),
        other => panic!("{other:?}"),
    }
    match resolve_relay("") {
        Err(error) => assert_eq!(error.message(), "invalid relay URL"),
        Ok(root) => panic!("{root}"),
    }
}

#[test]
fn publisher_needs_a_url() {
    let error = relay_target(None).unwrap_err();
    assert!(matches!(error, RelayError::MissingUrl));
    assert_eq!(
        error.message(),
        "missing relay URL: pass --url <relay-url> (example: --url http://localhost:4443/anon)"
    );
}

#[test]
fn both_ends_connect_to_the_same_relay() {
    let raw = "http://localhost:4443/anon/clock".to_string();
    let publisher = relay_target(Some(raw.clone())).unwrap();
    let subscriber = resolve_relay(&url_or_default(Some(raw))).unwrap();
    assert_eq!(publisher, "http://localhost:4443/anon");
    assert_eq!(publisher, subscriber);
    let default = resolve_relay(&url_or_default(None)).unwrap();
    assert_eq!(default, "https://relay.moq.dev/anon");
}
