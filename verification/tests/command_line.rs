use moq_clock::args::{find_relay_url, scan_arg, Expecting, Scan};
use moq_clock::publisher;
use moq_clock::subscriber;

fn line(args: &[&str]) -> Vec<String> {
    args.iter().map(|arg| arg.to_string()).collect()
}

fn publisher_url(args: &[&str]) -> Option<String> {
    publisher::read_relay_url_arg(&line(args))
}

fn subscriber_url(args: &[&str]) -> String {
    subscriber::read_relay_url_arg(&line(args))
}

#[test]
fn value_of_the_url_option_is_found() {
    let args = ["moq-clock-pub", "--url", "https://relay.moq.dev/anon"];
    assert_eq!(publisher_url(&args).as_deref(), Some("https://relay.moq.dev/anon"));
    assert_eq!(subscriber_url(&args), "https://relay.moq.dev/anon");
}

#[test]
fn value_of_the_url_option_may_look_like_an_option() {
    let args = ["p", "--url", "--verbose", "http://a"];
    assert_eq!(publisher_url(&args).as_deref(), Some("--verbose"));
}

#[test]
fn positional_url_is_found() {
    let args = ["p", "http://localhost:4443/anon"];
    assert_eq!(publisher_url(&args).as_deref(), Some("http://localhost:4443/anon"));
    assert_eq!(subscriber_url(&args), "http://localhost:4443/anon");
}

#[test]
fn other_options_are_passed_over() {
    let args = ["p", "-v", "--quiet", "-", "http://a", "http://b"];
    assert_eq!(publisher_url(&args).as_deref(), Some("http://a"));
    let args = ["p", "--verbose", "--url", "http://a", "http://b"];
    assert_eq!(publisher_url(&args).as_deref(), Some("http://a"));
    let args = ["p", "--url=http://a", "http://b"];
    assert_eq!(publisher_url(&args).as_deref(), Some("http://b"));
}

#[test]
fn positional_url_goes_before_a_later_option() {
    let args = ["p", "http://a", "--url", "http://b"];
    assert_eq!(publisher_url(&args).as_deref(), Some("http://a"));
}

#[test]
fn empty_argument_is_no_option() {
    assert_eq!(publisher_url(&["p", "", "http://a"]).as_deref(), Some(""));
}

#[test]
fn program_name_is_never_the_url() {
    assert_eq!(publisher_url(&["http://a"]), None);
    assert_eq!(publisher_url(&["--url", "http://a"]).as_deref(), Some("http://a"));
}

#[test]
fn missing_url_is_none_or_the_default() {
    let lines: [&[&str]; 4] = [&[], &["p"], &["p", "-v"], &["p", "-v", "--url"]];
    for args in lines {
        assert_eq!(publisher_url(args), None);
        assert_eq!(subscriber_url(args), "https://relay.moq.dev/anon");
    }
}

#[test]
fn scanning_stops_at_the_url() {
    let first = scan_arg(Expecting::Program, "p".to_string());
    assert!(matches!(first, Scan::Continue(Expecting::Argument)));
    let second = scan_arg(Expecting::Argument, "-x".to_string());
    assert!(matches!(second, Scan::Continue(Expecting::Argument)));
    let third = scan_arg(Expecting::Argument, "--url".to_string());
    assert!(matches!(third, Scan::Continue(Expecting::Url)));
    match scan_arg(Expecting::Url, "-y".to_string()) {
        Scan::Found(url) => assert_eq!(url, "-y"),
        Scan::Continue(_) => panic!("the value of --url is the URL"),
    }
}

#[test]
fn both_ends_find_the_same_url() {
    let args = line(&["p", "-v", "--url", "http://a/clock"]);
    assert_eq!(find_relay_url(&args), publisher::read_relay_url_arg(&args));
    assert_eq!(find_relay_url(&args), Some(subscriber::read_relay_url_arg(&args)));
}
