use firebase_rs::errors::parser_message;
use firebase_rs::firebase::authorize;
use firebase_rs::utils::check_scheme;
use firebase_rs::{check_uri, Firebase, UrlParseError};

const URI: &str = "https://firebase_id.firebaseio.com";
const URI_WITH_SLASH: &str = "https://firebase_id.firebaseio.com/";
const URI_NON_HTTPS: &str = "http://firebase_id.firebaseio.com/";

#[test]
fn simple() {
    let firebase = Firebase::new(URI).unwrap();
    assert_eq!(URI_WITH_SLASH.to_string(), firebase.base_uri());
}

#[test]
fn non_https() {
    let firebase = Firebase::new(URI_NON_HTTPS).map_err(|e| e.message());
    assert_eq!(
        firebase.err(),
        Some(String::from(UrlParseError::NotHttps.message()))
    );
}

#[test]
fn with_auth() {
    let firebase = Firebase::auth(URI, "auth_key").unwrap();
    assert_eq!(
        format!("{}/?auth=auth_key", URI.to_string()),
        firebase.base_uri()
    );
}

#[test]
fn trailing_slashes_give_the_same_location() {
    let plain = Firebase::new("https://example.firebaseio.com/v0").unwrap();
    let one = Firebase::new("https://example.firebaseio.com/v0/").unwrap();
    let two = Firebase::new("https://example.firebaseio.com/v0//").unwrap();
    assert_eq!(plain.base_uri(), "https://example.firebaseio.com/v0");
    assert_eq!(one.base_uri(), plain.base_uri());
    assert_eq!(two.base_uri(), plain.base_uri());
}

#[test]
fn trailing_slashes_of_a_bare_host_give_the_same_location() {
    let plain = Firebase::new(URI).unwrap();
    let one = Firebase::new("https://firebase_id.firebaseio.com/").unwrap();
    let two = Firebase::new("https://firebase_id.firebaseio.com//").unwrap();
    assert_eq!(one.base_uri(), plain.base_uri());
    assert_eq!(two.base_uri(), plain.base_uri());
}

#[test]
fn http_with_a_path_is_not_https() {
    let refused = Firebase::new("http://host/path");
    assert!(matches!(refused, Err(UrlParseError::NotHttps)));
}

#[test]
fn https_with_a_path_is_accepted() {
    let firebase = Firebase::new("https://host/path").unwrap();
    assert_eq!(firebase.base_uri(), "https://host/path");
}

#[test]
fn the_scheme_is_compared_after_parsing() {
    let firebase = Firebase::new("HTTPS://Host/path").unwrap();
    assert_eq!(firebase.base_uri(), "https://host/path");
}

#[test]
fn a_relative_address_is_a_parser_error() {
    let refused = Firebase::new("firebase_id.firebaseio.com");
    match refused {
        Err(UrlParseError::Parser(error)) => {
            assert_eq!(error, url::ParseError::RelativeUrlWithoutBase)
        }
        other => panic!("unexpected: {:?}", other),
    }
}

#[test]
fn an_empty_address_is_a_parser_error() {
    assert!(matches!(Firebase::new(""), Err(UrlParseError::Parser(_))));
    assert!(matches!(Firebase::new("///"), Err(UrlParseError::Parser(_))));
}

#[test]
fn another_scheme_is_not_https() {
    assert!(matches!(
        Firebase::new("ftp://example.com/"),
        Err(UrlParseError::NotHttps)
    ));
    assert!(matches!(
        Firebase::new("mailto:someone@example.com"),
        Err(UrlParseError::NotHttps)
    ));
}

#[test]
fn messages_of_the_errors() {
    assert_eq!(UrlParseError::NoPath.message(), "URL path is missing.");
    assert_eq!(
        UrlParseError::NotHttps.message(),
        "The URL protocol should be https."
    );
    let parser = UrlParseError::Parser(url::ParseError::EmptyHost);
    assert_eq!(
        parser.message(),
        format!("Error while parsing the URL: {}", url::ParseError::EmptyHost)
    );
}

#[test]
fn auth_gives_exactly_one_pair() {
    let firebase = Firebase::auth("https://example.firebaseio.com", "k").unwrap();
    assert_eq!(firebase.base_uri(), "https://example.firebaseio.com/?auth=k");
    let pairs = firebase.as_location().query_pairs();
    assert_eq!(pairs, vec![("auth".to_string(), "k".to_string())]);
}

#[test]
fn a_credential_is_one_pair_whatever_it_holds() {
    for key in ["k", "a&b=c", "1+1 = 2", "100%", "#?/", "\u{e9}", " "] {
        let firebase = Firebase::auth("https://example.firebaseio.com/db?old=1#top", key).unwrap();
        let pairs = firebase.as_location().query_pairs();
        assert_eq!(pairs, vec![("auth".to_string(), key.to_string())]);
    }
    let firebase = Firebase::auth("https://example.firebaseio.com", "a&b=c d").unwrap();
    assert_eq!(
        firebase.base_uri(),
        "https://example.firebaseio.com/?auth=a%26b%3Dc+d"
    );
}

#[test]
fn try_auth_opens_where_auth_does() {
    let opened = Firebase::try_auth("https://example.firebaseio.com", "k")
        .unwrap()
        .unwrap();
    assert_eq!(opened.base_uri(), "https://example.firebaseio.com/?auth=k");
    assert!(matches!(
        Firebase::try_auth("http://example.firebaseio.com", "k"),
        Some(Err(UrlParseError::NotHttps))
    ));
    match Firebase::try_auth("example.firebaseio.com", "k") {
        Some(Err(UrlParseError::Parser(error))) => {
            assert_eq!(error, url::ParseError::RelativeUrlWithoutBase)
        }
        other => panic!("unexpected: {:?}", other),
    }
    let location = check_uri("https://example.firebaseio.com/a?x=1").unwrap();
    let with_key = authorize(&location, "k").unwrap();
    assert_eq!(with_key.as_str(), "https://example.firebaseio.com/a?auth=k");
}

#[test]
fn the_parser_s_error_is_handed_on() {
    let cases = [
        ("https://", url::ParseError::EmptyHost),
        ("https://example.com:99999/", url::ParseError::InvalidPort),
        ("https://[::1/", url::ParseError::InvalidIpv6Address),
        ("/only/a/path", url::ParseError::RelativeUrlWithoutBase),
    ];
    for (address, expected) in cases {
        match Firebase::new(address) {
            Err(UrlParseError::Parser(error)) => assert_eq!(error, expected),
            other => panic!("unexpected: {:?}", other),
        }
        match Firebase::auth(address, "k") {
            Err(UrlParseError::Parser(error)) => assert_eq!(error, expected),
            other => panic!("unexpected: {:?}", other),
        }
    }
}

#[test]
fn the_scheme_decides_what_becomes_of_a_parsed_address() {
    let accepted = check_scheme("https://example.com/".to_string(), "https").unwrap();
    assert_eq!(accepted.as_str(), "https://example.com/");
    assert!(matches!(
        check_scheme("http://example.com/".to_string(), "http"),
        Err(UrlParseError::NotHttps)
    ));
    assert_eq!(
        parser_message("empty host"),
        "Error while parsing the URL: empty host"
    );
}

#[test]
fn auth_replaces_a_query_that_was_given() {
    let firebase = Firebase::auth("https://example.firebaseio.com/?old=1", "k").unwrap();
    assert_eq!(firebase.base_uri(), "https://example.firebaseio.com/?auth=k");
}

#[test]
fn auth_fails_as_new_does() {
    assert!(matches!(
        Firebase::auth("http://host/path", "k"),
        Err(UrlParseError::NotHttps)
    ));
    assert!(matches!(
        Firebase::auth("host/path", "k"),
        Err(UrlParseError::Parser(_))
    ));
}

#[test]
fn check_uri_gives_the_parsed_location() {
    let location = check_uri("https://example.firebaseio.com/a/b///").unwrap();
    assert_eq!(location.as_str(), "https://example.firebaseio.com/a/b");
    assert_eq!(location.byte_len(), 34);
    assert_eq!(
        location.path_segments(),
        vec!["a".to_string(), "b".to_string()]
    );
    assert!(matches!(
        check_uri("http://example.com"),
        Err(UrlParseError::NotHttps)
    ));
}

#[test]
fn a_location_can_be_rewritten() {
    let location = check_uri("https://example.com/a?x=1").unwrap();
    assert_eq!(
        location.with_path("b/c").as_str(),
        "https://example.com/b/c?x=1"
    );
    assert_eq!(
        location.with_query("y=2").as_str(),
        "https://example.com/a?y=2"
    );
    assert_eq!(
        location.with_pair("k", "v w").as_str(),
        "https://example.com/a?x=1&k=v+w"
    );
    assert_eq!(location.clone().as_str(), location.as_str());
    assert_eq!(
        location.with_pair("k", "v w").query_pairs(),
        vec![
            ("x".to_string(), "1".to_string()),
            ("k".to_string(), "v w".to_string())
        ]
    );
}
