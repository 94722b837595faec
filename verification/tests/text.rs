use firebase_rs::location::check_room;
use firebase_rs::text::{byte_length, matches_at, str_eq, trim_end_char, trim_end_str};

#[test]
fn trailing_characters_are_trimmed() {
    assert_eq!(trim_end_char("a///", '/'), "a");
    assert_eq!(trim_end_char("a/b", '/'), "a/b");
    assert_eq!(trim_end_char("/a/", '/'), "/a");
    assert_eq!(trim_end_char("///", '/'), "");
    assert_eq!(trim_end_char("", '/'), "");
    assert_eq!(trim_end_char("\u{e9}//", '/'), "\u{e9}");
}

#[test]
fn trailing_suffixes_are_trimmed() {
    assert_eq!(trim_end_str("a.json", ".json"), "a");
    assert_eq!(trim_end_str("a.json.json", ".json"), "a");
    assert_eq!(trim_end_str(".json", ".json"), "");
    assert_eq!(trim_end_str("a.json.", ".json"), "a.json.");
    assert_eq!(trim_end_str("a.jsonx", ".json"), "a.jsonx");
    assert_eq!(trim_end_str("json", ".json"), "json");
    assert_eq!(trim_end_str("", ".json"), "");
    assert_eq!(trim_end_str("abc", ""), "abc");
    assert_eq!(trim_end_str("\u{e9}t\u{e9}.json", ".json"), "\u{e9}t\u{e9}");
}

#[test]
fn strings_are_compared_by_their_characters() {
    assert!(str_eq("https", "https"));
    assert!(str_eq("", ""));
    assert!(!str_eq("https", "http"));
    assert!(!str_eq("http", "https"));
    assert!(!str_eq("https", "httpz"));
    assert!(matches_at("a.json", 1, ".json"));
    assert!(matches_at("a.json", 0, "a"));
    assert!(matches_at("a.json", 6, ""));
    assert!(!matches_at("a.json", 0, ".json"));
}

#[test]
fn lengths_are_counted_in_bytes() {
    assert_eq!(byte_length(""), 0);
    assert_eq!(byte_length("abc"), 3);
    assert_eq!(byte_length("\u{e9}"), 2);
    assert_eq!(byte_length("\u{1f600}"), 4);
}

#[test]
fn room_is_left_up_to_the_limit() {
    assert!(check_room(0, 0));
    assert!(check_room(100, 1000));
    assert!(check_room(4294967292, 0));
    assert!(!check_room(4294967293, 0));
    assert!(check_room(0, 1431655764));
    assert!(!check_room(0, 1431655765));
    assert!(check_room(3, 1431655763));
    assert!(!check_room(4, 1431655763));
}
