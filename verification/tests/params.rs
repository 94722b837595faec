use firebase_rs::text::{boolean_text, decimal_of, decimal_text, signed_text};
use firebase_rs::{Firebase, ParamValue, Paramable};

const ROOT: &str = "https://example.firebaseio.com";

fn pairs(items: &[(&str, &str)]) -> Vec<(String, String)> {
    items
        .iter()
        .map(|(key, value)| (key.to_string(), value.to_string()))
        .collect()
}

#[test]
fn order_by_key_and_limit_to_first() {
    let root = Firebase::new(ROOT).unwrap();
    let items = root.at("items").order_by("\"$key\"").limit_to_first(3);
    assert_eq!(
        items.base_uri(),
        "https://example.firebaseio.com/items.json?orderBy=%22%24key%22&limitToFirst=3"
    );
    let url = url::Url::parse(&items.base_uri()).unwrap();
    assert_eq!(url.path(), "/items.json");
    assert_eq!(url.query(), Some("orderBy=%22%24key%22&limitToFirst=3"));
    assert_eq!(
        items.as_location().query_pairs(),
        pairs(&[("orderBy", "\"$key\""), ("limitToFirst", "3")])
    );
}

#[test]
fn the_same_key_twice_gives_two_pairs() {
    let root = Firebase::new(ROOT).unwrap().at("items");
    let once = root.add_param("tag", "a");
    assert_eq!(once.as_location().query_pairs(), pairs(&[("tag", "a")]));
    let twice = once.add_param("tag", "b");
    assert_eq!(
        twice.base_uri(),
        "https://example.firebaseio.com/items.json?tag=a&tag=b"
    );
    assert_eq!(
        twice.as_location().query_pairs(),
        pairs(&[("tag", "a"), ("tag", "b")])
    );
    assert_eq!(root.base_uri(), "https://example.firebaseio.com/items.json");
}

#[test]
fn a_parameter_goes_behind_the_credential() {
    let root = Firebase::auth(ROOT, "k").unwrap();
    let shallow = root.shallow(true);
    assert_eq!(
        shallow.base_uri(),
        "https://example.firebaseio.com/?auth=k&shallow=true"
    );
    assert_eq!(
        shallow.as_location().query_pairs(),
        pairs(&[("auth", "k"), ("shallow", "true")])
    );
}

#[test]
fn every_named_parameter_has_its_key() {
    let root = Firebase::new(ROOT).unwrap().at("items");
    let base = "https://example.firebaseio.com/items.json";
    assert_eq!(root.order_by("age").base_uri(), format!("{}?orderBy=age", base));
    assert_eq!(
        root.limit_to_first(7).base_uri(),
        format!("{}?limitToFirst=7", base)
    );
    assert_eq!(
        root.limit_to_last(12).base_uri(),
        format!("{}?limitToLast=12", base)
    );
    assert_eq!(root.start_at(0).base_uri(), format!("{}?startAt=0", base));
    assert_eq!(
        root.end_at(4294967295).base_uri(),
        format!("{}?endAt=4294967295", base)
    );
    assert_eq!(root.equal_to(100).base_uri(), format!("{}?equalTo=100", base));
    assert_eq!(root.shallow(true).base_uri(), format!("{}?shallow=true", base));
    assert_eq!(
        root.shallow(false).base_uri(),
        format!("{}?shallow=false", base)
    );
    assert_eq!(root.format().base_uri(), format!("{}?format=export", base));
}

#[test]
fn values_are_written_in_their_text_form() {
    let root = Firebase::new(ROOT).unwrap();
    let base = "https://example.firebaseio.com/";
    assert_eq!(root.add_param("n", 42u32).base_uri(), format!("{}?n=42", base));
    assert_eq!(root.add_param("b", true).base_uri(), format!("{}?b=true", base));
    assert_eq!(root.add_param("s", "x y").base_uri(), format!("{}?s=x+y", base));
    assert_eq!(
        root.add_param("s", String::from("a&b=c")).base_uri(),
        format!("{}?s=a%26b%3Dc", base)
    );
    assert_eq!(
        root.add_param("s", String::from("a&b=c"))
            .as_location()
            .query_pairs(),
        pairs(&[("s", "a&b=c")])
    );
}

#[test]
fn text_forms() {
    assert_eq!(decimal_text(0), "0");
    assert_eq!(decimal_text(9), "9");
    assert_eq!(decimal_text(10), "10");
    assert_eq!(decimal_text(1234567890), "1234567890");
    assert_eq!(decimal_text(u32::MAX), "4294967295");
    assert_eq!(boolean_text(true), "true");
    assert_eq!(boolean_text(false), "false");
    assert_eq!(7u32.to_param(), "7");
    assert_eq!(false.to_param(), "false");
    assert_eq!("as is".to_param(), "as is");
    assert_eq!(String::from("as is").to_param(), "as is");
}

#[test]
fn every_integer_is_written_in_decimal() {
    assert_eq!(decimal_of(0), "0");
    assert_eq!(decimal_of(u128::MAX), "340282366920938463463374607431768211455");
    assert_eq!(signed_text(0), "0");
    assert_eq!(signed_text(-1), "-1");
    assert_eq!(signed_text(1234), "1234");
    assert_eq!(signed_text(i128::MAX), "170141183460469231731687303715884105727");
    assert_eq!(signed_text(i128::MIN), "-170141183460469231731687303715884105728");
    assert_eq!(255u8.to_param(), "255");
    assert_eq!(65535u16.to_param(), "65535");
    assert_eq!(u64::MAX.to_param(), "18446744073709551615");
    assert_eq!(u128::MAX.to_param(), u128::MAX.to_string());
    assert_eq!(usize::MAX.to_param(), usize::MAX.to_string());
    assert_eq!((-128i8).to_param(), "-128");
    assert_eq!(i16::MIN.to_param(), "-32768");
    assert_eq!((-7i32).to_param(), "-7");
    assert_eq!(i64::MIN.to_param(), "-9223372036854775808");
    assert_eq!(i128::MIN.to_param(), i128::MIN.to_string());
    assert_eq!(isize::MIN.to_param(), isize::MIN.to_string());
    let root = Firebase::new(ROOT).unwrap();
    assert_eq!(
        root.add_param("n", -5i64).base_uri(),
        "https://example.firebaseio.com/?n=-5"
    );
}

#[test]
fn try_add_param_adds_where_there_is_room() {
    let root = Firebase::new(ROOT).unwrap();
    let added = root.try_add_param("k", 1u32).unwrap();
    assert_eq!(added.base_uri(), "https://example.firebaseio.com/?k=1");
    assert_eq!(added.location_len(), 35);
}

#[test]
fn parameters_and_navigation_combine() {
    let firebase = Firebase::new("https://hacker-news.firebaseio.com/v0/").unwrap();
    let top = firebase.at("topstories").limit_to_first(7).order_by("\"$key\"");
    assert_eq!(
        top.base_uri(),
        "https://hacker-news.firebaseio.com/v0/topstories.json?limitToFirst=7&orderBy=%22%24key%22"
    );
}
