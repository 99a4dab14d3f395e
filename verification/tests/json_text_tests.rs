use redditbg::json::{json_get, parse_json, parse_json_string, JsonValue};
use redditbg::picker::{pick_step, PickDecision};
use redditbg::ledger::PersistentSet;
use redditbg::text::{find_first_of, find_last_of, str_contains, str_trimmed_starts_with};

#[test]
fn parse_json_builds_the_tree() {
    let tree = parse_json(br#"{"a":"x","b":[true,null,3]}"#).unwrap();
    let a = json_get(&tree, &String::from("a")).unwrap();
    match a {
        JsonValue::Str(s) => assert_eq!(s, "x"),
        _ => panic!("a must be a string"),
    }
    let b = json_get(&tree, &String::from("b")).unwrap();
    match b {
        JsonValue::Arr(items) => {
            assert_eq!(items.len(), 3);
            assert!(matches!(items[0], JsonValue::Bool(true)));
            assert!(matches!(items[1], JsonValue::Null));
            assert!(matches!(items[2], JsonValue::Num));
        }
        _ => panic!("b must be an array"),
    }
    assert!(json_get(&tree, &String::from("missing")).is_none());
}

#[test]
fn parse_json_rejects_malformed_text() {
    assert!(parse_json(b"{broken").is_none());
    assert!(parse_json(b"").is_none());
}

#[test]
fn parse_json_string_decodes_literals() {
    assert_eq!(parse_json_string(r#""ab""#).unwrap(), "ab");
    assert_eq!(parse_json_string(r#""a\"b""#).unwrap(), "a\"b");
    assert!(parse_json_string("'ab'").is_none());
    assert!(parse_json_string("[1]").is_none());
}

#[test]
fn substring_search() {
    assert!(str_contains("window.postDataJSON = 1", "postDataJSON"));
    assert!(!str_contains("window.postData = 1", "postDataJSON"));
    assert!(str_contains("abc", ""));
    assert!(!str_contains("ab", "abc"));
}

#[test]
fn trimmed_prefix_check() {
    assert!(str_trimmed_starts_with("  \n\twindow.___r = {}", "window.___r"));
    assert!(str_trimmed_starts_with("window.___r", "window.___r"));
    assert!(!str_trimmed_starts_with("x window.___r", "window.___r"));
}

#[test]
fn first_and_last_occurrence() {
    assert_eq!(find_first_of("a'b\"c", "'\""), Some(1));
    assert_eq!(find_last_of("a'b\"c", "'\""), Some(3));
    assert_eq!(find_first_of("abc", "'\""), None);
    assert_eq!(find_last_of("abc", "'\""), None);
}

#[test]
fn picker_applies_each_hash_once() {
    let mut applied = PersistentSet::new(String::from("applied"));
    let h = String::from("cafe1234");
    assert_eq!(pick_step(&mut applied, &h), PickDecision::Apply);
    assert_eq!(pick_step(&mut applied, &h), PickDecision::AlreadyApplied);
    let other = String::from("beef5678");
    assert_eq!(pick_step(&mut applied, &other), PickDecision::Apply);
}
