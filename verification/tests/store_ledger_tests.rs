use redditbg::ledger::PersistentSet;
use redditbg::store::{b64url_decode, b64url_encode, bytes_to_string, make_filename, name_to_url};

#[test]
fn b64_known_vector() {
    let enc = b64url_encode(b"foo");
    assert_eq!(enc, "Zm9v");
    let dec = b64url_decode("Zm9v").unwrap();
    assert_eq!(dec, b"foo");
}

#[test]
fn b64_decode_rejects_garbage() {
    assert!(b64url_decode("not base64!").is_none());
}

#[test]
fn utf8_decoding() {
    assert_eq!(bytes_to_string(b"hello".to_vec()).unwrap(), "hello");
    assert!(bytes_to_string(vec![0xff, 0xfe]).is_none());
}

#[test]
fn filename_is_reversible_encoding() {
    let name = make_filename("http://x/a.png");
    assert_eq!(name, "aHR0cDovL3gvYS5wbmc.png");
    let back = name_to_url(&name).unwrap();
    assert_eq!(back, "http://x/a.png");
}

#[test]
fn name_without_dot_or_bad_stem_yields_nothing() {
    assert!(name_to_url("!!!.png").is_none());
}

#[test]
fn set_contains_and_insert_are_idempotent() {
    let mut s = PersistentSet::new(String::from("downloaded"));
    let u = String::from("http://x/a.png");
    assert!(!s.contains(&u));
    s.insert(u.clone());
    assert!(s.contains(&u));
    s.insert(u.clone());
    assert!(s.contains(&u));
    assert!(!s.contains(&String::from("http://x/b.png")));
}

#[test]
fn flush_and_load_round_trip() {
    let mut s = PersistentSet::new(String::from("invalid"));
    s.insert(String::from("http://x/a.png"));
    s.insert(String::from("http://x/b.png"));
    s.insert(String::from(""));
    let text = s.to_lines();
    let loaded = PersistentSet::from_lines(String::from("invalid"), &text);
    assert!(loaded.contains(&String::from("http://x/a.png")));
    assert!(loaded.contains(&String::from("http://x/b.png")));
    assert!(loaded.contains(&String::from("")));
    assert!(!loaded.contains(&String::from("http://x/c.png")));
}

#[test]
fn load_skips_malformed_lines() {
    let text = format!("{}\n!!bad line!!\n{}\n", b64url_encode(b"u1"), b64url_encode(b"u2"));
    let loaded = PersistentSet::from_lines(String::from("downloaded"), &text);
    assert!(loaded.contains(&String::from("u1")));
    assert!(loaded.contains(&String::from("u2")));
    assert!(!loaded.contains(&String::from("!!bad line!!")));
}

#[test]
fn load_ignores_an_unterminated_tail() {
    // Only newline-terminated lines count: a torn write of the last line
    // never smuggles a half-entry into the ledger.
    let text = format!("{}\n{}", b64url_encode(b"u1"), b64url_encode(b"u2"));
    let loaded = PersistentSet::from_lines(String::from("downloaded"), &text);
    assert!(loaded.contains(&String::from("u1")));
    assert!(!loaded.contains(&String::from("u2")));
}

#[test]
fn reconcile_twice_equals_once() {
    let names = vec![
        make_filename("http://x/a.png"),
        make_filename("http://x/b.png"),
        String::from("junk-without-meaning"),
    ];
    let mut once = PersistentSet::new(String::from("downloaded"));
    once.insert(String::from("seed"));
    let mut twice = PersistentSet::new(String::from("downloaded"));
    twice.insert(String::from("seed"));

    once.reconcile_from_store(&names);
    twice.reconcile_from_store(&names);
    twice.reconcile_from_store(&names);

    for u in ["seed", "http://x/a.png", "http://x/b.png"] {
        assert!(once.contains(&String::from(u)));
        assert!(twice.contains(&String::from(u)));
    }
    assert_eq!(once.to_lines(), twice.to_lines());
}
