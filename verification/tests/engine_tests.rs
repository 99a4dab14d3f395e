use redditbg::engine::{Fetcher, Step, Verdict};
use redditbg::ledger::PersistentSet;
use redditbg::listing::{parse_listing_page, PollStep, Posts};
use redditbg::media::ratio_ok;

fn png_1920_1080() -> Vec<u8> {
    let img = image::DynamicImage::ImageRgb8(image::RgbImage::new(1920, 1080));
    let mut out = std::io::Cursor::new(Vec::new());
    img.write_to(&mut out, image::ImageFormat::Png).unwrap();
    out.into_inner()
}

fn png_square() -> Vec<u8> {
    let img = image::DynamicImage::ImageRgb8(image::RgbImage::new(500, 500));
    let mut out = std::io::Cursor::new(Vec::new());
    img.write_to(&mut out, image::ImageFormat::Png).unwrap();
    out.into_inner()
}

fn empty_ledger(name: &str) -> PersistentSet {
    PersistentSet::new(String::from(name))
}

fn imgur_gallery_of_three() -> Vec<u8> {
    let json_literal = r#""{\"media\":[{\"url\":\"http://x/1.png\"},{\"url\":\"http://x/2.png\"},{\"url\":\"http://x/3.png\"}]}""#;
    format!(
        "<!DOCTYPE html><html><head><title>g</title></head><body>\
         <script>window.postDataJSON = {}</script></body></html>",
        json_literal
    )
    .into_bytes()
}

#[test]
fn ratio_rule_exact_values() {
    assert!(ratio_ok(1920, 1080, 1920, 1080));
    // 10/1080 off: within the hundredth.
    assert!(ratio_ok(1930, 1080, 1920, 1080));
    // 20/1080 off: outside it.
    assert!(!ratio_ok(1940, 1080, 1920, 1080));
    // Boundary: |101/100 - 100/100| == 1/100 exactly is accepted.
    assert!(ratio_ok(101, 100, 100, 100));
    assert!(!ratio_ok(102, 100, 100, 100));
    // Degenerate heights are rejected, never divided by.
    assert!(!ratio_ok(100, 0, 100, 100));
    assert!(!ratio_ok(100, 100, 100, 0));
}

#[test]
fn accepted_png_is_stored_and_counted() {
    // A 1920x1080 PNG against a 16:9 display: accepted, stored under the
    // reference's reversible name, counter incremented by one.
    let mut engine = Fetcher::new(empty_ledger("downloaded"), empty_ledger("invalid"), 0, 1920, 1080);
    let url = String::from("http://x/a.png");
    engine.submit(url.clone());
    match engine.next() {
        Step::Fetch(u) => assert_eq!(u, url),
        _ => panic!("expected a fetch"),
    }
    match engine.on_body(&url, &png_1920_1080()) {
        Verdict::Store { filename, bytes } => {
            assert_eq!(filename, "aHR0cDovL3gvYS5wbmc.png");
            assert!(!bytes.is_empty());
            // The stored bytes are themselves a PNG of the display size.
            let img = image::load_from_memory(&bytes).unwrap();
            assert_eq!((img.width(), img.height()), (1920, 1080));
        }
        _ => panic!("expected a store"),
    }
    engine.on_store_result(&url, true);
    assert_eq!(engine.gotten, 1);
    assert!(!engine.invalid.contains(&url));
}

#[test]
fn wrong_ratio_is_a_hard_reject() {
    let mut engine = Fetcher::new(empty_ledger("downloaded"), empty_ledger("invalid"), 0, 1920, 1080);
    let url = String::from("http://x/square.png");
    engine.submit(url.clone());
    assert!(matches!(engine.next(), Step::Fetch(_)));
    assert!(matches!(engine.on_body(&url, &png_square()), Verdict::BadRatio));
    assert!(engine.invalid.contains(&url));
    assert_eq!(engine.gotten, 0);
}

#[test]
fn unrecognized_body_is_marked_invalid() {
    let mut engine = Fetcher::new(empty_ledger("downloaded"), empty_ledger("invalid"), 0, 1920, 1080);
    let url = String::from("http://x/what");
    engine.submit(url.clone());
    assert!(matches!(engine.next(), Step::Fetch(_)));
    assert!(matches!(engine.on_body(&url, &b"neither image nor gallery".to_vec()), Verdict::Unrecognized));
    assert!(engine.invalid.contains(&url));
}

#[test]
fn failed_fetch_is_marked_invalid() {
    let mut engine = Fetcher::new(empty_ledger("downloaded"), empty_ledger("invalid"), 0, 1920, 1080);
    let url = String::from("http://x/gone.png");
    engine.submit(url.clone());
    assert!(matches!(engine.next(), Step::Fetch(_)));
    engine.on_fetch_failed(&url);
    assert!(engine.invalid.contains(&url));
    // The toplevel frame is then exhausted but unmarked (no origin).
    match engine.next() {
        Step::FrameDone { origin, exhausted, touched } => {
            assert!(origin.is_none());
            assert!(exhausted);
            assert_eq!(touched, 1);
        }
        _ => panic!(),
    }
    assert!(matches!(engine.next(), Step::NeedInput));
}

#[test]
fn ledgered_references_are_never_fetched_again() {
    // Once a reference is downloaded or invalid, a later run skips it.
    let mut downloaded = empty_ledger("downloaded");
    downloaded.insert(String::from("http://x/have.png"));
    let mut invalid = empty_ledger("invalid");
    invalid.insert(String::from("http://x/bad.png"));
    let mut engine = Fetcher::new(downloaded, invalid, 0, 1920, 1080);
    for u in ["http://x/have.png", "http://x/bad.png"] {
        let url = String::from(u);
        engine.submit(url.clone());
        match engine.next() {
            Step::Skipped(s) => assert_eq!(s, url),
            _ => panic!("a ledgered reference must be skipped"),
        }
        assert!(matches!(engine.next(), Step::FrameDone { .. }));
        assert!(matches!(engine.next(), Step::NeedInput));
    }
}

#[test]
fn gallery_fully_mined_is_marked_invalid() {
    // Three members, two already downloaded, one new and acceptable:
    // touched=3, accepted=1, and the gallery itself is marked invalid.
    let mut downloaded = empty_ledger("downloaded");
    downloaded.insert(String::from("http://x/1.png"));
    downloaded.insert(String::from("http://x/2.png"));
    let mut engine = Fetcher::new(downloaded, empty_ledger("invalid"), 0, 1920, 1080);
    let gallery = String::from("http://x/gallery");
    engine.submit(gallery.clone());
    assert!(matches!(engine.next(), Step::Fetch(_)));
    match engine.on_body(&gallery, &imgur_gallery_of_three()) {
        Verdict::Gallery { members } => assert_eq!(members, 3),
        _ => panic!("expected a gallery"),
    }
    assert!(matches!(engine.next(), Step::Skipped(_)));
    assert!(matches!(engine.next(), Step::Skipped(_)));
    let third = String::from("http://x/3.png");
    match engine.next() {
        Step::Fetch(u) => assert_eq!(u, third),
        _ => panic!(),
    }
    assert!(matches!(engine.on_body(&third, &png_1920_1080()), Verdict::Store { .. }));
    engine.on_store_result(&third, true);
    match engine.next() {
        Step::FrameDone { origin, exhausted, touched } => {
            assert_eq!(origin.as_deref(), Some("http://x/gallery"));
            assert!(exhausted);
            assert_eq!(touched, 3);
        }
        _ => panic!(),
    }
    assert!(engine.invalid.contains(&gallery));
    assert_eq!(engine.gotten, 1);
}

#[test]
fn gallery_abandoned_at_quota_stays_unmarked() {
    // The quota is hit after the first member: the gallery is abandoned
    // with touched < total and must stay unmarked for a future run.
    let mut engine = Fetcher::new(empty_ledger("downloaded"), empty_ledger("invalid"), 24, 1920, 1080);
    assert_eq!(engine.need, 1);
    let gallery = String::from("http://x/gallery");
    engine.submit(gallery.clone());
    assert!(matches!(engine.next(), Step::Fetch(_)));
    assert!(matches!(engine.on_body(&gallery, &imgur_gallery_of_three()), Verdict::Gallery { .. }));
    let first = String::from("http://x/1.png");
    match engine.next() {
        Step::Fetch(u) => assert_eq!(u, first),
        _ => panic!(),
    }
    assert!(matches!(engine.on_body(&first, &png_1920_1080()), Verdict::Store { .. }));
    engine.on_store_result(&first, true);
    assert!(engine.satisfied());
    match engine.next() {
        Step::FrameDone { origin, exhausted, touched } => {
            assert_eq!(origin.as_deref(), Some("http://x/gallery"));
            assert!(!exhausted);
            assert_eq!(touched, 1);
        }
        _ => panic!(),
    }
    assert!(!engine.invalid.contains(&gallery));
    // The engine never reports more acceptances than the quota.
    assert!(engine.gotten <= engine.need);
}

#[test]
fn store_failure_is_fatal_for_that_reference_only() {
    let mut engine = Fetcher::new(empty_ledger("downloaded"), empty_ledger("invalid"), 0, 1920, 1080);
    let url = String::from("http://x/a.png");
    engine.submit(url.clone());
    assert!(matches!(engine.next(), Step::Fetch(_)));
    assert!(matches!(engine.on_body(&url, &png_1920_1080()), Verdict::Store { .. }));
    engine.on_store_result(&url, false);
    assert!(engine.invalid.contains(&url));
    assert_eq!(engine.gotten, 0);
    // The engine carries on with fresh input.
    assert!(matches!(engine.next(), Step::FrameDone { .. }));
    assert!(matches!(engine.next(), Step::NeedInput));
    let other = String::from("http://x/b.png");
    engine.submit(other.clone());
    assert!(matches!(engine.next(), Step::Fetch(_)));
}

#[test]
fn empty_gallery_is_exhausted_at_once() {
    // A gallery with no members is fully mined trivially and is marked
    // invalid so it is never revisited.
    let json_literal = r#""{\"media\":[]}""#;
    let body = format!(
        "<!DOCTYPE html><html><head><title>g</title></head><body>\
         <script>window.postDataJSON = {}</script></body></html>",
        json_literal
    )
    .into_bytes();
    let mut engine = Fetcher::new(empty_ledger("downloaded"), empty_ledger("invalid"), 0, 1920, 1080);
    let gallery = String::from("http://x/empty");
    engine.submit(gallery.clone());
    assert!(matches!(engine.next(), Step::Fetch(_)));
    match engine.on_body(&gallery, &body) {
        Verdict::Gallery { members } => assert_eq!(members, 0),
        _ => panic!(),
    }
    match engine.next() {
        Step::FrameDone { origin, exhausted, touched } => {
            assert_eq!(origin.as_deref(), Some("http://x/empty"));
            assert!(exhausted);
            assert_eq!(touched, 0);
        }
        _ => panic!(),
    }
    assert!(engine.invalid.contains(&gallery));
}

#[test]
fn nested_galleries_share_the_run() {
    // A gallery whose only member is itself a gallery: the inner one is
    // mined through the same engine, and both end up marked invalid once
    // fully examined.
    let inner_literal = r#""{\"media\":[{\"url\":\"http://x/3.png\"}]}""#;
    let inner = format!(
        "<!DOCTYPE html><html><head><title>g</title></head><body>\
         <script>window.postDataJSON = {}</script></body></html>",
        inner_literal
    )
    .into_bytes();
    let outer_literal = r#""{\"media\":[{\"url\":\"http://x/inner\"}]}""#;
    let outer = format!(
        "<!DOCTYPE html><html><head><title>g</title></head><body>\
         <script>window.postDataJSON = {}</script></body></html>",
        outer_literal
    )
    .into_bytes();

    let mut engine = Fetcher::new(empty_ledger("downloaded"), empty_ledger("invalid"), 0, 1920, 1080);
    let outer_url = String::from("http://x/outer");
    engine.submit(outer_url.clone());
    assert!(matches!(engine.next(), Step::Fetch(_)));
    assert!(matches!(engine.on_body(&outer_url, &outer), Verdict::Gallery { members: 1 }));
    let inner_url = String::from("http://x/inner");
    match engine.next() {
        Step::Fetch(u) => assert_eq!(u, inner_url),
        _ => panic!(),
    }
    assert!(matches!(engine.on_body(&inner_url, &inner), Verdict::Gallery { members: 1 }));
    let leaf = String::from("http://x/3.png");
    match engine.next() {
        Step::Fetch(u) => assert_eq!(u, leaf),
        _ => panic!(),
    }
    assert!(matches!(engine.on_body(&leaf, &png_1920_1080()), Verdict::Store { .. }));
    engine.on_store_result(&leaf, true);
    // Inner frame drains first, then the outer one.
    match engine.next() {
        Step::FrameDone { origin, exhausted, .. } => {
            assert_eq!(origin.as_deref(), Some("http://x/inner"));
            assert!(exhausted);
        }
        _ => panic!(),
    }
    match engine.next() {
        Step::FrameDone { origin, exhausted, .. } => {
            assert_eq!(origin.as_deref(), Some("http://x/outer"));
            assert!(exhausted);
        }
        _ => panic!(),
    }
    assert!(engine.invalid.contains(&inner_url));
    assert!(engine.invalid.contains(&outer_url));
    assert_eq!(engine.gotten, 1);
}

#[test]
fn quota_caps_acceptances_across_submissions() {
    // With a quota of two and three acceptable candidates on offer, the
    // engine accepts two and asks for no more work.
    let mut engine = Fetcher::new(empty_ledger("downloaded"), empty_ledger("invalid"), 23, 1920, 1080);
    assert_eq!(engine.need, 2);
    let candidates = ["http://x/a.png", "http://x/b.png", "http://x/c.png"];
    let mut offered = 0;
    for candidate in candidates {
        if engine.satisfied() {
            break;
        }
        offered += 1;
        let url = String::from(candidate);
        engine.submit(url.clone());
        loop {
            match engine.next() {
                Step::Fetch(u) => {
                    assert!(matches!(engine.on_body(&u, &png_1920_1080()), Verdict::Store { .. }));
                    engine.on_store_result(&u, true);
                }
                Step::Skipped(_) | Step::FrameDone { .. } => {}
                Step::NeedInput => break,
            }
        }
    }
    assert_eq!(offered, 2);
    assert_eq!(engine.gotten, 2);
    assert!(engine.gotten <= engine.need);
}

#[test]
fn listing_page_feeds_the_engine() {
    // End to end without the network: a listing body yields a reference,
    // the reference's body is an acceptable image, and the run accepts it.
    let body =
        br#"{"data":{"children":[{"data":{"url":"http://x/a.png","over_18":false}}],"after":null}}"#;
    let mut posts = Posts::new(vec![String::from("wallpaper")]);
    let mut engine = Fetcher::new(empty_ledger("downloaded"), empty_ledger("invalid"), 0, 1920, 1080);
    let mut accepted_urls = Vec::new();
    loop {
        match posts.poll_next() {
            PollStep::StartFetch => posts.on_page(parse_listing_page(body).unwrap()),
            PollStep::Item(url) => {
                engine.submit(url);
                loop {
                    match engine.next() {
                        Step::Fetch(u) => {
                            if matches!(engine.on_body(&u, &png_1920_1080()), Verdict::Store { .. })
                            {
                                engine.on_store_result(&u, true);
                                accepted_urls.push(u);
                            }
                        }
                        Step::Skipped(_) | Step::FrameDone { .. } => {}
                        Step::NeedInput => break,
                    }
                }
            }
            PollStep::Exhausted => break,
        }
    }
    assert_eq!(accepted_urls, vec![String::from("http://x/a.png")]);
    assert_eq!(engine.gotten, 1);
}

#[test]
fn zero_quota_pulls_no_work() {
    let mut engine = Fetcher::new(empty_ledger("downloaded"), empty_ledger("invalid"), 25, 1920, 1080);
    assert_eq!(engine.need, 0);
    assert!(engine.satisfied());
}
