use redditbg::listing::{parse_listing_page, ListingError, Page, PollStep, Posts, PostsState};

#[test]
fn single_child_page_then_exhausted() {
    // One listing page with a single safe child and no next-page token:
    // the stream yields exactly that reference, then terminates.
    let body =
        br#"{"data":{"children":[{"data":{"url":"http://x/a.png","over_18":false}}],"after":null}}"#;
    let page = parse_listing_page(body).unwrap();
    assert_eq!(page.posts, vec![String::from("http://x/a.png")]);
    assert!(page.next_page_id.is_none());

    let mut posts = Posts::new(vec![String::from("wallpaper")]);
    assert!(matches!(posts.poll_next(), PollStep::StartFetch));
    posts.on_page(page);
    match posts.poll_next() {
        PollStep::Item(u) => assert_eq!(u, "http://x/a.png"),
        _ => panic!("expected the one reference"),
    }
    assert!(matches!(posts.poll_next(), PollStep::Exhausted));
    assert!(matches!(posts.state, PostsState::Exhausted));
    assert!(matches!(posts.poll_next(), PollStep::Exhausted));
}

#[test]
fn adult_children_are_filtered_at_parse_time() {
    let body = br#"{"data":{"children":[
        {"data":{"url":"http://x/safe.png","over_18":false}},
        {"data":{"url":"http://x/nsfw.png","over_18":true}},
        {"data":{"url":"http://x/also.png","over_18":false}}
    ],"after":"t3_abc"}}"#;
    let page = parse_listing_page(body).unwrap();
    assert_eq!(
        page.posts,
        vec![String::from("http://x/safe.png"), String::from("http://x/also.png")]
    );
    assert_eq!(page.next_page_id.as_deref(), Some("t3_abc"));
}

#[test]
fn malformed_children_are_skipped() {
    let body = br#"{"data":{"children":[
        {"data":{"url":"http://x/ok.png","over_18":false}},
        {"data":{"over_18":false}},
        {"data":{"url":"http://x/n.png"}},
        {"nodata":true},
        {"data":{"url":7,"over_18":false}}
    ],"after":null}}"#;
    let page = parse_listing_page(body).unwrap();
    assert_eq!(page.posts, vec![String::from("http://x/ok.png")]);
}

#[test]
fn listing_error_variants() {
    assert_eq!(parse_listing_page(b"not json").unwrap_err(), ListingError::BadJson);
    assert_eq!(parse_listing_page(br#"{"nope":1}"#).unwrap_err(), ListingError::NoData);
    assert_eq!(parse_listing_page(br#"{"data":{}}"#).unwrap_err(), ListingError::NoChildren);
    assert_eq!(
        parse_listing_page(br#"{"data":{"children":5}}"#).unwrap_err(),
        ListingError::ChildrenNotArray
    );
}

#[test]
fn buffered_page_with_token_requests_next_page() {
    let mut posts = Posts::new(vec![String::from("a")]);
    assert!(matches!(posts.poll_next(), PollStep::StartFetch));
    posts.on_page(Page {
        next_page_id: Some(String::from("t3_next")),
        posts: vec![String::from("u1"), String::from("u2")],
    });
    // Buffered references come out most-recent-first.
    match posts.poll_next() {
        PollStep::Item(u) => assert_eq!(u, "u2"),
        _ => panic!(),
    }
    match posts.poll_next() {
        PollStep::Item(u) => assert_eq!(u, "u1"),
        _ => panic!(),
    }
    // Buffer drained and a token is held: the next pull starts a fetch.
    assert!(matches!(posts.poll_next(), PollStep::StartFetch));
    // A failed page request exhausts the stream for good.
    posts.on_page_failed();
    assert!(matches!(posts.poll_next(), PollStep::Exhausted));
}

#[test]
fn request_url_joins_subreddits() {
    let posts = Posts::new(vec![String::from("wallpaper"), String::from("earthporn")]);
    assert_eq!(posts.request_url(), "https://reddit.com/r/wallpaper+earthporn/new.json");
    let one = Posts::new(vec![String::from("pics")]);
    assert_eq!(one.request_url(), "https://reddit.com/r/pics/new.json");
}
