use bluesky_archiver::bluesky::{
    Author, BlobRef, BlobView, Embed, FeedItem, FetchDirective, FetchError, FetchEvent, FetchMode,
    FetchRun, Image, Post, Record,
};

fn author() -> Author {
    Author {
        did: "did:plc:test".to_string(),
        handle: "test.bsky.social".to_string(),
        display_name: None,
    }
}

fn image(blob: &str, mime: &str) -> Image {
    Image {
        alt: None,
        fullsize: "https://example.com/full.jpg".to_string(),
        thumb: "https://example.com/thumb.jpg".to_string(),
        aspect_ratio: None,
        image: BlobView {
            type_: "blob".to_string(),
            ref_: BlobRef { link: blob.to_string() },
            mime_type: mime.to_string(),
            size: 1024,
        },
    }
}

fn post_with_embed(uri: &str, embed: Option<Embed>) -> Post {
    Post {
        uri: uri.to_string(),
        cid: "bafyreihgb3q5lqkqpfkrw".to_string(),
        author: author(),
        record: Record {
            record_type: "app.bsky.feed.post".to_string(),
            text: Some("Test".to_string()),
            embed,
            created_at: "2024-01-01T00:00:00Z".to_string(),
        },
        indexed_at: "2024-01-01T00:00:00Z".to_string(),
        labels: None,
    }
}

fn image_post(uri: &str, blob: &str) -> Post {
    post_with_embed(
        uri,
        Some(Embed::Images {
            embed_type: "app.bsky.embed.images".to_string(),
            images: vec![image(blob, "image/jpeg")],
        }),
    )
}

fn item(post: Post) -> FeedItem {
    FeedItem { post, is_repost: false }
}

#[test]
fn test_rate_limit_retry_then_success_processes_page_once() {
    let mut run = FetchRun::new(FetchMode::Likes, 0, 0, None);
    let d = run.on_event(FetchEvent::RateLimited);
    match d {
        FetchDirective::Retry { wait_ms } => assert_eq!(wait_ms, 2000),
        _ => panic!("expected a retry directive"),
    }
    let items = vec![item(image_post("at://p/1", "blob1"))];
    let d = run.on_event(FetchEvent::Page { items, cursor: None });
    assert!(matches!(d, FetchDirective::Complete));
    let posts = run.into_posts();
    assert_eq!(posts.len(), 1);
    assert_eq!(posts[0].uri, "at://p/1");
}

#[test]
fn test_rate_limit_exhaustion_aborts() {
    let mut run = FetchRun::new(FetchMode::Likes, 0, 0, None);
    let mut waits = Vec::new();
    for _ in 0..5 {
        match run.on_event(FetchEvent::RateLimited) {
            FetchDirective::Retry { wait_ms } => waits.push(wait_ms),
            _ => panic!("expected a retry directive"),
        }
    }
    assert_eq!(waits, vec![2000, 4000, 8000, 16000, 32000]);
    match run.on_event(FetchEvent::RateLimited) {
        FetchDirective::Abort { error: FetchError::RateLimitExhausted { retries } } => {
            assert_eq!(retries, 5)
        }
        _ => panic!("expected the run to give up"),
    }
    assert!(run.aborted);
}

#[test]
fn test_http_error_aborts_immediately() {
    let mut run = FetchRun::new(FetchMode::Likes, 10, 0, None);
    let d = run.on_event(FetchEvent::Failure { status: 401, body: "AuthRequired".to_string() });
    match d {
        FetchDirective::Abort { error: FetchError::Http { status, body } } => {
            assert_eq!(status, 401);
            assert_eq!(body, "AuthRequired");
        }
        _ => panic!("expected an abort"),
    }
}

#[test]
fn test_decode_error_aborts() {
    let mut run = FetchRun::new(FetchMode::Likes, 10, 0, None);
    let d = run.on_event(FetchEvent::DecodeError { detail: "bad json".to_string() });
    assert!(matches!(
        d,
        FetchDirective::Abort { error: FetchError::Decode { .. } }
    ));
}

#[test]
fn test_feed_filter_keeps_only_genuine_image_posts_in_order() {
    // An unbounded author-feed run: reposts, quote posts and imageless posts
    // are interleaved with genuine image posts and must be dropped.
    let mut run = FetchRun::new(FetchMode::AuthorFeed, 0, 0, None);
    let genuine_a = item(image_post("at://p/a", "blob-a"));
    let repost = FeedItem { post: image_post("at://p/b", "blob-b"), is_repost: true };
    let quote = item(post_with_embed(
        "at://p/c",
        Some(Embed::Other { embed_type: "app.bsky.embed.record".to_string() }),
    ));
    let no_image = item(post_with_embed("at://p/d", None));
    let empty_gallery = item(post_with_embed(
        "at://p/e",
        Some(Embed::Images { embed_type: "app.bsky.embed.images".to_string(), images: vec![] }),
    ));
    let genuine_f = item(image_post("at://p/f", "blob-f"));
    let items = vec![genuine_a, repost, quote, no_image, empty_gallery, genuine_f];
    let d = run.on_event(FetchEvent::Page { items, cursor: None });
    assert!(matches!(d, FetchDirective::Complete));
    let posts = run.into_posts();
    let uris: Vec<&str> = posts.iter().map(|p| p.uri.as_str()).collect();
    assert_eq!(uris, vec!["at://p/a", "at://p/f"]);
}

#[test]
fn test_quote_with_media_embed_type_is_excluded() {
    let mut run = FetchRun::new(FetchMode::AuthorFeed, 0, 0, None);
    let quote_with_media = item(post_with_embed(
        "at://p/q",
        Some(Embed::Other { embed_type: "app.bsky.embed.recordWithMedia".to_string() }),
    ));
    let items = vec![quote_with_media];
    run.on_event(FetchEvent::Page { items, cursor: None });
    assert_eq!(run.into_posts().len(), 0);
}

#[test]
fn test_limit_reached_mid_page_stops_without_advancing_cursor() {
    let mut run = FetchRun::new(FetchMode::Likes, 1, 0, Some("start".to_string()));
    let items = vec![item(image_post("at://p/1", "b1")), item(image_post("at://p/2", "b2"))];
    let d = run.on_event(FetchEvent::Page { items, cursor: Some("next".to_string()) });
    assert!(matches!(d, FetchDirective::Complete));
    // The page that satisfied the limit does not advance the checkpoint:
    // a later run resumes from before it and sees the unprocessed items.
    assert_eq!(run.cursor, Some("start".to_string()));
    let posts = run.into_posts();
    assert_eq!(posts.len(), 1);
    assert_eq!(posts[0].uri, "at://p/1");
}

#[test]
fn test_page_with_cursor_advances_and_saves() {
    let mut run = FetchRun::new(FetchMode::Likes, 0, 250, None);
    let req = run.next_request();
    assert_eq!(req.cursor, None);
    assert_eq!(req.page_size, 100);
    assert_eq!(req.delay_ms, 0);
    let items = vec![item(image_post("at://p/1", "b1"))];
    let d = run.on_event(FetchEvent::Page { items, cursor: Some("c1".to_string()) });
    match d {
        FetchDirective::Advance { save_cursor } => assert_eq!(save_cursor, "c1"),
        _ => panic!("expected an advance directive"),
    }
    let req = run.next_request();
    assert_eq!(req.cursor, Some("c1".to_string()));
    assert_eq!(req.delay_ms, 250);
    let d = run.on_event(FetchEvent::Page { items: vec![], cursor: Some("c2".to_string()) });
    assert!(matches!(d, FetchDirective::Complete));
    assert_eq!(run.into_posts().len(), 1);
}

#[test]
fn test_missing_cursor_completes_run() {
    let mut run = FetchRun::new(FetchMode::Likes, 0, 0, None);
    let items = vec![item(image_post("at://p/1", "b1"))];
    let d = run.on_event(FetchEvent::Page { items, cursor: None });
    assert!(matches!(d, FetchDirective::Complete));
    assert!(run.completed);
}

#[test]
fn test_page_size_is_remaining_limit_when_smaller() {
    let mut run = FetchRun::new(FetchMode::Likes, 7, 0, None);
    assert_eq!(run.next_request().page_size, 7);
    let items = vec![
        item(image_post("at://p/1", "b1")),
        item(image_post("at://p/2", "b2")),
        item(image_post("at://p/3", "b3")),
    ];
    run.on_event(FetchEvent::Page { items, cursor: Some("c".to_string()) });
    assert_eq!(run.next_request().page_size, 4);
    let big = FetchRun::new(FetchMode::Likes, 500, 0, None);
    assert_eq!(big.next_request().page_size, 100);
}

#[test]
fn test_retry_count_resets_after_accepted_page() {
    let mut run = FetchRun::new(FetchMode::Likes, 0, 0, None);
    for _ in 0..5 {
        run.on_event(FetchEvent::RateLimited);
    }
    let items = vec![item(image_post("at://p/1", "b1"))];
    run.on_event(FetchEvent::Page { items, cursor: Some("c".to_string()) });
    assert_eq!(run.retry_count, 0);
    // The retry budget is fresh again for the next page.
    match run.on_event(FetchEvent::RateLimited) {
        FetchDirective::Retry { wait_ms } => assert_eq!(wait_ms, 2000),
        _ => panic!("expected a retry directive"),
    }
}
