use bluesky_archiver::backoff::{next_wait_ms, should_give_up};
use bluesky_archiver::bluesky::{Author, Embed, External, Label, Post, Record, get_image_url};
use bluesky_archiver::text::{contains_substring, sanitize_timestamp, str_eq, u64_to_string};

fn post_with_labels(uri: &str, cid: &str, text: &str, labels: Vec<Label>) -> Post {
    Post {
        uri: uri.to_string(),
        cid: cid.to_string(),
        author: Author {
            did: "did:plc:test".to_string(),
            handle: "test.handle".to_string(),
            display_name: None,
        },
        record: Record {
            record_type: "app.bsky.feed.post".to_string(),
            text: Some(text.to_string()),
            embed: None,
            created_at: "2024-01-01T00:00:00Z".to_string(),
        },
        indexed_at: "2024-01-01T00:00:00Z".to_string(),
        labels: Some(labels),
    }
}

#[test]
fn test_post_has_nsfw_labels() {
    let post = post_with_labels(
        "at://test/post/1",
        "cid1",
        "Test",
        vec![Label {
            src: "did:plc:moderator".to_string(),
            uri: "at://test/post/1".to_string(),
            val: "porn".to_string(),
            created_at: "2024-01-01T00:00:00Z".to_string(),
        }],
    );
    assert!(post.has_nsfw_labels());

    let safe_post = post_with_labels("at://test/post/2", "cid2", "Safe post", vec![]);
    assert!(!safe_post.has_nsfw_labels());
}

#[test]
fn test_every_recognized_label_value() {
    for val in ["porn", "sexual", "nudity", "graphic-media", "self-harm", "sensitive",
        "content-warning"]
    {
        let p = post_with_labels("at://p", "c", "t", vec![Label {
            src: "s".to_string(),
            uri: "u".to_string(),
            val: val.to_string(),
            created_at: "d".to_string(),
        }]);
        assert!(p.has_nsfw_labels(), "{} should be recognized", val);
    }
    let other = post_with_labels("at://p", "c", "t", vec![Label {
        src: "s".to_string(),
        uri: "u".to_string(),
        val: "spoiler".to_string(),
        created_at: "d".to_string(),
    }]);
    assert!(!other.has_nsfw_labels());
}

#[test]
fn test_missing_labels_is_not_nsfw() {
    let mut p = post_with_labels("at://p", "c", "t", vec![]);
    p.labels = None;
    assert!(!p.has_nsfw_labels());
}

#[test]
fn test_quote_post_detection() {
    let mut p = post_with_labels("at://p", "c", "t", vec![]);
    p.record.embed = Some(Embed::Other { embed_type: "app.bsky.embed.record".to_string() });
    assert!(p.is_quote_post());
    p.record.embed = Some(Embed::External {
        embed_type: "app.bsky.embed.external".to_string(),
        external: External {
            uri: "https://example.com".to_string(),
            title: "Example".to_string(),
            description: "Example site".to_string(),
        },
    });
    assert!(!p.is_quote_post());
    p.record.embed = None;
    assert!(!p.is_quote_post());
}

#[test]
fn test_get_image_url() {
    let url = get_image_url("did:plc:abc", "bafyblob");
    assert_eq!(
        url,
        "https://bsky.social/xrpc/com.atproto.sync.getBlob?did=did:plc:abc&cid=bafyblob"
    );
}

#[test]
fn test_backoff_wait_doubles_per_attempt() {
    assert_eq!(next_wait_ms(0), 1000);
    assert_eq!(next_wait_ms(1), 2000);
    assert_eq!(next_wait_ms(2), 4000);
    assert_eq!(next_wait_ms(3), 8000);
    assert_eq!(next_wait_ms(4), 16000);
    assert_eq!(next_wait_ms(5), 32000);
}

#[test]
fn test_backoff_gives_up_after_budget() {
    assert!(!should_give_up(0));
    assert!(!should_give_up(5));
    assert!(should_give_up(6));
}

#[test]
fn test_sanitize_timestamp_replaces_hostile_characters() {
    assert_eq!(sanitize_timestamp("2024-01-01T12:00:00.000Z"), "2024-01-01T12-00-00-000Z");
    assert_eq!(sanitize_timestamp(""), "");
    assert_eq!(sanitize_timestamp("a:b.c"), "a-b-c");
}

#[test]
fn test_text_utilities() {
    assert!(str_eq("abc", "abc"));
    assert!(!str_eq("abc", "abd"));
    assert!(!str_eq("abc", "ab"));
    assert!(contains_substring("app.bsky.embed.recordWithMedia", "record"));
    assert!(!contains_substring("app.bsky.embed.images", "record"));
    assert!(contains_substring("anything", ""));
    assert_eq!(u64_to_string(0), "0");
    assert_eq!(u64_to_string(7), "7");
    assert_eq!(u64_to_string(120), "120");
    assert_eq!(u64_to_string(98765), "98765");
}
