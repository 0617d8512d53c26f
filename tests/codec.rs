use post_cache::codec::{decode_post_entry, decode_posts_entry, encode_post, encode_posts};
use post_cache::keys::{item_key, posts_key};
use post_cache::post::Post;

fn sample(id: u128, title: &str, content: &str, created_at: i64) -> Post {
    Post { id, title: title.to_string(), content: content.to_string(), created_at }
}

#[test]
fn record_encoding_is_exact() {
    let p = sample(0x12, "Hi", "yo", 0);
    let text = encode_post(&p);
    assert_eq!(
        text,
        "00000000000000000000000000000012800000000000000000000000000000020000000000000002Hiyo"
    );
}

#[test]
fn record_round_trip() {
    let p = sample(u128::MAX, "Grüße ✓", "line1\nline2 \"quoted\" {json}", i64::MIN);
    assert_eq!(decode_post_entry(&encode_post(&p)), Some(p));
    let q = sample(0, "", "", i64::MAX);
    assert_eq!(decode_post_entry(&encode_post(&q)), Some(q));
}

#[test]
fn collection_round_trip() {
    let ps = vec![sample(1, "a", "b", 10), sample(2, "ccc", "", -10), sample(3, "", "dd", 0)];
    assert_eq!(decode_posts_entry(&encode_posts(&ps)), Some(ps));
    let empty: Vec<Post> = Vec::new();
    assert_eq!(encode_posts(&empty), "0000000000000000");
    assert_eq!(decode_posts_entry("0000000000000000"), Some(empty));
}

#[test]
fn malformed_entries_are_rejected() {
    let p = sample(0xab, "title", "content", 5);
    let text = encode_post(&p);
    assert_eq!(decode_post_entry(&text[..text.len() - 1]), None);
    assert_eq!(decode_post_entry(&format!("{}x", text)), None);
    assert_eq!(decode_post_entry(&text.to_uppercase()), None);
    assert_eq!(decode_post_entry(""), None);
    assert_eq!(decode_posts_entry("0000000000000001"), None);
    assert_eq!(decode_posts_entry(&format!("0000000000000000{}", text)), None);
    assert_eq!(decode_posts_entry("zz"), None);
}

#[test]
fn keys_are_distinct() {
    assert_eq!(posts_key(), "posts");
    assert_eq!(
        item_key(0x67e5_5044_10b1_426f_9247_bb68_0e5f_e0c8),
        "post:67e55044-10b1-426f-9247-bb680e5fe0c8"
    );
    assert_ne!(item_key(1), item_key(2));
    assert_ne!(item_key(0), posts_key());
}
