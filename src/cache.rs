//! The decisions of the caching decorator (cache-aside, invalidate on write).
//!
//! The decorator talks to two outside parties, the cache backend and the inner
//! store. The caller of these functions performs those calls and hands each
//! answer in; the functions here decide what the answer means and what to do
//! next. A read first asks the cache ([`cached_posts`], [`cached_post`]); on a
//! miss it asks the store and then [`finish_list`] / [`finish_get`] say what to
//! write back. A write asks the store first, then [`finish_write`] says which
//! keys to delete.

use vstd::prelude::*;
use crate::codec::{
    decode_post, decode_post_entry, decode_posts, decode_posts_entry, encode_post, encode_posts,
    fits, post_text, posts_text,
};
use crate::keys::{collection_key, item_key, item_key_of, posts_key};
use crate::post::{posts_view, Post, PostError, PostView};

verus! {

/// How long, in seconds, a cache entry lives.
pub const ENTRY_TTL_SECONDS: u64 = 300;

/// A best-effort write of one cache entry with an expiry.
pub struct CacheWrite {
    pub key: String,
    pub value: String,
    pub ttl_seconds: u64,
}

/// A write that was handed to the store.
#[derive(Clone, Copy, Debug, PartialEq, Eq)]
pub enum WriteOp {
    Create,
    Update(u128),
    Delete(u128),
}

/// The text of a cache answer, `None` for a miss or a failed call.
pub open spec fn entry_text(entry: Option<String>) -> Option<Seq<char>> {
    match entry {
        Some(t) => Some(t@),
        None => None,
    }
}

/// The collection that a cache answer holds; a miss or undecodable text is `None`.
pub open spec fn cached_collection(entry: Option<Seq<char>>) -> Option<Seq<PostView>> {
    match entry {
        Some(t) => decode_posts(t),
        None => None,
    }
}

/// The record that a cache answer holds; a miss or undecodable text is `None`.
pub open spec fn cached_record(entry: Option<Seq<char>>) -> Option<PostView> {
    match entry {
        Some(t) => decode_post(t),
        None => None,
    }
}

/// The keys that a successful write removes from the cache.
pub open spec fn invalidation_keys(op: WriteOp) -> Seq<Seq<char>> {
    match op {
        WriteOp::Create => seq![collection_key()],
        WriteOp::Update(id) => seq![collection_key(), item_key_of(id)],
        WriteOp::Delete(id) => seq![collection_key(), item_key_of(id)],
    }
}

pub open spec fn keys_view(keys: Seq<String>) -> Seq<Seq<char>> {
    keys.map_values(|k: String| k@)
}

/// Reads a cached collection: `Some` is a hit, to be returned without asking
/// the store; `None` (miss, failed call, or text that does not decode) sends
/// the read on to the store.
pub fn cached_posts(entry: Option<String>) -> (r: Option<Vec<Post>>)
    ensures
        match cached_collection(entry_text(entry)) {
            Some(ps) => r is Some && posts_view(r->0@) == ps,
            None => r is None,
        },
{
    match entry {
        Some(text) => decode_posts_entry(text.as_str()),
        None => None,
    }
}

/// Reads a cached record, as [`cached_posts`] does for the collection.
pub fn cached_post(entry: Option<String>) -> (r: Option<Post>)
    ensures
        match cached_record(entry_text(entry)) {
            Some(p) => r is Some && r->0@ == p,
            None => r is None,
        },
{
    match entry {
        Some(text) => decode_post_entry(text.as_str()),
        None => None,
    }
}

/// The entry that caches a collection read from the store.
pub fn posts_entry(posts: &Vec<Post>) -> (w: CacheWrite)
    ensures
        w.key@ == collection_key(),
        w.value@ == posts_text(posts_view(posts@)),
        w.ttl_seconds == ENTRY_TTL_SECONDS,
        forall|i: int| 0 <= i < posts@.len() ==> fits(#[trigger] posts_view(posts@)[i]),
{
    CacheWrite { key: posts_key(), value: encode_posts(posts), ttl_seconds: ENTRY_TTL_SECONDS }
}

/// The entry that caches a record read from the store, under its own key.
pub fn post_entry(post: &Post) -> (w: CacheWrite)
    ensures
        w.key@ == item_key_of(post.id),
        w.value@ == post_text(post@),
        w.ttl_seconds == ENTRY_TTL_SECONDS,
        fits(post@),
{
    CacheWrite { key: item_key(post.id), value: encode_post(post), ttl_seconds: ENTRY_TTL_SECONDS }
}

/// After a collection read missed the cache and went to the store: the
/// store's answer is returned as it is, and only a success is written back.
pub fn finish_list(result: Result<Vec<Post>, PostError>) -> (r: (
    Result<Vec<Post>, PostError>,
    Option<CacheWrite>,
))
    ensures
        r.0 == result,
        match result {
            Ok(ps) => match r.1 {
                Some(w) => w.key@ == collection_key() && w.value@ == posts_text(posts_view(ps@))
                    && w.ttl_seconds == ENTRY_TTL_SECONDS,
                None => false,
            },
            Err(_) => r.1 is None,
        },
{
    match result {
        Ok(posts) => {
            let w = posts_entry(&posts);
            (Ok(posts), Some(w))
        },
        Err(e) => (Err(e), None),
    }
}

/// After a record read missed the cache and went to the store, as
/// [`finish_list`] does for the collection.
pub fn finish_get(result: Result<Post, PostError>) -> (r: (Result<Post, PostError>, Option<CacheWrite>))
    ensures
        r.0 == result,
        match result {
            Ok(p) => match r.1 {
                Some(w) => w.key@ == item_key_of(p.id) && w.value@ == post_text(p@)
                    && w.ttl_seconds == ENTRY_TTL_SECONDS,
                None => false,
            },
            Err(_) => r.1 is None,
        },
{
    match result {
        Ok(post) => {
            let w = post_entry(&post);
            (Ok(post), Some(w))
        },
        Err(e) => (Err(e), None),
    }
}

/// The keys that a successful write invalidates: the collection always, and
/// the record's own key for an update or a delete.
pub fn write_invalidations(op: WriteOp) -> (keys: Vec<String>)
    ensures
        keys_view(keys@) == invalidation_keys(op),
{
    let mut keys: Vec<String> = Vec::new();
    keys.push(posts_key());
    match op {
        WriteOp::Create => {},
        WriteOp::Update(id) => keys.push(item_key(id)),
        WriteOp::Delete(id) => keys.push(item_key(id)),
    }
    assert(keys_view(keys@) =~= invalidation_keys(op));
    keys
}

/// After the store answered a write: its answer is returned as it is; a
/// success invalidates the affected keys, a failure touches no key.
pub fn finish_write<T>(op: WriteOp, result: Result<T, PostError>) -> (r: (
    Result<T, PostError>,
    Vec<String>,
))
    ensures
        r.0 == result,
        result is Ok ==> keys_view(r.1@) == invalidation_keys(op),
        result is Err ==> r.1@.len() == 0,
{
    match result {
        Ok(v) => (Ok(v), write_invalidations(op)),
        Err(e) => (Err(e), Vec::new()),
    }
}

} // verus!
