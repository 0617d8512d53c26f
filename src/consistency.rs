//! A model of the cache as a map from keys to entry texts, and the
//! consistency laws of the decorator stated over it.
//!
//! The model follows the decisions in `cache`: a read answers from the entry
//! when it decodes and from the store otherwise, and fills the entry only after
//! a successful store read; a write removes `invalidation_keys` only when the
//! store succeeded. A cache that fails every call is the empty map that
//! ignores writes.

use vstd::prelude::*;
use crate::cache::{cached_collection, cached_record, invalidation_keys, WriteOp};
use crate::codec::{fits, lemma_post_round_trip, lemma_posts_round_trip, post_text, posts_text};
use crate::keys::{collection_key, item_key_of, lemma_keys_distinct};
use crate::post::{PostError, PostView};

verus! {

/// What the cache holds: entry text by key (expired entries are absent).
pub type CacheImage = Map<Seq<char>, Seq<char>>;

pub open spec fn lookup(c: CacheImage, key: Seq<char>) -> Option<Seq<char>> {
    if c.contains_key(key) {
        Some(c[key])
    } else {
        None
    }
}

/// The answer of `list`, given the cache and what the store would answer.
pub open spec fn list_answer(c: CacheImage, store: Result<Seq<PostView>, PostError>) -> Result<
    Seq<PostView>,
    PostError,
> {
    match cached_collection(lookup(c, collection_key())) {
        Some(ps) => Ok(ps),
        None => store,
    }
}

/// The answer of `get(id)`, given the cache and what the store would answer.
pub open spec fn get_answer(c: CacheImage, id: u128, store: Result<PostView, PostError>) -> Result<
    PostView,
    PostError,
> {
    match cached_record(lookup(c, item_key_of(id))) {
        Some(p) => Ok(p),
        None => store,
    }
}

/// The cache after `get(id)`: a miss answered by the store fills the entry.
pub open spec fn get_fill(c: CacheImage, id: u128, store: Result<PostView, PostError>) -> CacheImage {
    match cached_record(lookup(c, item_key_of(id))) {
        Some(_) => c,
        None => match store {
            Ok(p) => c.insert(item_key_of(p.id), post_text(p)),
            Err(_) => c,
        },
    }
}

/// The cache after `list`, as [`get_fill`] for the collection.
pub open spec fn list_fill(c: CacheImage, store: Result<Seq<PostView>, PostError>) -> CacheImage {
    match cached_collection(lookup(c, collection_key())) {
        Some(_) => c,
        None => match store {
            Ok(ps) => c.insert(collection_key(), posts_text(ps)),
            Err(_) => c,
        },
    }
}

/// The cache after removing `keys`.
pub open spec fn invalidate(c: CacheImage, keys: Seq<Seq<char>>) -> CacheImage
    decreases keys.len(),
{
    if keys.len() == 0 {
        c
    } else {
        invalidate(c, keys.drop_last()).remove(keys.last())
    }
}

/// The cache after a write whose store call succeeded (`ok`) or failed.
pub open spec fn after_write(c: CacheImage, op: WriteOp, ok: bool) -> CacheImage {
    if ok {
        invalidate(c, invalidation_keys(op))
    } else {
        c
    }
}

/// The cache after a sequence of writes, each with whether the store took it.
pub open spec fn after_writes(c: CacheImage, writes: Seq<(WriteOp, bool)>) -> CacheImage
    decreases writes.len(),
{
    if writes.len() == 0 {
        c
    } else {
        after_write(after_writes(c, writes.drop_last()), writes.last().0, writes.last().1)
    }
}

/// Whether a write targets the record `id`.
pub open spec fn touches(op: WriteOp, id: u128) -> bool {
    op == WriteOp::Update(id) || op == WriteOp::Delete(id)
}

proof fn lemma_invalidate(c: CacheImage, keys: Seq<Seq<char>>)
    ensures
        forall|k: Seq<char>| #[trigger] invalidate(c, keys).contains_key(k) ==> c.contains_key(k),
        forall|k: Seq<char>| keys.contains(k) ==> !(#[trigger] invalidate(c, keys).contains_key(k)),
    decreases keys.len(),
{
    if keys.len() > 0 {
        let prev = keys.drop_last();
        lemma_invalidate(c, prev);
        let before = invalidate(c, prev);
        assert(invalidate(c, keys) == before.remove(keys.last()));
        assert forall|k: Seq<char>| #[trigger] invalidate(c, keys).contains_key(k) implies c.contains_key(k) by {
            assert(before.contains_key(k));
        }
        assert forall|k: Seq<char>| keys.contains(k) implies !(#[trigger] invalidate(
            c,
            keys,
        ).contains_key(k)) by {
            if k != keys.last() {
                let i = choose|i: int| 0 <= i < keys.len() && keys[i] == k;
                assert(prev[i] == k);
                assert(prev.contains(k));
                assert(!before.contains_key(k));
            }
        }
    }
}

proof fn lemma_after_writes_shrinks(c: CacheImage, writes: Seq<(WriteOp, bool)>)
    ensures
        forall|k: Seq<char>| #[trigger] after_writes(c, writes).contains_key(k) ==> c.contains_key(k),
    decreases writes.len(),
{
    if writes.len() > 0 {
        lemma_after_writes_shrinks(c, writes.drop_last());
        let w = writes.last();
        lemma_invalidate(after_writes(c, writes.drop_last()), invalidation_keys(w.0));
    }
}

/// After a sequence of writes of which at least one to `id` succeeded, no
/// entry for `id` is left, so `get(id)` answers what the store answers now.
pub proof fn law_get_after_writes(
    c: CacheImage,
    id: u128,
    writes: Seq<(WriteOp, bool)>,
    store: Result<PostView, PostError>,
)
    requires
        exists|i: int| 0 <= i < writes.len() && #[trigger] touches(writes[i].0, id) && writes[i].1,
    ensures
        !after_writes(c, writes).contains_key(item_key_of(id)),
        get_answer(after_writes(c, writes), id, store) == store,
    decreases writes.len(),
{
    let w = writes.last();
    let before = after_writes(c, writes.drop_last());
    lemma_invalidate(before, invalidation_keys(w.0));
    if touches(w.0, id) && w.1 {
        assert(invalidation_keys(w.0)[1] == item_key_of(id));
    } else {
        let i = choose|i: int| 0 <= i < writes.len() && #[trigger] touches(writes[i].0, id) && writes[i].1;
        assert(i < writes.len() - 1);
        assert(writes.drop_last()[i] == writes[i]);
        law_get_after_writes(c, id, writes.drop_last(), store);
    }
}

/// A successful `create` removes the collection entry, so a `list` right after
/// it answers from the store, which holds the new record.
pub proof fn law_list_after_create(c: CacheImage, created: PostView, listing: Seq<PostView>)
    requires
        listing.contains(created),
    ensures
        list_answer(after_write(c, WriteOp::Create, true), Ok(listing)) == Ok::<
            Seq<PostView>,
            PostError,
        >(listing),
{
    lemma_invalidate(c, invalidation_keys(WriteOp::Create));
    assert(invalidation_keys(WriteOp::Create)[0] == collection_key());
}

/// A write that the store refused leaves every cache entry as it was.
pub proof fn law_failed_write_keeps_cache(c: CacheImage, op: WriteOp)
    ensures
        after_write(c, op, false) == c,
        invalidate(c, Seq::empty()) == c,
{
}

/// With a cache that fails every call (every lookup misses, every write is
/// lost), reads answer exactly what the store answers.
pub proof fn law_cache_outage(
    id: u128,
    listing: Result<Seq<PostView>, PostError>,
    record: Result<PostView, PostError>,
)
    ensures
        list_answer(Map::empty(), listing) == listing,
        get_answer(Map::empty(), id, record) == record,
{
}

/// A record written under its item key is read back unchanged, and a
/// collection written under the collection key likewise.
pub proof fn law_entry_round_trip(c: CacheImage, p: PostView, ps: Seq<PostView>, store: Result<PostView, PostError>)
    requires
        fits(p),
        ps.len() <= usize::MAX,
        forall|i: int| 0 <= i < ps.len() ==> fits(#[trigger] ps[i]),
    ensures
        get_answer(c.insert(item_key_of(p.id), post_text(p)), p.id, store) == Ok::<PostView, PostError>(p),
        list_answer(c.insert(collection_key(), posts_text(ps)), Err(PostError::NotFound)) == Ok::<
            Seq<PostView>,
            PostError,
        >(ps),
{
    lemma_post_round_trip(p);
    lemma_posts_round_trip(ps);
}

/// A read that missed and was answered by the store leaves an entry from
/// which the next read is served with the same value, and it leaves the
/// other kind of entry as it was.
pub proof fn law_read_fills_entry(c: CacheImage, id: u128, p: PostView, ps: Seq<PostView>)
    requires
        fits(p),
        p.id == id,
        ps.len() <= usize::MAX,
        forall|i: int| 0 <= i < ps.len() ==> fits(#[trigger] ps[i]),
        cached_record(lookup(c, item_key_of(id))) is None,
        cached_collection(lookup(c, collection_key())) is None,
    ensures
        get_answer(get_fill(c, id, Ok(p)), id, Err(PostError::NotFound)) == Ok::<PostView, PostError>(p),
        lookup(get_fill(c, id, Ok(p)), collection_key()) == lookup(c, collection_key()),
        list_answer(list_fill(c, Ok(ps)), Err(PostError::NotFound)) == Ok::<Seq<PostView>, PostError>(ps),
        lookup(list_fill(c, Ok(ps)), item_key_of(id)) == lookup(c, item_key_of(id)),
{
    lemma_post_round_trip(p);
    lemma_posts_round_trip(ps);
    lemma_keys_distinct(id, id);
}

} // verus!
