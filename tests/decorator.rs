use post_cache::cache::{
    cached_post, cached_posts, finish_get, finish_list, finish_write, post_entry, posts_entry,
    write_invalidations, CacheWrite, WriteOp, ENTRY_TTL_SECONDS,
};
use post_cache::keys::{item_key, posts_key};
use post_cache::post::{Post, PostDto, PostError};
use std::collections::HashMap;

struct MemStore {
    posts: Vec<Post>,
    next_id: u128,
    calls: usize,
    broken: bool,
}

impl MemStore {
    fn new() -> MemStore {
        MemStore { posts: Vec::new(), next_id: 1, calls: 0, broken: false }
    }

    fn fail_if_broken(&mut self) -> Result<(), PostError> {
        self.calls += 1;
        if self.broken {
            Err(PostError::StoreFailure("connection refused".to_string()))
        } else {
            Ok(())
        }
    }

    fn list(&mut self) -> Result<Vec<Post>, PostError> {
        self.fail_if_broken()?;
        Ok(self.posts.clone())
    }

    fn get(&mut self, id: u128) -> Result<Post, PostError> {
        self.fail_if_broken()?;
        self.posts.iter().find(|p| p.id == id).cloned().ok_or(PostError::NotFound)
    }

    fn create(&mut self, dto: PostDto) -> Result<Post, PostError> {
        self.fail_if_broken()?;
        if dto.title.is_empty() {
            return Err(PostError::InvalidInput);
        }
        let post = Post {
            id: self.next_id,
            title: dto.title,
            content: dto.content,
            created_at: 1_700_000_000_000_000 + self.next_id as i64,
        };
        self.next_id += 1;
        self.posts.push(post.clone());
        Ok(post)
    }

    fn update(&mut self, id: u128, dto: PostDto) -> Result<Post, PostError> {
        self.fail_if_broken()?;
        let p = self.posts.iter_mut().find(|p| p.id == id).ok_or(PostError::NotFound)?;
        p.title = dto.title;
        p.content = dto.content;
        Ok(p.clone())
    }

    fn delete(&mut self, id: u128) -> Result<(), PostError> {
        self.fail_if_broken()?;
        let before = self.posts.len();
        self.posts.retain(|p| p.id != id);
        if self.posts.len() == before {
            Err(PostError::NotFound)
        } else {
            Ok(())
        }
    }
}

struct MemCache {
    entries: HashMap<String, String>,
    down: bool,
    mutations: usize,
}

impl MemCache {
    fn new() -> MemCache {
        MemCache { entries: HashMap::new(), down: false, mutations: 0 }
    }

    fn get(&self, key: &str) -> Option<String> {
        if self.down {
            None
        } else {
            self.entries.get(key).cloned()
        }
    }

    fn set(&mut self, w: CacheWrite) {
        assert_eq!(w.ttl_seconds, ENTRY_TTL_SECONDS);
        self.mutations += 1;
        if !self.down {
            self.entries.insert(w.key, w.value);
        }
    }

    fn del(&mut self, keys: Vec<String>) {
        for k in keys {
            self.mutations += 1;
            if !self.down {
                self.entries.remove(&k);
            }
        }
    }
}

struct Cached {
    store: MemStore,
    cache: MemCache,
}

impl Cached {
    fn new() -> Cached {
        Cached { store: MemStore::new(), cache: MemCache::new() }
    }

    fn list(&mut self) -> Result<Vec<Post>, PostError> {
        if let Some(posts) = cached_posts(self.cache.get(&posts_key())) {
            return Ok(posts);
        }
        let (r, w) = finish_list(self.store.list());
        if let Some(w) = w {
            self.cache.set(w);
        }
        r
    }

    fn get(&mut self, id: u128) -> Result<Post, PostError> {
        if let Some(post) = cached_post(self.cache.get(&item_key(id))) {
            return Ok(post);
        }
        let (r, w) = finish_get(self.store.get(id));
        if let Some(w) = w {
            self.cache.set(w);
        }
        r
    }

    fn create(&mut self, title: &str, content: &str) -> Result<Post, PostError> {
        let dto = PostDto { title: title.to_string(), content: content.to_string() };
        let (r, keys) = finish_write(WriteOp::Create, self.store.create(dto));
        self.cache.del(keys);
        r
    }

    fn update(&mut self, id: u128, title: &str, content: &str) -> Result<Post, PostError> {
        let dto = PostDto { title: title.to_string(), content: content.to_string() };
        let (r, keys) = finish_write(WriteOp::Update(id), self.store.update(id, dto));
        self.cache.del(keys);
        r
    }

    fn delete(&mut self, id: u128) -> Result<(), PostError> {
        let (r, keys) = finish_write(WriteOp::Delete(id), self.store.delete(id));
        self.cache.del(keys);
        r
    }
}

#[test]
fn update_invalidates_item_and_collection() {
    let mut c = Cached::new();
    let r1 = c.create("A", "body1").unwrap();
    assert_eq!(c.get(r1.id).unwrap(), r1);
    assert!(c.cache.entries.contains_key(&item_key(r1.id)));
    c.list().unwrap();
    assert!(c.cache.entries.contains_key(&posts_key()));
    let updated = c.update(r1.id, "B", "body2").unwrap();
    assert_eq!(updated.title, "B");
    assert!(!c.cache.entries.contains_key(&item_key(r1.id)));
    assert!(!c.cache.entries.contains_key(&posts_key()));
    let again = c.get(r1.id).unwrap();
    assert_eq!(again.title, "B");
    assert_eq!(again.content, "body2");
    assert_eq!(again.created_at, r1.created_at);
}

#[test]
fn empty_list_is_cached_and_served_without_store() {
    let mut c = Cached::new();
    assert_eq!(c.list().unwrap(), Vec::<Post>::new());
    assert!(c.cache.entries.contains_key(&posts_key()));
    assert_eq!(c.store.calls, 1);
    assert_eq!(c.list().unwrap(), Vec::<Post>::new());
    assert_eq!(c.store.calls, 1);
}

#[test]
fn delete_of_missing_record_touches_no_cache_key() {
    let mut c = Cached::new();
    let r = c.create("A", "x").unwrap();
    c.list().unwrap();
    c.get(r.id).unwrap();
    let before = c.cache.entries.clone();
    let mutations = c.cache.mutations;
    assert_eq!(c.delete(r.id + 1000), Err(PostError::NotFound));
    assert_eq!(c.cache.mutations, mutations);
    assert_eq!(c.cache.entries, before);
}

#[test]
fn create_then_list_contains_new_record() {
    let mut c = Cached::new();
    c.create("first", "1").unwrap();
    assert_eq!(c.list().unwrap().len(), 1);
    let second = c.create("second", "2").unwrap();
    let listed = c.list().unwrap();
    assert_eq!(listed.len(), 2);
    assert!(listed.contains(&second));
}

#[test]
fn get_after_many_writes_sees_last_write() {
    let mut c = Cached::new();
    let r = c.create("v0", "c0").unwrap();
    for i in 1..5 {
        c.get(r.id).unwrap();
        c.update(r.id, &format!("v{}", i), "c").unwrap();
    }
    assert_eq!(c.get(r.id).unwrap().title, "v4");
    c.delete(r.id).unwrap();
    assert_eq!(c.get(r.id), Err(PostError::NotFound));
}

#[test]
fn failed_write_keeps_entries() {
    let mut c = Cached::new();
    let r = c.create("A", "x").unwrap();
    c.list().unwrap();
    c.get(r.id).unwrap();
    let before = c.cache.entries.clone();
    c.store.broken = true;
    assert!(matches!(c.update(r.id, "B", "y"), Err(PostError::StoreFailure(_))));
    assert!(matches!(c.delete(r.id), Err(PostError::StoreFailure(_))));
    assert!(matches!(c.create("C", "z"), Err(PostError::StoreFailure(_))));
    assert_eq!(c.cache.entries, before);
    assert_eq!(c.get(r.id).unwrap(), r);
}

#[test]
fn store_errors_are_passed_through_and_not_cached() {
    let mut c = Cached::new();
    c.store.broken = true;
    assert_eq!(c.list(), Err(PostError::StoreFailure("connection refused".to_string())));
    assert_eq!(c.get(7), Err(PostError::StoreFailure("connection refused".to_string())));
    assert!(c.cache.entries.is_empty());
    c.store.broken = false;
    assert_eq!(c.get(7), Err(PostError::NotFound));
    assert!(c.cache.entries.is_empty());
}

#[test]
fn cache_outage_does_not_change_results() {
    let mut c = Cached::new();
    c.cache.down = true;
    let r = c.create("A", "body").unwrap();
    assert_eq!(c.list().unwrap(), vec![r.clone()]);
    assert_eq!(c.get(r.id).unwrap(), r);
    let u = c.update(r.id, "B", "body2").unwrap();
    assert_eq!(c.get(r.id).unwrap(), u);
    c.delete(r.id).unwrap();
    assert_eq!(c.list().unwrap(), Vec::<Post>::new());
    assert!(c.cache.entries.is_empty());
    assert_eq!(c.store.calls, 7);
}

#[test]
fn undecodable_entry_is_a_miss() {
    let mut c = Cached::new();
    let r = c.create("A", "x").unwrap();
    c.cache.entries.insert(item_key(r.id), "not an entry".to_string());
    c.cache.entries.insert(posts_key(), "{\"broken\"".to_string());
    assert_eq!(c.get(r.id).unwrap(), r);
    assert_eq!(c.list().unwrap(), vec![r.clone()]);
    assert_eq!(c.store.calls, 3);
    assert_eq!(cached_post(Some(String::new())), None);
    assert_eq!(cached_posts(None), None);
}

#[test]
fn invalidation_keys_per_write() {
    assert_eq!(write_invalidations(WriteOp::Create), vec!["posts".to_string()]);
    assert_eq!(
        write_invalidations(WriteOp::Update(5)),
        vec!["posts".to_string(), "post:00000000-0000-0000-0000-000000000005".to_string()]
    );
    assert_eq!(
        write_invalidations(WriteOp::Delete(5)),
        vec!["posts".to_string(), "post:00000000-0000-0000-0000-000000000005".to_string()]
    );
    let (r, keys) = finish_write::<()>(WriteOp::Delete(5), Err(PostError::NotFound));
    assert_eq!(r, Err(PostError::NotFound));
    assert!(keys.is_empty());
}

#[test]
fn entries_have_expected_keys_and_ttl() {
    let p = Post { id: 0xff, title: "t".to_string(), content: "c".to_string(), created_at: -1 };
    let w = post_entry(&p);
    assert_eq!(w.key, "post:00000000-0000-0000-0000-0000000000ff");
    assert_eq!(w.ttl_seconds, 300);
    assert_eq!(cached_post(Some(w.value)), Some(p.clone()));
    let w = posts_entry(&vec![p.clone()]);
    assert_eq!(w.key, "posts");
    assert_eq!(cached_posts(Some(w.value)), Some(vec![p]));
}
