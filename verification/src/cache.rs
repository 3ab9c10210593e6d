//! The render cache: the most recent render per post number, with a
//! timestamp, served as a hit only within the freshness window. In
//! development mode every lookup is a miss, so each request re-renders.
//!
//! An entry keeps the whole render — the markup and the metadata
//! record — so a hit answers a request completely, without touching
//! the source document again.
use vstd::prelude::*;

verus! {

broadcast use vstd::std_specs::hash::group_hash_axioms;

use crate::meta::PostMetadata;

/// The externally visible render result.
#[derive(Clone, Debug)]
pub struct Post {
    pub html: String,
    pub metadata: PostMetadata,
}

impl Post {
    /// An equal copy, field by field.
    pub fn duplicate(&self) -> (r: Post)
        ensures
            r == *self,
    {
        Post {
            html: self.html.clone(),
            metadata: PostMetadata {
                title: self.metadata.title.clone(),
                author: self.metadata.author.clone(),
                description: self.metadata.description.clone(),
                date: self.metadata.date,
            },
        }
    }
}

/// A cached render with the time it was stored, in milliseconds.
pub struct CachedPost {
    pub post: Post,
    pub last_update: u64,
}

/// How long a cached render is served, in milliseconds: twelve hours.
pub const CACHE_TTL_MS: u64 = 43200000;

/// A stored render answers a lookup: never in development mode, and
/// otherwise only before its freshness window closes.
pub open spec fn fresh_at(entry: CachedPost, now_ms: u64, dev_mode: bool) -> bool {
    !dev_mode && now_ms < entry.last_update + CACHE_TTL_MS
}

/// The render cache, keyed by post number.
pub struct PostCache {
    entries: std::collections::HashMap<usize, CachedPost>,
}

impl View for PostCache {
    type V = Map<usize, CachedPost>;

    closed spec fn view(&self) -> Map<usize, CachedPost> {
        self.entries@
    }
}

impl PostCache {
    pub fn new() -> (r: PostCache)
        ensures
            r@ == Map::<usize, CachedPost>::empty(),
    {
        PostCache { entries: std::collections::HashMap::new() }
    }

    /// Serves a hit: the stored render, exactly when an entry for the
    /// number exists and is fresh at `now_ms`.
    pub fn lookup(&self, number: usize, now_ms: u64, dev_mode: bool) -> (r: Option<Post>)
        ensures
            r matches Some(p) ==> self@.contains_key(number) && p == self@[number].post
                && fresh_at(self@[number], now_ms, dev_mode),
            r is None ==> !self@.contains_key(number) || !fresh_at(
                self@[number],
                now_ms,
                dev_mode,
            ),
    {
        if dev_mode {
            return None;
        }
        match self.entries.get(&number) {
            Some(entry) => {
                let fresh = match entry.last_update.checked_add(CACHE_TTL_MS) {
                    Some(expires) => now_ms < expires,
                    None => true,
                };
                if fresh {
                    Some(entry.post.duplicate())
                } else {
                    None
                }
            },
            None => None,
        }
    }

    /// Stores a render under the number, stamped `now_ms`,
    /// overwriting any earlier entry.
    pub fn store(&mut self, number: usize, post: &Post, now_ms: u64)
        ensures
            final(self)@ == old(self)@.insert(
                number,
                CachedPost { post: *post, last_update: now_ms },
            ),
    {
        self.entries.insert(number, CachedPost { post: post.duplicate(), last_update: now_ms });
    }
}

} // verus!
