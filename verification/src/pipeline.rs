//! The pipeline orchestrator: from a post's raw source text to its
//! rendered result, through parsing, the rewrite pass, re-serializing
//! and final compilation, with the render cache in front.
//!
//! Every engine in the chain is deterministic, so the whole render is
//! a function of the source text alone: `spec_render` below says
//! which, over the engines' named results, and `render_post` is
//! proved to return exactly that.
use vstd::prelude::*;

verus! {

use vstd::string::StringExecFns;
use crate::cache::CachedPost;
use crate::cache::Post;
use crate::cache::PostCache;
use crate::cache::fresh_at;
use crate::errors::PostLoadError;
use crate::id::PostId;
use crate::mdast::explode;
use crate::mdast::html_of;
use crate::mdast::implode;
use crate::mdast::joined_of;
use crate::mdast::markdown_of;
use crate::mdast::md_doc_of;
use crate::mdast::md_to_html;
use crate::mdast::md_to_tree;
use crate::mdast::split_of;
use crate::mdast::tree_to_markdown;
use crate::mdast::view_of;
use crate::rewrite::RewriteState;
use crate::rewrite::initial_mstate;
use crate::rewrite::meta_matches;
use crate::rewrite::mstate_of;
use crate::rewrite::preprocess;
use crate::rewrite::rw_err_matches;
use crate::rewrite::rw_node;

/// How retrieving the source document failed: the document does not
/// exist, or reading it failed for another reason.
#[derive(Clone, Copy, Debug, PartialEq, Eq, Structural)]
pub enum SourceError {
    NotFound,
    Io,
}

/// What rendering a source text yields, for every source text: the
/// parse, the walk over the parsed tree from the empty state, the
/// re-serialization and the final compilation, each step's first
/// failure mapped to its error. On full success the markup is pinned
/// exactly; the metadata record is pinned by the metadata block the
/// walk accepted.
pub open spec fn spec_render(raw: Seq<char>, r: Result<Post, PostLoadError>) -> bool {
    match md_doc_of(raw) {
        Err(e) => r matches Err(PostLoadError::MarkdownParseFailed(d)) && d@ == e@,
        Ok(root) => match rw_node(split_of(root), initial_mstate()) {
            Err(f) => r matches Err(e2) && rw_err_matches(e2, f),
            Ok(p) => match p.0 {
                None => r matches Err(PostLoadError::MarkdownParseFailed(d)) && d@
                    == "preprocess returned no root element"@,
                Some(v2) => match p.1.meta {
                    None => r matches Err(e2) && e2 is NoMetadata,
                    Some(ms) => match markdown_of(joined_of(v2)) {
                        Err(e) => r matches Err(PostLoadError::MarkdownParseFailed(d)) && d@
                            == e@,
                        Ok(s) => match html_of(s@) {
                            Err(e) => r matches Err(PostLoadError::MarkdownParseFailed(d)) && d@
                                == e@,
                            Ok(h) => r matches Ok(post) && post.html@ == h@ && meta_matches(
                                ms,
                                post.metadata,
                            ),
                        },
                    },
                },
            },
        },
    }
}

/// Renders a post from its raw source text: parse, rewrite,
/// re-serialize, compile. No partial result: the outcome is exactly
/// `spec_render` of the text — success is owed whenever every step
/// accepts.
#[verifier::rlimit(60)]
pub fn render_post(raw: &str) -> (r: Result<Post, PostLoadError>)
    ensures
        spec_render(raw@, r),
        r matches Err(e) ==> !(e is InvalidId) && !(e is NotFound),
{
    let root = match md_to_tree(raw) {
        Ok(n) => n,
        Err(reason) => {
            return Err(PostLoadError::MarkdownParseFailed(reason));
        },
    };
    let t = explode(root);
    let mut state = RewriteState::new();
    proof {
        assert(mstate_of(state) =~= initial_mstate());
    }
    let rewritten = match preprocess(t, &mut state) {
        Ok(o) => o,
        Err(e) => {
            return Err(e);
        },
    };
    let t2 = match rewritten {
        Some(t2) => t2,
        None => {
            return Err(
                PostLoadError::MarkdownParseFailed(
                    String::from_str("preprocess returned no root element"),
                ),
            );
        },
    };
    let metadata = match state.metadata {
        Some(m) => m,
        None => {
            return Err(PostLoadError::NoMetadata);
        },
    };
    let serialized = match tree_to_markdown(&implode(t2)) {
        Ok(s) => s,
        Err(reason) => {
            return Err(PostLoadError::MarkdownParseFailed(reason));
        },
    };
    let html = match md_to_html(serialized.as_str()) {
        Ok(h) => h,
        Err(reason) => {
            return Err(PostLoadError::MarkdownParseFailed(reason));
        },
    };
    Ok(Post { html, metadata })
}

/// An entry for the number answers at `now_ms`.
pub open spec fn cache_hit(
    c: Map<usize, CachedPost>,
    number: usize,
    now_ms: u64,
    dev_mode: bool,
) -> bool {
    c.contains_key(number) && fresh_at(c[number], now_ms, dev_mode)
}

/// Loads a post's rendered content. A fresh cache entry for the
/// number answers as it stands, whatever the source now holds; on a
/// miss a readable source is rendered — to exactly `spec_render` of
/// its current text — and, on success, stored under `now_ms`. A
/// missing document and a failed read keep the cache unchanged, as
/// does any render failure.
pub fn load_post_content(
    cache: &mut PostCache,
    id: &PostId,
    source: Result<String, SourceError>,
    now_ms: u64,
    dev_mode: bool,
) -> (r: Result<Post, PostLoadError>)
    ensures
        cache_hit(old(cache)@, id.number, now_ms, dev_mode) ==> (r matches Ok(p)
            && p == old(cache)@[id.number].post && final(cache)@ == old(cache)@),
        !cache_hit(old(cache)@, id.number, now_ms, dev_mode) ==> match source {
            Err(SourceError::NotFound) => r == Err::<Post, _>(PostLoadError::NotFound)
                && final(cache)@ == old(cache)@,
            Err(SourceError::Io) => r == Err::<Post, _>(PostLoadError::Unknown)
                && final(cache)@ == old(cache)@,
            Ok(raw) => spec_render(raw@, r) && ((r matches Ok(p) ==> final(cache)@ == old(
                cache,
            )@.insert(id.number, CachedPost { post: p, last_update: now_ms })) && (r is Err
                ==> final(cache)@ == old(cache)@)),
        },
{
    if let Some(post) = cache.lookup(id.number, now_ms, dev_mode) {
        return Ok(post);
    }
    let raw = match source {
        Ok(raw) => raw,
        Err(SourceError::NotFound) => {
            return Err(PostLoadError::NotFound);
        },
        Err(SourceError::Io) => {
            return Err(PostLoadError::Unknown);
        },
    };
    match render_post(raw.as_str()) {
        Ok(post) => {
            cache.store(id.number, &post, now_ms);
            Ok(post)
        },
        Err(e) => Err(e),
    }
}

} // verus!
