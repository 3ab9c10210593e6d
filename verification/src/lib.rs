pub mod cache;
pub mod date;
pub mod errors;
pub mod footnotes;
pub mod highlight;
pub mod id;
pub mod math;
pub mod mdast;
pub mod meta;
pub mod pipeline;
pub mod rewrite;

pub use cache::Post;
pub use cache::PostCache;
pub use date::DateYmd;
pub use errors::PostLoadError;
pub use id::PostId;
pub use id::PostIdError;
pub use meta::PostMetadata;
pub use pipeline::SourceError;
pub use pipeline::load_post_content;
pub use pipeline::render_post;
