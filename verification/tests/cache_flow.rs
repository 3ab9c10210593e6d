use post_pipeline::{PostCache, PostId, PostLoadError, SourceError, load_post_content};

const TTL_MS: u64 = 12 * 60 * 60 * 1000;

fn source(body: &str) -> Result<String, SourceError> {
    Ok(format!(
        "---\ntitle: t\nauthor: a\ndescription: d\ndate: 2024-06-01\n---\n\n{body}\n"
    ))
}

fn id(number: usize) -> PostId {
    PostId { number, slug: String::from("slug") }
}

#[test]
fn fresh_hit_ignores_changed_source() {
    let mut cache = PostCache::new();
    let t0: u64 = 1_000;
    let first = load_post_content(&mut cache, &id(7), source("alpha"), t0, false).unwrap();
    assert!(first.html.contains("alpha"));

    let hit = load_post_content(&mut cache, &id(7), source("beta"), t0 + 3_600_000, false)
        .unwrap();
    assert_eq!(hit.html, first.html);
    assert!(!hit.html.contains("beta"));
}

#[test]
fn expired_entry_re_renders() {
    let mut cache = PostCache::new();
    let t0: u64 = 1_000;
    load_post_content(&mut cache, &id(7), source("alpha"), t0, false).unwrap();
    let later = load_post_content(&mut cache, &id(7), source("beta"), t0 + TTL_MS, false)
        .unwrap();
    assert!(later.html.contains("beta"), "{}", later.html);
}

#[test]
fn dev_mode_always_re_renders() {
    let mut cache = PostCache::new();
    let t0: u64 = 1_000;
    load_post_content(&mut cache, &id(7), source("alpha"), t0, true).unwrap();
    let again = load_post_content(&mut cache, &id(7), source("beta"), t0 + 1, true).unwrap();
    assert!(again.html.contains("beta"));
}

#[test]
fn entries_are_keyed_by_number() {
    let mut cache = PostCache::new();
    let t0: u64 = 1_000;
    load_post_content(&mut cache, &id(1), source("one"), t0, false).unwrap();
    let other = load_post_content(&mut cache, &id(2), source("two"), t0 + 1, false).unwrap();
    assert!(other.html.contains("two"));
}

#[test]
fn missing_document_is_not_found() {
    let mut cache = PostCache::new();
    match load_post_content(&mut cache, &id(9), Err(SourceError::NotFound), 5, false) {
        Err(PostLoadError::NotFound) => {}
        other => panic!("expected NotFound, got {other:?}"),
    }
}

#[test]
fn read_failure_is_unknown() {
    let mut cache = PostCache::new();
    match load_post_content(&mut cache, &id(9), Err(SourceError::Io), 5, false) {
        Err(PostLoadError::Unknown) => {}
        other => panic!("expected Unknown, got {other:?}"),
    }
}

#[test]
fn failed_render_is_not_cached() {
    let mut cache = PostCache::new();
    let t0: u64 = 1_000;
    let r = load_post_content(&mut cache, &id(3), Ok(String::from("no metadata")), t0, false);
    assert!(matches!(r, Err(PostLoadError::NoMetadata)));
    let ok = load_post_content(&mut cache, &id(3), source("fixed"), t0 + 1, false).unwrap();
    assert!(ok.html.contains("fixed"));
}
