use post_pipeline::{DateYmd, PostLoadError, render_post};

const META: &str = "---\ntitle: A post\nauthor: ada\ndescription: about things\ndate: 2024-01-15\n---\n\n";

fn doc(body: &str) -> String {
    format!("{META}{body}")
}

#[test]
fn plain_post_renders() {
    let post = render_post(&doc("Hello *world*.\n")).unwrap();
    assert!(post.html.contains("Hello"));
    assert!(post.html.contains("<em>world</em>"));
    assert_eq!(post.metadata.title, "A post");
    assert_eq!(post.metadata.author, "ada");
    assert_eq!(post.metadata.description, "about things");
    assert_eq!(post.metadata.date, DateYmd { year: 2024, month: 1, day: 15 });
}

#[test]
fn no_metadata_block_fails() {
    match render_post("Just a body, no frontmatter.\n") {
        Err(PostLoadError::NoMetadata) => {}
        other => panic!("expected NoMetadata, got {other:?}"),
    }
}

#[test]
fn toml_metadata_block_works() {
    let src = "+++\ntitle = \"T\"\nauthor = \"a\"\ndescription = \"d\"\ndate = \"2023-12-31\"\n+++\n\nBody.\n";
    let post = render_post(src).unwrap();
    assert_eq!(post.metadata.title, "T");
    assert_eq!(post.metadata.date, DateYmd { year: 2023, month: 12, day: 31 });
}

#[test]
fn metadata_parse_failure_fails() {
    let src = "---\ntitle: only a title\n---\n\nBody.\n";
    match render_post(src) {
        Err(PostLoadError::MetadataParseFailed(d)) => {
            assert_eq!(d, "missing field `author`");
        }
        other => panic!("expected MetadataParseFailed, got {other:?}"),
    }
}

#[test]
fn two_references_share_a_number() {
    let post = render_post(&doc(
        "First[^x] and second[^x].\n\n[^x]: the note\n",
    ))
    .unwrap();
    let hits = post.html.matches("href=\"#footnote-1\"").count();
    assert_eq!(hits, 2, "{}", post.html);
    assert!(post.html.contains("id=\"footnote-1\""));
    assert!(post.html.contains("the note"));
}

#[test]
fn footnote_definition_body_is_rendered() {
    let post = render_post(&doc("Read[^n].\n\n[^n]: the *fine* print\n")).unwrap();
    assert!(post.html.contains("footnote-def"), "{}", post.html);
    assert!(post.html.contains("<em>fine</em>"), "{}", post.html);
}

#[test]
fn references_numbered_in_first_seen_order() {
    let post = render_post(&doc(
        "A[^b] then B[^a].\n\n[^b]: note b\n\n[^a]: note a\n",
    ))
    .unwrap();
    assert!(post.html.contains("href=\"#footnote-1\""));
    assert!(post.html.contains("href=\"#footnote-2\""));
    assert!(post.html.contains("id=\"footnote-1\""));
    assert!(post.html.contains("id=\"footnote-2\""));
}

#[test]
fn unreferenced_definition_fails() {
    match render_post(&doc("No references here.\n\n[^y]: lonely note\n")) {
        Err(PostLoadError::FootnoteDefNotReferenced(id)) => assert_eq!(id, "y"),
        other => panic!("expected FootnoteDefNotReferenced, got {other:?}"),
    }
}

#[test]
fn second_definition_fails() {
    match render_post(&doc("See[^x].\n\n[^x]: one\n\n[^x]: two\n")) {
        Err(PostLoadError::MultipleFootnoteDefinitions(id)) => assert_eq!(id, "x"),
        other => panic!("expected MultipleFootnoteDefinitions, got {other:?}"),
    }
}

#[test]
fn unsupported_code_language_fails() {
    match render_post(&doc("```python\nprint(1)\n```\n")) {
        Err(PostLoadError::SyntaxHighlightFailed(d)) => {
            assert_eq!(d, "python not implemented :(");
        }
        other => panic!("expected SyntaxHighlightFailed, got {other:?}"),
    }
}

#[test]
fn untagged_code_passes_through() {
    let post = render_post(&doc("```\nplain text here\n```\n")).unwrap();
    assert!(post.html.contains("plain text here"), "{}", post.html);
    assert!(!post.html.contains("highlight"), "{}", post.html);
}

#[test]
fn rust_code_is_highlighted() {
    let post = render_post(&doc("```rust\nfn main() {}\n```\n")).unwrap();
    assert!(post.html.contains("language-rust"), "{}", post.html);
    assert!(post.html.contains("class=\"highlight keyword\""), "{}", post.html);
}

#[test]
fn math_is_typeset() {
    let post = render_post(&doc("Euler: $e^x$\n")).unwrap();
    assert!(post.html.contains("katex"), "{}", post.html);
}

#[test]
fn block_math_is_typeset() {
    let post = render_post(&doc("$$\ne = mc^2\n$$\n")).unwrap();
    assert!(post.html.contains("katex"), "{}", post.html);
}

#[test]
fn bad_math_fails() {
    match render_post(&doc("Broken: $\\frac{$\n")) {
        Err(PostLoadError::RenderMathFailed(_)) => {}
        other => panic!("expected RenderMathFailed, got {other:?}"),
    }
}
