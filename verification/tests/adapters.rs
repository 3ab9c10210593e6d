use post_pipeline::PostLoadError;
use post_pipeline::highlight::syntax_highlight;
use post_pipeline::math::render_math;

#[test]
fn highlight_unsupported_language() {
    match syntax_highlight("print(1)", "python") {
        Err(PostLoadError::SyntaxHighlightFailed(d)) => {
            assert_eq!(d, "python not implemented :(");
        }
        other => panic!("expected a highlight failure, got {other:?}"),
    }
}

#[test]
fn highlight_rust_marks_keywords() {
    let html = syntax_highlight("fn main() { let x = 1; }", "rust").unwrap();
    assert!(html.starts_with("<pre><code class=\"language-rust\">"));
    assert!(html.ends_with("</code></pre>"));
    assert!(html.contains("<span class=\"highlight keyword\">fn</span>"), "{html}");
    assert!(html.contains("main"));
}

#[test]
fn highlight_html_source() {
    let html = syntax_highlight("<p>hi</p>", "html").unwrap();
    assert!(html.starts_with("<pre><code class=\"language-html\">"));
    assert!(html.contains("hi"));
}

#[test]
fn math_inline_is_bare_markup() {
    let html = render_math("x^2", true).unwrap();
    assert!(html.contains("katex"), "{html}");
    assert!(!html.starts_with("<pre>"));
}

#[test]
fn math_block_is_wrapped() {
    let html = render_math("\\frac{1}{2}", false).unwrap();
    assert!(html.starts_with("<pre>"));
    assert!(html.ends_with("</pre>"));
    assert!(html.contains("katex"));
}

#[test]
fn math_error_is_reported() {
    match render_math("\\frac{", false) {
        Err(PostLoadError::RenderMathFailed(_)) => {}
        other => panic!("expected a math failure, got {other:?}"),
    }
}
