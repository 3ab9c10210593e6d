use post_pipeline::{PostIdError, PostLoadError};

#[test]
fn id_error_messages() {
    assert_eq!(PostIdError::ParseNumberFailed.message(), "parsing number failed");
    assert_eq!(
        PostIdError::InvalidFormat.message(),
        "invalid format (should be <number>[-<slug>])"
    );
    assert_eq!(PostIdError::Missing.message(), "missing parameter");
    assert_eq!(PostIdError::Unknown.message(), "unk");
}

#[test]
fn id_error_from_message_round_trip() {
    assert_eq!(
        PostIdError::from_message(&PostIdError::ParseNumberFailed.message()),
        PostIdError::ParseNumberFailed
    );
    assert_eq!(
        PostIdError::from_message(&PostIdError::InvalidFormat.message()),
        PostIdError::InvalidFormat
    );
    assert_eq!(PostIdError::from_message("anything else"), PostIdError::Unknown);
}

#[test]
fn load_error_messages() {
    assert_eq!(
        PostLoadError::InvalidId(PostIdError::Missing).message(),
        "Invalid post ID: missing parameter"
    );
    assert_eq!(PostLoadError::NotFound.message(), "Post doesn't exist (yet!)");
    assert_eq!(
        PostLoadError::MarkdownParseFailed(String::from("boom")).message(),
        "Parsing markdown failed: boom"
    );
    assert_eq!(
        PostLoadError::SyntaxHighlightFailed(String::from("x")).message(),
        "Code syntax highlighting failed: x"
    );
    assert_eq!(
        PostLoadError::RenderMathFailed(String::from("y")).message(),
        "Rendering math failed: y"
    );
    assert_eq!(PostLoadError::NoMetadata.message(), "Post file has no metadata");
    assert_eq!(
        PostLoadError::MetadataParseFailed(String::from("z")).message(),
        "Post metadata parsing failed: z"
    );
    assert_eq!(
        PostLoadError::FootnoteDefNotReferenced(String::from("a")).message(),
        "No references to footnote definition: a"
    );
    assert_eq!(
        PostLoadError::MultipleFootnoteDefinitions(String::from("b")).message(),
        "Multiple footnote definitions present for b"
    );
    assert_eq!(PostLoadError::Unknown.message(), "Unknown error");
}

#[test]
fn load_error_from_message() {
    assert!(matches!(
        PostLoadError::from_message("Invalid post ID: missing parameter"),
        PostLoadError::InvalidId(PostIdError::Unknown)
    ));
    assert!(matches!(
        PostLoadError::from_message("Invalid post ID: parsing number failed"),
        PostLoadError::InvalidId(PostIdError::ParseNumberFailed)
    ));
    match PostLoadError::from_message("Parsing markdown failed: oops") {
        PostLoadError::MarkdownParseFailed(s) => assert_eq!(s, "oops"),
        other => panic!("wrong variant: {other:?}"),
    }
    match PostLoadError::from_message("No references to footnote definition: q") {
        PostLoadError::FootnoteDefNotReferenced(s) => assert_eq!(s, "q"),
        other => panic!("wrong variant: {other:?}"),
    }
    assert!(matches!(
        PostLoadError::from_message("Post doesn't exist (yet!)"),
        PostLoadError::NotFound
    ));
    assert!(matches!(
        PostLoadError::from_message("Post file has no metadata"),
        PostLoadError::NoMetadata
    ));
    assert!(matches!(
        PostLoadError::from_message("gibberish"),
        PostLoadError::Unknown
    ));
}
