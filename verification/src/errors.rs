//! The failure taxonomy of the post pipeline, with the textual form of
//! each failure and its inverse.
use vstd::prelude::*;

verus! {

use vstd::string::StrSliceExecFns;
use vstd::string::StringExecFns;
use crate::id::PostIdError;

/// The ways loading a post can fail.
#[derive(Clone, Debug)]
pub enum PostLoadError {
    InvalidId(PostIdError),
    MarkdownParseFailed(String),
    SyntaxHighlightFailed(String),
    RenderMathFailed(String),
    NotFound,
    NoMetadata,
    MetadataParseFailed(String),
    FootnoteDefNotReferenced(String),
    MultipleFootnoteDefinitions(String),
    Unknown,
}

pub open spec fn spec_id_message(e: PostIdError) -> Seq<char> {
    match e {
        PostIdError::ParseNumberFailed => "parsing number failed"@,
        PostIdError::InvalidFormat => "invalid format (should be <number>[-<slug>])"@,
        PostIdError::Missing => "missing parameter"@,
        PostIdError::Unknown => "unk"@,
    }
}

pub open spec fn spec_message(e: PostLoadError) -> Seq<char> {
    match e {
        PostLoadError::InvalidId(ie) => "Invalid post ID: "@ + spec_id_message(ie),
        PostLoadError::NotFound => "Post doesn't exist (yet!)"@,
        PostLoadError::MarkdownParseFailed(s) => "Parsing markdown failed: "@ + s@,
        PostLoadError::SyntaxHighlightFailed(s) => "Code syntax highlighting failed: "@ + s@,
        PostLoadError::RenderMathFailed(s) => "Rendering math failed: "@ + s@,
        PostLoadError::NoMetadata => "Post file has no metadata"@,
        PostLoadError::MetadataParseFailed(s) => "Post metadata parsing failed: "@ + s@,
        PostLoadError::FootnoteDefNotReferenced(s) => "No references to footnote definition: "@
            + s@,
        PostLoadError::MultipleFootnoteDefinitions(s) => "Multiple footnote definitions present for "@
            + s@,
        PostLoadError::Unknown => "Unknown error"@,
    }
}

/// What parsing a message text back into an identifier error yields:
/// the two identifier messages are recognized, everything else is
/// unknown.
pub open spec fn spec_id_from_message(s: Seq<char>) -> PostIdError {
    if s == "parsing number failed"@ {
        PostIdError::ParseNumberFailed
    } else if s == "invalid format (should be <number>[-<slug>])"@ {
        PostIdError::InvalidFormat
    } else {
        PostIdError::Unknown
    }
}

/// `p` is a prefix of `s`.
pub open spec fn has_prefix(s: Seq<char>, p: Seq<char>) -> bool {
    p.len() <= s.len() && s.subrange(0, p.len() as int) == p
}

/// What follows the prefix `p` in `s`.
pub open spec fn after_prefix(s: Seq<char>, p: Seq<char>) -> Seq<char> {
    s.subrange(p.len() as int, s.len() as int)
}

/// Relates a message text to the load error parsed back from it: the
/// prefixes are tried in a fixed order, and a text that carries none of
/// them is one of the two fixed messages or unknown.
pub open spec fn spec_from_message(s: Seq<char>, r: PostLoadError) -> bool {
    if has_prefix(s, "Invalid post ID: "@) {
        r == PostLoadError::InvalidId(spec_id_from_message(after_prefix(s, "Invalid post ID: "@)))
    } else if has_prefix(s, "Parsing markdown failed: "@) {
        r matches PostLoadError::MarkdownParseFailed(t) && t@ == after_prefix(
            s,
            "Parsing markdown failed: "@,
        )
    } else if has_prefix(s, "Code syntax highlighting failed: "@) {
        r matches PostLoadError::SyntaxHighlightFailed(t) && t@ == after_prefix(
            s,
            "Code syntax highlighting failed: "@,
        )
    } else if has_prefix(s, "Rendering math failed: "@) {
        r matches PostLoadError::RenderMathFailed(t) && t@ == after_prefix(
            s,
            "Rendering math failed: "@,
        )
    } else if has_prefix(s, "Post metadata parsing failed: "@) {
        r matches PostLoadError::MetadataParseFailed(t) && t@ == after_prefix(
            s,
            "Post metadata parsing failed: "@,
        )
    } else if has_prefix(s, "No references to footnote definition: "@) {
        r matches PostLoadError::FootnoteDefNotReferenced(t) && t@ == after_prefix(
            s,
            "No references to footnote definition: "@,
        )
    } else if has_prefix(s, "Multiple footnote definitions present for "@) {
        r matches PostLoadError::MultipleFootnoteDefinitions(t) && t@ == after_prefix(
            s,
            "Multiple footnote definitions present for "@,
        )
    } else if s == "Post doesn't exist (yet!)"@ {
        r is NotFound
    } else if s == "Post file has no metadata"@ {
        r is NoMetadata
    } else {
        r is Unknown
    }
}

/// Compares two strings character by character.
pub fn str_eq(a: &str, b: &str) -> (r: bool)
    ensures
        r == (a@ == b@),
{
    let an = a.unicode_len();
    let bn = b.unicode_len();
    if an != bn {
        proof {
            assert(a@ != b@) by {
                assert(a@.len() != b@.len());
            }
        }
        return false;
    }
    let mut i: usize = 0;
    while i < an
        invariant
            0 <= i <= an,
            an == a@.len(),
            an == b@.len(),
            forall|j: int| 0 <= j < i ==> a@[j] == b@[j],
        decreases an - i,
    {
        if a.get_char(i) != b.get_char(i) {
            return false;
        }
        i = i + 1;
    }
    proof {
        assert(a@ =~= b@);
    }
    true
}

/// Strips `p` from the front of `s`, returning the rest as an owned
/// string.
pub fn strip_prefix_of(s: &str, p: &str) -> (r: Option<String>)
    ensures
        has_prefix(s@, p@) ==> (r matches Some(t) && t@ == after_prefix(s@, p@)),
        !has_prefix(s@, p@) ==> r is None,
{
    let sn = s.unicode_len();
    let pn = p.unicode_len();
    if pn > sn {
        return None;
    }
    let mut i: usize = 0;
    while i < pn
        invariant
            0 <= i <= pn <= sn,
            sn == s@.len(),
            pn == p@.len(),
            forall|j: int| 0 <= j < i ==> s@[j] == p@[j],
        decreases pn - i,
    {
        if s.get_char(i) != p.get_char(i) {
            proof {
                assert(s@.subrange(0, pn as int)[i as int] != p@[i as int]);
            }
            return None;
        }
        i = i + 1;
    }
    proof {
        assert(s@.subrange(0, pn as int) =~= p@);
    }
    Some(String::from_str(s.substring_char(pn, sn)))
}

impl PostIdError {
    /// The display text of an identifier error.
    pub fn message(&self) -> (r: String)
        ensures
            r@ == spec_id_message(*self),
    {
        match self {
            PostIdError::ParseNumberFailed => String::from_str("parsing number failed"),
            PostIdError::InvalidFormat => String::from_str(
                "invalid format (should be <number>[-<slug>])",
            ),
            PostIdError::Missing => String::from_str("missing parameter"),
            PostIdError::Unknown => String::from_str("unk"),
        }
    }

    /// Recovers an identifier error from its display text; texts that
    /// match no known message map to the unknown error.
    pub fn from_message(s: &str) -> (r: PostIdError)
        ensures
            r == spec_id_from_message(s@),
    {
        if str_eq(s, "parsing number failed") {
            PostIdError::ParseNumberFailed
        } else if str_eq(s, "invalid format (should be <number>[-<slug>])") {
            PostIdError::InvalidFormat
        } else {
            PostIdError::Unknown
        }
    }
}

impl PostLoadError {
    /// The display text of a load error.
    pub fn message(&self) -> (r: String)
        ensures
            r@ == spec_message(*self),
    {
        match self {
            PostLoadError::InvalidId(e) => {
                let mut r = String::from_str("Invalid post ID: ");
                r.append(e.message().as_str());
                r
            },
            PostLoadError::NotFound => String::from_str("Post doesn't exist (yet!)"),
            PostLoadError::MarkdownParseFailed(s) => {
                let mut r = String::from_str("Parsing markdown failed: ");
                r.append(s.as_str());
                r
            },
            PostLoadError::SyntaxHighlightFailed(s) => {
                let mut r = String::from_str("Code syntax highlighting failed: ");
                r.append(s.as_str());
                r
            },
            PostLoadError::RenderMathFailed(s) => {
                let mut r = String::from_str("Rendering math failed: ");
                r.append(s.as_str());
                r
            },
            PostLoadError::NoMetadata => String::from_str("Post file has no metadata"),
            PostLoadError::MetadataParseFailed(s) => {
                let mut r = String::from_str("Post metadata parsing failed: ");
                r.append(s.as_str());
                r
            },
            PostLoadError::FootnoteDefNotReferenced(s) => {
                let mut r = String::from_str("No references to footnote definition: ");
                r.append(s.as_str());
                r
            },
            PostLoadError::MultipleFootnoteDefinitions(s) => {
                let mut r = String::from_str("Multiple footnote definitions present for ");
                r.append(s.as_str());
                r
            },
            PostLoadError::Unknown => String::from_str("Unknown error"),
        }
    }

    /// Recovers a load error from its display text; texts that match no
    /// known message map to the unknown error.
    pub fn from_message(s: &str) -> (r: PostLoadError)
        ensures
            spec_from_message(s@, r),
    {
        if let Some(rest) = strip_prefix_of(s, "Invalid post ID: ") {
            return PostLoadError::InvalidId(PostIdError::from_message(rest.as_str()));
        }
        if let Some(rest) = strip_prefix_of(s, "Parsing markdown failed: ") {
            return PostLoadError::MarkdownParseFailed(rest);
        }
        if let Some(rest) = strip_prefix_of(s, "Code syntax highlighting failed: ") {
            return PostLoadError::SyntaxHighlightFailed(rest);
        }
        if let Some(rest) = strip_prefix_of(s, "Rendering math failed: ") {
            return PostLoadError::RenderMathFailed(rest);
        }
        if let Some(rest) = strip_prefix_of(s, "Post metadata parsing failed: ") {
            return PostLoadError::MetadataParseFailed(rest);
        }
        if let Some(rest) = strip_prefix_of(s, "No references to footnote definition: ") {
            return PostLoadError::FootnoteDefNotReferenced(rest);
        }
        if let Some(rest) = strip_prefix_of(s, "Multiple footnote definitions present for ") {
            return PostLoadError::MultipleFootnoteDefinitions(rest);
        }
        if str_eq(s, "Post doesn't exist (yet!)") {
            return PostLoadError::NotFound;
        }
        if str_eq(s, "Post file has no metadata") {
            return PostLoadError::NoMetadata;
        }
        PostLoadError::Unknown
    }
}

} // verus!
