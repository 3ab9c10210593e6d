//! The syntax-highlight adapter: turns fenced code into highlighted
//! markup through the tree-sitter engine. The engine yields a stream
//! of events — source chunks interleaved with span starts and ends —
//! and the markup is assembled from that stream here, verified.
//!
//! The engine is deterministic: for a fixed grammar and a fixed list
//! of recognized classes, the event stream depends on the source text
//! alone. The named results below say so, and `syntax_highlight`'s
//! contract pins its output through them.
use vstd::prelude::*;

verus! {

use vstd::string::StrSliceExecFns;
use vstd::string::StringExecFns;
use tree_sitter_highlight::HighlightEvent;
use crate::errors::PostLoadError;
use crate::errors::str_eq;

/// One step of a highlighted rendering: a run of source text, the
/// start of a span (naming a highlight class by index), or the end of
/// the innermost span.
#[derive(Clone, Debug)]
pub enum HlEvent {
    Chunk(String),
    Open(usize),
    Close,
}

#[verifier::external_type_specification]
#[verifier::external_body]
pub struct ExHighlightConfiguration(tree_sitter_highlight::HighlightConfiguration);

/// The language tags the highlighter supports.
pub open spec fn lang_supported(lang: Seq<char>) -> bool {
    lang == "rust"@ || lang == "html"@
}

/// The configuration is the grammar for `lang` with its bundled
/// queries, configured with this pipeline's recognized classes.
pub uninterp spec fn hl_ready(cfg: tree_sitter_highlight::HighlightConfiguration, lang: Seq<
    char,
>) -> bool;

/// The reason building the configuration for `lang` fails, if it
/// does. Building compiles fixed, bundled queries, so the outcome
/// depends on the language alone.
pub uninterp spec fn hl_config_err(lang: Seq<char>) -> Option<Seq<char>>;

/// What the engine yields for a source text under the grammar for
/// `lang`, recognizing this pipeline's classes: the event stream, or
/// the engine's error text. The stream depends on the language and
/// the text alone.
pub uninterp spec fn hl_events_of(lang: Seq<char>, src: Seq<char>) -> Result<Vec<HlEvent>, String>;

/// Relies on tree_sitter_highlight::HighlightConfiguration::new with
/// the tree-sitter-rust grammar and its bundled queries, and on
/// configure: span-start events of a later run index into `names`.
#[verifier::external_body]
fn rust_config(names: &Vec<String>) -> (r: Result<
    tree_sitter_highlight::HighlightConfiguration,
    String,
>)
    ensures
        names.deep_view() == spec_highlight_names() ==> match hl_config_err("rust"@) {
            None => r matches Ok(c) && hl_ready(c, "rust"@),
            Some(e) => r matches Err(d) && d@ == e,
        },
{
    let mut c = match tree_sitter_highlight::HighlightConfiguration::new(
        tree_sitter_rust::LANGUAGE.into(),
        "rust",
        tree_sitter_rust::HIGHLIGHTS_QUERY,
        tree_sitter_rust::INJECTIONS_QUERY,
        tree_sitter_rust::TAGS_QUERY,
    ) {
        Ok(c) => c,
        Err(e) => return Err(format!("failed to initialize tree-sitter-rust: {e:?}")),
    };
    c.configure(names.as_slice());
    Ok(c)
}

/// Relies on tree_sitter_highlight::HighlightConfiguration::new with
/// the tree-sitter-html grammar and its bundled queries, and on
/// configure: span-start events of a later run index into `names`.
#[verifier::external_body]
fn html_config(names: &Vec<String>) -> (r: Result<
    tree_sitter_highlight::HighlightConfiguration,
    String,
>)
    ensures
        names.deep_view() == spec_highlight_names() ==> match hl_config_err("html"@) {
            None => r matches Ok(c) && hl_ready(c, "html"@),
            Some(e) => r matches Err(d) && d@ == e,
        },
{
    let mut c = match tree_sitter_highlight::HighlightConfiguration::new(
        tree_sitter_html::LANGUAGE.into(),
        "html",
        tree_sitter_html::HIGHLIGHTS_QUERY,
        tree_sitter_html::INJECTIONS_QUERY,
        "",
    ) {
        Ok(c) => c,
        Err(e) => return Err(format!("failed to initialize tree-sitter-html: {e:?}")),
    };
    c.configure(names.as_slice());
    Ok(c)
}

/// Relies on tree_sitter_highlight::Highlighter::highlight: the events
/// partition the source into chunks interleaved with span starts and
/// ends; an engine failure is returned as its text. The stream is
/// deterministic in the configuration and the text, and every span
/// start indexes into the configured class list.
#[verifier::external_body]
fn collect_events(cfg: &tree_sitter_highlight::HighlightConfiguration, src: &str) -> (r: Result<
    Vec<HlEvent>,
    String,
>)
    ensures
        hl_ready(*cfg, "rust"@) ==> r == hl_events_of("rust"@, src@),
        hl_ready(*cfg, "html"@) ==> r == hl_events_of("html"@, src@),
        (hl_ready(*cfg, "rust"@) || hl_ready(*cfg, "html"@)) ==> (r matches Ok(evs) ==> evs_wf(
            evs@,
            spec_highlight_names().len(),
        )),
{
    let mut hl = tree_sitter_highlight::Highlighter::new();
    let it = match hl.highlight(cfg, src.as_bytes(), None, None, |_| None) {
        Ok(i) => i,
        Err(e) => return Err(format!("{e:?}")),
    };
    let mut out: Vec<HlEvent> = Vec::new();
    for ev in it {
        match ev {
            Ok(HighlightEvent::Source { start, end }) => out.push(HlEvent::Chunk(String::from_utf8_lossy(&src.as_bytes()[start..end]).into_owned())),
            Ok(HighlightEvent::HighlightStart(h)) => out.push(HlEvent::Open(h.0)),
            Ok(HighlightEvent::HighlightEnd) => out.push(HlEvent::Close),
            Err(e) => return Err(format!("{e:?}")),
        }
    }
    Ok(out)
}

/// The highlight classes this pipeline recognizes, in the order the
/// engine indexes them.
pub open spec fn spec_highlight_names() -> Seq<Seq<char>> {
    seq![
        "comment"@,
        "constant"@,
        "function"@,
        "keyword"@,
        "number"@,
        "string"@,
        "tag"@,
        "type"@,
        "variable"@,
    ]
}

fn highlight_names() -> (r: Vec<String>)
    ensures
        r.deep_view() =~= spec_highlight_names(),
{
    let mut v: Vec<String> = Vec::new();
    v.push(String::from_str("comment"));
    v.push(String::from_str("constant"));
    v.push(String::from_str("function"));
    v.push(String::from_str("keyword"));
    v.push(String::from_str("number"));
    v.push(String::from_str("string"));
    v.push(String::from_str("tag"));
    v.push(String::from_str("type"));
    v.push(String::from_str("variable"));
    proof {
        assert(v.deep_view() =~= spec_highlight_names());
    }
    v
}

/// Every span start names one of the `n` configured classes.
pub open spec fn evs_wf(evs: Seq<HlEvent>, n: nat) -> bool {
    forall|i: int|
        0 <= i < evs.len() ==> ((#[trigger] evs[i]) matches HlEvent::Open(x) ==> x < n)
}

/// The opening tag of a highlight span for the class `name`.
pub open spec fn span_open(name: Seq<char>) -> Seq<char> {
    "<span class=\"highlight "@ + name + "\">"@
}

/// The markup assembled from an event stream: chunks as they are, a
/// span start as an opening tag carrying its class name, a span end as
/// the closing tag.
pub open spec fn spec_events_html(evs: Seq<HlEvent>, names: Seq<Seq<char>>) -> Seq<char>
    decreases evs.len(),
{
    if evs.len() == 0 {
        Seq::empty()
    } else {
        spec_events_html(evs.drop_last(), names) + match evs.last() {
            HlEvent::Chunk(s) => s@,
            HlEvent::Open(x) => span_open(names[x as int]),
            HlEvent::Close => "</span>"@,
        }
    }
}

/// Assembles the markup for an event stream; an event naming a class
/// outside the configured list yields nothing.
fn events_to_html(events: &Vec<HlEvent>, names: &Vec<String>) -> (r: Option<String>)
    ensures
        r is Some <==> evs_wf(events@, names@.len() as nat),
        r matches Some(h) ==> h@ == spec_events_html(events@, names.deep_view()),
{
    let mut out = String::new();
    let mut i: usize = 0;
    proof {
        assert(events@.take(0) =~= Seq::<HlEvent>::empty());
    }
    while i < events.len()
        invariant
            0 <= i <= events@.len(),
            evs_wf(events@.take(i as int), names@.len() as nat),
            out@ == spec_events_html(events@.take(i as int), names.deep_view()),
        decreases events@.len() - i,
    {
        proof {
            assert(events@.take(i as int + 1).drop_last() =~= events@.take(i as int));
            assert(events@.take(i as int + 1).last() == events@[i as int]);
        }
        match &events[i] {
            HlEvent::Chunk(s) => {
                out.append(s.as_str());
            },
            HlEvent::Open(x) => {
                if *x >= names.len() {
                    proof {
                        assert(!evs_wf(events@, names@.len() as nat)) by {
                            assert(events@[i as int] matches HlEvent::Open(y) && y
                                >= names@.len());
                        }
                    }
                    return None;
                }
                out.append("<span class=\"highlight ");
                out.append(names[*x].as_str());
                out.append("\">");
                proof {
                    assert(names.deep_view()[*x as int] == names@[*x as int]@);
                }
            },
            HlEvent::Close => {
                out.append("</span>");
            },
        }
        i = i + 1;
    }
    proof {
        assert(events@.take(i as int) =~= events@);
    }
    Some(out)
}

/// The failure text for a language tag the highlighter lacks.
pub open spec fn spec_unsupported_msg(lang: Seq<char>) -> Seq<char> {
    lang + " not implemented :("@
}

/// Highlighted code wrapped as a fenced block carrying its language.
pub open spec fn spec_code_wrap(lang: Seq<char>, inner: Seq<char>) -> Seq<char> {
    "<pre><code class=\"language-"@ + lang + "\">"@ + inner + "</code></pre>"@
}

/// What highlighting yields, for every source and language: the
/// unsupported-language message for any other tag; the configuration
/// or engine failure text where one fails; else the engine's event
/// stream rendered and wrapped as a fenced block.
pub open spec fn spec_syntax_highlight(src: Seq<char>, lang: Seq<char>) -> Result<
    Seq<char>,
    Seq<char>,
> {
    if !lang_supported(lang) {
        Err(spec_unsupported_msg(lang))
    } else {
        match hl_config_err(lang) {
            Some(e) => Err(e),
            None => match hl_events_of(lang, src) {
                Err(e) => Err(e@),
                Ok(evs) => Ok(spec_code_wrap(lang, spec_events_html(evs@, spec_highlight_names()))),
            },
        }
    }
}

/// Highlights fenced code. Only `rust` and `html` are supported: any
/// other language tag fails, carrying the tag in its message; it never
/// passes code through unhighlighted. For a supported tag the result
/// is exactly the engine's event stream, rendered.
pub fn syntax_highlight(src: &str, lang: &str) -> (r: Result<String, PostLoadError>)
    ensures
        match spec_syntax_highlight(src@, lang@) {
            Ok(h) => r matches Ok(o) && o@ == h,
            Err(d) => r matches Err(PostLoadError::SyntaxHighlightFailed(s)) && s@ == d,
        },
{
    if !(str_eq(lang, "rust") || str_eq(lang, "html")) {
        let mut d = String::from_str(lang);
        d.append(" not implemented :(");
        return Err(PostLoadError::SyntaxHighlightFailed(d));
    }
    let names = highlight_names();
    let config = if str_eq(lang, "rust") {
        rust_config(&names)
    } else {
        html_config(&names)
    };
    let config = match config {
        Ok(c) => c,
        Err(e) => {
            return Err(PostLoadError::SyntaxHighlightFailed(e));
        },
    };
    let events = match collect_events(&config, src) {
        Ok(evs) => evs,
        Err(e) => {
            return Err(PostLoadError::SyntaxHighlightFailed(e));
        },
    };
    let inner = match events_to_html(&events, &names) {
        Some(h) => h,
        None => {
            return Err(
                PostLoadError::SyntaxHighlightFailed(
                    String::from_str("highlight class out of range"),
                ),
            );
        },
    };
    let mut out = String::from_str("<pre><code class=\"language-");
    out.append(lang);
    out.append("\">");
    out.append(inner.as_str());
    out.append("</code></pre>");
    Ok(out)
}

} // verus!
