//! The math-render adapter: typesets an expression through the KaTeX
//! engine, wrapping block-level output to keep its layout.
use vstd::prelude::*;

verus! {

use vstd::string::StrSliceExecFns;
use vstd::string::StringExecFns;
use crate::errors::PostLoadError;

/// What the KaTeX engine yields for an expression: the typeset markup,
/// or the error text. The engine is a deterministic typesetter: its
/// verdict and its output depend on the expression and the display
/// flag alone.
pub uninterp spec fn katex_output(src: Seq<char>, display: bool) -> Result<String, String>;

/// Relies on katex::render_with_opts (with katex::Opts::builder
/// setting only display_mode): deterministic typesetting of the
/// expression, or the engine's error.
#[verifier::external_body]
fn katex_render(src: &str, display: bool) -> (r: Result<String, String>)
    ensures
        r == katex_output(src@, display),
{
    let opts = match katex::Opts::builder().display_mode(display).build() {
        Ok(o) => o,
        Err(e) => return Err(format!("{e:?}")),
    };
    katex::render_with_opts(src, &opts).map_err(|e| format!("{e:?}"))
}

/// What rendering an expression yields, for every expression: inline
/// math is the engine's markup as is, block math is wrapped in `<pre>`
/// tags, and an engine failure carries its text.
pub open spec fn spec_math_html(src: Seq<char>, inline: bool) -> Result<Seq<char>, Seq<char>> {
    match katex_output(src, !inline) {
        Ok(h) => Ok(
            if inline {
                h@
            } else {
                "<pre>"@ + h@ + "</pre>"@
            },
        ),
        Err(e) => Err(e@),
    }
}

/// Typesets a math expression; block (non-inline) output keeps its
/// block-level layout. The result is exactly the engine's.
pub fn render_math(src: &str, inline: bool) -> (r: Result<String, PostLoadError>)
    ensures
        match spec_math_html(src@, inline) {
            Ok(h) => r matches Ok(o) && o@ == h,
            Err(d) => r matches Err(PostLoadError::RenderMathFailed(s)) && s@ == d,
        },
{
    match katex_render(src, !inline) {
        Ok(h) => {
            if inline {
                Ok(h)
            } else {
                let mut out = String::from_str("<pre>");
                out.append(h.as_str());
                out.append("</pre>");
                Ok(out)
            }
        },
        Err(e) => Err(PostLoadError::RenderMathFailed(e)),
    }
}

} // verus!
