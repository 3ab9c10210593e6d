//! The boundary to the markdown grammar engine: the document tree it
//! parses, split into a tree the rewriter can walk, and the calls that
//! turn trees back into text and text into final markup.
//!
//! Every engine call here is deterministic — its result depends on its
//! arguments alone, under this pipeline's fixed options — so each
//! wrapper's result carries a name that the contracts downstream speak
//! of exactly.
use vstd::prelude::*;

verus! {

use markdown::mdast::Node;

#[verifier::external_type_specification]
#[verifier::external_body]
pub struct ExNode(markdown::mdast::Node);

/// A document tree as the rewriter sees it: each node is the grammar
/// engine's, kept whole, with its child list (when it has one) taken
/// out so the walk can rebuild it.
pub enum Tree {
    Leaf(markdown::mdast::Node),
    Branch(markdown::mdast::Node, Vec<Tree>),
}

/// The mathematical shape of a `Tree`: the same nodes, with child
/// lists as sequences. Two trees with one view hold the same nodes in
/// the same arrangement.
pub enum TView {
    Leaf(markdown::mdast::Node),
    Branch(markdown::mdast::Node, Seq<TView>),
}

/// The view of a tree.
pub open spec fn view_of(t: Tree) -> TView
    decreases t, 1int, 0int,
{
    match t {
        Tree::Leaf(n) => TView::Leaf(n),
        Tree::Branch(n, cs) => TView::Branch(n, kids_view(cs@, 0)),
    }
}

/// The views of the children from position `j` on.
pub open spec fn kids_view(s: Seq<Tree>, j: int) -> Seq<TView>
    decreases s, 0int, s.len() - j,
{
    if 0 <= j < s.len() {
        seq![view_of(s[j])] + kids_view(s, j + 1)
    } else {
        Seq::empty()
    }
}

/// What the rewriter reads of a single node: code with or without a
/// language tag, block or inline math, a YAML or TOML metadata block,
/// a footnote reference or definition, or none of these.
#[derive(Clone, Debug)]
pub enum NodeClass {
    CodeWith { value: String, lang: String },
    CodeBare,
    MathBlock { value: String },
    MathInline { value: String },
    MetaYaml { value: String },
    MetaToml { value: String },
    FootRef { identifier: String },
    FootDef { identifier: String },
    Other,
}

/// The classification of a node: what `classify` reads of it. A node's
/// class depends on the node alone.
pub uninterp spec fn class_of(n: markdown::mdast::Node) -> NodeClass;

/// What parsing a text under this pipeline's options yields: its
/// document tree, or the engine's reason. The tree depends on the text
/// alone.
pub uninterp spec fn md_doc_of(src: Seq<char>) -> Result<markdown::mdast::Node, String>;

/// The tree a parsed node splits into: each node with its child list
/// taken out. The split depends on the node alone.
pub uninterp spec fn split_of(n: markdown::mdast::Node) -> TView;

/// The node a rewritten tree joins back into, each node rebuilt around
/// its children. The result depends on the tree's view alone.
pub uninterp spec fn joined_of(v: TView) -> markdown::mdast::Node;

/// What serializing a document tree back to markdown text yields: the
/// text, or the engine's reason. The result depends on the tree alone.
pub uninterp spec fn markdown_of(n: markdown::mdast::Node) -> Result<String, String>;

/// What compiling markdown text to final markup under this pipeline's
/// options yields: the markup, or the engine's reason. The result
/// depends on the text alone.
pub uninterp spec fn html_of(src: Seq<char>) -> Result<String, String>;

/// The raw-markup node carrying exactly the given text. The node
/// depends on the text alone.
pub uninterp spec fn html_node_of(value: Seq<char>) -> markdown::mdast::Node;

/// The root node built around the given children. The node depends on
/// the children alone.
pub uninterp spec fn root_of(children: Seq<markdown::mdast::Node>) -> markdown::mdast::Node;

/// Relies on matching markdown::mdast::Node's variants: one arm per
/// variant the rewriter treats, the fields copied out as plain
/// strings; every other variant is none of them.
#[verifier::external_body]
pub fn classify(n: &markdown::mdast::Node) -> (c: NodeClass)
    ensures
        c == class_of(*n),
{
    match n {
        Node::Code(c) if c.lang.is_some() => NodeClass::CodeWith { value: c.value.clone(), lang: c.lang.clone().unwrap() },
        Node::Code(_) => NodeClass::CodeBare,
        Node::Math(m) => NodeClass::MathBlock { value: m.value.clone() },
        Node::InlineMath(m) => NodeClass::MathInline { value: m.value.clone() },
        Node::Yaml(y) => NodeClass::MetaYaml { value: y.value.clone() },
        Node::Toml(t) => NodeClass::MetaToml { value: t.value.clone() },
        Node::FootnoteReference(f) => NodeClass::FootRef { identifier: f.identifier.clone() },
        Node::FootnoteDefinition(d) => NodeClass::FootDef { identifier: d.identifier.clone() },
        _ => NodeClass::Other,
    }
}

/// Relies on constructing markdown::mdast::Node::Html: a raw-markup
/// node carrying exactly the given text; the rewriter treats such a
/// node as none of its special classes.
#[verifier::external_body]
pub fn html_node(value: String) -> (n: markdown::mdast::Node)
    ensures
        n == html_node_of(value@),
        class_of(n) == NodeClass::Other,
{
    markdown::mdast::Node::Html(markdown::mdast::Html { value, position: None })
}

/// Relies on constructing markdown::mdast::Node::Root around the given
/// children.
#[verifier::external_body]
pub fn root_node(children: Vec<markdown::mdast::Node>) -> (n: markdown::mdast::Node)
    ensures
        n == root_of(children@),
{
    markdown::mdast::Node::Root(markdown::mdast::Root { children, position: None })
}

/// Relies on markdown::mdast::Node::children_mut: a node either owns a
/// child list or none; splitting takes the children out, recursively.
#[verifier::external_body]
pub fn explode(mut n: markdown::mdast::Node) -> (t: Tree)
    ensures
        view_of(t) == split_of(n),
{
    match n.children_mut() {
        Some(children) => {
            let sub: Vec<Tree> = std::mem::take(children).into_iter().map(explode).collect();
            Tree::Branch(n, sub)
        },
        None => Tree::Leaf(n),
    }
}

/// Relies on markdown::mdast::Node::children_mut: rebuilds each node
/// around its (rewritten) children, recursively.
#[verifier::external_body]
pub fn implode(t: Tree) -> (n: markdown::mdast::Node)
    ensures
        n == joined_of(view_of(t)),
{
    match t {
        Tree::Leaf(n) => n,
        Tree::Branch(mut n, sub) => {
            if let Some(children) = n.children_mut() {
                *children = sub.into_iter().map(implode).collect();
            }
            n
        },
    }
}

/// Relies on markdown::to_mdast under this pipeline's options:
/// GitHub-flavored parsing with block and inline math and frontmatter
/// enabled. Deterministic in the text.
#[verifier::external_body]
pub fn md_to_tree(src: &str) -> (r: Result<markdown::mdast::Node, String>)
    ensures
        r == md_doc_of(src@),
{
    let constructs = markdown::Constructs { math_flow: true, math_text: true, frontmatter: true, ..markdown::Constructs::gfm() };
    let parse = markdown::ParseOptions { constructs, ..Default::default() };
    markdown::to_mdast(src, &parse).map_err(|e| e.reason)
}

/// Relies on mdast_util_to_markdown::to_markdown: serializes a
/// document tree back to markdown text, or yields the engine's reason.
/// Deterministic in the tree.
#[verifier::external_body]
pub fn tree_to_markdown(n: &markdown::mdast::Node) -> (r: Result<String, String>)
    ensures
        r == markdown_of(*n),
{
    mdast_util_to_markdown::to_markdown(n).map_err(|e| e.reason)
}

/// Relies on markdown::to_html_with_options under this pipeline's
/// options: GitHub-flavored compilation with math and frontmatter
/// enabled and raw markup and image sources passed through.
/// Deterministic in the text.
#[verifier::external_body]
pub fn md_to_html(src: &str) -> (r: Result<String, String>)
    ensures
        r == html_of(src@),
{
    let constructs = markdown::Constructs { math_flow: true, math_text: true, frontmatter: true, ..markdown::Constructs::gfm() };
    let parse = markdown::ParseOptions { constructs, ..Default::default() };
    let compile = markdown::CompileOptions { allow_any_img_src: true, allow_dangerous_html: true, allow_dangerous_protocol: true, ..Default::default() };
    let options = markdown::Options { parse, compile };
    markdown::to_html_with_options(src, &options).map_err(|e| e.reason)
}

} // verus!
