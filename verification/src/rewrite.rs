//! The document rewriter: one bottom-up pass over the tree, replacing
//! code, math, metadata and footnote nodes and carrying the footnote
//! table and the metadata accumulator across the whole walk.
//!
//! The pass is specified by a small machine: the walk visits the
//! significant nodes in document order — children before their node —
//! and each visit steps the shared state or fails. The executable walk
//! is proved to agree with a run of that machine over the tree's event
//! sequence.
use vstd::prelude::*;

verus! {

use vstd::string::StringExecFns;
use crate::errors::PostLoadError;
use crate::footnotes::DefError;
use crate::footnotes::FootnoteTable;
use crate::footnotes::spec_define;
use crate::footnotes::spec_reference;
use crate::highlight::lang_supported;
use crate::highlight::spec_syntax_highlight;
use crate::highlight::syntax_highlight;
use crate::id::dec_digits;
use crate::id::usize_to_string;
use crate::math::katex_output;
use crate::math::render_math;
use crate::math::spec_math_html;
use crate::mdast::NodeClass;
use crate::mdast::TView;
use crate::mdast::Tree;
use crate::mdast::class_of;
use crate::mdast::classify;
use crate::mdast::html_node;
use crate::mdast::html_node_of;
use crate::mdast::html_of;
use crate::mdast::implode;
use crate::mdast::joined_of;
use crate::mdast::kids_view;
use crate::mdast::markdown_of;
use crate::mdast::md_to_html;
use crate::mdast::root_node;
use crate::mdast::root_of;
use crate::mdast::tree_to_markdown;
use crate::mdast::view_of;
use crate::meta::PostMetadata;
use crate::meta::lemma_meta_err;
use crate::meta::lemma_meta_text_shape;
use crate::meta::meta_err;
use crate::meta::meta_text_ok;
use crate::meta::metadata_from_toml;
use crate::meta::metadata_from_yaml;
use crate::meta::spec_metadata_from_toml;
use crate::meta::spec_metadata_from_yaml;

/// What a node contributes to the walk's shared state: a footnote
/// reference or definition by its identifier, a metadata block by its
/// text (and whether it is YAML), a math expression by its text (and
/// whether it is inline), or a tagged code block by its language tag.
pub enum FEvent {
    Ref(Seq<char>),
    Def(Seq<char>),
    MetaText(Seq<char>, bool),
    Math(Seq<char>, bool),
    Code(Seq<char>),
}

/// The events a single node of the given class contributes.
pub open spec fn class_events(c: NodeClass) -> Seq<FEvent> {
    match c {
        NodeClass::CodeWith { value: _, lang } => seq![FEvent::Code(lang@)],
        NodeClass::CodeBare => Seq::empty(),
        NodeClass::MathBlock { value } => seq![FEvent::Math(value@, false)],
        NodeClass::MathInline { value } => seq![FEvent::Math(value@, true)],
        NodeClass::MetaYaml { value } => seq![FEvent::MetaText(value@, true)],
        NodeClass::MetaToml { value } => seq![FEvent::MetaText(value@, false)],
        NodeClass::FootRef { identifier } => seq![FEvent::Ref(identifier@)],
        NodeClass::FootDef { identifier } => seq![FEvent::Def(identifier@)],
        NodeClass::Other => Seq::empty(),
    }
}

/// The class of the tree's own node.
pub open spec fn root_class(t: Tree) -> NodeClass {
    match t {
        Tree::Leaf(n) => class_of(n),
        Tree::Branch(n, _) => class_of(n),
    }
}

/// The event sequence of a tree, in document order: children first,
/// then the node itself.
pub open spec fn events_of(t: Tree) -> Seq<FEvent>
    decreases t, 1int, 0int,
{
    match t {
        Tree::Leaf(n) => class_events(class_of(n)),
        Tree::Branch(n, cs) => events_from(cs@, 0) + class_events(class_of(n)),
    }
}

/// The events of the children from position `j` on.
pub open spec fn events_from(s: Seq<Tree>, j: int) -> Seq<FEvent>
    decreases s, 0int, s.len() - j,
{
    if 0 <= j < s.len() {
        events_of(s[j]) + events_from(s, j + 1)
    } else {
        Seq::empty()
    }
}

/// A class the rewriter leaves in place.
pub open spec fn clean_class(c: NodeClass) -> bool {
    c is CodeBare || c is Other
}

/// No node of the tree still awaits rewriting.
pub open spec fn clean(t: Tree) -> bool
    decreases t, 1int, 0int,
{
    match t {
        Tree::Leaf(n) => clean_class(class_of(n)),
        Tree::Branch(n, cs) => clean_class(class_of(n)) && clean_from(cs@, 0),
    }
}

pub open spec fn clean_from(s: Seq<Tree>, j: int) -> bool
    decreases s, 0int, s.len() - j,
{
    if 0 <= j < s.len() {
        clean(s[j]) && clean_from(s, j + 1)
    } else {
        true
    }
}

proof fn lemma_clean_from(s: Seq<Tree>, j: int)
    requires
        forall|q: int| j <= q < s.len() ==> clean(#[trigger] s[q]),
    ensures
        clean_from(s, j),
    decreases s.len() - j,
{
    if 0 <= j < s.len() {
        lemma_clean_from(s, j + 1);
    }
}

/// The metadata block a run has accepted: its raw text and whether it
/// was YAML.
#[verifier::ext_equal]
pub struct MetaSrc {
    pub text: Seq<char>,
    pub yaml: bool,
}

/// The machine's state: the footnote table and the accepted metadata
/// block, if any.
#[verifier::ext_equal]
pub struct MState {
    pub table: Seq<(Seq<char>, bool)>,
    pub meta: Option<MetaSrc>,
}

/// Why a machine run fails: an unreferenced or doubly-resolved
/// footnote definition, a metadata block that does not parse, a math
/// expression the engine rejects, or a code language that is not
/// supported.
pub enum Fail {
    FootNotRef(Seq<char>),
    FootMulti(Seq<char>),
    Meta(Seq<char>, bool),
    Math(Seq<char>, bool),
    Code(Seq<char>),
}

/// One step of the machine. A reference always succeeds and keeps or
/// assigns the identifier's number; a definition follows the table's
/// rules; a metadata block must parse, and only the first accepted one
/// is kept; math must typeset; code must carry a supported language.
pub open spec fn step_event(m: MState, e: FEvent) -> Result<MState, Fail> {
    match e {
        FEvent::Ref(id) => Ok(MState { table: spec_reference(m.table, id).0, meta: m.meta }),
        FEvent::Def(id) => match spec_define(m.table, id) {
            Ok(p) => Ok(MState { table: p.0, meta: m.meta }),
            Err(DefError::NotReferenced) => Err(Fail::FootNotRef(id)),
            Err(DefError::AlreadyResolved) => Err(Fail::FootMulti(id)),
        },
        FEvent::MetaText(v, yaml) => if meta_text_ok(v, yaml) {
            Ok(
                MState {
                    table: m.table,
                    meta: if m.meta is Some {
                        m.meta
                    } else {
                        Some(MetaSrc { text: v, yaml })
                    },
                },
            )
        } else {
            Err(Fail::Meta(v, yaml))
        },
        FEvent::Math(v, inline) => if katex_output(v, !inline) is Ok {
            Ok(m)
        } else {
            Err(Fail::Math(v, inline))
        },
        FEvent::Code(lang) => if lang_supported(lang) {
            Ok(m)
        } else {
            Err(Fail::Code(lang))
        },
    }
}

/// A run of the machine over an event sequence: the state after all
/// events, or the first failure.
pub open spec fn run_events(evs: Seq<FEvent>, m: MState) -> Result<MState, Fail>
    decreases evs.len(),
{
    if evs.len() == 0 {
        Ok(m)
    } else {
        match step_event(m, evs[0]) {
            Ok(m2) => run_events(evs.drop_first(), m2),
            Err(f) => Err(f),
        }
    }
}

/// A run over concatenated sequences is the run of the first, then the
/// run of the second from where the first ended.
pub proof fn lemma_run_app(a: Seq<FEvent>, b: Seq<FEvent>, m: MState)
    ensures
        run_events(a + b, m) == match run_events(a, m) {
            Ok(m2) => run_events(b, m2),
            Err(f) => Err::<MState, Fail>(f),
        },
    decreases a.len(),
{
    if a.len() == 0 {
        assert(a + b =~= b);
    } else {
        assert((a + b)[0] == a[0]);
        match step_event(m, a[0]) {
            Ok(m2) => {
                assert((a + b).drop_first() =~= a.drop_first() + b);
                lemma_run_app(a.drop_first(), b, m2);
            },
            Err(_) => {
                assert((a + b).len() != 0);
            },
        }
    }
}

pub proof fn lemma_run_single(e: FEvent, m: MState)
    ensures
        run_events(seq![e], m) == match step_event(m, e) {
            Ok(m2) => Ok::<MState, Fail>(m2),
            Err(f) => Err::<MState, Fail>(f),
        },
{
    let s = seq![e];
    assert(s.drop_first() =~= Seq::<FEvent>::empty());
    match step_event(m, e) {
        Ok(m2) => {
            assert(run_events(s.drop_first(), m2) == Ok::<MState, Fail>(m2));
        },
        Err(_) => {},
    }
}

/// A definition whose identifier no earlier event references makes
/// the run fail: the walk registers identifiers only at references,
/// so the definition finds its identifier absent — unless the run has
/// already failed before reaching it.
pub proof fn lemma_unreferenced_def_fails(evs: Seq<FEvent>, m: MState, k: int, id: Seq<char>)
    requires
        0 <= k < evs.len(),
        evs[k] == FEvent::Def(id),
        !crate::footnotes::has_id(m.table, id),
        forall|i: int| 0 <= i < k ==> (#[trigger] evs[i]) != FEvent::Ref(id),
    ensures
        run_events(evs, m) is Err,
    decreases k,
{
    match step_event(m, evs[0]) {
        Err(_) => {},
        Ok(m2) => {
            assert(k != 0);
            match evs[0] {
                FEvent::Ref(id2) => {
                    assert(id2 != id);
                    crate::footnotes::lemma_absent_without_reference(m.table, id, id2);
                },
                FEvent::Def(id2) => {
                    crate::footnotes::lemma_find_id_bounds(m.table, id2);
                    assert(id2 != id);
                    crate::footnotes::lemma_absent_without_reference(m.table, id, id2);
                },
                _ => {},
            }
            assert(evs.drop_first()[k - 1] == evs[k]);
            assert(forall|i: int|
                0 <= i < k - 1 ==> (#[trigger] evs.drop_first()[i]) == evs[i + 1]);
            lemma_unreferenced_def_fails(evs.drop_first(), m2, k - 1, id);
        },
    }
}

/// Once an identifier is resolved, a later definition for it makes
/// the run fail — unless the run has already failed before reaching
/// it.
pub proof fn lemma_resolved_def_fails(evs: Seq<FEvent>, m: MState, k: int, id: Seq<char>)
    requires
        0 <= k < evs.len(),
        evs[k] == FEvent::Def(id),
        crate::footnotes::resolved_in(m.table, id),
    ensures
        run_events(evs, m) is Err,
    decreases k,
{
    match step_event(m, evs[0]) {
        Err(_) => {},
        Ok(m2) => {
            if k == 0 {
                crate::footnotes::lemma_find_id_bounds(m.table, id);
                assert(false);
            } else {
                match evs[0] {
                    FEvent::Ref(id2) => {
                        crate::footnotes::lemma_resolved_preserved(m.table, id, id2);
                    },
                    FEvent::Def(id2) => {
                        crate::footnotes::lemma_resolved_preserved(m.table, id, id2);
                    },
                    _ => {},
                }
                assert(evs.drop_first()[k - 1] == evs[k]);
                lemma_resolved_def_fails(evs.drop_first(), m2, k - 1, id);
            }
        },
    }
}

/// Two definitions for one identifier make the run fail, whatever
/// stands around them: the first either fails itself or resolves the
/// identifier, and then the second finds it resolved.
pub proof fn lemma_second_def_fails(evs: Seq<FEvent>, m: MState, k1: int, k2: int, id: Seq<char>)
    requires
        0 <= k1 < k2 < evs.len(),
        evs[k1] == FEvent::Def(id),
        evs[k2] == FEvent::Def(id),
    ensures
        run_events(evs, m) is Err,
    decreases k1,
{
    match step_event(m, evs[0]) {
        Err(_) => {},
        Ok(m2) => {
            if k1 == 0 {
                match spec_define(m.table, id) {
                    Ok(_) => {
                        crate::footnotes::lemma_define_resolves(m.table, id);
                        assert(evs.drop_first()[k2 - 1] == evs[k2]);
                        lemma_resolved_def_fails(evs.drop_first(), m2, k2 - 1, id);
                    },
                    Err(_) => {
                        assert(false);
                    },
                }
            } else {
                assert(evs.drop_first()[k1 - 1] == evs[k1]);
                assert(evs.drop_first()[k2 - 1] == evs[k2]);
                lemma_second_def_fails(evs.drop_first(), m2, k1 - 1, k2 - 1, id);
            }
        },
    }
}

/// A run over events among which no metadata block occurs can only
/// keep the metadata it started with: a document without a metadata
/// block never produces a metadata record.
pub proof fn lemma_run_no_meta(evs: Seq<FEvent>, m: MState)
    requires
        forall|i: int| 0 <= i < evs.len() ==> !((#[trigger] evs[i]) is MetaText),
    ensures
        run_events(evs, m) matches Ok(m2) ==> m2.meta == m.meta,
    decreases evs.len(),
{
    if evs.len() > 0 {
        match step_event(m, evs[0]) {
            Ok(m2) => {
                assert(forall|i: int|
                    0 <= i < evs.drop_first().len() ==> !((#[trigger] evs.drop_first()[i])
                        is MetaText));
                lemma_run_no_meta(evs.drop_first(), m2);
            },
            Err(_) => {},
        }
    }
}

/// The machine's starting state: an empty table and no metadata.
pub open spec fn initial_mstate() -> MState {
    MState { table: Seq::empty(), meta: None }
}

/// The walk's failures, at the specification level: the highlight,
/// math or metadata failure text, the offending footnote identifier,
/// a serialization or compilation failure text, or the footnote
/// table's machine limit.
pub enum RwErr {
    Highlight(Seq<char>),
    MathErr(Seq<char>),
    MetaErr(Seq<char>),
    NotRef(Seq<char>),
    MultiDef(Seq<char>),
    MdErr(Seq<char>),
    TableFull,
}

/// The error value the walk returns for each specification-level
/// failure.
pub open spec fn rw_err_matches(e: PostLoadError, f: RwErr) -> bool {
    match f {
        RwErr::Highlight(d) => e matches PostLoadError::SyntaxHighlightFailed(s) && s@ == d,
        RwErr::MathErr(d) => e matches PostLoadError::RenderMathFailed(s) && s@ == d,
        RwErr::MetaErr(d) => e matches PostLoadError::MetadataParseFailed(s) && s@ == d,
        RwErr::NotRef(i) => e matches PostLoadError::FootnoteDefNotReferenced(s) && s@ == i,
        RwErr::MultiDef(i) => e matches PostLoadError::MultipleFootnoteDefinitions(s) && s@ == i,
        RwErr::MdErr(d) => e matches PostLoadError::MarkdownParseFailed(s) && s@ == d,
        RwErr::TableFull => e is Unknown,
    }
}

/// The nodes a list of rewritten subtrees joins back into.
pub open spec fn joined_kids(vs: Seq<TView>) -> Seq<markdown::mdast::Node> {
    vs.map_values(|v: TView| joined_of(v))
}

/// What rendering a footnote definition's rewritten children yields:
/// the children joined under a fresh root, serialized and compiled,
/// or the first engine failure.
pub open spec fn spec_def_body(kids: Seq<TView>) -> Result<Seq<char>, Seq<char>> {
    match markdown_of(root_of(joined_kids(kids))) {
        Err(e) => Err(e@),
        Ok(s) => match html_of(s@) {
            Err(e) => Err(e@),
            Ok(h) => Ok(h@),
        },
    }
}

/// What rewriting a single node yields, its children already
/// rewritten: the replacement (or deletion) and the next state, or
/// the failure — decided entirely by the node's class, the state and
/// the engines' named results.
pub open spec fn rw_finish(
    n: markdown::mdast::Node,
    kids: Option<Seq<TView>>,
    m: MState,
) -> Result<(Option<TView>, MState), RwErr> {
    match class_of(n) {
        NodeClass::CodeWith { value, lang } => match spec_syntax_highlight(value@, lang@) {
            Err(d) => Err(RwErr::Highlight(d)),
            Ok(h) => Ok((Some(TView::Leaf(html_node_of(h))), m)),
        },
        NodeClass::CodeBare => Ok(
            (
                Some(
                    match kids {
                        None => TView::Leaf(n),
                        Some(ks) => TView::Branch(n, ks),
                    },
                ),
                m,
            ),
        ),
        NodeClass::Other => Ok(
            (
                Some(
                    match kids {
                        None => TView::Leaf(n),
                        Some(ks) => TView::Branch(n, ks),
                    },
                ),
                m,
            ),
        ),
        NodeClass::MathBlock { value } => match spec_math_html(value@, false) {
            Err(d) => Err(RwErr::MathErr(d)),
            Ok(h) => Ok((Some(TView::Leaf(html_node_of(h))), m)),
        },
        NodeClass::MathInline { value } => match spec_math_html(value@, true) {
            Err(d) => Err(RwErr::MathErr(d)),
            Ok(h) => Ok((Some(TView::Leaf(html_node_of(h))), m)),
        },
        NodeClass::MetaYaml { value } => match meta_err(value@, true) {
            Some(d) => Err(RwErr::MetaErr(d)),
            None => Ok(
                (
                    None,
                    MState {
                        table: m.table,
                        meta: if m.meta is Some {
                            m.meta
                        } else {
                            Some(MetaSrc { text: value@, yaml: true })
                        },
                    },
                ),
            ),
        },
        NodeClass::MetaToml { value } => match meta_err(value@, false) {
            Some(d) => Err(RwErr::MetaErr(d)),
            None => Ok(
                (
                    None,
                    MState {
                        table: m.table,
                        meta: if m.meta is Some {
                            m.meta
                        } else {
                            Some(MetaSrc { text: value@, yaml: false })
                        },
                    },
                ),
            ),
        },
        NodeClass::FootRef { identifier } => if m.table.len() >= usize::MAX as nat {
            Err(RwErr::TableFull)
        } else {
            Ok(
                (
                    Some(
                        TView::Leaf(
                            html_node_of(
                                spec_ref_anchor(spec_reference(m.table, identifier@).1 as nat),
                            ),
                        ),
                    ),
                    MState { table: spec_reference(m.table, identifier@).0, meta: m.meta },
                ),
            )
        },
        NodeClass::FootDef { identifier } => match spec_define(m.table, identifier@) {
            Err(DefError::NotReferenced) => Err(RwErr::NotRef(identifier@)),
            Err(DefError::AlreadyResolved) => Err(RwErr::MultiDef(identifier@)),
            Ok(p) => match spec_def_body(
                match kids {
                    Some(ks) => ks,
                    None => Seq::empty(),
                },
            ) {
                Err(d) => Err(RwErr::MdErr(d)),
                Ok(h) => Ok(
                    (
                        Some(TView::Leaf(html_node_of(spec_def_block(p.1 as nat, h)))),
                        MState { table: p.0, meta: m.meta },
                    ),
                ),
            },
        },
    }
}

/// What the whole walk yields for a tree: children first, in document
/// order, then the node itself.
pub open spec fn rw_node(v: TView, m: MState) -> Result<(Option<TView>, MState), RwErr>
    decreases v, 1int, 0int,
{
    match v {
        TView::Leaf(n) => rw_finish(n, None, m),
        TView::Branch(n, cs) => match rw_kids(cs, 0, m) {
            Err(f) => Err(f),
            Ok(p) => rw_finish(n, Some(p.0), p.1),
        },
    }
}

/// What rewriting the children from position `j` on yields: their
/// replacements in order, deletions dropped, and the state after all
/// of them — or the first failure.
pub open spec fn rw_kids(cs: Seq<TView>, j: int, m: MState) -> Result<
    (Seq<TView>, MState),
    RwErr,
>
    decreases cs, 0int, cs.len() - j,
{
    if 0 <= j < cs.len() {
        match rw_node(cs[j], m) {
            Err(f) => Err(f),
            Ok(p) => match rw_kids(cs, j + 1, p.1) {
                Err(f) => Err(f),
                Ok(q) => Ok(
                    (
                        (match p.0 {
                            Some(v) => seq![v],
                            None => Seq::empty(),
                        }) + q.0,
                        q.1,
                    ),
                ),
            },
        }
    } else {
        Ok((Seq::empty(), m))
    }
}

/// Prepending already-rewritten children to a walk's outcome.
pub open spec fn rw_prepend(pre: Seq<TView>, r: Result<(Seq<TView>, MState), RwErr>) -> Result<
    (Seq<TView>, MState),
    RwErr,
> {
    match r {
        Ok(p) => Ok((pre + p.0, p.1)),
        Err(f) => Err(f),
    }
}

proof fn lemma_rw_prepend_assoc(
    a: Seq<TView>,
    b: Seq<TView>,
    r: Result<(Seq<TView>, MState), RwErr>,
)
    ensures
        rw_prepend(a, rw_prepend(b, r)) == rw_prepend(a + b, r),
{
    match r {
        Ok(p) => {
            assert(a + (b + p.0) =~= (a + b) + p.0);
        },
        Err(_) => {},
    }
}

proof fn lemma_rw_prepend_empty(r: Result<(Seq<TView>, MState), RwErr>)
    ensures
        rw_prepend(Seq::empty(), r) == r,
{
    match r {
        Ok(p) => {
            assert(Seq::<TView>::empty() + p.0 =~= p.0);
        },
        Err(_) => {},
    }
}

proof fn lemma_kids_view_index(s: Seq<Tree>, j: int)
    requires
        0 <= j <= s.len(),
    ensures
        kids_view(s, j).len() == s.len() - j,
        forall|i: int| j <= i < s.len() ==> kids_view(s, j)[i - j] == view_of(#[trigger] s[i]),
    decreases s.len() - j,
{
    if j < s.len() {
        lemma_kids_view_index(s, j + 1);
        assert forall|i: int| j <= i < s.len() implies kids_view(s, j)[i - j] == view_of(
            #[trigger] s[i],
        ) by {
            if i > j {
                assert(kids_view(s, j)[i - j] == kids_view(s, j + 1)[i - j - 1]);
            }
        }
    }
}

proof fn lemma_kids_view_push(s: Seq<Tree>, x: Tree, j: int)
    requires
        0 <= j <= s.len(),
    ensures
        kids_view(s.push(x), j) == kids_view(s, j) + seq![view_of(x)],
    decreases s.len() - j,
{
    let s2 = s.push(x);
    if j == s.len() {
        assert(s2[j] == x);
        assert(kids_view(s2, j + 1) =~= Seq::<TView>::empty());
        assert(kids_view(s, j) =~= Seq::<TView>::empty());
        assert(kids_view(s2, j) =~= kids_view(s, j) + seq![view_of(x)]);
    } else {
        assert(s2[j] == s[j]);
        lemma_kids_view_push(s, x, j + 1);
        assert(seq![view_of(s[j])] + (kids_view(s, j + 1) + seq![view_of(x)]) =~= (seq![
            view_of(s[j]),
        ] + kids_view(s, j + 1)) + seq![view_of(x)]);
    }
}

/// The second table extends the first: every entry keeps its place
/// and its identifier, a resolved entry stays resolved, and entries
/// are only appended. The walk only ever grows its table this way,
/// whether it succeeds or fails.
pub open spec fn table_extends(t1: Seq<(Seq<char>, bool)>, t2: Seq<(Seq<char>, bool)>) -> bool {
    &&& t1.len() <= t2.len()
    &&& forall|i: int|
        0 <= i < t1.len() ==> (#[trigger] t2[i]).0 == t1[i].0 && (t1[i].1 ==> t2[i].1)
}

pub proof fn lemma_extends_trans(
    a: Seq<(Seq<char>, bool)>,
    b: Seq<(Seq<char>, bool)>,
    c: Seq<(Seq<char>, bool)>,
)
    requires
        table_extends(a, b),
        table_extends(b, c),
    ensures
        table_extends(a, c),
{
}

/// Referencing only appends or leaves the table as it stands.
pub proof fn lemma_extends_reference(tbl: Seq<(Seq<char>, bool)>, id: Seq<char>)
    ensures
        table_extends(tbl, spec_reference(tbl, id).0),
{
}

/// A successful definition only flips its entry's resolved flag.
pub proof fn lemma_extends_define(tbl: Seq<(Seq<char>, bool)>, id: Seq<char>)
    ensures
        spec_define(tbl, id) matches Ok(p) ==> table_extends(tbl, p.0),
{
    crate::footnotes::lemma_find_id_bounds(tbl, id);
}

/// The walk's shared state: the metadata accumulator and the footnote
/// table, together with the text of the metadata block the accumulator
/// came from.
pub struct RewriteState {
    pub metadata: Option<PostMetadata>,
    pub footnotes: FootnoteTable,
    pub meta_src: Ghost<Option<MetaSrc>>,
}

/// The accumulator holds exactly what its recorded source block
/// yields.
pub open spec fn meta_matches(ms: MetaSrc, pm: PostMetadata) -> bool {
    if ms.yaml {
        spec_metadata_from_yaml(ms.text, Ok(pm))
    } else {
        spec_metadata_from_toml(ms.text, Ok(pm))
    }
}

pub open spec fn mstate_of(st: RewriteState) -> MState {
    MState { table: st.footnotes@, meta: st.meta_src@ }
}

impl RewriteState {
    /// The accumulator agrees with the recorded metadata source.
    pub open spec fn wf(self) -> bool {
        match self.meta_src@ {
            None => self.metadata is None,
            Some(ms) => self.metadata matches Some(pm) && meta_matches(ms, pm),
        }
    }

    pub fn new() -> (r: RewriteState)
        ensures
            r.wf(),
            r.metadata is None,
            mstate_of(r) == (MState { table: Seq::<(Seq<char>, bool)>::empty(), meta: None::<MetaSrc> }),
    {
        let r = RewriteState { metadata: None, footnotes: FootnoteTable::new(), meta_src: Ghost(None) };
        proof {
            assert(mstate_of(r) =~= MState {
                table: Seq::<(Seq<char>, bool)>::empty(),
                meta: None::<MetaSrc>,
            });
        }
        r
    }
}

/// The anchor a footnote reference becomes: a link to its number.
pub open spec fn spec_ref_anchor(num: nat) -> Seq<char> {
    "<a class=\"footnote-ref\" href=\"#footnote-"@ + dec_digits(num) + "\">"@ + dec_digits(num)
        + "</a>"@
}

fn footnote_ref_html(num: usize) -> (r: String)
    ensures
        r@ == spec_ref_anchor(num as nat),
{
    let n = usize_to_string(num);
    let mut out = String::from_str("<a class=\"footnote-ref\" href=\"#footnote-");
    out.append(n.as_str());
    out.append("\">");
    out.append(n.as_str());
    out.append("</a>");
    out
}

/// The block a footnote definition becomes: its number as the link
/// target, the marker, and the rendered body.
pub open spec fn spec_def_block(num: nat, body: Seq<char>) -> Seq<char> {
    "<div class=\"footnote-def\" id=\"footnote-"@ + dec_digits(num) + "\"><p>["@ + dec_digits(num)
        + "]: </p>"@ + body + "</div>"@
}

fn footnote_def_html(num: usize, body: &str) -> (r: String)
    ensures
        r@ == spec_def_block(num as nat, body@),
{
    let n = usize_to_string(num);
    let mut out = String::from_str("<div class=\"footnote-def\" id=\"footnote-");
    out.append(n.as_str());
    out.append("\"><p>[");
    out.append(n.as_str());
    out.append("]: </p>");
    out.append(body);
    out.append("</div>");
    out
}

/// Renders a definition's rewritten children: the subtree is
/// serialized back to markdown text and that text alone is compiled to
/// markup, under the same options as the outer document. The result is
/// exactly the engines' (`spec_def_body` of the children's views).
fn render_footnote_definition(children: Vec<Tree>) -> (r: Result<String, PostLoadError>)
    ensures
        match spec_def_body(kids_view(children@, 0)) {
            Ok(h) => r matches Ok(o) && o@ == h,
            Err(d) => r matches Err(PostLoadError::MarkdownParseFailed(s)) && s@ == d,
        },
        r matches Err(e) ==> e is MarkdownParseFailed,
{
    let ghost kids0 = children@;
    let ghost kv = kids_view(kids0, 0);
    let mut nodes: Vec<markdown::mdast::Node> = Vec::new();
    let mut rest = children;
    let ghost mut j: int = 0;
    proof {
        lemma_kids_view_index(kids0, 0);
        assert(rest@ =~= kids0.skip(0));
        assert(nodes@ =~= joined_kids(kv).take(0));
    }
    while rest.len() > 0
        invariant
            0 <= j <= kids0.len(),
            rest@ == kids0.skip(j),
            rest@.len() == kids0.len() - j,
            kv == kids_view(kids0, 0),
            kv.len() == kids0.len(),
            forall|i: int| 0 <= i < kids0.len() ==> kv[i] == view_of(#[trigger] kids0[i]),
            nodes@ == joined_kids(kv).take(j),
        decreases rest@.len(),
    {
        let c = rest.remove(0);
        proof {
            assert(kids0.skip(j)[0] == kids0[j]);
            assert(c == kids0[j]);
            assert(rest@ =~= kids0.skip(j + 1)) by {
                assert(rest@ =~= kids0.skip(j).drop_first());
            }
        }
        nodes.push(implode(c));
        proof {
            assert(joined_kids(kv)[j] == joined_of(kv[j]));
            assert(nodes@ =~= joined_kids(kv).take(j + 1));
            j = j + 1;
        }
    }
    proof {
        assert(j == kids0.len());
        assert(nodes@ =~= joined_kids(kv));
    }
    let root = root_node(nodes);
    let md = match tree_to_markdown(&root) {
        Ok(m) => m,
        Err(e) => {
            return Err(PostLoadError::MarkdownParseFailed(e));
        },
    };
    match md_to_html(md.as_str()) {
        Ok(h) => Ok(h),
        Err(e) => Err(PostLoadError::MarkdownParseFailed(e)),
    }
}

/// Rewrites a single node, its children already rewritten: the node's
/// own events are run against the machine, and the node is replaced,
/// deleted or kept as its class demands. The outcome — success or the
/// first failure, the replacement's content, and the next state — is
/// exactly `rw_finish` of the node, the children's views and the
/// state.
fn finish_node(
    node: markdown::mdast::Node,
    children: Option<Vec<Tree>>,
    state: &mut RewriteState,
) -> (r: Result<Option<Tree>, PostLoadError>)
    requires
        old(state).wf(),
        children matches Some(cs) ==> (forall|q: int|
            0 <= q < cs@.len() ==> clean(#[trigger] cs@[q])),
    ensures
        ({
            let kv = match children {
                Some(cs) => Some(kids_view(cs@, 0)),
                None => None::<Seq<TView>>,
            };
            match rw_finish(node, kv, mstate_of(*old(state))) {
                Ok(p) => r matches Ok(o2) && mstate_of(*final(state)) == p.1 && (match (
                    o2,
                    p.0,
                ) {
                    (Some(t2), Some(v2)) => view_of(t2) == v2,
                    (None, None) => true,
                    _ => false,
                }),
                Err(f) => r matches Err(e) && rw_err_matches(e, f),
            }
        }),
        table_extends(old(state).footnotes@, final(state).footnotes@),
        r is Ok ==> final(state).wf() && run_events(
            class_events(class_of(node)),
            mstate_of(*old(state)),
        ) == Ok::<MState, Fail>(mstate_of(*final(state))),
        r matches Ok(Some(t2)) ==> clean(t2),
        r matches Ok(opt) ==> ((opt is None) == (class_of(node) is MetaYaml || class_of(node)
            is MetaToml)),
        class_of(node) is CodeBare && children is None ==> r == Ok::<_, PostLoadError>(
            Some(Tree::Leaf(node)),
        ) && *final(state) == *old(state),
        r matches Err(e) ==> !(e is InvalidId) && !(e is NotFound) && !(e is NoMetadata),
        r matches Err(PostLoadError::FootnoteDefNotReferenced(s)) ==> run_events(
            class_events(class_of(node)),
            mstate_of(*old(state)),
        ) == Err::<MState, Fail>(Fail::FootNotRef(s@)),
        r matches Err(PostLoadError::MultipleFootnoteDefinitions(s)) ==> run_events(
            class_events(class_of(node)),
            mstate_of(*old(state)),
        ) == Err::<MState, Fail>(Fail::FootMulti(s@)),
        r matches Err(PostLoadError::MetadataParseFailed(d)) ==> (run_events(
            class_events(class_of(node)),
            mstate_of(*old(state)),
        ) matches Err(f) && f matches Fail::Meta(v, y) && (if y {
            spec_metadata_from_yaml(v, Err(d))
        } else {
            spec_metadata_from_toml(v, Err(d))
        })),
        r matches Err(PostLoadError::RenderMathFailed(d)) ==> (run_events(
            class_events(class_of(node)),
            mstate_of(*old(state)),
        ) matches Err(f) && f matches Fail::Math(v, inl) && (katex_output(v, !inl) matches Err(em)
            && em@ == d@)),
{
    let ghost m0 = mstate_of(*state);
    let c = classify(&node);
    match c {
        NodeClass::CodeWith { value, lang } => {
            proof {
                lemma_run_single(FEvent::Code(lang@), m0);
            }
            match syntax_highlight(value.as_str(), lang.as_str()) {
                Ok(h) => {
                    let n2 = html_node(h);
                    Ok(Some(Tree::Leaf(n2)))
                },
                Err(e) => Err(e),
            }
        },
        NodeClass::CodeBare => {
            let t2 = match children {
                Some(cs) => {
                    proof {
                        lemma_clean_from(cs@, 0);
                    }
                    Tree::Branch(node, cs)
                },
                None => Tree::Leaf(node),
            };
            Ok(Some(t2))
        },
        NodeClass::Other => {
            let t2 = match children {
                Some(cs) => {
                    proof {
                        lemma_clean_from(cs@, 0);
                    }
                    Tree::Branch(node, cs)
                },
                None => Tree::Leaf(node),
            };
            Ok(Some(t2))
        },
        NodeClass::MathBlock { value } => {
            proof {
                lemma_run_single(FEvent::Math(value@, false), m0);
            }
            match render_math(value.as_str(), false) {
                Ok(h) => {
                    let n2 = html_node(h);
                    Ok(Some(Tree::Leaf(n2)))
                },
                Err(e) => Err(e),
            }
        },
        NodeClass::MathInline { value } => {
            proof {
                lemma_run_single(FEvent::Math(value@, true), m0);
            }
            match render_math(value.as_str(), true) {
                Ok(h) => {
                    let n2 = html_node(h);
                    Ok(Some(Tree::Leaf(n2)))
                },
                Err(e) => Err(e),
            }
        },
        NodeClass::MetaYaml { value } => {
            proof {
                lemma_run_single(FEvent::MetaText(value@, true), m0);
            }
            match metadata_from_yaml(value.as_str()) {
                Ok(m) => {
                    proof {
                        lemma_meta_text_shape(value@, true, Ok(m));
                        lemma_meta_err(value@, true, Ok(m));
                    }
                    if state.metadata.is_none() {
                        state.metadata = Some(m);
                        state.meta_src = Ghost(Some(MetaSrc { text: value@, yaml: true }));
                    }
                    Ok(None)
                },
                Err(d) => {
                    proof {
                        lemma_meta_text_shape(value@, true, Err(d));
                        lemma_meta_err(value@, true, Err(d));
                    }
                    Err(PostLoadError::MetadataParseFailed(d))
                },
            }
        },
        NodeClass::MetaToml { value } => {
            proof {
                lemma_run_single(FEvent::MetaText(value@, false), m0);
            }
            match metadata_from_toml(value.as_str()) {
                Ok(m) => {
                    proof {
                        lemma_meta_text_shape(value@, false, Ok(m));
                        lemma_meta_err(value@, false, Ok(m));
                    }
                    if state.metadata.is_none() {
                        state.metadata = Some(m);
                        state.meta_src = Ghost(Some(MetaSrc { text: value@, yaml: false }));
                    }
                    Ok(None)
                },
                Err(d) => {
                    proof {
                        lemma_meta_text_shape(value@, false, Err(d));
                        lemma_meta_err(value@, false, Err(d));
                    }
                    Err(PostLoadError::MetadataParseFailed(d))
                },
            }
        },
        NodeClass::FootRef { identifier } => {
            proof {
                lemma_run_single(FEvent::Ref(identifier@), m0);
            }
            if state.footnotes.count() == usize::MAX {
                return Err(PostLoadError::Unknown);
            }
            proof {
                lemma_extends_reference(state.footnotes@, identifier@);
            }
            let num = state.footnotes.reference(&identifier);
            let html = footnote_ref_html(num);
            let n2 = html_node(html);
            Ok(Some(Tree::Leaf(n2)))
        },
        NodeClass::FootDef { identifier } => {
            proof {
                lemma_run_single(FEvent::Def(identifier@), m0);
            }
            proof {
                lemma_extends_define(state.footnotes@, identifier@);
            }
            match state.footnotes.define(&identifier) {
                Err(DefError::NotReferenced) => Err(
                    PostLoadError::FootnoteDefNotReferenced(identifier),
                ),
                Err(DefError::AlreadyResolved) => Err(
                    PostLoadError::MultipleFootnoteDefinitions(identifier),
                ),
                Ok(num) => {
                    let body = match children {
                        Some(cs) => cs,
                        None => Vec::new(),
                    };
                    proof {
                        assert(kids_view(Seq::<Tree>::empty(), 0) =~= Seq::<TView>::empty());
                    }
                    match render_footnote_definition(body) {
                        Err(e) => Err(e),
                        Ok(h) => {
                            let out = footnote_def_html(num, h.as_str());
                            let n2 = html_node(out);
                            Ok(Some(Tree::Leaf(n2)))
                        },
                    }
                },
            }
        },
    }
}

/// The rewriter's single pass. The outcome is exactly `rw_node` of
/// the tree's view from the entry state: success is owed whenever the
/// walk's machine and every engine step accept, the returned tree's
/// view and the shared state are exactly the walk's, and a failure is
/// exactly the walk's first. The machine's run over the tree's events
/// agrees on success, the returned tree — absent only for a consumed
/// metadata block — has no node left to rewrite, and the footnote
/// table only ever grows.
pub fn preprocess(t: Tree, state: &mut RewriteState) -> (r: Result<Option<Tree>, PostLoadError>)
    requires
        old(state).wf(),
    ensures
        ({
            match rw_node(view_of(t), mstate_of(*old(state))) {
                Ok(p) => r matches Ok(o2) && mstate_of(*final(state)) == p.1 && (match (
                    o2,
                    p.0,
                ) {
                    (Some(t2), Some(v2)) => view_of(t2) == v2,
                    (None, None) => true,
                    _ => false,
                }),
                Err(f) => r matches Err(e) && rw_err_matches(e, f),
            }
        }),
        table_extends(old(state).footnotes@, final(state).footnotes@),
        r is Ok ==> final(state).wf() && run_events(events_of(t), mstate_of(*old(state)))
            == Ok::<MState, Fail>(mstate_of(*final(state))),
        r matches Ok(Some(t2)) ==> clean(t2),
        r matches Ok(opt) ==> ((opt is None) == (root_class(t) is MetaYaml || root_class(t)
            is MetaToml)),
        (t matches Tree::Leaf(n) && class_of(n) is CodeBare) ==> r == Ok::<_, PostLoadError>(
            Some(t),
        ) && *final(state) == *old(state),
        r matches Err(e) ==> !(e is InvalidId) && !(e is NotFound) && !(e is NoMetadata),
        r matches Err(PostLoadError::FootnoteDefNotReferenced(s)) ==> run_events(
            events_of(t),
            mstate_of(*old(state)),
        ) == Err::<MState, Fail>(Fail::FootNotRef(s@)),
        r matches Err(PostLoadError::MultipleFootnoteDefinitions(s)) ==> run_events(
            events_of(t),
            mstate_of(*old(state)),
        ) == Err::<MState, Fail>(Fail::FootMulti(s@)),
        r matches Err(PostLoadError::MetadataParseFailed(d)) ==> (run_events(
            events_of(t),
            mstate_of(*old(state)),
        ) matches Err(f) && f matches Fail::Meta(v, y) && (if y {
            spec_metadata_from_yaml(v, Err(d))
        } else {
            spec_metadata_from_toml(v, Err(d))
        })),
        r matches Err(PostLoadError::RenderMathFailed(d)) ==> (run_events(
            events_of(t),
            mstate_of(*old(state)),
        ) matches Err(f) && f matches Fail::Math(v, inl) && (katex_output(v, !inl) matches Err(em)
            && em@ == d@)),
    decreases t,
{
    let ghost t0 = t;
    let ghost m0 = mstate_of(*state);
    match t {
        Tree::Leaf(node) => {
            proof {
                assert(events_of(t0) == class_events(class_of(node)));
                assert(root_class(t0) == class_of(node));
                assert(view_of(t0) == TView::Leaf(node));
            }
            finish_node(node, None, state)
        },
        Tree::Branch(node, cs) => {
            let ghost cs0 = cs@;
            let ghost kv0 = kids_view(cs0, 0);
            proof {
                assert(t0 == Tree::Branch(node, cs));
                assert(events_of(t0) == events_from(cs0, 0) + class_events(class_of(node)));
                assert(root_class(t0) == class_of(node));
                assert(view_of(t0) == TView::Branch(node, kv0));
                lemma_kids_view_index(cs0, 0);
            }
            let mut rest = cs;
            let mut done: Vec<Tree> = Vec::new();
            let ghost mut j: int = 0;
            let ghost mut dv: Seq<TView> = Seq::empty();
            proof {
                assert(rest@ =~= cs0.skip(0));
                assert(kids_view(done@, 0) =~= Seq::<TView>::empty());
                lemma_rw_prepend_empty(rw_kids(kv0, 0, m0));
            }
            while rest.len() > 0
                invariant
                    t0 is Branch,
                    t0->Branch_0 == node,
                    t0->Branch_1@ == cs0,
                    t == t0,
                    m0 == mstate_of(*old(state)),
                    old(state).wf(),
                    0 <= j <= cs0.len(),
                    rest@ == cs0.skip(j),
                    rest@.len() == cs0.len() - j,
                    state.wf(),
                    run_events(events_from(cs0, 0), m0) == run_events(
                        events_from(cs0, j),
                        mstate_of(*state),
                    ),
                    forall|q: int| 0 <= q < done@.len() ==> clean(#[trigger] done@[q]),
                    kv0 == kids_view(cs0, 0),
                    kv0.len() == cs0.len(),
                    forall|i: int| 0 <= i < cs0.len() ==> kv0[i] == view_of(#[trigger] cs0[i]),
                    dv == kids_view(done@, 0),
                    rw_prepend(dv, rw_kids(kv0, j, mstate_of(*state))) == rw_kids(kv0, 0, m0),
                    table_extends(old(state).footnotes@, state.footnotes@),
                decreases rest@.len(),
            {
                let ghost m_here = mstate_of(*state);
                let ghost tbl_here = state.footnotes@;
                let c = rest.remove(0);
                proof {
                    assert(cs0.skip(j)[0] == cs0[j]);
                    assert(c == cs0[j]);
                    assert(rest@ =~= cs0.skip(j + 1)) by {
                        assert(rest@ =~= cs0.skip(j).drop_first());
                    }
                    assert(events_of(t0) == events_from(cs0, 0) + class_events(class_of(node)));
                    assert(kv0[j] == view_of(c));
                    assert(decreases_to!(t0 => c)) by {
                        assert(t0->Branch_1@ == cs0);
                        assert(decreases_to!(t0 => t0->Branch_1));
                        assert(decreases_to!(t0->Branch_1 => t0->Branch_1@));
                        assert(decreases_to!(cs0 => cs0[j]));
                    }
                }
                let sub = match preprocess(c, state) {
                    Ok(o) => o,
                    Err(e) => {
                        proof {
                            assert(events_from(cs0, j) == events_of(cs0[j]) + events_from(
                                cs0,
                                j + 1,
                            ));
                            lemma_run_app(events_of(cs0[j]), events_from(cs0, j + 1), m_here);
                            lemma_run_app(events_from(cs0, 0), class_events(class_of(node)), m0);
                            assert(rw_node(kv0[j], m_here) is Err);
                            let f = rw_node(kv0[j], m_here)->Err_0;
                            assert(rw_kids(kv0, j, m_here) == Err::<(Seq<TView>, MState), RwErr>(
                                f,
                            ));
                            assert(rw_kids(kv0, 0, m0) == Err::<(Seq<TView>, MState), RwErr>(f));
                            assert(rw_node(view_of(t0), m0) == Err::<
                                (Option<TView>, MState),
                                RwErr,
                            >(f));
                            lemma_extends_trans(
                                old(state).footnotes@,
                                tbl_here,
                                state.footnotes@,
                            );
                        }
                        return Err(e);
                    },
                };
                proof {
                    assert(events_from(cs0, j) == events_of(cs0[j]) + events_from(cs0, j + 1));
                    lemma_run_app(events_of(cs0[j]), events_from(cs0, j + 1), m_here);
                    lemma_extends_trans(old(state).footnotes@, tbl_here, state.footnotes@);
                    let p = rw_node(kv0[j], m_here)->Ok_0;
                    let optseq: Seq<TView> = match p.0 {
                        Some(v) => seq![v],
                        None => Seq::<TView>::empty(),
                    };
                    assert(rw_kids(kv0, j, m_here) == rw_prepend(
                        optseq,
                        rw_kids(kv0, j + 1, p.1),
                    ));
                    lemma_rw_prepend_assoc(dv, optseq, rw_kids(kv0, j + 1, p.1));
                    j = j + 1;
                }
                match sub {
                    Some(ct) => {
                        proof {
                            lemma_kids_view_push(done@, ct, 0);
                            dv = dv + seq![view_of(ct)];
                        }
                        done.push(ct);
                    },
                    None => {
                        proof {
                            assert(dv + Seq::<TView>::empty() =~= dv);
                        }
                    },
                }
            }
            proof {
                assert(j == cs0.len());
                assert(events_from(cs0, j) =~= Seq::<FEvent>::empty());
                assert(run_events(events_from(cs0, 0), m0) == Ok::<MState, Fail>(
                    mstate_of(*state),
                ));
                lemma_run_app(events_from(cs0, 0), class_events(class_of(node)), m0);
                assert(rw_kids(kv0, j, mstate_of(*state)) == Ok::<(Seq<TView>, MState), RwErr>(
                    (Seq::empty(), mstate_of(*state)),
                ));
                assert(dv + Seq::<TView>::empty() =~= dv);
                assert(rw_kids(kv0, 0, m0) == Ok::<(Seq<TView>, MState), RwErr>(
                    (dv, mstate_of(*state)),
                ));
                lemma_extends_trans(old(state).footnotes@, state.footnotes@, state.footnotes@);
            }
            let ghost tbl_mid = state.footnotes@;
            let r2 = finish_node(node, Some(done), state);
            proof {
                lemma_extends_trans(old(state).footnotes@, tbl_mid, state.footnotes@);
            }
            r2
        },
    }
}

} // verus!
