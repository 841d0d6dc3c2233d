//! Element classification and per-element metadata: the configuration, the
//! placement kinds, the attribute helpers, and the payload one element
//! contributes.

use vstd::prelude::*;
use crate::ast::{Attr, AttrV, AttrValue, AttrValueV, BindingV, Child, ChildV, Element, ElementV,
    JsxName, JsxNameV, ScopedId, ScopedIdV, lemma_view_attr_list0, lemma_view_attr_push,
    lemma_view_child_list0, view_attr, view_attr_list, view_child, view_child_list, view_element,
    view_jsx_name};
use crate::bindings::BindingTable;
use crate::codec::{encode_payload, encode_tag, spec_encode_payload, spec_encode_tag};
use crate::json::{candidates_json, kinds_json, spec_candidates_json, spec_kinds_json,
    spec_symrefs_json, symrefs_json};
use crate::rank::{Candidate, CandidateV, aggregate_kinds, rank_candidates, spec_aggregate_kinds,
    spec_rank, view_candidates, view_texts};
use crate::span::{SourceInfo, SourceInfoV, get_line_info, spec_line_info, spec_normalize,
    normalize_filename, view_source_opt};
use crate::symref::{SymbolRef, SymbolRefV, collect_symbol_refs, spec_symrefs, view_symrefs};
use crate::text::{clone_text, push_all, text_eq, text_of};
use crate::trace::{ProvNode, ProvNodeV, TRACE_FUEL, spec_trace, trace_expr, view_ids,
    view_nodes};

verus! {

/// The transform's configuration: repository identifiers for the one-time
/// stamp, the reserved synthetic names, and the skip lists of opaque
/// pass-through components.
pub struct Config {
    pub repo_name: Option<Vec<char>>,
    pub branch_name: Option<Vec<char>>,
    pub wrapper_tag: Vec<char>,
    pub provider_ident: Vec<char>,
    pub skip_components: Vec<Vec<char>>,
    pub skip_member_roots: Vec<Vec<char>>,
}

pub struct ConfigV {
    pub repo_name: Option<Seq<char>>,
    pub branch_name: Option<Seq<char>>,
    pub wrapper_tag: Seq<char>,
    pub provider_ident: Seq<char>,
    pub skip_components: Seq<Seq<char>>,
    pub skip_member_roots: Seq<Seq<char>>,
}

pub open spec fn view_config(c: Config) -> ConfigV {
    ConfigV {
        repo_name: match c.repo_name {
            Some(t) => Some(t@),
            None => None,
        },
        branch_name: match c.branch_name {
            Some(t) => Some(t@),
            None => None,
        },
        wrapper_tag: c.wrapper_tag@,
        provider_ident: c.provider_ident@,
        skip_components: view_texts(c.skip_components@),
        skip_member_roots: view_texts(c.skip_member_roots@),
    }
}

impl Config {
    /// Build a configuration from plain values. An empty skip list falls
    /// back to the default opaque components, and an empty member-root
    /// list to the default member-chain family.
    pub fn new(
        repo_name: Option<Vec<char>>,
        branch_name: Option<Vec<char>>,
        skip_components: Vec<Vec<char>>,
        skip_member_roots: Vec<Vec<char>>,
    ) -> (r: Config)
        ensures
            view_config(r).repo_name == (match repo_name {
                Some(t) => Some(t@),
                None => None::<Seq<char>>,
            }),
            view_config(r).branch_name == (match branch_name {
                Some(t) => Some(t@),
                None => None::<Seq<char>>,
            }),
            view_config(r).wrapper_tag == "codepress-marker"@,
            view_config(r).provider_ident == "__CPProvider"@,
            view_config(r).skip_components == (if skip_components@.len() > 0 {
                view_texts(skip_components@)
            } else {
                seq!["Slot"@, "Link"@]
            }),
            view_config(r).skip_member_roots == (if skip_member_roots@.len() > 0 {
                view_texts(skip_member_roots@)
            } else {
                seq!["Primitive"@]
            }),
    {
        let skip_components = if skip_components.len() > 0 {
            skip_components
        } else {
            let mut d: Vec<Vec<char>> = Vec::new();
            d.push(text_of("Slot"));
            d.push(text_of("Link"));
            proof {
                assert(view_texts(d@) =~= seq!["Slot"@, "Link"@]);
            }
            d
        };
        let skip_member_roots = if skip_member_roots.len() > 0 {
            skip_member_roots
        } else {
            let mut d: Vec<Vec<char>> = Vec::new();
            d.push(text_of("Primitive"));
            proof {
                assert(view_texts(d@) =~= seq!["Primitive"@]);
            }
            d
        };
        Config {
            repo_name,
            branch_name,
            wrapper_tag: text_of("codepress-marker"),
            provider_ident: text_of("__CPProvider"),
            skip_components,
            skip_member_roots,
        }
    }
}

/// How the placement engine treats one element.
#[derive(PartialEq, Eq, Structural, Clone, Copy, Debug)]
pub enum PlacementKind {
    Markup,
    ComponentInvocation,
    SkippedComponent,
    Synthetic,
}

/// Is this tag one of the engine's own reserved synthetic names?
pub open spec fn spec_is_synthetic(n: JsxNameV, cfg: ConfigV) -> bool {
    match n {
        JsxNameV::Ident { name } => name == cfg.wrapper_tag || name == cfg.provider_ident || name
            == "__CPX"@,
        JsxNameV::Member { root } => root == "__CPX"@ || root == cfg.provider_ident,
        JsxNameV::Namespaced => false,
    }
}

/// Is this tag on the configured skip list of opaque pass-through
/// components?
pub open spec fn spec_is_skip(n: JsxNameV, cfg: ConfigV) -> bool {
    match n {
        JsxNameV::Ident { name } => cfg.skip_components.contains(name),
        JsxNameV::Member { root } => cfg.skip_member_roots.contains(root),
        JsxNameV::Namespaced => false,
    }
}

/// Does this tag follow the markup convention: a plain identifier whose
/// first character is an ASCII lower-case letter?
pub open spec fn spec_is_markup(n: JsxNameV) -> bool {
    match n {
        JsxNameV::Ident { name } => name.len() > 0 && 'a' <= name[0] <= 'z',
        _ => false,
    }
}

/// The placement decision, made once per element: reserved synthetic names
/// first, then the skip list, then the markup convention; everything else
/// is a component invocation.
pub open spec fn spec_classify(n: JsxNameV, cfg: ConfigV) -> PlacementKind {
    if spec_is_synthetic(n, cfg) {
        PlacementKind::Synthetic
    } else if spec_is_skip(n, cfg) {
        PlacementKind::SkippedComponent
    } else if spec_is_markup(n) {
        PlacementKind::Markup
    } else {
        PlacementKind::ComponentInvocation
    }
}

/// Does the list hold this text?
fn texts_contain(list: &Vec<Vec<char>>, t: &Vec<char>) -> (r: bool)
    ensures
        r == view_texts(list@).contains(t@),
{
    let mut i: usize = 0;
    while i < list.len()
        invariant
            i <= list@.len(),
            forall|j: int| 0 <= j < i ==> view_texts(list@)[j] != t@,
        decreases list@.len() - i,
    {
        if text_eq(&list[i], t) {
            proof {
                assert(view_texts(list@)[i as int] == t@);
            }
            return true;
        }
        proof {
            assert(view_texts(list@)[i as int] == list@[i as int]@);
        }
        i = i + 1;
    }
    proof {
        if view_texts(list@).contains(t@) {
            let j = choose|j: int| 0 <= j < view_texts(list@).len() && view_texts(list@)[j] == t@;
            assert(false);
        }
    }
    false
}

/// Decide how the engine treats a tag.
pub fn classify(n: &JsxName, cfg: &Config) -> (r: PlacementKind)
    ensures
        r == spec_classify(view_jsx_name(*n), view_config(*cfg)),
{
    match n {
        JsxName::Ident { name } => {
            let cpx = text_of("__CPX");
            if text_eq(name, &cfg.wrapper_tag) || text_eq(name, &cfg.provider_ident) || text_eq(
                name,
                &cpx,
            ) {
                return PlacementKind::Synthetic;
            }
            if texts_contain(&cfg.skip_components, name) {
                return PlacementKind::SkippedComponent;
            }
            if name.len() > 0 {
                let c = name[0];
                if 'a' <= c && c <= 'z' {
                    return PlacementKind::Markup;
                }
            }
            PlacementKind::ComponentInvocation
        },
        JsxName::Member { root } => {
            let cpx = text_of("__CPX");
            if text_eq(root, &cpx) || text_eq(root, &cfg.provider_ident) {
                return PlacementKind::Synthetic;
            }
            if texts_contain(&cfg.skip_member_roots, root) {
                return PlacementKind::SkippedComponent;
            }
            PlacementKind::ComponentInvocation
        },
        JsxName::Namespaced => PlacementKind::ComponentInvocation,
    }
}

// ---------------------------------------------------------------------------
// Attribute helpers
// ---------------------------------------------------------------------------

/// Does the attribute list hold a named attribute with this key?
pub open spec fn spec_has_attr(attrs: Seq<AttrV>, key: Seq<char>) -> bool {
    exists|i: int|
        0 <= i < attrs.len() && (#[trigger] attrs[i] matches AttrV::Named { name, .. } && name
            == key)
}

/// The list with the attribute appended, unless the key is present: an
/// existing attribute is never overridden.
pub open spec fn spec_attach(attrs: Seq<AttrV>, key: Seq<char>, val: Seq<char>) -> Seq<AttrV> {
    if spec_has_attr(attrs, key) {
        attrs
    } else {
        attrs.push(AttrV::Named { name: key, value: AttrValueV::Str { value: val } })
    }
}

/// Does the attribute list hold a named attribute with this key?
pub fn has_attr_key(attrs: &Vec<Attr>, key: &Vec<char>) -> (r: bool)
    ensures
        r == spec_has_attr(view_attr_list(attrs@, 0), key@),
{
    proof {
        lemma_view_attr_list0(attrs@);
    }
    let ghost av = view_attr_list(attrs@, 0);
    let mut i: usize = 0;
    while i < attrs.len()
        invariant
            i <= attrs@.len(),
            av == view_attr_list(attrs@, 0),
            av.len() == attrs@.len(),
            forall|j: int| 0 <= j < attrs@.len() ==> #[trigger] av[j] == view_attr(attrs@[j]),
            forall|j: int|
                0 <= j < i ==> !(#[trigger] av[j] matches AttrV::Named { name, .. } && name
                    == key@),
        decreases attrs@.len() - i,
    {
        match &attrs[i] {
            Attr::Named { name, .. } => {
                if text_eq(name, key) {
                    proof {
                        assert((av[i as int] matches AttrV::Named { name: n2, .. } && n2 == key@));
                    }
                    return true;
                }
            },
            _ => {},
        }
        i = i + 1;
    }
    proof {
        if spec_has_attr(av, key@) {
            let j = choose|j: int|
                0 <= j < av.len() && (#[trigger] av[j] matches AttrV::Named { name, .. } && name
                    == key@);
            assert(false);
        }
    }
    false
}

/// Attach a string attribute unless the key is present: an existing
/// attribute is never overridden.
pub fn attach_attr_string(attrs: &mut Vec<Attr>, key: Vec<char>, val: Vec<char>)
    ensures
        view_attr_list(final(attrs)@, 0) == spec_attach(
            view_attr_list(old(attrs)@, 0),
            key@,
            val@,
        ),
{
    let ghost pre = view_attr_list(attrs@, 0);
    if !has_attr_key(attrs, &key) {
        let ghost keyv = key@;
        let ghost valv = val@;
        attrs.push(Attr::Named { name: key, value: AttrValue::Str { value: val } });
        proof {
            assert(attrs@ =~= old(attrs)@.push(
                Attr::Named { name: key, value: AttrValue::Str { value: val } },
            ));
            lemma_view_attr_push(
                old(attrs)@,
                Attr::Named { name: key, value: AttrValue::Str { value: val } },
            );
        }
    }
}

// ---------------------------------------------------------------------------
// The payload one element contributes
// ---------------------------------------------------------------------------

/// The metadata computed for one element, each part serialized and masked:
/// the edit candidates, the source-kind tags, and the symbol references.
pub struct Payload {
    pub cands: Vec<char>,
    pub kinds: Vec<char>,
    pub symrefs: Vec<char>,
}

pub struct PayloadV {
    pub cands: Seq<char>,
    pub kinds: Seq<char>,
    pub symrefs: Seq<char>,
}

pub open spec fn view_payload(p: Payload) -> PayloadV {
    PayloadV { cands: p.cands@, kinds: p.kinds@, symrefs: p.symrefs@ }
}

pub open spec fn view_payloads(s: Seq<Payload>) -> Seq<PayloadV> {
    Seq::new(s.len(), |i: int| view_payload(s[i]))
}

/// The provenance chain of a fresh trace of one expression.
pub open spec fn spec_expr_chain(
    e: crate::ast::ExprV,
    bt: Map<ScopedIdV, BindingV>,
    src: Option<SourceInfoV>,
) -> Seq<ProvNodeV> {
    spec_trace(e, bt, src, TRACE_FUEL as nat, (Seq::empty(), Seq::empty())).0
}

/// The chain contributions of the attributes from position `i` on: each
/// expression-valued attribute and each spread is traced afresh.
pub open spec fn spec_gather_attrs(
    attrs: Seq<AttrV>,
    i: int,
    bt: Map<ScopedIdV, BindingV>,
    src: Option<SourceInfoV>,
    acc: Seq<ProvNodeV>,
) -> Seq<ProvNodeV>
    decreases attrs.len() - i,
{
    if 0 <= i < attrs.len() {
        let acc1 = match attrs[i] {
            AttrV::Named { value: AttrValueV::Expr { expr }, .. } => acc + spec_expr_chain(
                expr,
                bt,
                src,
            ),
            AttrV::Spread { expr } => acc + spec_expr_chain(expr, bt, src),
            _ => acc,
        };
        spec_gather_attrs(attrs, i + 1, bt, src, acc1)
    } else {
        acc
    }
}

/// The chain contributions of the children from position `i` on: each
/// expression child is traced afresh, and each text child contributes one
/// string literal.
pub open spec fn spec_gather_children(
    children: Seq<ChildV>,
    i: int,
    bt: Map<ScopedIdV, BindingV>,
    src: Option<SourceInfoV>,
    acc: Seq<ProvNodeV>,
) -> Seq<ProvNodeV>
    decreases children.len() - i,
{
    if 0 <= i < children.len() {
        let acc1 = match children[i] {
            ChildV::ExprChild { expr } => acc + spec_expr_chain(expr, bt, src),
            ChildV::Text { span, .. } => acc.push(
                ProvNodeV::Literal {
                    span: crate::span::spec_span_tag(span, src),
                    value_kind: "string"@,
                },
            ),
            _ => acc,
        };
        spec_gather_children(children, i + 1, bt, src, acc1)
    } else {
        acc
    }
}

/// The symbol references of the attributes from position `i` on.
pub open spec fn spec_refs_attrs(
    attrs: Seq<AttrV>,
    i: int,
    bt: Map<ScopedIdV, BindingV>,
    src: Option<SourceInfoV>,
    file: Seq<char>,
    acc: Seq<SymbolRefV>,
) -> Seq<SymbolRefV>
    decreases attrs.len() - i,
{
    if 0 <= i < attrs.len() {
        let acc1 = match attrs[i] {
            AttrV::Named { value: AttrValueV::Expr { expr }, .. } => spec_symrefs(
                expr,
                bt,
                src,
                file,
                1,
                acc,
            ),
            AttrV::Spread { expr } => spec_symrefs(expr, bt, src, file, 1, acc),
            _ => acc,
        };
        spec_refs_attrs(attrs, i + 1, bt, src, file, acc1)
    } else {
        acc
    }
}

/// The symbol references of the children from position `i` on.
pub open spec fn spec_refs_children(
    children: Seq<ChildV>,
    i: int,
    bt: Map<ScopedIdV, BindingV>,
    src: Option<SourceInfoV>,
    file: Seq<char>,
    acc: Seq<SymbolRefV>,
) -> Seq<SymbolRefV>
    decreases children.len() - i,
{
    if 0 <= i < children.len() {
        let acc1 = match children[i] {
            ChildV::ExprChild { expr } => spec_symrefs(expr, bt, src, file, 1, acc),
            _ => acc,
        };
        spec_refs_children(children, i + 1, bt, src, file, acc1)
    } else {
        acc
    }
}

/// The candidates with the element's own call site appended, unless a
/// candidate with the same reason and target is already present.
pub open spec fn spec_with_self_callsite(
    cands: Seq<CandidateV>,
    open_span: crate::ByteSpan,
    span: crate::ByteSpan,
    src: Option<SourceInfoV>,
    file: Seq<char>,
) -> Seq<CandidateV> {
    if !span.spec_is_dummy() {
        match spec_line_info(open_span, Some(span), src) {
            Some(li) => {
                let target = spec_normalize(file) + seq![':'] + li;
                if exists|j: int|
                    0 <= j < cands.len() && (#[trigger] cands[j]).reason == "callsite"@
                        && cands[j].target == target {
                    cands
                } else {
                    cands.push(CandidateV { target, reason: "callsite"@ })
                }
            },
            None => cands,
        }
    } else {
        cands
    }
}

/// The raw file name the spans of an element resolve in: the line table's
/// file, or the placeholder for a synthetic span or a missing table.
pub open spec fn spec_element_filename(span: crate::ByteSpan, src: Option<SourceInfoV>) -> Seq<
    char,
> {
    if src is Some && !span.spec_is_dummy() {
        src->0.file
    } else {
        "unknown"@
    }
}

/// The raw file name the spans of an element resolve in.
pub fn element_filename(src: &Option<SourceInfo>, span: crate::ByteSpan) -> (r: Vec<char>)
    ensures
        r@ == spec_element_filename(span, view_source_opt(*src)),
{
    match src {
        Some(info) => {
            if !span.is_dummy() {
                clone_text(&info.file)
            } else {
                text_of("unknown")
            }
        },
        None => text_of("unknown"),
    }
}

/// The value of the encoded location attribute: the masked normalized file
/// name, with `:startLine-endLine` appended when the lines are known.
pub open spec fn spec_fp_value(
    file: Seq<char>,
    open_span: crate::ByteSpan,
    span: crate::ByteSpan,
    src: Option<SourceInfoV>,
) -> Seq<char> {
    spec_encode_tag(spec_normalize(file)) + match spec_line_info(open_span, Some(span), src) {
        Some(li) => seq![':'] + li,
        None => Seq::empty(),
    }
}

/// Render the encoded location attribute value.
pub fn fp_attr_value(
    file: &Vec<char>,
    open_span: crate::ByteSpan,
    span: crate::ByteSpan,
    src: &Option<SourceInfo>,
) -> (r: Vec<char>)
    ensures
        r@ == spec_fp_value(file@, open_span, span, view_source_opt(*src)),
{
    let normalized = normalize_filename(file);
    let enc = encode_tag(&normalized);
    let mut r = text_of(enc.as_str());
    match get_line_info(src, open_span, Some(span)) {
        Some(li) => {
            r.push(':');
            push_all(&mut r, &li);
            proof {
                assert(r@ =~= spec_fp_value(file@, open_span, span, view_source_opt(*src)));
            }
        },
        None => {
            proof {
                assert(r@ =~= spec_fp_value(file@, open_span, span, view_source_opt(*src)));
            }
        },
    }
    r
}

/// The payload of one element: its provenance chain gathered over every
/// attribute and child expression, ranked with the element's own call
/// site, its kind tags, and its symbol references, each rendered as JSON
/// and masked.
pub open spec fn spec_payload(
    el: ElementV,
    bt: Map<ScopedIdV, BindingV>,
    src: Option<SourceInfoV>,
    file: Seq<char>,
) -> PayloadV {
    let chain = spec_gather_children(
        el.children,
        0,
        bt,
        src,
        spec_gather_attrs(el.attrs, 0, bt, src, Seq::empty()),
    );
    let cands = spec_with_self_callsite(spec_rank(chain), el.open_span, el.span, src, file);
    let kinds = spec_aggregate_kinds(chain);
    let refs = spec_refs_children(
        el.children,
        0,
        bt,
        src,
        file,
        spec_refs_attrs(el.attrs, 0, bt, src, file, Seq::empty()),
    );
    PayloadV {
        cands: spec_encode_payload(spec_candidates_json(cands)),
        kinds: spec_encode_payload(spec_kinds_json(kinds)),
        symrefs: spec_encode_payload(spec_symrefs_json(refs)),
    }
}

/// Is a candidate with this reason and target present?
fn has_callsite_candidate(cands: &Vec<Candidate>, target: &Vec<char>) -> (r: bool)
    ensures
        r == exists|j: int|
            0 <= j < view_candidates(cands@).len() && (#[trigger] view_candidates(cands@)[j]).reason
                == "callsite"@ && view_candidates(cands@)[j].target == target@,
{
    let reason = text_of("callsite");
    let mut i: usize = 0;
    while i < cands.len()
        invariant
            i <= cands@.len(),
            reason@ == "callsite"@,
            forall|j: int|
                0 <= j < i ==> !((#[trigger] view_candidates(cands@)[j]).reason == "callsite"@
                    && view_candidates(cands@)[j].target == target@),
        decreases cands@.len() - i,
    {
        let c = &cands[i];
        if text_eq(&c.reason, &reason) && text_eq(&c.target, target) {
            proof {
                assert(view_candidates(cands@)[i as int].reason == "callsite"@
                    && view_candidates(cands@)[i as int].target == target@);
            }
            return true;
        }
        proof {
            assert(view_candidates(cands@)[i as int] == crate::rank::view_candidate(
                cands@[i as int],
            ));
        }
        i = i + 1;
    }
    false
}

/// Compute the payload of one element, exactly as [`spec_payload`] states.
#[verifier::rlimit(100)]
#[verifier::spinoff_prover]
pub fn element_payload(
    el: &Element,
    bt: &BindingTable,
    src: &Option<SourceInfo>,
    file: &Vec<char>,
) -> (r: Payload)
    ensures
        view_payload(r) == spec_payload(view_element(*el), bt@, view_source_opt(*src), file@),
    decreases crate::ast::element_size(*el), 0int,
{
    let ghost btv = bt@;
    let ghost srcv = view_source_opt(*src);
    let ghost elv = view_element(*el);
    proof {
        lemma_view_attr_list0(el.attrs@);
        lemma_view_child_list0(el.children@);
    }
    let mut all_nodes: Vec<ProvNode> = Vec::new();
    let mut refs: Vec<SymbolRef> = Vec::new();
    let ghost av = view_attr_list(el.attrs@, 0);
    let ghost cv = view_child_list(el.children@, 0);
    proof {
        assert(view_nodes(all_nodes@) =~= Seq::<ProvNodeV>::empty());
        assert(view_symrefs(refs@) =~= Seq::<SymbolRefV>::empty());
    }
    let mut i: usize = 0;
    while i < el.attrs.len()
        invariant
            i <= el.attrs@.len(),
            btv == bt@,
            srcv == view_source_opt(*src),
            av == view_attr_list(el.attrs@, 0),
            av.len() == el.attrs@.len(),
            forall|j: int|
                0 <= j < el.attrs@.len() ==> #[trigger] av[j] == view_attr(el.attrs@[j]),
            spec_gather_attrs(av, 0, btv, srcv, Seq::empty()) == spec_gather_attrs(
                av,
                i as int,
                btv,
                srcv,
                view_nodes(all_nodes@),
            ),
            spec_refs_attrs(av, 0, btv, srcv, file@, Seq::empty()) == spec_refs_attrs(
                av,
                i as int,
                btv,
                srcv,
                file@,
                view_symrefs(refs@),
            ),
        decreases el.attrs@.len() - i,
    {
        let ghost nodes_pre = view_nodes(all_nodes@);
        let ghost refs_pre = view_symrefs(refs@);
        match &el.attrs[i] {
            Attr::Named { value: AttrValue::Expr { expr }, .. } => {
                let mut chain: Vec<ProvNode> = Vec::new();
                let mut seen: Vec<ScopedId> = Vec::new();
                proof {
                    assert(view_nodes(chain@) =~= Seq::<ProvNodeV>::empty());
                    assert(view_ids(seen@) =~= Seq::<ScopedIdV>::empty());
                }
                trace_expr(expr, bt, src, TRACE_FUEL, &mut chain, &mut seen);
                let ghost chain_v = view_nodes(chain@);
                all_nodes.append(&mut chain);
                proof {
                    assert(view_nodes(all_nodes@) =~= nodes_pre + chain_v);
                }
                collect_symbol_refs(expr, bt, src, file, 1, &mut refs);
            },
            Attr::Spread { expr } => {
                let mut chain: Vec<ProvNode> = Vec::new();
                let mut seen: Vec<ScopedId> = Vec::new();
                proof {
                    assert(view_nodes(chain@) =~= Seq::<ProvNodeV>::empty());
                    assert(view_ids(seen@) =~= Seq::<ScopedIdV>::empty());
                }
                trace_expr(expr, bt, src, TRACE_FUEL, &mut chain, &mut seen);
                let ghost chain_v = view_nodes(chain@);
                all_nodes.append(&mut chain);
                proof {
                    assert(view_nodes(all_nodes@) =~= nodes_pre + chain_v);
                }
                collect_symbol_refs(expr, bt, src, file, 1, &mut refs);
            },
            _ => {},
        }
        proof {
            assert(spec_gather_attrs(av, i as int, btv, srcv, nodes_pre) == spec_gather_attrs(
                av,
                i + 1 as int,
                btv,
                srcv,
                view_nodes(all_nodes@),
            ));
            assert(spec_refs_attrs(av, i as int, btv, srcv, file@, refs_pre) == spec_refs_attrs(
                av,
                i + 1 as int,
                btv,
                srcv,
                file@,
                view_symrefs(refs@),
            ));
        }
        i = i + 1;
    }
    let ghost after_attrs_nodes = view_nodes(all_nodes@);
    let ghost after_attrs_refs = view_symrefs(refs@);
    let mut k: usize = 0;
    while k < el.children.len()
        invariant
            k <= el.children@.len(),
            btv == bt@,
            srcv == view_source_opt(*src),
            cv == view_child_list(el.children@, 0),
            cv.len() == el.children@.len(),
            forall|j: int|
                0 <= j < el.children@.len() ==> #[trigger] cv[j] == view_child(el.children@[j]),
            spec_gather_children(cv, 0, btv, srcv, after_attrs_nodes) == spec_gather_children(
                cv,
                k as int,
                btv,
                srcv,
                view_nodes(all_nodes@),
            ),
            spec_refs_children(cv, 0, btv, srcv, file@, after_attrs_refs) == spec_refs_children(
                cv,
                k as int,
                btv,
                srcv,
                file@,
                view_symrefs(refs@),
            ),
        decreases el.children@.len() - k,
    {
        let ghost nodes_pre = view_nodes(all_nodes@);
        let ghost refs_pre = view_symrefs(refs@);
        match &el.children[k] {
            Child::ExprChild { expr } => {
                let mut chain: Vec<ProvNode> = Vec::new();
                let mut seen: Vec<ScopedId> = Vec::new();
                proof {
                    assert(view_nodes(chain@) =~= Seq::<ProvNodeV>::empty());
                    assert(view_ids(seen@) =~= Seq::<ScopedIdV>::empty());
                }
                trace_expr(expr, bt, src, TRACE_FUEL, &mut chain, &mut seen);
                let ghost chain_v = view_nodes(chain@);
                all_nodes.append(&mut chain);
                proof {
                    assert(view_nodes(all_nodes@) =~= nodes_pre + chain_v);
                }
                collect_symbol_refs(expr, bt, src, file, 1, &mut refs);
            },
            Child::Text { span, .. } => {
                let tag = crate::span::span_file_lines(src, *span);
                all_nodes.push(ProvNode::Literal { span: tag, value_kind: text_of("string") });
                proof {
                    assert(view_nodes(all_nodes@) =~= nodes_pre.push(
                        ProvNodeV::Literal {
                            span: crate::span::spec_span_tag(
                                el.children@[k as int]->Text_span,
                                srcv,
                            ),
                            value_kind: "string"@,
                        },
                    ));
                }
            },
            _ => {},
        }
        proof {
            assert(spec_gather_children(cv, k as int, btv, srcv, nodes_pre)
                == spec_gather_children(cv, k + 1 as int, btv, srcv, view_nodes(all_nodes@)));
            assert(spec_refs_children(cv, k as int, btv, srcv, file@, refs_pre)
                == spec_refs_children(cv, k + 1 as int, btv, srcv, file@, view_symrefs(refs@)));
        }
        k = k + 1;
    }
    proof {
        assert(spec_gather_attrs(av, av.len() as int, btv, srcv, after_attrs_nodes)
            == after_attrs_nodes);
        assert(spec_refs_attrs(av, av.len() as int, btv, srcv, file@, after_attrs_refs)
            == after_attrs_refs);
        assert(spec_gather_children(cv, cv.len() as int, btv, srcv, view_nodes(all_nodes@))
            == view_nodes(all_nodes@));
        assert(spec_refs_children(cv, cv.len() as int, btv, srcv, file@, view_symrefs(refs@))
            == view_symrefs(refs@));
    }
    let ghost chain_all = view_nodes(all_nodes@);
    proof {
        assert(chain_all == spec_gather_children(
            cv,
            0,
            btv,
            srcv,
            spec_gather_attrs(av, 0, btv, srcv, Seq::empty()),
        ));
    }
    let mut cands = rank_candidates(&all_nodes);
    // the element's own call site, unless already present
    if !el.span.is_dummy() {
        match get_line_info(src, el.open_span, Some(el.span)) {
            Some(li) => {
                let mut target = normalize_filename(file);
                target.push(':');
                push_all(&mut target, &li);
                let ghost tv = spec_normalize(file@) + seq![':'] + li@;
                proof {
                    assert(target@ =~= tv);
                }
                let ghost cands_pre = view_candidates(cands@);
                if !has_callsite_candidate(&cands, &target) {
                    cands.push(Candidate { target, reason: text_of("callsite") });
                    proof {
                        assert(view_candidates(cands@) =~= cands_pre.push(
                            CandidateV { target: tv, reason: "callsite"@ },
                        ));
                    }
                }
            },
            None => {},
        }
    }
    proof {
        assert(view_candidates(cands@) == spec_with_self_callsite(
            spec_rank(chain_all),
            el.open_span,
            el.span,
            srcv,
            file@,
        ));
    }
    let kinds = aggregate_kinds(&all_nodes);
    let cands_text = candidates_json(&cands);
    let kinds_text = kinds_json(&kinds);
    let refs_text = symrefs_json(&refs);
    let cands_enc = encode_payload(&cands_text);
    let kinds_enc = encode_payload(&kinds_text);
    let refs_enc = encode_payload(&refs_text);
    let r = Payload {
        cands: text_of(cands_enc.as_str()),
        kinds: text_of(kinds_enc.as_str()),
        symrefs: text_of(refs_enc.as_str()),
    };
    proof {
        assert(elv.attrs == av && elv.children == cv);
    }
    r
}

} // verus!
