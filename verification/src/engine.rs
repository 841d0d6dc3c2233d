//! The placement engine: one depth-first pass that decides, per element,
//! whether metadata can be attached directly or must be carried by a
//! temporary synthetic marker, and the one-time repository stamp.

use vstd::prelude::*;
use crate::ByteSpan;
use crate::ast::{Attr, AttrV, AttrValue, AttrValueV, Child, ChildV, Element, ElementV, Expr,
    ExprV, JsxName, JsxNameV, PropEntry, PropEntryV, PropKey, PropKeyV, child_list_size,
    element_size, lemma_child_list_size, lemma_view_attr_list0, lemma_view_attr_push,
    lemma_view_child_list0, lemma_view_child_push, view_attr, view_attr_list, view_child,
    view_child_list, view_element, view_jsx_name};
use crate::bindings::BindingTable;
use crate::codec::{encode_payload, spec_encode_payload, spec_xor_decode, xor_decode,
    text_to_string};
use crate::place::{Config, ConfigV, Payload, PayloadV, PlacementKind, attach_attr_string,
    classify, element_filename, element_payload, fp_attr_value, spec_attach, spec_classify,
    spec_element_filename, spec_fp_value, spec_payload, view_config, view_payload,
    view_payloads};
use crate::span::{SourceInfo, SourceInfoV, view_source_opt};
use crate::text::{clone_text, push_all, text_eq, text_of};

verus! {

/// Is this tag one of the root-like markup tags that may receive the
/// one-time repository stamp?
pub open spec fn spec_is_root_tag(n: JsxNameV) -> bool {
    match n {
        JsxNameV::Ident { name } => name == "html"@ || name == "body"@ || name == "div"@,
        _ => false,
    }
}

/// The one-time repository stamp: the first root-like element visited
/// anywhere in the build receives the repository and branch attributes,
/// and the shared flag flips so that no later element does.
pub open spec fn spec_stamp(attrs: Seq<AttrV>, name: JsxNameV, cfg: ConfigV, stamp: bool) -> (
    Seq<AttrV>,
    bool,
) {
    if cfg.repo_name is Some && !stamp && spec_is_root_tag(name) {
        let a1 = spec_attach(attrs, "codepress-github-repo-name"@, cfg.repo_name->0);
        let a2 = match cfg.branch_name {
            Some(b) => spec_attach(a1, "codepress-github-branch"@, b),
            None => a1,
        };
        (a2, true)
    } else {
        (attrs, stamp)
    }
}

/// Apply the one-time repository stamp to this element's attributes.
fn stamp_attrs(attrs: &mut Vec<Attr>, name: &JsxName, cfg: &Config, stamp_done: &mut bool)
    ensures
        (view_attr_list(final(attrs)@, 0), *final(stamp_done)) == spec_stamp(
            view_attr_list(old(attrs)@, 0),
            view_jsx_name(*name),
            view_config(*cfg),
            *old(stamp_done),
        ),
{
    let is_root = match name {
        JsxName::Ident { name: n } => {
            let html = text_of("html");
            let body = text_of("body");
            let div = text_of("div");
            text_eq(n, &html) || text_eq(n, &body) || text_eq(n, &div)
        },
        _ => false,
    };
    if !*stamp_done && is_root {
        match &cfg.repo_name {
            Some(repo) => {
                attach_attr_string(attrs, text_of("codepress-github-repo-name"), clone_text(repo));
                match &cfg.branch_name {
                    Some(branch) => {
                        attach_attr_string(
                            attrs,
                            text_of("codepress-github-branch"),
                            clone_text(branch),
                        );
                    },
                    None => {},
                }
                *stamp_done = true;
            },
            None => {},
        }
    }
}

// ---------------------------------------------------------------------------
// Merging hoisted payloads into attributes
// ---------------------------------------------------------------------------

/// Does the text have the shape of a JSON array: at least the two
/// brackets, with `[` first and `]` last?
pub open spec fn spec_array_shape(t: Seq<char>) -> bool {
    t.len() >= 2 && t[0] == '[' && t[t.len() - 1] == ']'
}

/// The literal concatenation of two JSON array bodies, without semantic
/// deduplication. An empty side yields the other array unchanged.
pub open spec fn spec_merge_arrays(d: Seq<char>, s: Seq<char>) -> Seq<char> {
    let db = d.subrange(1, d.len() - 1);
    let sb = s.subrange(1, s.len() - 1);
    if db.len() == 0 {
        s
    } else if sb.len() == 0 {
        d
    } else {
        seq!['['] + db + seq![','] + sb + seq![']']
    }
}

/// The merged value of one masked array attribute: both sides unmasked,
/// their array bodies concatenated, and the result masked again. Where
/// either side does not unmask to an array, the present value stays.
pub open spec fn spec_merge_value(dest: Seq<char>, incoming: Seq<char>) -> Seq<char> {
    match spec_xor_decode(dest) {
        Some(d) => match spec_xor_decode(incoming) {
            Some(s) => if spec_array_shape(d) && spec_array_shape(s) {
                spec_encode_payload(spec_merge_arrays(d, s))
            } else {
                dest
            },
            None => dest,
        },
        None => dest,
    }
}

/// The index of the first named attribute with this key, or the length.
pub open spec fn spec_find_attr(attrs: Seq<AttrV>, i: int, key: Seq<char>) -> int
    decreases attrs.len() - i,
{
    if 0 <= i < attrs.len() {
        if attrs[i] matches AttrV::Named { name, .. } && name == key {
            i
        } else {
            spec_find_attr(attrs, i + 1, key)
        }
    } else {
        attrs.len() as int
    }
}

/// The attribute list with one hoisted value merged in: an absent key is
/// appended; a present string value is merged by array-body concatenation;
/// a present value of any other shape stays untouched.
pub open spec fn spec_merge_attr(attrs: Seq<AttrV>, key: Seq<char>, incoming: Seq<char>) -> Seq<
    AttrV,
> {
    let i = spec_find_attr(attrs, 0, key);
    if i == attrs.len() {
        attrs.push(AttrV::Named { name: key, value: AttrValueV::Str { value: incoming } })
    } else {
        match attrs[i] {
            AttrV::Named { value: AttrValueV::Str { value: old_val }, .. } => attrs.update(
                i,
                AttrV::Named {
                    name: key,
                    value: AttrValueV::Str { value: spec_merge_value(old_val, incoming) },
                },
            ),
            _ => attrs,
        }
    }
}

/// What `spec_find_attr` finds is the first match.
proof fn lemma_find_attr(attrs: Seq<AttrV>, i: int, key: Seq<char>)
    requires
        0 <= i <= attrs.len(),
    ensures
        i <= spec_find_attr(attrs, i, key) <= attrs.len(),
        spec_find_attr(attrs, i, key) < attrs.len() ==> (attrs[spec_find_attr(attrs, i, key)]
            matches AttrV::Named { name, .. } && name == key),
        forall|j: int|
            i <= j < spec_find_attr(attrs, i, key) ==> !(#[trigger] attrs[j] matches AttrV::Named {
                name,
                ..
            } && name == key),
    decreases attrs.len() - i,
{
    if i < attrs.len() {
        if !(attrs[i] matches AttrV::Named { name, .. } && name == key) {
            lemma_find_attr(attrs, i + 1, key);
        }
    }
}

/// Compute the merged value of one masked array attribute.
fn merge_value(dest: &Vec<char>, incoming: &Vec<char>) -> (r: Vec<char>)
    ensures
        r@ == spec_merge_value(dest@, incoming@),
{
    let dest_s = text_to_string(dest);
    let d = match xor_decode(dest_s.as_str()) {
        Some(t) => t,
        None => {
            return clone_text(dest);
        },
    };
    let inc_s = text_to_string(incoming);
    let s = match xor_decode(inc_s.as_str()) {
        Some(t) => t,
        None => {
            return clone_text(dest);
        },
    };
    let d_text = text_of(d.as_str());
    let s_text = text_of(s.as_str());
    let d_shape = d_text.len() >= 2 && d_text[0] == '[' && d_text[d_text.len() - 1] == ']';
    let s_shape = s_text.len() >= 2 && s_text[0] == '[' && s_text[s_text.len() - 1] == ']';
    if !(d_shape && s_shape) {
        return clone_text(dest);
    }
    // concatenate the two array bodies
    let ghost db_v = d_text@.subrange(1, d_text@.len() - 1);
    let ghost sb_v = s_text@.subrange(1, s_text@.len() - 1);
    if d_text.len() == 2 {
        proof {
            assert(db_v.len() == 0);
        }
        let enc = encode_payload(&s_text);
        proof {
            assert(spec_merge_arrays(d_text@, s_text@) == s_text@);
        }
        return text_of(enc.as_str());
    }
    if s_text.len() == 2 {
        proof {
            assert(sb_v.len() == 0);
        }
        let enc = encode_payload(&d_text);
        proof {
            assert(spec_merge_arrays(d_text@, s_text@) == d_text@);
        }
        return text_of(enc.as_str());
    }
    let mut merged: Vec<char> = Vec::new();
    merged.push('[');
    let mut i: usize = 1;
    while i < d_text.len() - 1
        invariant
            1 <= i <= d_text@.len() - 1,
            d_text@.len() >= 2,
            merged@ == seq!['['] + d_text@.subrange(1, i as int),
        decreases d_text@.len() - i,
    {
        merged.push(d_text[i]);
        proof {
            assert(merged@ =~= seq!['['] + d_text@.subrange(1, i + 1 as int));
        }
        i = i + 1;
    }
    merged.push(',');
    let ghost mid = seq!['['] + db_v + seq![','];
    proof {
        assert(merged@ =~= mid);
    }
    let mut k: usize = 1;
    while k < s_text.len() - 1
        invariant
            1 <= k <= s_text@.len() - 1,
            s_text@.len() >= 2,
            merged@ == mid + s_text@.subrange(1, k as int),
        decreases s_text@.len() - k,
    {
        merged.push(s_text[k]);
        proof {
            assert(merged@ =~= mid + s_text@.subrange(1, k + 1 as int));
        }
        k = k + 1;
    }
    merged.push(']');
    proof {
        assert(merged@ =~= seq!['['] + db_v + seq![','] + sb_v + seq![']']);
        assert(spec_merge_arrays(d_text@, s_text@) == merged@);
    }
    let enc = encode_payload(&merged);
    text_of(enc.as_str())
}

/// Merge one hoisted value into the attribute list, as [`spec_merge_attr`]
/// states.
pub(crate) fn merge_attr(attrs: &mut Vec<Attr>, key: &Vec<char>, incoming: &Vec<char>)
    ensures
        view_attr_list(final(attrs)@, 0) == spec_merge_attr(
            view_attr_list(old(attrs)@, 0),
            key@,
            incoming@,
        ),
{
    proof {
        lemma_view_attr_list0(attrs@);
        lemma_find_attr(view_attr_list(attrs@, 0), 0, key@);
    }
    let ghost av = view_attr_list(attrs@, 0);
    let ghost found = spec_find_attr(av, 0, key@);
    let mut i: usize = 0;
    while i < attrs.len()
        invariant
            i <= attrs@.len(),
            av == view_attr_list(attrs@, 0),
            av.len() == attrs@.len(),
            forall|j: int|
                0 <= j < attrs@.len() ==> #[trigger] av[j] == view_attr(attrs@[j]),
            forall|j: int|
                0 <= j < i ==> !(#[trigger] av[j] matches AttrV::Named { name, .. } && name
                    == key@),
            found == spec_find_attr(av, 0, key@),
            i <= found <= av.len(),
            attrs@ == old(attrs)@,
        decreases attrs@.len() - i,
    {
        let hit = match &attrs[i] {
            Attr::Named { name, .. } => text_eq(name, key),
            _ => false,
        };
        proof {
            lemma_find_attr(av, 0, key@);
            if hit {
                assert((av[i as int] matches AttrV::Named { name, .. } && name == key@));
                assert(found == i);
            } else {
                assert(!(av[i as int] matches AttrV::Named { name, .. } && name == key@));
                if found == i {
                    assert(false);
                }
            }
        }
        if hit {
            match &attrs[i] {
                Attr::Named { value: AttrValue::Str { value: old_val }, .. } => {
                    let ghost old_val_v = old_val@;
                    proof {
                        assert(av[i as int] == view_attr(attrs@[i as int]));
                        assert(av[i as int] matches AttrV::Named { value: AttrValueV::Str { value: v }, .. }
                            && v == old_val_v);
                    }
                    let merged = merge_value(old_val, incoming);
                    let new_attr = Attr::Named {
                        name: clone_text(key),
                        value: AttrValue::Str { value: merged },
                    };
                    let ghost new_v = view_attr(new_attr);
                    proof {
                        assert(new_v == AttrV::Named {
                            name: key@,
                            value: AttrValueV::Str {
                                value: spec_merge_value(old_val_v, incoming@),
                            },
                        });
                    }
                    attrs.set(i, new_attr);
                    proof {
                        lemma_view_attr_list0(attrs@);
                        assert(attrs@ =~= old(attrs)@.update(i as int, new_attr));
                        assert(view_attr_list(attrs@, 0) =~= av.update(i as int, new_v)) by {
                            lemma_view_attr_list0(old(attrs)@);
                            assert forall|j: int| 0 <= j < attrs@.len() implies view_attr_list(
                                attrs@,
                                0,
                            )[j] == av.update(i as int, new_v)[j] by {
                                if j != i {
                                    assert(attrs@[j] == old(attrs)@[j]);
                                }
                            }
                        }
                        assert(spec_merge_attr(av, key@, incoming@) == av.update(i as int, new_v));
                    }
                    return;
                },
                _ => {
                    proof {
                        assert(spec_merge_attr(av, key@, incoming@) == av);
                    }
                    return;
                },
            }
        }
        i = i + 1;
    }
    proof {
        assert(found == av.len());
    }
    let ghost pre = view_attr_list(attrs@, 0);
    let new_attr = Attr::Named {
        name: clone_text(key),
        value: AttrValue::Str { value: clone_text(incoming) },
    };
    let ghost new_v = view_attr(new_attr);
    attrs.push(new_attr);
    proof {
        assert(attrs@ =~= old(attrs)@.push(new_attr));
        lemma_view_attr_push(old(attrs)@, new_attr);
        assert(new_v == AttrV::Named {
            name: key@,
            value: AttrValueV::Str { value: incoming@ },
        });
        assert(spec_merge_attr(av, key@, incoming@) == av.push(new_v));
    }
}

/// The attribute list with every hoisted payload from position `i` on
/// merged in, candidates first, then kinds, then symbol references.
pub open spec fn spec_absorb(attrs: Seq<AttrV>, payloads: Seq<PayloadV>, i: int) -> Seq<AttrV>
    decreases payloads.len() - i,
{
    if 0 <= i < payloads.len() {
        let a1 = spec_merge_attr(attrs, "data-codepress-edit-candidates"@, payloads[i].cands);
        let a2 = spec_merge_attr(a1, "data-codepress-source-kinds"@, payloads[i].kinds);
        let a3 = spec_merge_attr(a2, "data-codepress-symbol-refs"@, payloads[i].symrefs);
        spec_absorb(a3, payloads, i + 1)
    } else {
        attrs
    }
}

/// Merge every hoisted payload into the attribute list, in order.
fn absorb_payloads(attrs: &mut Vec<Attr>, payloads: &Vec<Payload>)
    ensures
        view_attr_list(final(attrs)@, 0) == spec_absorb(
            view_attr_list(old(attrs)@, 0),
            view_payloads(payloads@),
            0,
        ),
{
    let ghost pv = view_payloads(payloads@);
    let ghost start = view_attr_list(attrs@, 0);
    let key_cands = text_of("data-codepress-edit-candidates");
    let key_kinds = text_of("data-codepress-source-kinds");
    let key_refs = text_of("data-codepress-symbol-refs");
    let mut i: usize = 0;
    while i < payloads.len()
        invariant
            i <= payloads@.len(),
            pv == view_payloads(payloads@),
            pv.len() == payloads@.len(),
            key_cands@ == "data-codepress-edit-candidates"@,
            key_kinds@ == "data-codepress-source-kinds"@,
            key_refs@ == "data-codepress-symbol-refs"@,
            spec_absorb(start, pv, 0) == spec_absorb(view_attr_list(attrs@, 0), pv, i as int),
        decreases payloads@.len() - i,
    {
        let ghost pre = view_attr_list(attrs@, 0);
        let p = &payloads[i];
        proof {
            assert(pv[i as int] == view_payload(payloads@[i as int]));
        }
        merge_attr(attrs, &key_cands, &p.cands);
        merge_attr(attrs, &key_kinds, &p.kinds);
        merge_attr(attrs, &key_refs, &p.symrefs);
        proof {
            assert(spec_absorb(pre, pv, i as int) == spec_absorb(
                view_attr_list(attrs@, 0),
                pv,
                i + 1 as int,
            ));
        }
        i = i + 1;
    }
}

// ---------------------------------------------------------------------------
// The synthetic marker
// ---------------------------------------------------------------------------

/// The style attribute of a marker: a zero-layout-impact object literal.
pub open spec fn spec_style_attr() -> AttrV {
    AttrV::Named {
        name: "style"@,
        value: AttrValueV::Expr {
            expr: ExprV::Object {
                props: seq![
                    PropEntryV::KeyValue {
                        key: PropKeyV::Ident {
                            name: "display"@,
                            span: ByteSpan { lo: 0, hi: 0 },
                        },
                        value: ExprV::LitStr {
                            value: "contents"@,
                            span: ByteSpan { lo: 0, hi: 0 },
                        },
                    },
                ],
                span: ByteSpan { lo: 0, hi: 0 },
            },
        },
    }
}

/// The synthetic marker wrapped around one component invocation: the
/// reserved wrapper tag, the style attribute, the encoded call-site
/// attribute, and the invocation as its only child.
pub open spec fn spec_marker(cfg: ConfigV, callsite: Seq<char>, inv: ElementV) -> ElementV {
    ElementV {
        name: JsxNameV::Ident { name: cfg.wrapper_tag },
        attrs: seq![
            spec_style_attr(),
            AttrV::Named {
                name: "data-codepress-callsite"@,
                value: AttrValueV::Str { value: callsite },
            },
        ],
        children: seq![ChildV::Element { el: Box::new(inv) }],
        open_span: ByteSpan { lo: 0, hi: 0 },
        span: ByteSpan { lo: 0, hi: 0 },
    }
}

/// Build the synthetic marker around one invocation.
fn make_marker(cfg: &Config, callsite: Vec<char>, inv: Element) -> (r: Element)
    ensures
        view_element(r) == spec_marker(view_config(*cfg), callsite@, view_element(inv)),
{
    let ghost invv = view_element(inv);
    let style_expr = Expr::Object {
        props: {
            let mut props: Vec<PropEntry> = Vec::new();
            props.push(
                PropEntry::KeyValue {
                    key: PropKey::Ident { name: text_of("display"), span: ByteSpan::dummy() },
                    value: Expr::LitStr { value: text_of("contents"), span: ByteSpan::dummy() },
                },
            );
            props
        },
        span: ByteSpan::dummy(),
    };
    let mut attrs: Vec<Attr> = Vec::new();
    attrs.push(Attr::Named { name: text_of("style"), value: AttrValue::Expr { expr: style_expr } });
    attrs.push(
        Attr::Named {
            name: text_of("data-codepress-callsite"),
            value: AttrValue::Str { value: callsite },
        },
    );
    let mut children: Vec<Child> = Vec::new();
    children.push(Child::Element { el: Box::new(inv) });
    let r = Element {
        name: JsxName::Ident { name: clone_text(&cfg.wrapper_tag) },
        attrs,
        children,
        open_span: ByteSpan::dummy(),
        span: ByteSpan::dummy(),
    };
    proof {
        crate::ast::lemma_view_attr_list0(r.attrs@);
        crate::ast::lemma_view_child_list0(r.children@);
        assert(view_attr_list(r.attrs@, 0) =~= spec_marker(
            view_config(*cfg),
            callsite@,
            invv,
        ).attrs) by {
            assert(view_attr(r.attrs@[0]) == spec_style_attr()) by {
                reveal_with_fuel(crate::ast::view_expr, 3);
                assert(crate::ast::view_prop_list(
                    r.attrs@[0]->Named_value->Expr_expr->Object_props@,
                    0,
                ) =~= spec_style_attr()->Named_value->Expr_expr->Object_props);
            }
            assert(view_attr(r.attrs@[1]) == spec_marker(
                view_config(*cfg),
                callsite@,
                invv,
            ).attrs[1]);
        }
        assert(view_child_list(r.children@, 0) =~= seq![ChildV::Element { el: Box::new(invv) }]);
    }
    r
}

// ---------------------------------------------------------------------------
// The placement pass
// ---------------------------------------------------------------------------

/// What the placement pass makes of one element: the rewritten element,
/// the payloads rising toward the nearest enclosing markup element, and
/// the stamp flag after the visit.
///
/// Elements are visited parents first. A reserved synthetic tag and a
/// skip-listed component are never instrumented themselves; a markup
/// element receives its location, payload and call-site attributes
/// directly and absorbs every payload rising from its subtree; any other
/// element is a component invocation: it keeps only its location
/// attribute, is wrapped in a synthetic marker carrying its call site, and
/// its payload rises to the nearest enclosing markup element, or stays on
/// the marker when none is open.
pub open spec fn spec_instrument(
    el: ElementV,
    cfg: ConfigV,
    bt: Map<crate::ast::ScopedIdV, crate::ast::BindingV>,
    src: Option<SourceInfoV>,
    stamp: bool,
    anc: bool,
) -> (ElementV, Seq<PayloadV>, bool)
    decreases el, 1int, 0int,
{
    let file = spec_element_filename(el.span, src);
    let kind = spec_classify(el.name, cfg);
    if kind == PlacementKind::Synthetic || kind == PlacementKind::SkippedComponent {
        let rec = spec_instrument_children(el.children, 0, cfg, bt, src, stamp, anc);
        (
            ElementV {
                name: el.name,
                attrs: el.attrs,
                children: rec.0,
                open_span: el.open_span,
                span: el.span,
            },
            rec.1,
            rec.2,
        )
    } else if kind == PlacementKind::Markup {
        let fp = spec_fp_value(file, el.open_span, el.span, src);
        let attrs1 = spec_attach(el.attrs, "codepress-data-fp"@, fp);
        let st = spec_stamp(attrs1, el.name, cfg, stamp);
        let payload = spec_payload(
            ElementV {
                name: el.name,
                attrs: st.0,
                children: el.children,
                open_span: el.open_span,
                span: el.span,
            },
            bt,
            src,
            file,
        );
        let attrs3 = spec_attach(st.0, "data-codepress-edit-candidates"@, payload.cands);
        let attrs4 = spec_attach(attrs3, "data-codepress-source-kinds"@, payload.kinds);
        let attrs5 = spec_attach(attrs4, "data-codepress-symbol-refs"@, payload.symrefs);
        let attrs6 = spec_attach(attrs5, "data-codepress-callsite"@, fp);
        let rec = spec_instrument_children(el.children, 0, cfg, bt, src, st.1, true);
        let attrs7 = spec_absorb(attrs6, rec.1, 0);
        (
            ElementV {
                name: el.name,
                attrs: attrs7,
                children: rec.0,
                open_span: el.open_span,
                span: el.span,
            },
            Seq::empty(),
            rec.2,
        )
    } else {
        let fp = spec_fp_value(file, el.open_span, el.span, src);
        let attrs1 = spec_attach(el.attrs, "codepress-data-fp"@, fp);
        let payload = spec_payload(
            ElementV {
                name: el.name,
                attrs: attrs1,
                children: el.children,
                open_span: el.open_span,
                span: el.span,
            },
            bt,
            src,
            file,
        );
        let rec = spec_instrument_children(el.children, 0, cfg, bt, src, stamp, anc);
        let inv = ElementV {
            name: el.name,
            attrs: attrs1,
            children: rec.0,
            open_span: el.open_span,
            span: el.span,
        };
        let marker = spec_marker(cfg, fp, inv);
        if anc {
            (marker, seq![payload] + rec.1, rec.2)
        } else {
            let m1 = spec_attach(marker.attrs, "data-codepress-edit-candidates"@, payload.cands);
            let m2 = spec_attach(m1, "data-codepress-source-kinds"@, payload.kinds);
            let m3 = spec_attach(m2, "data-codepress-symbol-refs"@, payload.symrefs);
            (
                ElementV {
                    name: marker.name,
                    attrs: m3,
                    children: marker.children,
                    open_span: marker.open_span,
                    span: marker.span,
                },
                rec.1,
                rec.2,
            )
        }
    }
}

/// The placement pass over the children from position `i` on, in order,
/// the stamp flag threaded through.
pub open spec fn spec_instrument_children(
    children: Seq<ChildV>,
    i: int,
    cfg: ConfigV,
    bt: Map<crate::ast::ScopedIdV, crate::ast::BindingV>,
    src: Option<SourceInfoV>,
    stamp: bool,
    anc: bool,
) -> (Seq<ChildV>, Seq<PayloadV>, bool)
    decreases children, 0int, children.len() - i,
{
    if 0 <= i < children.len() {
        match children[i] {
            ChildV::Element { el } => {
                let one = spec_instrument(*el, cfg, bt, src, stamp, anc);
                let rest = spec_instrument_children(children, i + 1, cfg, bt, src, one.2, anc);
                (seq![ChildV::Element { el: Box::new(one.0) }] + rest.0, one.1 + rest.1, rest.2)
            },
            _ => {
                let rest = spec_instrument_children(children, i + 1, cfg, bt, src, stamp, anc);
                (seq![children[i]] + rest.0, rest.1, rest.2)
            },
        }
    } else {
        (Seq::empty(), Seq::empty(), stamp)
    }
}

/// Run the placement pass on one element, exactly as [`spec_instrument`]
/// states.
#[verifier::rlimit(100)]
#[verifier::spinoff_prover]
pub fn instrument_element(
    el: Element,
    cfg: &Config,
    bt: &BindingTable,
    src: &Option<SourceInfo>,
    stamp_done: &mut bool,
    anc: bool,
    sz: Ghost<nat>,
) -> (r: (Element, Vec<Payload>))
    requires
        sz@ == element_size(el),
    ensures
        (view_element(r.0), view_payloads(r.1@), *final(stamp_done)) == spec_instrument(
            view_element(el),
            view_config(*cfg),
            bt@,
            view_source_opt(*src),
            *old(stamp_done),
            anc,
        ),
    decreases sz@, 0int,
{
    let ghost elv = view_element(el);
    let ghost cfgv = view_config(*cfg);
    let ghost btv = bt@;
    let ghost srcv = view_source_opt(*src);
    let ghost el_g = el;
    let kind = classify(&el.name, cfg);
    let file = element_filename(src, el.span);
    if matches!(kind, PlacementKind::Synthetic) || matches!(kind, PlacementKind::SkippedComponent) {
        let name = el.name;
        let attrs = el.attrs;
        let children = el.children;
        let open_span = el.open_span;
        let span = el.span;
        proof {
            assert(children@ == el_g.children@);
            assert(child_list_size(children@, 0) < element_size(el_g)) by {
                reveal_with_fuel(element_size, 2);
            }
        }
        let ghost csz = child_list_size(children@, 0);
        let (kids, bubbles) = instrument_children(
            children,
            cfg,
            bt,
            src,
            stamp_done,
            anc,
            Ghost(csz),
        );
        let out = Element { name, attrs, children: kids, open_span, span };
        (out, bubbles)
    } else if matches!(kind, PlacementKind::Markup) {
        let name = el.name;
        let mut attrs = el.attrs;
        let children = el.children;
        let open_span = el.open_span;
        let span = el.span;
        let fp = fp_attr_value(&file, open_span, span, src);
        attach_attr_string(&mut attrs, text_of("codepress-data-fp"), clone_text(&fp));
        stamp_attrs(&mut attrs, &name, cfg, stamp_done);
        let payload_el = Element { name, attrs, children, open_span, span };
        let payload = element_payload(&payload_el, bt, src, &file);
        let name = payload_el.name;
        let mut attrs = payload_el.attrs;
        let children = payload_el.children;
        attach_attr_string(
            &mut attrs,
            text_of("data-codepress-edit-candidates"),
            clone_text(&payload.cands),
        );
        attach_attr_string(
            &mut attrs,
            text_of("data-codepress-source-kinds"),
            clone_text(&payload.kinds),
        );
        attach_attr_string(
            &mut attrs,
            text_of("data-codepress-symbol-refs"),
            clone_text(&payload.symrefs),
        );
        attach_attr_string(&mut attrs, text_of("data-codepress-callsite"), clone_text(&fp));
        proof {
            assert(children@ == el_g.children@);
            assert(child_list_size(children@, 0) < element_size(el_g)) by {
                reveal_with_fuel(element_size, 2);
            }
        }
        let ghost csz = child_list_size(children@, 0);
        let (kids, mut bubbles) = instrument_children(
            children,
            cfg,
            bt,
            src,
            stamp_done,
            true,
            Ghost(csz),
        );
        absorb_payloads(&mut attrs, &bubbles);
        let out = Element { name, attrs, children: kids, open_span, span };
        (out, Vec::new())
    } else {
        let name = el.name;
        let mut attrs = el.attrs;
        let children = el.children;
        let open_span = el.open_span;
        let span = el.span;
        let fp = fp_attr_value(&file, open_span, span, src);
        attach_attr_string(&mut attrs, text_of("codepress-data-fp"), clone_text(&fp));
        let payload_el = Element { name, attrs, children, open_span, span };
        let payload = element_payload(&payload_el, bt, src, &file);
        let name = payload_el.name;
        let attrs = payload_el.attrs;
        let children = payload_el.children;
        proof {
            assert(children@ == el_g.children@);
            assert(child_list_size(children@, 0) < element_size(el_g)) by {
                reveal_with_fuel(element_size, 2);
            }
        }
        let ghost csz = child_list_size(children@, 0);
        let (kids, bubbles) = instrument_children(
            children,
            cfg,
            bt,
            src,
            stamp_done,
            anc,
            Ghost(csz),
        );
        let inv = Element { name, attrs, children: kids, open_span, span };
        let marker = make_marker(cfg, clone_text(&fp), inv);
        if anc {
            let mut out_bubbles: Vec<Payload> = Vec::new();
            out_bubbles.push(payload);
            let ghost one = view_payloads(out_bubbles@);
            let mut rest = bubbles;
            let ghost rest_v = view_payloads(rest@);
            out_bubbles.append(&mut rest);
            proof {
                assert(view_payloads(out_bubbles@) =~= one + rest_v);
                assert(one =~= seq![
                    view_payload(Payload {
                        cands: payload.cands,
                        kinds: payload.kinds,
                        symrefs: payload.symrefs,
                    }),
                ]);
            }
            (marker, out_bubbles)
        } else {
            let mname = marker.name;
            let mut mattrs = marker.attrs;
            let mchildren = marker.children;
            let mopen = marker.open_span;
            let mspan = marker.span;
            attach_attr_string(
                &mut mattrs,
                text_of("data-codepress-edit-candidates"),
                clone_text(&payload.cands),
            );
            attach_attr_string(
                &mut mattrs,
                text_of("data-codepress-source-kinds"),
                clone_text(&payload.kinds),
            );
            attach_attr_string(
                &mut mattrs,
                text_of("data-codepress-symbol-refs"),
                clone_text(&payload.symrefs),
            );
            let out = Element {
                name: mname,
                attrs: mattrs,
                children: mchildren,
                open_span: mopen,
                span: mspan,
            };
            (out, bubbles)
        }
    }
}

/// Run the placement pass over a child list, in order, exactly as
/// [`spec_instrument_children`] states.
#[verifier::rlimit(100)]
#[verifier::spinoff_prover]
pub fn instrument_children(
    children: Vec<Child>,
    cfg: &Config,
    bt: &BindingTable,
    src: &Option<SourceInfo>,
    stamp_done: &mut bool,
    anc: bool,
    csz: Ghost<nat>,
) -> (r: (Vec<Child>, Vec<Payload>))
    requires
        csz@ == child_list_size(children@, 0),
    ensures
        (view_child_list(r.0@, 0), view_payloads(r.1@), *final(stamp_done))
            == spec_instrument_children(
            view_child_list(children@, 0),
            0,
            view_config(*cfg),
            bt@,
            view_source_opt(*src),
            *old(stamp_done),
            anc,
        ),
    decreases csz@, 1int,
{
    let ghost cv = view_child_list(children@, 0);
    let ghost cfgv = view_config(*cfg);
    let ghost btv = bt@;
    let ghost srcv = view_source_opt(*src);
    let ghost stamp0 = *stamp_done;
    let ghost orig = children@;
    proof {
        lemma_view_child_list0(children@);
        lemma_child_list_size(orig, 0);
    }
    let mut rem = children;
    let mut kids: Vec<Child> = Vec::new();
    let mut bubbles: Vec<Payload> = Vec::new();
    let mut i: usize = 0;
    let total = rem.len();
    proof {
        assert(view_child_list(kids@, 0) =~= Seq::<ChildV>::empty());
        assert(view_payloads(bubbles@) =~= Seq::<PayloadV>::empty());
    }
    while rem.len() > 0
        invariant
            orig.len() == total,
            i + rem@.len() == orig.len(),
            rem@ == orig.skip(i as int),
            cv == view_child_list(orig, 0),
            cv.len() == orig.len(),
            forall|j: int| 0 <= j < orig.len() ==> #[trigger] cv[j] == view_child(orig[j]),
            forall|j: int|
                0 <= j < orig.len() && orig[j] is Element ==> element_size(*orig[j]->Element_el)
                    <= child_list_size(orig, 0),
            cfgv == view_config(*cfg),
            btv == bt@,
            srcv == view_source_opt(*src),
            csz@ == child_list_size(orig, 0),
            spec_instrument_children(cv, 0, cfgv, btv, srcv, stamp0, anc) == {
                let rest = spec_instrument_children(cv, i as int, cfgv, btv, srcv, *stamp_done, anc);
                (
                    view_child_list(kids@, 0) + rest.0,
                    view_payloads(bubbles@) + rest.1,
                    rest.2,
                )
            },
        decreases rem@.len(),
    {
        let ghost kids_pre = view_child_list(kids@, 0);
        let ghost bub_pre = view_payloads(bubbles@);
        let ghost stamp_pre = *stamp_done;
        let ch = rem.remove(0);
        proof {
            assert(ch == orig[i as int]);
            assert(rem@ =~= orig.skip(i + 1 as int));
        }
        match ch {
            Child::Element { el } => {
                proof {
                    assert(element_size(*orig[i as int]->Element_el) <= child_list_size(orig, 0));
                    assert(ch->Element_el == orig[i as int]->Element_el);
                }
                let ghost esz = element_size(*el);
                proof {
                    assert(esz <= csz@);
                }
                let (e2, mut bub) = instrument_element(
                    *el,
                    cfg,
                    bt,
                    src,
                    stamp_done,
                    anc,
                    Ghost(esz),
                );
                let ghost e2v = view_element(e2);
                let ghost bubv = view_payloads(bub@);
                let ghost kids_before = kids@;
                let new_child = Child::Element { el: Box::new(e2) };
                let ghost new_child_g = new_child;
                kids.push(new_child);
                bubbles.append(&mut bub);
                proof {
                    assert(kids@ =~= kids_before.push(new_child_g));
                    lemma_view_child_push(kids_before, new_child_g);
                    assert(view_child(new_child_g) == (ChildV::Element { el: Box::new(e2v) }));
                    assert(view_child_list(kids@, 0) =~= kids_pre.push(
                        ChildV::Element { el: Box::new(e2v) },
                    ));
                    assert(view_payloads(bubbles@) =~= bub_pre + bubv);
                }
            },
            other => {
                let ghost otherv = view_child(other);
                let ghost other_g = other;
                let ghost kids_before = kids@;
                kids.push(other);
                proof {
                    assert(kids@ =~= kids_before.push(other_g));
                    lemma_view_child_push(kids_before, other_g);
                    assert(view_child_list(kids@, 0) =~= kids_pre.push(otherv));
                    assert(otherv == cv[i as int]);
                }
            },
        }
        proof {
            let rest_pre = spec_instrument_children(cv, i as int, cfgv, btv, srcv, stamp_pre, anc);
            let rest_post = spec_instrument_children(
                cv,
                i + 1 as int,
                cfgv,
                btv,
                srcv,
                *stamp_done,
                anc,
            );
            assert(kids_pre + rest_pre.0 =~= view_child_list(kids@, 0) + rest_post.0);
            assert(bub_pre + rest_pre.1 =~= view_payloads(bubbles@) + rest_post.1);
        }
        i = i + 1;
    }
    proof {
        let rest = spec_instrument_children(cv, cv.len() as int, cfgv, btv, srcv, *stamp_done, anc);
        assert(rest.0 =~= Seq::<ChildV>::empty());
        assert(view_child_list(kids@, 0) + rest.0 =~= view_child_list(kids@, 0));
        assert(view_payloads(bubbles@) + rest.1 =~= view_payloads(bubbles@));
    }
    (kids, bubbles)
}

} // verus!
