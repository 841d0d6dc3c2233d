//! Tree-shape laws of the two passes: the placement pass leaves every
//! synthetic marker well formed, and the hoist pass then removes every
//! one, so no element of the final tree has a reserved synthetic tag name.

use vstd::prelude::*;
use crate::ast::{AttrV, BindingV, ChildV, ElementV, ScopedIdV};
use crate::engine::{spec_instrument, spec_instrument_children, spec_marker};
use crate::hoist::{spec_hoist, spec_hoist_children, spec_merge_first_markup,
    spec_merge_fm_children, spec_is_wrapper};
use crate::place::{ConfigV, PlacementKind, spec_classify, spec_is_markup, spec_is_synthetic};
use crate::span::SourceInfoV;

verus! {

/// No element of this subtree has a reserved synthetic tag name.
pub open spec fn spec_clean(el: ElementV, cfg: ConfigV) -> bool
    decreases el, 1int, 0int,
{
    !spec_is_synthetic(el.name, cfg) && spec_clean_children(el.children, 0, cfg)
}

pub open spec fn spec_clean_children(children: Seq<ChildV>, i: int, cfg: ConfigV) -> bool
    decreases children, 0int, children.len() - i,
{
    if 0 <= i < children.len() {
        (children[i] matches ChildV::Element { el } ==> spec_clean(*el, cfg))
            && spec_clean_children(children, i + 1, cfg)
    } else {
        true
    }
}

/// Every synthetic-named element of this subtree is a well-formed marker:
/// it bears the wrapper tag and has exactly one child, an element that is
/// itself not synthetic-named.
pub open spec fn spec_marker_wf(el: ElementV, cfg: ConfigV) -> bool
    decreases el, 1int, 0int,
{
    (spec_is_synthetic(el.name, cfg) ==> el.name == (JsxNameV_ident(cfg.wrapper_tag))
        && el.children.len() == 1 && el.children[0] is Element && !spec_is_synthetic(
        (*el.children[0]->Element_el).name,
        cfg,
    )) && spec_marker_wf_children(el.children, 0, cfg)
}

pub open spec fn JsxNameV_ident(name: Seq<char>) -> crate::ast::JsxNameV {
    crate::ast::JsxNameV::Ident { name }
}

pub open spec fn spec_marker_wf_children(children: Seq<ChildV>, i: int, cfg: ConfigV) -> bool
    decreases children, 0int, children.len() - i,
{
    if 0 <= i < children.len() {
        (children[i] matches ChildV::Element { el } ==> spec_marker_wf(*el, cfg))
            && spec_marker_wf_children(children, i + 1, cfg)
    } else {
        true
    }
}

/// The placement pass on a clean element yields a tree whose synthetic
/// elements are exactly its own well-formed markers.
pub proof fn lemma_instrument_marker_wf(
    el: ElementV,
    cfg: ConfigV,
    bt: Map<ScopedIdV, BindingV>,
    src: Option<SourceInfoV>,
    stamp: bool,
    anc: bool,
)
    requires
        spec_clean(el, cfg),
    ensures
        spec_marker_wf(spec_instrument(el, cfg, bt, src, stamp, anc).0, cfg),
        !spec_is_synthetic(spec_instrument(el, cfg, bt, src, stamp, anc).0.name, cfg)
            || spec_instrument(el, cfg, bt, src, stamp, anc).0.name == JsxNameV_ident(
            cfg.wrapper_tag,
        ),
    decreases el, 1int, 0int,
{
    let kind = spec_classify(el.name, cfg);
    let out = spec_instrument(el, cfg, bt, src, stamp, anc).0;
    if kind == PlacementKind::Synthetic {
        assert(spec_is_synthetic(el.name, cfg));
        assert(false);
    } else if kind == PlacementKind::SkippedComponent {
        let rec = spec_instrument_children(el.children, 0, cfg, bt, src, stamp, anc);
        lemma_instrument_children_wf(el.children, 0, cfg, bt, src, stamp, anc);
    } else if kind == PlacementKind::Markup {
        let st = crate::engine::spec_stamp(
            crate::place::spec_attach(
                el.attrs,
                "codepress-data-fp"@,
                crate::place::spec_fp_value(
                    crate::place::spec_element_filename(el.span, src),
                    el.open_span,
                    el.span,
                    src,
                ),
            ),
            el.name,
            cfg,
            stamp,
        );
        lemma_instrument_children_wf(el.children, 0, cfg, bt, src, st.1, true);
    } else {
        // component invocation: the output is the marker around it
        lemma_instrument_children_wf(el.children, 0, cfg, bt, src, stamp, anc);
        let rec = spec_instrument_children(el.children, 0, cfg, bt, src, stamp, anc);
        assert(!spec_is_synthetic(el.name, cfg));
        assert(out.name == JsxNameV_ident(cfg.wrapper_tag));
        assert(spec_is_synthetic(out.name, cfg));
        assert(out.children.len() == 1 && out.children[0] is Element);
        let inv = *out.children[0]->Element_el;
        assert(inv.name == el.name);
        assert(spec_marker_wf(inv, cfg)) by {
            assert(inv.children == rec.0);
        }
        assert(spec_marker_wf_children(out.children, 1, cfg));
        assert(spec_marker_wf_children(out.children, 0, cfg));
    }
}

/// The placement pass over a clean child list yields children whose
/// synthetic elements are exactly its own well-formed markers.
pub proof fn lemma_instrument_children_wf(
    children: Seq<ChildV>,
    i: int,
    cfg: ConfigV,
    bt: Map<ScopedIdV, BindingV>,
    src: Option<SourceInfoV>,
    stamp: bool,
    anc: bool,
)
    requires
        0 <= i <= children.len(),
        spec_clean_children(children, i, cfg),
    ensures
        spec_marker_wf_children(spec_instrument_children(children, i, cfg, bt, src, stamp, anc).0, 0, cfg),
    decreases children, 0int, children.len() - i,
{
    let r = spec_instrument_children(children, i, cfg, bt, src, stamp, anc);
    if 0 <= i < children.len() {
        match children[i] {
            ChildV::Element { el } => {
                let one = spec_instrument(*el, cfg, bt, src, stamp, anc);
                lemma_instrument_marker_wf(*el, cfg, bt, src, stamp, anc);
                let rest = spec_instrument_children(children, i + 1, cfg, bt, src, one.2, anc);
                lemma_instrument_children_wf(children, i + 1, cfg, bt, src, one.2, anc);
                lemma_marker_wf_children_cons(
                    ChildV::Element { el: Box::new(one.0) },
                    rest.0,
                    cfg,
                );
            },
            _ => {
                let rest = spec_instrument_children(children, i + 1, cfg, bt, src, stamp, anc);
                lemma_instrument_children_wf(children, i + 1, cfg, bt, src, stamp, anc);
                lemma_marker_wf_children_cons(children[i], rest.0, cfg);
            },
        }
    }
}

/// Pointwise well-formedness gives the recursive form.
proof fn lemma_marker_wf_children_intro(children: Seq<ChildV>, i: int, cfg: ConfigV)
    requires
        0 <= i <= children.len(),
        forall|j: int|
            i <= j < children.len() ==> (#[trigger] children[j] matches ChildV::Element { el }
                ==> spec_marker_wf(*el, cfg)),
    ensures
        spec_marker_wf_children(children, i, cfg),
    decreases children.len() - i,
{
    if i < children.len() {
        lemma_marker_wf_children_intro(children, i + 1, cfg);
    }
}

/// The recursive form gives pointwise well-formedness.
proof fn lemma_marker_wf_children_elim(children: Seq<ChildV>, i: int, cfg: ConfigV)
    requires
        0 <= i <= children.len(),
        spec_marker_wf_children(children, i, cfg),
    ensures
        forall|j: int|
            i <= j < children.len() ==> (#[trigger] children[j] matches ChildV::Element { el }
                ==> spec_marker_wf(*el, cfg)),
    decreases children.len() - i,
{
    if i < children.len() {
        lemma_marker_wf_children_elim(children, i + 1, cfg);
    }
}

/// Well-formedness of a child list built by putting one child in front.
proof fn lemma_marker_wf_children_cons(c: ChildV, rest: Seq<ChildV>, cfg: ConfigV)
    requires
        c matches ChildV::Element { el } ==> spec_marker_wf(*el, cfg),
        spec_marker_wf_children(rest, 0, cfg),
    ensures
        spec_marker_wf_children(seq![c] + rest, 0, cfg),
{
    lemma_marker_wf_children_elim(rest, 0, cfg);
    let whole = seq![c] + rest;
    assert forall|j: int|
        0 <= j < whole.len() implies (#[trigger] whole[j] matches ChildV::Element { el }
            ==> spec_marker_wf(*el, cfg)) by {
        if j > 0 {
            assert(whole[j] == rest[j - 1]);
        } else {
            assert(whole[0] == c);
        }
    }
    lemma_marker_wf_children_intro(whole, 0, cfg);
}


/// Pointwise cleanliness gives the recursive form.
proof fn lemma_clean_children_intro(children: Seq<ChildV>, i: int, cfg: ConfigV)
    requires
        0 <= i <= children.len(),
        forall|j: int|
            i <= j < children.len() ==> (#[trigger] children[j] matches ChildV::Element { el }
                ==> spec_clean(*el, cfg)),
    ensures
        spec_clean_children(children, i, cfg),
    decreases children.len() - i,
{
    if i < children.len() {
        lemma_clean_children_intro(children, i + 1, cfg);
    }
}

/// The recursive form gives pointwise cleanliness.
proof fn lemma_clean_children_elim(children: Seq<ChildV>, i: int, cfg: ConfigV)
    requires
        0 <= i <= children.len(),
        spec_clean_children(children, i, cfg),
    ensures
        forall|j: int|
            i <= j < children.len() ==> (#[trigger] children[j] matches ChildV::Element { el }
                ==> spec_clean(*el, cfg)),
    decreases children.len() - i,
{
    if i < children.len() {
        lemma_clean_children_elim(children, i + 1, cfg);
    }
}

/// Merging a marker's keys into a subtree changes attributes only, so a
/// clean subtree stays clean.
proof fn lemma_merge_clean(el: ElementV, mattrs: Seq<AttrV>, cfg: ConfigV)
    requires
        spec_clean(el, cfg),
    ensures
        spec_clean(spec_merge_first_markup(el, mattrs).0, cfg),
        spec_merge_first_markup(el, mattrs).0.name == el.name,
    decreases el, 1int, 0int,
{
    if spec_is_markup(el.name) {
    } else {
        lemma_merge_fm_clean(el.children, 0, mattrs, cfg);
    }
}

/// Merging into a child list changes attributes only.
proof fn lemma_merge_fm_clean(children: Seq<ChildV>, i: int, mattrs: Seq<AttrV>, cfg: ConfigV)
    requires
        0 <= i <= children.len(),
        spec_clean_children(children, i, cfg),
    ensures
        spec_clean_children(spec_merge_fm_children(children, i, mattrs).0, 0, cfg),
    decreases children, 0int, children.len() - i,
{
    let r = spec_merge_fm_children(children, i, mattrs);
    if 0 <= i < children.len() {
        match children[i] {
            ChildV::Element { el } => {
                let m = spec_merge_first_markup(*el, mattrs);
                lemma_merge_clean(*el, mattrs, cfg);
                if m.1 {
                    lemma_clean_children_elim(children, i + 1, cfg);
                    let tail = children.skip(i + 1);
                    assert forall|j: int|
                        0 <= j < r.0.len() implies (#[trigger] r.0[j] matches ChildV::Element {
                        el: e2,
                    } ==> spec_clean(*e2, cfg)) by {
                        if j == 0 {
                            assert(r.0[0] == (ChildV::Element { el: Box::new(m.0) }));
                        } else {
                            assert(r.0[j] == children[i + j]);
                        }
                    }
                    lemma_clean_children_intro(r.0, 0, cfg);
                } else {
                    let rest = spec_merge_fm_children(children, i + 1, mattrs);
                    lemma_merge_fm_clean(children, i + 1, mattrs, cfg);
                    lemma_clean_children_elim(rest.0, 0, cfg);
                    assert forall|j: int|
                        0 <= j < r.0.len() implies (#[trigger] r.0[j] matches ChildV::Element {
                        el: e2,
                    } ==> spec_clean(*e2, cfg)) by {
                        if j == 0 {
                            assert(r.0[0] == (ChildV::Element { el: Box::new(m.0) }));
                        } else {
                            assert(r.0[j] == rest.0[j - 1]);
                        }
                    }
                    lemma_clean_children_intro(r.0, 0, cfg);
                }
            },
            _ => {
                let rest = spec_merge_fm_children(children, i + 1, mattrs);
                lemma_merge_fm_clean(children, i + 1, mattrs, cfg);
                lemma_clean_children_elim(rest.0, 0, cfg);
                assert forall|j: int|
                    0 <= j < r.0.len() implies (#[trigger] r.0[j] matches ChildV::Element {
                    el: e2,
                } ==> spec_clean(*e2, cfg)) by {
                    if j == 0 {
                        assert(r.0[0] == children[i]);
                    } else {
                        assert(r.0[j] == rest.0[j - 1]);
                    }
                }
                lemma_clean_children_intro(r.0, 0, cfg);
            },
        }
    } else {
        assert(r.0 =~= Seq::<ChildV>::empty());
    }
}

/// After the hoist pass on a tree whose markers are well formed, no
/// element has a reserved synthetic tag name.
pub proof fn lemma_hoist_clean(el: ElementV, cfg: ConfigV)
    requires
        spec_marker_wf(el, cfg),
    ensures
        spec_clean(spec_hoist(el, cfg), cfg),
    decreases el, 1int, 0int,
{
    let kids = spec_hoist_children(el.children, 0, cfg);
    lemma_hoist_children_clean(el.children, 0, cfg);
    let el1 = ElementV {
        name: el.name,
        attrs: el.attrs,
        children: kids,
        open_span: el.open_span,
        span: el.span,
    };
    if spec_is_wrapper(el1.name, cfg) && el1.children.len() == 1 && el1.children[0] is Element {
        let child = *el1.children[0]->Element_el;
        assert(el.children.len() == 1 && el.children[0] is Element);
        let orig_child = *el.children[0]->Element_el;
        assert(kids[0] == (ChildV::Element { el: Box::new(spec_hoist(orig_child, cfg)) }));
        assert(child == spec_hoist(orig_child, cfg));
        lemma_marker_wf_children_elim(el.children, 0, cfg);
        lemma_hoist_clean(orig_child, cfg);
        let r = spec_merge_first_markup(child, el1.attrs);
        lemma_merge_clean(child, el1.attrs, cfg);
        if r.1 {
        } else {
            assert(spec_clean(r.0, cfg));
        }
    } else {
        if spec_is_synthetic(el1.name, cfg) {
            assert(el.name == JsxNameV_ident(cfg.wrapper_tag));
            assert(spec_is_wrapper(el1.name, cfg));
            assert(el.children.len() == 1 && el.children[0] is Element);
            assert(kids.len() == 1);
            assert(kids[0] == (ChildV::Element {
                el: Box::new(spec_hoist(*el.children[0]->Element_el, cfg)),
            }));
            assert(false);
        }
    }
}

/// The hoist pass over a well-formed child list yields clean children of
/// the same count and kinds.
proof fn lemma_hoist_children_clean(children: Seq<ChildV>, i: int, cfg: ConfigV)
    requires
        0 <= i <= children.len(),
        spec_marker_wf_children(children, i, cfg),
    ensures
        spec_clean_children(spec_hoist_children(children, i, cfg), 0, cfg),
        spec_hoist_children(children, i, cfg).len() == children.len() - i,
        forall|j: int|
            i <= j < children.len() ==> ((children[j] is Element) == (
            #[trigger] spec_hoist_children(children, i, cfg)[j - i] is Element)),
    decreases children, 0int, children.len() - i,
{
    let r = spec_hoist_children(children, i, cfg);
    if 0 <= i < children.len() {
        lemma_hoist_children_clean(children, i + 1, cfg);
        let rest = spec_hoist_children(children, i + 1, cfg);
        lemma_clean_children_elim(rest, 0, cfg);
        match children[i] {
            ChildV::Element { el } => {
                lemma_hoist_clean(*el, cfg);
                assert(r[0] == (ChildV::Element { el: Box::new(spec_hoist(*el, cfg)) }));
            },
            _ => {
                assert(r[0] == children[i]);
            },
        }
        assert forall|j: int|
            0 <= j < r.len() implies (#[trigger] r[j] matches ChildV::Element { el: e2 }
                ==> spec_clean(*e2, cfg)) by {
            if j > 0 {
                assert(r[j] == rest[j - 1]);
            }
        }
        lemma_clean_children_intro(r, 0, cfg);
        assert forall|j: int|
            i <= j < children.len() implies ((children[j] is Element) == (#[trigger] spec_hoist_children(
            children,
            i,
            cfg,
        )[j - i] is Element)) by {
            if j > i {
                assert(r[j - i] == rest[j - (i + 1)]);
            }
        }
    } else {
        assert(r =~= Seq::<ChildV>::empty());
    }
}

/// The tree-shape invariant: after both passes on a tree with no reserved
/// synthetic tag names, no element of the output has one either — every
/// marker the placement pass creates, the hoist pass removes.
pub proof fn lemma_no_synthetic_survives(
    el: ElementV,
    cfg: ConfigV,
    bt: Map<ScopedIdV, BindingV>,
    src: Option<SourceInfoV>,
    stamp: bool,
    anc: bool,
)
    requires
        spec_clean(el, cfg),
    ensures
        spec_clean(spec_hoist(spec_instrument(el, cfg, bt, src, stamp, anc).0, cfg), cfg),
{
    lemma_instrument_marker_wf(el, cfg, bt, src, stamp, anc);
    lemma_hoist_clean(spec_instrument(el, cfg, bt, src, stamp, anc).0, cfg);
}


/// Once the build-wide stamp flag is set, every later visit keeps it set,
/// so with [`crate::pipeline::lemma_stamp_once`] no element visited after
/// the first stamped one can receive the repository attributes.
pub proof fn lemma_instrument_stamp_stays_set(
    el: ElementV,
    cfg: ConfigV,
    bt: Map<ScopedIdV, BindingV>,
    src: Option<SourceInfoV>,
    anc: bool,
)
    ensures
        spec_instrument(el, cfg, bt, src, true, anc).2,
    decreases el, 1int, 0int,
{
    let kind = spec_classify(el.name, cfg);
    if kind == PlacementKind::Markup {
        lemma_instrument_children_stamp_stays_set(el.children, 0, cfg, bt, src, true);
    } else {
        lemma_instrument_children_stamp_stays_set(el.children, 0, cfg, bt, src, anc);
    }
}

/// Once the build-wide stamp flag is set, a child-list visit keeps it set.
pub proof fn lemma_instrument_children_stamp_stays_set(
    children: Seq<ChildV>,
    i: int,
    cfg: ConfigV,
    bt: Map<ScopedIdV, BindingV>,
    src: Option<SourceInfoV>,
    anc: bool,
)
    ensures
        spec_instrument_children(children, i, cfg, bt, src, true, anc).2,
    decreases children, 0int, children.len() - i,
{
    if 0 <= i < children.len() {
        match children[i] {
            ChildV::Element { el } => {
                lemma_instrument_stamp_stays_set(*el, cfg, bt, src, anc);
                lemma_instrument_children_stamp_stays_set(children, i + 1, cfg, bt, src, anc);
            },
            _ => {
                lemma_instrument_children_stamp_stays_set(children, i + 1, cfg, bt, src, anc);
            },
        }
    }
}

} // verus!
