//! The hoist-and-elide pass: a second, children-first pass that removes
//! every synthetic marker, merging its carried keys into the first markup
//! descendant of its one child, or onto that child's own attributes when
//! no markup descendant exists.

use vstd::prelude::*;
use crate::ast::{Attr, AttrV, AttrValue, AttrValueV, Child, ChildV, Element, ElementV, JsxName,
    JsxNameV, child_list_size, element_size, lemma_child_list_size, lemma_view_attr_list0,
    lemma_view_child_list0, lemma_view_child_push, view_attr, view_attr_list, view_child,
    view_child_list, view_element, view_jsx_name};
use crate::engine::spec_merge_attr;
use crate::place::{Config, ConfigV, attach_attr_string, spec_attach, spec_is_markup, view_config};
use crate::text::{clone_text, text_eq, text_of};

verus! {

/// Is this element the engine's own marker wrapper?
pub open spec fn spec_is_wrapper(n: JsxNameV, cfg: ConfigV) -> bool {
    n matches JsxNameV::Ident { name } && name == cfg.wrapper_tag
}

/// The value of the first named attribute with this key whose value is a
/// plain string.
pub open spec fn spec_get_attr_str(attrs: Seq<AttrV>, i: int, key: Seq<char>) -> Option<Seq<char>>
    decreases attrs.len() - i,
{
    if 0 <= i < attrs.len() {
        match attrs[i] {
            AttrV::Named { name, value: AttrValueV::Str { value } } => if name == key {
                Some(value)
            } else {
                spec_get_attr_str(attrs, i + 1, key)
            },
            _ => spec_get_attr_str(attrs, i + 1, key),
        }
    } else {
        None
    }
}

/// The destination attributes with a marker's carried keys hoisted in:
/// array-valued keys are merged by literal array-body concatenation, the
/// scalar call-site key is written only if absent.
pub open spec fn spec_hoist_attrs(dest: Seq<AttrV>, mattrs: Seq<AttrV>) -> Seq<AttrV> {
    let a1 = match spec_get_attr_str(mattrs, 0, "data-codepress-edit-candidates"@) {
        Some(v) => spec_merge_attr(dest, "data-codepress-edit-candidates"@, v),
        None => dest,
    };
    let a2 = match spec_get_attr_str(mattrs, 0, "data-codepress-source-kinds"@) {
        Some(v) => spec_merge_attr(a1, "data-codepress-source-kinds"@, v),
        None => a1,
    };
    let a3 = match spec_get_attr_str(mattrs, 0, "data-codepress-callsite"@) {
        Some(v) => spec_attach(a2, "data-codepress-callsite"@, v),
        None => a2,
    };
    match spec_get_attr_str(mattrs, 0, "data-codepress-symbol-refs"@) {
        Some(v) => spec_merge_attr(a3, "data-codepress-symbol-refs"@, v),
        None => a3,
    }
}

/// Merge a marker's keys into the first markup element of this subtree,
/// depth-first, the element itself before its children. The flag says
/// whether one was found.
pub open spec fn spec_merge_first_markup(el: ElementV, mattrs: Seq<AttrV>) -> (ElementV, bool)
    decreases el, 1int, 0int,
{
    if spec_is_markup(el.name) {
        (
            ElementV {
                name: el.name,
                attrs: spec_hoist_attrs(el.attrs, mattrs),
                children: el.children,
                open_span: el.open_span,
                span: el.span,
            },
            true,
        )
    } else {
        let r = spec_merge_fm_children(el.children, 0, mattrs);
        (
            ElementV {
                name: el.name,
                attrs: el.attrs,
                children: r.0,
                open_span: el.open_span,
                span: el.span,
            },
            r.1,
        )
    }
}

/// Merge into the first markup element found among the children from
/// position `i` on, left to right.
pub open spec fn spec_merge_fm_children(children: Seq<ChildV>, i: int, mattrs: Seq<AttrV>) -> (
    Seq<ChildV>,
    bool,
)
    decreases children, 0int, children.len() - i,
{
    if 0 <= i < children.len() {
        match children[i] {
            ChildV::Element { el } => {
                let r = spec_merge_first_markup(*el, mattrs);
                if r.1 {
                    (seq![ChildV::Element { el: Box::new(r.0) }] + children.skip(i + 1), true)
                } else {
                    let rest = spec_merge_fm_children(children, i + 1, mattrs);
                    (seq![ChildV::Element { el: Box::new(r.0) }] + rest.0, rest.1)
                }
            },
            _ => {
                let rest = spec_merge_fm_children(children, i + 1, mattrs);
                (seq![children[i]] + rest.0, rest.1)
            },
        }
    } else {
        (Seq::empty(), false)
    }
}

/// What the hoist pass makes of one element, children first: a marker with
/// exactly one element child is replaced by that child, its carried keys
/// merged into the child's first markup descendant, or onto the child
/// itself when none exists; a marker of any other shape is left untouched.
pub open spec fn spec_hoist(el: ElementV, cfg: ConfigV) -> ElementV
    decreases el, 1int, 0int,
{
    let kids = spec_hoist_children(el.children, 0, cfg);
    let el1 = ElementV {
        name: el.name,
        attrs: el.attrs,
        children: kids,
        open_span: el.open_span,
        span: el.span,
    };
    if spec_is_wrapper(el1.name, cfg) && el1.children.len() == 1 && el1.children[0] is Element {
        let child = *el1.children[0]->Element_el;
        let r = spec_merge_first_markup(child, el1.attrs);
        if r.1 {
            r.0
        } else {
            ElementV {
                name: r.0.name,
                attrs: spec_hoist_attrs(r.0.attrs, el1.attrs),
                children: r.0.children,
                open_span: r.0.open_span,
                span: r.0.span,
            }
        }
    } else {
        el1
    }
}

/// The hoist pass over the children from position `i` on.
pub open spec fn spec_hoist_children(children: Seq<ChildV>, i: int, cfg: ConfigV) -> Seq<ChildV>
    decreases children, 0int, children.len() - i,
{
    if 0 <= i < children.len() {
        let first = match children[i] {
            ChildV::Element { el } => ChildV::Element { el: Box::new(spec_hoist(*el, cfg)) },
            _ => children[i],
        };
        seq![first] + spec_hoist_children(children, i + 1, cfg)
    } else {
        Seq::empty()
    }
}


/// Is this element the engine's own marker wrapper?
fn is_wrapper(n: &JsxName, cfg: &Config) -> (r: bool)
    ensures
        r == spec_is_wrapper(view_jsx_name(*n), view_config(*cfg)),
{
    match n {
        JsxName::Ident { name } => text_eq(name, &cfg.wrapper_tag),
        _ => false,
    }
}

/// Does this tag follow the markup convention?
fn name_is_markup(n: &JsxName) -> (r: bool)
    ensures
        r == spec_is_markup(view_jsx_name(*n)),
{
    match n {
        JsxName::Ident { name } => {
            if name.len() > 0 {
                let c = name[0];
                'a' <= c && c <= 'z'
            } else {
                false
            }
        },
        _ => false,
    }
}

/// The value of the first named attribute with this key whose value is a
/// plain string.
fn get_attr_str(attrs: &Vec<Attr>, key: &Vec<char>) -> (r: Option<Vec<char>>)
    ensures
        (match spec_get_attr_str(view_attr_list(attrs@, 0), 0, key@) {
            Some(v) => r is Some && r->0@ == v,
            None => r is None,
        }),
{
    proof {
        lemma_view_attr_list0(attrs@);
    }
    let ghost av = view_attr_list(attrs@, 0);
    let mut i: usize = 0;
    while i < attrs.len()
        invariant
            i <= attrs@.len(),
            av == view_attr_list(attrs@, 0),
            av.len() == attrs@.len(),
            forall|j: int| 0 <= j < attrs@.len() ==> #[trigger] av[j] == view_attr(attrs@[j]),
            spec_get_attr_str(av, 0, key@) == spec_get_attr_str(av, i as int, key@),
        decreases attrs@.len() - i,
    {
        match &attrs[i] {
            Attr::Named { name, value: AttrValue::Str { value } } => {
                if text_eq(name, key) {
                    proof {
                        assert(spec_get_attr_str(av, i as int, key@) == Some(value@));
                    }
                    return Some(clone_text(value));
                }
            },
            _ => {},
        }
        proof {
            assert(spec_get_attr_str(av, i as int, key@) == spec_get_attr_str(
                av,
                i + 1 as int,
                key@,
            ));
        }
        i = i + 1;
    }
    None
}

/// Hoist a marker's carried keys into a destination attribute list.
fn hoist_attrs_into(dest: &mut Vec<Attr>, mattrs: &Vec<Attr>)
    ensures
        view_attr_list(final(dest)@, 0) == spec_hoist_attrs(
            view_attr_list(old(dest)@, 0),
            view_attr_list(mattrs@, 0),
        ),
{
    let key_cands = text_of("data-codepress-edit-candidates");
    let key_kinds = text_of("data-codepress-source-kinds");
    let key_cs = text_of("data-codepress-callsite");
    let key_refs = text_of("data-codepress-symbol-refs");
    match get_attr_str(mattrs, &key_cands) {
        Some(v) => {
            crate::engine::merge_attr(dest, &key_cands, &v);
        },
        None => {},
    }
    match get_attr_str(mattrs, &key_kinds) {
        Some(v) => {
            crate::engine::merge_attr(dest, &key_kinds, &v);
        },
        None => {},
    }
    match get_attr_str(mattrs, &key_cs) {
        Some(v) => {
            attach_attr_string(dest, clone_text(&key_cs), v);
        },
        None => {},
    }
    match get_attr_str(mattrs, &key_refs) {
        Some(v) => {
            crate::engine::merge_attr(dest, &key_refs, &v);
        },
        None => {},
    }
}

/// Merge a marker's keys into the first markup element of this subtree,
/// exactly as [`spec_merge_first_markup`] states.
#[verifier::rlimit(100)]
#[verifier::spinoff_prover]
fn merge_first_markup(el: Element, mattrs: &Vec<Attr>, sz: Ghost<nat>) -> (r: (Element, bool))
    requires
        sz@ == element_size(el),
    ensures
        (view_element(r.0), r.1) == spec_merge_first_markup(
            view_element(el),
            view_attr_list(mattrs@, 0),
        ),
    decreases sz@, 1int,
{
    let ghost elv = view_element(el);
    let ghost mv = view_attr_list(mattrs@, 0);
    let ghost el_g = el;
    if name_is_markup(&el.name) {
        let name = el.name;
        let mut attrs = el.attrs;
        let children = el.children;
        let open_span = el.open_span;
        let span = el.span;
        hoist_attrs_into(&mut attrs, mattrs);
        let out = Element { name, attrs, children, open_span, span };
        (out, true)
    } else {
        let name = el.name;
        let attrs = el.attrs;
        let children = el.children;
        let open_span = el.open_span;
        let span = el.span;
        let ghost cv = view_child_list(children@, 0);
        let ghost orig = children@;
        proof {
            lemma_view_child_list0(children@);
            lemma_child_list_size(orig, 0);
            assert(child_list_size(orig, 0) < element_size(el_g)) by {
                reveal_with_fuel(element_size, 2);
            }
        }
        let mut rem = children;
        let total = rem.len();
        let mut kids: Vec<Child> = Vec::new();
        let mut found = false;
        let mut i: usize = 0;
        proof {
            assert(view_child_list(kids@, 0) =~= Seq::<ChildV>::empty());
        }
        while rem.len() > 0
            invariant
                orig.len() == total,
                i + rem@.len() == orig.len(),
                rem@ == orig.skip(i as int),
                cv == view_child_list(orig, 0),
                cv.len() == orig.len(),
                forall|j: int| 0 <= j < orig.len() ==> #[trigger] cv[j] == view_child(orig[j]),
                forall|j: int|
                    0 <= j < orig.len() && orig[j] is Element ==> element_size(
                        *orig[j]->Element_el,
                    ) <= child_list_size(orig, 0),
                child_list_size(orig, 0) < sz@,
                mv == view_attr_list(mattrs@, 0),
                spec_merge_fm_children(cv, 0, mv) == (if found {
                    (view_child_list(kids@, 0) + cv.skip(i as int), true)
                } else {
                    let rest = spec_merge_fm_children(cv, i as int, mv);
                    (view_child_list(kids@, 0) + rest.0, rest.1)
                }),
            decreases rem@.len(),
        {
            let ghost kids_pre = view_child_list(kids@, 0);
            let ch = rem.remove(0);
            proof {
                assert(ch == orig[i as int]);
                assert(rem@ =~= orig.skip(i + 1 as int));
            }
            if found {
                let ghost chv = view_child(ch);
                let ghost kids_before = kids@;
                let ghost ch_g = ch;
                kids.push(ch);
                proof {
                    assert(kids@ =~= kids_before.push(ch_g));
                    lemma_view_child_push(kids_before, ch_g);
                    assert(view_child_list(kids@, 0) =~= kids_pre.push(chv));
                    assert(chv == cv[i as int]);
                    assert(kids_pre.push(cv[i as int]) + cv.skip(i + 1 as int) =~= kids_pre
                        + cv.skip(i as int));
                }
            } else {
                match ch {
                    Child::Element { el: inner } => {
                        proof {
                            assert(element_size(*orig[i as int]->Element_el) <= child_list_size(
                                orig,
                                0,
                            ));
                        }
                        let ghost esz = element_size(*inner);
                        let ghost innerv = view_element(*inner);
                        proof {
                            assert(cv[i as int] == ChildV::Element { el: Box::new(innerv) });
                        }
                        let (e2, f2) = merge_first_markup(*inner, mattrs, Ghost(esz));
                        let ghost e2v = view_element(e2);
                        let ghost kids_before = kids@;
                        let new_child = Child::Element { el: Box::new(e2) };
                        let ghost new_child_g = new_child;
                        kids.push(new_child);
                        found = f2;
                        proof {
                            assert(kids@ =~= kids_before.push(new_child_g));
                            lemma_view_child_push(kids_before, new_child_g);
                            assert(view_child_list(kids@, 0) =~= kids_pre.push(
                                ChildV::Element { el: Box::new(e2v) },
                            ));
                            if f2 {
                                assert(kids_pre.push(ChildV::Element { el: Box::new(e2v) })
                                    + cv.skip(i + 1 as int) =~= kids_pre + (seq![
                                    ChildV::Element { el: Box::new(e2v) },
                                ] + cv.skip(i + 1 as int)));
                            } else {
                                let rest = spec_merge_fm_children(cv, i + 1 as int, mv);
                                assert(kids_pre.push(ChildV::Element { el: Box::new(e2v) })
                                    + rest.0 =~= kids_pre + (seq![
                                    ChildV::Element { el: Box::new(e2v) },
                                ] + rest.0));
                            }
                        }
                    },
                    other => {
                        let ghost otherv = view_child(other);
                        let ghost other_g = other;
                        let ghost kids_before = kids@;
                        kids.push(other);
                        proof {
                            assert(kids@ =~= kids_before.push(other_g));
                            lemma_view_child_push(kids_before, other_g);
                            assert(view_child_list(kids@, 0) =~= kids_pre.push(otherv));
                            assert(otherv == cv[i as int]);
                            let rest = spec_merge_fm_children(cv, i + 1 as int, mv);
                            assert(kids_pre.push(cv[i as int]) + rest.0 =~= kids_pre + (seq![
                                cv[i as int],
                            ] + rest.0));
                        }
                    },
                }
            }
            i = i + 1;
        }
        proof {
            if found {
                assert(cv.skip(cv.len() as int) =~= Seq::<ChildV>::empty());
                assert(view_child_list(kids@, 0) + Seq::<ChildV>::empty() =~= view_child_list(
                    kids@,
                    0,
                ));
            } else {
                let rest = spec_merge_fm_children(cv, cv.len() as int, mv);
                assert(rest.0 =~= Seq::<ChildV>::empty());
                assert(view_child_list(kids@, 0) + rest.0 =~= view_child_list(kids@, 0));
            }
        }
        let out = Element { name, attrs, children: kids, open_span, span };
        (out, found)
    }
}

/// Run the hoist pass on one element, exactly as [`spec_hoist`] states.
#[verifier::rlimit(100)]
#[verifier::spinoff_prover]
pub fn hoist_element(el: Element, cfg: &Config, sz: Ghost<nat>) -> (r: Element)
    requires
        sz@ == element_size(el),
    ensures
        view_element(r) == spec_hoist(view_element(el), view_config(*cfg)),
    decreases sz@, 1int,
{
    let ghost elv = view_element(el);
    let ghost cfgv = view_config(*cfg);
    let ghost el_g = el;
    let name = el.name;
    let attrs = el.attrs;
    let children = el.children;
    let open_span = el.open_span;
    let span = el.span;
    let ghost cv = view_child_list(children@, 0);
    let ghost orig = children@;
    proof {
        lemma_view_child_list0(children@);
        lemma_child_list_size(orig, 0);
        assert(child_list_size(orig, 0) < element_size(el_g)) by {
            reveal_with_fuel(element_size, 2);
        }
    }
    let mut rem = children;
    let total = rem.len();
    let mut kids: Vec<Child> = Vec::new();
    let mut i: usize = 0;
    proof {
        assert(view_child_list(kids@, 0) =~= Seq::<ChildV>::empty());
        assert(spec_hoist_children(cv, 0, cfgv) =~= Seq::<ChildV>::empty()
            + spec_hoist_children(cv, 0, cfgv));
    }
    while rem.len() > 0
        invariant
            orig.len() == total,
            i + rem@.len() == orig.len(),
            rem@ == orig.skip(i as int),
            cv == view_child_list(orig, 0),
            cv.len() == orig.len(),
            forall|j: int| 0 <= j < orig.len() ==> #[trigger] cv[j] == view_child(orig[j]),
            forall|j: int|
                0 <= j < orig.len() && orig[j] is Element ==> element_size(*orig[j]->Element_el)
                    <= child_list_size(orig, 0),
            child_list_size(orig, 0) < sz@,
            cfgv == view_config(*cfg),
            spec_hoist_children(cv, 0, cfgv) == view_child_list(kids@, 0) + spec_hoist_children(
                cv,
                i as int,
                cfgv,
            ),
        decreases rem@.len(),
    {
        let ghost kids_pre = view_child_list(kids@, 0);
        let ch = rem.remove(0);
        proof {
            assert(ch == orig[i as int]);
            assert(rem@ =~= orig.skip(i + 1 as int));
        }
        match ch {
            Child::Element { el: inner } => {
                proof {
                    assert(element_size(*orig[i as int]->Element_el) <= child_list_size(orig, 0));
                }
                let ghost esz = element_size(*inner);
                let ghost innerv = view_element(*inner);
                proof {
                    assert(cv[i as int] == ChildV::Element { el: Box::new(innerv) });
                }
                let e2 = hoist_element(*inner, cfg, Ghost(esz));
                let ghost e2v = view_element(e2);
                let ghost kids_before = kids@;
                let new_child = Child::Element { el: Box::new(e2) };
                let ghost new_child_g = new_child;
                kids.push(new_child);
                proof {
                    assert(kids@ =~= kids_before.push(new_child_g));
                    lemma_view_child_push(kids_before, new_child_g);
                    assert(view_child_list(kids@, 0) =~= kids_pre.push(
                        ChildV::Element { el: Box::new(e2v) },
                    ));
                    assert(kids_pre.push(ChildV::Element { el: Box::new(e2v) })
                        + spec_hoist_children(cv, i + 1 as int, cfgv) =~= kids_pre + (seq![
                        ChildV::Element { el: Box::new(e2v) },
                    ] + spec_hoist_children(cv, i + 1 as int, cfgv)));
                }
            },
            other => {
                let ghost otherv = view_child(other);
                let ghost other_g = other;
                let ghost kids_before = kids@;
                kids.push(other);
                proof {
                    assert(kids@ =~= kids_before.push(other_g));
                    lemma_view_child_push(kids_before, other_g);
                    assert(view_child_list(kids@, 0) =~= kids_pre.push(otherv));
                    assert(otherv == cv[i as int]);
                    assert(kids_pre.push(cv[i as int]) + spec_hoist_children(
                        cv,
                        i + 1 as int,
                        cfgv,
                    ) =~= kids_pre + (seq![cv[i as int]] + spec_hoist_children(
                        cv,
                        i + 1 as int,
                        cfgv,
                    )));
                }
            },
        }
        i = i + 1;
    }
    proof {
        assert(spec_hoist_children(cv, cv.len() as int, cfgv) =~= Seq::<ChildV>::empty());
        assert(view_child_list(kids@, 0) + Seq::<ChildV>::empty() =~= view_child_list(kids@, 0));
    }
    let is_marker = is_wrapper(&name, cfg);
    let ghost kids_v = view_child_list(kids@, 0);
    proof {
        lemma_view_child_list0(kids@);
        assert(kids_v == spec_hoist_children(cv, 0, cfgv));
        if kids@.len() == 1 {
            assert(kids_v[0] == view_child(kids@[0]));
        }
    }
    if is_marker && kids.len() == 1 {
        let mut kids = kids;
        let ch = kids.remove(0);
        match ch {
            Child::Element { el: child } => {
                let child = *child;
                let ghost childv = view_element(child);
                proof {
                    assert(kids_v[0] == ChildV::Element { el: Box::new(childv) });
                    assert(kids_v.len() == 1);
                }
                let ghost esz2 = element_size(child);
                let (merged, found) = merge_first_markup(child, &attrs, Ghost(esz2));
                if found {
                    merged
                } else {
                    let cname = merged.name;
                    let mut cattrs = merged.attrs;
                    let cchildren = merged.children;
                    let copen = merged.open_span;
                    let cspan = merged.span;
                    proof {
                        let mav = view_attr_list(attrs@, 0);
                        assert(view_element(merged) == spec_merge_first_markup(childv, mav).0);
                        if spec_is_markup(childv.name) {
                            assert(spec_merge_first_markup(childv, mav).1);
                            assert(false);
                        }
                        assert(spec_merge_first_markup(childv, mav).0.name == childv.name);
                        assert(spec_merge_first_markup(childv, mav).0.attrs == childv.attrs);
                    }
                    hoist_attrs_into(&mut cattrs, &attrs);
                    Element {
                        name: cname,
                        attrs: cattrs,
                        children: cchildren,
                        open_span: copen,
                        span: cspan,
                    }
                }
            },
            other => {
                // the one child is no element: leave the marker untouched
                let ghost otherv = view_child(other);
                let mut kids2: Vec<Child> = Vec::new();
                kids2.push(other);
                let out = Element { name, attrs, children: kids2, open_span, span };
                proof {
                    lemma_view_child_list0(out.children@);
                    assert(view_child_list(out.children@, 0) =~= kids_v);
                }
                out
            },
        }
    } else {
        let out = Element { name, attrs, children: kids, open_span, span };
        proof {
            lemma_view_child_list0(out.children@);
            assert(view_child_list(out.children@, 0) == spec_hoist_children(cv, 0, cfgv));
        }
        out
    }
}

} // verus!
