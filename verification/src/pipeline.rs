//! The whole per-file transform: build the binding table, run the
//! placement pass over every root element, then remove every synthetic
//! marker in the hoist pass.

use vstd::prelude::*;
use crate::ast::{BindingV, DeclItem, Element, ElementV, ScopedIdV, element_size, lemma_view_root_list,
    view_element, view_root_list};
use crate::bindings::{collect_bindings, spec_collect};
use crate::engine::{instrument_element, spec_instrument};
use crate::hoist::{hoist_element, spec_hoist};
use crate::place::{Config, ConfigV, view_config};
use crate::span::{SourceInfo, SourceInfoV, view_source_opt};

verus! {

/// The per-file transform state: the configuration and the file's line
/// table. The once-only stamp flag is not here: the host passes it in
/// explicitly, shared across the whole build.
pub struct CodePressTransform {
    pub config: Config,
    pub source: Option<SourceInfo>,
}

impl CodePressTransform {
    /// Package a configuration and a line table for one file's transform.
    pub fn new(config: Config, source: Option<SourceInfo>) -> (r: CodePressTransform)
        ensures
            view_config(r.config) == view_config(config),
            view_source_opt(r.source) == view_source_opt(source),
    {
        CodePressTransform { config, source }
    }
}

/// What the whole transform makes of the root elements from position `i`
/// on: each root is instrumented with no markup ancestor open, then
/// hoisted, the stamp flag threaded through in order.
pub open spec fn spec_pipeline_roots(
    roots: Seq<ElementV>,
    i: int,
    cfg: ConfigV,
    bt: Map<ScopedIdV, BindingV>,
    src: Option<SourceInfoV>,
    stamp: bool,
) -> (Seq<ElementV>, bool)
    decreases roots.len() - i,
{
    if 0 <= i < roots.len() {
        let one = spec_instrument(roots[i], cfg, bt, src, stamp, false);
        let hoisted = spec_hoist(one.0, cfg);
        let rest = spec_pipeline_roots(roots, i + 1, cfg, bt, src, one.2);
        (seq![hoisted] + rest.0, rest.1)
    } else {
        (Seq::empty(), stamp)
    }
}

/// What the whole transform makes of one file: the binding table built
/// from the declarations, then both passes over every root.
pub open spec fn spec_pipeline(
    decls: Seq<DeclItem>,
    roots: Seq<ElementV>,
    cfg: ConfigV,
    src: Option<SourceInfoV>,
    stamp: bool,
) -> (Seq<ElementV>, bool) {
    spec_pipeline_roots(roots, 0, cfg, spec_collect(decls), src, stamp)
}

/// Transform one file: collect the bindings once up front, instrument
/// every root element, and hoist every synthetic marker away. The shared
/// once-only stamp flag is read and updated exactly as
/// [`spec_pipeline`] states.
#[verifier::rlimit(100)]
#[verifier::spinoff_prover]
pub fn process_transform(
    module: crate::ast::Module,
    transform: &CodePressTransform,
    stamp_done: &mut bool,
) -> (r: Vec<Element>)
    ensures
        (view_root_list(r@, 0), *final(stamp_done)) == spec_pipeline(
            module.decls@,
            view_root_list(module.roots@, 0),
            view_config(transform.config),
            view_source_opt(transform.source),
            *old(stamp_done),
        ),
{
    let ghost declsv = module.decls@;
    let ghost rootsv = view_root_list(module.roots@, 0);
    let ghost cfgv = view_config(transform.config);
    let ghost srcv = view_source_opt(transform.source);
    let ghost stamp0 = *stamp_done;
    let bt = collect_bindings(module.decls);
    let ghost btv = bt@;
    let mut roots = module.roots;
    let total = roots.len();
    let ghost orig = roots@;
    proof {
        lemma_view_root_list(orig, 0);
        assert forall|j: int|
            0 <= j < orig.len() implies #[trigger] view_root_list(orig, 0)[j] == view_element(
            orig[j],
        ) by {
            assert(view_root_list(orig, 0)[j - 0] == view_element(orig[j]));
        }
    }
    let mut out: Vec<Element> = Vec::new();
    let mut i: usize = 0;
    proof {
        assert(view_root_list(out@, 0) =~= Seq::<ElementV>::empty());
    }
    while roots.len() > 0
        invariant
            orig.len() == total,
            i + roots@.len() == orig.len(),
            roots@ == orig.skip(i as int),
            rootsv == view_root_list(orig, 0),
            rootsv.len() == orig.len(),
            forall|j: int| 0 <= j < orig.len() ==> #[trigger] rootsv[j] == view_element(orig[j]),
            cfgv == view_config(transform.config),
            srcv == view_source_opt(transform.source),
            btv == bt@,
            spec_pipeline_roots(rootsv, 0, cfgv, btv, srcv, stamp0) == {
                let rest = spec_pipeline_roots(rootsv, i as int, cfgv, btv, srcv, *stamp_done);
                (view_root_list(out@, 0) + rest.0, rest.1)
            },
        decreases roots@.len(),
    {
        let ghost out_pre = view_root_list(out@, 0);
        let ghost stamp_pre = *stamp_done;
        let root = roots.remove(0);
        proof {
            assert(root == orig[i as int]);
            assert(roots@ =~= orig.skip(i + 1 as int));
        }
        let ghost esz = element_size(root);
        let (inst, _bubbles) = instrument_element(
            root,
            &transform.config,
            &bt,
            &transform.source,
            stamp_done,
            false,
            Ghost(esz),
        );
        let ghost hsz = element_size(inst);
        let hoisted = hoist_element(inst, &transform.config, Ghost(hsz));
        let ghost hv = view_element(hoisted);
        let ghost out_before = out@;
        let ghost hoisted_g = hoisted;
        out.push(hoisted);
        proof {
            assert(out@ =~= out_before.push(hoisted_g));
            lemma_view_root_list(out@, 0);
            lemma_view_root_list(out_before, 0);
            assert(view_root_list(out@, 0) =~= out_pre.push(hv)) by {
                assert forall|j: int|
                    0 <= j < out@.len() implies view_root_list(out@, 0)[j - 0] == out_pre.push(
                    hv,
                )[j] by {
                    if j < out_before.len() {
                        assert(out@[j] == out_before[j]);
                    } else {
                        assert(out@[j] == hoisted_g);
                    }
                }
            }
            let rest_pre = spec_pipeline_roots(rootsv, i as int, cfgv, btv, srcv, stamp_pre);
            let rest_post = spec_pipeline_roots(
                rootsv,
                i + 1 as int,
                cfgv,
                btv,
                srcv,
                *stamp_done,
            );
            assert(out_pre + rest_pre.0 =~= view_root_list(out@, 0) + rest_post.0);
        }
        i = i + 1;
    }
    proof {
        let rest = spec_pipeline_roots(rootsv, rootsv.len() as int, cfgv, btv, srcv, *stamp_done);
        assert(rest.0 =~= Seq::<ElementV>::empty());
        assert(view_root_list(out@, 0) + rest.0 =~= view_root_list(out@, 0));
    }
    out
}

/// Determinism: the transform's result is a function of the tree, the
/// configuration, the line table and the incoming stamp flag alone, so two
/// runs on equal inputs give byte-identical attribute payloads and equal
/// trees.
pub proof fn lemma_pipeline_deterministic(
    decls: Seq<DeclItem>,
    roots: Seq<ElementV>,
    cfg: ConfigV,
    src: Option<SourceInfoV>,
    stamp: bool,
    out1: (Seq<ElementV>, bool),
    out2: (Seq<ElementV>, bool),
)
    requires
        out1 == spec_pipeline(decls, roots, cfg, src, stamp),
        out2 == spec_pipeline(decls, roots, cfg, src, stamp),
    ensures
        out1 == out2,
{
}

/// Once the once-only stamp flag is set, no element receives the
/// repository attributes and the flag stays set.
pub proof fn lemma_stamp_once(attrs: Seq<crate::ast::AttrV>, name: crate::ast::JsxNameV, cfg: ConfigV)
    ensures
        crate::engine::spec_stamp(attrs, name, cfg, true) == (attrs, true),
{
}

} // verus!
