//! The provenance tracer: a bounded recursive walk of an expression that
//! records how its value is derived, as an ordered chain of provenance
//! nodes.
//!
//! The walk stops once its depth budget is spent or the chain holds more
//! than `MAX_CHAIN` nodes, so it terminates with bounded memory on any
//! input, however nested.

use vstd::prelude::*;
use crate::ByteSpan;
use crate::ast::{Arg, ArgV, ArrayEntry, ArrayEntryV, BindingV, Callee, CalleeV, Expr, ExprV,
    MemberProp, MemberPropV, PropEntry, PropEntryV, PropKey, PropKeyV, ScopedId, ScopedIdV,
    lemma_view_arg_list, lemma_view_elem_list, lemma_view_expr_list, lemma_view_prop_list,
    view_array_entry, view_arg_list, view_binding, view_elem_list, view_expr, view_expr_list,
    view_id, view_prop_entry, view_prop_key, view_prop_list};
use crate::bindings::BindingTable;
use crate::span::{SourceInfo, SourceInfoV, spec_span_tag, span_file_lines, view_source_opt};
use crate::text::{clone_text, push_all, push_str_chars, text_eq, text_of};

verus! {

/// The depth budget a trace starts with.
pub const TRACE_FUEL: u32 = 9;

/// A chain longer than this stops the walk.
pub const MAX_CHAIN: usize = 128;

/// One step in a provenance chain. Every span is already rendered as a
/// `file:startLine-endLine` tag.
pub enum ProvNode {
    Literal { span: Vec<char>, value_kind: Vec<char> },
    Ident { name: Vec<char>, span: Vec<char> },
    Init { span: Vec<char> },
    Import { source: Vec<char>, imported: Vec<char>, span: Vec<char> },
    Member { span: Vec<char> },
    ObjectProp { key: Vec<char>, span: Vec<char> },
    ArrayElem { index: usize, span: Vec<char> },
    Call { callee: Vec<char>, callsite: Vec<char>, callee_span: Vec<char>, fn_def_span: Option<Vec<char>> },
    Ctor { callee: Vec<char>, span: Vec<char> },
    Op { op: Vec<char>, span: Vec<char> },
    Env { key: Vec<char>, span: Vec<char> },
    Fetch { url: Option<Vec<char>>, span: Vec<char> },
    Unknown { span: Vec<char> },
}

pub enum ProvNodeV {
    Literal { span: Seq<char>, value_kind: Seq<char> },
    Ident { name: Seq<char>, span: Seq<char> },
    Init { span: Seq<char> },
    Import { source: Seq<char>, imported: Seq<char>, span: Seq<char> },
    Member { span: Seq<char> },
    ObjectProp { key: Seq<char>, span: Seq<char> },
    ArrayElem { index: nat, span: Seq<char> },
    Call { callee: Seq<char>, callsite: Seq<char>, callee_span: Seq<char>, fn_def_span: Option<Seq<char>> },
    Ctor { callee: Seq<char>, span: Seq<char> },
    Op { op: Seq<char>, span: Seq<char> },
    Env { key: Seq<char>, span: Seq<char> },
    Fetch { url: Option<Seq<char>>, span: Seq<char> },
    Unknown { span: Seq<char> },
}

pub open spec fn view_node(n: ProvNode) -> ProvNodeV {
    match n {
        ProvNode::Literal { span, value_kind } => ProvNodeV::Literal {
            span: span@,
            value_kind: value_kind@,
        },
        ProvNode::Ident { name, span } => ProvNodeV::Ident { name: name@, span: span@ },
        ProvNode::Init { span } => ProvNodeV::Init { span: span@ },
        ProvNode::Import { source, imported, span } => ProvNodeV::Import {
            source: source@,
            imported: imported@,
            span: span@,
        },
        ProvNode::Member { span } => ProvNodeV::Member { span: span@ },
        ProvNode::ObjectProp { key, span } => ProvNodeV::ObjectProp { key: key@, span: span@ },
        ProvNode::ArrayElem { index, span } => ProvNodeV::ArrayElem {
            index: index as nat,
            span: span@,
        },
        ProvNode::Call { callee, callsite, callee_span, fn_def_span } => ProvNodeV::Call {
            callee: callee@,
            callsite: callsite@,
            callee_span: callee_span@,
            fn_def_span: match fn_def_span {
                Some(t) => Some(t@),
                None => None,
            },
        },
        ProvNode::Ctor { callee, span } => ProvNodeV::Ctor { callee: callee@, span: span@ },
        ProvNode::Op { op, span } => ProvNodeV::Op { op: op@, span: span@ },
        ProvNode::Env { key, span } => ProvNodeV::Env { key: key@, span: span@ },
        ProvNode::Fetch { url, span } => ProvNodeV::Fetch {
            url: match url {
                Some(t) => Some(t@),
                None => None,
            },
            span: span@,
        },
        ProvNode::Unknown { span } => ProvNodeV::Unknown { span: span@ },
    }
}

pub open spec fn view_nodes(s: Seq<ProvNode>) -> Seq<ProvNodeV> {
    Seq::new(s.len(), |i: int| view_node(s[i]))
}

pub open spec fn view_ids(s: Seq<ScopedId>) -> Seq<ScopedIdV> {
    Seq::new(s.len(), |i: int| view_id(s[i]))
}

/// The byte range an expression covers.
pub open spec fn expr_span_v(e: ExprV) -> ByteSpan {
    match e {
        ExprV::LitNum { span, .. } => span,
        ExprV::LitStr { span, .. } => span,
        ExprV::LitOther { span } => span,
        ExprV::Ident { span, .. } => span,
        ExprV::Member { span, .. } => span,
        ExprV::Call { span, .. } => span,
        ExprV::New { span, .. } => span,
        ExprV::Tpl { span, .. } => span,
        ExprV::Bin { span, .. } => span,
        ExprV::Cond { span, .. } => span,
        ExprV::Unary { span, .. } => span,
        ExprV::Update { span, .. } => span,
        ExprV::Object { span, .. } => span,
        ExprV::Array { span, .. } => span,
        ExprV::Other { span } => span,
    }
}

/// The byte range an expression covers.
pub fn expr_span(e: &Expr) -> (r: ByteSpan)
    ensures
        r == expr_span_v(view_expr(*e)),
{
    match e {
        Expr::LitNum { span, .. } => *span,
        Expr::LitStr { span, .. } => *span,
        Expr::LitOther { span } => *span,
        Expr::Ident { span, .. } => *span,
        Expr::Member { span, .. } => *span,
        Expr::Call { span, .. } => *span,
        Expr::New { span, .. } => *span,
        Expr::Tpl { span, .. } => *span,
        Expr::Bin { span, .. } => *span,
        Expr::Cond { span, .. } => *span,
        Expr::Unary { span, .. } => *span,
        Expr::Update { span, .. } => *span,
        Expr::Object { span, .. } => *span,
        Expr::Array { span, .. } => *span,
        Expr::Other { span } => *span,
    }
}

/// The key an environment-variable accessor reads, when the member access
/// has the shape `process.env.KEY` or `import.meta.env.KEY`.
pub open spec fn spec_env_key(obj: ExprV, prop: MemberPropV) -> Option<Seq<char>> {
    match prop {
        MemberPropV::Ident { name: key } => match obj {
            ExprV::Member { obj: inner, prop: inner_prop, .. } => match inner_prop {
                MemberPropV::Ident { name: env_name } => if env_name == "env"@ {
                    match *inner {
                        ExprV::Ident { id, .. } => if id.0 == "process"@ {
                            Some(key)
                        } else {
                            None
                        },
                        ExprV::Member { obj: inner2, prop: meta_prop, .. } => match meta_prop {
                            MemberPropV::Ident { name: meta_name } => if meta_name == "meta"@ {
                                match *inner2 {
                                    ExprV::Ident { id, .. } => if id.0 == "import"@ {
                                        Some(key)
                                    } else {
                                        None
                                    },
                                    _ => None,
                                }
                            } else {
                                None
                            },
                            _ => None,
                        },
                        _ => None,
                    }
                } else {
                    None
                },
                _ => None,
            },
            _ => None,
        },
        _ => None,
    }
}

/// Recognize `process.env.KEY` and `import.meta.env.KEY` accessors.
pub fn detect_env_member(obj: &Expr, prop: &MemberProp) -> (r: Option<Vec<char>>)
    ensures
        (match spec_env_key(view_expr(*obj), view_member_prop(*prop)) {
            Some(k) => r is Some && r->0@ == k,
            None => r is None,
        }),
{
    proof {
        reveal_with_fuel(view_expr, 4);
    }
    let key = match prop {
        MemberProp::Ident { name } => name,
        _ => {
            return None;
        },
    };
    match obj {
        Expr::Member { obj: inner, prop: inner_prop, .. } => {
            let env_name = match inner_prop {
                MemberProp::Ident { name } => name,
                _ => {
                    return None;
                },
            };
            let env_lit = text_of("env");
            if !text_eq(env_name, &env_lit) {
                return None;
            }
            match &**inner {
                Expr::Ident { id, .. } => {
                    let process_lit = text_of("process");
                    if text_eq(&id.name, &process_lit) {
                        Some(clone_text(key))
                    } else {
                        None
                    }
                },
                Expr::Member { obj: inner2, prop: meta_prop, .. } => {
                    let meta_name = match meta_prop {
                        MemberProp::Ident { name } => name,
                        _ => {
                            return None;
                        },
                    };
                    let meta_lit = text_of("meta");
                    if !text_eq(meta_name, &meta_lit) {
                        return None;
                    }
                    match &**inner2 {
                        Expr::Ident { id, .. } => {
                            let import_lit = text_of("import");
                            if text_eq(&id.name, &import_lit) {
                                Some(clone_text(key))
                            } else {
                                None
                            }
                        },
                        _ => None,
                    }
                },
                _ => None,
            }
        },
        _ => None,
    }
}

/// The value of one member property.
pub open spec fn view_member_prop(p: MemberProp) -> MemberPropV {
    match p {
        MemberProp::Ident { name } => MemberPropV::Ident { name: name@ },
        MemberProp::Computed { expr } => MemberPropV::Computed { expr: Box::new(view_expr(*expr)) },
        MemberProp::Private => MemberPropV::Private,
    }
}

/// The text an object key contributes to a provenance node.
pub open spec fn spec_prop_key_text(k: PropKeyV) -> Seq<char> {
    match k {
        PropKeyV::Ident { name, .. } => name,
        PropKeyV::Str { value, .. } => value,
        PropKeyV::Num { .. } => "<computed>"@,
        PropKeyV::Computed { .. } => "<computed>"@,
    }
}

/// The byte range of an object key.
pub open spec fn spec_prop_key_span(k: PropKeyV) -> ByteSpan {
    match k {
        PropKeyV::Ident { span, .. } => span,
        PropKeyV::Str { span, .. } => span,
        PropKeyV::Num { span, .. } => span,
        PropKeyV::Computed { span } => span,
    }
}

/// A trace's running state: the chain so far, and the scoped identifiers
/// already expanded for this trace root.
pub type TraceAcc = (Seq<ProvNodeV>, Seq<ScopedIdV>);

/// What one trace step appends, by expression shape. The chain and the
/// visited set grow and are never reordered.
pub open spec fn spec_trace(
    e: ExprV,
    bt: Map<ScopedIdV, BindingV>,
    src: Option<SourceInfoV>,
    fuel: nat,
    acc: TraceAcc,
) -> TraceAcc
    decreases fuel, 1int, 0int,
{
    if fuel == 0 || acc.0.len() > MAX_CHAIN {
        acc
    } else {
        let chain = acc.0;
        let seen = acc.1;
        match e {
            ExprV::LitNum { span, .. } => (
                chain.push(
                    ProvNodeV::Literal { span: spec_span_tag(span, src), value_kind: "number"@ },
                ),
                seen,
            ),
            ExprV::LitStr { span, .. } => (
                chain.push(
                    ProvNodeV::Literal { span: spec_span_tag(span, src), value_kind: "string"@ },
                ),
                seen,
            ),
            ExprV::LitOther { span } => (
                chain.push(
                    ProvNodeV::Literal { span: spec_span_tag(span, src), value_kind: "other"@ },
                ),
                seen,
            ),
            ExprV::Ident { id, span } => {
                let chain1 = chain.push(
                    ProvNodeV::Ident { name: id.0, span: spec_span_tag(span, src) },
                );
                if seen.contains(id) {
                    (chain1, seen)
                } else {
                    let seen1 = seen.push(id);
                    if bt.contains_key(id) {
                        let b = bt[id];
                        let acc2 = match b.init {
                            Some(init) => {
                                let chain2 = chain1.push(
                                    ProvNodeV::Init {
                                        span: spec_span_tag(expr_span_v(init), src),
                                    },
                                );
                                spec_trace(init, bt, src, (fuel - 1) as nat, (chain2, seen1))
                            },
                            None => (chain1, seen1),
                        };
                        match b.import {
                            Some(im) => (
                                acc2.0.push(
                                    ProvNodeV::Import {
                                        source: im.source,
                                        imported: im.imported,
                                        span: spec_span_tag(b.def_span, src),
                                    },
                                ),
                                acc2.1,
                            ),
                            None => acc2,
                        }
                    } else {
                        (chain1, seen1)
                    }
                }
            },
            ExprV::Member { obj, prop, span } => {
                match spec_env_key(*obj, prop) {
                    Some(key) => (
                        chain.push(ProvNodeV::Env { key, span: spec_span_tag(span, src) }),
                        seen,
                    ),
                    None => {
                        let acc1 = (
                            chain.push(ProvNodeV::Member { span: spec_span_tag(span, src) }),
                            seen,
                        );
                        let acc2 = spec_trace(*obj, bt, src, (fuel - 1) as nat, acc1);
                        match prop {
                            MemberPropV::Computed { expr } => spec_trace(
                                *expr,
                                bt,
                                src,
                                (fuel - 1) as nat,
                                acc2,
                            ),
                            _ => acc2,
                        }
                    },
                }
            },
            ExprV::Call { callee, args, span } => {
                let info = spec_callee_info(callee, span, bt, src);
                let acc1 = (
                    chain.push(
                        ProvNodeV::Call {
                            callee: info.0,
                            callsite: spec_span_tag(span, src),
                            callee_span: info.1,
                            fn_def_span: info.2,
                        },
                    ),
                    seen,
                );
                spec_trace_args(args, 0, bt, src, fuel, acc1)
            },
            ExprV::New { callee, args, span } => {
                let name = match *callee {
                    ExprV::Ident { id, .. } => id.0,
                    ExprV::Member { .. } => "<member>"@,
                    _ => "<expr>"@,
                };
                let acc1 = (
                    chain.push(ProvNodeV::Ctor { callee: name, span: spec_span_tag(span, src) }),
                    seen,
                );
                spec_trace_args(args, 0, bt, src, fuel, acc1)
            },
            ExprV::Tpl { exprs, span } => {
                let acc1 = (
                    chain.push(
                        ProvNodeV::Op { op: "template"@, span: spec_span_tag(span, src) },
                    ),
                    seen,
                );
                spec_trace_exprs(exprs, 0, bt, src, fuel, acc1)
            },
            ExprV::Bin { op, left, right, span } => {
                let acc1 = (
                    chain.push(
                        ProvNodeV::Op { op: "binary:"@ + op, span: spec_span_tag(span, src) },
                    ),
                    seen,
                );
                let acc2 = spec_trace(*left, bt, src, (fuel - 1) as nat, acc1);
                spec_trace(*right, bt, src, (fuel - 1) as nat, acc2)
            },
            ExprV::Cond { test, cons, alt, span } => {
                let acc1 = (
                    chain.push(ProvNodeV::Op { op: "cond"@, span: spec_span_tag(span, src) }),
                    seen,
                );
                let acc2 = spec_trace(*test, bt, src, (fuel - 1) as nat, acc1);
                let acc3 = spec_trace(*cons, bt, src, (fuel - 1) as nat, acc2);
                spec_trace(*alt, bt, src, (fuel - 1) as nat, acc3)
            },
            ExprV::Unary { op, arg, span } => {
                let acc1 = (
                    chain.push(
                        ProvNodeV::Op { op: "unary:"@ + op, span: spec_span_tag(span, src) },
                    ),
                    seen,
                );
                spec_trace(*arg, bt, src, (fuel - 1) as nat, acc1)
            },
            ExprV::Update { arg, span } => {
                let acc1 = (
                    chain.push(ProvNodeV::Op { op: "update"@, span: spec_span_tag(span, src) }),
                    seen,
                );
                spec_trace(*arg, bt, src, (fuel - 1) as nat, acc1)
            },
            ExprV::Object { props, .. } => spec_trace_props(props, 0, bt, src, fuel, acc),
            ExprV::Array { elems, .. } => spec_trace_elems(elems, 0, bt, src, fuel, acc),
            ExprV::Other { span } => (
                chain.push(ProvNodeV::Unknown { span: spec_span_tag(span, src) }),
                seen,
            ),
        }
    }
}

/// The callee name, callee span tag, and known function-definition tag of
/// a call.
pub open spec fn spec_callee_info(
    callee: CalleeV,
    call_span: ByteSpan,
    bt: Map<ScopedIdV, BindingV>,
    src: Option<SourceInfoV>,
) -> (Seq<char>, Seq<char>, Option<Seq<char>>) {
    match callee {
        CalleeV::Expr { expr } => match *expr {
            ExprV::Ident { id, span } => {
                let def = if bt.contains_key(id) {
                    let b = bt[id];
                    Some(
                        spec_span_tag(
                            match b.fn_body_span {
                                Some(sp) => sp,
                                None => b.def_span,
                            },
                            src,
                        ),
                    )
                } else {
                    None
                };
                (id.0, spec_span_tag(span, src), def)
            },
            ExprV::Member { span, .. } => ("<member>"@, spec_span_tag(span, src), None),
            _ => ("<expr>"@, spec_span_tag(call_span, src), None),
        },
        CalleeV::NotExpr => ("<expr>"@, spec_span_tag(call_span, src), None),
    }
}

/// Trace each non-spread argument, in order.
pub open spec fn spec_trace_args(
    args: Seq<ArgV>,
    i: int,
    bt: Map<ScopedIdV, BindingV>,
    src: Option<SourceInfoV>,
    fuel: nat,
    acc: TraceAcc,
) -> TraceAcc
    decreases fuel, 0int, args.len() - i,
{
    if 0 <= i < args.len() && fuel > 0 {
        let acc1 = if args[i].spread {
            acc
        } else {
            spec_trace(args[i].expr, bt, src, (fuel - 1) as nat, acc)
        };
        spec_trace_args(args, i + 1, bt, src, fuel, acc1)
    } else {
        acc
    }
}

/// Trace each expression of a list, in order.
pub open spec fn spec_trace_exprs(
    exprs: Seq<ExprV>,
    i: int,
    bt: Map<ScopedIdV, BindingV>,
    src: Option<SourceInfoV>,
    fuel: nat,
    acc: TraceAcc,
) -> TraceAcc
    decreases fuel, 0int, exprs.len() - i,
{
    if 0 <= i < exprs.len() && fuel > 0 {
        let acc1 = spec_trace(exprs[i], bt, src, (fuel - 1) as nat, acc);
        spec_trace_exprs(exprs, i + 1, bt, src, fuel, acc1)
    } else {
        acc
    }
}

/// For each key/value entry push its key and trace its value, in order.
pub open spec fn spec_trace_props(
    props: Seq<PropEntryV>,
    i: int,
    bt: Map<ScopedIdV, BindingV>,
    src: Option<SourceInfoV>,
    fuel: nat,
    acc: TraceAcc,
) -> TraceAcc
    decreases fuel, 0int, props.len() - i,
{
    if 0 <= i < props.len() && fuel > 0 {
        let acc1 = match props[i] {
            PropEntryV::KeyValue { key, value } => {
                let with_key = (
                    acc.0.push(
                        ProvNodeV::ObjectProp {
                            key: spec_prop_key_text(key),
                            span: spec_span_tag(spec_prop_key_span(key), src),
                        },
                    ),
                    acc.1,
                );
                spec_trace(value, bt, src, (fuel - 1) as nat, with_key)
            },
            PropEntryV::OtherProp => acc,
        };
        spec_trace_props(props, i + 1, bt, src, fuel, acc1)
    } else {
        acc
    }
}

/// Is this scoped identifier already marked as visited?
fn seen_contains(seen: &Vec<ScopedId>, id: &ScopedId) -> (r: bool)
    ensures
        r == view_ids(seen@).contains(view_id(*id)),
{
    let mut i: usize = 0;
    while i < seen.len()
        invariant
            i <= seen@.len(),
            forall|j: int| 0 <= j < i ==> view_ids(seen@)[j] != view_id(*id),
        decreases seen@.len() - i,
    {
        let entry = &seen[i];
        if text_eq(&entry.name, &id.name) && entry.scope == id.scope {
            proof {
                assert(view_ids(seen@)[i as int] == view_id(*id));
            }
            return true;
        }
        proof {
            assert(view_ids(seen@)[i as int] == view_id(seen@[i as int]));
            assert(view_ids(seen@)[i as int] != view_id(*id));
        }
        i = i + 1;
    }
    proof {
        assert(forall|j: int| 0 <= j < view_ids(seen@).len() ==> view_ids(seen@)[j] != view_id(*id));
    }
    false
}

/// An owned copy of a scoped identifier.
fn clone_id(id: &ScopedId) -> (r: ScopedId)
    ensures
        view_id(r) == view_id(*id),
{
    ScopedId { name: clone_text(&id.name), scope: id.scope }
}

/// For each present element push its position and trace it, in order;
/// holes keep their positions.
pub open spec fn spec_trace_elems(
    elems: Seq<ArrayEntryV>,
    i: int,
    bt: Map<ScopedIdV, BindingV>,
    src: Option<SourceInfoV>,
    fuel: nat,
    acc: TraceAcc,
) -> TraceAcc
    decreases fuel, 0int, elems.len() - i,
{
    if 0 <= i < elems.len() && fuel > 0 {
        let acc1 = match elems[i] {
            ArrayEntryV::Elem { expr } => {
                let with_pos = (
                    acc.0.push(
                        ProvNodeV::ArrayElem {
                            index: i as nat,
                            span: spec_span_tag(expr_span_v(expr), src),
                        },
                    ),
                    acc.1,
                );
                spec_trace(expr, bt, src, (fuel - 1) as nat, with_pos)
            },
            ArrayEntryV::Hole => acc,
        };
        spec_trace_elems(elems, i + 1, bt, src, fuel, acc1)
    } else {
        acc
    }
}


/// The value of a callee.
pub open spec fn view_callee(c: Callee) -> CalleeV {
    match c {
        Callee::Expr { expr } => CalleeV::Expr { expr: Box::new(view_expr(*expr)) },
        Callee::NotExpr => CalleeV::NotExpr,
    }
}

/// Walk an expression and append the provenance nodes it contributes onto
/// `chain`, marking expanded identifiers in `seen`. What is appended is
/// exactly what [`spec_trace`] states for the expression's value, so two
/// walks of equal inputs append equal chains.
pub fn trace_expr(
    e: &Expr,
    bt: &BindingTable,
    src: &Option<SourceInfo>,
    fuel: u32,
    chain: &mut Vec<ProvNode>,
    seen: &mut Vec<ScopedId>,
)
    ensures
        (view_nodes(final(chain)@), view_ids(final(seen)@)) == spec_trace(
            view_expr(*e),
            bt@,
            view_source_opt(*src),
            fuel as nat,
            (view_nodes(old(chain)@), view_ids(old(seen)@)),
        ),
    decreases fuel, 2int,
{
    proof {
        reveal_with_fuel(view_expr, 2);
    }
    let ghost srcv = view_source_opt(*src);
    let ghost acc0: TraceAcc = (view_nodes(chain@), view_ids(seen@));
    if fuel == 0 || chain.len() > MAX_CHAIN {
        proof {
            assert(acc0.0.len() == chain@.len());
        }
        return;
    }
    match e {
        Expr::LitNum { span, .. } => {
            let tag = span_file_lines(src, *span);
            chain.push(ProvNode::Literal { span: tag, value_kind: text_of("number") });
            proof {
                assert(view_nodes(chain@) =~= acc0.0.push(
                    ProvNodeV::Literal {
                        span: spec_span_tag(*span, srcv),
                        value_kind: "number"@,
                    },
                ));
            }
        },
        Expr::LitStr { span, .. } => {
            let tag = span_file_lines(src, *span);
            chain.push(ProvNode::Literal { span: tag, value_kind: text_of("string") });
            proof {
                assert(view_nodes(chain@) =~= acc0.0.push(
                    ProvNodeV::Literal {
                        span: spec_span_tag(*span, srcv),
                        value_kind: "string"@,
                    },
                ));
            }
        },
        Expr::LitOther { span } => {
            let tag = span_file_lines(src, *span);
            chain.push(ProvNode::Literal { span: tag, value_kind: text_of("other") });
            proof {
                assert(view_nodes(chain@) =~= acc0.0.push(
                    ProvNodeV::Literal { span: spec_span_tag(*span, srcv), value_kind: "other"@ },
                ));
            }
        },
        Expr::Ident { id, span } => {
            trace_ident(id, *span, bt, src, fuel, chain, seen);
        },
        Expr::Member { obj, prop, span } => {
            trace_member(obj, prop, *span, bt, src, fuel, chain, seen);
        },
        Expr::Call { callee, args, span } => {
            trace_call(callee, args, *span, bt, src, fuel, chain, seen);
        },
        Expr::New { callee, args, span } => {
            trace_new(callee, args, *span, bt, src, fuel, chain, seen);
        },
        Expr::Tpl { exprs, span } => {
            trace_tpl(exprs, *span, bt, src, fuel, chain, seen);
        },
        Expr::Bin { op, left, right, span } => {
            let mut op_text = text_of("binary:");
            push_all(&mut op_text, op);
            let tag = span_file_lines(src, *span);
            chain.push(ProvNode::Op { op: op_text, span: tag });
            proof {
                assert(view_nodes(chain@) =~= acc0.0.push(
                    ProvNodeV::Op { op: "binary:"@ + op@, span: spec_span_tag(*span, srcv) },
                ));
            }
            trace_expr(left, bt, src, fuel - 1, chain, seen);
            trace_expr(right, bt, src, fuel - 1, chain, seen);
        },
        Expr::Cond { test, cons, alt, span } => {
            let tag = span_file_lines(src, *span);
            chain.push(ProvNode::Op { op: text_of("cond"), span: tag });
            proof {
                assert(view_nodes(chain@) =~= acc0.0.push(
                    ProvNodeV::Op { op: "cond"@, span: spec_span_tag(*span, srcv) },
                ));
            }
            trace_expr(test, bt, src, fuel - 1, chain, seen);
            trace_expr(cons, bt, src, fuel - 1, chain, seen);
            trace_expr(alt, bt, src, fuel - 1, chain, seen);
        },
        Expr::Unary { op, arg, span } => {
            let mut op_text = text_of("unary:");
            push_all(&mut op_text, op);
            let tag = span_file_lines(src, *span);
            chain.push(ProvNode::Op { op: op_text, span: tag });
            proof {
                assert(view_nodes(chain@) =~= acc0.0.push(
                    ProvNodeV::Op { op: "unary:"@ + op@, span: spec_span_tag(*span, srcv) },
                ));
            }
            trace_expr(arg, bt, src, fuel - 1, chain, seen);
        },
        Expr::Update { arg, span } => {
            let tag = span_file_lines(src, *span);
            chain.push(ProvNode::Op { op: text_of("update"), span: tag });
            proof {
                assert(view_nodes(chain@) =~= acc0.0.push(
                    ProvNodeV::Op { op: "update"@, span: spec_span_tag(*span, srcv) },
                ));
            }
            trace_expr(arg, bt, src, fuel - 1, chain, seen);
        },
        Expr::Object { props, span } => {
            trace_object(props, bt, src, fuel, chain, seen);
            proof {
                assert(view_expr(*e) == ExprV::Object {
                    props: view_prop_list(props@, 0),
                    span: *span,
                });
            }
        },
        Expr::Array { elems, span } => {
            trace_array(elems, bt, src, fuel, chain, seen);
            proof {
                assert(view_expr(*e) == ExprV::Array {
                    elems: view_elem_list(elems@, 0),
                    span: *span,
                });
            }
        },
        Expr::Other { span } => {
            let tag = span_file_lines(src, *span);
            chain.push(ProvNode::Unknown { span: tag });
            proof {
                assert(view_nodes(chain@) =~= acc0.0.push(
                    ProvNodeV::Unknown { span: spec_span_tag(*span, srcv) },
                ));
            }
        },
    }
}

/// The identifier step: record the identifier, and expand its binding once
/// per trace root.
fn trace_ident(
    id: &ScopedId,
    span: ByteSpan,
    bt: &BindingTable,
    src: &Option<SourceInfo>,
    fuel: u32,
    chain: &mut Vec<ProvNode>,
    seen: &mut Vec<ScopedId>,
)
    requires
        fuel >= 1,
        old(chain)@.len() <= MAX_CHAIN,
    ensures
        (view_nodes(final(chain)@), view_ids(final(seen)@)) == spec_trace(
            ExprV::Ident { id: view_id(*id), span },
            bt@,
            view_source_opt(*src),
            fuel as nat,
            (view_nodes(old(chain)@), view_ids(old(seen)@)),
        ),
    decreases fuel, 1int,
{
    let ghost btv = bt@;
    let ghost srcv = view_source_opt(*src);
    let ghost acc0: TraceAcc = (view_nodes(chain@), view_ids(seen@));
    proof {
        assert(acc0.0.len() == chain@.len());
    }
    let tag = span_file_lines(src, span);
    chain.push(ProvNode::Ident { name: clone_text(&id.name), span: tag });
    proof {
        assert(view_nodes(chain@) =~= acc0.0.push(
            ProvNodeV::Ident { name: id.name@, span: spec_span_tag(span, srcv) },
        ));
    }
    if seen_contains(seen, id) {
        return;
    }
    seen.push(clone_id(id));
    proof {
        assert(view_ids(seen@) =~= acc0.1.push(view_id(*id)));
    }
    match bt.lookup(id) {
        Some(b) => {
            proof {
                assert(view_binding(*b) == btv[view_id(*id)]);
            }
            let ghost chain1 = view_nodes(chain@);
            match &b.init {
                Some(init) => {
                    let ispan = expr_span(init);
                    let itag = span_file_lines(src, ispan);
                    chain.push(ProvNode::Init { span: itag });
                    proof {
                        assert(view_nodes(chain@) =~= chain1.push(
                            ProvNodeV::Init {
                                span: spec_span_tag(
                                    expr_span_v(btv[view_id(*id)].init->0),
                                    srcv,
                                ),
                            },
                        ));
                    }
                    trace_expr(init, bt, src, fuel - 1, chain, seen);
                },
                None => {},
            }
            match &b.import {
                Some(im) => {
                    let dtag = span_file_lines(src, b.def_span);
                    let ghost chain2 = view_nodes(chain@);
                    chain.push(
                        ProvNode::Import {
                            source: clone_text(&im.source),
                            imported: clone_text(&im.imported),
                            span: dtag,
                        },
                    );
                    proof {
                        assert(view_nodes(chain@) =~= chain2.push(
                            ProvNodeV::Import {
                                source: im.source@,
                                imported: im.imported@,
                                span: spec_span_tag(btv[view_id(*id)].def_span, srcv),
                            },
                        ));
                    }
                },
                None => {},
            }
        },
        None => {},
    }
}

/// The member step: an environment accessor becomes one leaf; any other
/// member access records itself and descends.
fn trace_member(
    obj: &Expr,
    prop: &MemberProp,
    span: ByteSpan,
    bt: &BindingTable,
    src: &Option<SourceInfo>,
    fuel: u32,
    chain: &mut Vec<ProvNode>,
    seen: &mut Vec<ScopedId>,
)
    requires
        fuel >= 1,
        old(chain)@.len() <= MAX_CHAIN,
    ensures
        (view_nodes(final(chain)@), view_ids(final(seen)@)) == spec_trace(
            ExprV::Member {
                obj: Box::new(view_expr(*obj)),
                prop: view_member_prop(*prop),
                span,
            },
            bt@,
            view_source_opt(*src),
            fuel as nat,
            (view_nodes(old(chain)@), view_ids(old(seen)@)),
        ),
    decreases fuel, 1int,
{
    let ghost srcv = view_source_opt(*src);
    let ghost acc0: TraceAcc = (view_nodes(chain@), view_ids(seen@));
    proof {
        assert(acc0.0.len() == chain@.len());
    }
    match detect_env_member(obj, prop) {
        Some(key) => {
            let tag = span_file_lines(src, span);
            chain.push(ProvNode::Env { key, span: tag });
            proof {
                let k = spec_env_key(view_expr(*obj), view_member_prop(*prop))->0;
                assert(view_nodes(chain@) =~= acc0.0.push(
                    ProvNodeV::Env { key: k, span: spec_span_tag(span, srcv) },
                ));
            }
        },
        None => {
            let tag = span_file_lines(src, span);
            chain.push(ProvNode::Member { span: tag });
            proof {
                assert(view_nodes(chain@) =~= acc0.0.push(
                    ProvNodeV::Member { span: spec_span_tag(span, srcv) },
                ));
            }
            trace_expr(obj, bt, src, fuel - 1, chain, seen);
            match prop {
                MemberProp::Computed { expr } => {
                    trace_expr(expr, bt, src, fuel - 1, chain, seen);
                },
                _ => {},
            }
        },
    }
}

/// The call step: record the call site, the callee, and a known function
/// definition, then trace each non-spread argument.
fn trace_call(
    callee: &Callee,
    args: &Vec<Arg>,
    span: ByteSpan,
    bt: &BindingTable,
    src: &Option<SourceInfo>,
    fuel: u32,
    chain: &mut Vec<ProvNode>,
    seen: &mut Vec<ScopedId>,
)
    requires
        fuel >= 1,
        old(chain)@.len() <= MAX_CHAIN,
    ensures
        (view_nodes(final(chain)@), view_ids(final(seen)@)) == spec_trace(
            ExprV::Call {
                callee: view_callee(*callee),
                args: view_arg_list(args@, 0),
                span,
            },
            bt@,
            view_source_opt(*src),
            fuel as nat,
            (view_nodes(old(chain)@), view_ids(old(seen)@)),
        ),
    decreases fuel, 1int,
{
    proof {
        reveal_with_fuel(view_expr, 2);
    }
    let ghost btv = bt@;
    let ghost srcv = view_source_opt(*src);
    let ghost acc0: TraceAcc = (view_nodes(chain@), view_ids(seen@));
    proof {
        assert(acc0.0.len() == chain@.len());
    }
    let name: Vec<char>;
    let cspan_tag: Vec<char>;
    let mut fndef: Option<Vec<char>> = None;
    match callee {
        Callee::Expr { expr } => match &**expr {
            Expr::Ident { id, span: ispan } => {
                match bt.lookup(id) {
                    Some(b) => {
                        let sp = match b.fn_body_span {
                            Some(s) => s,
                            None => b.def_span,
                        };
                        fndef = Some(span_file_lines(src, sp));
                    },
                    None => {},
                }
                name = clone_text(&id.name);
                cspan_tag = span_file_lines(src, *ispan);
            },
            Expr::Member { span: mspan, .. } => {
                name = text_of("<member>");
                cspan_tag = span_file_lines(src, *mspan);
            },
            _ => {
                name = text_of("<expr>");
                cspan_tag = span_file_lines(src, span);
            },
        },
        Callee::NotExpr => {
            name = text_of("<expr>");
            cspan_tag = span_file_lines(src, span);
        },
    }
    let ghost info = spec_callee_info(view_callee(*callee), span, btv, srcv);
    proof {
        assert(name@ == info.0 && cspan_tag@ == info.1 && (match fndef {
            Some(t) => Some(t@),
            None => None,
        }) == info.2);
    }
    let callsite = span_file_lines(src, span);
    chain.push(
        ProvNode::Call { callee: name, callsite, callee_span: cspan_tag, fn_def_span: fndef },
    );
    proof {
        assert(view_nodes(chain@) =~= acc0.0.push(
            ProvNodeV::Call {
                callee: info.0,
                callsite: spec_span_tag(span, srcv),
                callee_span: info.1,
                fn_def_span: info.2,
            },
        ));
    }
    trace_args(args, bt, src, fuel, chain, seen);
}

/// The constructor step: record the construction, then trace each
/// non-spread argument.
fn trace_new(
    callee: &Expr,
    args: &Vec<Arg>,
    span: ByteSpan,
    bt: &BindingTable,
    src: &Option<SourceInfo>,
    fuel: u32,
    chain: &mut Vec<ProvNode>,
    seen: &mut Vec<ScopedId>,
)
    requires
        fuel >= 1,
        old(chain)@.len() <= MAX_CHAIN,
    ensures
        (view_nodes(final(chain)@), view_ids(final(seen)@)) == spec_trace(
            ExprV::New {
                callee: Box::new(view_expr(*callee)),
                args: view_arg_list(args@, 0),
                span,
            },
            bt@,
            view_source_opt(*src),
            fuel as nat,
            (view_nodes(old(chain)@), view_ids(old(seen)@)),
        ),
    decreases fuel, 1int,
{
    proof {
        reveal_with_fuel(view_expr, 2);
    }
    let ghost srcv = view_source_opt(*src);
    let ghost acc0: TraceAcc = (view_nodes(chain@), view_ids(seen@));
    proof {
        assert(acc0.0.len() == chain@.len());
    }
    let name: Vec<char> = match callee {
        Expr::Ident { id, .. } => clone_text(&id.name),
        Expr::Member { .. } => text_of("<member>"),
        _ => text_of("<expr>"),
    };
    let tag = span_file_lines(src, span);
    chain.push(ProvNode::Ctor { callee: name, span: tag });
    proof {
        let namev = match view_expr(*callee) {
            ExprV::Ident { id, .. } => id.0,
            ExprV::Member { .. } => "<member>"@,
            _ => "<expr>"@,
        };
        assert(view_nodes(chain@) =~= acc0.0.push(
            ProvNodeV::Ctor { callee: namev, span: spec_span_tag(span, srcv) },
        ));
    }
    trace_args(args, bt, src, fuel, chain, seen);
}

/// Trace each non-spread argument of a call or construction, in order.
fn trace_args(
    args: &Vec<Arg>,
    bt: &BindingTable,
    src: &Option<SourceInfo>,
    fuel: u32,
    chain: &mut Vec<ProvNode>,
    seen: &mut Vec<ScopedId>,
)
    requires
        fuel >= 1,
    ensures
        (view_nodes(final(chain)@), view_ids(final(seen)@)) == spec_trace_args(
            view_arg_list(args@, 0),
            0,
            bt@,
            view_source_opt(*src),
            fuel as nat,
            (view_nodes(old(chain)@), view_ids(old(seen)@)),
        ),
    decreases fuel, 0int,
{
    let ghost btv = bt@;
    let ghost srcv = view_source_opt(*src);
    let ghost argsv = view_arg_list(args@, 0);
    let ghost acc1: TraceAcc = (view_nodes(chain@), view_ids(seen@));
    proof {
        lemma_view_arg_list(args@, 0);
        assert forall|j: int| 0 <= j < args@.len() implies #[trigger] argsv[j] == (ArgV {
            spread: args@[j].spread,
            expr: view_expr(args@[j].expr),
        }) by {
            assert(view_arg_list(args@, 0)[j - 0] == (ArgV {
                spread: args@[j].spread,
                expr: view_expr(args@[j].expr),
            }));
        }
    }
    let mut i: usize = 0;
    while i < args.len()
        invariant
            fuel >= 1,
            i <= args@.len(),
            argsv == view_arg_list(args@, 0),
            argsv.len() == args@.len(),
            forall|j: int|
                0 <= j < args@.len() ==> #[trigger] argsv[j] == (ArgV {
                    spread: args@[j].spread,
                    expr: view_expr(args@[j].expr),
                }),
            btv == bt@,
            srcv == view_source_opt(*src),
            spec_trace_args(argsv, 0, btv, srcv, fuel as nat, acc1) == spec_trace_args(
                argsv,
                i as int,
                btv,
                srcv,
                fuel as nat,
                (view_nodes(chain@), view_ids(seen@)),
            ),
        decreases args@.len() - i,
    {
        let ghost acc_pre: TraceAcc = (view_nodes(chain@), view_ids(seen@));
        let a = &args[i];
        if !a.spread {
            trace_expr(&a.expr, bt, src, fuel - 1, chain, seen);
        }
        proof {
            let acc_post: TraceAcc = (view_nodes(chain@), view_ids(seen@));
            assert(spec_trace_args(argsv, i as int, btv, srcv, fuel as nat, acc_pre)
                == spec_trace_args(argsv, i + 1 as int, btv, srcv, fuel as nat, acc_post));
        }
        i = i + 1;
    }
}

/// The template step: one operator node, then each embedded expression.
fn trace_tpl(
    exprs: &Vec<Expr>,
    span: ByteSpan,
    bt: &BindingTable,
    src: &Option<SourceInfo>,
    fuel: u32,
    chain: &mut Vec<ProvNode>,
    seen: &mut Vec<ScopedId>,
)
    requires
        fuel >= 1,
        old(chain)@.len() <= MAX_CHAIN,
    ensures
        (view_nodes(final(chain)@), view_ids(final(seen)@)) == spec_trace(
            ExprV::Tpl { exprs: view_expr_list(exprs@, 0), span },
            bt@,
            view_source_opt(*src),
            fuel as nat,
            (view_nodes(old(chain)@), view_ids(old(seen)@)),
        ),
    decreases fuel, 1int,
{
    let ghost btv = bt@;
    let ghost srcv = view_source_opt(*src);
    let ghost acc0: TraceAcc = (view_nodes(chain@), view_ids(seen@));
    proof {
        assert(acc0.0.len() == chain@.len());
    }
    let tag = span_file_lines(src, span);
    chain.push(ProvNode::Op { op: text_of("template"), span: tag });
    proof {
        assert(view_nodes(chain@) =~= acc0.0.push(
            ProvNodeV::Op { op: "template"@, span: spec_span_tag(span, srcv) },
        ));
    }
    let ghost exprsv = view_expr_list(exprs@, 0);
    let ghost acc1: TraceAcc = (view_nodes(chain@), view_ids(seen@));
    proof {
        lemma_view_expr_list(exprs@, 0);
        assert forall|j: int| 0 <= j < exprs@.len() implies #[trigger] exprsv[j] == view_expr(
            exprs@[j],
        ) by {
            assert(view_expr_list(exprs@, 0)[j - 0] == view_expr(exprs@[j]));
        }
    }
    let mut i: usize = 0;
    while i < exprs.len()
        invariant
            fuel >= 1,
            i <= exprs@.len(),
            exprsv == view_expr_list(exprs@, 0),
            exprsv.len() == exprs@.len(),
            forall|j: int| 0 <= j < exprs@.len() ==> #[trigger] exprsv[j] == view_expr(exprs@[j]),
            btv == bt@,
            srcv == view_source_opt(*src),
            spec_trace_exprs(exprsv, 0, btv, srcv, fuel as nat, acc1) == spec_trace_exprs(
                exprsv,
                i as int,
                btv,
                srcv,
                fuel as nat,
                (view_nodes(chain@), view_ids(seen@)),
            ),
        decreases exprs@.len() - i,
    {
        let ghost acc_pre: TraceAcc = (view_nodes(chain@), view_ids(seen@));
        trace_expr(&exprs[i], bt, src, fuel - 1, chain, seen);
        proof {
            let acc_post: TraceAcc = (view_nodes(chain@), view_ids(seen@));
            assert(spec_trace_exprs(exprsv, i as int, btv, srcv, fuel as nat, acc_pre)
                == spec_trace_exprs(exprsv, i + 1 as int, btv, srcv, fuel as nat, acc_post));
        }
        i = i + 1;
    }
}

/// The object step: record each key/value entry's key and trace its value.
fn trace_object(
    props: &Vec<PropEntry>,
    bt: &BindingTable,
    src: &Option<SourceInfo>,
    fuel: u32,
    chain: &mut Vec<ProvNode>,
    seen: &mut Vec<ScopedId>,
)
    requires
        fuel >= 1,
    ensures
        (view_nodes(final(chain)@), view_ids(final(seen)@)) == spec_trace_props(
            view_prop_list(props@, 0),
            0,
            bt@,
            view_source_opt(*src),
            fuel as nat,
            (view_nodes(old(chain)@), view_ids(old(seen)@)),
        ),
    decreases fuel, 0int,
{
    let ghost btv = bt@;
    let ghost srcv = view_source_opt(*src);
    let ghost propsv = view_prop_list(props@, 0);
    let ghost acc0: TraceAcc = (view_nodes(chain@), view_ids(seen@));
    proof {
        lemma_view_prop_list(props@, 0);
        assert forall|j: int| 0 <= j < props@.len() implies #[trigger] propsv[j] == view_prop_entry(
            props@[j],
        ) by {
            assert(view_prop_list(props@, 0)[j - 0] == view_prop_entry(props@[j]));
        }
    }
    let mut i: usize = 0;
    while i < props.len()
        invariant
            fuel >= 1,
            i <= props@.len(),
            propsv == view_prop_list(props@, 0),
            propsv.len() == props@.len(),
            forall|j: int|
                0 <= j < props@.len() ==> #[trigger] propsv[j] == view_prop_entry(props@[j]),
            btv == bt@,
            srcv == view_source_opt(*src),
            spec_trace_props(propsv, 0, btv, srcv, fuel as nat, acc0) == spec_trace_props(
                propsv,
                i as int,
                btv,
                srcv,
                fuel as nat,
                (view_nodes(chain@), view_ids(seen@)),
            ),
        decreases props@.len() - i,
    {
        let ghost acc_pre: TraceAcc = (view_nodes(chain@), view_ids(seen@));
        match &props[i] {
            PropEntry::KeyValue { key, value } => {
                let key_text: Vec<char> = match key {
                    PropKey::Ident { name, .. } => clone_text(name),
                    PropKey::Str { value: v, .. } => clone_text(v),
                    _ => text_of("<computed>"),
                };
                let key_span: ByteSpan = match key {
                    PropKey::Ident { span, .. } => *span,
                    PropKey::Str { span, .. } => *span,
                    PropKey::Num { span, .. } => *span,
                    PropKey::Computed { span } => *span,
                };
                let tag = span_file_lines(src, key_span);
                chain.push(ProvNode::ObjectProp { key: key_text, span: tag });
                proof {
                    let kv = view_prop_key(props@[i as int]->KeyValue_key);
                    assert(view_nodes(chain@) =~= acc_pre.0.push(
                        ProvNodeV::ObjectProp {
                            key: spec_prop_key_text(kv),
                            span: spec_span_tag(spec_prop_key_span(kv), srcv),
                        },
                    ));
                }
                trace_expr(value, bt, src, fuel - 1, chain, seen);
            },
            PropEntry::OtherProp => {},
        }
        proof {
            let acc_post: TraceAcc = (view_nodes(chain@), view_ids(seen@));
            assert(spec_trace_props(propsv, i as int, btv, srcv, fuel as nat, acc_pre)
                == spec_trace_props(propsv, i + 1 as int, btv, srcv, fuel as nat, acc_post));
        }
        i = i + 1;
    }
}

/// The array step: record each present element's position and trace it.
fn trace_array(
    elems: &Vec<ArrayEntry>,
    bt: &BindingTable,
    src: &Option<SourceInfo>,
    fuel: u32,
    chain: &mut Vec<ProvNode>,
    seen: &mut Vec<ScopedId>,
)
    requires
        fuel >= 1,
    ensures
        (view_nodes(final(chain)@), view_ids(final(seen)@)) == spec_trace_elems(
            view_elem_list(elems@, 0),
            0,
            bt@,
            view_source_opt(*src),
            fuel as nat,
            (view_nodes(old(chain)@), view_ids(old(seen)@)),
        ),
    decreases fuel, 0int,
{
    let ghost btv = bt@;
    let ghost srcv = view_source_opt(*src);
    let ghost elemsv = view_elem_list(elems@, 0);
    let ghost acc0: TraceAcc = (view_nodes(chain@), view_ids(seen@));
    proof {
        lemma_view_elem_list(elems@, 0);
        assert forall|j: int| 0 <= j < elems@.len() implies #[trigger] elemsv[j] == view_array_entry(
            elems@[j],
        ) by {
            assert(view_elem_list(elems@, 0)[j - 0] == view_array_entry(elems@[j]));
        }
    }
    let mut i: usize = 0;
    while i < elems.len()
        invariant
            fuel >= 1,
            i <= elems@.len(),
            elemsv == view_elem_list(elems@, 0),
            elemsv.len() == elems@.len(),
            forall|j: int|
                0 <= j < elems@.len() ==> #[trigger] elemsv[j] == view_array_entry(elems@[j]),
            btv == bt@,
            srcv == view_source_opt(*src),
            spec_trace_elems(elemsv, 0, btv, srcv, fuel as nat, acc0) == spec_trace_elems(
                elemsv,
                i as int,
                btv,
                srcv,
                fuel as nat,
                (view_nodes(chain@), view_ids(seen@)),
            ),
        decreases elems@.len() - i,
    {
        let ghost acc_pre: TraceAcc = (view_nodes(chain@), view_ids(seen@));
        match &elems[i] {
            ArrayEntry::Elem { expr } => {
                let sp = expr_span(expr);
                let tag = span_file_lines(src, sp);
                chain.push(ProvNode::ArrayElem { index: i, span: tag });
                proof {
                    let ev = view_array_entry(elems@[i as int])->Elem_expr;
                    assert(view_nodes(chain@) =~= acc_pre.0.push(
                        ProvNodeV::ArrayElem {
                            index: i as nat,
                            span: spec_span_tag(expr_span_v(ev), srcv),
                        },
                    ));
                }
                trace_expr(expr, bt, src, fuel - 1, chain, seen);
            },
            ArrayEntry::Hole => {},
        }
        proof {
            let acc_post: TraceAcc = (view_nodes(chain@), view_ids(seen@));
            assert(spec_trace_elems(elemsv, i as int, btv, srcv, fuel as nat, acc_pre)
                == spec_trace_elems(elemsv, i + 1 as int, btv, srcv, fuel as nat, acc_post));
        }
        i = i + 1;
    }
}

} // verus!
