//! The symbol reference resolver: identifiers and static member chains
//! resolved to `(local, path)` pairs for data-flow bookkeeping.

use vstd::prelude::*;
use crate::ast::{Arg, ArgV, BindingV, Callee, CalleeV, Expr, ExprV, MemberProp, MemberPropV,
    ScopedIdV, arg_list_size, expr_size, lemma_arg_list_size, lemma_view_arg_list, view_arg_list,
    view_binding, view_expr, view_id};
use crate::bindings::BindingTable;
use crate::span::{SourceInfo, SourceInfoV, spec_span_tag, span_file_lines, view_source_opt};
use crate::text::{clone_text, push_all, push_str_chars, text_of};

verus! {

/// One symbol reference: the file, the root local name, a statically-known
/// accessor suffix (empty when none), and the rendered span tag.
pub struct SymbolRef {
    pub file: Vec<char>,
    pub local: Vec<char>,
    pub path: Vec<char>,
    pub span: Vec<char>,
}

pub struct SymbolRefV {
    pub file: Seq<char>,
    pub local: Seq<char>,
    pub path: Seq<char>,
    pub span: Seq<char>,
}

pub open spec fn view_symref(s: SymbolRef) -> SymbolRefV {
    SymbolRefV { file: s.file@, local: s.local@, path: s.path@, span: s.span@ }
}

pub open spec fn view_symrefs(s: Seq<SymbolRef>) -> Seq<SymbolRefV> {
    Seq::new(s.len(), |i: int| view_symref(s[i]))
}

/// The `root.path` pair of a member chain whose every segment is
/// statically known: a literal string or number key, or a plain property
/// name. A dynamic segment makes the whole chain unresolvable.
pub open spec fn spec_member_path(e: ExprV) -> Option<(Seq<char>, Seq<char>)>
    decreases e,
{
    match e {
        ExprV::Ident { id, .. } => Some((id.0, Seq::empty())),
        ExprV::Member { obj, prop, .. } => match spec_member_path(*obj) {
            Some(base) => match spec_member_seg(prop) {
                Some(seg) => Some((base.0, base.1 + seg)),
                None => None,
            },
            None => None,
        },
        _ => None,
    }
}

/// The path segment one member property contributes, when static.
pub open spec fn spec_member_seg(prop: MemberPropV) -> Option<Seq<char>> {
    match prop {
        MemberPropV::Ident { name } => Some(seq!['.'] + name),
        MemberPropV::Computed { expr } => match *expr {
            ExprV::LitStr { value, .. } => Some("[\""@ + value + "\"]"@),
            ExprV::LitNum { lexeme, .. } => Some(seq!['['] + lexeme + seq![']']),
            _ => None,
        },
        MemberPropV::Private => None,
    }
}

/// Resolve a static member chain to its root and accessor path.
pub fn static_member_path(e: &Expr) -> (r: Option<(Vec<char>, Vec<char>)>)
    ensures
        (match spec_member_path(view_expr(*e)) {
            Some(p) => r is Some && (r->0).0@ == p.0 && (r->0).1@ == p.1,
            None => r is None,
        }),
    decreases *e,
{
    proof {
        reveal_with_fuel(view_expr, 3);
    }
    match e {
        Expr::Ident { id, .. } => Some((clone_text(&id.name), Vec::new())),
        Expr::Member { obj, prop, .. } => {
            let base = match static_member_path(obj) {
                Some(b) => b,
                None => {
                    return None;
                },
            };
            let (root, mut path) = base;
            match prop {
                MemberProp::Ident { name } => {
                    path.push('.');
                    push_all(&mut path, name);
                    proof {
                        assert(path@ =~= (spec_member_path(view_expr(*e))->0).1);
                    }
                    Some((root, path))
                },
                MemberProp::Computed { expr } => match &**expr {
                    Expr::LitStr { value, .. } => {
                        push_str_chars(&mut path, "[\"");
                        push_all(&mut path, value);
                        push_str_chars(&mut path, "\"]");
                        proof {
                            assert(path@ =~= (spec_member_path(view_expr(*e))->0).1);
                        }
                        Some((root, path))
                    },
                    Expr::LitNum { lexeme, .. } => {
                        path.push('[');
                        push_all(&mut path, lexeme);
                        path.push(']');
                        proof {
                            assert(path@ =~= (spec_member_path(view_expr(*e))->0).1);
                        }
                        Some((root, path))
                    },
                    _ => None,
                },
                MemberProp::Private => None,
            }
        },
        _ => None,
    }
}

/// What the resolver appends for one expression: identifiers with an
/// initializer are chased `hops` more times; static member chains are
/// recorded and their parts descended; calls descend into the callee and
/// each non-spread argument.
pub open spec fn spec_symrefs(
    e: ExprV,
    bt: Map<ScopedIdV, BindingV>,
    src: Option<SourceInfoV>,
    file: Seq<char>,
    hops: nat,
    acc: Seq<SymbolRefV>,
) -> Seq<SymbolRefV>
    decreases hops, e, 1int,
{
    match e {
        ExprV::Ident { id, span } => {
            let acc1 = acc.push(
                SymbolRefV {
                    file,
                    local: id.0,
                    path: Seq::empty(),
                    span: spec_span_tag(span, src),
                },
            );
            if hops > 0 && bt.contains_key(id) && bt[id].init is Some {
                spec_symrefs(bt[id].init->0, bt, src, file, (hops - 1) as nat, acc1)
            } else {
                acc1
            }
        },
        ExprV::Member { obj, prop, span } => {
            let acc1 = match spec_member_path(e) {
                Some(p) => acc.push(
                    SymbolRefV { file, local: p.0, path: p.1, span: spec_span_tag(span, src) },
                ),
                None => acc,
            };
            let acc2 = spec_symrefs(*obj, bt, src, file, hops, acc1);
            match prop {
                MemberPropV::Computed { expr } => spec_symrefs(*expr, bt, src, file, hops, acc2),
                _ => acc2,
            }
        },
        ExprV::Call { callee, args, .. } => {
            let acc1 = match callee {
                CalleeV::Expr { expr } => spec_symrefs(*expr, bt, src, file, hops, acc),
                CalleeV::NotExpr => acc,
            };
            spec_symref_args(args, 0, bt, src, file, hops, acc1)
        },
        _ => acc,
    }
}

/// Resolve each non-spread argument, in order.
pub open spec fn spec_symref_args(
    args: Seq<ArgV>,
    i: int,
    bt: Map<ScopedIdV, BindingV>,
    src: Option<SourceInfoV>,
    file: Seq<char>,
    hops: nat,
    acc: Seq<SymbolRefV>,
) -> Seq<SymbolRefV>
    decreases hops, args, 0int, args.len() - i,
{
    if 0 <= i < args.len() {
        let acc1 = if args[i].spread {
            acc
        } else {
            spec_symrefs(args[i].expr, bt, src, file, hops, acc)
        };
        spec_symref_args(args, i + 1, bt, src, file, hops, acc1)
    } else {
        acc
    }
}

/// Collect the symbol references of one expression onto `out`, exactly as
/// [`spec_symrefs`] states, with one initializer hop.
pub fn collect_symbol_refs(
    e: &Expr,
    bt: &BindingTable,
    src: &Option<SourceInfo>,
    file: &Vec<char>,
    hops: u32,
    out: &mut Vec<SymbolRef>,
)
    ensures
        view_symrefs(final(out)@) == spec_symrefs(
            view_expr(*e),
            bt@,
            view_source_opt(*src),
            file@,
            hops as nat,
            view_symrefs(old(out)@),
        ),
    decreases hops as nat, expr_size(*e), 1int,
{
    proof {
        reveal_with_fuel(view_expr, 2);
        reveal_with_fuel(expr_size, 2);
    }
    let ghost btv = bt@;
    let ghost srcv = view_source_opt(*src);
    let ghost acc0 = view_symrefs(out@);
    match e {
        Expr::Ident { id, span } => {
            let tag = span_file_lines(src, *span);
            out.push(
                SymbolRef {
                    file: clone_text(file),
                    local: clone_text(&id.name),
                    path: Vec::new(),
                    span: tag,
                },
            );
            proof {
                assert(view_symrefs(out@) =~= acc0.push(
                    SymbolRefV {
                        file: file@,
                        local: id.name@,
                        path: Seq::empty(),
                        span: spec_span_tag(*span, srcv),
                    },
                ));
            }
            if hops > 0 {
                match bt.lookup(id) {
                    Some(b) => {
                        proof {
                            assert(view_binding(*b) == btv[view_id(*id)]);
                        }
                        match &b.init {
                            Some(init) => {
                                collect_symbol_refs(init, bt, src, file, hops - 1, out);
                            },
                            None => {},
                        }
                    },
                    None => {},
                }
            }
        },
        Expr::Member { obj, prop, span } => {
            match static_member_path(e) {
                Some((root, path)) => {
                    let tag = span_file_lines(src, *span);
                    out.push(
                        SymbolRef { file: clone_text(file), local: root, path, span: tag },
                    );
                    proof {
                        let p = spec_member_path(view_expr(*e))->0;
                        assert(view_symrefs(out@) =~= acc0.push(
                            SymbolRefV {
                                file: file@,
                                local: p.0,
                                path: p.1,
                                span: spec_span_tag(*span, srcv),
                            },
                        ));
                    }
                },
                None => {},
            }
            collect_symbol_refs(obj, bt, src, file, hops, out);
            match prop {
                MemberProp::Computed { expr } => {
                    collect_symbol_refs(expr, bt, src, file, hops, out);
                },
                _ => {},
            }
        },
        Expr::Call { callee, args, .. } => {
            match callee {
                Callee::Expr { expr } => {
                    collect_symbol_refs(expr, bt, src, file, hops, out);
                },
                Callee::NotExpr => {},
            }
            let ghost argsv = view_arg_list(args@, 0);
            let ghost acc1 = view_symrefs(out@);
            proof {
                lemma_view_arg_list(args@, 0);
                assert forall|j: int| 0 <= j < args@.len() implies #[trigger] argsv[j] == (ArgV {
                    spread: args@[j].spread,
                    expr: view_expr(args@[j].expr),
                }) by {
                    assert(view_arg_list(args@, 0)[j - 0] == (ArgV {
                        spread: args@[j].spread,
                        expr: view_expr(args@[j].expr),
                    }));
                }
            }
            proof {
                reveal_with_fuel(expr_size, 2);
                assert(arg_list_size(args@, 0) < expr_size(*e));
            }
            let mut i: usize = 0;
            while i < args.len()
                invariant
                    i <= args@.len(),
                    argsv == view_arg_list(args@, 0),
                    argsv.len() == args@.len(),
                    arg_list_size(args@, 0) < expr_size(*e),
                    forall|j: int|
                        0 <= j < args@.len() ==> #[trigger] argsv[j] == (ArgV {
                            spread: args@[j].spread,
                            expr: view_expr(args@[j].expr),
                        }),
                    btv == bt@,
                    srcv == view_source_opt(*src),
                    spec_symref_args(argsv, 0, btv, srcv, file@, hops as nat, acc1)
                        == spec_symref_args(
                        argsv,
                        i as int,
                        btv,
                        srcv,
                        file@,
                        hops as nat,
                        view_symrefs(out@),
                    ),
                decreases args@.len() - i,
            {
                let ghost acc_pre = view_symrefs(out@);
                let a = &args[i];
                if !a.spread {
                    proof {
                        reveal_with_fuel(expr_size, 2);
                        lemma_arg_list_size(args@, 0);
                        assert(expr_size(args@[i as int].expr) <= arg_list_size(args@, 0));
                        assert(arg_list_size(args@, 0) < expr_size(*e));
                    }
                    collect_symbol_refs(&a.expr, bt, src, file, hops, out);
                }
                proof {
                    assert(spec_symref_args(argsv, i as int, btv, srcv, file@, hops as nat, acc_pre)
                        == spec_symref_args(
                        argsv,
                        i + 1 as int,
                        btv,
                        srcv,
                        file@,
                        hops as nat,
                        view_symrefs(out@),
                    ));
                }
                i = i + 1;
            }
        },
        _ => {},
    }
}

} // verus!
