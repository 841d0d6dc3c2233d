//! The scope-aware binding table, built by one pre-pass over a file's
//! declarations before any element is instrumented.

use vstd::prelude::*;
use crate::ByteSpan;
use crate::ast::{Binding, BindingV, DeclItem, ImportInfo, ImportInfoV, ScopedId, ScopedIdV,
    view_binding, view_expr, view_id};
use crate::text::text_eq;

verus! {

/// The table from scoped identifier to binding. Later declarations with
/// the same scoped identifier overwrite earlier ones; scope tokens already
/// disambiguate true shadowing.
pub struct BindingTable {
    entries: Vec<(ScopedId, Binding)>,
}

/// The map an entry list denotes: each entry inserted in order, so the
/// last write wins.
pub open spec fn entries_map(entries: Seq<(ScopedId, Binding)>) -> Map<ScopedIdV, BindingV>
    decreases entries.len(),
{
    if entries.len() == 0 {
        Map::empty()
    } else {
        entries_map(entries.drop_last()).insert(
            view_id(entries.last().0),
            view_binding(entries.last().1),
        )
    }
}

impl View for BindingTable {
    type V = Map<ScopedIdV, BindingV>;

    closed spec fn view(&self) -> Map<ScopedIdV, BindingV> {
        entries_map(self.entries@)
    }
}

impl BindingTable {
    /// An empty table.
    pub fn new() -> (r: BindingTable)
        ensures
            r@ == Map::<ScopedIdV, BindingV>::empty(),
    {
        BindingTable { entries: Vec::new() }
    }

    /// Record a binding; a binding already present under the same scoped
    /// identifier is overwritten.
    pub fn insert(&mut self, id: ScopedId, b: Binding)
        ensures
            final(self)@ == old(self)@.insert(view_id(id), view_binding(b)),
    {
        let ghost pre = self.entries@;
        self.entries.push((id, b));
        proof {
            assert(self.entries@.drop_last() =~= pre);
        }
    }

    /// Look a scoped identifier up; the textual name alone never decides.
    pub fn lookup(&self, id: &ScopedId) -> (r: Option<&Binding>)
        ensures
            (match r {
                Some(b) => self@.contains_key(view_id(*id)) && view_binding(*b) == self@[view_id(
                    *id,
                )],
                None => !self@.contains_key(view_id(*id)),
            }),
    {
        let mut i: usize = self.entries.len();
        proof {
            assert(self.entries@.take(i as int) =~= self.entries@);
        }
        while i > 0
            invariant
                i <= self.entries@.len(),
                !entries_map(self.entries@.take(i as int)).contains_key(view_id(*id)) ==> !self@
                    .contains_key(view_id(*id)),
                entries_map(self.entries@.take(i as int)).contains_key(view_id(*id))
                    ==> self@.contains_key(view_id(*id)) && self@[view_id(*id)] == entries_map(
                    self.entries@.take(i as int),
                )[view_id(*id)],
            decreases i,
        {
            i = i - 1;
            let entry_id = &self.entries[i].0;
            proof {
                assert(self.entries@.take(i + 1 as int).drop_last() =~= self.entries@.take(
                    i as int,
                ));
                assert(self.entries@.take(i + 1 as int).last() == self.entries@[i as int]);
            }
            if text_eq(&entry_id.name, &id.name) && entry_id.scope == id.scope {
                proof {
                    assert(view_id(self.entries@[i as int].0) == view_id(*id));
                }
                return Some(&self.entries[i].1);
            }
            proof {
                assert(view_id(self.entries@[i as int].0) != view_id(*id)) by {
                    assert(self.entries@[i as int].0.name@ != id.name@ || self.entries@[
                        i as int].0.scope != id.scope);
                }
            }
        }
        proof {
            assert(self.entries@.take(0) =~= Seq::<(ScopedId, Binding)>::empty());
        }
        None
    }
}

/// The binding one declaration contributes.
pub open spec fn spec_binding_of(d: DeclItem) -> BindingV {
    match d {
        DeclItem::VarDecl { id, id_span, init } => BindingV {
            def_span: id_span,
            init: match init {
                Some(e) => Some(view_expr(e)),
                None => None,
            },
            import: None,
            fn_body_span: None,
        },
        DeclItem::FnDecl { id, ident_span, body_span } => BindingV {
            def_span: ident_span,
            init: None,
            import: None,
            fn_body_span: Some(body_span),
        },
        DeclItem::ImportNamed { local, local_span, source, imported } => BindingV {
            def_span: local_span,
            init: None,
            import: Some(
                ImportInfoV {
                    source: source@,
                    imported: match imported {
                        Some(name) => name@,
                        None => local.name@,
                    },
                },
            ),
            fn_body_span: None,
        },
        DeclItem::ImportDefault { local, local_span, source } => BindingV {
            def_span: local_span,
            init: None,
            import: Some(ImportInfoV { source: source@, imported: "default"@ }),
            fn_body_span: None,
        },
        DeclItem::ImportStar { local, local_span, source } => BindingV {
            def_span: local_span,
            init: None,
            import: Some(ImportInfoV { source: source@, imported: "*"@ }),
            fn_body_span: None,
        },
    }
}

/// The scoped identifier one declaration binds.
pub open spec fn spec_decl_key(d: DeclItem) -> ScopedIdV {
    match d {
        DeclItem::VarDecl { id, .. } => view_id(id),
        DeclItem::FnDecl { id, .. } => view_id(id),
        DeclItem::ImportNamed { local, .. } => view_id(local),
        DeclItem::ImportDefault { local, .. } => view_id(local),
        DeclItem::ImportStar { local, .. } => view_id(local),
    }
}

/// The table the whole declaration list builds, in visit order.
pub open spec fn spec_collect(decls: Seq<DeclItem>) -> Map<ScopedIdV, BindingV>
    decreases decls.len(),
{
    if decls.len() == 0 {
        Map::empty()
    } else {
        spec_collect(decls.drop_last()).insert(
            spec_decl_key(decls.last()),
            spec_binding_of(decls.last()),
        )
    }
}

/// Build the binding table from a file's declarations: every declaration
/// is visited exactly once, in order, and a later declaration under the
/// same scoped identifier overwrites an earlier one.
pub fn collect_bindings(decls: Vec<DeclItem>) -> (r: BindingTable)
    ensures
        r@ == spec_collect(decls@),
{
    let ghost all = decls@;
    let total = decls.len();
    let mut decls = decls;
    let mut table = BindingTable::new();
    let mut i: usize = 0;
    proof {
        assert(all.take(0) =~= Seq::<DeclItem>::empty());
    }
    while decls.len() > 0
        invariant
            all.len() == total,
            i + decls@.len() == all.len(),
            decls@ == all.skip(i as int),
            table@ == spec_collect(all.take(i as int)),
        decreases decls@.len(),
    {
        let d = decls.remove(0);
        proof {
            assert(d == all[i as int]);
            assert(decls@ =~= all.skip(i + 1 as int));
            assert(all.take(i + 1 as int).drop_last() =~= all.take(i as int));
            assert(all.take(i + 1 as int).last() == all[i as int]);
        }
        match d {
            DeclItem::VarDecl { id, id_span, init } => {
                let b = Binding { def_span: id_span, init, import: None, fn_body_span: None };
                table.insert(id, b);
            },
            DeclItem::FnDecl { id, ident_span, body_span } => {
                let b = Binding {
                    def_span: ident_span,
                    init: None,
                    import: None,
                    fn_body_span: Some(body_span),
                };
                table.insert(id, b);
            },
            DeclItem::ImportNamed { local, local_span, source, imported } => {
                let imported_name = match imported {
                    Some(name) => name,
                    None => {
                        let mut copy: Vec<char> = Vec::new();
                        crate::text::push_all(&mut copy, &local.name);
                        copy
                    },
                };
                let b = Binding {
                    def_span: local_span,
                    init: None,
                    import: Some(ImportInfo { source, imported: imported_name }),
                    fn_body_span: None,
                };
                table.insert(local, b);
            },
            DeclItem::ImportDefault { local, local_span, source } => {
                let b = Binding {
                    def_span: local_span,
                    init: None,
                    import: Some(ImportInfo { source, imported: crate::text::text_of("default") }),
                    fn_body_span: None,
                };
                table.insert(local, b);
            },
            DeclItem::ImportStar { local, local_span, source } => {
                let b = Binding {
                    def_span: local_span,
                    init: None,
                    import: Some(ImportInfo { source, imported: crate::text::text_of("*") }),
                    fn_body_span: None,
                };
                table.insert(local, b);
            },
        }
        i = i + 1;
    }
    proof {
        assert(all.take(all.len() as int) =~= all);
    }
    table
}

/// Shadowing: when an inner declaration binds the same name under another
/// scope token, looking the inner identifier up yields the inner binding,
/// and the outer identifier still yields the outer one.
pub proof fn lemma_shadowing(
    decls: Seq<DeclItem>,
    i: int,
    j: int,
    name: Seq<char>,
    outer: u32,
    inner: u32,
)
    requires
        0 <= i < j < decls.len(),
        spec_decl_key(decls[i]) == (name, outer),
        spec_decl_key(decls[j]) == (name, inner),
        outer != inner,
        forall|k: int| j < k < decls.len() ==> #[trigger] spec_decl_key(decls[k]) != (name, inner),
        forall|k: int| i < k < decls.len() ==> #[trigger] spec_decl_key(decls[k]) != (name, outer),
    ensures
        spec_collect(decls).contains_key((name, inner)),
        spec_collect(decls)[(name, inner)] == spec_binding_of(decls[j]),
        spec_collect(decls).contains_key((name, outer)),
        spec_collect(decls)[(name, outer)] == spec_binding_of(decls[i]),
    decreases decls.len(),
{
    if decls.len() > 0 {
        let last = decls.len() - 1;
        if j == last {
            lemma_collect_key_after(decls.drop_last(), i, (name, outer));
        } else {
            lemma_shadowing(decls.drop_last(), i, j, name, outer, inner);
        }
    }
}

/// After the last write to a key, the table holds that write.
proof fn lemma_collect_key_after(decls: Seq<DeclItem>, i: int, key: ScopedIdV)
    requires
        0 <= i < decls.len(),
        spec_decl_key(decls[i]) == key,
        forall|k: int| i < k < decls.len() ==> #[trigger] spec_decl_key(decls[k]) != key,
    ensures
        spec_collect(decls).contains_key(key),
        spec_collect(decls)[key] == spec_binding_of(decls[i]),
    decreases decls.len(),
{
    if decls.len() > 0 {
        let last = decls.len() - 1;
        if i < last {
            lemma_collect_key_after(decls.drop_last(), i, key);
        }
    }
}

} // verus!
