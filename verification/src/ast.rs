//! The library's own model of the expression and view-tree syntax.
//!
//! Each executable type `T` has a mathematical value type `TV` over `Seq`
//! and plain values, reached by a `view_*` spec function; every contract in
//! the crate speaks about those values.

use vstd::prelude::*;
use crate::ByteSpan;

verus! {

/// A scoped identifier: two identifiers with the same textual name in
/// different lexical scopes are distinct keys, so every binding lookup
/// uses the composite key.
pub struct ScopedId {
    pub name: Vec<char>,
    pub scope: u32,
}

/// The mathematical value of a scoped identifier.
pub type ScopedIdV = (Seq<char>, u32);

pub open spec fn view_id(id: ScopedId) -> ScopedIdV {
    (id.name@, id.scope)
}

/// A property key in an object literal.
pub enum PropKey {
    Ident { name: Vec<char>, span: ByteSpan },
    Str { value: Vec<char>, span: ByteSpan },
    Num { lexeme: Vec<char>, span: ByteSpan },
    Computed { span: ByteSpan },
}

pub enum PropKeyV {
    Ident { name: Seq<char>, span: ByteSpan },
    Str { value: Seq<char>, span: ByteSpan },
    Num { lexeme: Seq<char>, span: ByteSpan },
    Computed { span: ByteSpan },
}

pub open spec fn view_prop_key(k: PropKey) -> PropKeyV {
    match k {
        PropKey::Ident { name, span } => PropKeyV::Ident { name: name@, span },
        PropKey::Str { value, span } => PropKeyV::Str { value: value@, span },
        PropKey::Num { lexeme, span } => PropKeyV::Num { lexeme: lexeme@, span },
        PropKey::Computed { span } => PropKeyV::Computed { span },
    }
}

/// The property part of a member access.
pub enum MemberProp {
    Ident { name: Vec<char> },
    Computed { expr: Box<Expr> },
    Private,
}

pub enum MemberPropV {
    Ident { name: Seq<char> },
    Computed { expr: Box<ExprV> },
    Private,
}

/// What a call applies: an expression, or a callee that is no expression
/// (such as a dynamic-import or a superclass call).
pub enum Callee {
    Expr { expr: Box<Expr> },
    NotExpr,
}

pub enum CalleeV {
    Expr { expr: Box<ExprV> },
    NotExpr,
}

/// One call argument, possibly spread.
pub struct Arg {
    pub spread: bool,
    pub expr: Expr,
}

pub struct ArgV {
    pub spread: bool,
    pub expr: ExprV,
}

/// One entry of an object literal.
pub enum PropEntry {
    KeyValue { key: PropKey, value: Expr },
    OtherProp,
}

pub enum PropEntryV {
    KeyValue { key: PropKeyV, value: ExprV },
    OtherProp,
}

/// One entry of an array literal; a hole is an elided element.
pub enum ArrayEntry {
    Elem { expr: Expr },
    Hole,
}

pub enum ArrayEntryV {
    Elem { expr: ExprV },
    Hole,
}

/// An expression, as much of it as provenance tracing reads. Numeric
/// literals carry their source lexeme, never a parsed number.
pub enum Expr {
    LitNum { lexeme: Vec<char>, span: ByteSpan },
    LitStr { value: Vec<char>, span: ByteSpan },
    LitOther { span: ByteSpan },
    Ident { id: ScopedId, span: ByteSpan },
    Member { obj: Box<Expr>, prop: MemberProp, span: ByteSpan },
    Call { callee: Callee, args: Vec<Arg>, span: ByteSpan },
    New { callee: Box<Expr>, args: Vec<Arg>, span: ByteSpan },
    Tpl { exprs: Vec<Expr>, span: ByteSpan },
    Bin { op: Vec<char>, left: Box<Expr>, right: Box<Expr>, span: ByteSpan },
    Cond { test: Box<Expr>, cons: Box<Expr>, alt: Box<Expr>, span: ByteSpan },
    Unary { op: Vec<char>, arg: Box<Expr>, span: ByteSpan },
    Update { arg: Box<Expr>, span: ByteSpan },
    Object { props: Vec<PropEntry>, span: ByteSpan },
    Array { elems: Vec<ArrayEntry>, span: ByteSpan },
    Other { span: ByteSpan },
}

pub enum ExprV {
    LitNum { lexeme: Seq<char>, span: ByteSpan },
    LitStr { value: Seq<char>, span: ByteSpan },
    LitOther { span: ByteSpan },
    Ident { id: ScopedIdV, span: ByteSpan },
    Member { obj: Box<ExprV>, prop: MemberPropV, span: ByteSpan },
    Call { callee: CalleeV, args: Seq<ArgV>, span: ByteSpan },
    New { callee: Box<ExprV>, args: Seq<ArgV>, span: ByteSpan },
    Tpl { exprs: Seq<ExprV>, span: ByteSpan },
    Bin { op: Seq<char>, left: Box<ExprV>, right: Box<ExprV>, span: ByteSpan },
    Cond { test: Box<ExprV>, cons: Box<ExprV>, alt: Box<ExprV>, span: ByteSpan },
    Unary { op: Seq<char>, arg: Box<ExprV>, span: ByteSpan },
    Update { arg: Box<ExprV>, span: ByteSpan },
    Object { props: Seq<PropEntryV>, span: ByteSpan },
    Array { elems: Seq<ArrayEntryV>, span: ByteSpan },
    Other { span: ByteSpan },
}

/// The mathematical value of an expression.
pub open spec fn view_expr(e: Expr) -> ExprV
    decreases e, 1int, 0int,
{
    match e {
        Expr::LitNum { lexeme, span } => ExprV::LitNum { lexeme: lexeme@, span },
        Expr::LitStr { value, span } => ExprV::LitStr { value: value@, span },
        Expr::LitOther { span } => ExprV::LitOther { span },
        Expr::Ident { id, span } => ExprV::Ident { id: view_id(id), span },
        Expr::Member { obj, prop, span } => ExprV::Member {
            obj: Box::new(view_expr(*obj)),
            prop: match prop {
                MemberProp::Ident { name } => MemberPropV::Ident { name: name@ },
                MemberProp::Computed { expr } => MemberPropV::Computed {
                    expr: Box::new(view_expr(*expr)),
                },
                MemberProp::Private => MemberPropV::Private,
            },
            span,
        },
        Expr::Call { callee, args, span } => ExprV::Call {
            callee: match callee {
                Callee::Expr { expr } => CalleeV::Expr { expr: Box::new(view_expr(*expr)) },
                Callee::NotExpr => CalleeV::NotExpr,
            },
            args: view_arg_list(args@, 0),
            span,
        },
        Expr::New { callee, args, span } => ExprV::New {
            callee: Box::new(view_expr(*callee)),
            args: view_arg_list(args@, 0),
            span,
        },
        Expr::Tpl { exprs, span } => ExprV::Tpl { exprs: view_expr_list(exprs@, 0), span },
        Expr::Bin { op, left, right, span } => ExprV::Bin {
            op: op@,
            left: Box::new(view_expr(*left)),
            right: Box::new(view_expr(*right)),
            span,
        },
        Expr::Cond { test, cons, alt, span } => ExprV::Cond {
            test: Box::new(view_expr(*test)),
            cons: Box::new(view_expr(*cons)),
            alt: Box::new(view_expr(*alt)),
            span,
        },
        Expr::Unary { op, arg, span } => ExprV::Unary {
            op: op@,
            arg: Box::new(view_expr(*arg)),
            span,
        },
        Expr::Update { arg, span } => ExprV::Update { arg: Box::new(view_expr(*arg)), span },
        Expr::Object { props, span } => ExprV::Object { props: view_prop_list(props@, 0), span },
        Expr::Array { elems, span } => ExprV::Array { elems: view_elem_list(elems@, 0), span },
        Expr::Other { span } => ExprV::Other { span },
    }
}

/// The mathematical values of the expressions of `v` from position `i` on.
pub open spec fn view_expr_list(v: Seq<Expr>, i: int) -> Seq<ExprV>
    decreases v, 0int, v.len() - i,
{
    if 0 <= i < v.len() {
        seq![view_expr(v[i])] + view_expr_list(v, i + 1)
    } else {
        seq![]
    }
}

/// The mathematical values of the arguments of `v` from position `i` on.
pub open spec fn view_arg_list(v: Seq<Arg>, i: int) -> Seq<ArgV>
    decreases v, 0int, v.len() - i,
{
    if 0 <= i < v.len() {
        seq![ArgV { spread: v[i].spread, expr: view_expr(v[i].expr) }] + view_arg_list(v, i + 1)
    } else {
        seq![]
    }
}

/// The mathematical values of the object entries of `v` from position `i` on.
pub open spec fn view_prop_list(v: Seq<PropEntry>, i: int) -> Seq<PropEntryV>
    decreases v, 0int, v.len() - i,
{
    if 0 <= i < v.len() {
        seq![
            match v[i] {
                PropEntry::KeyValue { key, value } => PropEntryV::KeyValue {
                    key: view_prop_key(key),
                    value: view_expr(value),
                },
                PropEntry::OtherProp => PropEntryV::OtherProp,
            },
        ] + view_prop_list(v, i + 1)
    } else {
        seq![]
    }
}

/// The mathematical values of the array entries of `v` from position `i` on.
pub open spec fn view_elem_list(v: Seq<ArrayEntry>, i: int) -> Seq<ArrayEntryV>
    decreases v, 0int, v.len() - i,
{
    if 0 <= i < v.len() {
        seq![
            match v[i] {
                ArrayEntry::Elem { expr } => ArrayEntryV::Elem { expr: view_expr(expr) },
                ArrayEntry::Hole => ArrayEntryV::Hole,
            },
        ] + view_elem_list(v, i + 1)
    } else {
        seq![]
    }
}

// ---------------------------------------------------------------------------
// The view tree
// ---------------------------------------------------------------------------

/// An element's tag: a plain identifier, a member chain reduced to its root
/// identifier, or a namespaced name.
pub enum JsxName {
    Ident { name: Vec<char> },
    Member { root: Vec<char> },
    Namespaced,
}

pub enum JsxNameV {
    Ident { name: Seq<char> },
    Member { root: Seq<char> },
    Namespaced,
}

pub open spec fn view_jsx_name(n: JsxName) -> JsxNameV {
    match n {
        JsxName::Ident { name } => JsxNameV::Ident { name: name@ },
        JsxName::Member { root } => JsxNameV::Member { root: root@ },
        JsxName::Namespaced => JsxNameV::Namespaced,
    }
}

/// The value of an attribute.
pub enum AttrValue {
    Str { value: Vec<char> },
    Expr { expr: Expr },
    NoValue,
    OtherVal,
}

pub enum AttrValueV {
    Str { value: Seq<char> },
    Expr { expr: ExprV },
    NoValue,
    OtherVal,
}

/// One attribute of an element's opening tag, or a spread of an object.
pub enum Attr {
    Named { name: Vec<char>, value: AttrValue },
    Spread { expr: Expr },
}

pub enum AttrV {
    Named { name: Seq<char>, value: AttrValueV },
    Spread { expr: ExprV },
}

pub open spec fn view_attr(a: Attr) -> AttrV {
    match a {
        Attr::Named { name, value } => AttrV::Named {
            name: name@,
            value: match value {
                AttrValue::Str { value } => AttrValueV::Str { value: value@ },
                AttrValue::Expr { expr } => AttrValueV::Expr { expr: view_expr(expr) },
                AttrValue::NoValue => AttrValueV::NoValue,
                AttrValue::OtherVal => AttrValueV::OtherVal,
            },
        },
        Attr::Spread { expr } => AttrV::Spread { expr: view_expr(expr) },
    }
}

pub open spec fn view_attr_list(v: Seq<Attr>, i: int) -> Seq<AttrV>
    decreases v.len() - i,
{
    if 0 <= i < v.len() {
        seq![view_attr(v[i])] + view_attr_list(v, i + 1)
    } else {
        seq![]
    }
}

/// One child of an element.
pub enum Child {
    Element { el: Box<Element> },
    ExprChild { expr: Expr },
    Text { text: Vec<char>, span: ByteSpan },
    OtherChild,
}

pub enum ChildV {
    Element { el: Box<ElementV> },
    ExprChild { expr: ExprV },
    Text { text: Seq<char>, span: ByteSpan },
    OtherChild,
}

/// One element of the view tree.
pub struct Element {
    pub name: JsxName,
    pub attrs: Vec<Attr>,
    pub children: Vec<Child>,
    pub open_span: ByteSpan,
    pub span: ByteSpan,
}

pub struct ElementV {
    pub name: JsxNameV,
    pub attrs: Seq<AttrV>,
    pub children: Seq<ChildV>,
    pub open_span: ByteSpan,
    pub span: ByteSpan,
}

/// The mathematical value of an element.
pub open spec fn view_element(e: Element) -> ElementV
    decreases e, 1int, 0int,
{
    ElementV {
        name: view_jsx_name(e.name),
        attrs: view_attr_list(e.attrs@, 0),
        children: view_child_list(e.children@, 0),
        open_span: e.open_span,
        span: e.span,
    }
}

/// The mathematical value of one child.
pub open spec fn view_child(c: Child) -> ChildV
    decreases c, 1int, 0int,
{
    match c {
        Child::Element { el } => ChildV::Element { el: Box::new(view_element(*el)) },
        Child::ExprChild { expr } => ChildV::ExprChild { expr: view_expr(expr) },
        Child::Text { text, span } => ChildV::Text { text: text@, span },
        Child::OtherChild => ChildV::OtherChild,
    }
}

/// The mathematical values of the children of `v` from position `i` on.
pub open spec fn view_child_list(v: Seq<Child>, i: int) -> Seq<ChildV>
    decreases v, 0int, v.len() - i,
{
    if 0 <= i < v.len() {
        seq![view_child(v[i])] + view_child_list(v, i + 1)
    } else {
        seq![]
    }
}

// ---------------------------------------------------------------------------
// Declarations seen by the binding pre-pass
// ---------------------------------------------------------------------------

/// Where an imported name comes from.
pub struct ImportInfo {
    pub source: Vec<char>,
    pub imported: Vec<char>,
}

pub struct ImportInfoV {
    pub source: Seq<char>,
    pub imported: Seq<char>,
}

pub open spec fn view_import(im: ImportInfo) -> ImportInfoV {
    ImportInfoV { source: im.source@, imported: im.imported@ }
}

/// A resolved definition: the definition site and, when available, the
/// initializer, import origin, or function body span of a scoped
/// identifier. Value copies, never live references into the tree.
pub struct Binding {
    pub def_span: ByteSpan,
    pub init: Option<Expr>,
    pub import: Option<ImportInfo>,
    pub fn_body_span: Option<ByteSpan>,
}

pub struct BindingV {
    pub def_span: ByteSpan,
    pub init: Option<ExprV>,
    pub import: Option<ImportInfoV>,
    pub fn_body_span: Option<ByteSpan>,
}

pub open spec fn view_binding(b: Binding) -> BindingV {
    BindingV {
        def_span: b.def_span,
        init: match b.init {
            Some(e) => Some(view_expr(e)),
            None => None,
        },
        import: match b.import {
            Some(im) => Some(view_import(im)),
            None => None,
        },
        fn_body_span: b.fn_body_span,
    }
}

/// One declaration the binding pre-pass visits, in visit order.
pub enum DeclItem {
    /// A variable declarator with a plain identifier pattern.
    VarDecl { id: ScopedId, id_span: ByteSpan, init: Option<Expr> },
    /// A function declaration; `body_span` covers the whole function.
    FnDecl { id: ScopedId, ident_span: ByteSpan, body_span: ByteSpan },
    /// A named import specifier; `imported` is the name in the source
    /// module when the local name is an alias.
    ImportNamed { local: ScopedId, local_span: ByteSpan, source: Vec<char>, imported: Option<Vec<char>> },
    /// A default import specifier.
    ImportDefault { local: ScopedId, local_span: ByteSpan, source: Vec<char> },
    /// A namespace (star) import specifier.
    ImportStar { local: ScopedId, local_span: ByteSpan, source: Vec<char> },
}

/// One file's worth of input to the transform: the declarations in visit
/// order, and the top-level elements of its view tree.
pub struct Module {
    pub decls: Vec<DeclItem>,
    pub roots: Vec<Element>,
}

pub open spec fn view_root_list(v: Seq<Element>, i: int) -> Seq<ElementV>
    decreases v, 0int, v.len() - i,
{
    if 0 <= i < v.len() {
        seq![view_element(v[i])] + view_root_list(v, i + 1)
    } else {
        seq![]
    }
}

// ---------------------------------------------------------------------------
// Basic facts about the list views
// ---------------------------------------------------------------------------


/// A structural size measure for expressions, used by walks whose
/// recursion is not depth-bounded.
pub open spec fn expr_size(e: Expr) -> nat
    decreases e, 1int, 0int,
{
    match e {
        Expr::LitNum { .. } => 1,
        Expr::LitStr { .. } => 1,
        Expr::LitOther { .. } => 1,
        Expr::Ident { .. } => 1,
        Expr::Member { obj, prop, .. } => 1 + expr_size(*obj) + match prop {
            MemberProp::Computed { expr } => expr_size(*expr),
            _ => 0,
        },
        Expr::Call { callee, args, .. } => 1 + (match callee {
            Callee::Expr { expr } => expr_size(*expr),
            Callee::NotExpr => 0,
        }) + arg_list_size(args@, 0),
        Expr::New { callee, args, .. } => 1 + expr_size(*callee) + arg_list_size(args@, 0),
        Expr::Tpl { exprs, .. } => 1 + expr_list_size(exprs@, 0),
        Expr::Bin { left, right, .. } => 1 + expr_size(*left) + expr_size(*right),
        Expr::Cond { test, cons, alt, .. } => 1 + expr_size(*test) + expr_size(*cons) + expr_size(
            *alt,
        ),
        Expr::Unary { arg, .. } => 1 + expr_size(*arg),
        Expr::Update { arg, .. } => 1 + expr_size(*arg),
        Expr::Object { props, .. } => 1 + prop_list_size(props@, 0),
        Expr::Array { elems, .. } => 1 + elem_list_size(elems@, 0),
        Expr::Other { .. } => 1,
    }
}

/// The joint size of the arguments of `v` from position `i` on.
pub open spec fn arg_list_size(v: Seq<Arg>, i: int) -> nat
    decreases v, 0int, v.len() - i,
{
    if 0 <= i < v.len() {
        expr_size(v[i].expr) + arg_list_size(v, i + 1)
    } else {
        0
    }
}

/// The joint size of the expressions of `v` from position `i` on.
pub open spec fn expr_list_size(v: Seq<Expr>, i: int) -> nat
    decreases v, 0int, v.len() - i,
{
    if 0 <= i < v.len() {
        expr_size(v[i]) + expr_list_size(v, i + 1)
    } else {
        0
    }
}

/// The joint size of the object entries of `v` from position `i` on.
pub open spec fn prop_list_size(v: Seq<PropEntry>, i: int) -> nat
    decreases v, 0int, v.len() - i,
{
    if 0 <= i < v.len() {
        (match v[i] {
            PropEntry::KeyValue { value, .. } => expr_size(value),
            PropEntry::OtherProp => 0,
        }) + prop_list_size(v, i + 1)
    } else {
        0
    }
}

/// The joint size of the array entries of `v` from position `i` on.
pub open spec fn elem_list_size(v: Seq<ArrayEntry>, i: int) -> nat
    decreases v, 0int, v.len() - i,
{
    if 0 <= i < v.len() {
        (match v[i] {
            ArrayEntry::Elem { expr } => expr_size(expr),
            ArrayEntry::Hole => 0,
        }) + elem_list_size(v, i + 1)
    } else {
        0
    }
}

/// Each argument's expression is no larger than the whole argument list.
pub proof fn lemma_arg_list_size(v: Seq<Arg>, i: int)
    requires
        0 <= i <= v.len(),
    ensures
        forall|j: int| i <= j < v.len() ==> #[trigger] expr_size(v[j].expr) <= arg_list_size(v, i),
    decreases v.len() - i,
{
    if i < v.len() {
        lemma_arg_list_size(v, i + 1);
    }
}


/// A structural size measure for elements, used by the tree passes.
pub open spec fn element_size(e: Element) -> nat
    decreases e, 1int, 0int,
{
    1 + child_list_size(e.children@, 0)
}

/// The joint size of the element children of `v` from position `i` on.
pub open spec fn child_list_size(v: Seq<Child>, i: int) -> nat
    decreases v, 0int, v.len() - i,
{
    if 0 <= i < v.len() {
        (match v[i] {
            Child::Element { el } => element_size(*el),
            _ => 0,
        }) + child_list_size(v, i + 1)
    } else {
        0
    }
}

/// Each element child is smaller than the whole child list.
pub proof fn lemma_child_list_size(v: Seq<Child>, i: int)
    requires
        0 <= i <= v.len(),
    ensures
        forall|j: int|
            i <= j < v.len() && v[j] is Element ==> #[trigger] element_size(*v[j]->Element_el)
                <= child_list_size(v, i),
    decreases v.len() - i,
{
    if i < v.len() {
        lemma_child_list_size(v, i + 1);
    }
}

/// The child views line up index by index.
pub proof fn lemma_view_child_list(v: Seq<Child>, i: int)
    requires
        0 <= i <= v.len(),
    ensures
        view_child_list(v, i).len() == v.len() - i,
        forall|j: int|
            i <= j < v.len() ==> #[trigger] view_child_list(v, i)[j - i] == view_child(v[j]),
    decreases v.len() - i,
{
    if i < v.len() {
        lemma_view_child_list(v, i + 1);
        assert forall|j: int|
            i <= j < v.len() implies #[trigger] view_child_list(v, i)[j - i] == view_child(
            v[j],
        ) by {
            if j == i {
                assert(view_child_list(v, i)[0] == view_child(v[i]));
            } else {
                assert(view_child_list(v, i)[j - i] == view_child_list(v, i + 1)[j - (i + 1)]);
            }
        }
    }
}

/// The expression views line up index by index.
pub proof fn lemma_view_expr_list(v: Seq<Expr>, i: int)
    requires
        0 <= i <= v.len(),
    ensures
        view_expr_list(v, i).len() == v.len() - i,
        forall|j: int|
            i <= j < v.len() ==> #[trigger] view_expr_list(v, i)[j - i] == view_expr(v[j]),
    decreases v.len() - i,
{
    if i < v.len() {
        lemma_view_expr_list(v, i + 1);
        assert forall|j: int|
            i <= j < v.len() implies #[trigger] view_expr_list(v, i)[j - i] == view_expr(v[j]) by {
            if j == i {
                assert(view_expr_list(v, i)[0] == view_expr(v[i]));
            } else {
                assert(view_expr_list(v, i)[j - i] == view_expr_list(v, i + 1)[j - (i + 1)]);
            }
        }
    }
}

/// The argument views line up index by index.
pub proof fn lemma_view_arg_list(v: Seq<Arg>, i: int)
    requires
        0 <= i <= v.len(),
    ensures
        view_arg_list(v, i).len() == v.len() - i,
        forall|j: int|
            i <= j < v.len() ==> #[trigger] view_arg_list(v, i)[j - i] == (ArgV {
                spread: v[j].spread,
                expr: view_expr(v[j].expr),
            }),
    decreases v.len() - i,
{
    if i < v.len() {
        lemma_view_arg_list(v, i + 1);
        assert forall|j: int|
            i <= j < v.len() implies #[trigger] view_arg_list(v, i)[j - i] == (ArgV {
            spread: v[j].spread,
            expr: view_expr(v[j].expr),
        }) by {
            if j == i {
                assert(view_arg_list(v, i)[0] == (ArgV {
                    spread: v[i].spread,
                    expr: view_expr(v[i].expr),
                }));
            } else {
                assert(view_arg_list(v, i)[j - i] == view_arg_list(v, i + 1)[j - (i + 1)]);
            }
        }
    }
}

/// The value of one object entry.
pub open spec fn view_prop_entry(p: PropEntry) -> PropEntryV {
    match p {
        PropEntry::KeyValue { key, value } => PropEntryV::KeyValue {
            key: view_prop_key(key),
            value: view_expr(value),
        },
        PropEntry::OtherProp => PropEntryV::OtherProp,
    }
}

/// The object-entry views line up index by index.
pub proof fn lemma_view_prop_list(v: Seq<PropEntry>, i: int)
    requires
        0 <= i <= v.len(),
    ensures
        view_prop_list(v, i).len() == v.len() - i,
        forall|j: int|
            i <= j < v.len() ==> #[trigger] view_prop_list(v, i)[j - i] == view_prop_entry(v[j]),
    decreases v.len() - i,
{
    if i < v.len() {
        lemma_view_prop_list(v, i + 1);
        assert forall|j: int|
            i <= j < v.len() implies #[trigger] view_prop_list(v, i)[j - i] == view_prop_entry(
            v[j],
        ) by {
            if j == i {
                assert(view_prop_list(v, i)[0] == view_prop_entry(v[i]));
            } else {
                assert(view_prop_list(v, i)[j - i] == view_prop_list(v, i + 1)[j - (i + 1)]);
            }
        }
    }
}

/// The value of one array entry.
pub open spec fn view_array_entry(a: ArrayEntry) -> ArrayEntryV {
    match a {
        ArrayEntry::Elem { expr } => ArrayEntryV::Elem { expr: view_expr(expr) },
        ArrayEntry::Hole => ArrayEntryV::Hole,
    }
}

/// The array-entry views line up index by index.
pub proof fn lemma_view_elem_list(v: Seq<ArrayEntry>, i: int)
    requires
        0 <= i <= v.len(),
    ensures
        view_elem_list(v, i).len() == v.len() - i,
        forall|j: int|
            i <= j < v.len() ==> #[trigger] view_elem_list(v, i)[j - i] == view_array_entry(v[j]),
    decreases v.len() - i,
{
    if i < v.len() {
        lemma_view_elem_list(v, i + 1);
        assert forall|j: int|
            i <= j < v.len() implies #[trigger] view_elem_list(v, i)[j - i] == view_array_entry(
            v[j],
        ) by {
            if j == i {
                assert(view_elem_list(v, i)[0] == view_array_entry(v[i]));
            } else {
                assert(view_elem_list(v, i)[j - i] == view_elem_list(v, i + 1)[j - (i + 1)]);
            }
        }
    }
}

/// The root-element views line up index by index.
pub proof fn lemma_view_root_list(v: Seq<Element>, i: int)
    requires
        0 <= i <= v.len(),
    ensures
        view_root_list(v, i).len() == v.len() - i,
        forall|j: int|
            i <= j < v.len() ==> #[trigger] view_root_list(v, i)[j - i] == view_element(v[j]),
    decreases v.len() - i,
{
    if i < v.len() {
        lemma_view_root_list(v, i + 1);
        assert forall|j: int|
            i <= j < v.len() implies #[trigger] view_root_list(v, i)[j - i] == view_element(
            v[j],
        ) by {
            if j == i {
                assert(view_root_list(v, i)[0] == view_element(v[i]));
            } else {
                assert(view_root_list(v, i)[j - i] == view_root_list(v, i + 1)[j - (i + 1)]);
            }
        }
    }
}

/// The attribute views line up index by index.
pub proof fn lemma_view_attr_list(v: Seq<Attr>, i: int)
    requires
        0 <= i <= v.len(),
    ensures
        view_attr_list(v, i).len() == v.len() - i,
        forall|j: int| i <= j < v.len() ==> #[trigger] view_attr_list(v, i)[j - i] == view_attr(v[j]),
    decreases v.len() - i,
{
    if i < v.len() {
        lemma_view_attr_list(v, i + 1);
        assert forall|j: int|
            i <= j < v.len() implies #[trigger] view_attr_list(v, i)[j - i] == view_attr(v[j]) by {
            if j == i {
                assert(view_attr_list(v, i)[0] == view_attr(v[i]));
            } else {
                assert(view_attr_list(v, i)[j - i] == view_attr_list(v, i + 1)[j - (i + 1)]);
            }
        }
    }
}


/// The attribute views from the start, index by index.
pub proof fn lemma_view_attr_list0(v: Seq<Attr>)
    ensures
        view_attr_list(v, 0).len() == v.len(),
        forall|j: int| 0 <= j < v.len() ==> #[trigger] view_attr_list(v, 0)[j] == view_attr(v[j]),
{
    lemma_view_attr_list(v, 0);
    assert forall|j: int|
        0 <= j < v.len() implies #[trigger] view_attr_list(v, 0)[j] == view_attr(v[j]) by {
        assert(view_attr_list(v, 0)[j - 0] == view_attr(v[j]));
    }
}

/// Appending an attribute appends its view.
pub proof fn lemma_view_attr_push(v: Seq<Attr>, x: Attr)
    ensures
        view_attr_list(v.push(x), 0) == view_attr_list(v, 0).push(view_attr(x)),
{
    lemma_view_attr_list0(v.push(x));
    lemma_view_attr_list0(v);
    assert(v.push(x).len() == v.len() + 1);
    assert forall|j: int|
        0 <= j < v.len() implies view_attr_list(v.push(x), 0)[j] == view_attr_list(v, 0).push(
        view_attr(x),
    )[j] by {
        assert(v.push(x)[j] == v[j]);
    }
    assert(view_attr_list(v.push(x), 0)[v.len() as int] == view_attr(x));
    assert(view_attr_list(v.push(x), 0) =~= view_attr_list(v, 0).push(view_attr(x)));
}

/// The child views from the start, index by index.
pub proof fn lemma_view_child_list0(v: Seq<Child>)
    ensures
        view_child_list(v, 0).len() == v.len(),
        forall|j: int| 0 <= j < v.len() ==> #[trigger] view_child_list(v, 0)[j] == view_child(v[j]),
{
    lemma_view_child_list(v, 0);
    assert forall|j: int|
        0 <= j < v.len() implies #[trigger] view_child_list(v, 0)[j] == view_child(v[j]) by {
        assert(view_child_list(v, 0)[j - 0] == view_child(v[j]));
    }
}

/// Appending a child appends its view.
pub proof fn lemma_view_child_push(v: Seq<Child>, x: Child)
    ensures
        view_child_list(v.push(x), 0) == view_child_list(v, 0).push(view_child(x)),
{
    lemma_view_child_list0(v.push(x));
    lemma_view_child_list0(v);
    assert forall|j: int|
        0 <= j < v.len() implies view_child_list(v.push(x), 0)[j] == view_child_list(v, 0).push(
        view_child(x),
    )[j] by {
        assert(v.push(x)[j] == v[j]);
    }
    assert(view_child_list(v.push(x), 0)[v.len() as int] == view_child(x));
    assert(view_child_list(v.push(x), 0) =~= view_child_list(v, 0).push(view_child(x)));
}

} // verus!
