use codepress::ByteSpan;
use codepress::ast::{Attr, AttrValue, Child, DeclItem, Element, Expr, JsxName, MemberProp,
    Module, ScopedId};
use codepress::bindings::collect_bindings;
use codepress::pipeline::{CodePressTransform, process_transform};
use codepress::place::Config;
use codepress::rank::{aggregate_kinds, rank_candidates};
use codepress::span::SourceInfo;
use codepress::symref::{collect_symbol_refs, static_member_path};
use codepress::trace::{TRACE_FUEL, trace_expr};

fn t(s: &str) -> Vec<char> {
    s.chars().collect()
}

fn s(v: &Vec<char>) -> String {
    v.iter().collect()
}

fn sp(lo: u32, hi: u32) -> ByteSpan {
    ByteSpan { lo, hi }
}

fn ident(name: &str, scope: u32, lo: u32, hi: u32) -> Expr {
    Expr::Ident { id: ScopedId { name: t(name), scope }, span: sp(lo, hi) }
}

fn source() -> Option<SourceInfo> {
    Some(SourceInfo { file: t("src/App.tsx"), line_starts: vec![0, 100, 200] })
}

fn attr_value(el: &Element, key: &str) -> Option<String> {
    for a in &el.attrs {
        if let Attr::Named { name, value } = a {
            if s(name) == key {
                if let AttrValue::Str { value } = value {
                    return Some(s(value));
                }
            }
        }
    }
    None
}

fn walk_names(el: &Element, out: &mut Vec<String>) {
    match &el.name {
        JsxName::Ident { name } => out.push(s(name)),
        JsxName::Member { root } => out.push(format!("{}::member", s(root))),
        JsxName::Namespaced => out.push("::namespaced".to_string()),
    }
    for ch in &el.children {
        if let Child::Element { el } = ch {
            walk_names(el, out);
        }
    }
}

fn dump(el: &Element, out: &mut String) {
    match &el.name {
        JsxName::Ident { name } => out.push_str(&format!("<{}", s(name))),
        JsxName::Member { root } => out.push_str(&format!("<{}.x", s(root))),
        JsxName::Namespaced => out.push_str("<ns:x"),
    }
    for a in &el.attrs {
        match a {
            Attr::Named { name, value } => match value {
                AttrValue::Str { value } => out.push_str(&format!(" {}={:?}", s(name), s(value))),
                AttrValue::Expr { .. } => out.push_str(&format!(" {}={{expr}}", s(name))),
                AttrValue::NoValue => out.push_str(&format!(" {}", s(name))),
                AttrValue::OtherVal => out.push_str(&format!(" {}={{other}}", s(name))),
            },
            Attr::Spread { .. } => out.push_str(" {...spread}"),
        }
    }
    out.push('>');
    for ch in &el.children {
        match ch {
            Child::Element { el } => dump(el, out),
            Child::Text { text, .. } => out.push_str(&s(text)),
            Child::ExprChild { .. } => out.push_str("{expr}"),
            Child::OtherChild => out.push_str("{other}"),
        }
    }
    out.push_str("</>");
}


fn find_attr_count(el: &Element, name: &str, out: &mut Option<usize>) {
    if let JsxName::Ident { name: n } = &el.name {
        if n.iter().collect::<String>() == name {
            *out = Some(el.attrs.len());
        }
    }
    for ch in &el.children {
        if let Child::Element { el } = ch {
            find_attr_count(el, name, out);
        }
    }
}

#[test]
fn shadowing_resolves_by_scope_token() {
    let decls = vec![
        DeclItem::VarDecl {
            id: ScopedId { name: t("x"), scope: 1 },
            id_span: sp(5, 6),
            init: Some(Expr::LitNum { lexeme: t("1"), span: sp(9, 10) }),
        },
        DeclItem::VarDecl {
            id: ScopedId { name: t("x"), scope: 2 },
            id_span: sp(105, 106),
            init: Some(Expr::LitNum { lexeme: t("2"), span: sp(109, 110) }),
        },
    ];
    let table = collect_bindings(decls);
    let inner = table.lookup(&ScopedId { name: t("x"), scope: 2 }).expect("inner binding");
    assert_eq!(inner.def_span.lo, 105);
    match &inner.init {
        Some(Expr::LitNum { lexeme, .. }) => assert_eq!(s(lexeme), "2"),
        _ => panic!("inner x must keep its own initializer"),
    }
    let outer = table.lookup(&ScopedId { name: t("x"), scope: 1 }).expect("outer binding");
    assert_eq!(outer.def_span.lo, 5);
    match &outer.init {
        Some(Expr::LitNum { lexeme, .. }) => assert_eq!(s(lexeme), "1"),
        _ => panic!("outer x must keep its own initializer"),
    }
}

#[test]
fn trace_of_literal_plus_imported_name() {
    // const userName = importedName, importedName imported from "./user";
    // the traced expression is {"a:" + userName}.
    let decls = vec![
        DeclItem::ImportNamed {
            local: ScopedId { name: t("importedName"), scope: 1 },
            local_span: sp(10, 20),
            source: t("./user"),
            imported: None,
        },
        DeclItem::VarDecl {
            id: ScopedId { name: t("userName"), scope: 1 },
            id_span: sp(105, 113),
            init: Some(ident("importedName", 1, 110, 120)),
        },
    ];
    let table = collect_bindings(decls);
    let src = source();
    let expr = Expr::Bin {
        op: t("+"),
        left: Box::new(Expr::LitStr { value: t("a:"), span: sp(205, 209) }),
        right: Box::new(ident("userName", 1, 210, 218)),
        span: sp(204, 219),
    };
    let mut chain = Vec::new();
    let mut seen = Vec::new();
    trace_expr(&expr, &table, &src, TRACE_FUEL, &mut chain, &mut seen);
    let kinds: Vec<String> = aggregate_kinds(&chain).iter().map(|k| s(k)).collect();
    assert_eq!(kinds, vec!["ident", "import", "init", "literal", "op"]);
    let cands = rank_candidates(&chain);
    let pairs: Vec<(String, String)> =
        cands.iter().map(|c| (s(&c.reason), s(&c.target))).collect();
    assert_eq!(
        pairs,
        vec![
            ("literal".to_string(), "src/App.tsx:3-3".to_string()),
            ("const-init".to_string(), "src/App.tsx:2-2".to_string()),
            ("import".to_string(), "src/App.tsx:1-1".to_string()),
        ]
    );
    // the literal and the import are both offered, the literal first
    let reasons: Vec<&str> = pairs.iter().map(|p| p.0.as_str()).collect();
    let lit = reasons.iter().position(|r| *r == "literal").unwrap();
    let imp = reasons.iter().position(|r| *r == "import").unwrap();
    assert!(lit < imp);
}

#[test]
fn deep_binary_expression_traces_to_completion() {
    // a synthetic 50-level-deep nested binary expression
    let mut e = Expr::LitNum { lexeme: t("0"), span: sp(1, 2) };
    for i in 0..50u32 {
        e = Expr::Bin {
            op: t("+"),
            left: Box::new(e),
            right: Box::new(Expr::LitNum { lexeme: t("1"), span: sp(3 + i, 4 + i) }),
            span: sp(1, 4 + i),
        };
    }
    let table = collect_bindings(vec![]);
    let src = source();
    let mut chain = Vec::new();
    let mut seen = Vec::new();
    trace_expr(&e, &table, &src, TRACE_FUEL, &mut chain, &mut seen);
    let cands = rank_candidates(&chain);
    assert!(cands.len() <= 128);
}

#[test]
fn rank_never_repeats_a_reason_target_pair() {
    let table = collect_bindings(vec![]);
    let src = source();
    // the same literal span twice in one chain
    let expr = Expr::Bin {
        op: t("+"),
        left: Box::new(Expr::LitStr { value: t("x"), span: sp(5, 6) }),
        right: Box::new(Expr::LitStr { value: t("x"), span: sp(5, 6) }),
        span: sp(5, 6),
    };
    let mut chain = Vec::new();
    let mut seen = Vec::new();
    trace_expr(&expr, &table, &src, TRACE_FUEL, &mut chain, &mut seen);
    let cands = rank_candidates(&chain);
    for i in 0..cands.len() {
        for j in (i + 1)..cands.len() {
            assert!(
                !(s(&cands[i].reason) == s(&cands[j].reason)
                    && s(&cands[i].target) == s(&cands[j].target)),
                "duplicate (reason, target) pair"
            );
        }
    }
}

#[test]
fn env_accessor_becomes_env_leaf() {
    let table = collect_bindings(vec![]);
    let src = source();
    let expr = Expr::Member {
        obj: Box::new(Expr::Member {
            obj: Box::new(ident("process", 0, 1, 8)),
            prop: MemberProp::Ident { name: t("env") },
            span: sp(1, 12),
        }),
        prop: MemberProp::Ident { name: t("API_URL") },
        span: sp(1, 20),
    };
    let mut chain = Vec::new();
    let mut seen = Vec::new();
    trace_expr(&expr, &table, &src, TRACE_FUEL, &mut chain, &mut seen);
    let kinds: Vec<String> = aggregate_kinds(&chain).iter().map(|k| s(k)).collect();
    assert_eq!(kinds, vec!["env"]);
}

#[test]
fn static_member_paths_resolve() {
    let e = Expr::Member {
        obj: Box::new(Expr::Member {
            obj: Box::new(ident("a", 0, 1, 2)),
            prop: MemberProp::Ident { name: t("b") },
            span: sp(1, 4),
        }),
        prop: MemberProp::Computed {
            expr: Box::new(Expr::LitStr { value: t("c"), span: sp(5, 8) }),
        },
        span: sp(1, 9),
    };
    let (root, path) = static_member_path(&e).expect("static chain resolves");
    assert_eq!(s(&root), "a");
    assert_eq!(s(&path), ".b[\"c\"]");

    let dynamic = Expr::Member {
        obj: Box::new(ident("a", 0, 1, 2)),
        prop: MemberProp::Computed { expr: Box::new(ident("k", 0, 3, 4)) },
        span: sp(1, 5),
    };
    assert!(static_member_path(&dynamic).is_none());
}

#[test]
fn symbol_refs_record_ident_and_member() {
    let table = collect_bindings(vec![]);
    let src = source();
    let e = Expr::Member {
        obj: Box::new(ident("item", 0, 205, 209)),
        prop: MemberProp::Ident { name: t("price") },
        span: sp(205, 215),
    };
    let mut refs = Vec::new();
    collect_symbol_refs(&e, &table, &src, &t("src/App.tsx"), 1, &mut refs);
    assert_eq!(refs.len(), 2);
    assert_eq!(s(&refs[0].local), "item");
    assert_eq!(s(&refs[0].path), ".price");
    assert_eq!(s(&refs[1].local), "item");
    assert_eq!(s(&refs[1].path), "");
}

fn card_module() -> Module {
    // <Card price={item.price} /> at top level: no markup ancestor is open
    let price_expr = Expr::Member {
        obj: Box::new(ident("item", 3, 205, 209)),
        prop: MemberProp::Ident { name: t("price") },
        span: sp(205, 215),
    };
    let card = Element {
        name: JsxName::Ident { name: t("Card") },
        attrs: vec![Attr::Named { name: t("price"), value: AttrValue::Expr { expr: price_expr } }],
        children: vec![],
        open_span: sp(201, 220),
        span: sp(201, 230),
    };
    Module { decls: vec![], roots: vec![card] }
}

#[test]
fn component_without_markup_ancestor_keeps_its_metadata() {
    let cfg = Config::new(None, None, vec![], vec![]);
    let transform = CodePressTransform::new(cfg, source());
    let mut stamp = false;
    let out = process_transform(card_module(), &transform, &mut stamp);
    assert_eq!(out.len(), 1);
    let root = &out[0];
    match &root.name {
        JsxName::Ident { name } => assert_eq!(s(name), "Card"),
        _ => panic!("the marker must be replaced by the invocation"),
    }
    // the marker is gone
    let mut names = Vec::new();
    walk_names(root, &mut names);
    assert!(!names.iter().any(|n| n == "codepress-marker"));
    // and its carried keys moved onto the invocation's own props
    assert!(attr_value(root, "data-codepress-edit-candidates").is_some());
    assert!(attr_value(root, "data-codepress-source-kinds").is_some());
    assert!(attr_value(root, "data-codepress-symbol-refs").is_some());
    assert!(attr_value(root, "data-codepress-callsite").is_some());
    assert!(attr_value(root, "codepress-data-fp").is_some());
}

fn nested_module() -> Module {
    let inner_span = Element {
        name: JsxName::Ident { name: t("span") },
        attrs: vec![],
        children: vec![Child::Text { text: t("hi"), span: sp(130, 132) }],
        open_span: sp(120, 140),
        span: sp(120, 150),
    };
    let card = Element {
        name: JsxName::Ident { name: t("Card") },
        attrs: vec![],
        children: vec![Child::Element { el: Box::new(inner_span) }],
        open_span: sp(110, 160),
        span: sp(110, 170),
    };
    let link = Element {
        name: JsxName::Ident { name: t("Link") },
        attrs: vec![],
        children: vec![],
        open_span: sp(180, 190),
        span: sp(180, 195),
    };
    let div = Element {
        name: JsxName::Ident { name: t("div") },
        attrs: vec![],
        children: vec![
            Child::Element { el: Box::new(card) },
            Child::Element { el: Box::new(link) },
        ],
        open_span: sp(100, 196),
        span: sp(100, 199),
    };
    Module { decls: vec![], roots: vec![div] }
}

#[test]
fn no_reserved_synthetic_tag_survives_both_passes() {
    let cfg = Config::new(Some(t("acme/web")), Some(t("main")), vec![], vec![]);
    let transform = CodePressTransform::new(cfg, source());
    let mut stamp = false;
    let out = process_transform(nested_module(), &transform, &mut stamp);
    let mut names = Vec::new();
    for root in &out {
        walk_names(root, &mut names);
    }
    for n in &names {
        assert_ne!(n, "codepress-marker");
        assert_ne!(n, "__CPProvider");
        assert_ne!(n, "__CPX");
    }
}

#[test]
fn skip_listed_component_is_not_instrumented() {
    let cfg = Config::new(None, None, vec![], vec![]);
    let transform = CodePressTransform::new(cfg, source());
    let mut stamp = false;
    let out = process_transform(nested_module(), &transform, &mut stamp);
    let mut count: Option<usize> = None;
    for root in &out {
        find_attr_count(root, "Link", &mut count);
    }
    assert_eq!(count, Some(0), "a skip-listed invocation carries no metadata");
}

#[test]
fn global_stamp_goes_to_the_first_eligible_element_only() {
    let mut stamp = false;
    let cfg1 = Config::new(Some(t("acme/web")), Some(t("main")), vec![], vec![]);
    let t1 = CodePressTransform::new(cfg1, source());
    let out1 = process_transform(nested_module(), &t1, &mut stamp);
    let cfg2 = Config::new(Some(t("acme/web")), Some(t("main")), vec![], vec![]);
    let t2 = CodePressTransform::new(cfg2, source());
    let out2 = process_transform(nested_module(), &t2, &mut stamp);
    let repo1 = attr_value(&out1[0], "codepress-github-repo-name");
    let branch1 = attr_value(&out1[0], "codepress-github-branch");
    let repo2 = attr_value(&out2[0], "codepress-github-repo-name");
    assert_eq!(repo1.as_deref(), Some("acme/web"));
    assert_eq!(branch1.as_deref(), Some("main"));
    assert!(repo2.is_none(), "only the first eligible element receives the stamp");
    assert!(stamp);
}

#[test]
fn pipeline_is_deterministic() {
    let run = || {
        let cfg = Config::new(Some(t("acme/web")), None, vec![], vec![]);
        let transform = CodePressTransform::new(cfg, source());
        let mut stamp = false;
        let out = process_transform(nested_module(), &transform, &mut stamp);
        let mut text = String::new();
        for root in &out {
            dump(root, &mut text);
        }
        text
    };
    assert_eq!(run(), run());
}

#[test]
fn markup_element_is_tagged_directly_and_idempotently() {
    let cfg = Config::new(None, None, vec![], vec![]);
    let transform = CodePressTransform::new(cfg, source());
    let mut stamp = false;
    let out = process_transform(nested_module(), &transform, &mut stamp);
    let div = &out[0];
    let fp = attr_value(div, "codepress-data-fp").expect("a markup element gets its location");
    assert!(fp.contains(':'), "the location value carries the line range: {fp}");
    assert!(attr_value(div, "data-codepress-edit-candidates").is_some());
    assert!(attr_value(div, "data-codepress-callsite").is_some());
}

#[test]
fn member_rooted_skip_component_is_left_alone() {
    // <Primitive.div /> under a markup ancestor: the default member-root
    // skip list protects it
    let inner = Element {
        name: JsxName::Member { root: t("Primitive") },
        attrs: vec![],
        children: vec![],
        open_span: sp(110, 120),
        span: sp(110, 125),
    };
    let div = Element {
        name: JsxName::Ident { name: t("div") },
        attrs: vec![],
        children: vec![Child::Element { el: Box::new(inner) }],
        open_span: sp(100, 130),
        span: sp(100, 140),
    };
    let module = Module { decls: vec![], roots: vec![div] };
    let cfg = Config::new(None, None, vec![], vec![]);
    let transform = CodePressTransform::new(cfg, source());
    let mut stamp = false;
    let out = process_transform(module, &transform, &mut stamp);
    match &out[0].children[0] {
        Child::Element { el } => {
            match &el.name {
                JsxName::Member { root } => assert_eq!(s(root), "Primitive"),
                _ => panic!("the member-rooted invocation keeps its name"),
            }
            assert!(el.attrs.is_empty(), "a skip-listed member root carries no metadata");
        },
        _ => panic!("the child element survives"),
    }
}

#[test]
fn malformed_marker_in_the_input_is_left_untouched() {
    // an element that already bears the reserved wrapper tag, with two
    // children: neither pass may guess, so it survives unchanged in shape
    let kid = |lo: u32| Element {
        name: JsxName::Ident { name: t("em") },
        attrs: vec![],
        children: vec![],
        open_span: sp(lo, lo + 2),
        span: sp(lo, lo + 4),
    };
    let marker = Element {
        name: JsxName::Ident { name: t("codepress-marker") },
        attrs: vec![],
        children: vec![
            Child::Element { el: Box::new(kid(110)) },
            Child::Element { el: Box::new(kid(120)) },
        ],
        open_span: sp(100, 130),
        span: sp(100, 140),
    };
    let module = Module { decls: vec![], roots: vec![marker] };
    let cfg = Config::new(None, None, vec![], vec![]);
    let transform = CodePressTransform::new(cfg, source());
    let mut stamp = false;
    let out = process_transform(module, &transform, &mut stamp);
    assert_eq!(out.len(), 1);
    match &out[0].name {
        JsxName::Ident { name } => assert_eq!(s(name), "codepress-marker"),
        _ => panic!("the malformed marker keeps its name"),
    }
    assert_eq!(out[0].children.len(), 2);
    // the marker itself gains nothing, but the real elements below it do
    assert!(out[0].attrs.is_empty());
    match &out[0].children[0] {
        Child::Element { el } => {
            assert!(attr_value(el, "codepress-data-fp").is_some());
        },
        _ => panic!("the children survive"),
    }
}
