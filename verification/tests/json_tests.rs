use codepress::ByteSpan;
use codepress::ast::{Attr, AttrValue, Child, Element, Expr, JsxName, Module, ScopedId};
use codepress::codec::xor_decode;
use codepress::json::{candidates_json, kinds_json, symrefs_json};
use codepress::pipeline::{CodePressTransform, process_transform};
use codepress::place::Config;
use codepress::rank::Candidate;
use codepress::span::SourceInfo;
use codepress::symref::SymbolRef;

fn t(s: &str) -> Vec<char> {
    s.chars().collect()
}

fn s(v: &Vec<char>) -> String {
    v.iter().collect()
}

fn serde_string(v: &serde_json::Value) -> String {
    serde_json::to_string(v).expect("serialization succeeds")
}

#[test]
fn candidates_json_matches_serde() {
    let cands = vec![
        Candidate { target: t("src/a.tsx:1-2"), reason: t("literal") },
        Candidate {
            target: t("weird \"quotes\" and \\slashes\\ and \n\t\r control \u{1}"),
            reason: t("import"),
        },
    ];
    let ours = s(&candidates_json(&cands));
    // field order in the object is target first, then reason
    assert!(ours.starts_with("[{\"target\":"));
    let parsed: serde_json::Value = serde_json::from_str(&ours).expect("well-formed JSON");
    let arr = parsed.as_array().expect("a JSON array");
    assert_eq!(arr.len(), 2);
    for (i, c) in cands.iter().enumerate() {
        assert_eq!(arr[i]["target"], serde_json::Value::String(s(&c.target)));
        assert_eq!(arr[i]["reason"], serde_json::Value::String(s(&c.reason)));
    }
}

#[test]
fn kinds_json_matches_serde() {
    let kinds = vec![
        t("ident"),
        t("literal"),
        t("op"),
        t("weird \"quotes\" and \\slashes\\ and \n\t\r control \u{1} raw unicode •"),
    ];
    let ours = s(&kinds_json(&kinds));
    let arr: Vec<serde_json::Value> =
        kinds.iter().map(|k| serde_json::Value::String(s(k))).collect();
    assert_eq!(ours, serde_string(&serde_json::Value::Array(arr)));
}

#[test]
fn symrefs_json_matches_serde() {
    let refs = vec![SymbolRef {
        file: t("src/App.tsx"),
        local: t("item"),
        path: t(".price[\"x\"]"),
        span: t("src/App.tsx:3-3"),
    }];
    let ours = s(&symrefs_json(&refs));
    assert!(ours.starts_with("[{\"file\":"));
    let parsed: serde_json::Value = serde_json::from_str(&ours).expect("well-formed JSON");
    let arr = parsed.as_array().expect("a JSON array");
    assert_eq!(arr.len(), 1);
    assert_eq!(arr[0]["file"], serde_json::Value::String(s(&refs[0].file)));
    assert_eq!(arr[0]["local"], serde_json::Value::String(s(&refs[0].local)));
    assert_eq!(arr[0]["path"], serde_json::Value::String(s(&refs[0].path)));
    assert_eq!(arr[0]["span"], serde_json::Value::String(s(&refs[0].span)));
}

#[test]
fn empty_lists_serialize_to_empty_arrays() {
    assert_eq!(s(&candidates_json(&vec![])), "[]");
    assert_eq!(s(&kinds_json(&vec![])), "[]");
    assert_eq!(s(&symrefs_json(&vec![])), "[]");
}

fn attr_value(el: &Element, key: &str) -> Option<String> {
    for a in &el.attrs {
        if let Attr::Named { name, value } = a {
            if s(name) == key {
                if let AttrValue::Str { value } = value {
                    return Some(s(value));
                }
            }
        }
    }
    None
}

#[test]
fn hoisted_payloads_concatenate_array_bodies() {
    // a markup ancestor with two component invocations below it: both
    // payloads rise and merge into the ancestor's arrays
    let sp = |lo: u32, hi: u32| ByteSpan { lo, hi };
    let ident = |name: &str, lo: u32, hi: u32| Expr::Ident {
        id: ScopedId { name: t(name), scope: 7 },
        span: sp(lo, hi),
    };
    let card = |lo: u32| Element {
        name: JsxName::Ident { name: t("Card") },
        attrs: vec![Attr::Named {
            name: t("value"),
            value: AttrValue::Expr { expr: ident("v", lo, lo + 1) },
        }],
        children: vec![],
        open_span: sp(lo, lo + 6),
        span: sp(lo, lo + 8),
    };
    let div = Element {
        name: JsxName::Ident { name: t("div") },
        attrs: vec![],
        children: vec![
            Child::Element { el: Box::new(card(110)) },
            Child::Element { el: Box::new(card(130)) },
        ],
        open_span: sp(100, 150),
        span: sp(100, 160),
    };
    let module = Module { decls: vec![], roots: vec![div] };
    let cfg = Config::new(None, None, vec![], vec![]);
    let transform = CodePressTransform::new(
        cfg,
        Some(SourceInfo { file: t("src/App.tsx"), line_starts: vec![0, 100, 200] }),
    );
    let mut stamp = false;
    let out = process_transform(module, &transform, &mut stamp);
    let enc = attr_value(&out[0], "data-codepress-symbol-refs").expect("merged refs attribute");
    let decoded = xor_decode(&enc).expect("the merged value decodes");
    let parsed: serde_json::Value =
        serde_json::from_str(&decoded).expect("the merged value is well-formed JSON");
    let arr = parsed.as_array().expect("a JSON array");
    // the ancestor contributes no symbol references of its own; both
    // invocations contribute one each, kept with multiplicity
    assert_eq!(arr.len(), 2);
    for entry in arr {
        assert_eq!(entry["local"], serde_json::Value::String("v".to_string()));
    }
}
