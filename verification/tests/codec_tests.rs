use base64::Engine;
use codepress::codec::{xor_decode, xor_encode, push_char, text_to_string};
use codepress::span::normalize_filename;
use codepress::text::{replace, strip_prefix, text_of, usize_decimal};

fn t(s: &str) -> Vec<char> {
    s.chars().collect()
}

fn s(v: &Vec<char>) -> String {
    v.iter().collect()
}

const SECRET: &[u8] = b"codepress-file-obfuscation";

fn reference_encode(input: &str) -> String {
    let xored: Vec<u8> = input
        .bytes()
        .enumerate()
        .map(|(i, b)| b ^ SECRET[i % SECRET.len()])
        .collect();
    base64::engine::general_purpose::URL_SAFE_NO_PAD.encode(xored)
}

#[test]
fn encode_matches_reference_cipher() {
    for sample in [
        "",
        "a",
        "src/App.tsx",
        "hello world, with punctuation! and a long tail to cycle the key several times over",
        "unicode: héllo • ツ",
    ] {
        assert_eq!(xor_encode(sample), reference_encode(sample));
    }
}

#[test]
fn encode_of_empty_is_empty() {
    assert_eq!(xor_encode(""), "");
}

#[test]
fn decode_inverts_encode() {
    for sample in [
        "",
        "x",
        "src/components/Card.tsx:12-48",
        "[{\"target\":\"a:1-2\",\"reason\":\"literal\"}]",
        "unicode round trip: héllo • ツ \u{1F600}",
    ] {
        let enc = xor_encode(sample);
        let dec = xor_decode(&enc).expect("an encoded string decodes");
        assert_eq!(dec, sample);
    }
}

#[test]
fn decode_rejects_garbage_base64() {
    assert!(xor_decode("not*valid*base64!").is_none());
}

#[test]
fn push_char_appends() {
    let mut out = String::new();
    push_char(&mut out, 'a');
    push_char(&mut out, '•');
    assert_eq!(out, "a•");
}

#[test]
fn text_to_string_round_trips() {
    let v = t("héllo");
    assert_eq!(text_to_string(&v), "héllo");
}

#[test]
fn normalize_strips_known_prefixes() {
    assert_eq!(s(&normalize_filename(&t("[project]/src/App.tsx"))), "src/App.tsx");
    assert_eq!(
        s(&normalize_filename(&t("turbopack/[project]/pages/index.tsx"))),
        "pages/index.tsx"
    );
    assert_eq!(
        s(&normalize_filename(&t("/turbopack/[project]/pages/index.tsx"))),
        "pages/index.tsx"
    );
    assert_eq!(s(&normalize_filename(&t("file:///home/dev/app.tsx"))), "home/dev/app.tsx");
    assert_eq!(s(&normalize_filename(&t("file://host/app.tsx"))), "host/app.tsx");
}

#[test]
fn normalize_decodes_project_marker_and_backslashes() {
    assert_eq!(
        s(&normalize_filename(&t("%5Bproject%5D/src\\a.tsx"))),
        "src/a.tsx"
    );
    assert_eq!(
        s(&normalize_filename(&t("%5bproject%5d/src/a.tsx"))),
        "src/a.tsx"
    );
}

#[test]
fn replace_is_leftmost_nonoverlapping() {
    assert_eq!(s(&replace(&t("aaaa"), &t("aa"), &t("b"))), "bb");
    assert_eq!(s(&replace(&t("abcabc"), &t("bc"), &t("X"))), "aXaX");
    assert_eq!(s(&replace(&t("abc"), &t(""), &t("X"))), "abc");
}

#[test]
fn strip_prefix_works() {
    assert_eq!(s(&strip_prefix(&t("abcdef"), &t("abc")).unwrap()), "def");
    assert!(strip_prefix(&t("abc"), &t("abd")).is_none());
}

#[test]
fn decimal_rendering() {
    assert_eq!(s(&usize_decimal(0)), "0");
    assert_eq!(s(&usize_decimal(7)), "7");
    assert_eq!(s(&usize_decimal(120)), "120");
    assert_eq!(s(&usize_decimal(98765)), "98765");
}

#[test]
fn text_of_keeps_characters() {
    assert_eq!(s(&text_of("héllo•")), "héllo•");
}
