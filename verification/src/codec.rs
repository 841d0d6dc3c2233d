//! The reversible string obfuscation used for every emitted payload.
//!
//! A payload is masked by a cyclic XOR with a fixed key and then rendered
//! as URL-safe, unpadded base64. Decoding inverts both steps, so
//! `decode(encode(s)) == s` for every string, and the empty string encodes
//! to the empty string.

use vstd::prelude::*;
use vstd::utf8::{decode_utf8, encode_utf8, encode_utf8_decode_utf8, encode_utf8_valid_utf8,
    valid_utf8};

use base64::Engine;

verus! {

/// The most input characters `xor_encode` accepts; keeps every buffer the
/// codec allocates far below any address-space limit.
pub const MAX_ENCODE_CHARS: usize = 0x0400_0000;

/// The characters that base64 (URL-safe alphabet, no padding) produces for
/// the given bytes.
pub uninterp spec fn b64_chars_of(bytes: Seq<u8>) -> Seq<char>;

/// What base64 (URL-safe alphabet, no padding) decoding yields for the
/// given characters: the decoded bytes, or nothing on a malformed input.
pub uninterp spec fn b64_decoded(s: Seq<char>) -> Option<Seq<u8>>;

/// Relies on base64's `Engine::encode` with the `URL_SAFE_NO_PAD` engine:
/// the output characters are a function of the input bytes alone, and an
/// empty input encodes to an empty string. The length bound keeps the
/// engine's output-size computation from overflowing.
#[verifier::external_body]
fn b64_encode(bytes: &Vec<u8>) -> (r: String)
    requires
        bytes@.len() <= 0x4000_0000,
    ensures
        r@ == b64_chars_of(bytes@),
        bytes@.len() == 0 ==> r@.len() == 0,
{
    base64::engine::general_purpose::URL_SAFE_NO_PAD.encode(bytes)
}

/// Relies on base64's `Engine::decode` with the `URL_SAFE_NO_PAD` engine:
/// the outcome is a function of the input characters alone, and decoding
/// inverts encoding, so on any string that `Engine::encode` produced it
/// returns exactly the bytes that were encoded.
#[verifier::external_body]
fn b64_decode(s: &str) -> (r: Option<Vec<u8>>)
    ensures
        r is Some <==> b64_decoded(s@) is Some,
        r is Some ==> r->0@ == b64_decoded(s@)->0,
        forall|b: Seq<u8>| s@ == b64_chars_of(b) ==> r is Some && r->0@ == b,
{
    match base64::engine::general_purpose::URL_SAFE_NO_PAD.decode(s) {
        Ok(v) => Some(v),
        Err(_) => None,
    }
}

/// Relies on `String::from_utf8`: it succeeds exactly on valid UTF-8 and
/// returns the string those bytes spell.
#[verifier::external_body]
fn string_from_utf8(bytes: Vec<u8>) -> (r: Option<String>)
    ensures
        valid_utf8(bytes@) ==> r is Some && encode_utf8(r->0@) == bytes@,
        !valid_utf8(bytes@) ==> r is None,
{
    match String::from_utf8(bytes) {
        Ok(s) => Some(s),
        Err(_) => None,
    }
}

/// Relies on `String::push`: it appends the one character.
#[verifier::external_body]
pub fn push_char(s: &mut String, c: char)
    ensures
        final(s)@ == old(s)@.push(c),
{
    s.push(c)
}

/// Render an owned character text as a `String` with the same characters.
pub fn text_to_string(t: &Vec<char>) -> (r: String)
    ensures
        r@ == t@,
{
    let mut r = String::new();
    let mut i: usize = 0;
    while i < t.len()
        invariant
            i <= t@.len(),
            r@ == t@.subrange(0, i as int),
        decreases t@.len() - i,
    {
        push_char(&mut r, t[i]);
        assert(r@ =~= t@.subrange(0, i + 1 as int));
        i = i + 1;
    }
    assert(r@ =~= t@);
    r
}

/// The fixed obfuscation key, as bytes (the ASCII of
/// `codepress-file-obfuscation`).
pub open spec fn secret_key() -> Seq<u8> {
    seq![
        99u8, 111u8, 100u8, 101u8, 112u8, 114u8, 101u8, 115u8, 115u8, 45u8, 102u8, 105u8, 108u8, 101u8, 45u8, 111u8, 98u8, 102u8, 117u8, 115u8, 99u8, 97u8, 116u8, 105u8, 111u8, 110u8,
    ]
}

fn secret_key_bytes() -> (r: Vec<u8>)
    ensures
        r@ == secret_key(),
{
    let mut r: Vec<u8> = Vec::new();
    r.push(99);
    r.push(111);
    r.push(100);
    r.push(101);
    r.push(112);
    r.push(114);
    r.push(101);
    r.push(115);
    r.push(115);
    r.push(45);
    r.push(102);
    r.push(105);
    r.push(108);
    r.push(101);
    r.push(45);
    r.push(111);
    r.push(98);
    r.push(102);
    r.push(117);
    r.push(115);
    r.push(99);
    r.push(97);
    r.push(116);
    r.push(105);
    r.push(111);
    r.push(110);
    assert(r@ =~= secret_key());
    r
}

/// `data` masked by a cyclic XOR with `key`.
pub open spec fn xor_mask(data: Seq<u8>, key: Seq<u8>) -> Seq<u8>
    recommends
        key.len() > 0,
{
    Seq::new(data.len(), |i: int| data[i] ^ key[i % key.len() as int])
}

/// Masking twice with the same key gives the data back.
pub proof fn lemma_xor_mask_involutive(data: Seq<u8>, key: Seq<u8>)
    requires
        key.len() > 0,
    ensures
        xor_mask(xor_mask(data, key), key) == data,
{
    let once = xor_mask(data, key);
    let twice = xor_mask(once, key);
    assert forall|i: int| 0 <= i < data.len() implies twice[i] == data[i] by {
        let k = key[i % key.len() as int];
        let d = data[i];
        assert((d ^ k) ^ k == d) by (bit_vector);
    }
    assert(twice =~= data);
}

fn xor_apply(data: &Vec<u8>, key: &Vec<u8>) -> (r: Vec<u8>)
    requires
        key@.len() > 0,
    ensures
        r@ == xor_mask(data@, key@),
{
    let mut r: Vec<u8> = Vec::new();
    let mut i: usize = 0;
    while i < data.len()
        invariant
            key@.len() > 0,
            i <= data@.len(),
            r@ == xor_mask(data@.subrange(0, i as int), key@),
        decreases data@.len() - i,
    {
        r.push(data[i] ^ key[i % key.len()]);
        assert(r@ =~= xor_mask(data@.subrange(0, i + 1 as int), key@));
        i = i + 1;
    }
    assert(data@.subrange(0, data@.len() as int) =~= data@);
    r
}

/// The UTF-8 encoding of a text is at most four bytes per character.
pub proof fn lemma_encode_utf8_len(chars: Seq<char>)
    ensures
        encode_utf8(chars).len() <= 4 * chars.len(),
    decreases chars.len(),
{
    if chars.len() != 0 {
        lemma_encode_utf8_len(chars.drop_first());
    }
}

/// What `xor_encode` produces for the given characters.
pub open spec fn spec_xor_encode(s: Seq<char>) -> Seq<char> {
    b64_chars_of(xor_mask(encode_utf8(s), secret_key()))
}

/// Mask a string: XOR its UTF-8 bytes with the cyclic key, then render the
/// result as URL-safe, unpadded base64. The empty string encodes to the
/// empty string.
pub fn xor_encode(input: &str) -> (r: String)
    requires
        input@.len() <= MAX_ENCODE_CHARS,
    ensures
        r@ == spec_xor_encode(input@),
        input@.len() == 0 ==> r@.len() == 0,
{
    proof {
        lemma_encode_utf8_len(input@);
    }
    let bytes = input.as_bytes_vec();
    let key = secret_key_bytes();
    let xored = xor_apply(&bytes, &key);
    let r = b64_encode(&xored);
    proof {
        if input@.len() == 0 {
            assert(encode_utf8(input@) =~= Seq::<u8>::empty());
            assert(xor_mask(encode_utf8(input@), secret_key()) =~= Seq::<u8>::empty());
        }
    }
    r
}

/// What `xor_decode` yields for the given characters.
pub open spec fn spec_xor_decode(t: Seq<char>) -> Option<Seq<char>> {
    match b64_decoded(t) {
        Some(bytes) => {
            let unmasked = xor_mask(bytes, secret_key());
            if valid_utf8(unmasked) {
                Some(decode_utf8(unmasked))
            } else {
                None
            }
        },
        None => None,
    }
}

/// Unmask a string produced by [`xor_encode`]: decode the base64, XOR with
/// the cyclic key again, and read the bytes back as UTF-8.
///
/// Decoding inverts encoding: on any output of `xor_encode` it returns the
/// original string.
pub fn xor_decode(input: &str) -> (r: Option<String>)
    ensures
        r is Some <==> spec_xor_decode(input@) is Some,
        r is Some ==> r->0@ == spec_xor_decode(input@)->0,
        forall|orig: Seq<char>|
            input@ == spec_xor_encode(orig) ==> r is Some && r->0@ == orig,
{
    let decoded = match b64_decode(input) {
        Some(v) => v,
        None => {
            return None;
        },
    };
    let key = secret_key_bytes();
    let unmasked = xor_apply(&decoded, &key);
    let ghost unmasked_v = unmasked@;
    let out = string_from_utf8(unmasked);
    proof {
        assert(decoded@ == b64_decoded(input@)->0);
        if valid_utf8(unmasked_v) {
            assert(out is Some && encode_utf8(out->0@) == unmasked_v);
            encode_utf8_decode_utf8(out->0@);
            assert(out->0@ == decode_utf8(unmasked_v));
            assert(spec_xor_decode(input@) == Some(decode_utf8(unmasked_v)));
        } else {
            assert(out is None);
            assert(spec_xor_decode(input@) is None);
        }
        assert forall|orig: Seq<char>|
            input@ == spec_xor_encode(orig) implies out is Some && out->0@ == orig by {
            let utf8 = encode_utf8(orig);
            let masked = xor_mask(utf8, secret_key());
            assert(decoded@ == masked);
            lemma_xor_mask_involutive(utf8, secret_key());
            encode_utf8_valid_utf8(orig);
            assert(out is Some && encode_utf8(out->0@) == utf8);
            encode_utf8_decode_utf8(orig);
            encode_utf8_decode_utf8(out->0@);
        }
    }
    out
}

/// What [`encode_payload`] produces: the payload masked, or the masked
/// empty-array literal where the payload is over the codec's size bound.
pub open spec fn spec_encode_payload(t: Seq<char>) -> Seq<char> {
    if t.len() <= MAX_ENCODE_CHARS {
        spec_xor_encode(t)
    } else {
        spec_xor_encode("[]"@)
    }
}

/// Mask a serialized payload. A payload over the codec's size bound is
/// replaced by the empty-array literal, so the transform never fails on an
/// oversized element.
pub fn encode_payload(t: &Vec<char>) -> (r: String)
    ensures
        r@ == spec_encode_payload(t@),
{
    if t.len() <= MAX_ENCODE_CHARS {
        let s = text_to_string(t);
        xor_encode(s.as_str())
    } else {
        proof {
            reveal_strlit("[]");
        }
        xor_encode("[]")
    }
}

/// What [`encode_tag`] produces: the tag masked, or the masked empty
/// string where the tag is over the codec's size bound.
pub open spec fn spec_encode_tag(t: Seq<char>) -> Seq<char> {
    if t.len() <= MAX_ENCODE_CHARS {
        spec_xor_encode(t)
    } else {
        spec_xor_encode(Seq::empty())
    }
}

/// Mask a location tag. A tag over the codec's size bound is replaced by
/// the empty string.
pub fn encode_tag(t: &Vec<char>) -> (r: String)
    ensures
        r@ == spec_encode_tag(t@),
{
    if t.len() <= MAX_ENCODE_CHARS {
        let s = text_to_string(t);
        xor_encode(s.as_str())
    } else {
        let empty: Vec<char> = Vec::new();
        let s = text_to_string(&empty);
        proof {
            assert(s@ =~= Seq::<char>::empty());
        }
        xor_encode(s.as_str())
    }
}

} // verus!
