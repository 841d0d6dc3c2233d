//! Rendering of candidate lists, kind tags and symbol references as JSON
//! text, built character by character so that equal inputs give
//! byte-identical output.

use vstd::prelude::*;
use crate::rank::{Candidate, CandidateV, view_candidate, view_candidates, view_texts};
use crate::symref::{SymbolRef, SymbolRefV, view_symref, view_symrefs};
use crate::text::{push_all, push_str_chars};

verus! {

/// The escape of one character inside a JSON string: quote, backslash and
/// the named control characters get a two-character escape, any other
/// control character a `\u00` hex escape, and everything else stands as
/// itself.
pub open spec fn esc_char(c: char) -> Seq<char> {
    if c == '"' {
        seq!['\\', '"']
    } else if c == '\\' {
        seq!['\\', '\\']
    } else if c == '\u{8}' {
        seq!['\\', 'b']
    } else if c == '\t' {
        seq!['\\', 't']
    } else if c == '\n' {
        seq!['\\', 'n']
    } else if c == '\u{c}' {
        seq!['\\', 'f']
    } else if c == '\r' {
        seq!['\\', 'r']
    } else if (c as u32) < 0x20 {
        seq!['\\', 'u', '0', '0', hex_digit((c as u32) / 16), hex_digit((c as u32) % 16)]
    } else {
        seq![c]
    }
}

/// One lower-case hex digit.
pub open spec fn hex_digit(d: u32) -> char {
    if d == 0 {
        '0'
    } else if d == 1 {
        '1'
    } else if d == 2 {
        '2'
    } else if d == 3 {
        '3'
    } else if d == 4 {
        '4'
    } else if d == 5 {
        '5'
    } else if d == 6 {
        '6'
    } else if d == 7 {
        '7'
    } else if d == 8 {
        '8'
    } else if d == 9 {
        '9'
    } else if d == 10 {
        'a'
    } else if d == 11 {
        'b'
    } else if d == 12 {
        'c'
    } else if d == 13 {
        'd'
    } else if d == 14 {
        'e'
    } else {
        'f'
    }
}

/// The body of a JSON string: every character escaped.
pub open spec fn spec_escaped(s: Seq<char>) -> Seq<char>
    decreases s.len(),
{
    if s.len() == 0 {
        Seq::empty()
    } else {
        esc_char(s[0]) + spec_escaped(s.skip(1))
    }
}

/// A whole JSON string: quotes around the escaped body.
pub open spec fn spec_json_string(s: Seq<char>) -> Seq<char> {
    seq!['"'] + spec_escaped(s) + seq!['"']
}

fn hex_digit_char(d: u32) -> (c: char)
    requires
        d < 16,
    ensures
        c == hex_digit(d),
{
    match d {
        0 => '0',
        1 => '1',
        2 => '2',
        3 => '3',
        4 => '4',
        5 => '5',
        6 => '6',
        7 => '7',
        8 => '8',
        9 => '9',
        10 => 'a',
        11 => 'b',
        12 => 'c',
        13 => 'd',
        14 => 'e',
        _ => 'f',
    }
}

/// Append a whole JSON string for `s` onto `out`.
pub fn push_json_string(out: &mut Vec<char>, s: &Vec<char>)
    ensures
        final(out)@ == old(out)@ + spec_json_string(s@),
{
    out.push('"');
    let ghost base = out@;
    let mut i: usize = 0;
    proof {
        assert(s@.skip(0) =~= s@);
        assert(base + spec_escaped(s@) =~= base + spec_escaped(s@.skip(0)));
    }
    while i < s.len()
        invariant
            i <= s@.len(),
            base + spec_escaped(s@) == out@ + spec_escaped(s@.skip(i as int)),
        decreases s@.len() - i,
    {
        let ghost pre = out@;
        let ghost tail = s@.skip(i as int);
        let c = s[i];
        if c == '"' {
            out.push('\\');
            out.push('"');
        } else if c == '\\' {
            out.push('\\');
            out.push('\\');
        } else if c == '\u{8}' {
            out.push('\\');
            out.push('b');
        } else if c == '\t' {
            out.push('\\');
            out.push('t');
        } else if c == '\n' {
            out.push('\\');
            out.push('n');
        } else if c == '\u{c}' {
            out.push('\\');
            out.push('f');
        } else if c == '\r' {
            out.push('\\');
            out.push('r');
        } else if (c as u32) < 0x20 {
            out.push('\\');
            out.push('u');
            out.push('0');
            out.push('0');
            out.push(hex_digit_char((c as u32) / 16));
            out.push(hex_digit_char((c as u32) % 16));
        } else {
            out.push(c);
        }
        proof {
            assert(out@ =~= pre + esc_char(s@[i as int]));
            assert(tail[0] == s@[i as int]);
            assert(tail.skip(1) =~= s@.skip(i + 1 as int));
            assert(spec_escaped(tail) == esc_char(tail[0]) + spec_escaped(tail.skip(1)));
            assert(pre + (esc_char(s@[i as int]) + spec_escaped(s@.skip(i + 1 as int))) =~= (pre
                + esc_char(s@[i as int])) + spec_escaped(s@.skip(i + 1 as int)));
        }
        i = i + 1;
    }
    proof {
        assert(s@.skip(s@.len() as int) =~= Seq::<char>::empty());
        assert(spec_escaped(Seq::<char>::empty()) =~= Seq::<char>::empty());
        assert(out@ + Seq::<char>::empty() =~= out@);
    }
    out.push('"');
    proof {
        assert(out@ =~= old(out)@ + spec_json_string(s@));
    }
}

/// The JSON object of one candidate.
pub open spec fn spec_candidate_json(c: CandidateV) -> Seq<char> {
    "{\"target\":"@ + spec_json_string(c.target) + ",\"reason\":"@ + spec_json_string(c.reason)
        + seq!['}']
}

/// The JSON entries of the candidates from position `i` on, each after a
/// comma except the first.
pub open spec fn spec_candidates_items(s: Seq<CandidateV>, i: int) -> Seq<char>
    decreases s.len() - i,
{
    if 0 <= i < s.len() {
        (if i > 0 {
            seq![',']
        } else {
            Seq::empty()
        }) + spec_candidate_json(s[i]) + spec_candidates_items(s, i + 1)
    } else {
        Seq::empty()
    }
}

/// The JSON array of a candidate list.
pub open spec fn spec_candidates_json(s: Seq<CandidateV>) -> Seq<char> {
    seq!['['] + spec_candidates_items(s, 0) + seq![']']
}

/// Render a candidate list as a JSON array of `target`/`reason` objects.
pub fn candidates_json(cands: &Vec<Candidate>) -> (r: Vec<char>)
    ensures
        r@ == spec_candidates_json(view_candidates(cands@)),
{
    let ghost cv = view_candidates(cands@);
    let mut out: Vec<char> = Vec::new();
    out.push('[');
    let ghost base = out@;
    let mut i: usize = 0;
    proof {
        assert(base =~= seq!['[']);
    }
    while i < cands.len()
        invariant
            i <= cands@.len(),
            cv == view_candidates(cands@),
            cv.len() == cands@.len(),
            base == seq!['['],
            base + spec_candidates_items(cv, 0) == out@ + spec_candidates_items(cv, i as int),
        decreases cands@.len() - i,
    {
        let ghost pre = out@;
        if i > 0 {
            out.push(',');
        }
        let c = &cands[i];
        push_str_chars(&mut out, "{\"target\":");
        push_json_string(&mut out, &c.target);
        push_str_chars(&mut out, ",\"reason\":");
        push_json_string(&mut out, &c.reason);
        out.push('}');
        proof {
            assert(cv[i as int] == view_candidate(cands@[i as int]));
            assert(out@ =~= pre + ((if i > 0 {
                seq![',']
            } else {
                Seq::<char>::empty()
            }) + spec_candidate_json(cv[i as int])));
        }
        i = i + 1;
    }
    proof {
        assert(spec_candidates_items(cv, cv.len() as int) =~= Seq::<char>::empty());
        assert(out@ + Seq::<char>::empty() =~= out@);
    }
    out.push(']');
    proof {
        assert(out@ =~= spec_candidates_json(cv));
    }
    out
}

/// The JSON entries of the kind tags from position `i` on.
pub open spec fn spec_kinds_items(s: Seq<Seq<char>>, i: int) -> Seq<char>
    decreases s.len() - i,
{
    if 0 <= i < s.len() {
        (if i > 0 {
            seq![',']
        } else {
            Seq::empty()
        }) + spec_json_string(s[i]) + spec_kinds_items(s, i + 1)
    } else {
        Seq::empty()
    }
}

/// The JSON array of a kind-tag list.
pub open spec fn spec_kinds_json(s: Seq<Seq<char>>) -> Seq<char> {
    seq!['['] + spec_kinds_items(s, 0) + seq![']']
}

/// Render a kind-tag list as a JSON array of strings.
pub fn kinds_json(kinds: &Vec<Vec<char>>) -> (r: Vec<char>)
    ensures
        r@ == spec_kinds_json(view_texts(kinds@)),
{
    let ghost kv = view_texts(kinds@);
    let mut out: Vec<char> = Vec::new();
    out.push('[');
    let ghost base = out@;
    let mut i: usize = 0;
    proof {
        assert(base =~= seq!['[']);
    }
    while i < kinds.len()
        invariant
            i <= kinds@.len(),
            kv == view_texts(kinds@),
            kv.len() == kinds@.len(),
            base == seq!['['],
            base + spec_kinds_items(kv, 0) == out@ + spec_kinds_items(kv, i as int),
        decreases kinds@.len() - i,
    {
        let ghost pre = out@;
        if i > 0 {
            out.push(',');
        }
        push_json_string(&mut out, &kinds[i]);
        proof {
            assert(kv[i as int] == kinds@[i as int]@);
            assert(out@ =~= pre + ((if i > 0 {
                seq![',']
            } else {
                Seq::<char>::empty()
            }) + spec_json_string(kv[i as int])));
        }
        i = i + 1;
    }
    proof {
        assert(spec_kinds_items(kv, kv.len() as int) =~= Seq::<char>::empty());
        assert(out@ + Seq::<char>::empty() =~= out@);
    }
    out.push(']');
    proof {
        assert(out@ =~= spec_kinds_json(kv));
    }
    out
}

/// The JSON object of one symbol reference.
pub open spec fn spec_symref_json(s: SymbolRefV) -> Seq<char> {
    "{\"file\":"@ + spec_json_string(s.file) + ",\"local\":"@ + spec_json_string(s.local)
        + ",\"path\":"@ + spec_json_string(s.path) + ",\"span\":"@ + spec_json_string(s.span)
        + seq!['}']
}

/// The JSON entries of the symbol references from position `i` on.
pub open spec fn spec_symrefs_items(s: Seq<SymbolRefV>, i: int) -> Seq<char>
    decreases s.len() - i,
{
    if 0 <= i < s.len() {
        (if i > 0 {
            seq![',']
        } else {
            Seq::empty()
        }) + spec_symref_json(s[i]) + spec_symrefs_items(s, i + 1)
    } else {
        Seq::empty()
    }
}

/// The JSON array of a symbol-reference list.
pub open spec fn spec_symrefs_json(s: Seq<SymbolRefV>) -> Seq<char> {
    seq!['['] + spec_symrefs_items(s, 0) + seq![']']
}

/// Render a symbol-reference list as a JSON array of objects.
#[verifier::rlimit(60)]
#[verifier::spinoff_prover]
pub fn symrefs_json(refs: &Vec<SymbolRef>) -> (r: Vec<char>)
    ensures
        r@ == spec_symrefs_json(view_symrefs(refs@)),
{
    let ghost sv = view_symrefs(refs@);
    let mut out: Vec<char> = Vec::new();
    out.push('[');
    let ghost base = out@;
    let mut i: usize = 0;
    proof {
        assert(base =~= seq!['[']);
    }
    while i < refs.len()
        invariant
            i <= refs@.len(),
            sv == view_symrefs(refs@),
            sv.len() == refs@.len(),
            base == seq!['['],
            base + spec_symrefs_items(sv, 0) == out@ + spec_symrefs_items(sv, i as int),
        decreases refs@.len() - i,
    {
        let ghost pre = out@;
        if i > 0 {
            out.push(',');
        }
        let s = &refs[i];
        push_str_chars(&mut out, "{\"file\":");
        push_json_string(&mut out, &s.file);
        push_str_chars(&mut out, ",\"local\":");
        push_json_string(&mut out, &s.local);
        push_str_chars(&mut out, ",\"path\":");
        push_json_string(&mut out, &s.path);
        push_str_chars(&mut out, ",\"span\":");
        push_json_string(&mut out, &s.span);
        out.push('}');
        proof {
            assert(sv[i as int] == view_symref(refs@[i as int]));
            assert(out@ =~= pre + ((if i > 0 {
                seq![',']
            } else {
                Seq::<char>::empty()
            }) + spec_symref_json(sv[i as int])));
        }
        i = i + 1;
    }
    proof {
        assert(spec_symrefs_items(sv, sv.len() as int) =~= Seq::<char>::empty());
        assert(out@ + Seq::<char>::empty() =~= out@);
    }
    out.push(']');
    proof {
        assert(out@ =~= spec_symrefs_json(sv));
    }
    out
}

} // verus!
