//! Small verified helpers for working with character texts.
//!
//! Throughout the library a piece of source text (an identifier, a file
//! name, an attribute value) is carried as a `Vec<char>`, whose view is the
//! `Seq<char>` the contracts speak about.

use vstd::prelude::*;

verus! {

/// Does `s` start with `p`?
pub open spec fn has_prefix(s: Seq<char>, p: Seq<char>) -> bool {
    p.len() <= s.len() && s.subrange(0, p.len() as int) == p
}

/// `s` with every occurrence of `from` replaced by `to`.
pub open spec fn replace_char_seq(s: Seq<char>, from: char, to: char) -> Seq<char> {
    s.map_values(|c: char| if c == from { to } else { c })
}

/// Leftmost, non-overlapping replacement of `pat` by `rep`, as
/// `str::replace` performs it. An empty pattern replaces nothing.
pub open spec fn replace_seq(s: Seq<char>, pat: Seq<char>, rep: Seq<char>) -> Seq<char>
    decreases s.len(),
{
    if pat.len() == 0 || s.len() < pat.len() {
        s
    } else if s.subrange(0, pat.len() as int) == pat {
        rep + replace_seq(s.skip(pat.len() as int), pat, rep)
    } else {
        seq![s[0]] + replace_seq(s.skip(1), pat, rep)
    }
}

/// Copy a borrowed string into an owned character vector.
pub fn text_of(s: &str) -> (r: Vec<char>)
    ensures
        r@ == s@,
{
    let n = s.unicode_len();
    let mut r: Vec<char> = Vec::new();
    let mut i: usize = 0;
    while i < n
        invariant
            n == s@.len(),
            i <= n,
            r@ == s@.subrange(0, i as int),
        decreases n - i,
    {
        r.push(s.get_char(i));
        assert(r@ =~= s@.subrange(0, i + 1 as int));
        i = i + 1;
    }
    assert(r@ =~= s@);
    r
}

/// An owned copy of a text.
pub fn clone_text(s: &Vec<char>) -> (r: Vec<char>)
    ensures
        r@ == s@,
{
    let mut r: Vec<char> = Vec::new();
    push_all(&mut r, s);
    assert(r@ =~= s@);
    r
}

/// Character-for-character equality of two texts.
pub fn text_eq(a: &Vec<char>, b: &Vec<char>) -> (r: bool)
    ensures
        r == (a@ == b@),
{
    if a.len() != b.len() {
        assert(a@ != b@) by {
            assert(a@.len() != b@.len());
        }
        return false;
    }
    let mut i: usize = 0;
    while i < a.len()
        invariant
            a@.len() == b@.len(),
            i <= a@.len(),
            forall|j: int| 0 <= j < i ==> a@[j] == b@[j],
        decreases a@.len() - i,
    {
        if a[i] != b[i] {
            return false;
        }
        i = i + 1;
    }
    assert(a@ =~= b@);
    true
}

/// Append the whole of `src` onto `dst`.
pub fn push_all(dst: &mut Vec<char>, src: &Vec<char>)
    ensures
        final(dst)@ == old(dst)@ + src@,
{
    let mut i: usize = 0;
    while i < src.len()
        invariant
            i <= src@.len(),
            dst@ == old(dst)@ + src@.subrange(0, i as int),
        decreases src@.len() - i,
    {
        dst.push(src[i]);
        assert(dst@ =~= old(dst)@ + src@.subrange(0, i + 1 as int));
        i = i + 1;
    }
    assert(dst@ =~= old(dst)@ + src@);
}

/// Append every character of a borrowed string onto `dst`.
pub fn push_str_chars(dst: &mut Vec<char>, src: &str)
    ensures
        final(dst)@ == old(dst)@ + src@,
{
    let n = src.unicode_len();
    let mut i: usize = 0;
    while i < n
        invariant
            n == src@.len(),
            i <= n,
            dst@ == old(dst)@ + src@.subrange(0, i as int),
        decreases n - i,
    {
        dst.push(src.get_char(i));
        assert(dst@ =~= old(dst)@ + src@.subrange(0, i + 1 as int));
        i = i + 1;
    }
    assert(dst@ =~= old(dst)@ + src@);
}

/// Does `s` start with `p`?
pub fn starts_with(s: &Vec<char>, p: &Vec<char>) -> (r: bool)
    ensures
        r == has_prefix(s@, p@),
{
    if p.len() > s.len() {
        return false;
    }
    let mut i: usize = 0;
    while i < p.len()
        invariant
            p@.len() <= s@.len(),
            i <= p@.len(),
            forall|j: int| 0 <= j < i ==> s@[j] == p@[j],
        decreases p@.len() - i,
    {
        if s[i] != p[i] {
            assert(s@.subrange(0, p@.len() as int)[i as int] != p@[i as int]);
            return false;
        }
        i = i + 1;
    }
    assert(s@.subrange(0, p@.len() as int) =~= p@);
    true
}

/// Everything after the prefix `p`, when `s` starts with it.
pub fn strip_prefix(s: &Vec<char>, p: &Vec<char>) -> (r: Option<Vec<char>>)
    ensures
        has_prefix(s@, p@) ==> r is Some && r->0@ == s@.skip(p@.len() as int),
        !has_prefix(s@, p@) ==> r is None,
{
    if !starts_with(s, p) {
        return None;
    }
    let mut rest: Vec<char> = Vec::new();
    let mut i: usize = p.len();
    while i < s.len()
        invariant
            p@.len() <= i <= s@.len(),
            rest@ == s@.subrange(p@.len() as int, i as int),
        decreases s@.len() - i,
    {
        rest.push(s[i]);
        assert(rest@ =~= s@.subrange(p@.len() as int, i + 1 as int));
        i = i + 1;
    }
    assert(rest@ =~= s@.skip(p@.len() as int));
    Some(rest)
}

/// Replace every occurrence of the character `from` by `to`.
pub fn replace_char(s: &Vec<char>, from: char, to: char) -> (r: Vec<char>)
    ensures
        r@ == replace_char_seq(s@, from, to),
{
    let mut r: Vec<char> = Vec::new();
    let mut i: usize = 0;
    while i < s.len()
        invariant
            i <= s@.len(),
            r@ == replace_char_seq(s@.subrange(0, i as int), from, to),
        decreases s@.len() - i,
    {
        let c = s[i];
        if c == from {
            r.push(to);
        } else {
            r.push(c);
        }
        assert(r@ =~= replace_char_seq(s@.subrange(0, i + 1 as int), from, to)) by {
            assert(s@.subrange(0, i + 1 as int) =~= s@.subrange(0, i as int).push(s@[i as int]));
        }
        i = i + 1;
    }
    assert(s@.subrange(0, s@.len() as int) =~= s@);
    r
}

/// One unfolding step of [`replace_seq`] at a position with no match.
proof fn lemma_replace_step_miss(s: Seq<char>, pat: Seq<char>, rep: Seq<char>)
    requires
        pat.len() > 0,
        s.len() > 0,
        s.len() < pat.len() || s.subrange(0, pat.len() as int) != pat,
    ensures
        replace_seq(s, pat, rep) == seq![s[0]] + replace_seq(s.skip(1), pat, rep),
{
    if s.len() < pat.len() {
        assert(s.skip(1).len() < pat.len());
        assert(replace_seq(s.skip(1), pat, rep) == s.skip(1));
        assert(replace_seq(s, pat, rep) == s);
        assert(s =~= seq![s[0]] + s.skip(1));
    }
}

/// Replace every leftmost, non-overlapping occurrence of `pat` by `rep`.
pub fn replace(s: &Vec<char>, pat: &Vec<char>, rep: &Vec<char>) -> (r: Vec<char>)
    ensures
        r@ == replace_seq(s@, pat@, rep@),
{
    if pat.len() == 0 {
        let mut r: Vec<char> = Vec::new();
        push_all(&mut r, s);
        assert(r@ =~= s@);
        return r;
    }
    let mut r: Vec<char> = Vec::new();
    let mut i: usize = 0;
    proof {
        assert(s@.skip(0) =~= s@);
        assert(r@ + replace_seq(s@, pat@, rep@) =~= replace_seq(s@, pat@, rep@));
    }
    while i < s.len()
        invariant
            pat@.len() > 0,
            i <= s@.len(),
            replace_seq(s@, pat@, rep@) == r@ + replace_seq(s@.skip(i as int), pat@, rep@),
        decreases s@.len() - i,
    {
        let ghost pre = r@;
        let ghost tail = s@.skip(i as int);
        let mut matched = false;
        if pat.len() <= s.len() - i {
            // compare s[i .. i+pat.len()] with pat
            let mut j: usize = 0;
            let mut all_eq = true;
            while j < pat.len()
                invariant
                    i + pat@.len() <= s.len(),
                    0 <= i <= s@.len(),
                    j <= pat@.len(),
                    all_eq == (forall|k: int| 0 <= k < j ==> s@[i + k] == pat@[k]),
                decreases pat@.len() - j,
            {
                if s[i + j] != pat[j] {
                    all_eq = false;
                    assert(s@[i + j] != pat@[j as int]);
                    j = pat.len();
                } else {
                    assert(all_eq ==> forall|k: int| 0 <= k < j + 1 ==> s@[i + k] == pat@[k]);
                    j = j + 1;
                }
            }
            matched = all_eq;
            proof {
                if matched {
                    assert(tail.len() >= pat@.len());
                    assert(tail.subrange(0, pat@.len() as int) =~= pat@) by {
                        assert(forall|k: int|
                            0 <= k < pat@.len() ==> tail[k] == s@[i + k] && s@[i + k] == pat@[k]);
                    }
                } else {
                    assert(exists|k: int| 0 <= k < pat@.len() && s@[i + k] != pat@[k]);
                    let k = choose|k: int| 0 <= k < pat@.len() && s@[i + k] != pat@[k];
                    assert(tail.subrange(0, pat@.len() as int)[k] == s@[i + k]);
                    assert(tail.subrange(0, pat@.len() as int) != pat@);
                }
            }
        } else {
            proof {
                assert(tail.len() < pat@.len());
            }
        }
        if matched {
            push_all(&mut r, rep);
            i = i + pat.len();
            proof {
                assert(replace_seq(tail, pat@, rep@) == rep@ + replace_seq(
                    tail.skip(pat@.len() as int),
                    pat@,
                    rep@,
                ));
                assert(tail.skip(pat@.len() as int) =~= s@.skip(i as int));
                assert(pre + replace_seq(tail, pat@, rep@) =~= r@ + replace_seq(
                    s@.skip(i as int),
                    pat@,
                    rep@,
                ));
            }
        } else {
            r.push(s[i]);
            i = i + 1;
            proof {
                lemma_replace_step_miss(tail, pat@, rep@);
                assert(tail.skip(1) =~= s@.skip(i as int));
                assert(tail[0] == s@[i - 1]);
                assert(pre + replace_seq(tail, pat@, rep@) =~= r@ + replace_seq(
                    s@.skip(i as int),
                    pat@,
                    rep@,
                ));
            }
        }
    }
    proof {
        assert(s@.skip(s@.len() as int) =~= Seq::<char>::empty());
        assert(replace_seq(Seq::<char>::empty(), pat@, rep@) =~= Seq::<char>::empty());
        assert(r@ + Seq::<char>::empty() =~= r@);
    }
    r
}

/// The decimal digits of `n`, most significant first.
pub open spec fn dec_digits(n: nat) -> Seq<char>
    decreases n,
{
    let last = digit_char((n % 10) as nat);
    if n < 10 {
        seq![last]
    } else {
        dec_digits(n / 10).push(last)
    }
}

/// The character for one decimal digit value.
pub open spec fn digit_char(d: nat) -> char {
    if d == 0 {
        '0'
    } else if d == 1 {
        '1'
    } else if d == 2 {
        '2'
    } else if d == 3 {
        '3'
    } else if d == 4 {
        '4'
    } else if d == 5 {
        '5'
    } else if d == 6 {
        '6'
    } else if d == 7 {
        '7'
    } else if d == 8 {
        '8'
    } else {
        '9'
    }
}

fn digit_to_char(d: usize) -> (c: char)
    requires
        d < 10,
    ensures
        c == digit_char(d as nat),
{
    match d {
        0 => '0',
        1 => '1',
        2 => '2',
        3 => '3',
        4 => '4',
        5 => '5',
        6 => '6',
        7 => '7',
        8 => '8',
        _ => '9',
    }
}

/// Append the decimal rendering of `n` onto `dst`.
pub fn push_usize_decimal(dst: &mut Vec<char>, n: usize)
    ensures
        final(dst)@ == old(dst)@ + dec_digits(n as nat),
{
    let digits = usize_decimal(n);
    push_all(dst, &digits);
}

/// The decimal rendering of `n`.
pub fn usize_decimal(n: usize) -> (r: Vec<char>)
    ensures
        r@ == dec_digits(n as nat),
    decreases n,
{
    if n < 10 {
        let mut r: Vec<char> = Vec::new();
        r.push(digit_to_char(n));
        assert(r@ =~= dec_digits(n as nat));
        r
    } else {
        let mut r = usize_decimal(n / 10);
        r.push(digit_to_char(n % 10));
        assert(r@ =~= dec_digits(n as nat));
        r
    }
}

} // verus!
