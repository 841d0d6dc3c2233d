//! The span resolver: byte ranges rendered as `file:startLine-endLine`
//! tags, and the path normalization that runs before any tag is rendered.

use vstd::prelude::*;
use crate::ByteSpan;
use crate::text::{dec_digits, has_prefix, push_all, push_str_chars, push_usize_decimal,
    replace, replace_char, replace_char_seq, replace_seq, strip_prefix, text_of, usize_decimal};

verus! {

/// The line table of one source file: the file's name as the build tool
/// reports it, and the byte offset at which each line starts.
pub struct SourceInfo {
    pub file: Vec<char>,
    pub line_starts: Vec<u32>,
}

/// The mathematical value of a line table.
pub struct SourceInfoV {
    pub file: Seq<char>,
    pub line_starts: Seq<u32>,
}

pub open spec fn view_source(s: SourceInfo) -> SourceInfoV {
    SourceInfoV { file: s.file@, line_starts: s.line_starts@ }
}

pub open spec fn view_source_opt(s: Option<SourceInfo>) -> Option<SourceInfoV> {
    match s {
        Some(v) => Some(view_source(v)),
        None => None,
    }
}

/// How many line starts lie at or before `off`: the 1-based line number of
/// the offset, on a table whose first entry is 0.
pub open spec fn spec_line_of(starts: Seq<u32>, off: u32) -> nat
    decreases starts.len(),
{
    if starts.len() == 0 {
        0
    } else {
        spec_line_of(starts.drop_last(), off) + if starts.last() <= off {
            1nat
        } else {
            0nat
        }
    }
}

/// The 1-based line number of a byte offset.
pub fn line_of(starts: &Vec<u32>, off: u32) -> (r: usize)
    ensures
        r == spec_line_of(starts@, off),
{
    let mut count: usize = 0;
    let mut i: usize = 0;
    while i < starts.len()
        invariant
            i <= starts@.len(),
            count == spec_line_of(starts@.subrange(0, i as int), off),
            count <= i,
        decreases starts@.len() - i,
    {
        if starts[i] <= off {
            count = count + 1;
        }
        proof {
            let pre = starts@.subrange(0, i + 1 as int);
            assert(pre.drop_last() =~= starts@.subrange(0, i as int));
            assert(pre.last() == starts@[i as int]);
        }
        i = i + 1;
    }
    proof {
        assert(starts@.subrange(0, starts@.len() as int) =~= starts@);
    }
    count
}

/// Normalize bundler- and debugger-style file names: flip backslashes,
/// decode the bracketed project marker, and strip the known URL and
/// build-root prefixes.
pub open spec fn spec_normalize(s: Seq<char>) -> Seq<char> {
    let a = replace_char_seq(s, '\\', '/');
    let b = replace_seq(a, "%5Bproject%5D"@, "[project]"@);
    let c = replace_seq(b, "%5bproject%5d"@, "[project]"@);
    let d = if has_prefix(c, "file:///"@) {
        c.skip("file:///"@.len() as int)
    } else if has_prefix(c, "file://"@) {
        c.skip("file://"@.len() as int)
    } else {
        c
    };
    if has_prefix(d, "turbopack/[project]/"@) {
        d.skip("turbopack/[project]/"@.len() as int)
    } else if has_prefix(d, "/turbopack/[project]/"@) {
        d.skip("/turbopack/[project]/"@.len() as int)
    } else if has_prefix(d, "[project]/"@) {
        d.skip("[project]/"@.len() as int)
    } else {
        d
    }
}

/// Normalize a file name as [`spec_normalize`] describes.
pub fn normalize_filename(filename: &Vec<char>) -> (r: Vec<char>)
    ensures
        r@ == spec_normalize(filename@),
{
    let a = replace_char(filename, '\\', '/');
    let pat_upper = text_of("%5Bproject%5D");
    let pat_lower = text_of("%5bproject%5d");
    let marker = text_of("[project]");
    let b = replace(&a, &pat_upper, &marker);
    let c = replace(&b, &pat_lower, &marker);
    let file3 = text_of("file:///");
    let file2 = text_of("file://");
    let d = match strip_prefix(&c, &file3) {
        Some(rest) => rest,
        None => match strip_prefix(&c, &file2) {
            Some(rest) => rest,
            None => c,
        },
    };
    let p1 = text_of("turbopack/[project]/");
    let p2 = text_of("/turbopack/[project]/");
    let p3 = text_of("[project]/");
    match strip_prefix(&d, &p1) {
        Some(rest) => rest,
        None => match strip_prefix(&d, &p2) {
            Some(rest) => rest,
            None => match strip_prefix(&d, &p3) {
                Some(rest) => rest,
                None => d,
            },
        },
    }
}

/// The sentinel tag of a synthetic or unresolvable range.
pub open spec fn spec_unknown_tag() -> Seq<char> {
    "unknown:0-0"@
}

/// The `file:startLine-endLine` tag of a byte range: the sentinel for a
/// synthetic range or a missing line table, else the normalized file name
/// with the 1-based lines of the range's two ends.
pub open spec fn spec_span_tag(span: ByteSpan, src: Option<SourceInfoV>) -> Seq<char> {
    if span.spec_is_dummy() || src is None {
        spec_unknown_tag()
    } else {
        let info = src->0;
        spec_normalize(info.file) + seq![':'] + dec_digits(
            spec_line_of(info.line_starts, span.lo),
        ) + seq!['-'] + dec_digits(spec_line_of(info.line_starts, span.hi))
    }
}

/// Render a byte range as its `file:startLine-endLine` tag.
pub fn span_file_lines(src: &Option<SourceInfo>, span: ByteSpan) -> (r: Vec<char>)
    ensures
        r@ == spec_span_tag(span, view_source_opt(*src)),
{
    if span.is_dummy() {
        return text_of("unknown:0-0");
    }
    match src {
        None => text_of("unknown:0-0"),
        Some(info) => {
            let mut r = normalize_filename(&info.file);
            r.push(':');
            let lo_line = line_of(&info.line_starts, span.lo);
            push_usize_decimal(&mut r, lo_line);
            r.push('-');
            let hi_line = line_of(&info.line_starts, span.hi);
            push_usize_decimal(&mut r, hi_line);
            proof {
                assert(r@ =~= spec_span_tag(span, view_source_opt(*src)));
            }
            r
        },
    }
}

/// The `startLine-endLine` part alone, for an element whose end is taken
/// from an enclosing range: nothing for a synthetic range or a missing
/// line table.
pub open spec fn spec_line_info(open_span: ByteSpan, parent_span: Option<ByteSpan>, src: Option<
    SourceInfoV,
>) -> Option<Seq<char>> {
    if open_span.spec_is_dummy() || src is None {
        None
    } else {
        let end = match parent_span {
            Some(p) => p,
            None => open_span,
        };
        if end.spec_is_dummy() {
            None
        } else {
            let info = src->0;
            Some(
                dec_digits(spec_line_of(info.line_starts, open_span.lo)) + seq!['-'] + dec_digits(
                    spec_line_of(info.line_starts, end.hi),
                ),
            )
        }
    }
}

/// Render the `startLine-endLine` part of a range, the end taken from the
/// enclosing range when one is given.
pub fn get_line_info(src: &Option<SourceInfo>, open_span: ByteSpan, parent_span: Option<ByteSpan>)
    -> (r: Option<Vec<char>>)
    ensures
        (match spec_line_info(open_span, parent_span, view_source_opt(*src)) {
            Some(t) => r is Some && r->0@ == t,
            None => r is None,
        }),
{
    if open_span.is_dummy() {
        return None;
    }
    match src {
        None => None,
        Some(info) => {
            let end = match parent_span {
                Some(p) => p,
                None => open_span,
            };
            if end.is_dummy() {
                return None;
            }
            let mut r = usize_decimal(line_of(&info.line_starts, open_span.lo));
            r.push('-');
            push_usize_decimal(&mut r, line_of(&info.line_starts, end.hi));
            proof {
                assert(Some(r@) =~= spec_line_info(
                    open_span,
                    parent_span,
                    view_source_opt(*src),
                ));
            }
            Some(r)
        },
    }
}

} // verus!
