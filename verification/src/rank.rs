//! The candidate ranker and kind aggregator: a provenance chain reduced to
//! a deduplicated, order-preserving list of edit candidates, and to a
//! sorted set of short source-kind tags.

use vstd::prelude::*;
use crate::text::{clone_text, text_eq, text_of};
use crate::trace::{ProvNode, ProvNodeV, view_node, view_nodes};

verus! {

/// One edit candidate: a plausible upstream source location for an
/// observed value, with the reason it was suggested.
pub struct Candidate {
    pub target: Vec<char>,
    pub reason: Vec<char>,
}

pub struct CandidateV {
    pub target: Seq<char>,
    pub reason: Seq<char>,
}

pub open spec fn view_candidate(c: Candidate) -> CandidateV {
    CandidateV { target: c.target@, reason: c.reason@ }
}

pub open spec fn view_candidates(s: Seq<Candidate>) -> Seq<CandidateV> {
    Seq::new(s.len(), |i: int| view_candidate(s[i]))
}

/// The pair that identifies a candidate for deduplication.
pub open spec fn cand_key(c: CandidateV) -> (Seq<char>, Seq<char>) {
    (c.reason, c.target)
}

/// The candidates one provenance node contributes, in order: a call yields
/// its call site and, when known, its function definition; identifiers and
/// operators yield none.
pub open spec fn spec_node_candidates(n: ProvNodeV) -> Seq<CandidateV> {
    match n {
        ProvNodeV::Literal { span, .. } => seq![CandidateV { target: span, reason: "literal"@ }],
        ProvNodeV::Init { span } => seq![CandidateV { target: span, reason: "const-init"@ }],
        ProvNodeV::Member { span } => seq![CandidateV { target: span, reason: "member"@ }],
        ProvNodeV::ObjectProp { span, .. } => seq![
            CandidateV { target: span, reason: "structural"@ },
        ],
        ProvNodeV::ArrayElem { span, .. } => seq![
            CandidateV { target: span, reason: "structural"@ },
        ],
        ProvNodeV::Call { callsite, fn_def_span, .. } => {
            let first = seq![CandidateV { target: callsite, reason: "callsite"@ }];
            match fn_def_span {
                Some(def) => first + seq![CandidateV { target: def, reason: "fn-def"@ }],
                None => first,
            }
        },
        ProvNodeV::Ctor { span, .. } => seq![
            CandidateV { target: span, reason: "constructor"@ },
        ],
        ProvNodeV::Import { span, .. } => seq![CandidateV { target: span, reason: "import"@ }],
        ProvNodeV::Env { span, .. } => seq![CandidateV { target: span, reason: "env"@ }],
        ProvNodeV::Fetch { span, .. } => seq![CandidateV { target: span, reason: "fetch"@ }],
        _ => seq![],
    }
}

/// Every candidate of every node of the chain, in chain order.
pub open spec fn spec_raw_candidates(chain: Seq<ProvNodeV>) -> Seq<CandidateV>
    decreases chain.len(),
{
    if chain.len() == 0 {
        seq![]
    } else {
        spec_raw_candidates(chain.drop_last()) + spec_node_candidates(chain.last())
    }
}

/// Does the list hold a candidate with this `(reason, target)` pair?
pub open spec fn has_key(s: Seq<CandidateV>, k: (Seq<char>, Seq<char>)) -> bool {
    exists|i: int| 0 <= i < s.len() && cand_key(s[i]) == k
}

/// The list with every repeated `(reason, target)` pair dropped, keeping
/// first occurrences in order.
pub open spec fn spec_dedup(s: Seq<CandidateV>) -> Seq<CandidateV>
    decreases s.len(),
{
    if s.len() == 0 {
        seq![]
    } else {
        let pre = spec_dedup(s.drop_last());
        if has_key(s.drop_last(), cand_key(s.last())) {
            pre
        } else {
            pre.push(s.last())
        }
    }
}

/// Deduplication keeps exactly the keys of the input.
pub proof fn lemma_dedup_keys(s: Seq<CandidateV>)
    ensures
        forall|k: (Seq<char>, Seq<char>)| has_key(spec_dedup(s), k) == has_key(s, k),
    decreases s.len(),
{
    if s.len() > 0 {
        lemma_dedup_keys(s.drop_last());
        let pre = spec_dedup(s.drop_last());
        assert forall|k: (Seq<char>, Seq<char>)| has_key(spec_dedup(s), k) == has_key(s, k) by {
            if has_key(s, k) {
                let i = choose|i: int| 0 <= i < s.len() && cand_key(s[i]) == k;
                if i < s.len() - 1 {
                    assert(s.drop_last()[i] == s[i]);
                    assert(has_key(s.drop_last(), k));
                }
                if !has_key(spec_dedup(s), k) {
                    if has_key(pre, k) {
                        let j = choose|j: int| 0 <= j < pre.len() && cand_key(pre[j]) == k;
                        assert(spec_dedup(s)[j] == pre[j]);
                        assert(false);
                    }
                    assert(!has_key(s.drop_last(), k));
                    assert(i == s.len() - 1);
                    assert(cand_key(spec_dedup(s).last()) == k);
                    assert(false);
                }
            }
            if has_key(spec_dedup(s), k) {
                let i = choose|i: int|
                    0 <= i < spec_dedup(s).len() && cand_key(spec_dedup(s)[i]) == k;
                if i < pre.len() {
                    assert(spec_dedup(s)[i] == pre[i]);
                    assert(has_key(pre, k));
                    assert(has_key(s.drop_last(), k));
                    let j = choose|j: int|
                        0 <= j < s.drop_last().len() && cand_key(s.drop_last()[j]) == k;
                    assert(s[j] == s.drop_last()[j]);
                    assert(has_key(s, k));
                } else {
                    assert(spec_dedup(s)[i] == s.last());
                    assert(cand_key(s.last()) == k);
                    assert(has_key(s, k));
                }
            }
        }
    }
}

/// No two entries of a deduplicated list share a `(reason, target)` pair.
pub proof fn lemma_dedup_no_duplicates(s: Seq<CandidateV>)
    ensures
        forall|i: int, j: int|
            0 <= i < j < spec_dedup(s).len() ==> cand_key(spec_dedup(s)[i]) != cand_key(
                spec_dedup(s)[j],
            ),
    decreases s.len(),
{
    if s.len() > 0 {
        lemma_dedup_no_duplicates(s.drop_last());
        lemma_dedup_keys(s.drop_last());
        let pre = spec_dedup(s.drop_last());
        assert forall|i: int, j: int|
            0 <= i < j < spec_dedup(s).len() implies cand_key(spec_dedup(s)[i]) != cand_key(
            spec_dedup(s)[j],
        ) by {
            if j < pre.len() {
                assert(spec_dedup(s)[i] == pre[i] && spec_dedup(s)[j] == pre[j]);
            } else {
                assert(!has_key(s.drop_last(), cand_key(s.last())));
                assert(spec_dedup(s)[j] == s.last());
                assert(spec_dedup(s)[i] == pre[i]);
                if cand_key(pre[i]) == cand_key(s.last()) {
                    assert(has_key(pre, cand_key(s.last())));
                    assert(false);
                }
            }
        }
    }
}

/// The ranked candidates of a chain: each node's candidates in chain
/// order, deduplicated by `(reason, target)` with first occurrences kept.
pub open spec fn spec_rank(chain: Seq<ProvNodeV>) -> Seq<CandidateV> {
    spec_dedup(spec_raw_candidates(chain))
}

/// Does the list already hold this `(reason, target)` pair?
fn contains_key(out: &Vec<Candidate>, reason: &Vec<char>, target: &Vec<char>) -> (r: bool)
    ensures
        r == has_key(view_candidates(out@), (reason@, target@)),
{
    let mut i: usize = 0;
    while i < out.len()
        invariant
            i <= out@.len(),
            forall|j: int| 0 <= j < i ==> cand_key(view_candidates(out@)[j]) != (reason@, target@),
        decreases out@.len() - i,
    {
        let c = &out[i];
        if text_eq(&c.reason, reason) && text_eq(&c.target, target) {
            proof {
                assert(cand_key(view_candidates(out@)[i as int]) == (reason@, target@));
            }
            return true;
        }
        proof {
            assert(view_candidates(out@)[i as int] == view_candidate(out@[i as int]));
        }
        i = i + 1;
    }
    false
}

/// Append the candidate unless its `(reason, target)` pair is present.
fn add_candidate(out: &mut Vec<Candidate>, target: Vec<char>, reason: Vec<char>)
    ensures
        view_candidates(final(out)@) == (if has_key(
            view_candidates(old(out)@),
            (reason@, target@),
        ) {
            view_candidates(old(out)@)
        } else {
            view_candidates(old(out)@).push(CandidateV { target: target@, reason: reason@ })
        }),
{
    if !contains_key(out, &reason, &target) {
        let ghost pre = view_candidates(out@);
        out.push(Candidate { target, reason });
        proof {
            assert(view_candidates(out@) =~= pre.push(
                CandidateV { target: target@, reason: reason@ },
            ));
        }
    }
}

/// One deduplication step for each appended candidate.
proof fn lemma_dedup_push(s: Seq<CandidateV>, x: CandidateV)
    ensures
        spec_dedup(s.push(x)) == (if has_key(s, cand_key(x)) {
            spec_dedup(s)
        } else {
            spec_dedup(s).push(x)
        }),
{
    assert(s.push(x).drop_last() =~= s);
    assert(s.push(x).last() == x);
}

/// Rank a chain: map each node to its candidates, keep first occurrences
/// of each `(reason, target)` pair, preserve order. The result never holds
/// two entries with an equal `(reason, target)` pair.
pub fn rank_candidates(chain: &Vec<ProvNode>) -> (r: Vec<Candidate>)
    ensures
        view_candidates(r@) == spec_rank(view_nodes(chain@)),
        forall|i: int, j: int|
            0 <= i < j < r@.len() ==> cand_key(view_candidates(r@)[i]) != cand_key(
                view_candidates(r@)[j],
            ),
{
    let ghost nodes = view_nodes(chain@);
    let mut out: Vec<Candidate> = Vec::new();
    let mut i: usize = 0;
    proof {
        assert(view_candidates(out@) =~= Seq::<CandidateV>::empty());
        assert(nodes.take(0) =~= Seq::<ProvNodeV>::empty());
        assert(spec_raw_candidates(nodes.take(0)) =~= Seq::<CandidateV>::empty());
    }
    while i < chain.len()
        invariant
            i <= chain@.len(),
            nodes == view_nodes(chain@),
            nodes.len() == chain@.len(),
            view_candidates(out@) == spec_dedup(spec_raw_candidates(nodes.take(i as int))),
        decreases chain@.len() - i,
    {
        let ghost raw_pre = spec_raw_candidates(nodes.take(i as int));
        proof {
            assert(nodes.take(i + 1 as int).drop_last() =~= nodes.take(i as int));
            assert(nodes.take(i + 1 as int).last() == nodes[i as int]);
            assert(nodes[i as int] == view_node(chain@[i as int]));
            lemma_dedup_keys(raw_pre);
        }
        let node = &chain[i];
        match node {
            ProvNode::Literal { span, .. } => {
                let ghost x = CandidateV { target: span@, reason: "literal"@ };
                proof {
                    lemma_dedup_push(raw_pre, x);
                    assert(spec_raw_candidates(nodes.take(i + 1 as int)) =~= raw_pre.push(x));
                }
                add_candidate(&mut out, clone_text(span), text_of("literal"));
            },
            ProvNode::Init { span } => {
                let ghost x = CandidateV { target: span@, reason: "const-init"@ };
                proof {
                    lemma_dedup_push(raw_pre, x);
                    assert(spec_raw_candidates(nodes.take(i + 1 as int)) =~= raw_pre.push(x));
                }
                add_candidate(&mut out, clone_text(span), text_of("const-init"));
            },
            ProvNode::Member { span } => {
                let ghost x = CandidateV { target: span@, reason: "member"@ };
                proof {
                    lemma_dedup_push(raw_pre, x);
                    assert(spec_raw_candidates(nodes.take(i + 1 as int)) =~= raw_pre.push(x));
                }
                add_candidate(&mut out, clone_text(span), text_of("member"));
            },
            ProvNode::ObjectProp { span, .. } => {
                let ghost x = CandidateV { target: span@, reason: "structural"@ };
                proof {
                    lemma_dedup_push(raw_pre, x);
                    assert(spec_raw_candidates(nodes.take(i + 1 as int)) =~= raw_pre.push(x));
                }
                add_candidate(&mut out, clone_text(span), text_of("structural"));
            },
            ProvNode::ArrayElem { span, .. } => {
                let ghost x = CandidateV { target: span@, reason: "structural"@ };
                proof {
                    lemma_dedup_push(raw_pre, x);
                    assert(spec_raw_candidates(nodes.take(i + 1 as int)) =~= raw_pre.push(x));
                }
                add_candidate(&mut out, clone_text(span), text_of("structural"));
            },
            ProvNode::Call { callsite, fn_def_span, .. } => {
                let ghost x = CandidateV { target: callsite@, reason: "callsite"@ };
                proof {
                    lemma_dedup_push(raw_pre, x);
                }
                add_candidate(&mut out, clone_text(callsite), text_of("callsite"));
                match fn_def_span {
                    Some(def) => {
                        let ghost y = CandidateV { target: def@, reason: "fn-def"@ };
                        proof {
                            lemma_dedup_keys(raw_pre.push(x));
                            lemma_dedup_push(raw_pre.push(x), y);
                            assert(spec_raw_candidates(nodes.take(i + 1 as int)) =~= raw_pre.push(
                                x,
                            ).push(y));
                        }
                        add_candidate(&mut out, clone_text(def), text_of("fn-def"));
                    },
                    None => {
                        proof {
                            assert(spec_raw_candidates(nodes.take(i + 1 as int)) =~= raw_pre.push(
                                x,
                            ));
                        }
                    },
                }
            },
            ProvNode::Ctor { span, .. } => {
                let ghost x = CandidateV { target: span@, reason: "constructor"@ };
                proof {
                    lemma_dedup_push(raw_pre, x);
                    assert(spec_raw_candidates(nodes.take(i + 1 as int)) =~= raw_pre.push(x));
                }
                add_candidate(&mut out, clone_text(span), text_of("constructor"));
            },
            ProvNode::Import { span, .. } => {
                let ghost x = CandidateV { target: span@, reason: "import"@ };
                proof {
                    lemma_dedup_push(raw_pre, x);
                    assert(spec_raw_candidates(nodes.take(i + 1 as int)) =~= raw_pre.push(x));
                }
                add_candidate(&mut out, clone_text(span), text_of("import"));
            },
            ProvNode::Env { span, .. } => {
                let ghost x = CandidateV { target: span@, reason: "env"@ };
                proof {
                    lemma_dedup_push(raw_pre, x);
                    assert(spec_raw_candidates(nodes.take(i + 1 as int)) =~= raw_pre.push(x));
                }
                add_candidate(&mut out, clone_text(span), text_of("env"));
            },
            ProvNode::Fetch { span, .. } => {
                let ghost x = CandidateV { target: span@, reason: "fetch"@ };
                proof {
                    lemma_dedup_push(raw_pre, x);
                    assert(spec_raw_candidates(nodes.take(i + 1 as int)) =~= raw_pre.push(x));
                }
                add_candidate(&mut out, clone_text(span), text_of("fetch"));
            },
            _ => {
                proof {
                    assert(spec_raw_candidates(nodes.take(i + 1 as int)) =~= raw_pre);
                }
            },
        }
        i = i + 1;
    }
    proof {
        assert(nodes.take(nodes.len() as int) =~= nodes);
        lemma_dedup_no_duplicates(spec_raw_candidates(nodes));
    }
    out
}

/// The short tag of one provenance node's kind.
pub open spec fn kind_tag(n: ProvNodeV) -> Seq<char> {
    match n {
        ProvNodeV::Literal { .. } => "literal"@,
        ProvNodeV::Ident { .. } => "ident"@,
        ProvNodeV::Init { .. } => "init"@,
        ProvNodeV::Import { .. } => "import"@,
        ProvNodeV::Member { .. } => "member"@,
        ProvNodeV::ObjectProp { .. } => "object"@,
        ProvNodeV::ArrayElem { .. } => "array"@,
        ProvNodeV::Call { .. } => "call"@,
        ProvNodeV::Ctor { .. } => "ctor"@,
        ProvNodeV::Op { .. } => "op"@,
        ProvNodeV::Env { .. } => "env"@,
        ProvNodeV::Fetch { .. } => "fetch"@,
        ProvNodeV::Unknown { .. } => "unknown"@,
    }
}

/// Does some node of the chain have this kind tag?
pub open spec fn has_kind(chain: Seq<ProvNodeV>, tag: Seq<char>) -> bool {
    exists|i: int| 0 <= i < chain.len() && kind_tag(chain[i]) == tag
}

/// The one-element list of a tag the chain exhibits, else nothing.
pub open spec fn kind_item(chain: Seq<ProvNodeV>, t: Seq<char>) -> Seq<Seq<char>> {
    if has_kind(chain, t) {
        seq![t]
    } else {
        seq![]
    }
}

/// Every kind tag, in alphabetical order.
pub open spec fn spec_tag_order() -> Seq<Seq<char>> {
    seq!["array"@, "call"@, "ctor"@, "env"@, "fetch"@, "ident"@, "import"@, "init"@, "literal"@, "member"@, "object"@, "op"@, "unknown"@]
}

/// The tags of `order` from position `i` on that the chain exhibits.
pub open spec fn spec_filter_kinds(chain: Seq<ProvNodeV>, order: Seq<Seq<char>>, i: int) -> Seq<
    Seq<char>,
>
    decreases order.len() - i,
{
    if 0 <= i < order.len() {
        kind_item(chain, order[i]) + spec_filter_kinds(chain, order, i + 1)
    } else {
        seq![]
    }
}

/// The sorted set of kind tags a chain exhibits, in the tags' own
/// alphabetical order.
pub open spec fn spec_aggregate_kinds(chain: Seq<ProvNodeV>) -> Seq<Seq<char>> {
    spec_filter_kinds(chain, spec_tag_order(), 0)
}

/// The kind tag of one node.
fn node_kind(n: &ProvNode) -> (r: Vec<char>)
    ensures
        r@ == kind_tag(view_node(*n)),
{
    match n {
        ProvNode::Literal { .. } => text_of("literal"),
        ProvNode::Ident { .. } => text_of("ident"),
        ProvNode::Init { .. } => text_of("init"),
        ProvNode::Import { .. } => text_of("import"),
        ProvNode::Member { .. } => text_of("member"),
        ProvNode::ObjectProp { .. } => text_of("object"),
        ProvNode::ArrayElem { .. } => text_of("array"),
        ProvNode::Call { .. } => text_of("call"),
        ProvNode::Ctor { .. } => text_of("ctor"),
        ProvNode::Op { .. } => text_of("op"),
        ProvNode::Env { .. } => text_of("env"),
        ProvNode::Fetch { .. } => text_of("fetch"),
        ProvNode::Unknown { .. } => text_of("unknown"),
    }
}

/// Does some node of the chain have this kind tag?
fn chain_has_kind(chain: &Vec<ProvNode>, tag: &Vec<char>) -> (r: bool)
    ensures
        r == has_kind(view_nodes(chain@), tag@),
{
    let mut i: usize = 0;
    while i < chain.len()
        invariant
            i <= chain@.len(),
            forall|j: int| 0 <= j < i ==> kind_tag(view_nodes(chain@)[j]) != tag@,
        decreases chain@.len() - i,
    {
        let k = node_kind(&chain[i]);
        if text_eq(&k, tag) {
            proof {
                assert(kind_tag(view_nodes(chain@)[i as int]) == tag@);
            }
            return true;
        }
        proof {
            assert(view_nodes(chain@)[i as int] == view_node(chain@[i as int]));
        }
        i = i + 1;
    }
    false
}

/// The view of a list of tags.
pub open spec fn view_texts(s: Seq<Vec<char>>) -> Seq<Seq<char>> {
    Seq::new(s.len(), |i: int| s[i]@)
}

/// Summarize which kinds of provenance a chain observed, as a sorted set
/// of short tags.
/// Summarize which kinds of provenance a chain observed, as a sorted set
/// of short tags.
pub fn aggregate_kinds(chain: &Vec<ProvNode>) -> (r: Vec<Vec<char>>)
    ensures
        view_texts(r@) == spec_aggregate_kinds(view_nodes(chain@)),
{
    let mut tags: Vec<Vec<char>> = Vec::new();
    tags.push(text_of("array"));
    tags.push(text_of("call"));
    tags.push(text_of("ctor"));
    tags.push(text_of("env"));
    tags.push(text_of("fetch"));
    tags.push(text_of("ident"));
    tags.push(text_of("import"));
    tags.push(text_of("init"));
    tags.push(text_of("literal"));
    tags.push(text_of("member"));
    tags.push(text_of("object"));
    tags.push(text_of("op"));
    tags.push(text_of("unknown"));
    proof {
        assert(view_texts(tags@) =~= spec_tag_order());
    }
    let ghost nodes = view_nodes(chain@);
    let ghost order = spec_tag_order();
    let mut out: Vec<Vec<char>> = Vec::new();
    let mut i: usize = 0;
    proof {
        assert(view_texts(out@) + spec_filter_kinds(nodes, order, 0) =~= spec_filter_kinds(
            nodes,
            order,
            0,
        ));
    }
    while i < tags.len()
        invariant
            i <= tags@.len(),
            nodes == view_nodes(chain@),
            order == spec_tag_order(),
            view_texts(tags@) == order,
            order.len() == tags@.len(),
            spec_filter_kinds(nodes, order, 0) == view_texts(out@) + spec_filter_kinds(
                nodes,
                order,
                i as int,
            ),
        decreases tags@.len() - i,
    {
        let ghost pre = view_texts(out@);
        let tag = clone_text(&tags[i]);
        proof {
            assert(tag@ == order[i as int]);
        }
        if chain_has_kind(chain, &tag) {
            out.push(tag);
            proof {
                assert(view_texts(out@) =~= pre.push(order[i as int]));
                assert(pre.push(order[i as int]) =~= pre + kind_item(nodes, order[i as int]));
            }
        } else {
            proof {
                assert(pre =~= pre + kind_item(nodes, order[i as int]));
            }
        }
        proof {
            assert(pre + kind_item(nodes, order[i as int]) + spec_filter_kinds(
                nodes,
                order,
                i + 1 as int,
            ) =~= pre + (kind_item(nodes, order[i as int]) + spec_filter_kinds(
                nodes,
                order,
                i + 1 as int,
            )));
        }
        i = i + 1;
    }
    proof {
        assert(view_texts(out@) + spec_filter_kinds(nodes, order, tags@.len() as int) =~= view_texts(
            out@,
        ));
    }
    out
}

} // verus!
