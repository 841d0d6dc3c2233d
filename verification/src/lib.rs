//! Provenance tracing and metadata placement for a JSX-style view tree.
//!
//! The library instruments a parsed view tree so that a visual-editing tool
//! can map rendered elements back to the source locations that produced them.
//! It builds a scope-aware binding table, traces how attribute values are
//! derived, ranks candidate edit locations, attaches the results as encoded
//! string attributes, and removes every temporary synthetic wrapper in a
//! second pass so that the final tree keeps its original shape.

use vstd::prelude::*;

pub mod ast;
pub mod bindings;
pub mod codec;
pub mod engine;
pub mod hoist;
pub mod json;
pub mod laws;
pub mod pipeline;
pub mod place;
pub mod rank;
pub mod span;
pub mod symref;
pub mod trace;
pub mod text;

verus! {

/// A half-open byte range into the original source text.
///
/// The all-zero range stands for "no location": nodes made up by the
/// transform itself carry it, and every span computation must tolerate it.
#[derive(Clone, Copy, PartialEq, Eq, Structural, Debug)]
pub struct ByteSpan {
    pub lo: u32,
    pub hi: u32,
}

impl ByteSpan {
    /// The sentinel range of synthetic (location-less) nodes.
    pub open spec fn spec_is_dummy(&self) -> bool {
        self.lo == 0 && self.hi == 0
    }

    #[verifier::when_used_as_spec(spec_is_dummy)]
    pub fn is_dummy(&self) -> (r: bool)
        ensures
            r == self.spec_is_dummy(),
    {
        self.lo == 0 && self.hi == 0
    }

    pub fn dummy() -> (r: ByteSpan)
        ensures
            r.spec_is_dummy(),
    {
        ByteSpan { lo: 0, hi: 0 }
    }
}

} // verus!
