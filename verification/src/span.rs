use vstd::prelude::*;

verus! {

/// A region of source text, kept so that diagnostics can point at the
/// code they concern. The bounds are byte offsets into the source file.
#[derive(Clone, Copy, Debug, PartialEq, Eq, Structural)]
pub struct Span {
    pub start: u64,
    pub end: u64,
}

} // verus!
