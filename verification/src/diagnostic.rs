use vstd::prelude::*;

use crate::span::Span;

verus! {

/// A recoverable problem found during a pass. Diagnostics are accumulated
/// in a sink (a growing vector threaded through every call) and never abort
/// a traversal: every independent problem in one pass is reported.
#[derive(Clone, Debug, PartialEq, Eq)]
pub enum Diagnostic {
    /// A `derive` attribute was written with an attached value, which the
    /// attribute does not take; points at the value.
    AttributeDoesNotExpectEqual { place: Span },
    /// An attribute argument that is not a plain identifier, or an
    /// identifier that names no known derive; points at the argument.
    InvalidAttributeArgument { place: Span },
    /// The same derive was requested twice; carries the place of the first
    /// request and of the repeated one.
    DuplicatedAttributeArgument { first: Span, second: Span },
    /// A derive that does not fit the shape of the definition it is
    /// attached to; carries the derive's canonical name and the place of
    /// the request.
    CannotDerive { name: String, place: Span },
}

} // verus!
