use vstd::prelude::*;

use crate::span::Span;

verus! {

/// One argument of an attribute: either a plain identifier or some other
/// syntactic shape, of which only the location matters here.
#[derive(Clone, Debug, PartialEq, Eq)]
pub enum AttributeArg {
    Ident { span: Span, text: String },
    Other { span: Span },
}

/// An attribute attached to a top-level definition: a name, an optional
/// attached value (only its location is read here), and an ordered list
/// of arguments.
#[derive(Clone, Debug, PartialEq, Eq)]
pub struct Attribute {
    pub name: String,
    pub value: Option<Span>,
    pub args: Vec<AttributeArg>,
}

} // verus!
