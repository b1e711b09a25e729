//! Middle stage of a compiler for a dependently-typed language whose
//! programs run on a graph-rewriting runtime.
//!
//! The crate covers two passes:
//! - expansion of `derive` attributes on type definitions into synthesized
//!   top-level entries (`expand`, `module`);
//! - lowering of the elaborated term calculus into the line-oriented
//!   rewrite-rule text consumed by the runtime (`book`, `hvm`).
#![verifier::loop_isolation(false)]

pub mod attribute;
pub mod book;
pub mod diagnostic;
pub mod expand;
pub mod hvm;
pub mod module;
pub mod span;
pub mod text;
