//! Semantic-analysis front-end for a statically-typed, class-based language.
//!
//! The crate indexes class, enum and method definitions into a class
//! dictionary, lowers parsed expressions into a typed intermediate
//! representation, and offers the subtyping queries that the lowering needs.

use vstd::prelude::*;

pub mod ast;
pub mod class_dict;
pub mod convert_exprs;
pub mod error;
pub mod hir;
pub mod hir_maker;
pub mod index;
pub mod indexing;
pub mod laws;
pub mod names;
pub mod program;
pub mod signature;
pub mod sk;
pub mod stdlib;
pub mod strmap;
pub mod superclass;
pub mod ty;
pub mod type_checking;

verus! {

} // verus!
