//! Generate several synchronized variants — canonically a blocking and a
//! suspending one — of a single annotated declaration.
//!
//! The crate is organized around a tree-rewrite engine: a recursive visitor
//! that walks a syntax-tree model and, guided by a declarative parameter
//! model, produces one independently valid tree per declared variant.  It
//! strips or keeps suspension markers, renames identifiers per variant,
//! resolves variant-scoped conditional directives, substitutes generic type
//! parameters bounded by a suspension-producing trait, and filters
//! variant-tagged documentation examples.
//!
//! Every public operation carries a contract that pins its result down as a
//! function of its inputs; the engine is a pure tree-to-tree transform.

use vstd::prelude::*;

pub mod ast;
pub mod params;
pub mod rename;
pub mod docfilter;
pub mod rewrite;
pub mod dispatch;
pub mod laws;

verus! {

} // verus!
