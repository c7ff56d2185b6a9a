//! Incremental cross-file symbol resolution for a schema definition language.
//!
//! A workspace of `.adl` source files is parsed into syntax trees; this crate
//! classifies tree nodes, resolves dotted module names to file paths across a
//! set of search directories, and maintains a bidirectional symbol cache that
//! answers definition, reference and hover queries without re-walking every
//! tree on every request.
//!
//! The parser itself is consumed as an opaque component ([`parse`]); its
//! trees are copied into index arenas ([`tree`]) that the query primitives
//! walk.  Module names map to candidate files in [`modules`] and
//! [`packages`]; the bidirectional cache and its laws live in [`cache`] and
//! [`laws`]; [`workspace`] ties the store, the cache and the per-tree
//! queries ([`definition`], [`references`], [`hover`], [`diagnostics`],
//! [`symbols`], [`navigate`]) into the ingestion pipeline and the query
//! services.

use vstd::prelude::*;

pub mod adl;
pub mod cache;
pub mod config;
pub mod definition;
pub mod diagnostics;
pub mod fqn;
pub mod hover;
pub mod kind;
pub mod laws;
pub mod references;
pub mod modules;
pub mod navigate;
pub mod packages;
pub mod parse;
pub mod store;
pub mod symbols;
pub mod text;
pub mod tree;
pub mod types;
pub mod workspace;

verus! {

} // verus!
