//! Lowering of a small typed language onto a tape of byte-sized cells.
//!
//! Declarations and expressions are lowered to a flat, ordered sequence of
//! primitive operations (`Allocate`, `Copy`, `Increment`). Names and types are
//! resolved against a stack of lexical scopes, and every store is type-checked
//! by comparing type handles.
//!
//! The contracts are stated over mathematical models of the data: see
//! [`operations::scope::model::ScopeStackModel`] for the model of the scope stack and
//! [`operations::Lowered`] for the model of what lowering gives.

pub mod memory;
pub mod operations;
pub mod parser;
