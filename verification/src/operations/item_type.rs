//! The definitions of declared types.

use vstd::prelude::*;

use crate::operations::scope::TypeId;

verus! {

/// What a declared type is made of.
#[derive(Debug, Clone, Copy, PartialEq, Eq, Structural)]
pub enum ItemType {
    /// A value that occupies the given number of cells.
    Primitive(usize),
    /// `size` values of the type `item`, one after the other.
    Array { item: TypeId, size: usize },
}

} // verus!
