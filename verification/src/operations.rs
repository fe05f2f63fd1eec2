//! Primitive operations and the passes that emit them.

use vstd::prelude::*;

use crate::memory::MemoryBlock;
use crate::operations::item_type::ItemType;
use crate::parser::Identifier;

pub mod declaration;
pub mod expression;
pub mod item_type;
pub mod scope;
pub mod type_definition;

verus! {

/// One primitive instruction for the machine that runs on the tape.
#[derive(Debug, Clone, Copy, PartialEq, Eq, Structural)]
pub enum Operation {
    /// Reserves the cells of a block.
    Allocate(MemoryBlock),
    /// Copies `size` cells from the address `source` to the address `target`.
    Copy { source: usize, target: usize, size: usize },
    /// Adds `amount` to the cell at the address `target`.
    Increment { target: usize, amount: usize },
}

impl Operation {
    /// The operation changes the cell at the address.
    pub open spec fn writes(self, address: int) -> bool {
        match self {
            Operation::Allocate(_) => false,
            Operation::Copy { target, size, .. } => target <= address < target + size,
            Operation::Increment { target, .. } => address == target,
        }
    }
}

/// Why a declaration or an expression could not be lowered.
#[derive(Debug, Clone, PartialEq, Eq)]
pub enum Error {
    /// No binding of the name is in scope.
    UnresolvedName(Identifier),
    /// The type of the value differs from the type of the place it is stored to.
    MismatchedTypes { expected: ItemType, found: ItemType },
}

/// What an [`Error`] is, with names as sequences of characters.
pub enum ErrorModel {
    UnresolvedName(Seq<char>),
    MismatchedTypes { expected: ItemType, found: ItemType },
}

impl View for Error {
    type V = ErrorModel;

    open spec fn view(&self) -> ErrorModel {
        match self {
            Error::UnresolvedName(name) => ErrorModel::UnresolvedName(name@),
            Error::MismatchedTypes { expected, found } => ErrorModel::MismatchedTypes {
                expected: *expected,
                found: *found,
            },
        }
    }
}

/// The operations that lowering emits, in program order, or the first error.
pub type OperationsResult = Result<Vec<Operation>, Error>;

/// What an [`OperationsResult`] is: a sequence of operations or the model of
/// an error.
pub type Lowered = Result<Seq<Operation>, ErrorModel>;

/// The model of a result of lowering.
pub open spec fn lowered(result: OperationsResult) -> Lowered {
    match result {
        Ok(operations) => Ok(operations@),
        Err(error) => Err(error@),
    }
}

} // verus!
