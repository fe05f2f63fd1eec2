//! Lowering of expressions: the operations that store the value of an
//! expression into a block of memory.

use vstd::prelude::*;

use crate::memory::MemoryBlock;
use crate::operations::expression::identifier::{
    can_store_identifier, lemma_store_defined, lemma_store_initializes_target, storable,
    store_identifier, stored_identifier,
};
use crate::operations::expression::number::{
    can_store_number, lemma_stored_number_initializes_target, store_number, stored_number,
};
use crate::operations::scope::model::ScopeStackModel;
use crate::operations::scope::{ScopeStack, TypeId};
use crate::operations::{lowered, Lowered, OperationsResult};
use crate::parser::{Expression, ExpressionModel};

pub mod identifier;
pub mod number;

verus! {

/// What storing the value of an expression into a block of a type gives: a
/// name stores what it is bound to, a literal stores itself. `None` where no
/// store is defined.
pub open spec fn lowered_expression(
    scope: ScopeStackModel,
    expression: ExpressionModel,
    target_type: TypeId,
    target: MemoryBlock,
) -> Option<Lowered> {
    match expression {
        ExpressionModel::Identifier(name) => stored_identifier(scope, name, target_type, target),
        ExpressionModel::Number(number) => stored_number(scope, number, target_type, target),
    }
}

/// Whether [`into_operations`] takes these arguments: the type is registered,
/// the block has addresses, and a store is defined.
pub fn can_lower(scope: &ScopeStack, expr: &Expression, target_type: TypeId, target: MemoryBlock)
    -> (defined: bool)
    ensures
        defined == (scope@.valid_type(target_type) && target.wf() && lowered_expression(
            scope@,
            expr@,
            target_type,
            target,
        ) is Some),
{
    match expr {
        Expression::Identifier(name) => can_store_identifier(scope, name, target_type, target),
        Expression::Number(number) => can_store_number(scope, *number, target_type, target),
    }
}

/// Stores the value of the expression into the block `target` of the type
/// `target_type`: see [`lowered_expression`]. The scope is left as it is.
pub fn into_operations(
    scope: &mut ScopeStack,
    expr: Expression,
    target_type: TypeId,
    target: MemoryBlock,
) -> (result: OperationsResult)
    requires
        old(scope)@.wf(),
        old(scope)@.valid_type(target_type),
        target.wf(),
        lowered_expression(old(scope)@, expr@, target_type, target) is Some,
    ensures
        final(scope)@ == old(scope)@,
        Some(lowered(result)) == lowered_expression(old(scope)@, expr@, target_type, target),
{
    match expr {
        Expression::Identifier(name) => store_identifier(scope, name, target_type, target),
        Expression::Number(number) => store_number(scope, number, target_type, target),
    }
}

/// Lowering an expression either fails or writes the whole target: the
/// operations of a store that succeeds change every cell of the target block,
/// and no other cell.
pub proof fn lemma_expression_initializes_target(
    scope: ScopeStackModel,
    expression: ExpressionModel,
    target_type: TypeId,
    target: MemoryBlock,
    address: int,
)
    requires
        target.wf(),
    ensures
        lowered_expression(scope, expression, target_type, target) matches Some(Ok(operations))
            ==> ((exists|k: int|
            0 <= k < operations.len() && #[trigger] operations[k].writes(address))
            <==> target.contains(address)),
{
    match expression {
        ExpressionModel::Identifier(name) => {
            lemma_store_initializes_target(scope, name, target_type, target, address);
        },
        ExpressionModel::Number(number) => {
            lemma_stored_number_initializes_target(scope, number, target_type, target, address);
        },
    }
}

/// In a consistent scope the store of an expression into a block sized for
/// its type is defined, unless the expression names a function.
pub proof fn lemma_expression_defined(
    scope: ScopeStackModel,
    expression: ExpressionModel,
    target_type: TypeId,
    target: MemoryBlock,
)
    requires
        scope.wf(),
        scope.valid_type(target_type),
        target.size == scope.size_of(target_type),
        expression matches ExpressionModel::Identifier(name) ==> storable(scope, name),
    ensures
        lowered_expression(scope, expression, target_type, target) is Some,
{
    match expression {
        ExpressionModel::Identifier(name) => {
            lemma_store_defined(scope, name, target_type, target);
        },
        ExpressionModel::Number(number) => {
            assert(scope.entry_wf(target_type.index as int));
        },
    }
}

} // verus!
