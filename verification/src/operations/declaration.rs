//! Lowering of declarations: memory for the declared name, and the operations
//! that give it its first value.

use vstd::prelude::*;

use crate::memory::MemoryBlock;
use crate::operations::expression::identifier::{can_store_identifier, increments, storable};
use crate::operations::expression::number::can_store_number;
use crate::operations::expression::{lemma_expression_defined, lowered_expression};
use crate::operations::scope::model::{ItemModel, ScopeStackModel};
use crate::operations::scope::{ScopeStack, TypeId};
use crate::operations::type_definition::resolve_type_id;
use crate::operations::{expression, lowered, ErrorModel, Lowered, Operation, OperationsResult};
use crate::parser::{Expression, ExpressionModel, Pattern, TypeDefinition};

verus! {

/// The scope after the declaration of `name` with the type called
/// `type_ref`: the name is declared where the type resolves, whatever
/// becomes of its initializer, and nothing changes where it does not.
pub open spec fn declared_scope(scope: ScopeStackModel, name: Seq<char>, type_ref: Seq<char>)
    -> ScopeStackModel {
    match scope.lookup_type(type_ref) {
        Some(type_id) => scope.declare(name, type_id),
        None => scope,
    }
}

/// What lowering the declaration of `name` with the type called `type_ref`
/// gives.
///
/// Where the type does not resolve, the error that carries its name. Else one
/// `Allocate` of the memory of the new variable, followed by the operations
/// that store the initializer into that memory, if there is an initializer.
/// The initializer is lowered in the scope in which the name is declared
/// already. Its error, if it has one, is the error of the declaration.
///
/// `None` where no store of the initializer is defined.
pub open spec fn lowered_declaration(
    scope: ScopeStackModel,
    name: Seq<char>,
    type_ref: Seq<char>,
    initializer: Option<ExpressionModel>,
) -> Option<Lowered> {
    match scope.lookup_type(type_ref) {
        None => Some(Err(ErrorModel::UnresolvedName(type_ref))),
        Some(type_id) => {
            let memory = scope.next_block(scope.size_of(type_id));
            let allocate = seq![Operation::Allocate(memory)];
            match initializer {
                None => Some(Ok(allocate)),
                Some(expression) => match lowered_expression(
                    scope.declare(name, type_id),
                    expression,
                    type_id,
                    memory,
                ) {
                    None => None,
                    Some(Ok(operations)) => Some(Ok(allocate + operations)),
                    Some(Err(error)) => Some(Err(error)),
                },
            }
        },
    }
}

/// The model of an initializer.
pub open spec fn initializer_model(expr: Option<Expression>) -> Option<ExpressionModel> {
    match expr {
        Some(expression) => Some(expression@),
        None => None,
    }
}

/// The memory of the variable has addresses: the one demand of a declaration
/// on the machine.
pub open spec fn memory_left(scope: ScopeStackModel, type_ref: Seq<char>) -> bool {
    scope.lookup_type(type_ref) matches Some(type_id) ==> scope.watermark + scope.size_of(type_id)
        <= usize::MAX
}

/// Whether [`into_operations`] takes these arguments: memory is left for the
/// variable, and the lowering of the declaration is defined.
pub fn can_lower(
    scope: &ScopeStack,
    pattern: &Pattern,
    type_def: &TypeDefinition,
    expr: &Option<Expression>,
) -> (defined: bool)
    requires
        scope@.wf(),
    ensures
        defined == (memory_left(scope@, type_def.name()) && lowered_declaration(
            scope@,
            pattern.name(),
            type_def.name(),
            initializer_model(*expr),
        ) is Some),
{
    let type_id = match type_def {
        TypeDefinition::Name { name } => match scope.lookup_type(name) {
            Some(type_id) => type_id,
            None => {
                return true;
            },
        },
    };
    proof {
        scope@.lemma_lookup_type_wf(type_def.name());
    }
    let cells = scope.size_of(type_id);
    let position = scope.allocated();
    if cells > usize::MAX - position {
        return false;
    }
    let memory = MemoryBlock::new(position, cells);
    match expr {
        None => true,
        Some(Expression::Number(number)) => can_store_number(scope, *number, type_id, memory),
        Some(Expression::Identifier(value)) => {
            let name = match pattern {
                Pattern::Identifier(name) => name,
            };
            proof {
                scope@.lemma_declare_lookup(name@, type_id, value@);
            }
            // A variable initialized with its own name is copied onto itself.
            *value == *name || can_store_identifier(scope, value, type_id, memory)
        },
    }
}

/// Lowers the declaration of a variable: see [`lowered_declaration`] for the
/// operations and [`declared_scope`] for the scope it leaves.
///
/// Memory must be left for the variable and the lowering must be defined:
/// [`can_lower`] tests both, and [`lemma_declaration_defined`] says of which
/// declarations the lowering is defined.
pub fn into_operations(
    scope: &mut ScopeStack,
    pattern: Pattern,
    type_def: TypeDefinition,
    expr: Option<Expression>,
) -> (result: OperationsResult)
    requires
        old(scope)@.wf(),
        memory_left(old(scope)@, type_def.name()),
        lowered_declaration(
            old(scope)@,
            pattern.name(),
            type_def.name(),
            initializer_model(expr),
        ) is Some,
    ensures
        final(scope)@ == declared_scope(old(scope)@, pattern.name(), type_def.name()),
        final(scope)@.wf(),
        Some(lowered(result)) == lowered_declaration(
            old(scope)@,
            pattern.name(),
            type_def.name(),
            initializer_model(expr),
        ),
{
    let type_id = resolve_type_id(scope, type_def)?;
    proof {
        scope@.lemma_lookup_type_wf(type_def.name());
    }

    let name = match pattern {
        Pattern::Identifier(name) => name,
    };

    // The name is declared whatever becomes of its initializer.
    let mem = scope.declare(name, type_id);
    let mut ops: Vec<Operation> = Vec::new();
    ops.push(Operation::Allocate(mem));

    if let Some(expr) = expr {
        let mut stored = expression::into_operations(scope, expr, type_id, mem)?;
        ops.append(&mut stored);
    }
    Ok(ops)
}

/// A declaration without an initializer gives exactly one operation: the
/// `Allocate` of a block that has the size of the declared type.
pub proof fn lemma_declaration_without_initializer(
    scope: ScopeStackModel,
    name: Seq<char>,
    type_ref: Seq<char>,
    type_id: TypeId,
)
    requires
        scope.lookup_type(type_ref) == Some(type_id),
    ensures
        lowered_declaration(scope, name, type_ref, None) == Some(
            Ok::<Seq<Operation>, ErrorModel>(
                seq![Operation::Allocate(scope.next_block(scope.size_of(type_id)))],
            ),
        ),
        scope.next_block(scope.size_of(type_id)).size == scope.size_of(type_id),
{
}

/// A declaration whose initializer is the name of a constant of the declared
/// type gives the `Allocate` of the new block, and then one increment for
/// each byte of the constant, in the order of the bytes: the increment at
/// `index` raises the cell at `index` of the block by the byte at `index`.
///
/// The constant is another name than the one declared: the initializer is
/// lowered with the new name in scope, which would shadow the constant.
pub proof fn lemma_declaration_with_constant(
    scope: ScopeStackModel,
    name: Seq<char>,
    type_ref: Seq<char>,
    type_id: TypeId,
    constant: Seq<char>,
    bytes: Seq<u8>,
)
    requires
        scope.wf(),
        scope.lookup_type(type_ref) == Some(type_id),
        scope.watermark + scope.size_of(type_id) <= usize::MAX,
        constant != name,
        scope.lookup(constant).len() > 0,
        scope.lookup(constant)[0] == (ItemModel::Constant { type_id, bytes }),
    ensures
        ({
            let memory = scope.next_block(scope.size_of(type_id));
            let operations = seq![Operation::Allocate(memory)] + increments(memory, bytes);
            &&& lowered_declaration(
                scope,
                name,
                type_ref,
                Some(ExpressionModel::Identifier(constant)),
            ) == Some(Ok::<Seq<Operation>, ErrorModel>(operations))
            &&& operations.len() == 1 + bytes.len()
            &&& forall|index: int|
                0 <= index < bytes.len() ==> #[trigger] operations[1 + index]
                    == (Operation::Increment {
                    target: (memory.position + index) as usize,
                    amount: bytes[index] as usize,
                })
            &&& memory.position + bytes.len() <= usize::MAX
        }),
{
    scope.lemma_lookup_wf(constant, 0);
    scope.lemma_declare_lookup(name, type_id, constant);
}

/// A declaration that succeeds allocates exactly once, and first of all.
pub proof fn lemma_declaration_allocates_first(
    scope: ScopeStackModel,
    name: Seq<char>,
    type_ref: Seq<char>,
    initializer: Option<ExpressionModel>,
)
    ensures
        lowered_declaration(scope, name, type_ref, initializer) matches Some(Ok(operations)) ==> {
            &&& scope.lookup_type(type_ref) matches Some(type_id)
            &&& operations.len() >= 1
            &&& operations[0] == Operation::Allocate(scope.next_block(scope.size_of(type_id)))
            &&& forall|k: int| 1 <= k < operations.len() ==> !(#[trigger] operations[k] is Allocate)
        },
{
}

/// A declaration that fails, fails with the error of its type or with that of
/// its initializer: an unresolved type gives the error that carries the name
/// of the type.
pub proof fn lemma_declaration_of_unresolved_type(
    scope: ScopeStackModel,
    name: Seq<char>,
    type_ref: Seq<char>,
    initializer: Option<ExpressionModel>,
)
    requires
        scope.lookup_type(type_ref) is None,
    ensures
        lowered_declaration(scope, name, type_ref, initializer) == Some(
            Err::<Seq<Operation>, ErrorModel>(ErrorModel::UnresolvedName(type_ref)),
        ),
        declared_scope(scope, name, type_ref) == scope,
{
}

/// In a consistent scope with memory left for the variable, the lowering of a
/// declaration is defined, unless its initializer names a function.
pub proof fn lemma_declaration_defined(
    scope: ScopeStackModel,
    name: Seq<char>,
    type_ref: Seq<char>,
    initializer: Option<ExpressionModel>,
)
    requires
        scope.wf(),
        memory_left(scope, type_ref),
        initializer matches Some(ExpressionModel::Identifier(value)) ==> value == name || storable(
            scope,
            value,
        ),
    ensures
        lowered_declaration(scope, name, type_ref, initializer) is Some,
{
    if let Some(type_id) = scope.lookup_type(type_ref) {
        if let Some(expression) = initializer {
            let declared = scope.declare(name, type_id);
            let memory = scope.next_block(scope.size_of(type_id));
            scope.lemma_lookup_type_wf(type_ref);
            scope.lemma_declare_wf(name, type_id);
            if let ExpressionModel::Identifier(value) = expression {
                scope.lemma_declare_lookup(name, type_id, value);
            }
            lemma_expression_defined(declared, expression, type_id, memory);
        }
    }
}

} // verus!
