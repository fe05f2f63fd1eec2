//! Storing the value that a name is bound to.

use vstd::pervasive::unreached;
use vstd::prelude::*;

use crate::memory::MemoryBlock;
use crate::operations::expression::number::{
    can_store_number, lemma_stored_number_initializes_target, store_number, stored_number,
};
use crate::operations::item_type::ItemType;
use crate::operations::scope::model::{ItemModel, ScopeStackModel};
use crate::operations::scope::{item_models, ScopeItem, ScopeStack, TypeId};
use crate::operations::{lowered, Error, ErrorModel, Lowered, Operation, OperationsResult};
use crate::parser::Identifier;

verus! {

/// One increment for each byte, in the order of the bytes: the cell at
/// `index` of the block is raised by the byte at `index`. On cells that hold
/// zero this writes the bytes.
pub open spec fn increments(memory: MemoryBlock, bytes: Seq<u8>) -> Seq<Operation> {
    Seq::new(
        bytes.len(),
        |index: int|
            Operation::Increment {
                target: memory.cell(index) as usize,
                amount: bytes[index] as usize,
            },
    )
}

/// The one copy that moves the cells of `source` to `target`.
pub open spec fn copy(source: MemoryBlock, target: MemoryBlock) -> Seq<Operation> {
    seq![Operation::Copy { source: source.position, target: target.position, size: source.size }]
}

/// The error of storing a value of the type `found` where `expected` is asked
/// for. It carries the definitions of both.
pub open spec fn mismatch(scope: ScopeStackModel, expected: TypeId, found: TypeId) -> ErrorModel {
    ErrorModel::MismatchedTypes {
        expected: scope.get_type(expected),
        found: scope.get_type(found),
    }
}

/// What storing an item into a block of a type gives.
///
/// - A constant of the target type is written byte by byte.
/// - A numeric literal is encoded for the target type.
/// - A value in memory of the target type is copied.
/// - An array is copied whole where the target type is the type of arrays of
///   its item type and size.
/// - Anything of another type is an error, and nothing is emitted.
///
/// `None` where no store is defined: where the value and the block are of the
/// same type but not of the same size, and where the item is a function, which
/// has no value in memory.
pub open spec fn stored_item(
    scope: ScopeStackModel,
    item: ItemModel,
    target_type: TypeId,
    target: MemoryBlock,
) -> Option<Lowered> {
    match item {
        ItemModel::Constant { type_id, bytes } => if type_id != target_type {
            Some(Err(mismatch(scope, target_type, type_id)))
        } else if bytes.len() == target.size {
            Some(Ok(increments(target, bytes)))
        } else {
            None
        },
        ItemModel::NumericLiteral(number) => stored_number(scope, number, target_type, target),
        ItemModel::TypedBlock { type_id, memory } => if type_id != target_type {
            Some(Err(mismatch(scope, target_type, type_id)))
        } else if memory.size == target.size {
            Some(Ok(copy(memory, target)))
        } else {
            None
        },
        ItemModel::Array { item, size, memory } => {
            let expected = scope.get_type(target_type);
            let found = ItemType::Array { item, size };
            if expected != found {
                Some(Err(ErrorModel::MismatchedTypes { expected, found }))
            } else if memory.size == target.size {
                Some(Ok(copy(memory, target)))
            } else {
                None
            }
        },
        ItemModel::BuiltInFunction { .. } => None,
    }
}

/// What storing the value of a name into a block of a type gives: an error
/// that carries the name where the name is unbound, else what storing the
/// innermost item bound to the name gives.
pub open spec fn stored_identifier(
    scope: ScopeStackModel,
    name: Seq<char>,
    target_type: TypeId,
    target: MemoryBlock,
) -> Option<Lowered> {
    let found = scope.lookup(name);
    if found.len() == 0 {
        Some(Err(ErrorModel::UnresolvedName(name)))
    } else {
        stored_item(scope, found[0], target_type, target)
    }
}

/// Whether [`store_identifier`] takes these arguments: the type is
/// registered, the block has addresses, and a store is defined.
pub fn can_store_identifier(
    scope: &ScopeStack,
    name: &Identifier,
    target_type: TypeId,
    target: MemoryBlock,
) -> (defined: bool)
    ensures
        defined == (scope@.valid_type(target_type) && target.wf() && stored_identifier(
            scope@,
            name@,
            target_type,
            target,
        ) is Some),
{
    if !scope.is_valid_type(target_type) || !target.is_wf() {
        return false;
    }
    let found = scope.lookup(name);
    if found.len() == 0 {
        return true;
    }
    match found[0] {
        ScopeItem::Constant { type_id, bytes } => {
            target_type != *type_id || bytes.len() == target.size()
        },
        ScopeItem::NumericLiteral(number) => can_store_number(scope, *number, target_type, target),
        ScopeItem::TypedBlock { type_id, memory } => {
            target_type != *type_id || memory.size() == target.size()
        },
        ScopeItem::Array { item, size, memory } => {
            let array = ItemType::Array { item: *item, size: *size };
            *scope.get_type(target_type) != array || memory.size() == target.size()
        },
        ScopeItem::BuiltInFunction { .. } => false,
    }
}

/// Stores the value that `name` is bound to into the block `target` of the
/// type `target_type`: see [`stored_identifier`]. The scope is left as it is.
pub fn store_identifier(
    scope: &mut ScopeStack,
    name: Identifier,
    target_type: TypeId,
    target: MemoryBlock,
) -> (result: OperationsResult)
    requires
        old(scope)@.wf(),
        old(scope)@.valid_type(target_type),
        target.wf(),
        stored_identifier(old(scope)@, name@, target_type, target) is Some,
    ensures
        final(scope)@ == old(scope)@,
        Some(lowered(result)) == stored_identifier(old(scope)@, name@, target_type, target),
{
    let found = scope.lookup(&name);
    if found.len() == 0 {
        return Err(Error::UnresolvedName(name));
    }
    proof {
        scope@.lemma_lookup_wf(name@, 0);
    }
    match found[0] {
        ScopeItem::Constant { type_id, bytes } => {
            if target_type == *type_id {
                increment_to_value(target, bytes)
            } else {
                mismatched_types(scope, target_type, *type_id)
            }
        },
        ScopeItem::NumericLiteral(number) => store_number(scope, *number, target_type, target),
        ScopeItem::TypedBlock { type_id, memory } => {
            if target_type == *type_id {
                let mut operations: Vec<Operation> = Vec::new();
                operations.push(
                    Operation::Copy {
                        source: memory.position(),
                        target: target.position(),
                        size: memory.size(),
                    },
                );
                Ok(operations)
            } else {
                mismatched_types(scope, target_type, *type_id)
            }
        },
        ScopeItem::Array { item, size, memory } => {
            let expected = *scope.get_type(target_type);
            let array = ItemType::Array { item: *item, size: *size };
            if expected == array {
                let mut operations: Vec<Operation> = Vec::new();
                operations.push(
                    Operation::Copy {
                        source: memory.position(),
                        target: target.position(),
                        size: memory.size(),
                    },
                );
                Ok(operations)
            } else {
                Err(Error::MismatchedTypes { expected, found: array })
            }
        },
        ScopeItem::BuiltInFunction { .. } => unreached(),
    }
}

/// Writes a value into a block of cells that hold zero: one increment for
/// each byte of the value, in the order of the bytes.
pub fn increment_to_value(mem: MemoryBlock, value: &Vec<u8>) -> (result: OperationsResult)
    requires
        mem.wf(),
        mem.size == value@.len(),
    ensures
        lowered(result) == Ok::<Seq<Operation>, ErrorModel>(increments(mem, value@)),
{
    let mut operations: Vec<Operation> = Vec::new();
    let mut index: usize = 0;
    while index < value.len()
        invariant
            mem.wf(),
            mem.size == value@.len(),
            index <= value@.len(),
            operations@ == increments(mem, value@.take(index as int)),
        decreases value@.len() - index,
    {
        let byte = value[index];
        operations.push(
            Operation::Increment { target: mem.position_at(index), amount: byte as usize },
        );
        index = index + 1;
    }
    proof {
        assert(value@.take(index as int) =~= value@);
    }
    Ok(operations)
}

/// The error of storing a value of the type `found` where `expected` is asked
/// for.
pub fn mismatched_types(scope: &ScopeStack, expected: TypeId, found: TypeId) -> (result:
    OperationsResult)
    requires
        scope@.valid_type(expected),
        scope@.valid_type(found),
    ensures
        lowered(result) == Err::<Seq<Operation>, ErrorModel>(mismatch(scope@, expected, found)),
{
    Err(
        Error::MismatchedTypes {
            expected: *scope.get_type(expected),
            found: *scope.get_type(found),
        },
    )
}

/// The handle of the type of an item, for the items that carry one.
pub open spec fn type_of(item: ItemModel) -> Option<TypeId> {
    match item {
        ItemModel::Constant { type_id, .. } => Some(type_id),
        ItemModel::TypedBlock { type_id, .. } => Some(type_id),
        _ => None,
    }
}

/// The innermost item bound to the name, if there is one, is not a function.
pub open spec fn storable(scope: ScopeStackModel, name: Seq<char>) -> bool {
    scope.lookup(name).len() > 0 ==> !(scope.lookup(name)[0] is BuiltInFunction)
}

/// Storing a name that no scope binds fails with the error that carries that
/// very name, whatever the target.
pub proof fn lemma_unbound_name_is_unresolved(
    scope: ScopeStackModel,
    name: Seq<char>,
    target_type: TypeId,
    target: MemoryBlock,
)
    requires
        scope.unbound(name),
    ensures
        stored_identifier(scope, name, target_type, target) == Some(
            Err::<Seq<Operation>, ErrorModel>(ErrorModel::UnresolvedName(name)),
        ),
{
    scope.lemma_lookup_empty_iff_unbound(name);
}

/// A store reports a name as unresolved only where no scope binds it, and
/// the name it reports is the one it was asked to store.
pub proof fn lemma_unresolved_name_is_unbound(
    scope: ScopeStackModel,
    name: Seq<char>,
    target_type: TypeId,
    target: MemoryBlock,
)
    ensures
        stored_identifier(scope, name, target_type, target) matches Some(
            Err(ErrorModel::UnresolvedName(unresolved)),
        ) ==> unresolved == name && scope.unbound(name),
{
    scope.lemma_lookup_empty_iff_unbound(name);
}

/// Types are checked by comparing handles. Where the type of the value is the
/// type of the target, the store gives no error. Where the two differ, it
/// gives the error that carries the definitions of both, and so no operation.
pub proof fn lemma_store_checks_types(
    scope: ScopeStackModel,
    name: Seq<char>,
    target_type: TypeId,
    target: MemoryBlock,
)
    requires
        scope.lookup(name).len() > 0,
        type_of(scope.lookup(name)[0]) is Some,
    ensures
        type_of(scope.lookup(name)[0]) == Some(target_type) ==> !(stored_identifier(
            scope,
            name,
            target_type,
            target,
        ) matches Some(Err(_))),
        type_of(scope.lookup(name)[0]) != Some(target_type) ==> stored_identifier(
            scope,
            name,
            target_type,
            target,
        ) == Some(
            Err::<Seq<Operation>, ErrorModel>(
                ErrorModel::MismatchedTypes {
                    expected: scope.get_type(target_type),
                    found: scope.get_type(type_of(scope.lookup(name)[0]).unwrap()),
                },
            ),
        ),
{
}

/// Storing a value in memory into a block of the same type and size gives
/// exactly one operation: the copy of as many cells as either block has.
pub proof fn lemma_store_block_is_one_copy(
    scope: ScopeStackModel,
    name: Seq<char>,
    memory: MemoryBlock,
    target_type: TypeId,
    target: MemoryBlock,
)
    requires
        scope.lookup(name).len() > 0,
        scope.lookup(name)[0] == (ItemModel::TypedBlock { type_id: target_type, memory }),
        memory.size == target.size,
    ensures
        stored_identifier(scope, name, target_type, target) == Some(
            Ok::<Seq<Operation>, ErrorModel>(
                seq![
                    Operation::Copy {
                        source: memory.position,
                        target: target.position,
                        size: target.size,
                    },
                ],
            ),
        ),
{
}

/// In a consistent scope a value and a block of one type have one size: the
/// store of a name into a block sized for its type is defined, unless the name
/// is bound to a function.
pub proof fn lemma_store_defined(
    scope: ScopeStackModel,
    name: Seq<char>,
    target_type: TypeId,
    target: MemoryBlock,
)
    requires
        scope.wf(),
        scope.valid_type(target_type),
        target.size == scope.size_of(target_type),
        storable(scope, name),
    ensures
        stored_identifier(scope, name, target_type, target) is Some,
{
    if scope.lookup(name).len() > 0 {
        scope.lemma_lookup_wf(name, 0);
        assert(scope.entry_wf(target_type.index as int));
    }
}

/// A store that succeeds changes every cell of the target block, and no other
/// cell.
pub proof fn lemma_store_initializes_target(
    scope: ScopeStackModel,
    name: Seq<char>,
    target_type: TypeId,
    target: MemoryBlock,
    address: int,
)
    requires
        target.wf(),
    ensures
        stored_identifier(scope, name, target_type, target) matches Some(Ok(operations)) ==> ((
        exists|k: int| 0 <= k < operations.len() && #[trigger] operations[k].writes(address))
            <==> target.contains(address)),
{
    if let Some(Ok(operations)) = stored_identifier(scope, name, target_type, target) {
        match scope.lookup(name)[0] {
            ItemModel::NumericLiteral(number) => {
                lemma_stored_number_initializes_target(scope, number, target_type, target, address);
            },
            ItemModel::Constant { bytes, .. } => {
                lemma_increments_write_block(target, bytes, address);
            },
            _ => {
                if target.contains(address) {
                    assert(operations[0].writes(address));
                }
            },
        }
    }
}

/// The increments that write a value of the size of a block change every cell
/// of the block, and no other cell.
pub proof fn lemma_increments_write_block(memory: MemoryBlock, bytes: Seq<u8>, address: int)
    requires
        memory.wf(),
        bytes.len() == memory.size,
    ensures
        (exists|k: int|
            0 <= k < increments(memory, bytes).len() && #[trigger] increments(
                memory,
                bytes,
            )[k].writes(address)) <==> memory.contains(address),
{
    let operations = increments(memory, bytes);
    if memory.contains(address) {
        assert(operations[address - memory.position].writes(address));
    }
}

} // verus!
