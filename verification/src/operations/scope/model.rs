//! The mathematical model of the scope stack: what a lookup returns, what a
//! declaration changes, and when a stack is consistent.

use vstd::prelude::*;

use crate::memory::MemoryBlock;
use crate::operations::item_type::ItemType;
use crate::operations::scope::{FunctionId, TypeEntry, TypeId};
use crate::parser::Number;

verus! {

/// What a [`ScopeItem`](crate::operations::scope::ScopeItem) is, with the
/// bytes of a constant as a sequence.
pub enum ItemModel {
    Constant { type_id: TypeId, bytes: Seq<u8> },
    NumericLiteral(Number),
    TypedBlock { type_id: TypeId, memory: MemoryBlock },
    Array { item: TypeId, size: usize, memory: MemoryBlock },
    BuiltInFunction { id: FunctionId },
}

impl ItemModel {
    /// The memory in which the value of the item lives, if it lives in memory.
    pub open spec fn memory(self) -> Option<MemoryBlock> {
        match self {
            ItemModel::TypedBlock { memory, .. } => Some(memory),
            ItemModel::Array { memory, .. } => Some(memory),
            _ => None,
        }
    }

    /// The two items share no cell of memory.
    pub open spec fn apart_from(self, other: ItemModel) -> bool {
        match (self.memory(), other.memory()) {
            (Some(mine), Some(theirs)) => mine.disjoint(theirs),
            _ => true,
        }
    }
}

/// A name and the item that it is bound to.
#[verifier::ext_equal]
pub struct BindingModel {
    pub name: Seq<char>,
    pub item: ItemModel,
}

/// A name and the type that it denotes.
pub struct TypeBindingModel {
    pub name: Seq<char>,
    pub type_id: TypeId,
}

/// One lexical scope: its bindings of items and of types, each in the order
/// in which they were declared.
#[verifier::ext_equal]
pub struct ScopeModel {
    pub items: Seq<BindingModel>,
    pub types: Seq<TypeBindingModel>,
}

/// The items bound to `name` among `items`, the most recently declared first.
pub open spec fn matching_items(items: Seq<BindingModel>, name: Seq<char>) -> Seq<ItemModel>
    decreases items.len(),
{
    if items.len() == 0 {
        Seq::empty()
    } else if items.last().name == name {
        seq![items.last().item] + matching_items(items.drop_last(), name)
    } else {
        matching_items(items.drop_last(), name)
    }
}

/// The type that the most recent binding of `name` among `types` denotes.
pub open spec fn matching_type(types: Seq<TypeBindingModel>, name: Seq<char>) -> Option<TypeId>
    decreases types.len(),
{
    if types.len() == 0 {
        None
    } else if types.last().name == name {
        Some(types.last().type_id)
    } else {
        matching_type(types.drop_last(), name)
    }
}

/// The items bound to `name` in the scopes `scopes`, whose last is the
/// innermost: those of the innermost scope first, and within one scope the
/// most recently declared first.
pub open spec fn visible_items(scopes: Seq<ScopeModel>, name: Seq<char>) -> Seq<ItemModel>
    decreases scopes.len(),
{
    if scopes.len() == 0 {
        Seq::empty()
    } else {
        matching_items(scopes.last().items, name) + visible_items(scopes.drop_last(), name)
    }
}

/// The type that `name` denotes in the scopes `scopes`, whose last is the
/// innermost: the binding of the innermost scope that has one.
pub open spec fn visible_type(scopes: Seq<ScopeModel>, name: Seq<char>) -> Option<TypeId>
    decreases scopes.len(),
{
    if scopes.len() == 0 {
        None
    } else {
        match matching_type(scopes.last().types, name) {
            Some(type_id) => Some(type_id),
            None => visible_type(scopes.drop_last(), name),
        }
    }
}

/// What a [`ScopeStack`](crate::operations::scope::ScopeStack) is: the
/// scopes from the outermost to the innermost, the registry of every type
/// declared so far, and the number of cells allocated so far.
#[verifier::ext_equal]
pub struct ScopeStackModel {
    pub scopes: Seq<ScopeModel>,
    pub registry: Seq<TypeEntry>,
    pub watermark: nat,
}

impl ScopeModel {
    /// A scope without bindings.
    pub open spec fn empty() -> ScopeModel {
        ScopeModel { items: Seq::empty(), types: Seq::empty() }
    }
}

impl ScopeStackModel {
    /// The stack of a fresh compilation unit: one scope, nothing declared,
    /// nothing allocated.
    pub open spec fn empty() -> ScopeStackModel {
        ScopeStackModel { scopes: seq![ScopeModel::empty()], registry: Seq::empty(), watermark: 0 }
    }

    /// The innermost scope.
    pub open spec fn top(self) -> ScopeModel {
        self.scopes.last()
    }

    /// The items bound to `name`, innermost scope first. The first one is the
    /// binding that shadows the others.
    pub open spec fn lookup(self, name: Seq<char>) -> Seq<ItemModel> {
        visible_items(self.scopes, name)
    }

    /// The type that `name` denotes, if it denotes one.
    pub open spec fn lookup_type(self, name: Seq<char>) -> Option<TypeId> {
        visible_type(self.scopes, name)
    }

    /// The handle was returned by this registry.
    pub open spec fn valid_type(self, type_id: TypeId) -> bool {
        type_id.index < self.registry.len()
    }

    /// The definition of a type.
    pub open spec fn get_type(self, type_id: TypeId) -> ItemType {
        self.registry[type_id.index as int].definition
    }

    /// The number of cells that a value of a type occupies.
    pub open spec fn size_of(self, type_id: TypeId) -> nat {
        self.registry[type_id.index as int].cells as nat
    }

    /// The number of cells that a value of the type defined by `definition`
    /// occupies.
    pub open spec fn cells_of(self, definition: ItemType) -> nat {
        match definition {
            ItemType::Primitive(cells) => cells as nat,
            ItemType::Array { item, size } => size as nat * self.size_of(item),
        }
    }

    /// The definition can be registered: an array is made of a type that is
    /// registered already, and a value of the type fits in the address space.
    pub open spec fn admits(self, definition: ItemType) -> bool {
        &&& definition matches ItemType::Array { item, .. } ==> self.valid_type(item)
        &&& self.cells_of(definition) <= usize::MAX
    }

    /// The entry at `index` of the registry records the number of cells of its
    /// definition, and an array is made of a type registered before it.
    pub open spec fn entry_wf(self, index: int) -> bool {
        let entry = self.registry[index];
        &&& entry.definition matches ItemType::Array { item, .. } ==> item.index < index
        &&& entry.cells == self.cells_of(entry.definition)
    }

    /// The item refers to registered types only, holds as many bytes or cells
    /// as its type asks for, and its memory was allocated.
    pub open spec fn item_wf(self, item: ItemModel) -> bool {
        match item {
            ItemModel::Constant { type_id, bytes } => {
                &&& self.valid_type(type_id)
                &&& bytes.len() == self.size_of(type_id)
            },
            ItemModel::NumericLiteral(_) => true,
            ItemModel::TypedBlock { type_id, memory } => {
                &&& self.valid_type(type_id)
                &&& memory.size == self.size_of(type_id)
                &&& memory.end() <= self.watermark
            },
            ItemModel::Array { item, size, memory } => {
                &&& self.valid_type(item)
                &&& memory.size == size * self.size_of(item)
                &&& memory.end() <= self.watermark
            },
            ItemModel::BuiltInFunction { .. } => true,
        }
    }

    /// No two bindings share a cell of memory: each block belongs to the one
    /// binding it was allocated for.
    pub open spec fn exclusive(self) -> bool {
        forall|s: int, i: int, t: int, j: int|
            #![trigger self.scopes[s].items[i], self.scopes[t].items[j]]
            0 <= s < self.scopes.len() && 0 <= i < self.scopes[s].items.len() && 0 <= t
                < self.scopes.len() && 0 <= j < self.scopes[t].items.len() && (s != t || i != j)
                ==> self.scopes[s].items[i].item.apart_from(self.scopes[t].items[j].item)
    }

    /// The invariant of the scope stack: there is always a scope to declare
    /// in, the registry is consistent, every binding is, memory is not shared,
    /// and all allocated cells have an address.
    pub open spec fn wf(self) -> bool {
        &&& self.scopes.len() > 0
        &&& self.watermark <= usize::MAX
        &&& self.registry.len() <= usize::MAX
        &&& self.exclusive()
        &&& forall|index: int| 0 <= index < self.registry.len() ==> self.entry_wf(index)
        &&& forall|s: int, i: int|
            0 <= s < self.scopes.len() && 0 <= i < self.scopes[s].items.len() ==> self.item_wf(
                #[trigger] self.scopes[s].items[i].item,
            )
        &&& forall|s: int, i: int|
            0 <= s < self.scopes.len() && 0 <= i < self.scopes[s].types.len() ==> self.valid_type(
                #[trigger] self.scopes[s].types[i].type_id,
            )
    }

    /// The stack after entering a new, empty scope.
    pub open spec fn enter(self) -> ScopeStackModel {
        ScopeStackModel { scopes: self.scopes.push(ScopeModel::empty()), ..self }
    }

    /// The stack after leaving the innermost scope. Its bindings are gone; the
    /// types it declared stay registered and its memory stays allocated.
    pub open spec fn leave(self) -> ScopeStackModel {
        ScopeStackModel { scopes: self.scopes.drop_last(), ..self }
    }

    /// The stack after binding `name` to `item` in the innermost scope.
    pub open spec fn bind(self, name: Seq<char>, item: ItemModel) -> ScopeStackModel {
        let top = ScopeModel {
            items: self.top().items.push(BindingModel { name, item }),
            ..self.top()
        };
        ScopeStackModel { scopes: self.scopes.drop_last().push(top), ..self }
    }

    /// The block that the next allocation of `cells` cells returns.
    pub open spec fn next_block(self, cells: nat) -> MemoryBlock {
        MemoryBlock { position: self.watermark as usize, size: cells as usize }
    }

    /// The stack after allocating `cells` cells.
    pub open spec fn reserve(self, cells: nat) -> ScopeStackModel {
        ScopeStackModel { watermark: self.watermark + cells, ..self }
    }

    /// The stack after declaring a variable `name` of a type: fresh memory for
    /// one value of the type, bound to the name in the innermost scope.
    pub open spec fn declare(self, name: Seq<char>, type_id: TypeId) -> ScopeStackModel {
        let memory = self.next_block(self.size_of(type_id));
        self.reserve(self.size_of(type_id)).bind(name, ItemModel::TypedBlock { type_id, memory })
    }

    /// The stack after declaring an array `name` of `size` values of the type
    /// `item`.
    pub open spec fn declare_array(self, name: Seq<char>, item: TypeId, size: usize)
        -> ScopeStackModel {
        let cells = size as nat * self.size_of(item);
        let memory = self.next_block(cells);
        self.reserve(cells).bind(name, ItemModel::Array { item, size, memory })
    }

    /// The handle that the next declared type gets.
    pub open spec fn next_type(self) -> TypeId {
        TypeId { index: self.registry.len() as usize }
    }

    /// The stack after declaring the type `name` with a definition: a new
    /// entry in the registry, and the name bound to it in the innermost scope.
    pub open spec fn declare_type(self, name: Seq<char>, definition: ItemType)
        -> ScopeStackModel {
        let entry = TypeEntry { definition, cells: self.cells_of(definition) as usize };
        let top = ScopeModel {
            types: self.top().types.push(TypeBindingModel { name, type_id: self.next_type() }),
            ..self.top()
        };
        ScopeStackModel {
            scopes: self.scopes.drop_last().push(top),
            registry: self.registry.push(entry),
            ..self
        }
    }

    /// No binding of `name` is in any scope.
    pub open spec fn unbound(self, name: Seq<char>) -> bool {
        forall|s: int, i: int|
            0 <= s < self.scopes.len() && 0 <= i < self.scopes[s].items.len() ==> (
            #[trigger] self.scopes[s].items[i]).name != name
    }

    /// No scope declares a type called `name`.
    pub open spec fn unbound_type(self, name: Seq<char>) -> bool {
        forall|s: int, i: int|
            0 <= s < self.scopes.len() && 0 <= i < self.scopes[s].types.len() ==> (
            #[trigger] self.scopes[s].types[i]).name != name
    }
}

} // verus!
