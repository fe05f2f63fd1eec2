//! The stack of lexical scopes and the registry of declared types.

use vstd::prelude::*;

use crate::memory::{MemoryBlock, StaticAllocator};
use crate::operations::item_type::ItemType;
use crate::operations::scope::model::{
    matching_items, matching_type, visible_items, visible_type, BindingModel, ItemModel,
    ScopeModel, ScopeStackModel, TypeBindingModel,
};
use crate::parser::{Identifier, Number};

pub mod laws;
pub mod model;

verus! {

/// A handle to a declared type. Two handles are equal exactly when they
/// denote the same declaration; comparing handles is how types are checked.
#[derive(Debug, Clone, Copy, PartialEq, Eq, Hash, Structural)]
pub struct TypeId {
    pub index: usize,
}

/// A handle to a function that the language provides.
pub type FunctionId = usize;

/// What a name can be bound to.
#[derive(Debug, Clone, PartialEq, Eq)]
pub enum ScopeItem {
    /// A fixed value of a known type, not tied to any memory.
    Constant { type_id: TypeId, bytes: Vec<u8> },
    /// A literal whose bytes are fixed only by the type it is stored to.
    NumericLiteral(Number),
    /// A value of a known type that lives in memory.
    TypedBlock { type_id: TypeId, memory: MemoryBlock },
    /// `size` values of the type `item` that live in memory one after the
    /// other.
    Array { item: TypeId, size: usize, memory: MemoryBlock },
    /// A function that the language provides. It has no value in memory.
    BuiltInFunction { id: FunctionId },
}

impl View for ScopeItem {
    type V = ItemModel;

    open spec fn view(&self) -> ItemModel {
        match self {
            ScopeItem::Constant { type_id, bytes } => ItemModel::Constant {
                type_id: *type_id,
                bytes: bytes@,
            },
            ScopeItem::NumericLiteral(number) => ItemModel::NumericLiteral(*number),
            ScopeItem::TypedBlock { type_id, memory } => ItemModel::TypedBlock {
                type_id: *type_id,
                memory: *memory,
            },
            ScopeItem::Array { item, size, memory } => ItemModel::Array {
                item: *item,
                size: *size,
                memory: *memory,
            },
            ScopeItem::BuiltInFunction { id } => ItemModel::BuiltInFunction { id: *id },
        }
    }
}

/// The models of the items that a lookup returned.
pub open spec fn item_models(items: Seq<&ScopeItem>) -> Seq<ItemModel> {
    Seq::new(items.len(), |k: int| items[k]@)
}

/// One entry of the registry of types: the definition of the type and the
/// number of cells that a value of it occupies.
#[derive(Debug, Clone, Copy, PartialEq, Eq, Structural)]
pub struct TypeEntry {
    pub definition: ItemType,
    pub cells: usize,
}

struct Binding {
    name: Identifier,
    item: ScopeItem,
}

struct TypeBinding {
    name: Identifier,
    type_id: TypeId,
}

struct Scope {
    items: Vec<Binding>,
    types: Vec<TypeBinding>,
}

impl View for Binding {
    type V = BindingModel;

    closed spec fn view(&self) -> BindingModel {
        BindingModel { name: self.name@, item: self.item@ }
    }
}

impl View for TypeBinding {
    type V = TypeBindingModel;

    closed spec fn view(&self) -> TypeBindingModel {
        TypeBindingModel { name: self.name@, type_id: self.type_id }
    }
}

impl View for Scope {
    type V = ScopeModel;

    closed spec fn view(&self) -> ScopeModel {
        ScopeModel {
            items: Seq::new(self.items@.len(), |i: int| self.items@[i]@),
            types: Seq::new(self.types@.len(), |i: int| self.types@[i]@),
        }
    }
}

/// The lexical scopes of a compilation unit, the registry of its types and
/// the allocator of its memory.
pub struct ScopeStack {
    scopes: Vec<Scope>,
    types: Vec<TypeEntry>,
    allocator: StaticAllocator,
}

impl View for ScopeStack {
    type V = ScopeStackModel;

    closed spec fn view(&self) -> ScopeStackModel {
        ScopeStackModel {
            scopes: Seq::new(self.scopes@.len(), |s: int| self.scopes@[s]@),
            registry: self.types@,
            watermark: self.allocator.watermark(),
        }
    }
}

impl ScopeStack {
    /// A stack with one scope, in which nothing is declared yet.
    pub fn new() -> (stack: ScopeStack)
        ensures
            stack@ == ScopeStackModel::empty(),
            stack@.wf(),
    {
        let mut scopes: Vec<Scope> = Vec::new();
        scopes.push(Scope { items: Vec::new(), types: Vec::new() });
        let stack = ScopeStack { scopes, types: Vec::new(), allocator: StaticAllocator::new() };
        proof {
            assert(stack@ =~~= ScopeStackModel::empty());
        }
        stack
    }

    /// Enters a new scope, nested in the current one.
    pub fn push_scope(&mut self)
        ensures
            final(self)@ == old(self)@.enter(),
            old(self)@.wf() ==> final(self)@.wf(),
    {
        self.scopes.push(Scope { items: Vec::new(), types: Vec::new() });
        proof {
            assert(self@ =~~= old(self)@.enter());
            if old(self)@.wf() {
                old(self)@.lemma_enter_wf();
            }
        }
    }

    /// Leaves the current scope, unless it is the outermost one. Says whether
    /// a scope was left.
    pub fn pop_scope(&mut self) -> (left: bool)
        ensures
            left == (old(self)@.scopes.len() > 1),
            left ==> final(self)@ == old(self)@.leave(),
            !left ==> final(self)@ == old(self)@,
            old(self)@.wf() ==> final(self)@.wf(),
    {
        if self.scopes.len() > 1 {
            self.scopes.pop();
            proof {
                if old(self)@.wf() {
                    old(self)@.lemma_leave_wf();
                }
            }
            true
        } else {
            false
        }
    }

    /// The number of scopes that are open.
    pub fn depth(&self) -> (depth: usize)
        ensures
            depth == self@.scopes.len(),
    {
        self.scopes.len()
    }

    fn bind(&mut self, name: Identifier, item: ScopeItem)
        requires
            old(self)@.scopes.len() > 0,
        ensures
            final(self)@ == old(self)@.bind(name@, item@),
    {
        let mut top = self.scopes.pop().unwrap();
        top.items.push(Binding { name, item });
        self.scopes.push(top);
        proof {
            assert(self@ =~~= old(self)@.bind(name@, item@));
        }
    }

    /// Registers a type under a name in the current scope and returns its
    /// handle. The handle stays valid for as long as the stack lives.
    pub fn declare_type(&mut self, name: Identifier, definition: ItemType) -> (type_id: TypeId)
        requires
            old(self)@.wf(),
            old(self)@.admits(definition),
        ensures
            final(self)@ == old(self)@.declare_type(name@, definition),
            type_id == old(self)@.next_type(),
            final(self)@.wf(),
    {
        let cells = match definition {
            ItemType::Primitive(cells) => cells,
            ItemType::Array { item, size } => size * self.types[item.index].cells,
        };
        let type_id = TypeId { index: self.types.len() };
        self.types.push(TypeEntry { definition, cells });
        let mut top = self.scopes.pop().unwrap();
        top.types.push(TypeBinding { name, type_id });
        self.scopes.push(top);
        proof {
            let declared = old(self)@.declare_type(name@, definition);
            assert(self@ =~~= declared);
            assert(self.types@.len() == self.types.len());
            old(self)@.lemma_declare_type_wf(name@, definition);
        }
        type_id
    }

    /// Declares a variable: allocates memory for one value of the type and
    /// binds the name to it in the current scope. Returns the memory.
    pub fn declare(&mut self, name: Identifier, type_id: TypeId) -> (memory: MemoryBlock)
        requires
            old(self)@.wf(),
            old(self)@.valid_type(type_id),
            old(self)@.watermark + old(self)@.size_of(type_id) <= usize::MAX,
        ensures
            final(self)@ == old(self)@.declare(name@, type_id),
            memory == old(self)@.next_block(old(self)@.size_of(type_id)),
            final(self)@.wf(),
    {
        let memory = self.allocator.allocate(self.types[type_id.index].cells);
        self.bind(name, ScopeItem::TypedBlock { type_id, memory });
        proof {
            old(self)@.lemma_declare_wf(name@, type_id);
        }
        memory
    }

    /// Declares an array: allocates memory for `size` values of the type
    /// `item` and binds the name to it in the current scope. Returns the
    /// memory.
    pub fn declare_array(&mut self, name: Identifier, item: TypeId, size: usize) -> (memory:
        MemoryBlock)
        requires
            old(self)@.wf(),
            old(self)@.valid_type(item),
            old(self)@.watermark + size * old(self)@.size_of(item) <= usize::MAX,
        ensures
            final(self)@ == old(self)@.declare_array(name@, item, size),
            memory == old(self)@.next_block(size as nat * old(self)@.size_of(item)),
            final(self)@.wf(),
    {
        let cells = size * self.types[item.index].cells;
        let memory = self.allocator.allocate(cells);
        self.bind(name, ScopeItem::Array { item, size, memory });
        proof {
            old(self)@.lemma_declare_array_wf(name@, item, size);
        }
        memory
    }

    /// Binds the name to a constant in the current scope. The constant has as
    /// many bytes as a value of its type has cells.
    pub fn declare_constant(&mut self, name: Identifier, type_id: TypeId, bytes: Vec<u8>)
        requires
            old(self)@.wf(),
            old(self)@.valid_type(type_id),
            bytes@.len() == old(self)@.size_of(type_id),
        ensures
            final(self)@ == old(self)@.bind(name@, ItemModel::Constant { type_id, bytes: bytes@ }),
            final(self)@.wf(),
    {
        proof {
            old(self)@.lemma_bind_wf(name@, ItemModel::Constant { type_id, bytes: bytes@ });
        }
        self.bind(name, ScopeItem::Constant { type_id, bytes });
    }

    /// Binds the name to a numeric literal in the current scope.
    pub fn declare_numeric_literal(&mut self, name: Identifier, number: Number)
        requires
            old(self)@.wf(),
        ensures
            final(self)@ == old(self)@.bind(name@, ItemModel::NumericLiteral(number)),
            final(self)@.wf(),
    {
        proof {
            old(self)@.lemma_bind_wf(name@, ItemModel::NumericLiteral(number));
        }
        self.bind(name, ScopeItem::NumericLiteral(number));
    }

    /// Binds the name to a built-in function in the current scope.
    pub fn declare_builtin_function(&mut self, name: Identifier, id: FunctionId)
        requires
            old(self)@.wf(),
        ensures
            final(self)@ == old(self)@.bind(name@, ItemModel::BuiltInFunction { id }),
            final(self)@.wf(),
    {
        proof {
            old(self)@.lemma_bind_wf(name@, ItemModel::BuiltInFunction { id });
        }
        self.bind(name, ScopeItem::BuiltInFunction { id });
    }

    /// The definition of a type.
    pub fn get_type(&self, type_id: TypeId) -> (definition: &ItemType)
        requires
            self@.valid_type(type_id),
        ensures
            *definition == self@.get_type(type_id),
    {
        &self.types[type_id.index].definition
    }

    /// The number of cells that a value of a type occupies.
    pub fn size_of(&self, type_id: TypeId) -> (cells: usize)
        requires
            self@.valid_type(type_id),
        ensures
            cells == self@.size_of(type_id),
    {
        self.types[type_id.index].cells
    }

    /// Whether the handle was returned by this stack.
    pub fn is_valid_type(&self, type_id: TypeId) -> (valid: bool)
        ensures
            valid == self@.valid_type(type_id),
    {
        type_id.index < self.types.len()
    }

    /// The number of cells allocated so far.
    pub fn allocated(&self) -> (cells: usize)
        ensures
            cells == self@.watermark,
    {
        self.allocator.allocated()
    }

    /// Everything that the name is bound to: the items of the innermost scope
    /// first, and within one scope the most recently declared first. Empty if
    /// the name is unbound.
    pub fn lookup(&self, name: &Identifier) -> (found: Vec<&ScopeItem>)
        ensures
            item_models(found@) == self@.lookup(name@),
    {
        let mut found: Vec<&ScopeItem> = Vec::new();
        let mut depth: usize = self.scopes.len();
        proof {
            assert(self@.scopes.take(depth as int) =~= self@.scopes);
        }
        while depth > 0
            invariant
                depth <= self.scopes.len(),
                item_models(found@) + visible_items(self@.scopes.take(depth as int), name@)
                    == self@.lookup(name@),
            decreases depth,
        {
            depth = depth - 1;
            let scope = &self.scopes[depth];
            let mut i: usize = scope.items.len();
            proof {
                let outer = self@.scopes.take(depth as int);
                assert(self@.scopes.take(depth + 1).drop_last() =~= outer);
                assert(scope@.items.take(i as int) =~= scope@.items);
                assert(item_models(found@) + (matching_items(scope@.items, name@) + visible_items(
                    outer,
                    name@,
                )) =~= item_models(found@) + matching_items(scope@.items, name@) + visible_items(
                    outer,
                    name@,
                ));
            }
            while i > 0
                invariant
                    i <= scope.items.len(),
                    item_models(found@) + matching_items(scope@.items.take(i as int), name@)
                        + visible_items(self@.scopes.take(depth as int), name@) == self@.lookup(
                        name@,
                    ),
                decreases i,
            {
                i = i - 1;
                let binding = &scope.items[i];
                let ghost before = item_models(found@);
                proof {
                    assert(scope@.items.take(i + 1).drop_last() =~= scope@.items.take(i as int));
                }
                if binding.name == *name {
                    found.push(&binding.item);
                    proof {
                        let rest = matching_items(scope@.items.take(i as int), name@);
                        assert(before + (seq![binding.item@] + rest) =~= before.push(binding.item@)
                            + rest);
                    }
                }
            }
        }
        found
    }

    /// The type that the name denotes: the one of the innermost scope in which
    /// the name is declared as a type, and there the most recent.
    pub fn lookup_type(&self, name: &Identifier) -> (found: Option<TypeId>)
        ensures
            found == self@.lookup_type(name@),
    {
        let mut depth: usize = self.scopes.len();
        proof {
            assert(self@.scopes.take(depth as int) =~= self@.scopes);
        }
        while depth > 0
            invariant
                depth <= self.scopes.len(),
                visible_type(self@.scopes.take(depth as int), name@) == self@.lookup_type(name@),
            decreases depth,
        {
            depth = depth - 1;
            let scope = &self.scopes[depth];
            let mut i: usize = scope.types.len();
            proof {
                assert(self@.scopes.take(depth + 1).drop_last() =~= self@.scopes.take(
                    depth as int,
                ));
                assert(scope@.types.take(i as int) =~= scope@.types);
            }
            while i > 0
                invariant
                    i <= scope.types.len(),
                    matching_type(scope@.types.take(i as int), name@) == matching_type(
                        scope@.types,
                        name@,
                    ),
                    match matching_type(scope@.types, name@) {
                        Some(type_id) => self@.lookup_type(name@) == Some(type_id),
                        None => self@.lookup_type(name@) == visible_type(
                            self@.scopes.take(depth as int),
                            name@,
                        ),
                    },
                decreases i,
            {
                i = i - 1;
                let binding = &scope.types[i];
                proof {
                    assert(scope@.types.take(i + 1).drop_last() =~= scope@.types.take(i as int));
                }
                if binding.name == *name {
                    return Some(binding.type_id);
                }
            }
        }
        None
    }
}

} // verus!
