//! Laws of the scope stack, proved of its model: how declarations show in
//! lookups, that they keep the stack consistent, and that scopes are lexical.

use vstd::prelude::*;

use crate::operations::item_type::ItemType;
use crate::operations::scope::model::{
    matching_items, matching_type, visible_items, visible_type, BindingModel, ItemModel,
    ScopeModel, ScopeStackModel, TypeBindingModel,
};
use crate::operations::scope::TypeId;

verus! {

impl ScopeStackModel {
    /// Binding an item in the innermost scope puts it in front of everything
    /// else that its name is bound to, and leaves other names alone.
    pub proof fn lemma_bind_lookup(self, name: Seq<char>, item: ItemModel, other: Seq<char>)
        requires
            self.scopes.len() > 0,
        ensures
            other == name ==> self.bind(name, item).lookup(other) == seq![item] + self.lookup(
                other,
            ),
            other != name ==> self.bind(name, item).lookup(other) == self.lookup(other),
            self.bind(name, item).lookup_type(other) == self.lookup_type(other),
    {
        let bound = self.bind(name, item);
        assert(bound.scopes.drop_last() =~= self.scopes.drop_last());
        assert(bound.top().items.drop_last() =~= self.top().items);
    }

    /// Declaring a type binds its name to the new handle and changes no
    /// binding of an item nor of another type name.
    pub proof fn lemma_declare_type_lookup(
        self,
        name: Seq<char>,
        definition: ItemType,
        other: Seq<char>,
    )
        requires
            self.scopes.len() > 0,
        ensures
            self.declare_type(name, definition).lookup(other) == self.lookup(other),
            other == name ==> self.declare_type(name, definition).lookup_type(other) == Some(
                self.next_type(),
            ),
            other != name ==> self.declare_type(name, definition).lookup_type(other)
                == self.lookup_type(other),
    {
        let declared = self.declare_type(name, definition);
        assert(declared.scopes.drop_last() =~= self.scopes.drop_last());
        assert(declared.top().types.drop_last() =~= self.top().types);
    }

    /// Declaring a variable puts its memory in front of everything else that
    /// its name is bound to, and leaves other names and all types alone.
    pub proof fn lemma_declare_lookup(self, name: Seq<char>, type_id: TypeId, other: Seq<char>)
        requires
            self.scopes.len() > 0,
        ensures
            other == name ==> self.declare(name, type_id).lookup(other) == seq![
                ItemModel::TypedBlock {
                    type_id,
                    memory: self.next_block(self.size_of(type_id)),
                },
            ] + self.lookup(other),
            other != name ==> self.declare(name, type_id).lookup(other) == self.lookup(other),
            self.declare(name, type_id).lookup_type(other) == self.lookup_type(other),
            self.declare(name, type_id).registry == self.registry,
    {
        let cells = self.size_of(type_id);
        let memory = self.next_block(cells);
        self.reserve(cells).lemma_bind_lookup(
            name,
            ItemModel::TypedBlock { type_id, memory },
            other,
        );
    }

    /// A new scope hides nothing.
    pub proof fn lemma_enter_lookup(self, name: Seq<char>)
        ensures
            self.enter().lookup(name) == self.lookup(name),
            self.enter().lookup_type(name) == self.lookup_type(name),
    {
        let entered = self.enter();
        assert(entered.scopes.drop_last() =~= self.scopes);
    }

    /// Binding an item that is consistent, and whose memory is its own, keeps
    /// the stack consistent.
    pub proof fn lemma_bind_wf(self, name: Seq<char>, item: ItemModel)
        requires
            self.wf(),
            self.item_wf(item),
            forall|s: int, i: int|
                0 <= s < self.scopes.len() && 0 <= i < self.scopes[s].items.len() ==> (
                #[trigger] self.scopes[s].items[i]).item.apart_from(item),
        ensures
            self.bind(name, item).wf(),
    {
        let bound = self.bind(name, item);
        let last = self.scopes.len() - 1;
        let count = self.scopes[last].items.len() as int;
        assert forall|s: int, i: int, t: int, j: int|
            #![trigger bound.scopes[s].items[i], bound.scopes[t].items[j]]
            0 <= s < bound.scopes.len() && 0 <= i < bound.scopes[s].items.len() && 0 <= t
                < bound.scopes.len() && 0 <= j < bound.scopes[t].items.len() && (s != t || i
                != j) implies bound.scopes[s].items[i].item.apart_from(
            bound.scopes[t].items[j].item,
        ) by {
            let first_is_new = s == last && i == count;
            let second_is_new = t == last && j == count;
            if !first_is_new {
                assert(bound.scopes[s].items[i] == self.scopes[s].items[i]);
            }
            if !second_is_new {
                assert(bound.scopes[t].items[j] == self.scopes[t].items[j]);
            }
        }
        assert forall|index: int| 0 <= index < bound.registry.len() implies bound.entry_wf(
            index,
        ) by {
            assert(self.entry_wf(index));
        }
    }

    /// Allocating cells that have an address keeps the stack consistent.
    pub proof fn lemma_reserve_wf(self, cells: nat)
        requires
            self.wf(),
            self.watermark + cells <= usize::MAX,
        ensures
            self.reserve(cells).wf(),
    {
        let reserved = self.reserve(cells);
        assert forall|index: int| 0 <= index < reserved.registry.len() implies reserved.entry_wf(
            index,
        ) by {
            assert(self.entry_wf(index));
        }
    }

    /// A new scope keeps the stack consistent.
    pub proof fn lemma_enter_wf(self)
        requires
            self.wf(),
        ensures
            self.enter().wf(),
    {
        let entered = self.enter();
        assert forall|index: int| 0 <= index < entered.registry.len() implies entered.entry_wf(
            index,
        ) by {
            assert(self.entry_wf(index));
        }
    }

    /// Leaving a scope other than the outermost keeps the stack consistent.
    pub proof fn lemma_leave_wf(self)
        requires
            self.wf(),
            self.scopes.len() > 1,
        ensures
            self.leave().wf(),
    {
        let left = self.leave();
        assert forall|index: int| 0 <= index < left.registry.len() implies left.entry_wf(
            index,
        ) by {
            assert(self.entry_wf(index));
        }
    }

    /// Declaring a variable of a registered type, where memory is left for
    /// it, keeps the stack consistent.
    pub proof fn lemma_declare_wf(self, name: Seq<char>, type_id: TypeId)
        requires
            self.wf(),
            self.valid_type(type_id),
            self.watermark + self.size_of(type_id) <= usize::MAX,
        ensures
            self.declare(name, type_id).wf(),
    {
        let cells = self.size_of(type_id);
        self.lemma_reserve_wf(cells);
        self.reserve(cells).lemma_bind_wf(
            name,
            ItemModel::TypedBlock { type_id, memory: self.next_block(cells) },
        );
    }

    /// Declaring an array of a registered type, where memory is left for it,
    /// keeps the stack consistent.
    pub proof fn lemma_declare_array_wf(self, name: Seq<char>, item: TypeId, size: usize)
        requires
            self.wf(),
            self.valid_type(item),
            self.watermark + size * self.size_of(item) <= usize::MAX,
        ensures
            self.declare_array(name, item, size).wf(),
    {
        let cells = size as nat * self.size_of(item);
        self.lemma_reserve_wf(cells);
        self.reserve(cells).lemma_bind_wf(
            name,
            ItemModel::Array { item, size, memory: self.next_block(cells) },
        );
    }

    /// Declaring a type that the registry admits keeps the stack consistent.
    /// The new handle is none of those given out before, and nothing changes
    /// about the types declared before.
    pub proof fn lemma_declare_type_wf(self, name: Seq<char>, definition: ItemType)
        requires
            self.wf(),
            self.admits(definition),
            self.registry.len() < usize::MAX,
        ensures
            self.declare_type(name, definition).wf(),
            !self.valid_type(self.next_type()),
            self.declare_type(name, definition).valid_type(self.next_type()),
            self.declare_type(name, definition).get_type(self.next_type()) == definition,
            self.declare_type(name, definition).size_of(self.next_type()) == self.cells_of(
                definition,
            ),
            forall|type_id: TypeId| #[trigger]
                self.valid_type(type_id) ==> {
                    let declared = self.declare_type(name, definition);
                    &&& declared.valid_type(type_id)
                    &&& declared.get_type(type_id) == self.get_type(type_id)
                    &&& declared.size_of(type_id) == self.size_of(type_id)
                },
    {
        let declared = self.declare_type(name, definition);
        assert forall|index: int| 0 <= index < declared.registry.len() implies declared.entry_wf(
            index,
        ) by {
            if index < self.registry.len() {
                assert(self.entry_wf(index));
            }
        }
    }

    /// In a consistent stack, whatever a name is bound to is consistent.
    pub proof fn lemma_lookup_wf(self, name: Seq<char>, k: int)
        requires
            self.wf(),
            0 <= k < self.lookup(name).len(),
        ensures
            self.item_wf(self.lookup(name)[k]),
    {
        lemma_visible_items_origin(self.scopes, name, k);
    }

    /// In a consistent stack, a type name denotes a registered type.
    pub proof fn lemma_lookup_type_wf(self, name: Seq<char>)
        requires
            self.wf(),
            self.lookup_type(name) is Some,
        ensures
            self.valid_type(self.lookup_type(name).unwrap()),
    {
        lemma_visible_type_origin(self.scopes, name);
    }

    /// A lookup is empty exactly for the names that no scope binds.
    pub proof fn lemma_lookup_empty_iff_unbound(self, name: Seq<char>)
        ensures
            self.lookup(name).len() == 0 <==> self.unbound(name),
    {
        if self.lookup(name).len() > 0 {
            lemma_visible_items_origin(self.scopes, name, 0);
        } else {
            assert forall|s: int, i: int|
                0 <= s < self.scopes.len() && 0 <= i < self.scopes[s].items.len() implies (
                #[trigger] self.scopes[s].items[i]).name != name by {
                if self.scopes[s].items[i].name == name {
                    lemma_visible_items_found(self.scopes, name, s, i);
                }
            }
        }
    }

    /// A name denotes a type exactly when some scope declares a type of that
    /// name.
    pub proof fn lemma_lookup_type_none_iff_unbound(self, name: Seq<char>)
        ensures
            self.lookup_type(name) is None <==> self.unbound_type(name),
    {
        if self.lookup_type(name) is Some {
            lemma_visible_type_origin(self.scopes, name);
        } else {
            assert forall|s: int, i: int|
                0 <= s < self.scopes.len() && 0 <= i < self.scopes[s].types.len() implies (
                #[trigger] self.scopes[s].types[i]).name != name by {
                if self.scopes[s].types[i].name == name {
                    lemma_visible_type_found(self.scopes, name, s, i);
                }
            }
        }
    }

    /// Every handle that the registry returned stays valid and keeps its
    /// definition and its size, whatever is declared and whichever scope is
    /// entered or left.
    pub proof fn lemma_handles_stay_valid(
        self,
        type_id: TypeId,
        name: Seq<char>,
        item: ItemModel,
        declared: TypeId,
        size: usize,
        definition: ItemType,
    )
        requires
            self.valid_type(type_id),
        ensures
            self.bind(name, item).registry == self.registry,
            self.declare(name, declared).registry == self.registry,
            self.declare_array(name, declared, size).registry == self.registry,
            self.enter().registry == self.registry,
            self.leave().registry == self.registry,
            self.declare_type(name, definition).valid_type(type_id),
            self.declare_type(name, definition).get_type(type_id) == self.get_type(type_id),
            self.declare_type(name, definition).size_of(type_id) == self.size_of(type_id),
    {
    }

    /// A declaration changes the innermost scope only: the enclosing scopes
    /// are as they were.
    pub proof fn lemma_enclosing_scopes_stay(
        self,
        name: Seq<char>,
        item: ItemModel,
        type_id: TypeId,
        definition: ItemType,
    )
        requires
            self.scopes.len() > 0,
        ensures
            self.bind(name, item).scopes.drop_last() == self.scopes.drop_last(),
            self.declare(name, type_id).scopes.drop_last() == self.scopes.drop_last(),
            self.declare_type(name, definition).scopes.drop_last() == self.scopes.drop_last(),
    {
        assert(self.declare_type(name, definition).scopes.drop_last()
            =~= self.scopes.drop_last());
    }

    /// Scopes are lexical: what is declared in a scope is gone once the scope
    /// is left, and the scopes are as they were before it was entered.
    pub proof fn lemma_left_scope_is_forgotten(self, name: Seq<char>, item: ItemModel)
        ensures
            self.enter().leave() == self,
            self.enter().bind(name, item).leave() == self,
    {
    }

    /// Shadowing: of two bindings of one name in nested scopes, a lookup from
    /// the inner scope returns the inner one first and the outer one next.
    /// Once the inner scope is left, the outer one is first again.
    pub proof fn lemma_shadowing(self, name: Seq<char>, outer: ItemModel, inner: ItemModel)
        requires
            self.scopes.len() > 0,
        ensures
            self.bind(name, outer).enter().bind(name, inner).lookup(name)[0] == inner,
            self.bind(name, outer).enter().bind(name, inner).lookup(name)[1] == outer,
            self.bind(name, outer).enter().bind(name, inner).leave().lookup(name)[0] == outer,
    {
        let outside = self.bind(name, outer);
        let inside = outside.enter();
        outside.lemma_enter_lookup(name);
        inside.lemma_bind_lookup(name, inner, name);
    }

    /// Shadowing of declared variables: of two variables of one name declared
    /// in nested scopes, a lookup from the inner scope returns the memory of
    /// the inner one first and that of the outer one next.
    pub proof fn lemma_shadowing_declared(self, name: Seq<char>, outer: TypeId, inner: TypeId)
        requires
            self.scopes.len() > 0,
        ensures
            ({
                let outside = self.declare(name, outer);
                let inside = outside.enter().declare(name, inner);
                &&& inside.lookup(name)[0] == ItemModel::TypedBlock {
                    type_id: inner,
                    memory: outside.next_block(outside.size_of(inner)),
                }
                &&& inside.lookup(name)[1] == ItemModel::TypedBlock {
                    type_id: outer,
                    memory: self.next_block(self.size_of(outer)),
                }
            }),
    {
        let outside = self.declare(name, outer);
        outside.lemma_enter_lookup(name);
        outside.enter().lemma_declare_lookup(name, inner, name);
    }

    /// Memory is never shared unasked: whatever two lookups return, be it for
    /// two names or at two places for one name, no two of the items share a
    /// cell of memory.
    pub proof fn lemma_bindings_are_apart(
        self,
        first: Seq<char>,
        k: int,
        second: Seq<char>,
        l: int,
    )
        requires
            self.wf(),
            0 <= k < self.lookup(first).len(),
            0 <= l < self.lookup(second).len(),
            first != second || k != l,
        ensures
            self.lookup(first)[k].apart_from(self.lookup(second)[l]),
    {
        if first != second {
            let (s, i) = lemma_visible_items_origin(self.scopes, first, k);
            let (t, j) = lemma_visible_items_origin(self.scopes, second, l);
            assert(self.scopes[s].items[i].item.apart_from(self.scopes[t].items[j].item));
        } else if k < l {
            let ((s, i), (t, j)) = lemma_visible_items_origins(self.scopes, first, k, l);
            assert(self.scopes[s].items[i].item.apart_from(self.scopes[t].items[j].item));
        } else {
            let ((s, i), (t, j)) = lemma_visible_items_origins(self.scopes, first, l, k);
            assert(self.scopes[s].items[i].item.apart_from(self.scopes[t].items[j].item));
        }
    }

    /// The block that the next declaration gets has no cell in common with
    /// the memory of anything in scope.
    pub proof fn lemma_next_block_is_fresh(self, cells: nat, name: Seq<char>, k: int)
        requires
            self.wf(),
            0 <= k < self.lookup(name).len(),
        ensures
            self.lookup(name)[k].memory() matches Some(memory) ==> memory.disjoint(
                self.next_block(cells),
            ),
    {
        self.lemma_lookup_wf(name, k);
    }
}

/// A binding of `name` in one of the scopes is visible.
pub proof fn lemma_visible_items_found(scopes: Seq<ScopeModel>, name: Seq<char>, s: int, i: int)
    requires
        0 <= s < scopes.len(),
        0 <= i < scopes[s].items.len(),
        scopes[s].items[i].name == name,
    ensures
        visible_items(scopes, name).len() > 0,
    decreases scopes.len(),
{
    if s == scopes.len() - 1 {
        lemma_matching_items_found(scopes[s].items, name, i);
    } else {
        lemma_visible_items_found(scopes.drop_last(), name, s, i);
    }
}

/// A type bound to `name` in one of the scopes makes the name denote a type.
pub proof fn lemma_visible_type_found(scopes: Seq<ScopeModel>, name: Seq<char>, s: int, i: int)
    requires
        0 <= s < scopes.len(),
        0 <= i < scopes[s].types.len(),
        scopes[s].types[i].name == name,
    ensures
        visible_type(scopes, name) is Some,
    decreases scopes.len(),
{
    if s == scopes.len() - 1 {
        lemma_matching_type_found(scopes[s].types, name, i);
    } else {
        lemma_visible_type_found(scopes.drop_last(), name, s, i);
    }
}

/// A type bound to `name` among `types` makes the name denote a type.
pub proof fn lemma_matching_type_found(types: Seq<TypeBindingModel>, name: Seq<char>, i: int)
    requires
        0 <= i < types.len(),
        types[i].name == name,
    ensures
        matching_type(types, name) is Some,
    decreases types.len(),
{
    if i < types.len() - 1 {
        lemma_matching_type_found(types.drop_last(), name, i);
    }
}

/// A binding of `name` among `items` is a match.
pub proof fn lemma_matching_items_found(items: Seq<BindingModel>, name: Seq<char>, i: int)
    requires
        0 <= i < items.len(),
        items[i].name == name,
    ensures
        matching_items(items, name).len() > 0,
    decreases items.len(),
{
    if i < items.len() - 1 {
        lemma_matching_items_found(items.drop_last(), name, i);
    }

}

/// Every match among `items` is the item of a binding of `name`.
pub proof fn lemma_matching_items_origin(items: Seq<BindingModel>, name: Seq<char>, k: int) -> (i:
    int)
    requires
        0 <= k < matching_items(items, name).len(),
    ensures
        0 <= i < items.len(),
        items[i].name == name,
        items[i].item == matching_items(items, name)[k],
    decreases items.len(),
{
    if items.last().name == name {
        if k == 0 {
            items.len() - 1
        } else {
            lemma_matching_items_origin(items.drop_last(), name, k - 1)
        }
    } else {
        lemma_matching_items_origin(items.drop_last(), name, k)
    }
}

/// Every visible item is the item of a binding of `name` in one of the scopes.
pub proof fn lemma_visible_items_origin(scopes: Seq<ScopeModel>, name: Seq<char>, k: int) -> (at: (
    int,
    int,
))
    requires
        0 <= k < visible_items(scopes, name).len(),
    ensures
        0 <= at.0 < scopes.len(),
        0 <= at.1 < scopes[at.0].items.len(),
        scopes[at.0].items[at.1].name == name,
        scopes[at.0].items[at.1].item == visible_items(scopes, name)[k],
    decreases scopes.len(),
{
    let inner = matching_items(scopes.last().items, name);
    if k < inner.len() {
        let i = lemma_matching_items_origin(scopes.last().items, name, k);
        (scopes.len() - 1, i)
    } else {
        lemma_visible_items_origin(scopes.drop_last(), name, k - inner.len())
    }
}

/// Two matches among `items` are the items of two bindings of `name`, the
/// earlier match being the later binding.
pub proof fn lemma_matching_items_origins(
    items: Seq<BindingModel>,
    name: Seq<char>,
    k: int,
    l: int,
) -> (at: (int, int))
    requires
        0 <= k < l < matching_items(items, name).len(),
    ensures
        0 <= at.1 < at.0 < items.len(),
        items[at.0].item == matching_items(items, name)[k],
        items[at.1].item == matching_items(items, name)[l],
    decreases items.len(),
{
    if items.last().name == name {
        if k == 0 {
            let j = lemma_matching_items_origin(items.drop_last(), name, l - 1);
            (items.len() - 1, j)
        } else {
            lemma_matching_items_origins(items.drop_last(), name, k - 1, l - 1)
        }
    } else {
        lemma_matching_items_origins(items.drop_last(), name, k, l)
    }
}

/// Two visible items are the items of two bindings of `name`.
pub proof fn lemma_visible_items_origins(
    scopes: Seq<ScopeModel>,
    name: Seq<char>,
    k: int,
    l: int,
) -> (at: ((int, int), (int, int)))
    requires
        0 <= k < l < visible_items(scopes, name).len(),
    ensures
        0 <= at.0.0 < scopes.len(),
        0 <= at.0.1 < scopes[at.0.0].items.len(),
        0 <= at.1.0 < scopes.len(),
        0 <= at.1.1 < scopes[at.1.0].items.len(),
        at.0 != at.1,
        scopes[at.0.0].items[at.0.1].item == visible_items(scopes, name)[k],
        scopes[at.1.0].items[at.1.1].item == visible_items(scopes, name)[l],
    decreases scopes.len(),
{
    let last = scopes.len() - 1;
    let inner = matching_items(scopes.last().items, name);
    if l < inner.len() {
        let (i, j) = lemma_matching_items_origins(scopes.last().items, name, k, l);
        ((last, i), (last, j))
    } else if k < inner.len() {
        let i = lemma_matching_items_origin(scopes.last().items, name, k);
        let below = lemma_visible_items_origin(scopes.drop_last(), name, l - inner.len());
        ((last, i), below)
    } else {
        lemma_visible_items_origins(scopes.drop_last(), name, k - inner.len(), l - inner.len())
    }
}

/// A type that `name` denotes among `types` is that of a binding of `name`.
pub proof fn lemma_matching_type_origin(types: Seq<TypeBindingModel>, name: Seq<char>) -> (i: int)
    requires
        matching_type(types, name) is Some,
    ensures
        0 <= i < types.len(),
        types[i].name == name,
        Some(types[i].type_id) == matching_type(types, name),
    decreases types.len(),
{
    if types.last().name == name {
        types.len() - 1
    } else {
        lemma_matching_type_origin(types.drop_last(), name)
    }
}

/// A type that `name` denotes is that of a binding of `name` in one of the
/// scopes.
pub proof fn lemma_visible_type_origin(scopes: Seq<ScopeModel>, name: Seq<char>) -> (at: (int, int))
    requires
        visible_type(scopes, name) is Some,
    ensures
        0 <= at.0 < scopes.len(),
        0 <= at.1 < scopes[at.0].types.len(),
        scopes[at.0].types[at.1].name == name,
        Some(scopes[at.0].types[at.1].type_id) == visible_type(scopes, name),
    decreases scopes.len(),
{
    if matching_type(scopes.last().types, name) is Some {
        let i = lemma_matching_type_origin(scopes.last().types, name);
        (scopes.len() - 1, i)
    } else {
        lemma_visible_type_origin(scopes.drop_last(), name)
    }

}

} // verus!
