use tape_lowering::memory::{MemoryBlock, StaticAllocator};
use tape_lowering::operations::item_type::ItemType;
use tape_lowering::operations::scope::{ScopeItem, ScopeStack, TypeId};
use tape_lowering::operations::type_definition::resolve_type_id;
use tape_lowering::operations::Error;
use tape_lowering::parser::{Identifier, TypeDefinition};

fn name(text: &str) -> Identifier {
    Identifier::from(text)
}

#[test]
fn new_stack_has_one_empty_scope() {
    let scope = ScopeStack::new();

    assert_eq!(scope.depth(), 1);
    assert_eq!(scope.allocated(), 0);
    assert!(scope.lookup(&name("anything")).is_empty());
    assert_eq!(scope.lookup_type(&name("anything")), None);
    assert!(!scope.is_valid_type(TypeId { index: 0 }));
}

#[test]
fn lookup_of_undeclared_name_is_empty() {
    let mut scope = ScopeStack::new();
    let byte = scope.declare_type(name("u8"), ItemType::Primitive(1));
    scope.declare(name("foo"), byte);

    assert!(scope.lookup(&name("fo")).is_empty());
    assert!(scope.lookup(&name("foo ")).is_empty());
    assert!(scope.lookup(&name("")).is_empty());
}

#[test]
fn lookup_returns_the_inner_binding_first() {
    let mut scope = ScopeStack::new();
    let byte = scope.declare_type(name("u8"), ItemType::Primitive(1));
    let outer = scope.declare(name("x"), byte);
    scope.push_scope();
    let inner = scope.declare(name("x"), byte);

    assert_eq!(
        scope.lookup(&name("x")),
        vec![
            &ScopeItem::TypedBlock { type_id: byte, memory: inner },
            &ScopeItem::TypedBlock { type_id: byte, memory: outer },
        ]
    );
    assert_ne!(inner, outer);
}

#[test]
fn lookup_returns_the_latest_binding_of_a_scope_first() {
    let mut scope = ScopeStack::new();
    let byte = scope.declare_type(name("u8"), ItemType::Primitive(1));
    scope.declare_constant(name("x"), byte, vec![1]);
    scope.declare_numeric_literal(name("x"), 2);
    scope.declare_builtin_function(name("x"), 3);

    assert_eq!(
        scope.lookup(&name("x")),
        vec![
            &ScopeItem::BuiltInFunction { id: 3 },
            &ScopeItem::NumericLiteral(2),
            &ScopeItem::Constant { type_id: byte, bytes: vec![1] },
        ]
    );
}

#[test]
fn lookup_sees_through_scopes_that_do_not_bind_the_name() {
    let mut scope = ScopeStack::new();
    let byte = scope.declare_type(name("u8"), ItemType::Primitive(1));
    let memory = scope.declare(name("x"), byte);
    scope.push_scope();
    scope.declare(name("y"), byte);
    scope.push_scope();

    assert_eq!(scope.lookup(&name("x")), vec![&ScopeItem::TypedBlock { type_id: byte, memory }]);
    assert_eq!(scope.depth(), 3);
}

#[test]
fn leaving_a_scope_forgets_its_bindings_only() {
    let mut scope = ScopeStack::new();
    let byte = scope.declare_type(name("u8"), ItemType::Primitive(1));
    let outer = scope.declare(name("x"), byte);
    scope.push_scope();
    scope.declare(name("x"), byte);
    let inner_type = scope.declare_type(name("local"), ItemType::Primitive(3));

    assert!(scope.pop_scope());

    assert_eq!(
        scope.lookup(&name("x")),
        vec![&ScopeItem::TypedBlock { type_id: byte, memory: outer }]
    );
    assert_eq!(scope.lookup_type(&name("local")), None);
    assert!(scope.is_valid_type(inner_type));
    assert_eq!(*scope.get_type(inner_type), ItemType::Primitive(3));
    assert_eq!(scope.allocated(), 2);
}

#[test]
fn outermost_scope_cannot_be_left() {
    let mut scope = ScopeStack::new();
    let byte = scope.declare_type(name("u8"), ItemType::Primitive(1));
    scope.declare(name("x"), byte);

    assert!(!scope.pop_scope());

    assert_eq!(scope.depth(), 1);
    assert_eq!(scope.lookup(&name("x")).len(), 1);
    assert_eq!(scope.lookup_type(&name("u8")), Some(byte));
}

#[test]
fn declared_types_get_distinct_handles() {
    let mut scope = ScopeStack::new();
    let byte = scope.declare_type(name("u8"), ItemType::Primitive(1));
    let word = scope.declare_type(name("u16"), ItemType::Primitive(2));
    let again = scope.declare_type(name("u8"), ItemType::Primitive(1));

    assert_eq!(byte, TypeId { index: 0 });
    assert_eq!(word, TypeId { index: 1 });
    assert_eq!(again, TypeId { index: 2 });
    assert_eq!(scope.lookup_type(&name("u8")), Some(again));
    assert_eq!(scope.lookup_type(&name("u16")), Some(word));
}

#[test]
fn type_names_shadow_across_scopes() {
    let mut scope = ScopeStack::new();
    let outer = scope.declare_type(name("t"), ItemType::Primitive(1));
    scope.push_scope();
    let inner = scope.declare_type(name("t"), ItemType::Primitive(2));

    assert_eq!(scope.lookup_type(&name("t")), Some(inner));
    assert!(scope.pop_scope());
    assert_eq!(scope.lookup_type(&name("t")), Some(outer));
}

#[test]
fn types_keep_their_definition_and_size() {
    let mut scope = ScopeStack::new();
    let word = scope.declare_type(name("u16"), ItemType::Primitive(2));
    let row = scope.declare_type(name("row"), ItemType::Array { item: word, size: 5 });
    let grid = scope.declare_type(name("grid"), ItemType::Array { item: row, size: 4 });

    assert_eq!(*scope.get_type(word), ItemType::Primitive(2));
    assert_eq!(*scope.get_type(row), ItemType::Array { item: word, size: 5 });
    assert_eq!(*scope.get_type(grid), ItemType::Array { item: row, size: 4 });
    assert_eq!(scope.size_of(word), 2);
    assert_eq!(scope.size_of(row), 10);
    assert_eq!(scope.size_of(grid), 40);
}

#[test]
fn declared_memory_never_overlaps() {
    let mut scope = ScopeStack::new();
    let byte = scope.declare_type(name("u8"), ItemType::Primitive(1));
    let word = scope.declare_type(name("u32"), ItemType::Primitive(4));

    let a = scope.declare(name("a"), word);
    scope.push_scope();
    let b = scope.declare_array(name("b"), byte, 3);
    scope.pop_scope();
    let c = scope.declare(name("c"), byte);

    assert_eq!(a, MemoryBlock { position: 0, size: 4 });
    assert_eq!(b, MemoryBlock { position: 4, size: 3 });
    assert_eq!(c, MemoryBlock { position: 7, size: 1 });
}

#[test]
fn declare_array_binds_an_array() {
    let mut scope = ScopeStack::new();
    let word = scope.declare_type(name("u16"), ItemType::Primitive(2));

    let memory = scope.declare_array(name("xs"), word, 4);

    assert_eq!(memory, MemoryBlock { position: 0, size: 8 });
    assert_eq!(scope.lookup(&name("xs")), vec![&ScopeItem::Array { item: word, size: 4, memory }]);
}

#[test]
fn resolve_type_finds_the_declared_type() {
    let mut scope = ScopeStack::new();
    let byte = scope.declare_type(name("u8"), ItemType::Primitive(1));
    let word = scope.declare_type(name("u16"), ItemType::Primitive(2));

    assert_eq!(resolve_type_id(&scope, TypeDefinition::Name { name: name("u8") }), Ok(byte));
    assert_eq!(resolve_type_id(&scope, TypeDefinition::Name { name: name("u16") }), Ok(word));
}

#[test]
fn resolve_type_of_undeclared_name_carries_the_name() {
    let mut scope = ScopeStack::new();
    let byte = scope.declare_type(name("u8"), ItemType::Primitive(1));
    scope.declare(name("foo"), byte);

    assert_eq!(
        resolve_type_id(&scope, TypeDefinition::Name { name: name("u16") }),
        Err(Error::UnresolvedName(name("u16")))
    );
    assert_eq!(
        resolve_type_id(&scope, TypeDefinition::Name { name: name("foo") }),
        Err(Error::UnresolvedName(name("foo")))
    );
}

#[test]
fn memory_block_addresses_its_cells() {
    let block = MemoryBlock::new(10, 4);

    assert_eq!(block.position(), 10);
    assert_eq!(block.size(), 4);
    assert_eq!(block.position_at(0), 10);
    assert_eq!(block.position_at(3), 13);
}

#[test]
fn allocator_hands_out_consecutive_blocks() {
    let mut allocator = StaticAllocator::new();

    assert_eq!(allocator.allocated(), 0);
    assert_eq!(allocator.allocate(3), MemoryBlock { position: 0, size: 3 });
    assert_eq!(allocator.allocate(0), MemoryBlock { position: 3, size: 0 });
    assert_eq!(allocator.allocate(2), MemoryBlock { position: 3, size: 2 });
    assert_eq!(allocator.allocated(), 5);
}
