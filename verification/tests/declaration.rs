use tape_lowering::memory::MemoryBlock;
use tape_lowering::operations::declaration::into_operations;
use tape_lowering::operations::item_type::ItemType;
use tape_lowering::operations::scope::{ScopeItem, ScopeStack};
use tape_lowering::operations::{Error, Operation};
use tape_lowering::parser::{Expression, Identifier, Pattern, TypeDefinition};

fn name(text: &str) -> Identifier {
    Identifier::from(text)
}

fn named_type(text: &str) -> TypeDefinition {
    TypeDefinition::Name { name: name(text) }
}

#[test]
fn declaration_only() {
    // When only doing a declaration, no operations should be generated
    // since there is no expression to actually evaluate
    let mut scope = ScopeStack::new();
    scope.declare_type(Identifier::from("u8"), ItemType::Primitive(1));

    let ops = into_operations(
        &mut scope,
        Pattern::Identifier(Identifier::from("foo")),
        TypeDefinition::Name { name: Identifier::from("u8") },
        None,
    )
    .unwrap();

    assert!(!scope.lookup(&Identifier::from("foo")).is_empty(), "No value was declared");
    assert_eq!(ops.len(), 1);
}

#[test]
fn declaration_without_initializer_allocates_one_block() {
    let mut scope = ScopeStack::new();
    let byte = scope.declare_type(name("u8"), ItemType::Primitive(1));

    let ops = into_operations(&mut scope, Pattern::Identifier(name("foo")), named_type("u8"), None);

    assert_eq!(ops, Ok(vec![Operation::Allocate(MemoryBlock { position: 0, size: 1 })]));
    assert_eq!(
        scope.lookup(&name("foo")),
        vec![&ScopeItem::TypedBlock { type_id: byte, memory: MemoryBlock { position: 0, size: 1 } }]
    );
    assert_eq!(scope.allocated(), 1);
}

#[test]
fn declaration_allocates_the_size_of_the_type() {
    let mut scope = ScopeStack::new();
    scope.declare_type(name("u8"), ItemType::Primitive(1));
    scope.declare_type(name("u32"), ItemType::Primitive(4));

    let first = into_operations(&mut scope, Pattern::Identifier(name("a")), named_type("u8"), None);
    let second =
        into_operations(&mut scope, Pattern::Identifier(name("b")), named_type("u32"), None);
    let third = into_operations(&mut scope, Pattern::Identifier(name("c")), named_type("u8"), None);

    assert_eq!(first, Ok(vec![Operation::Allocate(MemoryBlock { position: 0, size: 1 })]));
    assert_eq!(second, Ok(vec![Operation::Allocate(MemoryBlock { position: 1, size: 4 })]));
    assert_eq!(third, Ok(vec![Operation::Allocate(MemoryBlock { position: 5, size: 1 })]));
    assert_eq!(scope.allocated(), 6);
}

#[test]
fn declaration_with_constant_increments_each_cell() {
    let mut scope = ScopeStack::new();
    let byte = scope.declare_type(name("u8"), ItemType::Primitive(1));
    scope.declare_constant(name("FIVE"), byte, vec![5]);

    let ops = into_operations(
        &mut scope,
        Pattern::Identifier(name("foo")),
        named_type("u8"),
        Some(Expression::Identifier(name("FIVE"))),
    );

    assert_eq!(
        ops,
        Ok(vec![
            Operation::Allocate(MemoryBlock { position: 0, size: 1 }),
            Operation::Increment { target: 0, amount: 5 },
        ])
    );
}

#[test]
fn declaration_with_wide_constant_keeps_the_order_of_the_bytes() {
    let mut scope = ScopeStack::new();
    scope.declare_type(name("pad"), ItemType::Primitive(7));
    let word = scope.declare_type(name("u32"), ItemType::Primitive(4));
    scope.declare_constant(name("MAGIC"), word, vec![0xef, 0, 0xad, 0xde]);
    into_operations(&mut scope, Pattern::Identifier(name("gap")), named_type("pad"), None).unwrap();

    let ops = into_operations(
        &mut scope,
        Pattern::Identifier(name("magic")),
        named_type("u32"),
        Some(Expression::Identifier(name("MAGIC"))),
    );

    assert_eq!(
        ops,
        Ok(vec![
            Operation::Allocate(MemoryBlock { position: 7, size: 4 }),
            Operation::Increment { target: 7, amount: 0xef },
            Operation::Increment { target: 8, amount: 0 },
            Operation::Increment { target: 9, amount: 0xad },
            Operation::Increment { target: 10, amount: 0xde },
        ])
    );
}

#[test]
fn declaration_with_literal_encodes_it_for_the_declared_type() {
    let mut scope = ScopeStack::new();
    scope.declare_type(name("u16"), ItemType::Primitive(2));

    let ops = into_operations(
        &mut scope,
        Pattern::Identifier(name("foo")),
        named_type("u16"),
        Some(Expression::Number(300)),
    );

    assert_eq!(
        ops,
        Ok(vec![
            Operation::Allocate(MemoryBlock { position: 0, size: 2 }),
            Operation::Increment { target: 0, amount: 44 },
            Operation::Increment { target: 1, amount: 1 },
        ])
    );
}

#[test]
fn declaration_with_variable_copies_it() {
    let mut scope = ScopeStack::new();
    scope.declare_type(name("u16"), ItemType::Primitive(2));
    into_operations(&mut scope, Pattern::Identifier(name("a")), named_type("u16"), None).unwrap();

    let ops = into_operations(
        &mut scope,
        Pattern::Identifier(name("b")),
        named_type("u16"),
        Some(Expression::Identifier(name("a"))),
    );

    assert_eq!(
        ops,
        Ok(vec![
            Operation::Allocate(MemoryBlock { position: 2, size: 2 }),
            Operation::Copy { source: 0, target: 2, size: 2 },
        ])
    );
}

#[test]
fn declaration_of_unresolved_type_carries_the_name_of_the_type() {
    let mut scope = ScopeStack::new();
    scope.declare_type(name("u8"), ItemType::Primitive(1));

    let ops = into_operations(&mut scope, Pattern::Identifier(name("foo")), named_type("u9"), None);

    assert_eq!(ops, Err(Error::UnresolvedName(name("u9"))));
    assert!(scope.lookup(&name("foo")).is_empty());
    assert_eq!(scope.allocated(), 0);
}

#[test]
fn declaration_with_unresolved_initializer_carries_its_name() {
    let mut scope = ScopeStack::new();
    scope.declare_type(name("u8"), ItemType::Primitive(1));

    let ops = into_operations(
        &mut scope,
        Pattern::Identifier(name("foo")),
        named_type("u8"),
        Some(Expression::Identifier(name("bar"))),
    );

    assert_eq!(ops, Err(Error::UnresolvedName(name("bar"))));
}

#[test]
fn declaration_stays_after_its_initializer_failed() {
    let mut scope = ScopeStack::new();
    let byte = scope.declare_type(name("u8"), ItemType::Primitive(1));
    scope.declare_type(name("u16"), ItemType::Primitive(2));
    into_operations(&mut scope, Pattern::Identifier(name("wide")), named_type("u16"), None)
        .unwrap();

    let ops = into_operations(
        &mut scope,
        Pattern::Identifier(name("foo")),
        named_type("u8"),
        Some(Expression::Identifier(name("wide"))),
    );

    assert_eq!(
        ops,
        Err(Error::MismatchedTypes {
            expected: ItemType::Primitive(1),
            found: ItemType::Primitive(2),
        })
    );
    assert_eq!(
        scope.lookup(&name("foo")),
        vec![&ScopeItem::TypedBlock { type_id: byte, memory: MemoryBlock { position: 2, size: 1 } }]
    );
    assert_eq!(scope.allocated(), 3);
}

#[test]
fn declaration_initialized_with_its_own_name_copies_the_new_block() {
    let mut scope = ScopeStack::new();
    let byte = scope.declare_type(name("u8"), ItemType::Primitive(1));
    scope.declare_constant(name("foo"), byte, vec![9]);

    let ops = into_operations(
        &mut scope,
        Pattern::Identifier(name("foo")),
        named_type("u8"),
        Some(Expression::Identifier(name("foo"))),
    );

    assert_eq!(
        ops,
        Ok(vec![
            Operation::Allocate(MemoryBlock { position: 0, size: 1 }),
            Operation::Copy { source: 0, target: 0, size: 1 },
        ])
    );
}

#[test]
fn declaration_of_empty_type_writes_nothing() {
    let mut scope = ScopeStack::new();
    scope.declare_type(name("unit"), ItemType::Primitive(0));

    let ops = into_operations(
        &mut scope,
        Pattern::Identifier(name("nothing")),
        named_type("unit"),
        Some(Expression::Number(0)),
    );

    assert_eq!(ops, Ok(vec![Operation::Allocate(MemoryBlock { position: 0, size: 0 })]));
}

#[test]
fn byte_declared_without_value() {
    let mut scope = ScopeStack::new();
    scope.declare_type(name("u8"), ItemType::Primitive(1));
    let position = scope.allocated();

    let ops = into_operations(&mut scope, Pattern::Identifier(name("foo")), named_type("u8"), None)
        .unwrap();

    assert_eq!(ops, vec![Operation::Allocate(MemoryBlock { position, size: 1 })]);
}

#[test]
fn byte_declared_with_constant_five() {
    let mut scope = ScopeStack::new();
    let byte = scope.declare_type(name("u8"), ItemType::Primitive(1));
    scope.declare_constant(name("FIVE"), byte, vec![5]);
    let position = scope.allocated();

    let ops = into_operations(
        &mut scope,
        Pattern::Identifier(name("foo")),
        named_type("u8"),
        Some(Expression::Identifier(name("FIVE"))),
    )
    .unwrap();

    assert_eq!(
        ops,
        vec![
            Operation::Allocate(MemoryBlock { position, size: 1 }),
            Operation::Increment { target: position, amount: 5 },
        ]
    );
}
