use tape_lowering::memory::MemoryBlock;
use tape_lowering::operations::expression::number::{
    byte_width_of, little_endian_bytes, store_number,
};
use tape_lowering::operations::item_type::ItemType;
use tape_lowering::operations::scope::ScopeStack;
use tape_lowering::operations::{Error, Operation};
use tape_lowering::parser::Identifier;

fn name(text: &str) -> Identifier {
    Identifier::from(text)
}

#[test]
fn byte_width_counts_digits_in_base_256() {
    assert_eq!(byte_width_of(0), 0);
    assert_eq!(byte_width_of(1), 1);
    assert_eq!(byte_width_of(255), 1);
    assert_eq!(byte_width_of(256), 2);
    assert_eq!(byte_width_of(65_535), 2);
    assert_eq!(byte_width_of(65_536), 3);
    assert_eq!(byte_width_of(u64::MAX >> 8), 7);
    assert_eq!(byte_width_of((u64::MAX >> 8) + 1), 8);
    assert_eq!(byte_width_of(u64::MAX), 8);
}

#[test]
fn little_endian_bytes_start_with_the_least_significant() {
    assert_eq!(little_endian_bytes(0x0102_0304, 4), vec![4, 3, 2, 1]);
    assert_eq!(little_endian_bytes(300, 2), vec![44, 1]);
    assert_eq!(little_endian_bytes(5, 1), vec![5]);
}

#[test]
fn little_endian_bytes_pad_with_zeros() {
    assert_eq!(little_endian_bytes(5, 3), vec![5, 0, 0]);
    assert_eq!(little_endian_bytes(0, 2), vec![0, 0]);
    assert_eq!(
        little_endian_bytes(u64::MAX, 10),
        vec![255, 255, 255, 255, 255, 255, 255, 255, 0, 0]
    );
}

#[test]
fn little_endian_bytes_keep_the_low_bytes() {
    assert_eq!(little_endian_bytes(0x0102_0304, 2), vec![4, 3]);
    assert_eq!(little_endian_bytes(7, 0), Vec::<u8>::new());
}

#[test]
fn little_endian_bytes_hold_the_number() {
    for number in [0u64, 1, 255, 256, 0xdead_beef, u64::MAX] {
        let bytes = little_endian_bytes(number, 8);
        let mut value: u64 = 0;
        for byte in bytes.iter().rev() {
            value = value * 256 + u64::from(*byte);
        }
        assert_eq!(value, number);
    }
}

#[test]
fn literal_takes_the_width_of_the_target() {
    let mut scope = ScopeStack::new();
    let word = scope.declare_type(name("u32"), ItemType::Primitive(4));
    let target = MemoryBlock::new(8, 4);

    let ops = store_number(&scope, 258, word, target);

    assert_eq!(
        ops,
        Ok(vec![
            Operation::Increment { target: 8, amount: 2 },
            Operation::Increment { target: 9, amount: 1 },
            Operation::Increment { target: 10, amount: 0 },
            Operation::Increment { target: 11, amount: 0 },
        ])
    );
}

#[test]
fn literal_zero_still_increments() {
    let mut scope = ScopeStack::new();
    let byte = scope.declare_type(name("u8"), ItemType::Primitive(1));

    let ops = store_number(&scope, 0, byte, MemoryBlock::new(3, 1));

    assert_eq!(ops, Ok(vec![Operation::Increment { target: 3, amount: 0 }]));
}

#[test]
fn literal_at_the_limit_of_the_target_fits() {
    let mut scope = ScopeStack::new();
    let byte = scope.declare_type(name("u8"), ItemType::Primitive(1));

    let ops = store_number(&scope, 255, byte, MemoryBlock::new(0, 1));

    assert_eq!(ops, Ok(vec![Operation::Increment { target: 0, amount: 255 }]));
}

#[test]
fn literal_too_wide_for_the_target_is_mismatched() {
    let mut scope = ScopeStack::new();
    let byte = scope.declare_type(name("u8"), ItemType::Primitive(1));

    let ops = store_number(&scope, 256, byte, MemoryBlock::new(0, 1));

    assert_eq!(
        ops,
        Err(Error::MismatchedTypes {
            expected: ItemType::Primitive(1),
            found: ItemType::Primitive(2),
        })
    );
}

#[test]
fn literal_into_array_is_mismatched() {
    let mut scope = ScopeStack::new();
    let byte = scope.declare_type(name("u8"), ItemType::Primitive(1));
    let pair = scope.declare_type(name("pair"), ItemType::Array { item: byte, size: 2 });

    let ops = store_number(&scope, 7, pair, MemoryBlock::new(0, 2));

    assert_eq!(
        ops,
        Err(Error::MismatchedTypes {
            expected: ItemType::Array { item: byte, size: 2 },
            found: ItemType::Primitive(1),
        })
    );
}

#[test]
fn literal_into_wide_primitive_uses_every_cell() {
    let mut scope = ScopeStack::new();
    let wide = scope.declare_type(name("u72"), ItemType::Primitive(9));

    let ops = store_number(&scope, u64::MAX, wide, MemoryBlock::new(0, 9)).unwrap();

    assert_eq!(ops.len(), 9);
    for (index, operation) in ops.iter().enumerate() {
        let amount = if index < 8 { 255 } else { 0 };
        assert_eq!(*operation, Operation::Increment { target: index, amount });
    }
}
