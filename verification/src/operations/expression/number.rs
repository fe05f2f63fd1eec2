//! Storing a numeric literal: its bytes are fixed by the type it is stored to.

use vstd::arithmetic::div_mod::{lemma_div_denominator, lemma_fundamental_div_mod};
use vstd::arithmetic::power::{lemma_pow_positive, pow};
use vstd::prelude::*;

use crate::memory::MemoryBlock;
use crate::operations::expression::identifier::{
    increment_to_value, increments, lemma_increments_write_block,
};
use crate::operations::item_type::ItemType;
use crate::operations::scope::model::ScopeStackModel;
use crate::operations::scope::{ScopeStack, TypeId};
use crate::operations::{lowered, Error, ErrorModel, Lowered, OperationsResult};
use crate::parser::Number;

verus! {

/// The least number of bytes that hold the number: the count of its digits
/// in base 256.
pub open spec fn byte_width(number: nat) -> nat
    decreases number,
{
    if number == 0 {
        0
    } else {
        1 + byte_width(number / 256)
    }
}

/// The byte of the number at `index`, the least significant byte having the
/// index 0: the digit of weight `256^index` in base 256.
pub open spec fn byte_at(number: nat, index: nat) -> u8 {
    ((number as int / pow(256, index)) % 256) as u8
}

/// The `width` low bytes of the number, least significant first.
pub open spec fn little_endian(number: nat, width: nat) -> Seq<u8> {
    Seq::new(width, |index: int| byte_at(number, index as nat))
}

/// What storing a numeric literal into a block of a type gives.
///
/// A literal takes the type it is stored to, provided that type is a
/// primitive wide enough to hold it. Its bytes are then written least
/// significant first, one increment for each cell of the block. Into any
/// other type the literal does not fit: the types are mismatched, and what was
/// found is the narrowest primitive that holds the literal.
///
/// `None` where the block is not one of the type: no store is defined then.
pub open spec fn stored_number(
    scope: ScopeStackModel,
    number: Number,
    target_type: TypeId,
    target: MemoryBlock,
) -> Option<Lowered> {
    let expected = scope.get_type(target_type);
    let found = ItemType::Primitive(byte_width(number as nat) as usize);
    match expected {
        ItemType::Primitive(width) => if byte_width(number as nat) > width {
            Some(Err(ErrorModel::MismatchedTypes { expected, found }))
        } else if target.size == width {
            Some(Ok(increments(target, little_endian(number as nat, width as nat))))
        } else {
            None
        },
        ItemType::Array { .. } => Some(Err(ErrorModel::MismatchedTypes { expected, found })),
    }
}

/// A number lies below 256 to the power of its width, and not below the
/// power before. So no number of 64 bits is wider than eight bytes.
pub proof fn lemma_byte_width_bound(number: nat)
    ensures
        number < pow(256, byte_width(number)),
        byte_width(number) > 0 ==> number >= pow(256, (byte_width(number) - 1) as nat),
        number <= u64::MAX ==> byte_width(number) <= 8,
    decreases number,
{
    reveal(pow);
    if number > 0 {
        let rest = number / 256;
        let width = byte_width(rest);
        // By induction the quotient lies between two powers of 256, and the
        // number lies between 256 times the quotient and 256 times the next.
        lemma_byte_width_bound(rest);
        lemma_fundamental_div_mod(number as int, 256);
        assert(pow(256, width + 1) == 256 * pow(256, width));
        if width > 0 {
            assert(pow(256, width) == 256 * pow(256, (width - 1) as nat));
        }
        if number <= u64::MAX && width >= 8 {
            assert(pow(256, 8) == 0x1_0000_0000_0000_0000) by {
                reveal_with_fuel(pow, 9);
            }
            lemma_pow_monotonic(8, width);
        }
    }
}

/// The powers of 256 grow with the exponent.
proof fn lemma_pow_monotonic(low: nat, high: nat)
    requires
        low <= high,
    ensures
        pow(256, low) <= pow(256, high),
        pow(256, low) > 0,
    decreases high,
{
    reveal(pow);
    lemma_pow_positive(256, low);
    if low < high {
        lemma_pow_monotonic(low, (high - 1) as nat);
    }
}

/// The least number of bytes that hold the number.
pub fn byte_width_of(number: Number) -> (width: usize)
    ensures
        width == byte_width(number as nat),
        width <= 8,
{
    let mut rest: u64 = number;
    let mut width: usize = 0;
    proof {
        lemma_byte_width_bound(number as nat);
    }
    while rest > 0
        invariant
            byte_width(number as nat) == width + byte_width(rest as nat),
            byte_width(number as nat) <= 8,
        decreases rest,
    {
        rest = rest / 256;
        width = width + 1;
    }
    width
}

/// The `width` low bytes of the number, least significant first.
pub fn little_endian_bytes(number: Number, width: usize) -> (bytes: Vec<u8>)
    ensures
        bytes@ == little_endian(number as nat, width as nat),
{
    let mut bytes: Vec<u8> = Vec::new();
    let mut rest: u64 = number;
    let mut index: usize = 0;
    proof {
        reveal(pow);
    }
    while index < width
        invariant
            index <= width,
            rest == number as int / pow(256, index as nat),
            bytes@ == little_endian(number as nat, index as nat),
        decreases width - index,
    {
        let byte: u8 = (rest % 256) as u8;
        proof {
            // Dividing by 256 once more divides by the next power of 256.
            reveal(pow);
            lemma_pow_positive(256, index as nat);
            lemma_div_denominator(number as int, pow(256, index as nat), 256);
            assert(pow(256, (index + 1) as nat) == pow(256, index as nat) * 256);
        }
        bytes.push(byte);
        rest = rest / 256;
        index = index + 1;
        proof {
            assert(bytes@ =~= little_endian(number as nat, index as nat));
        }
    }
    bytes
}

/// Whether [`store_number`] takes these arguments: the type is registered,
/// the block has addresses, and a store is defined.
pub fn can_store_number(
    scope: &ScopeStack,
    number: Number,
    target_type: TypeId,
    target: MemoryBlock,
) -> (defined: bool)
    ensures
        defined == (scope@.valid_type(target_type) && target.wf() && stored_number(
            scope@,
            number,
            target_type,
            target,
        ) is Some),
{
    if !scope.is_valid_type(target_type) || !target.is_wf() {
        return false;
    }
    match *scope.get_type(target_type) {
        ItemType::Primitive(width) => byte_width_of(number) > width || target.size() == width,
        ItemType::Array { .. } => true,
    }
}

/// Stores a numeric literal into a block of a type: see [`stored_number`].
pub fn store_number(
    scope: &ScopeStack,
    number: Number,
    target_type: TypeId,
    target: MemoryBlock,
) -> (result: OperationsResult)
    requires
        scope@.valid_type(target_type),
        target.wf(),
        stored_number(scope@, number, target_type, target) is Some,
    ensures
        Some(lowered(result)) == stored_number(scope@, number, target_type, target),
{
    let expected = *scope.get_type(target_type);
    let needed = byte_width_of(number);
    match expected {
        ItemType::Primitive(width) => {
            if needed > width {
                Err(Error::MismatchedTypes { expected, found: ItemType::Primitive(needed) })
            } else {
                let bytes = little_endian_bytes(number, width);
                increment_to_value(target, &bytes)
            }
        },
        ItemType::Array { .. } => Err(
            Error::MismatchedTypes { expected, found: ItemType::Primitive(needed) },
        ),
    }
}

/// The number that the bytes hold, least significant byte first.
pub open spec fn little_endian_value(bytes: Seq<u8>) -> nat
    decreases bytes.len(),
{
    if bytes.len() == 0 {
        0
    } else {
        bytes[0] as nat + 256 * little_endian_value(bytes.skip(1))
    }
}

/// A number is below `256^width` exactly when `width` bytes hold it.
pub proof fn lemma_byte_width_fits(number: nat, width: nat)
    ensures
        byte_width(number) <= width <==> number < pow(256, width),
{
    lemma_byte_width_bound(number);
    if byte_width(number) <= width {
        lemma_pow_monotonic(byte_width(number), width);
    } else {
        lemma_pow_monotonic(width, (byte_width(number) - 1) as nat);
    }
}

/// The bytes written for a literal hold the literal: nothing is cut off from
/// a number that as many bytes hold.
pub proof fn lemma_little_endian_value(number: nat, width: nat)
    requires
        byte_width(number) <= width,
    ensures
        little_endian_value(little_endian(number, width)) == number,
    decreases width,
{
    let bytes = little_endian(number, width);
    if width > 0 {
        let rest = number / 256;
        assert(bytes.skip(1) =~= little_endian(rest, (width - 1) as nat)) by {
            assert forall|index: int| 0 <= index < width - 1 implies byte_at(
                number,
                (index + 1) as nat,
            ) == #[trigger] byte_at(rest, index as nat) by {
                reveal(pow);
                lemma_pow_positive(256, index as nat);
                lemma_div_denominator(number as int, 256, pow(256, index as nat));
            }
        }
        assert(bytes[0] == (number % 256) as u8) by {
            reveal(pow);
        }
        lemma_little_endian_value(rest, (width - 1) as nat);
        lemma_fundamental_div_mod(number as int, 256);
    }
}

/// A literal that is stored changes every cell of the target block, and no
/// other cell.
pub proof fn lemma_stored_number_initializes_target(
    scope: ScopeStackModel,
    number: Number,
    target_type: TypeId,
    target: MemoryBlock,
    address: int,
)
    requires
        target.wf(),
    ensures
        stored_number(scope, number, target_type, target) matches Some(Ok(operations)) ==> ((
        exists|k: int| 0 <= k < operations.len() && #[trigger] operations[k].writes(address))
            <==> target.contains(address)),
{
    if let Some(Ok(operations)) = stored_number(scope, number, target_type, target) {
        let bytes = little_endian(number as nat, target.size as nat);
        assert(operations == increments(target, bytes));
        lemma_increments_write_block(target, bytes, address);
    }
}

} // verus!
