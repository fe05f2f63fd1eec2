//! The abstract syntax that lowering consumes.

use vstd::prelude::*;

verus! {

/// A name in the source program. Contracts speak of a name through its view,
/// the sequence of its characters.
pub type Identifier = String;

/// The value of a numeric literal.
pub type Number = u64;

/// The left-hand side of a declaration.
#[derive(Debug, Clone, PartialEq, Eq)]
pub enum Pattern {
    /// Binds a single name.
    Identifier(Identifier),
}

impl Pattern {
    /// The name that the pattern binds.
    pub open spec fn name(&self) -> Seq<char> {
        match self {
            Pattern::Identifier(name) => name@,
        }
    }
}

/// A type as written in the source program.
#[derive(Debug, Clone, PartialEq, Eq)]
pub enum TypeDefinition {
    /// A reference to a declared type by its name.
    Name { name: Identifier },
}

impl TypeDefinition {
    /// The name of the type that the definition refers to.
    pub open spec fn name(&self) -> Seq<char> {
        match self {
            TypeDefinition::Name { name } => name@,
        }
    }
}

/// An expression whose value can be stored into memory.
#[derive(Debug, Clone, PartialEq, Eq)]
pub enum Expression {
    /// The value currently bound to a name.
    Identifier(Identifier),
    /// A numeric literal.
    Number(Number),
}

/// What an [`Expression`] is, with names as sequences of characters.
pub enum ExpressionModel {
    Identifier(Seq<char>),
    Number(Number),
}

impl View for Expression {
    type V = ExpressionModel;

    open spec fn view(&self) -> ExpressionModel {
        match self {
            Expression::Identifier(name) => ExpressionModel::Identifier(name@),
            Expression::Number(number) => ExpressionModel::Number(*number),
        }
    }
}

} // verus!
