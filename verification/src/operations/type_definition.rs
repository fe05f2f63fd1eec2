//! Resolving a type as written in the source program to the handle of a
//! declared type.

use vstd::prelude::*;

use crate::operations::scope::model::ScopeStackModel;
use crate::operations::scope::{ScopeStack, TypeId};
use crate::operations::{Error, ErrorModel};
use crate::parser::TypeDefinition;

verus! {

/// The type that the name of a type denotes in the scope, or the error that
/// carries the name where it denotes none.
pub open spec fn resolved_type(scope: ScopeStackModel, name: Seq<char>) -> Result<
    TypeId,
    ErrorModel,
> {
    match scope.lookup_type(name) {
        Some(type_id) => Ok(type_id),
        None => Err(ErrorModel::UnresolvedName(name)),
    }
}

/// The model of a result of resolving a type.
pub open spec fn resolution(result: Result<TypeId, Error>) -> Result<TypeId, ErrorModel> {
    match result {
        Ok(type_id) => Ok(type_id),
        Err(error) => Err(error@),
    }
}

/// Resolves a type definition to the handle of the type it refers to: see
/// [`resolved_type`].
pub fn resolve_type_id(scope: &ScopeStack, type_def: TypeDefinition) -> (result: Result<
    TypeId,
    Error,
>)
    ensures
        resolution(result) == resolved_type(scope@, type_def.name()),
{
    match type_def {
        TypeDefinition::Name { name } => match scope.lookup_type(&name) {
            Some(type_id) => Ok(type_id),
            None => Err(Error::UnresolvedName(name)),
        },
    }
}

/// Resolving the name of a type that no scope declares fails with the error
/// that carries that very name.
pub proof fn lemma_unbound_type_is_unresolved(scope: ScopeStackModel, name: Seq<char>)
    requires
        scope.unbound_type(name),
    ensures
        resolved_type(scope, name) == Err::<TypeId, ErrorModel>(ErrorModel::UnresolvedName(name)),
{
    scope.lemma_lookup_type_none_iff_unbound(name);
}

/// In a consistent scope, a type that resolves is a registered type.
pub proof fn lemma_resolved_type_is_valid(scope: ScopeStackModel, name: Seq<char>)
    requires
        scope.wf(),
    ensures
        resolved_type(scope, name) matches Ok(type_id) ==> scope.valid_type(type_id),
{
    if scope.lookup_type(name) is Some {
        scope.lemma_lookup_type_wf(name);
    }
}

} // verus!
