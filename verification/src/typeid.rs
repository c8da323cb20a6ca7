//! Type keys: the identity of a resource's type, used to index the world.

use std::any::TypeId;
use std::marker::PhantomData;
use vstd::prelude::*;

verus! {

/// `std::any::TypeId`: an opaque identifier of a type. Only the equality of
/// two identifiers is ever looked at.
#[verifier::external_type_specification]
#[verifier::external_body]
pub struct ExTypeId(TypeId);

/// A key that belongs to the type `T`.
struct KeyWitness<T: ?Sized> {
    key: TypeId,
    marker: PhantomData<T>,
}

/// The key of the type `T`. It is one fixed value for each type, and that is
/// all that is known of it: which value it is, and whether two types have
/// different keys, is left open.
pub closed spec fn type_key<T: ?Sized + 'static>() -> TypeId {
    arbitrary::<KeyWitness<T>>().key
}

/// `std::any::TypeId::of`: the identifier depends on the type alone, so every
/// call for one `T` hands back the same key, the one that `type_key` names.
/// Nothing is claimed about the keys of two different types.
#[verifier::external_body]
pub(crate) fn key_of<T: ?Sized + 'static>() -> (key: TypeId)
    ensures
        key == type_key::<T>(),
{
    TypeId::of::<T>()
}

/// Equality of two `std::any::TypeId` values, as their `==` decides it.
#[verifier::external_body]
pub(crate) fn same_key(a: &TypeId, b: &TypeId) -> (same: bool)
    ensures
        same == (*a == *b),
{
    a == b
}

} // verus!
