//! Resources as the world stores them: one value of any type behind a cell
//! that counts its borrows at run time.

use crate::typeid::type_key;
use atomic_refcell_try::AtomicRef;
use atomic_refcell_try::AtomicRefCell;
use atomic_refcell_try::AtomicRefMut;
use atomic_refcell_try::BorrowError;
use atomic_refcell_try::BorrowMutError;
use downcast_rs::Downcast;
use downcast_rs::DowncastSync;
use std::any::TypeId;
use std::marker::PhantomData;
use std::ops::Deref;
use std::ops::DerefMut;
use vstd::prelude::*;

verus! {

/// `atomic_refcell_try::AtomicRefCell`: a cell that counts its borrows at
/// run time. Its value and its count are hidden state.
#[verifier::external_type_specification]
#[verifier::external_body]
#[verifier::reject_recursive_types(T)]
pub struct ExAtomicRefCell<T: ?Sized>(AtomicRefCell<T>);

/// `atomic_refcell_try::AtomicRef`: the guard of a shared borrow, which ends
/// when the guard is dropped.
#[verifier::external_type_specification]
#[verifier::external_body]
#[verifier::reject_recursive_types(T)]
pub struct ExAtomicRef<'b, T: ?Sized + 'b>(AtomicRef<'b, T>);

/// `atomic_refcell_try::AtomicRefMut`: the guard of an exclusive borrow,
/// which ends when the guard is dropped.
#[verifier::external_type_specification]
#[verifier::external_body]
#[verifier::reject_recursive_types(T)]
pub struct ExAtomicRefMut<'b, T: ?Sized + 'b>(AtomicRefMut<'b, T>);

/// `atomic_refcell_try::BorrowError`: a shared borrow was refused.
#[verifier::external_type_specification]
#[verifier::external_body]
pub struct ExBorrowError(BorrowError);

/// `atomic_refcell_try::BorrowMutError`: an exclusive borrow was refused.
#[verifier::external_type_specification]
#[verifier::external_body]
pub struct ExBorrowMutError(BorrowMutError);

/// `Deref::deref` of a shared guard: the borrowed value. Its content is not
/// modelled.
pub assume_specification<'b, T: ?Sized, 'a>[ <AtomicRef<'b, T> as Deref>::deref ](
    guard: &'a AtomicRef<'b, T>,
) -> (value: &'a T)
;

/// `DerefMut::deref_mut` of an exclusive guard: the borrowed value. Its
/// content is not modelled.
pub assume_specification<'b, T: ?Sized, 'a>[ <AtomicRefMut<'b, T> as DerefMut>::deref_mut ](
    guard: &'a mut AtomicRefMut<'b, T>,
) -> (value: &'a mut T)
;

/// The types that can be stored as resources: every `'static` type that can
/// be shared between threads.
pub trait Resource: Send + Sync + 'static {

}

impl<T> Resource for T where T: Send + Sync + 'static {

}

/// A resource whose type has been erased: a boxed trait object of
/// `downcast_rs::DowncastSync`, which can be cast back to the type it was
/// made from. The box is opaque here, because the trait is.
#[verifier::external_body]
pub struct Erased {
    inner: Box<dyn DowncastSync>,
}

/// The key of the type of the value inside an erased resource: what
/// `Any::type_id` gives for it.
pub uninterp spec fn kind_of(erased: Erased) -> TypeId;

/// The key of the type of the value that a cell holds. A cell keeps the type
/// of the value that it was made with: a value of another type could only be
/// put in through an exclusive guard of the erased value, and no such guard
/// ever leaves this library, which itself only narrows it to the type of
/// the value.
pub uninterp spec fn cell_kind(cell: AtomicRefCell<Erased>) -> TypeId;

/// The erased resource that a shared guard borrows: what `Deref::deref` of
/// the guard points to.
pub uninterp spec fn shared_target(guard: AtomicRef<'_, Erased>) -> Erased;

/// The erased resource that an exclusive guard borrows: what
/// `DerefMut::deref_mut` of the guard points to.
pub uninterp spec fn exclusive_target(guard: AtomicRefMut<'_, Erased>) -> Erased;

/// `AtomicRefCell::new` wraps a value in a cell, so the cell holds a value of
/// that value's type. Nothing is borrowed yet, but the borrow count is
/// hidden state, and nothing is claimed of it.
#[verifier::external_body]
pub(crate) fn new_cell(value: Erased) -> (cell: AtomicRefCell<Erased>)
    ensures
        cell_kind(cell) == kind_of(value),
{
    AtomicRefCell::new(value)
}

/// `AtomicRefCell::try_borrow` hands out a shared guard unless a writer holds
/// the cell. Which of the two happens depends on the guards alive at the
/// moment of the call, so nothing is claimed of that. A guard that is handed
/// out borrows the value in the cell, which is of the cell's type. (The call
/// gives up with a panic only when a count overflows: when half of
/// `usize::MAX` shared guards are alive or leaked, or after a quarter of
/// `usize::MAX` shared borrows were refused during one exclusive borrow.)
#[verifier::external_body]
pub(crate) fn borrow_shared<'a>(cell: &'a AtomicRefCell<Erased>) -> (borrowed: Result<
    AtomicRef<'a, Erased>,
    BorrowError,
>)
    ensures
        borrowed matches Ok(guard) ==> kind_of(shared_target(guard)) == cell_kind(*cell),
{
    cell.try_borrow()
}

/// `AtomicRefCell::try_borrow_mut` hands out an exclusive guard unless any
/// guard is alive, which is hidden state, so nothing is claimed of that. A
/// guard that is handed out borrows the value in the cell, which is of the
/// cell's type.
#[verifier::external_body]
pub(crate) fn borrow_exclusive<'a>(cell: &'a AtomicRefCell<Erased>) -> (borrowed: Result<
    AtomicRefMut<'a, Erased>,
    BorrowMutError,
>)
    ensures
        borrowed matches Ok(guard) ==> kind_of(exclusive_target(guard)) == cell_kind(*cell),
{
    cell.try_borrow_mut()
}

/// A boxed value of a type that may be a trait object. Verus knows the value
/// of such a field where the struct was made for a type parameter, as `hold`
/// makes it, and loses it where a struct is made from a trait object
/// directly.
pub(crate) struct Held<T: ?Sized> {
    pub(crate) inner: Box<T>,
}

/// Puts a boxed value into its holder.
pub(crate) fn hold<T: ?Sized>(inner: Box<T>) -> (held: Held<T>)
    ensures
        held.inner == inner,
{
    Held { inner }
}

/// `Box::new` and the coercion to a trait object of
/// `downcast_rs::DowncastSync`. The value is kept as it is, so the erased
/// resource is of the type `T`; nothing else is claimed of it.
#[verifier::external_body]
pub(crate) fn erase<T: Resource>(value: T) -> (erased: Erased)
    ensures
        kind_of(erased) == type_key::<T>(),
{
    Erased { inner: Box::new(value) }
}

/// A recipe for the value with which a resource starts.
pub(crate) trait Prototype: Send {
    /// The key of the type of the resources that the recipe makes.
    spec fn kind(&self) -> TypeId;

    /// Makes one fresh resource, of the recipe's type.
    fn make(&self) -> (made: Erased)
        ensures
            kind_of(made) == self.kind(),
    ;
}

/// The recipe that makes the default value of `T`.
pub(crate) struct DefaultOf<T> {
    marker: PhantomData<T>,
}

impl<T: Default + Resource> DefaultOf<T> {
    /// The recipe for `T`.
    pub(crate) fn new() -> DefaultOf<T> {
        DefaultOf { marker: PhantomData }
    }
}

impl<T: Default + Resource> Prototype for DefaultOf<T> {
    open spec fn kind(&self) -> TypeId {
        type_key::<T>()
    }

    fn make(&self) -> (made: Erased) {
        erase(T::default())
    }
}

/// `AtomicRef::filter_map` with a checked cast: narrows a shared guard of an
/// erased resource to a guard of the `T` inside, and gives the guard up, which
/// ends the borrow, when the resource is of another type. `Any::downcast_ref`
/// succeeds exactly when the value is of the type `T`, that is, when its type
/// has the key of `T`.
#[verifier::external_body]
pub(crate) fn narrow_shared<'a, T: Resource>(guard: AtomicRef<'a, Erased>) -> (typed: Option<
    AtomicRef<'a, T>,
>)
    ensures
        typed is Some <==> kind_of(shared_target(guard)) == type_key::<T>(),
{
    AtomicRef::filter_map(guard, |erased| Downcast::as_any(&*erased.inner).downcast_ref::<T>())
}

/// `AtomicRefMut::filter_map` with a checked cast: the exclusive counterpart
/// of `narrow_shared`. `Any::downcast_mut` succeeds exactly when the value is
/// of the type `T`, that is, when its type has the key of `T`.
#[verifier::external_body]
pub(crate) fn narrow_exclusive<'a, T: Resource>(guard: AtomicRefMut<'a, Erased>) -> (typed: Option<
    AtomicRefMut<'a, T>,
>)
    ensures
        typed is Some <==> kind_of(exclusive_target(guard)) == type_key::<T>(),
{
    AtomicRefMut::filter_map(
        guard,
        |erased| Downcast::as_any_mut(&mut *erased.inner).downcast_mut::<T>(),
    )
}

} // verus!
