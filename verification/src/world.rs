//! The world: the table that holds one resource per type and enforces, at
//! run time, that a resource has many readers or one writer.

use crate::error::EcsError;
use crate::resource::borrow_exclusive;
use crate::resource::borrow_shared;
use crate::resource::cell_kind;
use crate::resource::exclusive_target;
use crate::resource::kind_of;
use crate::resource::narrow_exclusive;
use crate::resource::narrow_shared;
use crate::resource::new_cell;
use crate::resource::shared_target;
use crate::resource::DefaultOf;
use crate::resource::Erased;
use crate::resource::Prototype;
use crate::resource::Resource;
use crate::typeid::key_of;
use crate::typeid::same_key;
use crate::typeid::type_key;
use atomic_refcell_try::AtomicRef;
use atomic_refcell_try::AtomicRefCell;
use atomic_refcell_try::AtomicRefMut;
use atomic_refcell_try::BorrowError;
use atomic_refcell_try::BorrowMutError;
use std::any::TypeId;
use vstd::prelude::*;

verus! {

/// One entry of the world: a resource in its cell, under the key of its type.
pub struct Slot {
    key: TypeId,
    cell: AtomicRefCell<Erased>,
}

impl Slot {
    /// The key under which the resource is stored.
    pub closed spec fn key(&self) -> TypeId {
        self.key
    }

    /// The key of the type of the resource that is stored.
    pub closed spec fn kind(&self) -> TypeId {
        cell_kind(self.cell)
    }
}

/// Contains data indexed by type, and enforces the rules of borrowing at run
/// time: a resource is never borrowed exclusively while it is borrowed in
/// any other way.
pub struct World {
    res: Vec<Slot>,
}

/// An exclusive borrow of a resource whose type is not known where the
/// borrow is made. The resource is reached by narrowing the guard to its
/// type with `typed_mut`; the borrow ends when the guard, or the guard that
/// it was narrowed to, is dropped.
pub struct ErasedMut<'a> {
    guard: AtomicRefMut<'a, Erased>,
}

impl<'a> ErasedMut<'a> {
    /// The key of the type of the resource that is borrowed.
    pub closed spec fn kind(&self) -> TypeId {
        kind_of(exclusive_target(self.guard))
    }
}

/// The keys of `slots`, in order.
pub open spec fn keys_of(slots: Seq<Slot>) -> Seq<TypeId> {
    slots.map_values(|slot: Slot| slot.key())
}

/// What a shared borrow yields, given what the cell answered: a refused
/// borrow is `AlreadyBorrowed`, and a granted one is narrowed to the
/// requested type, which succeeds exactly where the resource is of that
/// type and is answered with `NotInitialized` where it is not.
pub fn shared_outcome<'a, T: Resource>(borrowed: Result<AtomicRef<'a, Erased>, BorrowError>) -> (r:
    Result<AtomicRef<'a, T>, EcsError>)
    ensures
        borrowed is Err ==> r == Err::<AtomicRef<'a, T>, EcsError>(EcsError::AlreadyBorrowed),
        borrowed matches Ok(guard) ==> (r is Ok <==> kind_of(shared_target(guard))
            == type_key::<T>()),
        borrowed is Ok && r is Err ==> r == Err::<AtomicRef<'a, T>, EcsError>(
            EcsError::NotInitialized,
        ),
{
    match borrowed {
        Err(_) => Err(EcsError::AlreadyBorrowed),
        Ok(guard) => match narrow_shared::<T>(guard) {
            Some(typed) => Ok(typed),
            None => Err(EcsError::NotInitialized),
        },
    }
}

/// What an exclusive borrow yields, given what the cell answered: a refused
/// borrow is `AlreadyBorrowed`, and a granted one is narrowed to the
/// requested type, which succeeds exactly where the resource is of that
/// type and is answered with `NotInitialized` where it is not.
pub fn exclusive_outcome<'a, T: Resource>(
    borrowed: Result<AtomicRefMut<'a, Erased>, BorrowMutError>,
) -> (r: Result<AtomicRefMut<'a, T>, EcsError>)
    ensures
        borrowed is Err ==> r == Err::<AtomicRefMut<'a, T>, EcsError>(EcsError::AlreadyBorrowed),
        borrowed matches Ok(guard) ==> (r is Ok <==> kind_of(exclusive_target(guard))
            == type_key::<T>()),
        borrowed is Ok && r is Err ==> r == Err::<AtomicRefMut<'a, T>, EcsError>(
            EcsError::NotInitialized,
        ),
{
    match borrowed {
        Err(_) => Err(EcsError::AlreadyBorrowed),
        Ok(guard) => typed_mut::<T>(ErasedMut { guard }),
    }
}

impl World {
    /// The entries of the world, in the order in which they were created.
    pub closed spec fn slots(&self) -> Seq<Slot> {
        self.res@
    }

    /// The keys of the resources that the world holds, in the order in which
    /// they were created.
    pub open spec fn keys(&self) -> Seq<TypeId> {
        keys_of(self.slots())
    }

    /// Whether the world holds a resource under `key`.
    pub open spec fn contains(&self, key: TypeId) -> bool {
        self.keys().contains(key)
    }

    /// At most one resource is stored per key, and the resource stored under
    /// a key is of the type that the key stands for.
    #[verifier::type_invariant]
    pub open spec fn wf(&self) -> bool {
        &&& self.keys().no_duplicates()
        &&& forall|i: int|
            0 <= i < self.slots().len() ==> (#[trigger] self.slots()[i]).kind()
                == self.slots()[i].key()
    }

    /// What initializing `key` makes of the entries `before`: nothing new
    /// where the key is there already, and one more entry under that key, at
    /// the end, where it is not. Entries that exist are never replaced.
    pub open spec fn initialized(before: Seq<Slot>, after: Seq<Slot>, key: TypeId) -> bool {
        if keys_of(before).contains(key) {
            after == before
        } else {
            after.len() == before.len() + 1 && after.drop_last() == before && after.last().key()
                == key
        }
    }

    /// A world without resources.
    pub fn new() -> (world: World)
        ensures
            world.slots() == Seq::<Slot>::empty(),
            world.wf(),
    {
        World { res: Vec::new() }
    }

    /// The number of resources.
    pub fn len(&self) -> (n: usize)
        ensures
            n == self.slots().len(),
    {
        self.res.len()
    }

    /// The position of the resource stored under `key`, if there is one.
    fn find(&self, key: &TypeId) -> (found: Option<usize>)
        ensures
            self.wf(),
            match found {
                Some(i) => i < self.slots().len() && self.slots()[i as int].key() == *key,
                None => !self.contains(*key),
            },
    {
        proof {
            use_type_invariant(self);
        }
        let mut i: usize = 0;
        while i < self.res.len()
            invariant
                self.wf(),
                i <= self.res.len(),
                forall|j: int| 0 <= j < i ==> self.res@[j].key() != *key,
            decreases self.res.len() - i,
        {
            if same_key(&self.res[i].key, key) {
                return Some(i);
            }
            i = i + 1;
        }
        None
    }

    /// Whether the world holds a resource under `key`.
    pub fn has(&self, key: &TypeId) -> (held: bool)
        ensures
            held == self.contains(*key),
    {
        match self.find(key) {
            Some(i) => {
                assert(self.keys()[i as int] == *key);
                true
            },
            None => false,
        }
    }

    /// Makes sure that a resource is stored under `key`, making one from
    /// `prototype` if there is none. A resource that is there already is
    /// left alone.
    pub(crate) fn initialize_with(&mut self, key: TypeId, prototype: &Box<dyn Prototype>)
        requires
            prototype.kind() == key,
        ensures
            final(self).wf(),
            World::initialized(old(self).slots(), final(self).slots(), key),
            final(self).contains(key),
    {
        proof {
            use_type_invariant(&*self);
        }
        if !self.has(&key) {
            let slot = Slot { key, cell: new_cell(prototype.make()) };
            // The entries are taken out while one is added, so that the
            // world is valid at every step.
            let mut res: Vec<Slot> = Vec::new();
            std::mem::swap(&mut self.res, &mut res);
            res.push(slot);
            proof {
                let before = old(self).slots();
                assert(res@.drop_last() == before);
                assert(keys_of(res@) == keys_of(before).push(key));
                assert(keys_of(res@)[before.len() as int] == key);
            }
            std::mem::swap(&mut self.res, &mut res);
        }
    }

    /// Initializes the resource of type `T` to its default value, unless the
    /// world holds it already. This is the only way to insert a resource.
    pub fn initialize<T: Default + Resource>(&mut self)
        ensures
            final(self).wf(),
            World::initialized(old(self).slots(), final(self).slots(), type_key::<T>()),
            final(self).contains(type_key::<T>()),
    {
        let key = key_of::<T>();
        let recipe = DefaultOf::<T>::new();
        let prototype: Box<dyn Prototype> = Box::new(recipe);
        assert(prototype.kind() == recipe.kind());
        self.initialize_with(key, &prototype);
    }

    /// Borrows the resource of type `T` for reading. Fails with
    /// `NotInitialized` exactly where the world holds no such resource, and
    /// otherwise with `AlreadyBorrowed` where a writer holds it. The borrow
    /// ends when the guard is dropped.
    ///
    /// Whether a writer holds the resource is the cell's hidden state, so
    /// the contract leaves open whether a resource that is there is borrowed
    /// or refused.
    pub fn get<T: Resource>(&self) -> (r: Result<AtomicRef<'_, T>, EcsError>)
        ensures
            !self.contains(type_key::<T>()) <==> r == Err::<AtomicRef<'_, T>, EcsError>(
                EcsError::NotInitialized,
            ),
            r matches Err(e) ==> e == EcsError::NotInitialized || e == EcsError::AlreadyBorrowed,
    {
        let key = key_of::<T>();
        match self.find(&key) {
            None => Err(EcsError::NotInitialized),
            Some(i) => {
                assert(self.keys()[i as int] == key);
                shared_outcome::<T>(borrow_shared(&self.res[i].cell))
            },
        }
    }

    /// Like `get`, without saying why a borrow was refused.
    pub fn try_get<T: Resource>(&self) -> (r: Result<AtomicRef<'_, T>, ()>)
        ensures
            !self.contains(type_key::<T>()) ==> r is Err,
    {
        match self.get::<T>() {
            Ok(guard) => Ok(guard),
            Err(_) => Err(()),
        }
    }

    /// Borrows the resource of type `T` for writing. Fails with
    /// `NotInitialized` exactly where the world holds no such resource, and
    /// otherwise with `AlreadyBorrowed` where anybody holds it. The borrow
    /// ends when the guard is dropped. What the contract leaves open is what
    /// `get` leaves open.
    pub fn get_mut<T: Resource>(&self) -> (r: Result<AtomicRefMut<'_, T>, EcsError>)
        ensures
            !self.contains(type_key::<T>()) <==> r == Err::<AtomicRefMut<'_, T>, EcsError>(
                EcsError::NotInitialized,
            ),
            r matches Err(e) ==> e == EcsError::NotInitialized || e == EcsError::AlreadyBorrowed,
    {
        let key = key_of::<T>();
        match self.find(&key) {
            None => Err(EcsError::NotInitialized),
            Some(i) => {
                assert(self.keys()[i as int] == key);
                exclusive_outcome::<T>(borrow_exclusive(&self.res[i].cell))
            },
        }
    }

    /// Like `get_mut`, without saying why a borrow was refused.
    pub fn try_get_mut<T: Resource>(&self) -> (r: Result<AtomicRefMut<'_, T>, ()>)
        ensures
            !self.contains(type_key::<T>()) ==> r is Err,
    {
        match self.get_mut::<T>() {
            Ok(guard) => Ok(guard),
            Err(_) => Err(()),
        }
    }

    /// Borrows the resource stored under `key` for writing, without knowing
    /// its type. Fails with `NotInitialized` exactly where the world holds
    /// nothing under `key`, and otherwise with `AlreadyBorrowed` where
    /// anybody holds the resource. The resource that is borrowed is of the
    /// type that `key` stands for.
    pub fn get_by_typeid(&self, key: &TypeId) -> (r: Result<ErasedMut<'_>, EcsError>)
        ensures
            !self.contains(*key) <==> r == Err::<ErasedMut<'_>, EcsError>(
                EcsError::NotInitialized,
            ),
            r matches Err(e) ==> e == EcsError::NotInitialized || e == EcsError::AlreadyBorrowed,
            r matches Ok(guard) ==> guard.kind() == *key,
    {
        match self.find(key) {
            None => Err(EcsError::NotInitialized),
            Some(i) => {
                assert(self.keys()[i as int] == *key);
                match borrow_exclusive(&self.res[i].cell) {
                    Ok(guard) => Ok(ErasedMut { guard }),
                    Err(_) => Err(EcsError::AlreadyBorrowed),
                }
            },
        }
    }

    /// Borrows the resource of type `T` for writing, after initializing it to
    /// its default value if the world did not hold it. The resource is
    /// there, so the only failure left is `AlreadyBorrowed`.
    pub fn get_mut_or_default<T: Default + Resource>(&mut self) -> (r: Result<
        AtomicRefMut<'_, T>,
        EcsError,
    >)
        ensures
            final(self).wf(),
            World::initialized(old(self).slots(), final(self).slots(), type_key::<T>()),
            final(self).contains(type_key::<T>()),
            r matches Err(e) ==> e == EcsError::AlreadyBorrowed,
    {
        self.initialize::<T>();
        self.get_mut::<T>()
    }
}

impl Default for World {
    fn default() -> (world: World)
        ensures
            world.slots() == Seq::<Slot>::empty(),
            world.wf(),
    {
        World::new()
    }
}

/// Initializing is idempotent. In a world with at most one resource per key,
/// a second initialization of one key changes nothing, so a value that was
/// written in between is not reset; and after either of them the world holds
/// exactly one resource under that key.
pub proof fn lemma_initialize_is_idempotent(
    before: Seq<Slot>,
    once: Seq<Slot>,
    twice: Seq<Slot>,
    key: TypeId,
)
    requires
        keys_of(before).no_duplicates(),
        World::initialized(before, once, key),
        World::initialized(once, twice, key),
    ensures
        twice == once,
        keys_of(once).no_duplicates(),
        exists|at: int|
            0 <= at < once.len() && (#[trigger] once[at]).key() == key && forall|other: int|
                0 <= other < once.len() && (#[trigger] once[other]).key() == key ==> other == at,
{
    let keys = keys_of(once);
    if keys_of(before).contains(key) {
        let at = choose|at: int| 0 <= at < before.len() && keys_of(before)[at] == key;
        assert(once[at].key() == key);
        assert forall|other: int|
            0 <= other < once.len() && (#[trigger] once[other]).key() == key implies other
            == at by {
            assert(keys[other] == keys[at]);
        }
    } else {
        let at = before.len() as int;
        assert(once.drop_last() == before);
        assert(keys == keys_of(before).push(key));
        assert(keys[at] == key);
        assert forall|other: int|
            0 <= other < once.len() && (#[trigger] once[other]).key() == key implies other
            == at by {
            if other < at {
                assert(keys_of(before)[other] == key);
            }
        }
        assert(once[at].key() == key);
    }
}

/// Narrows a guard from `World::get_by_typeid` to the type `T`. Succeeds
/// exactly where the resource that the guard borrows is of the type `T`;
/// where it is of another type, fails with `NotInitialized` and ends the
/// borrow.
pub fn typed_mut<'a, T: Resource>(guard: ErasedMut<'a>) -> (r: Result<
    AtomicRefMut<'a, T>,
    EcsError,
>)
    ensures
        r is Ok <==> guard.kind() == type_key::<T>(),
        r matches Err(e) ==> e == EcsError::NotInitialized,
{
    match narrow_exclusive::<T>(guard.guard) {
        Some(typed) => Ok(typed),
        None => Err(EcsError::NotInitialized),
    }
}

} // verus!
