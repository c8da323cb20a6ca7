//! Systems: a function bound to the list of resources that it reads and
//! writes.

use crate::error::EcsError;
use crate::error::SystemResult;
use crate::ledger::admits;
use crate::ledger::Access;
use crate::ledger::BorrowLedger;
use crate::ledger::Lease;
use crate::resource::hold;
use crate::resource::DefaultOf;
use crate::resource::Held;
use crate::resource::Prototype;
use crate::resource::Resource;
use crate::typeid::key_of;
use crate::typeid::type_key;
use crate::world::keys_of;
use crate::world::World;
use std::any::TypeId;
use vstd::prelude::*;

verus! {

/// One parameter of a system: the resource it needs, the mode in which it
/// borrows it, and the recipe for the resource's first value.
pub struct Requirement {
    lease: Lease,
    prototype: Held<dyn Prototype>,
}

impl Requirement {
    /// The borrow that the parameter stands for.
    pub closed spec fn lease(&self) -> Lease {
        self.lease
    }

    /// The key of the type of the resources that the recipe makes.
    pub closed spec fn makes(&self) -> TypeId {
        self.prototype.inner.kind()
    }

    /// The recipe makes resources of the type that is borrowed.
    #[verifier::type_invariant]
    spec fn matching(&self) -> bool {
        self.makes() == self.lease.key
    }

    /// A parameter that borrows the resource of type `T` in the mode
    /// `access`, with the recipe that makes the default value of `T`.
    fn of<T: Default + Resource>(access: Access) -> (need: Requirement)
        ensures
            need.lease() == (Lease { key: type_key::<T>(), access }),
            need.makes() == type_key::<T>(),
    {
        let recipe = DefaultOf::<T>::new();
        let boxed: Box<dyn Prototype> = Box::new(recipe);
        assert(boxed.kind() == recipe.kind());
        let prototype = hold(boxed);
        assert(prototype.inner == boxed);
        Requirement { lease: Lease { key: key_of::<T>(), access }, prototype }
    }

    /// A parameter that reads the resource of type `T`.
    pub fn read<T: Default + Resource>() -> (need: Requirement)
        ensures
            need.lease() == reading::<T>(),
            need.makes() == type_key::<T>(),
    {
        Requirement::of::<T>(Access::Read)
    }

    /// A parameter that writes the resource of type `T`.
    pub fn write<T: Default + Resource>() -> (need: Requirement)
        ensures
            need.lease() == writing::<T>(),
            need.makes() == type_key::<T>(),
    {
        Requirement::of::<T>(Access::Write)
    }
}

/// A shared borrow of the resource of type `T`.
pub open spec fn reading<T: ?Sized + 'static>() -> Lease {
    Lease { key: type_key::<T>(), access: Access::Read }
}

/// An exclusive borrow of the resource of type `T`.
pub open spec fn writing<T: ?Sized + 'static>() -> Lease {
    Lease { key: type_key::<T>(), access: Access::Write }
}

/// Whether the shared borrows of `leases` all come before the exclusive ones.
pub open spec fn reads_first(leases: Seq<Lease>) -> bool {
    forall|i: int, j: int|
        0 <= i < j < leases.len() && (#[trigger] leases[j]).access is Read ==> (
        #[trigger] leases[i]).access is Read
}

/// The borrows that a list of parameters stands for, in order.
pub open spec fn leases_of(needs: Seq<Requirement>) -> Seq<Lease> {
    needs.map_values(|need: Requirement| need.lease())
}

/// The resource types of `leases`, in order.
pub open spec fn keys_in(leases: Seq<Lease>) -> Seq<TypeId> {
    leases.map_values(|lease: Lease| lease.key)
}

/// The keys of a world after each of `wanted` has been initialized in turn:
/// a key that is missing is added at the end, one that is there stays where
/// it is.
pub open spec fn with_keys(keys: Seq<TypeId>, wanted: Seq<TypeId>) -> Seq<TypeId>
    decreases wanted.len(),
{
    if wanted.len() == 0 {
        keys
    } else {
        let before = with_keys(keys, wanted.drop_last());
        if before.contains(wanted.last()) {
            before
        } else {
            before.push(wanted.last())
        }
    }
}

/// Initializing keys never removes a key, and makes every wanted key present.
pub proof fn lemma_with_keys_holds(keys: Seq<TypeId>, wanted: Seq<TypeId>)
    ensures
        forall|key: TypeId| keys.contains(key) ==> #[trigger] with_keys(keys, wanted).contains(key),
        forall|j: int|
            0 <= j < wanted.len() ==> with_keys(keys, wanted).contains(#[trigger] wanted[j]),
    decreases wanted.len(),
{
    if wanted.len() > 0 {
        let front = wanted.drop_last();
        let before = with_keys(keys, front);
        lemma_with_keys_holds(keys, front);
        let after = with_keys(keys, wanted);
        if !before.contains(wanted.last()) {
            assert(after[before.len() as int] == wanted.last());
            assert forall|key: TypeId| before.contains(key) implies after.contains(key) by {
                let i = choose|i: int| 0 <= i < before.len() && before[i] == key;
                assert(after[i] == key);
            }
        }
        assert forall|j: int| 0 <= j < wanted.len() implies after.contains(
            #[trigger] wanted[j],
        ) by {
            if j < front.len() {
                assert(front[j] == wanted[j]);
            }
        }
    }
}

/// Initializing the keys of one list and then those of another is
/// initializing the keys of the two lists joined.
pub proof fn lemma_with_keys_append(keys: Seq<TypeId>, first: Seq<TypeId>, second: Seq<TypeId>)
    ensures
        with_keys(with_keys(keys, first), second) == with_keys(keys, first + second),
    decreases second.len(),
{
    if second.len() == 0 {
        assert(first + second == first);
    } else {
        lemma_with_keys_append(keys, first, second.drop_last());
        assert((first + second).drop_last() == first + second.drop_last());
        assert((first + second).last() == second.last());
    }
}

/// The state in which an attempt to acquire the leases of a signature ends.
pub struct Probe {
    /// The leases held when the attempt ended.
    pub held: Seq<Lease>,
    /// Whether every lease was granted, and if not, why the first one that
    /// was refused was refused.
    pub result: Result<(), EcsError>,
}

/// Acquires the leases `wanted[from..]` one by one on top of `held`, in a
/// world that holds the resources `known`. The attempt stops at the first
/// lease that cannot be granted, and keeps the leases granted before it.
pub open spec fn probe_from(
    held: Seq<Lease>,
    wanted: Seq<Lease>,
    known: Seq<TypeId>,
    from: int,
) -> Probe
    decreases wanted.len() - from,
{
    if from < 0 || from >= wanted.len() {
        Probe { held, result: Ok(()) }
    } else if !known.contains(wanted[from].key) {
        Probe { held, result: Err(EcsError::NotInitialized) }
    } else if !admits(held, wanted[from].key, wanted[from].access) {
        Probe { held, result: Err(EcsError::AlreadyBorrowed) }
    } else {
        probe_from(held.push(wanted[from]), wanted, known, from + 1)
    }
}

/// Acquires all of `wanted` on top of `held`.
pub open spec fn probe(held: Seq<Lease>, wanted: Seq<Lease>, known: Seq<TypeId>) -> Probe {
    probe_from(held, wanted, known, 0)
}

/// Whether a run that asks the world for the resources `needs`, in order,
/// ends with `result` at the resource `at`, before the function is called:
/// every resource before that one is there, and that one is missing, which
/// is `NotInitialized`, or is there and refuses the borrow, which is
/// `AlreadyBorrowed`.
pub open spec fn stops_at(needs: Seq<Lease>, world: &World, result: SystemResult, at: int) -> bool {
    &&& 0 <= at < needs.len()
    &&& forall|j: int| 0 <= j < at ==> world.contains(#[trigger] needs[j].key)
    &&& if world.contains(needs[at].key) {
        result == Err::<(), EcsError>(EcsError::AlreadyBorrowed)
    } else {
        result == Err::<(), EcsError>(EcsError::NotInitialized)
    }
}

/// Whether a run that asks the world for the resources `needs` ends with
/// `result` before the function is called.
pub open spec fn stops_early(needs: Seq<Lease>, world: &World, result: SystemResult) -> bool {
    exists|at: int| #[trigger] stops_at(needs, world, result, at)
}

/// Whether the world holds every resource of `needs`.
pub open spec fn holds_all(needs: Seq<Lease>, world: &World) -> bool {
    forall|j: int| 0 <= j < needs.len() ==> world.contains(#[trigger] needs[j].key)
}

/// A run that ends before the function is called ends with one of the two
/// errors of borrowing: with `NotInitialized` where the world lacks the
/// first resource, and with `AlreadyBorrowed` where the world holds every
/// resource.
pub proof fn lemma_stops_early(needs: Seq<Lease>, world: &World, result: SystemResult)
    requires
        stops_early(needs, world, result),
    ensures
        result == Err::<(), EcsError>(EcsError::NotInitialized) || result == Err::<(), EcsError>(
            EcsError::AlreadyBorrowed,
        ),
        needs.len() > 0,
        !world.contains(needs[0].key) ==> result == Err::<(), EcsError>(EcsError::NotInitialized),
        holds_all(needs, world) ==> result == Err::<(), EcsError>(EcsError::AlreadyBorrowed),
{
    let at = choose|at: int| stops_at(needs, world, result, at);
    assert(stops_at(needs, world, result, at));
    if at > 0 {
        assert(world.contains(needs[0].key));
    }
}

/// The function of a system, with the type of the function erased.
pub(crate) trait RunFn: Send {
    /// Whether the function can return `result` when it is run on `world`.
    spec fn yields(&self, world: &World, result: SystemResult) -> bool;

    /// Runs the function on the resources of `world`.
    fn call(&self, world: &World) -> (result: SystemResult)
        ensures
            self.yields(world, result),
    ;
}

/// A function that can be called on every world.
pub(crate) struct Thunk<G> where G: Fn(&World) -> SystemResult + Send {
    run: G,
}

impl<G> Thunk<G> where G: Fn(&World) -> SystemResult + Send {
    #[verifier::type_invariant]
    spec fn total(&self) -> bool {
        forall|world: &World| call_requires(self.run, (world,))
    }
}

impl<G> RunFn for Thunk<G> where G: Fn(&World) -> SystemResult + Send {
    closed spec fn yields(&self, world: &World, result: SystemResult) -> bool {
        call_ensures(self.run, (world,), result)
    }

    fn call(&self, world: &World) -> (result: SystemResult) {
        proof {
            use_type_invariant(self);
        }
        (self.run)(world)
    }
}

/// A function together with the resources it needs: reads first, then
/// writes, in the order of its parameters.
pub struct System {
    needs: Vec<Requirement>,
    run_fn: Held<dyn RunFn>,
}

impl System {
    /// The borrows that the system asks for, in the order in which it
    /// acquires them.
    pub closed spec fn signature(&self) -> Seq<Lease> {
        leases_of(self.needs@)
    }

    /// Whether the system's function can return `result` when it is run on
    /// `world`. What a function returns may depend on more than the world,
    /// so this is a relation: it holds of every result that a run can have.
    pub closed spec fn yields(&self, world: &World, result: SystemResult) -> bool {
        self.run_fn.inner.yields(world, result)
    }

    /// Binds `run` to the resources `needs`. The function has to accept
    /// every world; it borrows what it needs from the world itself.
    pub fn new<G>(needs: Vec<Requirement>, run: G) -> (system: System) where
        G: Fn(&World) -> SystemResult + Send + 'static,

        requires
            forall|world: &World| call_requires(run, (world,)),
        ensures
            system.signature() == leases_of(needs@),
            forall|world: &World, result: SystemResult| #[trigger]
                system.yields(world, result) <==> call_ensures(run, (world,), result),
    {
        let thunk = Thunk { run };
        let ghost function = thunk;
        let boxed: Box<dyn RunFn> = Box::new(thunk);
        assert(forall|world: &World, result: SystemResult| #[trigger]
            boxed.yields(world, result) == function.yields(world, result));
        let run_fn = hold(boxed);
        assert(run_fn.inner == boxed);
        System { needs, run_fn }
    }

    /// The borrows that the system asks for, in the order in which it
    /// acquires them.
    pub fn leases(&self) -> (leases: Vec<Lease>)
        ensures
            leases@ == self.signature(),
    {
        let mut leases: Vec<Lease> = Vec::new();
        let mut i: usize = 0;
        while i < self.needs.len()
            invariant
                i <= self.needs.len(),
                leases@ == self.signature().take(i as int),
            decreases self.needs.len() - i,
        {
            leases.push(self.needs[i].lease);
            proof {
                assert(self.signature().take(i + 1) == self.signature().take(i as int).push(
                    self.needs@[i as int].lease(),
                ));
            }
            i = i + 1;
        }
        proof {
            assert(self.signature().take(self.needs.len() as int) == self.signature());
        }
        leases
    }

    /// Initializes the resources that the system needs, in the order of its
    /// signature, unless the world holds them already. Resources that the
    /// world holds are left alone.
    pub fn initialize(&self, world: &mut World)
        ensures
            final(world).wf(),
            final(world).keys() == with_keys(old(world).keys(), keys_in(self.signature())),
            old(world).slots().len() <= final(world).slots().len(),
            final(world).slots().take(old(world).slots().len() as int) == old(world).slots(),
    {
        let ghost wanted = keys_in(self.signature());
        let mut i: usize = 0;
        proof {
            use_type_invariant(&*world);
            assert(wanted.take(0) == Seq::<TypeId>::empty());
        }
        while i < self.needs.len()
            invariant
                i <= self.needs.len(),
                wanted == keys_in(self.signature()),
                wanted.len() == self.needs.len(),
                world.wf(),
                world.keys() == with_keys(old(world).keys(), wanted.take(i as int)),
                old(world).slots().len() <= world.slots().len(),
                world.slots().take(old(world).slots().len() as int) == old(world).slots(),
            decreases self.needs.len() - i,
        {
            let need = &self.needs[i];
            let ghost before = world.slots();
            proof {
                use_type_invariant(need);
            }
            world.initialize_with(need.lease.key, &need.prototype.inner);
            proof {
                let key = need.lease.key;
                assert(wanted[i as int] == key);
                assert(wanted.take(i + 1).drop_last() == wanted.take(i as int));
                assert(wanted.take(i + 1).last() == key);
                if !keys_of(before).contains(key) {
                    assert(world.slots().drop_last() == before);
                    assert(keys_of(world.slots()) == keys_of(before).push(key));
                }
                assert(world.slots().take(old(world).slots().len() as int) == before.take(
                    old(world).slots().len() as int,
                ));
            }
            i = i + 1;
        }
        proof {
            assert(wanted.take(wanted.len() as int) == wanted);
        }
    }

    /// Tries to acquire, in the order of the signature, a lease on each
    /// resource that the system needs, on top of the leases in `ledger`. The
    /// attempt stops at the first lease that is refused; the leases granted
    /// before it stay in the ledger until the ledger is cleared.
    pub fn try_acquire(&self, world: &World, ledger: &mut BorrowLedger) -> (granted: Result<
        (),
        EcsError,
    >)
        ensures
            (Probe { held: final(ledger)@, result: granted }) == probe(
                old(ledger)@,
                self.signature(),
                world.keys(),
            ),
    {
        let ghost wanted = self.signature();
        let ghost known = world.keys();
        let mut i: usize = 0;
        while i < self.needs.len()
            invariant
                i <= self.needs.len(),
                wanted == self.signature(),
                wanted.len() == self.needs.len(),
                known == world.keys(),
                probe(old(ledger)@, wanted, known) == probe_from(ledger@, wanted, known, i as int),
            decreases self.needs.len() - i,
        {
            let lease = &self.needs[i].lease;
            assert(wanted[i as int] == *lease);
            if !world.has(&lease.key) {
                return Err(EcsError::NotInitialized);
            }
            match ledger.acquire(lease.key, lease.access) {
                Ok(_) => {},
                Err(e) => {
                    return Err(e);
                },
            }
            i = i + 1;
        }
        Ok(())
    }

    /// Runs the system's function on the resources of `world`, once. The
    /// function borrows its resources afresh, and the borrows end before
    /// `run` returns. The result is the one that the function returned: its
    /// own, or the error of a borrow that was refused. The system itself is
    /// not changed.
    pub fn run(&mut self, world: &World) -> (result: SystemResult)
        ensures
            *final(self) == *old(self),
            old(self).yields(world, result),
    {
        self.run_fn.inner.call(world)
    }
}

/// Converts a function into a `System`. It is implemented for functions of up
/// to twelve parameters, each a reference to a resource: shared references
/// first, then mutable ones.
pub trait IntoSystem<R>: Sized {
    /// Whether the function may be called on every choice of resources.
    spec fn accepts_all(&self) -> bool;

    /// The borrows that the function's parameters stand for, in order.
    spec fn needs() -> Seq<Lease>;

    /// Whether running the function on the resources of `world` can end
    /// with `result`. The resources are borrowed in the order of the
    /// parameters. The run ends before the function is called, with
    /// `NotInitialized` or `AlreadyBorrowed`, at the first resource that is
    /// missing or refuses the borrow; otherwise the function is called on
    /// the resources, and its result is the result of the run.
    spec fn runs(&self, world: &World, result: SystemResult) -> bool;

    /// Binds the function to the resources that its parameters name. The
    /// system asks for those resources, and a run of the system is a run of
    /// the function.
    fn system(self) -> (system: System)
        requires
            self.accepts_all(),
        ensures
            system.signature() == Self::needs(),
            reads_first(system.signature()),
            forall|world: &World, result: SystemResult| #[trigger]
                system.yields(world, result) ==> self.runs(world, result),
    ;
}

} // verus!
