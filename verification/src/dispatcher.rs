//! The dispatcher: systems grouped into stages, so that the systems of one
//! stage never contend for a resource, and the stages run in order.

use crate::error::collect_failures;
use crate::error::failures;
use crate::error::stage_outcome;
use crate::error::EcsError;
use crate::error::SystemResult;
use crate::ledger::admits;
use crate::ledger::coherent;
use crate::ledger::collide;
use crate::ledger::BorrowLedger;
use crate::ledger::Lease;
use crate::system::keys_in;
use crate::system::lemma_with_keys_append;
use crate::system::lemma_with_keys_holds;
use crate::system::probe;
use crate::system::probe_from;
use crate::system::with_keys;
use crate::system::IntoSystem;
use crate::system::System;
use crate::world::World;
use rayon::iter::IntoParallelRefMutIterator;
use rayon::iter::ParallelIterator;
use std::any::TypeId;
use vstd::prelude::*;

verus! {

/// The leases that the systems of one stage ask for together: their
/// signatures one after the other.
pub open spec fn stage_leases(stage: Seq<System>) -> Seq<Lease>
    decreases stage.len(),
{
    if stage.len() == 0 {
        Seq::empty()
    } else {
        stage_leases(stage.drop_last()) + stage.last().signature()
    }
}

/// Whether a system with the signature `wanted` can join a stage whose
/// systems hold the leases `held`: no lease of `wanted` collides with a lease
/// held, nor with another lease of `wanted`.
pub open spec fn joins(held: Seq<Lease>, wanted: Seq<Lease>) -> bool {
    coherent(wanted) && forall|i: int, j: int|
        0 <= i < held.len() && 0 <= j < wanted.len() ==> !collide(
            #[trigger] held[i],
            #[trigger] wanted[j],
        )
}

/// The stages into which `systems` are grouped: each system joins the stage
/// of the one before it if it can, and starts a new stage if it cannot. The
/// order of the systems is never changed.
pub open spec fn partition(systems: Seq<System>) -> Seq<Seq<System>>
    decreases systems.len(),
{
    if systems.len() == 0 {
        Seq::empty()
    } else {
        let before = partition(systems.drop_last());
        let system = systems.last();
        if before.len() > 0 && joins(stage_leases(before.last()), system.signature()) {
            before.drop_last().push(before.last().push(system))
        } else {
            before.push(seq![system])
        }
    }
}

/// The resource types that `systems` name, in the order of the systems and
/// of their signatures.
pub open spec fn keys_named(systems: Seq<System>) -> Seq<TypeId> {
    keys_in(stage_leases(systems))
}

/// The systems of a list of vectors, as sequences.
pub open spec fn stages_of(stages: Seq<Vec<System>>) -> Seq<Seq<System>> {
    stages.map_values(|stage: Vec<System>| stage@)
}

/// In a world that holds every resource that `wanted` names, an attempt to
/// acquire `wanted[from..]` on top of `held` succeeds exactly when none of
/// those leases collides with a lease held or with another of them. It then
/// holds them all; and when it fails, it fails with `AlreadyBorrowed`.
pub proof fn lemma_probe_from(held: Seq<Lease>, wanted: Seq<Lease>, known: Seq<TypeId>, from: int)
    requires
        0 <= from <= wanted.len(),
        forall|j: int| from <= j < wanted.len() ==> known.contains(#[trigger] wanted[j].key),
    ensures
        probe_from(held, wanted, known, from).result is Ok <==> {
            &&& forall|i: int, j: int|
                0 <= i < held.len() && from <= j < wanted.len() ==> !collide(
                    #[trigger] held[i],
                    #[trigger] wanted[j],
                )
            &&& forall|i: int, j: int|
                from <= i < j < wanted.len() ==> !collide(
                    #[trigger] wanted[i],
                    #[trigger] wanted[j],
                )
        },
        probe_from(held, wanted, known, from).result is Ok ==> probe_from(
            held,
            wanted,
            known,
            from,
        ).held == held + wanted.subrange(from, wanted.len() as int),
        probe_from(held, wanted, known, from).result is Err ==> probe_from(
            held,
            wanted,
            known,
            from,
        ).result == Err::<(), EcsError>(EcsError::AlreadyBorrowed),
    decreases wanted.len() - from,
{
    if from >= wanted.len() {
        assert(wanted.subrange(from, wanted.len() as int) == Seq::<Lease>::empty());
        assert(held + Seq::<Lease>::empty() == held);
    } else {
        let first = wanted[from];
        if !admits(held, first.key, first.access) {
            let i = choose|i: int|
                0 <= i < held.len() && collide(
                    #[trigger] held[i],
                    Lease { key: first.key, access: first.access },
                );
            assert(collide(held[i], wanted[from]));
        } else {
            let next = held.push(first);
            lemma_probe_from(next, wanted, known, from + 1);
            assert(next + wanted.subrange(from + 1, wanted.len() as int) == held
                + wanted.subrange(from, wanted.len() as int));
            assert forall|i: int| 0 <= i < held.len() implies !collide(
                #[trigger] held[i],
                wanted[from],
            ) by {
                assert(!collide(held[i], Lease { key: first.key, access: first.access }));
            }
            if probe_from(next, wanted, known, from + 1).result is Ok {
                assert forall|i: int, j: int|
                    0 <= i < held.len() && from <= j < wanted.len() implies !collide(
                    #[trigger] held[i],
                    #[trigger] wanted[j],
                ) by {
                    assert(next[i] == held[i]);
                }
                assert forall|i: int, j: int| from <= i < j < wanted.len() implies !collide(
                    #[trigger] wanted[i],
                    #[trigger] wanted[j],
                ) by {
                    if i == from {
                        assert(next[held.len() as int] == wanted[from]);
                    }
                }
            } else {
                if (forall|i: int, j: int|
                    0 <= i < held.len() && from <= j < wanted.len() ==> !collide(
                        #[trigger] held[i],
                        #[trigger] wanted[j],
                    )) && (forall|i: int, j: int|
                    from <= i < j < wanted.len() ==> !collide(
                        #[trigger] wanted[i],
                        #[trigger] wanted[j],
                    )) {
                    assert forall|i: int, j: int|
                        0 <= i < next.len() && from + 1 <= j < wanted.len() implies !collide(
                        #[trigger] next[i],
                        #[trigger] wanted[j],
                    ) by {
                        if i < held.len() {
                            assert(next[i] == held[i]);
                        } else {
                            assert(next[i] == wanted[from]);
                        }
                    }
                    assert(false);
                }
            }
        }
    }
}

/// A system joins a stage exactly when the attempt to acquire its leases on
/// top of the stage's leases succeeds, in a world that holds every resource
/// the system names; the stage then holds the leases of both.
pub proof fn lemma_probe_joins(held: Seq<Lease>, wanted: Seq<Lease>, known: Seq<TypeId>)
    requires
        forall|j: int| 0 <= j < wanted.len() ==> known.contains(#[trigger] wanted[j].key),
    ensures
        probe(held, wanted, known).result is Ok <==> joins(held, wanted),
        joins(held, wanted) ==> probe(held, wanted, known).held == held + wanted,
        !joins(held, wanted) ==> probe(held, wanted, known).result == Err::<(), EcsError>(
            EcsError::AlreadyBorrowed,
        ),
{
    lemma_probe_from(held, wanted, known, 0);
    assert(wanted.subrange(0, wanted.len() as int) == wanted);
}

/// The stages, one after the other, are the systems in the order in which they were added:
/// grouping drops nothing, repeats nothing and reorders nothing.
pub proof fn lemma_partition_concatenates(systems: Seq<System>)
    ensures
        partition(systems).flatten() == systems,
        forall|s: int| 0 <= s < partition(systems).len() ==> (#[trigger] partition(systems)[s]).len() > 0,
    decreases systems.len(),
{
    let stages = partition(systems);
    if systems.len() == 0 {
        assert(stages.flatten() == Seq::<System>::empty());
    } else {
        let before = partition(systems.drop_last());
        let system = systems.last();
        lemma_partition_concatenates(systems.drop_last());
        before.lemma_flatten_and_flatten_alt_are_equivalent();
        stages.lemma_flatten_and_flatten_alt_are_equivalent();
        assert(systems == systems.drop_last().push(system));
        if before.len() > 0 && joins(stage_leases(before.last()), system.signature()) {
            let front = before.drop_last();
            assert(stages.drop_last() == front);
            assert(stages.last() == before.last().push(system));
            assert(before.flatten_alt() == front.flatten_alt() + before.last());
            assert(stages.flatten_alt() == front.flatten_alt() + before.last().push(system));
            assert(front.flatten_alt() + before.last().push(system) == (front.flatten_alt()
                + before.last()).push(system));
        } else {
            assert(stages.drop_last() == before);
            assert(stages.last() == seq![system]);
            assert(stages.flatten_alt() == before.flatten_alt() + seq![system]);
            assert(before.flatten_alt() + seq![system] == before.flatten_alt().push(system));
        }
    }
}

/// Where no system asks for one resource in two modes that exclude each
/// other, no stage holds two leases that collide: a resource has only
/// readers in a stage, or a single writer.
pub proof fn lemma_partition_is_coherent(systems: Seq<System>)
    requires
        forall|i: int| 0 <= i < systems.len() ==> coherent((#[trigger] systems[i]).signature()),
    ensures
        forall|s: int|
            0 <= s < partition(systems).len() ==> coherent(
                stage_leases(#[trigger] partition(systems)[s]),
            ),
    decreases systems.len(),
{
    if systems.len() > 0 {
        let front = systems.drop_last();
        let before = partition(front);
        let system = systems.last();
        assert forall|i: int| 0 <= i < front.len() implies coherent(
            (#[trigger] front[i]).signature(),
        ) by {
            assert(front[i] == systems[i]);
        }
        lemma_partition_is_coherent(front);
        let stages = partition(systems);
        if before.len() > 0 && joins(stage_leases(before.last()), system.signature()) {
            let joined = before.last().push(system);
            assert(joined.drop_last() == before.last());
            assert(stage_leases(joined) == stage_leases(before.last()) + system.signature());
            lemma_joined_is_coherent(stage_leases(before.last()), system.signature());
            assert forall|s: int| 0 <= s < stages.len() implies coherent(
                stage_leases(#[trigger] stages[s]),
            ) by {
                if s < stages.len() - 1 {
                    assert(stages[s] == before[s]);
                }
            }
        } else {
            let alone = seq![system];
            assert(alone.drop_last() == Seq::<System>::empty());
            assert(stage_leases(alone.drop_last()) == Seq::<Lease>::empty());
            assert(stage_leases(alone) == Seq::<Lease>::empty() + system.signature());
            assert(Seq::<Lease>::empty() + system.signature() == system.signature());
            assert forall|s: int| 0 <= s < stages.len() implies coherent(
                stage_leases(#[trigger] stages[s]),
            ) by {
                if s < stages.len() - 1 {
                    assert(stages[s] == before[s]);
                }
            }
        }
    }
}

/// In a stage whose leases are coherent, no lease of one system collides with
/// a lease of another: two systems of a stage never hold one resource unless
/// both only read it.
pub proof fn lemma_stage_units_compatible(stage: Seq<System>, a: int, b: int, i: int, j: int)
    requires
        coherent(stage_leases(stage)),
        0 <= a < b < stage.len(),
        0 <= i < stage[a].signature().len(),
        0 <= j < stage[b].signature().len(),
    ensures
        !collide(stage[a].signature()[i], stage[b].signature()[j]),
    decreases stage.len(),
{
    let front = stage.drop_last();
    let held = stage_leases(front);
    let all = stage_leases(stage);
    if b == stage.len() - 1 {
        lemma_stage_leases_cover(front, a, i);
        let at = choose|at: int| 0 <= at < held.len() && held[at] == front[a].signature()[i];
        assert(all[at] == held[at]);
        assert(all[held.len() + j] == stage[b].signature()[j]);
    } else {
        assert forall|x: int, y: int| 0 <= x < y < held.len() implies !collide(
            #[trigger] held[x],
            #[trigger] held[y],
        ) by {
            assert(all[x] == held[x] && all[y] == held[y]);
        }
        lemma_stage_units_compatible(front, a, b, i, j);
    }
}

/// Leases that are coherent stay coherent when a signature that joins them
/// is added.
pub proof fn lemma_joined_is_coherent(held: Seq<Lease>, wanted: Seq<Lease>)
    requires
        coherent(held),
        joins(held, wanted),
    ensures
        coherent(held + wanted),
{
    let all = held + wanted;
    assert forall|i: int, j: int| 0 <= i < j < all.len() implies !collide(
        #[trigger] all[i],
        #[trigger] all[j],
    ) by {
        if j < held.len() {
            assert(all[i] == held[i] && all[j] == held[j]);
        } else if i < held.len() {
            assert(all[i] == held[i] && all[j] == wanted[j - held.len()]);
        } else {
            assert(all[i] == wanted[i - held.len()] && all[j] == wanted[j - held.len()]);
        }
    }
}

/// Every lease of every system is among the leases of the systems together.
pub proof fn lemma_stage_leases_cover(systems: Seq<System>, k: int, j: int)
    requires
        0 <= k < systems.len(),
        0 <= j < systems[k].signature().len(),
    ensures
        stage_leases(systems).contains(systems[k].signature()[j]),
    decreases systems.len(),
{
    let front = stage_leases(systems.drop_last());
    let all = stage_leases(systems);
    if k == systems.len() - 1 {
        assert(all[front.len() + j] == systems[k].signature()[j]);
    } else {
        lemma_stage_leases_cover(systems.drop_last(), k, j);
        let i = choose|i: int| 0 <= i < front.len() && front[i] == systems[k].signature()[j];
        assert(all[i] == front[i]);
    }
}

/// A builder that accumulates systems to be inserted into a `Dispatcher`.
pub struct DispatcherBuilder {
    /// The systems added so far, in the order in which they were added.
    pub systems: Vec<System>,
}

/// A dispatcher executes systems in stages: the stages in order, and the
/// systems of one stage in order or in parallel. No two systems of a stage
/// borrow one resource unless both only read it.
pub struct Dispatcher {
    stages: Vec<Vec<System>>,
}

impl View for Dispatcher {
    type V = Seq<Seq<System>>;

    closed spec fn view(&self) -> Seq<Seq<System>> {
        stages_of(self.stages@)
    }
}

impl DispatcherBuilder {
    /// Creates a builder without systems.
    pub fn new() -> (builder: Self)
        ensures
            builder.systems@ == Seq::<System>::empty(),
    {
        DispatcherBuilder { systems: Vec::new() }
    }

    /// Converts a function into a system and adds it after the systems
    /// added so far. The system added asks for the resources that the
    /// function's parameters name, and a run of it is a run of the function.
    pub fn add<R, F: IntoSystem<R>>(self, into_system: F) -> (builder: Self)
        requires
            into_system.accepts_all(),
        ensures
            builder.systems@.len() == self.systems@.len() + 1,
            builder.systems@.drop_last() == self.systems@,
            builder.systems@.last().signature() == F::needs(),
            forall|world: &World, result: SystemResult| #[trigger]
                builder.systems@.last().yields(world, result) ==> into_system.runs(
                    world,
                    result,
                ),
    {
        let mut systems = self.systems;
        systems.push(into_system.system());
        DispatcherBuilder { systems }
    }

    /// Adds a system after the systems added so far.
    pub fn add_system(self, system: System) -> (builder: Self)
        ensures
            builder.systems@ == self.systems@.push(system),
    {
        let mut systems = self.systems;
        systems.push(system);
        DispatcherBuilder { systems }
    }

    /// Builds a `Dispatcher` from the systems added. First every resource
    /// that a system names is initialized, in the order of the systems. Then
    /// the systems are grouped into stages, in their order: a system whose
    /// leases the current stage cannot grant starts the next stage. A system
    /// that cannot hold its own leases even alone makes the build fail with
    /// `SelfConflict`.
    pub fn build(self, world: &mut World) -> (built: Result<Dispatcher, EcsError>)
        ensures
            final(world).wf(),
            final(world).keys() == with_keys(old(world).keys(), keys_named(self.systems@)),
            old(world).slots().len() <= final(world).slots().len(),
            final(world).slots().take(old(world).slots().len() as int) == old(world).slots(),
            match built {
                Ok(dispatcher) => {
                    &&& dispatcher@ == partition(self.systems@)
                    &&& dispatcher@.flatten() == self.systems@
                    &&& forall|s: int|
                        0 <= s < dispatcher@.len() ==> (#[trigger] dispatcher@[s]).len() > 0
                            && coherent(stage_leases(dispatcher@[s]))
                    &&& forall|i: int|
                        0 <= i < self.systems@.len() ==> coherent(
                            (#[trigger] self.systems@[i]).signature(),
                        )
                },
                Err(e) => {
                    &&& e == EcsError::SelfConflict
                    &&& exists|i: int|
                        0 <= i < self.systems@.len() && !coherent(
                            (#[trigger] self.systems@[i]).signature(),
                        )
                },
            },
    {
        let ghost all = self.systems@;
        // Every resource has to exist before any lease on it is tried.
        let mut n: usize = 0;
        proof {
            use_type_invariant(&*world);
            assert(all.take(0) == Seq::<System>::empty());
            assert(keys_named(all.take(0)) == Seq::<TypeId>::empty());
        }
        while n < self.systems.len()
            invariant
                n <= self.systems.len(),
                all == self.systems@,
                world.wf(),
                world.keys() == with_keys(old(world).keys(), keys_named(all.take(n as int))),
                old(world).slots().len() <= world.slots().len(),
                world.slots().take(old(world).slots().len() as int) == old(world).slots(),
            decreases self.systems.len() - n,
        {
            let ghost before = world.slots();
            self.systems[n].initialize(world);
            proof {
                let done = all.take(n as int);
                let next = all.take(n + 1);
                let wanted = keys_in(all[n as int].signature());
                assert(next.drop_last() == done);
                assert(next.last() == all[n as int]);
                assert(keys_named(next) == keys_named(done) + wanted);
                lemma_with_keys_append(old(world).keys(), keys_named(done), wanted);
                let kept = old(world).slots().len() as int;
                assert(world.slots().take(kept) == world.slots().take(before.len() as int).take(
                    kept,
                ));
            }
            n = n + 1;
        }
        let ghost known = world.keys();
        proof {
            assert(all.take(all.len() as int) == all);
            lemma_with_keys_holds(old(world).keys(), keys_named(all));
            assert forall|k: int, j: int|
                0 <= k < all.len() && 0 <= j < all[k].signature().len() implies known.contains(
                #[trigger] all[k].signature()[j].key,
            ) by {
                lemma_stage_leases_cover(all, k, j);
                let leases = stage_leases(all);
                let i = choose|i: int| 0 <= i < leases.len() && leases[i] == all[k].signature()[j];
                assert(keys_named(all)[i] == all[k].signature()[j].key);
            }
            assert(all.take(0) == Seq::<System>::empty());
        }
        // The ledger holds the leases of the systems in `stage`, the stage
        // that is still open.
        let mut stages: Vec<Vec<System>> = Vec::new();
        let mut stage: Vec<System> = Vec::new();
        let mut ledger = BorrowLedger::new();
        for system in it: self.systems
            invariant
                it.seq() == all,
                known == world.keys(),
                world.wf(),
                world.keys() == with_keys(old(world).keys(), keys_named(all)),
                old(world).slots().len() <= world.slots().len(),
                world.slots().take(old(world).slots().len() as int) == old(world).slots(),
                forall|k: int, j: int|
                    0 <= k < all.len() && 0 <= j < all[k].signature().len() ==> known.contains(
                        #[trigger] all[k].signature()[j].key,
                    ),
                ledger@ == stage_leases(stage@),
                coherent(ledger@),
                stage@.len() == 0 ==> it.index() == 0 && stages@.len() == 0,
                stage@.len() > 0 ==> stages_of(stages@).push(stage@) == partition(
                    all.take(it.index() as int),
                ),
                forall|k: int|
                    0 <= k < it.index() ==> coherent((#[trigger] all[k]).signature()),
        {
            let ghost at = it.index() as int;
            let ghost done = all.take(at);
            let ghost next = all.take(at + 1);
            let ghost wanted = system.signature();
            let ghost held = ledger@;
            let ghost sealed = stages_of(stages@);
            let ghost current = stage@;
            proof {
                assert(system == all[at]);
                assert(next.drop_last() == done);
                assert(next.last() == system);
                assert forall|j: int| 0 <= j < wanted.len() implies known.contains(
                    #[trigger] wanted[j].key,
                ) by {
                    assert(known.contains(all[at].signature()[j].key));
                }
                lemma_probe_joins(held, wanted, known);
                lemma_probe_joins(Seq::<Lease>::empty(), wanted, known);
            }
            let mut granted = system.try_acquire(world, &mut ledger);
            if granted.is_err() {
                // Seal the stage, release its leases together with those
                // that the failed attempt was granted, and try again alone.
                if stage.len() > 0 {
                    stages.push(stage);
                    stage = Vec::new();
                }
                ledger.clear();
                granted = system.try_acquire(world, &mut ledger);
                if granted.is_err() {
                    return Err(EcsError::SelfConflict);
                }
                proof {
                    assert(Seq::<Lease>::empty() + wanted == wanted);
                    if current.len() > 0 {
                        assert(stages_of(stages@) == sealed.push(current));
                        assert(partition(done).last() == current);
                    }
                    assert(stages_of(stages@) == partition(done));
                    assert(partition(next) == partition(done).push(seq![system]));
                }
            } else {
                proof {
                    lemma_joined_is_coherent(held, wanted);
                    if current.len() > 0 {
                        assert(partition(done).last() == current);
                        assert(partition(done).drop_last() == sealed);
                        assert(partition(next) == sealed.push(current.push(system)));
                    } else {
                        assert(partition(done) == Seq::<Seq<System>>::empty());
                        assert(partition(next) == Seq::<Seq<System>>::empty().push(seq![system]));
                        assert(sealed == Seq::<Seq<System>>::empty());
                        assert(current.push(system) == seq![system]);
                    }
                }
            }
            let ghost base = stage@;
            stage.push(system);
            proof {
                assert(stage@.drop_last() == base);
                assert(stage@.last() == system);
                assert(stage_leases(Seq::<System>::empty()) == Seq::<Lease>::empty());
            }
        }
        if stage.len() > 0 {
            stages.push(stage);
        }
        proof {
            assert(all.take(all.len() as int) == all);
            lemma_partition_concatenates(all);
            lemma_partition_is_coherent(all);
            assert(stages_of(stages@) == partition(all));
        }
        let dispatcher = Dispatcher { stages };
        assert(dispatcher@ == partition(all));
        assert(dispatcher@.flatten() == all);
        assert forall|s: int| 0 <= s < dispatcher@.len() implies (#[trigger] dispatcher@[s]).len()
            > 0 && coherent(stage_leases(dispatcher@[s])) by {
            assert(dispatcher@[s] == partition(all)[s]);
        }
        Ok(dispatcher)
    }
}

impl Default for DispatcherBuilder {
    fn default() -> (builder: DispatcherBuilder)
        ensures
            builder.systems@ == Seq::<System>::empty(),
    {
        DispatcherBuilder::new()
    }
}

/// Whether `results` can be what the systems of `stage` return when each of
/// them is run once on `world`: one result for each system, in the order of
/// the systems.
pub open spec fn stage_yields(stage: Seq<System>, world: &World, results: Seq<SystemResult>) -> bool {
    &&& results.len() == stage.len()
    &&& forall|i: int| 0 <= i < stage.len() ==> #[trigger] stage[i].yields(world, results[i])
}

/// Whether every system of `stage` can succeed on `world`.
pub open spec fn stage_succeeds(stage: Seq<System>, world: &World) -> bool {
    forall|i: int| 0 <= i < stage.len() ==> #[trigger] stage[i].yields(world, Ok(()))
}

/// `rayon`'s `par_iter_mut`, `map` and `collect` on the systems of one
/// stage: runs every system once, on the threads of rayon's pool, and waits
/// for all of them. The results are collected into a vector at the positions
/// of their systems, so there is one result for each system, in the order of
/// the systems, and each is what `System::run` returned for that system. The
/// systems are the same afterwards. On which threads and in which order the
/// systems ran is rayon's choice, and nothing is claimed of it. (rayon gives
/// up with a panic where its pool of threads cannot be built.)
#[verifier::external_body]
fn run_stage_in_parallel(stage: &mut Vec<System>, world: &World) -> (results: Vec<SystemResult>)
    ensures
        stage_yields(old(stage)@, world, results@),
        final(stage)@ == old(stage)@,
{
    stage.par_iter_mut().map(|system| system.run(world)).collect()
}

/// Runs the systems of one stage one after the other, in their order, and
/// gathers the result of each.
fn run_stage_in_order(stage: &mut Vec<System>, world: &World) -> (results: Vec<SystemResult>)
    ensures
        stage_yields(old(stage)@, world, results@),
        final(stage)@ == old(stage)@,
{
    let mut results: Vec<SystemResult> = Vec::new();
    let mut i: usize = 0;
    while i < stage.len()
        invariant
            i <= stage.len(),
            results@.len() == i,
            stage@ == old(stage)@,
            forall|j: int| 0 <= j < i ==> #[trigger] stage@[j].yields(world, results@[j]),
        decreases stage.len() - i,
    {
        let result = stage[i].run(world);
        results.push(result);
        i = i + 1;
    }
    results
}

/// Where none of the results of a stage is a failure, every system of the
/// stage has succeeded.
pub proof fn lemma_no_failure_is_success(stage: Seq<System>, world: &World, results: Seq<SystemResult>)
    requires
        stage_yields(stage, world, results),
        failures(results).len() == 0,
    ensures
        stage_succeeds(stage, world),
    decreases results.len(),
{
    if results.len() > 0 {
        let front = stage.drop_last();
        assert forall|i: int| 0 <= i < front.len() implies #[trigger] front[i].yields(
            world,
            results.drop_last()[i],
        ) by {
            assert(stage[i].yields(world, results[i]));
        }
        lemma_no_failure_is_success(front, world, results.drop_last());
        assert forall|i: int| 0 <= i < stage.len() implies #[trigger] stage[i].yields(
            world,
            Ok(()),
        ) by {
            if i < front.len() {
                assert(front[i].yields(world, Ok(())));
                assert(front[i] == stage[i]);
            } else {
                assert(stage[i].yields(world, results[i]));
                assert(results[i] == results.last());
                assert(results.last() is Ok);
                let unit = results.last()->Ok_0;
                assert(unit == ());
                assert(results.last() == Ok::<(), EcsError>(unit));
            }
        }
    }
}

impl Dispatcher {
    /// Whether `outcome` can be what running the stages on `world` yields.
    /// Success means that every system of every stage has succeeded.
    /// Otherwise the outcome is the aggregate of the failures of the first
    /// stage in which a system failed: every system of that stage was run,
    /// the failures are reported in the order of the systems, and every
    /// system of the stages before it has succeeded.
    pub open spec fn reports(&self, world: &World, outcome: SystemResult) -> bool {
        match outcome {
            Ok(_) => forall|s: int|
                0 <= s < self@.len() ==> stage_succeeds(#[trigger] self@[s], world),
            Err(EcsError::DispatcherExecutionFailed(errors)) => exists|
                s: int,
                results: Seq<SystemResult>,
            |
                {
                    &&& 0 <= s < self@.len()
                    &&& forall|t: int| 0 <= t < s ==> stage_succeeds(#[trigger] self@[t], world)
                    &&& #[trigger] stage_yields(self@[s], world, results)
                    &&& errors@ == failures(results)
                    &&& errors@.len() > 0
                },
            Err(_) => false,
        }
    }

    /// The number of stages.
    pub fn stage_count(&self) -> (n: usize)
        ensures
            n == self@.len(),
    {
        self.stages.len()
    }

    /// The number of systems in the stage `stage`.
    pub fn stage_len(&self, stage: usize) -> (n: usize)
        requires
            stage < self@.len(),
        ensures
            n == self@[stage as int].len(),
    {
        self.stages[stage].len()
    }

    /// Returns an iterator over the stages, in the order in which they run.
    pub fn iter_stages(&self) -> (stages: std::slice::Iter<'_, Vec<System>>)
        ensures
            stages_of(vstd::std_specs::slice::into_iter_elts(stages)) == self@,
    {
        self.stages.iter()
    }

    /// Runs the stages in order, and the systems of each stage in order or
    /// in parallel. A stage ends when all of its systems have returned;
    /// after a stage in which a system failed, no further stage is run.
    fn run_stages(&mut self, world: &World, in_parallel: bool) -> (outcome: SystemResult)
        ensures
            final(self)@ == old(self)@,
            old(self).reports(world, outcome),
    {
        let mut s: usize = 0;
        while s < self.stages.len()
            invariant
                s <= self.stages.len(),
                self@ == old(self)@,
                forall|t: int| 0 <= t < s ==> stage_succeeds(#[trigger] self@[t], world),
            decreases self.stages.len() - s,
        {
            let ghost before = self.stages@;
            let results = if in_parallel {
                run_stage_in_parallel(&mut self.stages[s], world)
            } else {
                run_stage_in_order(&mut self.stages[s], world)
            };
            let ghost returned = results@;
            proof {
                assert(stages_of(self.stages@) == stages_of(before));
                assert(stage_yields(self@[s as int], world, returned));
            }
            let errors = collect_failures(results);
            if errors.len() > 0 {
                return stage_outcome(errors);
            }
            proof {
                lemma_no_failure_is_success(self@[s as int], world, returned);
            }
            s = s + 1;
        }
        Ok(())
    }

    /// Runs the stages in order, and the systems of each stage one after the
    /// other. Every system of a stage is run, whether or not an earlier one
    /// failed; after a stage in which a system failed, no further stage is
    /// run, and the failures of that stage are reported together.
    pub fn run_seq(&mut self, world: &World) -> (outcome: SystemResult)
        ensures
            final(self)@ == old(self)@,
            old(self).reports(world, outcome),
    {
        self.run_stages(world, false)
    }

    /// Runs the stages in order, and the systems of each stage in parallel.
    /// A stage ends when all of its systems have returned; after a stage in
    /// which a system failed, no further stage is run, and the failures of
    /// that stage are reported together.
    pub fn run_par(&mut self, world: &World) -> (outcome: SystemResult)
        ensures
            final(self)@ == old(self)@,
            old(self).reports(world, outcome),
    {
        self.run_stages(world, true)
    }
}

} // verus!
