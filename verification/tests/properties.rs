use std::any::TypeId;
use std::sync::atomic::AtomicUsize;
use std::sync::atomic::Ordering;
use std::sync::Arc;
use world_dispatcher::collect_failures;
use world_dispatcher::stage_outcome;
use world_dispatcher::typed_mut;
use world_dispatcher::Access;
use world_dispatcher::BorrowLedger;
use world_dispatcher::Dispatcher;
use world_dispatcher::DispatcherBuilder;
use world_dispatcher::EcsError;
use world_dispatcher::IntoSystem;
use world_dispatcher::Requirement;
use world_dispatcher::System;
use world_dispatcher::SystemResult;
use world_dispatcher::UserError;
use world_dispatcher::World;

#[derive(Default)]
struct A(u32);
#[derive(Default)]
struct B(u32);
#[derive(Default)]
struct C(u32);

#[derive(Debug)]
struct Broken(u32);

impl std::fmt::Display for Broken {
    fn fmt(&self, f: &mut std::fmt::Formatter) -> std::fmt::Result {
        f.write_str("broken")
    }
}

impl std::error::Error for Broken {}

fn read_a(_a: &A) -> SystemResult {
    Ok(())
}

fn read_ab(_a: &A, _b: &B) -> SystemResult {
    Ok(())
}

fn write_b(_a: &A, b: &mut B) -> SystemResult {
    b.0 += 1;
    Ok(())
}

fn write_c(c: &mut C) -> SystemResult {
    c.0 += 10;
    Ok(())
}

fn write_a_twice(_x: &mut A, _y: &mut A) -> SystemResult {
    Ok(())
}

fn read_and_write_a(_x: &A, _y: &mut A) -> SystemResult {
    Ok(())
}

fn read_a_twice(_x: &A, _y: &A) -> SystemResult {
    Ok(())
}

fn fail() -> SystemResult {
    Err(EcsError::SystemError(UserError::new(Broken(7))))
}

fn sizes(dispatcher: &Dispatcher) -> Vec<usize> {
    dispatcher.iter_stages().map(|stage| stage.len()).collect()
}

/// Acquires the leases of every system of a stage together, on one ledger.
fn stage_is_free_of_conflicts(stage: &Vec<System>) -> bool {
    let mut ledger = BorrowLedger::new();
    for system in stage.iter() {
        for lease in system.leases() {
            if ledger.acquire(lease.key, lease.access).is_err() {
                return false;
            }
        }
    }
    true
}

#[test]
fn stages_concatenate_to_the_systems_added() {
    let mut world = World::default();
    let dispatcher = DispatcherBuilder::new()
        .add(read_a)
        .add(read_ab)
        .add(write_b)
        .add(write_c)
        .add(read_ab)
        .add(write_b)
        .build(&mut world)
        .unwrap();
    // read_a, read_ab | write_b, write_c | read_ab | write_b
    assert_eq!(sizes(&dispatcher), vec![2, 2, 1, 1]);
    let expected: Vec<Vec<(TypeId, Access)>> = vec![
        vec![(TypeId::of::<A>(), Access::Read)],
        vec![
            (TypeId::of::<A>(), Access::Read),
            (TypeId::of::<B>(), Access::Read),
        ],
        vec![
            (TypeId::of::<A>(), Access::Read),
            (TypeId::of::<B>(), Access::Write),
        ],
        vec![(TypeId::of::<C>(), Access::Write)],
        vec![
            (TypeId::of::<A>(), Access::Read),
            (TypeId::of::<B>(), Access::Read),
        ],
        vec![
            (TypeId::of::<A>(), Access::Read),
            (TypeId::of::<B>(), Access::Write),
        ],
    ];
    let found: Vec<Vec<(TypeId, Access)>> = dispatcher
        .iter_stages()
        .flat_map(|stage| stage.iter())
        .map(|system| {
            system
                .leases()
                .iter()
                .map(|lease| (lease.key, lease.access))
                .collect()
        })
        .collect();
    assert_eq!(found, expected);
}

#[test]
fn stages_hold_no_conflict() {
    let mut world = World::default();
    let mut dispatcher = DispatcherBuilder::new()
        .add(read_a)
        .add(write_b)
        .add(write_c)
        .add(read_ab)
        .add(read_a)
        .add(write_b)
        .add(write_b)
        .build(&mut world)
        .unwrap();
    assert_eq!(sizes(&dispatcher), vec![3, 2, 1, 1]);
    for stage in dispatcher.iter_stages() {
        assert!(!stage.is_empty());
        assert!(stage_is_free_of_conflicts(stage));
    }
    dispatcher.run_par(&world).unwrap();
    assert_eq!(world.get::<B>().unwrap().0, 3);
    assert_eq!(world.get::<C>().unwrap().0, 10);
}

#[test]
fn no_systems_no_stages() {
    let mut world = World::default();
    let mut dispatcher = DispatcherBuilder::new().build(&mut world).unwrap();
    assert_eq!(dispatcher.stage_count(), 0);
    assert_eq!(world.len(), 0);
    dispatcher.run_seq(&world).unwrap();
    dispatcher.run_par(&world).unwrap();
}

#[test]
fn self_conflict_fails_the_build() {
    let mut world = World::default();
    let built = DispatcherBuilder::new()
        .add(write_a_twice)
        .build(&mut world);
    assert!(matches!(built, Err(EcsError::SelfConflict)));

    let built = DispatcherBuilder::new()
        .add(read_a)
        .add(write_b)
        .add(read_and_write_a)
        .add(write_c)
        .build(&mut world);
    assert!(matches!(built, Err(EcsError::SelfConflict)));

    let built = DispatcherBuilder::new()
        .add(read_and_write_a)
        .add(read_a)
        .build(&mut world);
    assert!(matches!(built, Err(EcsError::SelfConflict)));
}

#[test]
fn reading_one_resource_twice_is_no_conflict() {
    let mut world = World::default();
    let mut dispatcher = DispatcherBuilder::new()
        .add(read_a)
        .add(read_a_twice)
        .build(&mut world)
        .unwrap();
    assert_eq!(sizes(&dispatcher), vec![2]);
    dispatcher.run_seq(&world).unwrap();
}

#[test]
fn initialize_is_idempotent() {
    let mut world = World::default();
    world.initialize::<u32>();
    assert_eq!(world.len(), 1);
    assert_eq!(*world.get::<u32>().unwrap(), 0);
    *world.get_mut::<u32>().unwrap() = 17;
    world.initialize::<u32>();
    assert_eq!(world.len(), 1);
    assert_eq!(*world.get::<u32>().unwrap(), 17);
    world.initialize::<u64>();
    assert_eq!(world.len(), 2);
    assert_eq!(*world.get::<u32>().unwrap(), 17);
    assert_eq!(*world.get::<u64>().unwrap(), 0);
}

#[test]
fn borrow_discipline_of_the_world() {
    let mut world = World::default();
    world.initialize::<u32>();
    world.initialize::<u64>();
    {
        let readers: Vec<_> = (0..8).map(|_| world.get::<u32>().unwrap()).collect();
        assert_eq!(readers.len(), 8);
        assert!(matches!(
            world.get_mut::<u32>(),
            Err(EcsError::AlreadyBorrowed)
        ));
        // Another resource is not affected.
        assert!(world.get_mut::<u64>().is_ok());
    }
    {
        let _writer = world.get_mut::<u32>().unwrap();
        assert!(matches!(world.get::<u32>(), Err(EcsError::AlreadyBorrowed)));
        assert!(matches!(
            world.get_mut::<u32>(),
            Err(EcsError::AlreadyBorrowed)
        ));
        assert!(matches!(
            world.get_by_typeid(&TypeId::of::<u32>()),
            Err(EcsError::AlreadyBorrowed)
        ));
    }
    assert!(world.get_mut::<u32>().is_ok());
    assert!(world.get::<u32>().is_ok());
}

#[test]
fn missing_resource_is_not_initialized() {
    let world = World::default();
    assert!(matches!(world.get::<u32>(), Err(EcsError::NotInitialized)));
    assert!(matches!(
        world.get_mut::<u32>(),
        Err(EcsError::NotInitialized)
    ));
    assert!(world.try_get::<u32>().is_err());
    assert!(world.try_get_mut::<u32>().is_err());
    assert!(matches!(
        world.get_by_typeid(&TypeId::of::<u32>()),
        Err(EcsError::NotInitialized)
    ));
    assert!(!world.has(&TypeId::of::<u32>()));
}

#[test]
fn resources_are_told_apart_by_type() {
    let mut world = World::default();
    world.initialize::<u32>();
    world.initialize::<u64>();
    *world.get_mut::<u64>().unwrap() = 9;
    assert_eq!(*world.get::<u32>().unwrap(), 0);
    assert_eq!(*world.get::<u64>().unwrap(), 9);
    assert!(world.has(&TypeId::of::<u64>()));
    assert!(!world.has(&TypeId::of::<i64>()));
    assert!(matches!(world.get::<i64>(), Err(EcsError::NotInitialized)));
}

#[test]
fn access_by_type_key() {
    let mut world = World::default();
    world.initialize::<u32>();
    {
        let guard = world.get_by_typeid(&TypeId::of::<u32>()).unwrap();
        let mut typed = typed_mut::<u32>(guard).unwrap();
        *typed = 21;
    }
    assert_eq!(*world.get::<u32>().unwrap(), 21);
    {
        let guard = world.get_by_typeid(&TypeId::of::<u32>()).unwrap();
        assert!(matches!(
            typed_mut::<u64>(guard),
            Err(EcsError::NotInitialized)
        ));
    }
    // The refused cast has ended the borrow.
    assert!(world.get_mut::<u32>().is_ok());
}

#[test]
fn build_initializes_missing_resources() {
    #[derive(Default)]
    struct Counter {
        value: u32,
    }
    fn bump(counter: &mut Counter, _d: &mut Option<u8>) -> SystemResult {
        counter.value += 1;
        Ok(())
    }
    let mut world = World::default();
    let mut dispatcher = DispatcherBuilder::new()
        .add(bump)
        .build(&mut world)
        .unwrap();
    assert_eq!(world.len(), 2);
    assert_eq!(world.get::<Counter>().unwrap().value, 0);
    assert!(world.get::<Option<u8>>().unwrap().is_none());
    dispatcher.run_seq(&world).unwrap();
    assert_eq!(world.get::<Counter>().unwrap().value, 1);
}

#[test]
fn user_error_is_reported_each_run() {
    let mut world = World::default();
    world.initialize::<A>();
    let mut dispatcher = DispatcherBuilder::new()
        .add(|_a: &mut A| -> SystemResult {
            Err(EcsError::SystemError(UserError::new(Broken(3))))
        })
        .build(&mut world)
        .unwrap();
    for _ in 0..3 {
        match dispatcher.run_seq(&world) {
            Err(EcsError::DispatcherExecutionFailed(errors)) => {
                assert_eq!(errors.len(), 1);
                match &errors[0] {
                    EcsError::SystemError(error) => assert_eq!(error.message(), "broken"),
                    _ => unreachable!(),
                }
            }
            _ => unreachable!(),
        }
        // Nothing is left borrowed between the runs.
        assert!(world.get_mut::<A>().is_ok());
    }
}

#[test]
fn failed_stage_stops_the_dispatch() {
    let runs = Arc::new(AtomicUsize::new(0));
    let first = runs.clone();
    let second = runs.clone();
    let third = runs.clone();
    let mut world = World::default();
    let mut dispatcher = DispatcherBuilder::new()
        .add(move |_b: &mut B| -> SystemResult {
            first.fetch_add(1, Ordering::SeqCst);
            Ok(())
        })
        .add(fail)
        .add(move |_a: &A| -> SystemResult {
            second.fetch_add(1, Ordering::SeqCst);
            Ok(())
        })
        .add(fail)
        .add(move |_b: &mut B| -> SystemResult {
            third.fetch_add(100, Ordering::SeqCst);
            Ok(())
        })
        .build(&mut world)
        .unwrap();
    assert_eq!(sizes(&dispatcher), vec![4, 1]);
    match dispatcher.run_seq(&world) {
        Err(EcsError::DispatcherExecutionFailed(errors)) => assert_eq!(errors.len(), 2),
        _ => unreachable!(),
    }
    // Every system of the failed stage ran, and the second stage did not.
    assert_eq!(runs.load(Ordering::SeqCst), 2);
    match dispatcher.run_par(&world) {
        Err(EcsError::DispatcherExecutionFailed(errors)) => assert_eq!(errors.len(), 2),
        _ => unreachable!(),
    }
    assert_eq!(runs.load(Ordering::SeqCst), 4);
}

#[test]
fn run_outside_a_dispatcher_needs_initialized_resources() {
    let world = World::default();
    let mut system = write_b.system();
    assert!(matches!(
        system.run(&world),
        Err(EcsError::NotInitialized)
    ));
    let mut world = World::default();
    system.initialize(&mut world);
    assert_eq!(world.len(), 2);
    let _reader = world.get::<B>().unwrap();
    assert!(matches!(
        system.run(&world),
        Err(EcsError::AlreadyBorrowed)
    ));
}

#[test]
fn try_acquire_keeps_what_it_was_granted() {
    let mut world = World::default();
    let system = write_b.system();
    let mut ledger = BorrowLedger::new();
    assert!(matches!(
        system.try_acquire(&world, &mut ledger),
        Err(EcsError::NotInitialized)
    ));
    assert_eq!(ledger.len(), 0);
    system.initialize(&mut world);
    assert!(ledger.acquire(TypeId::of::<B>(), Access::Read).is_ok());
    assert!(matches!(
        system.try_acquire(&world, &mut ledger),
        Err(EcsError::AlreadyBorrowed)
    ));
    // The lease on `A` was granted before the one on `B` was refused.
    assert_eq!(ledger.len(), 2);
    ledger.clear();
    assert!(system.try_acquire(&world, &mut ledger).is_ok());
    assert_eq!(ledger.len(), 2);
}

#[test]
fn system_from_requirements() {
    let needs = vec![Requirement::read::<A>(), Requirement::write::<C>()];
    let mut system = System::new(needs, |world: &World| -> SystemResult {
        let a = world.get::<A>()?;
        let mut c = world.get_mut::<C>()?;
        c.0 = a.0 + 5;
        Ok(())
    });
    let leases: Vec<(TypeId, Access)> = system
        .leases()
        .iter()
        .map(|lease| (lease.key, lease.access))
        .collect();
    assert_eq!(
        leases,
        vec![
            (TypeId::of::<A>(), Access::Read),
            (TypeId::of::<C>(), Access::Write)
        ]
    );
    let mut world = World::default();
    system.initialize(&mut world);
    system.run(&world).unwrap();
    assert_eq!(world.get::<C>().unwrap().0, 5);
}

#[test]
fn failures_keep_their_order() {
    let results: Vec<SystemResult> = vec![
        Ok(()),
        Err(EcsError::AlreadyBorrowed),
        Ok(()),
        Err(EcsError::NotInitialized),
    ];
    let errors = collect_failures(results);
    assert_eq!(errors.len(), 2);
    assert!(matches!(errors[0], EcsError::AlreadyBorrowed));
    assert!(matches!(errors[1], EcsError::NotInitialized));
    match stage_outcome(errors) {
        Err(EcsError::DispatcherExecutionFailed(errors)) => {
            assert!(matches!(errors[0], EcsError::AlreadyBorrowed));
            assert!(matches!(errors[1], EcsError::NotInitialized));
        }
        _ => unreachable!(),
    }
    assert!(stage_outcome(collect_failures(vec![Ok(()), Ok(())])).is_ok());
    assert!(stage_outcome(Vec::new()).is_ok());
}

#[derive(Debug)]
struct Numbered(u32);

impl std::fmt::Display for Numbered {
    fn fmt(&self, f: &mut std::fmt::Formatter) -> std::fmt::Result {
        f.write_str(&format!("failure {}", self.0))
    }
}

impl std::error::Error for Numbered {}

fn messages(outcome: SystemResult) -> Vec<String> {
    match outcome {
        Err(EcsError::DispatcherExecutionFailed(errors)) => errors
            .iter()
            .map(|error| match error {
                EcsError::SystemError(error) => error.message(),
                _ => unreachable!(),
            })
            .collect(),
        _ => unreachable!(),
    }
}

#[test]
fn failures_are_reported_in_the_order_of_the_systems() {
    let mut world = World::default();
    let mut dispatcher = DispatcherBuilder::new()
        .add(|_a: &A| -> SystemResult { Err(EcsError::SystemError(UserError::new(Numbered(1)))) })
        .add(read_ab)
        .add(|_b: &B| -> SystemResult { Err(EcsError::SystemError(UserError::new(Numbered(2)))) })
        .add(|| -> SystemResult { Err(EcsError::SystemError(UserError::new(Numbered(3)))) })
        .add(|_c: &mut C| -> SystemResult { Err(EcsError::SystemError(UserError::new(Numbered(4)))) })
        .build(&mut world)
        .unwrap();
    assert_eq!(sizes(&dispatcher), vec![5]);
    let expected = vec!["failure 1", "failure 2", "failure 3", "failure 4"];
    for _ in 0..20 {
        assert_eq!(messages(dispatcher.run_par(&world)), expected);
    }
    assert_eq!(messages(dispatcher.run_seq(&world)), expected);
}

#[test]
fn run_returns_what_the_function_returned() {
    let mut world = World::default();
    let mut failing = (|_a: &A| -> SystemResult {
        Err(EcsError::SystemError(UserError::new(Numbered(9))))
    })
    .system();
    failing.initialize(&mut world);
    match failing.run(&world) {
        Err(EcsError::SystemError(error)) => assert_eq!(error.message(), "failure 9"),
        _ => unreachable!(),
    }
    let mut passing = read_a.system();
    assert!(passing.run(&world).is_ok());
}
