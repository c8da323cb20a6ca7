use world_dispatcher::DispatcherBuilder;
use world_dispatcher::IntoSystem;
use world_dispatcher::SystemResult;
use world_dispatcher::World;

#[test]
fn simple_dispatcher() {
    #[derive(Default)]
    pub struct A;
    let mut world = World::default();
    let sys = (|_comps: &A| Ok(())).system();
    let mut dispatch = DispatcherBuilder::new()
        .add_system(sys)
        .build(&mut world)
        .unwrap();
    dispatch.run_seq(&world).unwrap();
    dispatch.run_seq(&world).unwrap();
    dispatch.run_seq(&world).unwrap();
}

#[test]
fn generic_simple_dispatcher() {
    #[derive(Default)]
    pub struct A;
    let mut world = World::default();
    fn sys<T>(_t: &T) -> SystemResult {
        Ok(())
    }
    let mut dispatch = DispatcherBuilder::new()
        .add(sys::<A>)
        .add_system(sys::<A>.system())
        .build(&mut world)
        .unwrap();
    dispatch.run_seq(&world).unwrap();
    dispatch.run_seq(&world).unwrap();
    dispatch.run_seq(&world).unwrap();
}

#[test]
fn par_distpach() {
    #[derive(Default)]
    pub struct A;
    let mut world = World::default();
    let sys = (|_comps: &A| Ok(())).system();
    let mut dispatch = DispatcherBuilder::new()
        .add_system(sys)
        .build(&mut world)
        .unwrap();
    dispatch.run_par(&world).unwrap();
    dispatch.run_par(&world).unwrap();
    dispatch.run_par(&world).unwrap();
}

#[test]
fn dispatch_par_stages() {
    #[derive(Default)]
    struct A;
    #[derive(Default)]
    struct B;
    let mut world = World::default();
    world.initialize::<A>();
    world.initialize::<B>();
    // Stage 1
    fn sys1(_a: &A, _b: &B) -> SystemResult {
        Ok(())
    }
    fn sys2(_a: &A, _b: &B) -> SystemResult {
        Ok(())
    }
    // Stage 2
    fn sys3(_a: &A, _b: &mut B) -> SystemResult {
        Ok(())
    }
    // Stage 3
    fn sys4(_a: &A, _b: &mut B) -> SystemResult {
        Ok(())
    }
    let mut dispatch = DispatcherBuilder::new()
        .add(sys1)
        .add(sys2)
        .add(sys3)
        .add(sys4)
        .build(&mut world)
        .unwrap();
    assert_eq!(dispatch.stage_count(), 3);
    assert_eq!(dispatch.stage_len(0), 2);
    assert_eq!(dispatch.stage_len(1), 1);
    assert_eq!(dispatch.stage_len(2), 1);
    dispatch.run_par(&world).unwrap();

    let mut dispatch = DispatcherBuilder::new()
        .add(sys1)
        .add(sys2)
        .build(&mut world)
        .unwrap();
    assert_eq!(dispatch.stage_count(), 1);
    assert_eq!(dispatch.stage_len(0), 2);
    dispatch.run_par(&world).unwrap();

    let mut dispatch = DispatcherBuilder::new().add(sys1).build(&mut world).unwrap();
    assert_eq!(dispatch.stage_count(), 1);
    assert_eq!(dispatch.stage_len(0), 1);
    dispatch.run_par(&world).unwrap();
}
