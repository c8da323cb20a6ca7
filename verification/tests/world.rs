use world_dispatcher::World;

#[test]
fn init_borrow() {
    let mut world = World::default();
    world.initialize::<u32>();
    *world.get_mut::<u32>().unwrap() = 5;
    *world.get_mut::<u32>().unwrap() = 6;
    {
        let _long_borrow = world.get::<u32>().unwrap();
        let _long_borrow2 = world.get::<u32>().unwrap();
        let failing_borrow = world.try_get_mut::<u32>();
        if !failing_borrow.is_err() {
            panic!();
        }
    }
    {
        let _long_borrow = world.get_mut::<u32>().unwrap();
        let failing_borrow = world.try_get::<u32>();
        if !failing_borrow.is_err() {
            panic!();
        }
    }
    assert_eq!(*world.get_mut::<u32>().unwrap(), 6);
}

#[test]
fn init_or_default() {
    let mut world = World::default();

    let mut data = world.get_mut_or_default::<u32>().unwrap();
    *data += 1;
}
