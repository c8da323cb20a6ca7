use world_dispatcher::IntoSystem;
use world_dispatcher::SystemResult;
use world_dispatcher::World;

fn sys(_var1: &u32) -> SystemResult {
    Ok(())
}

fn generic<T>(_t: &T) -> SystemResult {
    Ok(())
}

fn send<T: Send>(_t: T) {}

#[test]
fn convert_system() {
    let _ = generic::<u32>.system();
    fn tmp(_var1: &u32, _var2: &u64, _var3: &mut i32, _var4: &mut i64) -> SystemResult {
        Ok(())
    }
    // Reusing one type in a signature is a defect that shows when a
    // dispatcher is built, not when the function is converted.
    fn tmp2(
        _var1: &u32,
        _var2: &u64,
        _var3: &mut i32,
        _var4: &mut i64,
        _var5: &mut i64,
        _var6: &mut i64,
        _var7: &mut i64,
        _var8: &mut i64,
        _var9: &mut i64,
        _var10: &mut i64,
        _var11: &mut i64,
        _var12: &mut i64,
    ) -> SystemResult {
        Ok(())
    }
    let _ = tmp.system();
    let _ = tmp2.system();
}

#[test]
fn system_is_send() {
    let x = 6;
    send(
        (move |_var1: &u32| {
            let _y = x;
            Ok(())
        })
        .system(),
    );
    send((|| Ok(())).system());
    send(sys.system());
}

#[test]
fn manual_system_run() {
    let mut world = World::default();
    world.initialize::<u32>();
    generic::<u32>.system().run(&world).unwrap();
}

#[test]
fn system_replace_resource() {
    #[derive(Default)]
    pub struct A;
    #[derive(Default)]
    pub struct B {
        x: u32,
    }
    let mut world = World::default();
    let mut my_system = (|_a: &A, b: &mut B| {
        let b2 = B { x: 45 };
        *b = b2;
        Ok(())
    })
    .system();
    my_system.initialize(&mut world);
    my_system.run(&world).unwrap();
    assert_eq!(world.get::<B>().unwrap().x, 45);
}
