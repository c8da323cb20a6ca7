use world_dispatcher::EcsError;
use world_dispatcher::IntoSystem;
use world_dispatcher::SystemResult;
use world_dispatcher::UserError;
use world_dispatcher::World;

#[derive(Debug)]
struct CustomError;

impl std::fmt::Display for CustomError {
    fn fmt(&self, f: &mut std::fmt::Formatter) -> std::fmt::Result {
        f.write_str("Custom error crash")
    }
}

impl std::error::Error for CustomError {}

#[test]
fn system_return_custom_error() {
    fn sys() -> SystemResult {
        return Err(EcsError::SystemError(UserError::new(CustomError)));
    }
    let mut s = sys.system();
    let result = s.run(&World::default());
    match result {
        Err(EcsError::SystemError(err)) => assert_eq!(err.message(), "Custom error crash"),
        _ => unreachable!(),
    }
}
