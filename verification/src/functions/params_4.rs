//! Systems from functions of four parameters, for each number of shared
//! references that can come first.

use crate::error::SystemResult;
use crate::ledger::Lease;
use crate::resource::Resource;
use crate::system::IntoSystem;
use crate::system::Requirement;
use crate::system::System;
use crate::system::holds_all;
use crate::system::reading;
use crate::system::stops_at;
use crate::system::stops_early;
use crate::system::writing;
use crate::world::World;
use std::ops::Deref;
use std::ops::DerefMut;
use vstd::prelude::*;

verus! {

/// The borrows that four shared references stand for.
pub open spec fn needs_r4_w0<A: 'static, B: 'static, C: 'static, D: 'static>() -> Seq<Lease> {
    seq![reading::<A>(), reading::<B>(), reading::<C>(), reading::<D>()]
}

/// Whether running `function` on the resources of `world` can end with
/// `result`: before the call, at the first resource that is missing or
/// refuses the borrow, or with the result of the call.
pub open spec fn runs_r4_w0<A: 'static, B: 'static, C: 'static, D: 'static, F>(
    function: &F,
    world: &World,
    result: SystemResult,
) -> bool where F: Fn(&A, &B, &C, &D) -> SystemResult {
    ||| stops_early(needs_r4_w0::<A, B, C, D>(), world, result)
    ||| holds_all(needs_r4_w0::<A, B, C, D>(), world) && exists|a: &A, b: &B, c: &C, d: &D|
        call_ensures(*function, (a, b, c, d), result)
}

impl<A, B, C, D, F> IntoSystem<(&A, &B, &C, &D)> for F where
    A: Default + Resource,
    B: Default + Resource,
    C: Default + Resource,
    D: Default + Resource,
    F: Fn(&A, &B, &C, &D) -> SystemResult + Send + 'static,
 {
    open spec fn accepts_all(&self) -> bool {
        forall|a: &A, b: &B, c: &C, d: &D| call_requires(*self, (a, b, c, d))
    }

    open spec fn needs() -> Seq<Lease> {
        needs_r4_w0::<A, B, C, D>()
    }

    open spec fn runs(&self, world: &World, result: SystemResult) -> bool {
        runs_r4_w0::<A, B, C, D, F>(self, world, result)
    }

    fn system(self) -> (system: System) {
        let mut needs: Vec<Requirement> = Vec::new();
        needs.push(Requirement::read::<A>());
        needs.push(Requirement::read::<B>());
        needs.push(Requirement::read::<C>());
        needs.push(Requirement::read::<D>());
        let run = move |world: &World| -> (result: SystemResult)
            ensures
                runs_r4_w0::<A, B, C, D, F>(&self, world, result),
            {
                let a = match world.get::<A>() {
                    Ok(guard) => guard,
                    Err(error) => {
                        let result = Err(error);
                        assert(stops_at(needs_r4_w0::<A, B, C, D>(), world, result, 0));
                        return result;
                    },
                };
                let b = match world.get::<B>() {
                    Ok(guard) => guard,
                    Err(error) => {
                        let result = Err(error);
                        assert(stops_at(needs_r4_w0::<A, B, C, D>(), world, result, 1));
                        return result;
                    },
                };
                let c = match world.get::<C>() {
                    Ok(guard) => guard,
                    Err(error) => {
                        let result = Err(error);
                        assert(stops_at(needs_r4_w0::<A, B, C, D>(), world, result, 2));
                        return result;
                    },
                };
                let d = match world.get::<D>() {
                    Ok(guard) => guard,
                    Err(error) => {
                        let result = Err(error);
                        assert(stops_at(needs_r4_w0::<A, B, C, D>(), world, result, 3));
                        return result;
                    },
                };
                self(a.deref(), b.deref(), c.deref(), d.deref())
            };
        System::new(needs, run)
    }
}

/// The borrows that three shared references and then one mutable reference stand for.
pub open spec fn needs_r3_w1<A: 'static, B: 'static, C: 'static, D: 'static>() -> Seq<Lease> {
    seq![reading::<A>(), reading::<B>(), reading::<C>(), writing::<D>()]
}

/// Whether running `function` on the resources of `world` can end with
/// `result`: before the call, at the first resource that is missing or
/// refuses the borrow, or with the result of the call.
pub open spec fn runs_r3_w1<A: 'static, B: 'static, C: 'static, D: 'static, F>(
    function: &F,
    world: &World,
    result: SystemResult,
) -> bool where F: Fn(&A, &B, &C, &mut D) -> SystemResult {
    ||| stops_early(needs_r3_w1::<A, B, C, D>(), world, result)
    ||| holds_all(needs_r3_w1::<A, B, C, D>(), world) && exists|a: &A, b: &B, c: &C, d: &mut D|
        call_ensures(*function, (a, b, c, d), result)
}

impl<A, B, C, D, F> IntoSystem<(&A, &B, &C, &mut D)> for F where
    A: Default + Resource,
    B: Default + Resource,
    C: Default + Resource,
    D: Default + Resource,
    F: Fn(&A, &B, &C, &mut D) -> SystemResult + Send + 'static,
 {
    open spec fn accepts_all(&self) -> bool {
        forall|a: &A, b: &B, c: &C, d: &mut D| call_requires(*self, (a, b, c, d))
    }

    open spec fn needs() -> Seq<Lease> {
        needs_r3_w1::<A, B, C, D>()
    }

    open spec fn runs(&self, world: &World, result: SystemResult) -> bool {
        runs_r3_w1::<A, B, C, D, F>(self, world, result)
    }

    fn system(self) -> (system: System) {
        let mut needs: Vec<Requirement> = Vec::new();
        needs.push(Requirement::read::<A>());
        needs.push(Requirement::read::<B>());
        needs.push(Requirement::read::<C>());
        needs.push(Requirement::write::<D>());
        let run = move |world: &World| -> (result: SystemResult)
            ensures
                runs_r3_w1::<A, B, C, D, F>(&self, world, result),
            {
                let a = match world.get::<A>() {
                    Ok(guard) => guard,
                    Err(error) => {
                        let result = Err(error);
                        assert(stops_at(needs_r3_w1::<A, B, C, D>(), world, result, 0));
                        return result;
                    },
                };
                let b = match world.get::<B>() {
                    Ok(guard) => guard,
                    Err(error) => {
                        let result = Err(error);
                        assert(stops_at(needs_r3_w1::<A, B, C, D>(), world, result, 1));
                        return result;
                    },
                };
                let c = match world.get::<C>() {
                    Ok(guard) => guard,
                    Err(error) => {
                        let result = Err(error);
                        assert(stops_at(needs_r3_w1::<A, B, C, D>(), world, result, 2));
                        return result;
                    },
                };
                let mut d = match world.get_mut::<D>() {
                    Ok(guard) => guard,
                    Err(error) => {
                        let result = Err(error);
                        assert(stops_at(needs_r3_w1::<A, B, C, D>(), world, result, 3));
                        return result;
                    },
                };
                self(a.deref(), b.deref(), c.deref(), d.deref_mut())
            };
        System::new(needs, run)
    }
}

/// The borrows that two shared references and then two mutable references stand for.
pub open spec fn needs_r2_w2<A: 'static, B: 'static, C: 'static, D: 'static>() -> Seq<Lease> {
    seq![reading::<A>(), reading::<B>(), writing::<C>(), writing::<D>()]
}

/// Whether running `function` on the resources of `world` can end with
/// `result`: before the call, at the first resource that is missing or
/// refuses the borrow, or with the result of the call.
pub open spec fn runs_r2_w2<A: 'static, B: 'static, C: 'static, D: 'static, F>(
    function: &F,
    world: &World,
    result: SystemResult,
) -> bool where F: Fn(&A, &B, &mut C, &mut D) -> SystemResult {
    ||| stops_early(needs_r2_w2::<A, B, C, D>(), world, result)
    ||| holds_all(needs_r2_w2::<A, B, C, D>(), world) && exists|a: &A, b: &B, c: &mut C, d: &mut D|
        call_ensures(*function, (a, b, c, d), result)
}

impl<A, B, C, D, F> IntoSystem<(&A, &B, &mut C, &mut D)> for F where
    A: Default + Resource,
    B: Default + Resource,
    C: Default + Resource,
    D: Default + Resource,
    F: Fn(&A, &B, &mut C, &mut D) -> SystemResult + Send + 'static,
 {
    open spec fn accepts_all(&self) -> bool {
        forall|a: &A, b: &B, c: &mut C, d: &mut D| call_requires(*self, (a, b, c, d))
    }

    open spec fn needs() -> Seq<Lease> {
        needs_r2_w2::<A, B, C, D>()
    }

    open spec fn runs(&self, world: &World, result: SystemResult) -> bool {
        runs_r2_w2::<A, B, C, D, F>(self, world, result)
    }

    fn system(self) -> (system: System) {
        let mut needs: Vec<Requirement> = Vec::new();
        needs.push(Requirement::read::<A>());
        needs.push(Requirement::read::<B>());
        needs.push(Requirement::write::<C>());
        needs.push(Requirement::write::<D>());
        let run = move |world: &World| -> (result: SystemResult)
            ensures
                runs_r2_w2::<A, B, C, D, F>(&self, world, result),
            {
                let a = match world.get::<A>() {
                    Ok(guard) => guard,
                    Err(error) => {
                        let result = Err(error);
                        assert(stops_at(needs_r2_w2::<A, B, C, D>(), world, result, 0));
                        return result;
                    },
                };
                let b = match world.get::<B>() {
                    Ok(guard) => guard,
                    Err(error) => {
                        let result = Err(error);
                        assert(stops_at(needs_r2_w2::<A, B, C, D>(), world, result, 1));
                        return result;
                    },
                };
                let mut c = match world.get_mut::<C>() {
                    Ok(guard) => guard,
                    Err(error) => {
                        let result = Err(error);
                        assert(stops_at(needs_r2_w2::<A, B, C, D>(), world, result, 2));
                        return result;
                    },
                };
                let mut d = match world.get_mut::<D>() {
                    Ok(guard) => guard,
                    Err(error) => {
                        let result = Err(error);
                        assert(stops_at(needs_r2_w2::<A, B, C, D>(), world, result, 3));
                        return result;
                    },
                };
                self(a.deref(), b.deref(), c.deref_mut(), d.deref_mut())
            };
        System::new(needs, run)
    }
}

/// The borrows that one shared reference and then three mutable references stand for.
pub open spec fn needs_r1_w3<A: 'static, B: 'static, C: 'static, D: 'static>() -> Seq<Lease> {
    seq![reading::<A>(), writing::<B>(), writing::<C>(), writing::<D>()]
}

/// Whether running `function` on the resources of `world` can end with
/// `result`: before the call, at the first resource that is missing or
/// refuses the borrow, or with the result of the call.
pub open spec fn runs_r1_w3<A: 'static, B: 'static, C: 'static, D: 'static, F>(
    function: &F,
    world: &World,
    result: SystemResult,
) -> bool where F: Fn(&A, &mut B, &mut C, &mut D) -> SystemResult {
    ||| stops_early(needs_r1_w3::<A, B, C, D>(), world, result)
    ||| holds_all(needs_r1_w3::<A, B, C, D>(), world) && exists|a: &A, b: &mut B, c: &mut C, d: &mut D|
        call_ensures(*function, (a, b, c, d), result)
}

impl<A, B, C, D, F> IntoSystem<(&A, &mut B, &mut C, &mut D)> for F where
    A: Default + Resource,
    B: Default + Resource,
    C: Default + Resource,
    D: Default + Resource,
    F: Fn(&A, &mut B, &mut C, &mut D) -> SystemResult + Send + 'static,
 {
    open spec fn accepts_all(&self) -> bool {
        forall|a: &A, b: &mut B, c: &mut C, d: &mut D| call_requires(*self, (a, b, c, d))
    }

    open spec fn needs() -> Seq<Lease> {
        needs_r1_w3::<A, B, C, D>()
    }

    open spec fn runs(&self, world: &World, result: SystemResult) -> bool {
        runs_r1_w3::<A, B, C, D, F>(self, world, result)
    }

    fn system(self) -> (system: System) {
        let mut needs: Vec<Requirement> = Vec::new();
        needs.push(Requirement::read::<A>());
        needs.push(Requirement::write::<B>());
        needs.push(Requirement::write::<C>());
        needs.push(Requirement::write::<D>());
        let run = move |world: &World| -> (result: SystemResult)
            ensures
                runs_r1_w3::<A, B, C, D, F>(&self, world, result),
            {
                let a = match world.get::<A>() {
                    Ok(guard) => guard,
                    Err(error) => {
                        let result = Err(error);
                        assert(stops_at(needs_r1_w3::<A, B, C, D>(), world, result, 0));
                        return result;
                    },
                };
                let mut b = match world.get_mut::<B>() {
                    Ok(guard) => guard,
                    Err(error) => {
                        let result = Err(error);
                        assert(stops_at(needs_r1_w3::<A, B, C, D>(), world, result, 1));
                        return result;
                    },
                };
                let mut c = match world.get_mut::<C>() {
                    Ok(guard) => guard,
                    Err(error) => {
                        let result = Err(error);
                        assert(stops_at(needs_r1_w3::<A, B, C, D>(), world, result, 2));
                        return result;
                    },
                };
                let mut d = match world.get_mut::<D>() {
                    Ok(guard) => guard,
                    Err(error) => {
                        let result = Err(error);
                        assert(stops_at(needs_r1_w3::<A, B, C, D>(), world, result, 3));
                        return result;
                    },
                };
                self(a.deref(), b.deref_mut(), c.deref_mut(), d.deref_mut())
            };
        System::new(needs, run)
    }
}

/// The borrows that four mutable references stand for.
pub open spec fn needs_r0_w4<A: 'static, B: 'static, C: 'static, D: 'static>() -> Seq<Lease> {
    seq![writing::<A>(), writing::<B>(), writing::<C>(), writing::<D>()]
}

/// Whether running `function` on the resources of `world` can end with
/// `result`: before the call, at the first resource that is missing or
/// refuses the borrow, or with the result of the call.
pub open spec fn runs_r0_w4<A: 'static, B: 'static, C: 'static, D: 'static, F>(
    function: &F,
    world: &World,
    result: SystemResult,
) -> bool where F: Fn(&mut A, &mut B, &mut C, &mut D) -> SystemResult {
    ||| stops_early(needs_r0_w4::<A, B, C, D>(), world, result)
    ||| holds_all(needs_r0_w4::<A, B, C, D>(), world) && exists|a: &mut A, b: &mut B, c: &mut C, d: &mut D|
        call_ensures(*function, (a, b, c, d), result)
}

impl<A, B, C, D, F> IntoSystem<(&mut A, &mut B, &mut C, &mut D)> for F where
    A: Default + Resource,
    B: Default + Resource,
    C: Default + Resource,
    D: Default + Resource,
    F: Fn(&mut A, &mut B, &mut C, &mut D) -> SystemResult + Send + 'static,
 {
    open spec fn accepts_all(&self) -> bool {
        forall|a: &mut A, b: &mut B, c: &mut C, d: &mut D| call_requires(*self, (a, b, c, d))
    }

    open spec fn needs() -> Seq<Lease> {
        needs_r0_w4::<A, B, C, D>()
    }

    open spec fn runs(&self, world: &World, result: SystemResult) -> bool {
        runs_r0_w4::<A, B, C, D, F>(self, world, result)
    }

    fn system(self) -> (system: System) {
        let mut needs: Vec<Requirement> = Vec::new();
        needs.push(Requirement::write::<A>());
        needs.push(Requirement::write::<B>());
        needs.push(Requirement::write::<C>());
        needs.push(Requirement::write::<D>());
        let run = move |world: &World| -> (result: SystemResult)
            ensures
                runs_r0_w4::<A, B, C, D, F>(&self, world, result),
            {
                let mut a = match world.get_mut::<A>() {
                    Ok(guard) => guard,
                    Err(error) => {
                        let result = Err(error);
                        assert(stops_at(needs_r0_w4::<A, B, C, D>(), world, result, 0));
                        return result;
                    },
                };
                let mut b = match world.get_mut::<B>() {
                    Ok(guard) => guard,
                    Err(error) => {
                        let result = Err(error);
                        assert(stops_at(needs_r0_w4::<A, B, C, D>(), world, result, 1));
                        return result;
                    },
                };
                let mut c = match world.get_mut::<C>() {
                    Ok(guard) => guard,
                    Err(error) => {
                        let result = Err(error);
                        assert(stops_at(needs_r0_w4::<A, B, C, D>(), world, result, 2));
                        return result;
                    },
                };
                let mut d = match world.get_mut::<D>() {
                    Ok(guard) => guard,
                    Err(error) => {
                        let result = Err(error);
                        assert(stops_at(needs_r0_w4::<A, B, C, D>(), world, result, 3));
                        return result;
                    },
                };
                self(a.deref_mut(), b.deref_mut(), c.deref_mut(), d.deref_mut())
            };
        System::new(needs, run)
    }
}

} // verus!
