//! Systems from functions of three parameters, for each number of shared
//! references that can come first.

use crate::error::SystemResult;
use crate::ledger::Lease;
use crate::resource::Resource;
use crate::system::IntoSystem;
use crate::system::Requirement;
use crate::system::System;
use crate::system::holds_all;
use crate::system::reading;
use crate::system::stops_at;
use crate::system::stops_early;
use crate::system::writing;
use crate::world::World;
use std::ops::Deref;
use std::ops::DerefMut;
use vstd::prelude::*;

verus! {

/// The borrows that three shared references stand for.
pub open spec fn needs_r3_w0<A: 'static, B: 'static, C: 'static>() -> Seq<Lease> {
    seq![reading::<A>(), reading::<B>(), reading::<C>()]
}

/// Whether running `function` on the resources of `world` can end with
/// `result`: before the call, at the first resource that is missing or
/// refuses the borrow, or with the result of the call.
pub open spec fn runs_r3_w0<A: 'static, B: 'static, C: 'static, F>(
    function: &F,
    world: &World,
    result: SystemResult,
) -> bool where F: Fn(&A, &B, &C) -> SystemResult {
    ||| stops_early(needs_r3_w0::<A, B, C>(), world, result)
    ||| holds_all(needs_r3_w0::<A, B, C>(), world) && exists|a: &A, b: &B, c: &C|
        call_ensures(*function, (a, b, c), result)
}

impl<A, B, C, F> IntoSystem<(&A, &B, &C)> for F where
    A: Default + Resource,
    B: Default + Resource,
    C: Default + Resource,
    F: Fn(&A, &B, &C) -> SystemResult + Send + 'static,
 {
    open spec fn accepts_all(&self) -> bool {
        forall|a: &A, b: &B, c: &C| call_requires(*self, (a, b, c))
    }

    open spec fn needs() -> Seq<Lease> {
        needs_r3_w0::<A, B, C>()
    }

    open spec fn runs(&self, world: &World, result: SystemResult) -> bool {
        runs_r3_w0::<A, B, C, F>(self, world, result)
    }

    fn system(self) -> (system: System) {
        let mut needs: Vec<Requirement> = Vec::new();
        needs.push(Requirement::read::<A>());
        needs.push(Requirement::read::<B>());
        needs.push(Requirement::read::<C>());
        let run = move |world: &World| -> (result: SystemResult)
            ensures
                runs_r3_w0::<A, B, C, F>(&self, world, result),
            {
                let a = match world.get::<A>() {
                    Ok(guard) => guard,
                    Err(error) => {
                        let result = Err(error);
                        assert(stops_at(needs_r3_w0::<A, B, C>(), world, result, 0));
                        return result;
                    },
                };
                let b = match world.get::<B>() {
                    Ok(guard) => guard,
                    Err(error) => {
                        let result = Err(error);
                        assert(stops_at(needs_r3_w0::<A, B, C>(), world, result, 1));
                        return result;
                    },
                };
                let c = match world.get::<C>() {
                    Ok(guard) => guard,
                    Err(error) => {
                        let result = Err(error);
                        assert(stops_at(needs_r3_w0::<A, B, C>(), world, result, 2));
                        return result;
                    },
                };
                self(a.deref(), b.deref(), c.deref())
            };
        System::new(needs, run)
    }
}

/// The borrows that two shared references and then one mutable reference stand for.
pub open spec fn needs_r2_w1<A: 'static, B: 'static, C: 'static>() -> Seq<Lease> {
    seq![reading::<A>(), reading::<B>(), writing::<C>()]
}

/// Whether running `function` on the resources of `world` can end with
/// `result`: before the call, at the first resource that is missing or
/// refuses the borrow, or with the result of the call.
pub open spec fn runs_r2_w1<A: 'static, B: 'static, C: 'static, F>(
    function: &F,
    world: &World,
    result: SystemResult,
) -> bool where F: Fn(&A, &B, &mut C) -> SystemResult {
    ||| stops_early(needs_r2_w1::<A, B, C>(), world, result)
    ||| holds_all(needs_r2_w1::<A, B, C>(), world) && exists|a: &A, b: &B, c: &mut C|
        call_ensures(*function, (a, b, c), result)
}

impl<A, B, C, F> IntoSystem<(&A, &B, &mut C)> for F where
    A: Default + Resource,
    B: Default + Resource,
    C: Default + Resource,
    F: Fn(&A, &B, &mut C) -> SystemResult + Send + 'static,
 {
    open spec fn accepts_all(&self) -> bool {
        forall|a: &A, b: &B, c: &mut C| call_requires(*self, (a, b, c))
    }

    open spec fn needs() -> Seq<Lease> {
        needs_r2_w1::<A, B, C>()
    }

    open spec fn runs(&self, world: &World, result: SystemResult) -> bool {
        runs_r2_w1::<A, B, C, F>(self, world, result)
    }

    fn system(self) -> (system: System) {
        let mut needs: Vec<Requirement> = Vec::new();
        needs.push(Requirement::read::<A>());
        needs.push(Requirement::read::<B>());
        needs.push(Requirement::write::<C>());
        let run = move |world: &World| -> (result: SystemResult)
            ensures
                runs_r2_w1::<A, B, C, F>(&self, world, result),
            {
                let a = match world.get::<A>() {
                    Ok(guard) => guard,
                    Err(error) => {
                        let result = Err(error);
                        assert(stops_at(needs_r2_w1::<A, B, C>(), world, result, 0));
                        return result;
                    },
                };
                let b = match world.get::<B>() {
                    Ok(guard) => guard,
                    Err(error) => {
                        let result = Err(error);
                        assert(stops_at(needs_r2_w1::<A, B, C>(), world, result, 1));
                        return result;
                    },
                };
                let mut c = match world.get_mut::<C>() {
                    Ok(guard) => guard,
                    Err(error) => {
                        let result = Err(error);
                        assert(stops_at(needs_r2_w1::<A, B, C>(), world, result, 2));
                        return result;
                    },
                };
                self(a.deref(), b.deref(), c.deref_mut())
            };
        System::new(needs, run)
    }
}

/// The borrows that one shared reference and then two mutable references stand for.
pub open spec fn needs_r1_w2<A: 'static, B: 'static, C: 'static>() -> Seq<Lease> {
    seq![reading::<A>(), writing::<B>(), writing::<C>()]
}

/// Whether running `function` on the resources of `world` can end with
/// `result`: before the call, at the first resource that is missing or
/// refuses the borrow, or with the result of the call.
pub open spec fn runs_r1_w2<A: 'static, B: 'static, C: 'static, F>(
    function: &F,
    world: &World,
    result: SystemResult,
) -> bool where F: Fn(&A, &mut B, &mut C) -> SystemResult {
    ||| stops_early(needs_r1_w2::<A, B, C>(), world, result)
    ||| holds_all(needs_r1_w2::<A, B, C>(), world) && exists|a: &A, b: &mut B, c: &mut C|
        call_ensures(*function, (a, b, c), result)
}

impl<A, B, C, F> IntoSystem<(&A, &mut B, &mut C)> for F where
    A: Default + Resource,
    B: Default + Resource,
    C: Default + Resource,
    F: Fn(&A, &mut B, &mut C) -> SystemResult + Send + 'static,
 {
    open spec fn accepts_all(&self) -> bool {
        forall|a: &A, b: &mut B, c: &mut C| call_requires(*self, (a, b, c))
    }

    open spec fn needs() -> Seq<Lease> {
        needs_r1_w2::<A, B, C>()
    }

    open spec fn runs(&self, world: &World, result: SystemResult) -> bool {
        runs_r1_w2::<A, B, C, F>(self, world, result)
    }

    fn system(self) -> (system: System) {
        let mut needs: Vec<Requirement> = Vec::new();
        needs.push(Requirement::read::<A>());
        needs.push(Requirement::write::<B>());
        needs.push(Requirement::write::<C>());
        let run = move |world: &World| -> (result: SystemResult)
            ensures
                runs_r1_w2::<A, B, C, F>(&self, world, result),
            {
                let a = match world.get::<A>() {
                    Ok(guard) => guard,
                    Err(error) => {
                        let result = Err(error);
                        assert(stops_at(needs_r1_w2::<A, B, C>(), world, result, 0));
                        return result;
                    },
                };
                let mut b = match world.get_mut::<B>() {
                    Ok(guard) => guard,
                    Err(error) => {
                        let result = Err(error);
                        assert(stops_at(needs_r1_w2::<A, B, C>(), world, result, 1));
                        return result;
                    },
                };
                let mut c = match world.get_mut::<C>() {
                    Ok(guard) => guard,
                    Err(error) => {
                        let result = Err(error);
                        assert(stops_at(needs_r1_w2::<A, B, C>(), world, result, 2));
                        return result;
                    },
                };
                self(a.deref(), b.deref_mut(), c.deref_mut())
            };
        System::new(needs, run)
    }
}

/// The borrows that three mutable references stand for.
pub open spec fn needs_r0_w3<A: 'static, B: 'static, C: 'static>() -> Seq<Lease> {
    seq![writing::<A>(), writing::<B>(), writing::<C>()]
}

/// Whether running `function` on the resources of `world` can end with
/// `result`: before the call, at the first resource that is missing or
/// refuses the borrow, or with the result of the call.
pub open spec fn runs_r0_w3<A: 'static, B: 'static, C: 'static, F>(
    function: &F,
    world: &World,
    result: SystemResult,
) -> bool where F: Fn(&mut A, &mut B, &mut C) -> SystemResult {
    ||| stops_early(needs_r0_w3::<A, B, C>(), world, result)
    ||| holds_all(needs_r0_w3::<A, B, C>(), world) && exists|a: &mut A, b: &mut B, c: &mut C|
        call_ensures(*function, (a, b, c), result)
}

impl<A, B, C, F> IntoSystem<(&mut A, &mut B, &mut C)> for F where
    A: Default + Resource,
    B: Default + Resource,
    C: Default + Resource,
    F: Fn(&mut A, &mut B, &mut C) -> SystemResult + Send + 'static,
 {
    open spec fn accepts_all(&self) -> bool {
        forall|a: &mut A, b: &mut B, c: &mut C| call_requires(*self, (a, b, c))
    }

    open spec fn needs() -> Seq<Lease> {
        needs_r0_w3::<A, B, C>()
    }

    open spec fn runs(&self, world: &World, result: SystemResult) -> bool {
        runs_r0_w3::<A, B, C, F>(self, world, result)
    }

    fn system(self) -> (system: System) {
        let mut needs: Vec<Requirement> = Vec::new();
        needs.push(Requirement::write::<A>());
        needs.push(Requirement::write::<B>());
        needs.push(Requirement::write::<C>());
        let run = move |world: &World| -> (result: SystemResult)
            ensures
                runs_r0_w3::<A, B, C, F>(&self, world, result),
            {
                let mut a = match world.get_mut::<A>() {
                    Ok(guard) => guard,
                    Err(error) => {
                        let result = Err(error);
                        assert(stops_at(needs_r0_w3::<A, B, C>(), world, result, 0));
                        return result;
                    },
                };
                let mut b = match world.get_mut::<B>() {
                    Ok(guard) => guard,
                    Err(error) => {
                        let result = Err(error);
                        assert(stops_at(needs_r0_w3::<A, B, C>(), world, result, 1));
                        return result;
                    },
                };
                let mut c = match world.get_mut::<C>() {
                    Ok(guard) => guard,
                    Err(error) => {
                        let result = Err(error);
                        assert(stops_at(needs_r0_w3::<A, B, C>(), world, result, 2));
                        return result;
                    },
                };
                self(a.deref_mut(), b.deref_mut(), c.deref_mut())
            };
        System::new(needs, run)
    }
}

} // verus!
