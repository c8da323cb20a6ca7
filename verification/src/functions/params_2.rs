//! Systems from functions of two parameters, for each number of shared
//! references that can come first.

use crate::error::SystemResult;
use crate::ledger::Lease;
use crate::resource::Resource;
use crate::system::IntoSystem;
use crate::system::Requirement;
use crate::system::System;
use crate::system::holds_all;
use crate::system::reading;
use crate::system::stops_at;
use crate::system::stops_early;
use crate::system::writing;
use crate::world::World;
use std::ops::Deref;
use std::ops::DerefMut;
use vstd::prelude::*;

verus! {

/// The borrows that two shared references stand for.
pub open spec fn needs_r2_w0<A: 'static, B: 'static>() -> Seq<Lease> {
    seq![reading::<A>(), reading::<B>()]
}

/// Whether running `function` on the resources of `world` can end with
/// `result`: before the call, at the first resource that is missing or
/// refuses the borrow, or with the result of the call.
pub open spec fn runs_r2_w0<A: 'static, B: 'static, F>(
    function: &F,
    world: &World,
    result: SystemResult,
) -> bool where F: Fn(&A, &B) -> SystemResult {
    ||| stops_early(needs_r2_w0::<A, B>(), world, result)
    ||| holds_all(needs_r2_w0::<A, B>(), world) && exists|a: &A, b: &B|
        call_ensures(*function, (a, b), result)
}

impl<A, B, F> IntoSystem<(&A, &B)> for F where
    A: Default + Resource,
    B: Default + Resource,
    F: Fn(&A, &B) -> SystemResult + Send + 'static,
 {
    open spec fn accepts_all(&self) -> bool {
        forall|a: &A, b: &B| call_requires(*self, (a, b))
    }

    open spec fn needs() -> Seq<Lease> {
        needs_r2_w0::<A, B>()
    }

    open spec fn runs(&self, world: &World, result: SystemResult) -> bool {
        runs_r2_w0::<A, B, F>(self, world, result)
    }

    fn system(self) -> (system: System) {
        let mut needs: Vec<Requirement> = Vec::new();
        needs.push(Requirement::read::<A>());
        needs.push(Requirement::read::<B>());
        let run = move |world: &World| -> (result: SystemResult)
            ensures
                runs_r2_w0::<A, B, F>(&self, world, result),
            {
                let a = match world.get::<A>() {
                    Ok(guard) => guard,
                    Err(error) => {
                        let result = Err(error);
                        assert(stops_at(needs_r2_w0::<A, B>(), world, result, 0));
                        return result;
                    },
                };
                let b = match world.get::<B>() {
                    Ok(guard) => guard,
                    Err(error) => {
                        let result = Err(error);
                        assert(stops_at(needs_r2_w0::<A, B>(), world, result, 1));
                        return result;
                    },
                };
                self(a.deref(), b.deref())
            };
        System::new(needs, run)
    }
}

/// The borrows that one shared reference and then one mutable reference stand for.
pub open spec fn needs_r1_w1<A: 'static, B: 'static>() -> Seq<Lease> {
    seq![reading::<A>(), writing::<B>()]
}

/// Whether running `function` on the resources of `world` can end with
/// `result`: before the call, at the first resource that is missing or
/// refuses the borrow, or with the result of the call.
pub open spec fn runs_r1_w1<A: 'static, B: 'static, F>(
    function: &F,
    world: &World,
    result: SystemResult,
) -> bool where F: Fn(&A, &mut B) -> SystemResult {
    ||| stops_early(needs_r1_w1::<A, B>(), world, result)
    ||| holds_all(needs_r1_w1::<A, B>(), world) && exists|a: &A, b: &mut B|
        call_ensures(*function, (a, b), result)
}

impl<A, B, F> IntoSystem<(&A, &mut B)> for F where
    A: Default + Resource,
    B: Default + Resource,
    F: Fn(&A, &mut B) -> SystemResult + Send + 'static,
 {
    open spec fn accepts_all(&self) -> bool {
        forall|a: &A, b: &mut B| call_requires(*self, (a, b))
    }

    open spec fn needs() -> Seq<Lease> {
        needs_r1_w1::<A, B>()
    }

    open spec fn runs(&self, world: &World, result: SystemResult) -> bool {
        runs_r1_w1::<A, B, F>(self, world, result)
    }

    fn system(self) -> (system: System) {
        let mut needs: Vec<Requirement> = Vec::new();
        needs.push(Requirement::read::<A>());
        needs.push(Requirement::write::<B>());
        let run = move |world: &World| -> (result: SystemResult)
            ensures
                runs_r1_w1::<A, B, F>(&self, world, result),
            {
                let a = match world.get::<A>() {
                    Ok(guard) => guard,
                    Err(error) => {
                        let result = Err(error);
                        assert(stops_at(needs_r1_w1::<A, B>(), world, result, 0));
                        return result;
                    },
                };
                let mut b = match world.get_mut::<B>() {
                    Ok(guard) => guard,
                    Err(error) => {
                        let result = Err(error);
                        assert(stops_at(needs_r1_w1::<A, B>(), world, result, 1));
                        return result;
                    },
                };
                self(a.deref(), b.deref_mut())
            };
        System::new(needs, run)
    }
}

/// The borrows that two mutable references stand for.
pub open spec fn needs_r0_w2<A: 'static, B: 'static>() -> Seq<Lease> {
    seq![writing::<A>(), writing::<B>()]
}

/// Whether running `function` on the resources of `world` can end with
/// `result`: before the call, at the first resource that is missing or
/// refuses the borrow, or with the result of the call.
pub open spec fn runs_r0_w2<A: 'static, B: 'static, F>(
    function: &F,
    world: &World,
    result: SystemResult,
) -> bool where F: Fn(&mut A, &mut B) -> SystemResult {
    ||| stops_early(needs_r0_w2::<A, B>(), world, result)
    ||| holds_all(needs_r0_w2::<A, B>(), world) && exists|a: &mut A, b: &mut B|
        call_ensures(*function, (a, b), result)
}

impl<A, B, F> IntoSystem<(&mut A, &mut B)> for F where
    A: Default + Resource,
    B: Default + Resource,
    F: Fn(&mut A, &mut B) -> SystemResult + Send + 'static,
 {
    open spec fn accepts_all(&self) -> bool {
        forall|a: &mut A, b: &mut B| call_requires(*self, (a, b))
    }

    open spec fn needs() -> Seq<Lease> {
        needs_r0_w2::<A, B>()
    }

    open spec fn runs(&self, world: &World, result: SystemResult) -> bool {
        runs_r0_w2::<A, B, F>(self, world, result)
    }

    fn system(self) -> (system: System) {
        let mut needs: Vec<Requirement> = Vec::new();
        needs.push(Requirement::write::<A>());
        needs.push(Requirement::write::<B>());
        let run = move |world: &World| -> (result: SystemResult)
            ensures
                runs_r0_w2::<A, B, F>(&self, world, result),
            {
                let mut a = match world.get_mut::<A>() {
                    Ok(guard) => guard,
                    Err(error) => {
                        let result = Err(error);
                        assert(stops_at(needs_r0_w2::<A, B>(), world, result, 0));
                        return result;
                    },
                };
                let mut b = match world.get_mut::<B>() {
                    Ok(guard) => guard,
                    Err(error) => {
                        let result = Err(error);
                        assert(stops_at(needs_r0_w2::<A, B>(), world, result, 1));
                        return result;
                    },
                };
                self(a.deref_mut(), b.deref_mut())
            };
        System::new(needs, run)
    }
}

} // verus!
