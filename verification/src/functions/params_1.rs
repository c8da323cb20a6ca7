//! Systems from functions of one parameter.

use crate::error::SystemResult;
use crate::ledger::Lease;
use crate::resource::Resource;
use crate::system::IntoSystem;
use crate::system::Requirement;
use crate::system::System;
use crate::system::holds_all;
use crate::system::reading;
use crate::system::stops_at;
use crate::system::stops_early;
use crate::system::writing;
use crate::world::World;
use std::ops::Deref;
use std::ops::DerefMut;
use vstd::prelude::*;

verus! {

/// The borrows that one shared reference stands for.
pub open spec fn needs_r1_w0<A: 'static>() -> Seq<Lease> {
    seq![reading::<A>()]
}

/// Whether running `function` on the resources of `world` can end with
/// `result`: before the call, at the first resource that is missing or
/// refuses the borrow, or with the result of the call.
pub open spec fn runs_r1_w0<A: 'static, F>(
    function: &F,
    world: &World,
    result: SystemResult,
) -> bool where F: Fn(&A) -> SystemResult {
    ||| stops_early(needs_r1_w0::<A>(), world, result)
    ||| holds_all(needs_r1_w0::<A>(), world) && exists|a: &A|
        call_ensures(*function, (a,), result)
}

impl<A, F> IntoSystem<(&A,)> for F where
    A: Default + Resource,
    F: Fn(&A) -> SystemResult + Send + 'static,
 {
    open spec fn accepts_all(&self) -> bool {
        forall|a: &A| call_requires(*self, (a,))
    }

    open spec fn needs() -> Seq<Lease> {
        needs_r1_w0::<A>()
    }

    open spec fn runs(&self, world: &World, result: SystemResult) -> bool {
        runs_r1_w0::<A, F>(self, world, result)
    }

    fn system(self) -> (system: System) {
        let mut needs: Vec<Requirement> = Vec::new();
        needs.push(Requirement::read::<A>());
        let run = move |world: &World| -> (result: SystemResult)
            ensures
                runs_r1_w0::<A, F>(&self, world, result),
            {
                let a = match world.get::<A>() {
                    Ok(guard) => guard,
                    Err(error) => {
                        let result = Err(error);
                        assert(stops_at(needs_r1_w0::<A>(), world, result, 0));
                        return result;
                    },
                };
                self(a.deref())
            };
        System::new(needs, run)
    }
}

/// The borrows that one mutable reference stands for.
pub open spec fn needs_r0_w1<A: 'static>() -> Seq<Lease> {
    seq![writing::<A>()]
}

/// Whether running `function` on the resources of `world` can end with
/// `result`: before the call, at the first resource that is missing or
/// refuses the borrow, or with the result of the call.
pub open spec fn runs_r0_w1<A: 'static, F>(
    function: &F,
    world: &World,
    result: SystemResult,
) -> bool where F: Fn(&mut A) -> SystemResult {
    ||| stops_early(needs_r0_w1::<A>(), world, result)
    ||| holds_all(needs_r0_w1::<A>(), world) && exists|a: &mut A|
        call_ensures(*function, (a,), result)
}

impl<A, F> IntoSystem<(&mut A,)> for F where
    A: Default + Resource,
    F: Fn(&mut A) -> SystemResult + Send + 'static,
 {
    open spec fn accepts_all(&self) -> bool {
        forall|a: &mut A| call_requires(*self, (a,))
    }

    open spec fn needs() -> Seq<Lease> {
        needs_r0_w1::<A>()
    }

    open spec fn runs(&self, world: &World, result: SystemResult) -> bool {
        runs_r0_w1::<A, F>(self, world, result)
    }

    fn system(self) -> (system: System) {
        let mut needs: Vec<Requirement> = Vec::new();
        needs.push(Requirement::write::<A>());
        let run = move |world: &World| -> (result: SystemResult)
            ensures
                runs_r0_w1::<A, F>(&self, world, result),
            {
                let mut a = match world.get_mut::<A>() {
                    Ok(guard) => guard,
                    Err(error) => {
                        let result = Err(error);
                        assert(stops_at(needs_r0_w1::<A>(), world, result, 0));
                        return result;
                    },
                };
                self(a.deref_mut())
            };
        System::new(needs, run)
    }
}

} // verus!
