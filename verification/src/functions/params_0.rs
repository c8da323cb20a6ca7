//! Systems from functions without parameters.

use crate::error::SystemResult;
use crate::ledger::Lease;
use crate::system::IntoSystem;
use crate::system::Requirement;
use crate::system::System;
use crate::world::World;
use vstd::prelude::*;

verus! {

/// Whether running `function` can end with `result`: it has no parameters,
/// so it is called at once, and its result is the result of the run.
pub open spec fn runs_r0_w0<F>(function: &F, world: &World, result: SystemResult) -> bool where
    F: Fn() -> SystemResult,
 {
    call_ensures(*function, (), result)
}

impl<F> IntoSystem<()> for F where
    F: Fn() -> SystemResult + Send + 'static,
 {
    open spec fn accepts_all(&self) -> bool {
        call_requires(*self, ())
    }

    open spec fn needs() -> Seq<Lease> {
        Seq::empty()
    }

    open spec fn runs(&self, world: &World, result: SystemResult) -> bool {
        runs_r0_w0::<F>(self, world, result)
    }

    fn system(self) -> (system: System) {
        let needs: Vec<Requirement> = Vec::new();
        let run = move |world: &World| -> (result: SystemResult)
            ensures
                runs_r0_w0::<F>(&self, world, result),
            { self() };
        System::new(needs, run)
    }
}

} // verus!
