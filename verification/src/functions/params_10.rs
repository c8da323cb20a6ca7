//! Systems from functions of ten parameters, for each number of shared
//! references that can come first.

use crate::error::SystemResult;
use crate::ledger::Lease;
use crate::resource::Resource;
use crate::system::IntoSystem;
use crate::system::Requirement;
use crate::system::System;
use crate::system::holds_all;
use crate::system::reading;
use crate::system::stops_at;
use crate::system::stops_early;
use crate::system::writing;
use crate::world::World;
use std::ops::Deref;
use std::ops::DerefMut;
use vstd::prelude::*;

verus! {

/// The borrows that ten shared references stand for.
pub open spec fn needs_r10_w0<A: 'static, B: 'static, C: 'static, D: 'static, E: 'static, G: 'static, H: 'static, I: 'static, J: 'static, K: 'static>() -> Seq<Lease> {
    seq![
        reading::<A>(),
        reading::<B>(),
        reading::<C>(),
        reading::<D>(),
        reading::<E>(),
        reading::<G>(),
        reading::<H>(),
        reading::<I>(),
        reading::<J>(),
        reading::<K>(),
    ]
}

/// Whether running `function` on the resources of `world` can end with
/// `result`: before the call, at the first resource that is missing or
/// refuses the borrow, or with the result of the call.
pub open spec fn runs_r10_w0<A: 'static, B: 'static, C: 'static, D: 'static, E: 'static, G: 'static, H: 'static, I: 'static, J: 'static, K: 'static, F>(
    function: &F,
    world: &World,
    result: SystemResult,
) -> bool where F: Fn(&A, &B, &C, &D, &E, &G, &H, &I, &J, &K) -> SystemResult {
    ||| stops_early(needs_r10_w0::<A, B, C, D, E, G, H, I, J, K>(), world, result)
    ||| holds_all(needs_r10_w0::<A, B, C, D, E, G, H, I, J, K>(), world) && exists|a: &A, b: &B, c: &C, d: &D, e: &E, g: &G, h: &H, i: &I, j: &J, k: &K|
        call_ensures(*function, (a, b, c, d, e, g, h, i, j, k), result)
}

impl<A, B, C, D, E, G, H, I, J, K, F> IntoSystem<(&A, &B, &C, &D, &E, &G, &H, &I, &J, &K)> for F where
    A: Default + Resource,
    B: Default + Resource,
    C: Default + Resource,
    D: Default + Resource,
    E: Default + Resource,
    G: Default + Resource,
    H: Default + Resource,
    I: Default + Resource,
    J: Default + Resource,
    K: Default + Resource,
    F: Fn(&A, &B, &C, &D, &E, &G, &H, &I, &J, &K) -> SystemResult + Send + 'static,
 {
    open spec fn accepts_all(&self) -> bool {
        forall|a: &A, b: &B, c: &C, d: &D, e: &E, g: &G, h: &H, i: &I, j: &J, k: &K|
            call_requires(*self, (a, b, c, d, e, g, h, i, j, k))
    }

    open spec fn needs() -> Seq<Lease> {
        needs_r10_w0::<A, B, C, D, E, G, H, I, J, K>()
    }

    open spec fn runs(&self, world: &World, result: SystemResult) -> bool {
        runs_r10_w0::<A, B, C, D, E, G, H, I, J, K, F>(self, world, result)
    }

    fn system(self) -> (system: System) {
        let mut needs: Vec<Requirement> = Vec::new();
        needs.push(Requirement::read::<A>());
        needs.push(Requirement::read::<B>());
        needs.push(Requirement::read::<C>());
        needs.push(Requirement::read::<D>());
        needs.push(Requirement::read::<E>());
        needs.push(Requirement::read::<G>());
        needs.push(Requirement::read::<H>());
        needs.push(Requirement::read::<I>());
        needs.push(Requirement::read::<J>());
        needs.push(Requirement::read::<K>());
        let run = move |world: &World| -> (result: SystemResult)
            ensures
                runs_r10_w0::<A, B, C, D, E, G, H, I, J, K, F>(&self, world, result),
            {
                let a = match world.get::<A>() {
                    Ok(guard) => guard,
                    Err(error) => {
                        let result = Err(error);
                        assert(stops_at(needs_r10_w0::<A, B, C, D, E, G, H, I, J, K>(), world, result, 0));
                        return result;
                    },
                };
                let b = match world.get::<B>() {
                    Ok(guard) => guard,
                    Err(error) => {
                        let result = Err(error);
                        assert(stops_at(needs_r10_w0::<A, B, C, D, E, G, H, I, J, K>(), world, result, 1));
                        return result;
                    },
                };
                let c = match world.get::<C>() {
                    Ok(guard) => guard,
                    Err(error) => {
                        let result = Err(error);
                        assert(stops_at(needs_r10_w0::<A, B, C, D, E, G, H, I, J, K>(), world, result, 2));
                        return result;
                    },
                };
                let d = match world.get::<D>() {
                    Ok(guard) => guard,
                    Err(error) => {
                        let result = Err(error);
                        assert(stops_at(needs_r10_w0::<A, B, C, D, E, G, H, I, J, K>(), world, result, 3));
                        return result;
                    },
                };
                let e = match world.get::<E>() {
                    Ok(guard) => guard,
                    Err(error) => {
                        let result = Err(error);
                        assert(stops_at(needs_r10_w0::<A, B, C, D, E, G, H, I, J, K>(), world, result, 4));
                        return result;
                    },
                };
                let g = match world.get::<G>() {
                    Ok(guard) => guard,
                    Err(error) => {
                        let result = Err(error);
                        assert(stops_at(needs_r10_w0::<A, B, C, D, E, G, H, I, J, K>(), world, result, 5));
                        return result;
                    },
                };
                let h = match world.get::<H>() {
                    Ok(guard) => guard,
                    Err(error) => {
                        let result = Err(error);
                        assert(stops_at(needs_r10_w0::<A, B, C, D, E, G, H, I, J, K>(), world, result, 6));
                        return result;
                    },
                };
                let i = match world.get::<I>() {
                    Ok(guard) => guard,
                    Err(error) => {
                        let result = Err(error);
                        assert(stops_at(needs_r10_w0::<A, B, C, D, E, G, H, I, J, K>(), world, result, 7));
                        return result;
                    },
                };
                let j = match world.get::<J>() {
                    Ok(guard) => guard,
                    Err(error) => {
                        let result = Err(error);
                        assert(stops_at(needs_r10_w0::<A, B, C, D, E, G, H, I, J, K>(), world, result, 8));
                        return result;
                    },
                };
                let k = match world.get::<K>() {
                    Ok(guard) => guard,
                    Err(error) => {
                        let result = Err(error);
                        assert(stops_at(needs_r10_w0::<A, B, C, D, E, G, H, I, J, K>(), world, result, 9));
                        return result;
                    },
                };
                self(
                    a.deref(),
                    b.deref(),
                    c.deref(),
                    d.deref(),
                    e.deref(),
                    g.deref(),
                    h.deref(),
                    i.deref(),
                    j.deref(),
                    k.deref(),
                )
            };
        System::new(needs, run)
    }
}

/// The borrows that nine shared references and then one mutable reference stand for.
pub open spec fn needs_r9_w1<A: 'static, B: 'static, C: 'static, D: 'static, E: 'static, G: 'static, H: 'static, I: 'static, J: 'static, K: 'static>() -> Seq<Lease> {
    seq![
        reading::<A>(),
        reading::<B>(),
        reading::<C>(),
        reading::<D>(),
        reading::<E>(),
        reading::<G>(),
        reading::<H>(),
        reading::<I>(),
        reading::<J>(),
        writing::<K>(),
    ]
}

/// Whether running `function` on the resources of `world` can end with
/// `result`: before the call, at the first resource that is missing or
/// refuses the borrow, or with the result of the call.
pub open spec fn runs_r9_w1<A: 'static, B: 'static, C: 'static, D: 'static, E: 'static, G: 'static, H: 'static, I: 'static, J: 'static, K: 'static, F>(
    function: &F,
    world: &World,
    result: SystemResult,
) -> bool where F: Fn(&A, &B, &C, &D, &E, &G, &H, &I, &J, &mut K) -> SystemResult {
    ||| stops_early(needs_r9_w1::<A, B, C, D, E, G, H, I, J, K>(), world, result)
    ||| holds_all(needs_r9_w1::<A, B, C, D, E, G, H, I, J, K>(), world) && exists|a: &A, b: &B, c: &C, d: &D, e: &E, g: &G, h: &H, i: &I, j: &J, k: &mut K|
        call_ensures(*function, (a, b, c, d, e, g, h, i, j, k), result)
}

impl<A, B, C, D, E, G, H, I, J, K, F> IntoSystem<(&A, &B, &C, &D, &E, &G, &H, &I, &J, &mut K)> for F where
    A: Default + Resource,
    B: Default + Resource,
    C: Default + Resource,
    D: Default + Resource,
    E: Default + Resource,
    G: Default + Resource,
    H: Default + Resource,
    I: Default + Resource,
    J: Default + Resource,
    K: Default + Resource,
    F: Fn(&A, &B, &C, &D, &E, &G, &H, &I, &J, &mut K) -> SystemResult + Send + 'static,
 {
    open spec fn accepts_all(&self) -> bool {
        forall|a: &A, b: &B, c: &C, d: &D, e: &E, g: &G, h: &H, i: &I, j: &J, k: &mut K|
            call_requires(*self, (a, b, c, d, e, g, h, i, j, k))
    }

    open spec fn needs() -> Seq<Lease> {
        needs_r9_w1::<A, B, C, D, E, G, H, I, J, K>()
    }

    open spec fn runs(&self, world: &World, result: SystemResult) -> bool {
        runs_r9_w1::<A, B, C, D, E, G, H, I, J, K, F>(self, world, result)
    }

    fn system(self) -> (system: System) {
        let mut needs: Vec<Requirement> = Vec::new();
        needs.push(Requirement::read::<A>());
        needs.push(Requirement::read::<B>());
        needs.push(Requirement::read::<C>());
        needs.push(Requirement::read::<D>());
        needs.push(Requirement::read::<E>());
        needs.push(Requirement::read::<G>());
        needs.push(Requirement::read::<H>());
        needs.push(Requirement::read::<I>());
        needs.push(Requirement::read::<J>());
        needs.push(Requirement::write::<K>());
        let run = move |world: &World| -> (result: SystemResult)
            ensures
                runs_r9_w1::<A, B, C, D, E, G, H, I, J, K, F>(&self, world, result),
            {
                let a = match world.get::<A>() {
                    Ok(guard) => guard,
                    Err(error) => {
                        let result = Err(error);
                        assert(stops_at(needs_r9_w1::<A, B, C, D, E, G, H, I, J, K>(), world, result, 0));
                        return result;
                    },
                };
                let b = match world.get::<B>() {
                    Ok(guard) => guard,
                    Err(error) => {
                        let result = Err(error);
                        assert(stops_at(needs_r9_w1::<A, B, C, D, E, G, H, I, J, K>(), world, result, 1));
                        return result;
                    },
                };
                let c = match world.get::<C>() {
                    Ok(guard) => guard,
                    Err(error) => {
                        let result = Err(error);
                        assert(stops_at(needs_r9_w1::<A, B, C, D, E, G, H, I, J, K>(), world, result, 2));
                        return result;
                    },
                };
                let d = match world.get::<D>() {
                    Ok(guard) => guard,
                    Err(error) => {
                        let result = Err(error);
                        assert(stops_at(needs_r9_w1::<A, B, C, D, E, G, H, I, J, K>(), world, result, 3));
                        return result;
                    },
                };
                let e = match world.get::<E>() {
                    Ok(guard) => guard,
                    Err(error) => {
                        let result = Err(error);
                        assert(stops_at(needs_r9_w1::<A, B, C, D, E, G, H, I, J, K>(), world, result, 4));
                        return result;
                    },
                };
                let g = match world.get::<G>() {
                    Ok(guard) => guard,
                    Err(error) => {
                        let result = Err(error);
                        assert(stops_at(needs_r9_w1::<A, B, C, D, E, G, H, I, J, K>(), world, result, 5));
                        return result;
                    },
                };
                let h = match world.get::<H>() {
                    Ok(guard) => guard,
                    Err(error) => {
                        let result = Err(error);
                        assert(stops_at(needs_r9_w1::<A, B, C, D, E, G, H, I, J, K>(), world, result, 6));
                        return result;
                    },
                };
                let i = match world.get::<I>() {
                    Ok(guard) => guard,
                    Err(error) => {
                        let result = Err(error);
                        assert(stops_at(needs_r9_w1::<A, B, C, D, E, G, H, I, J, K>(), world, result, 7));
                        return result;
                    },
                };
                let j = match world.get::<J>() {
                    Ok(guard) => guard,
                    Err(error) => {
                        let result = Err(error);
                        assert(stops_at(needs_r9_w1::<A, B, C, D, E, G, H, I, J, K>(), world, result, 8));
                        return result;
                    },
                };
                let mut k = match world.get_mut::<K>() {
                    Ok(guard) => guard,
                    Err(error) => {
                        let result = Err(error);
                        assert(stops_at(needs_r9_w1::<A, B, C, D, E, G, H, I, J, K>(), world, result, 9));
                        return result;
                    },
                };
                self(
                    a.deref(),
                    b.deref(),
                    c.deref(),
                    d.deref(),
                    e.deref(),
                    g.deref(),
                    h.deref(),
                    i.deref(),
                    j.deref(),
                    k.deref_mut(),
                )
            };
        System::new(needs, run)
    }
}

/// The borrows that eight shared references and then two mutable references stand for.
pub open spec fn needs_r8_w2<A: 'static, B: 'static, C: 'static, D: 'static, E: 'static, G: 'static, H: 'static, I: 'static, J: 'static, K: 'static>() -> Seq<Lease> {
    seq![
        reading::<A>(),
        reading::<B>(),
        reading::<C>(),
        reading::<D>(),
        reading::<E>(),
        reading::<G>(),
        reading::<H>(),
        reading::<I>(),
        writing::<J>(),
        writing::<K>(),
    ]
}

/// Whether running `function` on the resources of `world` can end with
/// `result`: before the call, at the first resource that is missing or
/// refuses the borrow, or with the result of the call.
pub open spec fn runs_r8_w2<A: 'static, B: 'static, C: 'static, D: 'static, E: 'static, G: 'static, H: 'static, I: 'static, J: 'static, K: 'static, F>(
    function: &F,
    world: &World,
    result: SystemResult,
) -> bool where F: Fn(&A, &B, &C, &D, &E, &G, &H, &I, &mut J, &mut K) -> SystemResult {
    ||| stops_early(needs_r8_w2::<A, B, C, D, E, G, H, I, J, K>(), world, result)
    ||| holds_all(needs_r8_w2::<A, B, C, D, E, G, H, I, J, K>(), world) && exists|a: &A, b: &B, c: &C, d: &D, e: &E, g: &G, h: &H, i: &I, j: &mut J, k: &mut K|
        call_ensures(*function, (a, b, c, d, e, g, h, i, j, k), result)
}

impl<A, B, C, D, E, G, H, I, J, K, F> IntoSystem<(&A, &B, &C, &D, &E, &G, &H, &I, &mut J, &mut K)> for F where
    A: Default + Resource,
    B: Default + Resource,
    C: Default + Resource,
    D: Default + Resource,
    E: Default + Resource,
    G: Default + Resource,
    H: Default + Resource,
    I: Default + Resource,
    J: Default + Resource,
    K: Default + Resource,
    F: Fn(&A, &B, &C, &D, &E, &G, &H, &I, &mut J, &mut K) -> SystemResult + Send + 'static,
 {
    open spec fn accepts_all(&self) -> bool {
        forall|a: &A, b: &B, c: &C, d: &D, e: &E, g: &G, h: &H, i: &I, j: &mut J, k: &mut K|
            call_requires(*self, (a, b, c, d, e, g, h, i, j, k))
    }

    open spec fn needs() -> Seq<Lease> {
        needs_r8_w2::<A, B, C, D, E, G, H, I, J, K>()
    }

    open spec fn runs(&self, world: &World, result: SystemResult) -> bool {
        runs_r8_w2::<A, B, C, D, E, G, H, I, J, K, F>(self, world, result)
    }

    fn system(self) -> (system: System) {
        let mut needs: Vec<Requirement> = Vec::new();
        needs.push(Requirement::read::<A>());
        needs.push(Requirement::read::<B>());
        needs.push(Requirement::read::<C>());
        needs.push(Requirement::read::<D>());
        needs.push(Requirement::read::<E>());
        needs.push(Requirement::read::<G>());
        needs.push(Requirement::read::<H>());
        needs.push(Requirement::read::<I>());
        needs.push(Requirement::write::<J>());
        needs.push(Requirement::write::<K>());
        let run = move |world: &World| -> (result: SystemResult)
            ensures
                runs_r8_w2::<A, B, C, D, E, G, H, I, J, K, F>(&self, world, result),
            {
                let a = match world.get::<A>() {
                    Ok(guard) => guard,
                    Err(error) => {
                        let result = Err(error);
                        assert(stops_at(needs_r8_w2::<A, B, C, D, E, G, H, I, J, K>(), world, result, 0));
                        return result;
                    },
                };
                let b = match world.get::<B>() {
                    Ok(guard) => guard,
                    Err(error) => {
                        let result = Err(error);
                        assert(stops_at(needs_r8_w2::<A, B, C, D, E, G, H, I, J, K>(), world, result, 1));
                        return result;
                    },
                };
                let c = match world.get::<C>() {
                    Ok(guard) => guard,
                    Err(error) => {
                        let result = Err(error);
                        assert(stops_at(needs_r8_w2::<A, B, C, D, E, G, H, I, J, K>(), world, result, 2));
                        return result;
                    },
                };
                let d = match world.get::<D>() {
                    Ok(guard) => guard,
                    Err(error) => {
                        let result = Err(error);
                        assert(stops_at(needs_r8_w2::<A, B, C, D, E, G, H, I, J, K>(), world, result, 3));
                        return result;
                    },
                };
                let e = match world.get::<E>() {
                    Ok(guard) => guard,
                    Err(error) => {
                        let result = Err(error);
                        assert(stops_at(needs_r8_w2::<A, B, C, D, E, G, H, I, J, K>(), world, result, 4));
                        return result;
                    },
                };
                let g = match world.get::<G>() {
                    Ok(guard) => guard,
                    Err(error) => {
                        let result = Err(error);
                        assert(stops_at(needs_r8_w2::<A, B, C, D, E, G, H, I, J, K>(), world, result, 5));
                        return result;
                    },
                };
                let h = match world.get::<H>() {
                    Ok(guard) => guard,
                    Err(error) => {
                        let result = Err(error);
                        assert(stops_at(needs_r8_w2::<A, B, C, D, E, G, H, I, J, K>(), world, result, 6));
                        return result;
                    },
                };
                let i = match world.get::<I>() {
                    Ok(guard) => guard,
                    Err(error) => {
                        let result = Err(error);
                        assert(stops_at(needs_r8_w2::<A, B, C, D, E, G, H, I, J, K>(), world, result, 7));
                        return result;
                    },
                };
                let mut j = match world.get_mut::<J>() {
                    Ok(guard) => guard,
                    Err(error) => {
                        let result = Err(error);
                        assert(stops_at(needs_r8_w2::<A, B, C, D, E, G, H, I, J, K>(), world, result, 8));
                        return result;
                    },
                };
                let mut k = match world.get_mut::<K>() {
                    Ok(guard) => guard,
                    Err(error) => {
                        let result = Err(error);
                        assert(stops_at(needs_r8_w2::<A, B, C, D, E, G, H, I, J, K>(), world, result, 9));
                        return result;
                    },
                };
                self(
                    a.deref(),
                    b.deref(),
                    c.deref(),
                    d.deref(),
                    e.deref(),
                    g.deref(),
                    h.deref(),
                    i.deref(),
                    j.deref_mut(),
                    k.deref_mut(),
                )
            };
        System::new(needs, run)
    }
}

/// The borrows that seven shared references and then three mutable references stand for.
pub open spec fn needs_r7_w3<A: 'static, B: 'static, C: 'static, D: 'static, E: 'static, G: 'static, H: 'static, I: 'static, J: 'static, K: 'static>() -> Seq<Lease> {
    seq![
        reading::<A>(),
        reading::<B>(),
        reading::<C>(),
        reading::<D>(),
        reading::<E>(),
        reading::<G>(),
        reading::<H>(),
        writing::<I>(),
        writing::<J>(),
        writing::<K>(),
    ]
}

/// Whether running `function` on the resources of `world` can end with
/// `result`: before the call, at the first resource that is missing or
/// refuses the borrow, or with the result of the call.
pub open spec fn runs_r7_w3<A: 'static, B: 'static, C: 'static, D: 'static, E: 'static, G: 'static, H: 'static, I: 'static, J: 'static, K: 'static, F>(
    function: &F,
    world: &World,
    result: SystemResult,
) -> bool where F: Fn(&A, &B, &C, &D, &E, &G, &H, &mut I, &mut J, &mut K) -> SystemResult {
    ||| stops_early(needs_r7_w3::<A, B, C, D, E, G, H, I, J, K>(), world, result)
    ||| holds_all(needs_r7_w3::<A, B, C, D, E, G, H, I, J, K>(), world) && exists|a: &A, b: &B, c: &C, d: &D, e: &E, g: &G, h: &H, i: &mut I, j: &mut J, k: &mut K|
        call_ensures(*function, (a, b, c, d, e, g, h, i, j, k), result)
}

impl<A, B, C, D, E, G, H, I, J, K, F> IntoSystem<(&A, &B, &C, &D, &E, &G, &H, &mut I, &mut J, &mut K)> for F where
    A: Default + Resource,
    B: Default + Resource,
    C: Default + Resource,
    D: Default + Resource,
    E: Default + Resource,
    G: Default + Resource,
    H: Default + Resource,
    I: Default + Resource,
    J: Default + Resource,
    K: Default + Resource,
    F: Fn(&A, &B, &C, &D, &E, &G, &H, &mut I, &mut J, &mut K) -> SystemResult + Send + 'static,
 {
    open spec fn accepts_all(&self) -> bool {
        forall|a: &A, b: &B, c: &C, d: &D, e: &E, g: &G, h: &H, i: &mut I, j: &mut J, k: &mut K|
            call_requires(*self, (a, b, c, d, e, g, h, i, j, k))
    }

    open spec fn needs() -> Seq<Lease> {
        needs_r7_w3::<A, B, C, D, E, G, H, I, J, K>()
    }

    open spec fn runs(&self, world: &World, result: SystemResult) -> bool {
        runs_r7_w3::<A, B, C, D, E, G, H, I, J, K, F>(self, world, result)
    }

    fn system(self) -> (system: System) {
        let mut needs: Vec<Requirement> = Vec::new();
        needs.push(Requirement::read::<A>());
        needs.push(Requirement::read::<B>());
        needs.push(Requirement::read::<C>());
        needs.push(Requirement::read::<D>());
        needs.push(Requirement::read::<E>());
        needs.push(Requirement::read::<G>());
        needs.push(Requirement::read::<H>());
        needs.push(Requirement::write::<I>());
        needs.push(Requirement::write::<J>());
        needs.push(Requirement::write::<K>());
        let run = move |world: &World| -> (result: SystemResult)
            ensures
                runs_r7_w3::<A, B, C, D, E, G, H, I, J, K, F>(&self, world, result),
            {
                let a = match world.get::<A>() {
                    Ok(guard) => guard,
                    Err(error) => {
                        let result = Err(error);
                        assert(stops_at(needs_r7_w3::<A, B, C, D, E, G, H, I, J, K>(), world, result, 0));
                        return result;
                    },
                };
                let b = match world.get::<B>() {
                    Ok(guard) => guard,
                    Err(error) => {
                        let result = Err(error);
                        assert(stops_at(needs_r7_w3::<A, B, C, D, E, G, H, I, J, K>(), world, result, 1));
                        return result;
                    },
                };
                let c = match world.get::<C>() {
                    Ok(guard) => guard,
                    Err(error) => {
                        let result = Err(error);
                        assert(stops_at(needs_r7_w3::<A, B, C, D, E, G, H, I, J, K>(), world, result, 2));
                        return result;
                    },
                };
                let d = match world.get::<D>() {
                    Ok(guard) => guard,
                    Err(error) => {
                        let result = Err(error);
                        assert(stops_at(needs_r7_w3::<A, B, C, D, E, G, H, I, J, K>(), world, result, 3));
                        return result;
                    },
                };
                let e = match world.get::<E>() {
                    Ok(guard) => guard,
                    Err(error) => {
                        let result = Err(error);
                        assert(stops_at(needs_r7_w3::<A, B, C, D, E, G, H, I, J, K>(), world, result, 4));
                        return result;
                    },
                };
                let g = match world.get::<G>() {
                    Ok(guard) => guard,
                    Err(error) => {
                        let result = Err(error);
                        assert(stops_at(needs_r7_w3::<A, B, C, D, E, G, H, I, J, K>(), world, result, 5));
                        return result;
                    },
                };
                let h = match world.get::<H>() {
                    Ok(guard) => guard,
                    Err(error) => {
                        let result = Err(error);
                        assert(stops_at(needs_r7_w3::<A, B, C, D, E, G, H, I, J, K>(), world, result, 6));
                        return result;
                    },
                };
                let mut i = match world.get_mut::<I>() {
                    Ok(guard) => guard,
                    Err(error) => {
                        let result = Err(error);
                        assert(stops_at(needs_r7_w3::<A, B, C, D, E, G, H, I, J, K>(), world, result, 7));
                        return result;
                    },
                };
                let mut j = match world.get_mut::<J>() {
                    Ok(guard) => guard,
                    Err(error) => {
                        let result = Err(error);
                        assert(stops_at(needs_r7_w3::<A, B, C, D, E, G, H, I, J, K>(), world, result, 8));
                        return result;
                    },
                };
                let mut k = match world.get_mut::<K>() {
                    Ok(guard) => guard,
                    Err(error) => {
                        let result = Err(error);
                        assert(stops_at(needs_r7_w3::<A, B, C, D, E, G, H, I, J, K>(), world, result, 9));
                        return result;
                    },
                };
                self(
                    a.deref(),
                    b.deref(),
                    c.deref(),
                    d.deref(),
                    e.deref(),
                    g.deref(),
                    h.deref(),
                    i.deref_mut(),
                    j.deref_mut(),
                    k.deref_mut(),
                )
            };
        System::new(needs, run)
    }
}

/// The borrows that six shared references and then four mutable references stand for.
pub open spec fn needs_r6_w4<A: 'static, B: 'static, C: 'static, D: 'static, E: 'static, G: 'static, H: 'static, I: 'static, J: 'static, K: 'static>() -> Seq<Lease> {
    seq![
        reading::<A>(),
        reading::<B>(),
        reading::<C>(),
        reading::<D>(),
        reading::<E>(),
        reading::<G>(),
        writing::<H>(),
        writing::<I>(),
        writing::<J>(),
        writing::<K>(),
    ]
}

/// Whether running `function` on the resources of `world` can end with
/// `result`: before the call, at the first resource that is missing or
/// refuses the borrow, or with the result of the call.
pub open spec fn runs_r6_w4<A: 'static, B: 'static, C: 'static, D: 'static, E: 'static, G: 'static, H: 'static, I: 'static, J: 'static, K: 'static, F>(
    function: &F,
    world: &World,
    result: SystemResult,
) -> bool where F: Fn(&A, &B, &C, &D, &E, &G, &mut H, &mut I, &mut J, &mut K) -> SystemResult {
    ||| stops_early(needs_r6_w4::<A, B, C, D, E, G, H, I, J, K>(), world, result)
    ||| holds_all(needs_r6_w4::<A, B, C, D, E, G, H, I, J, K>(), world) && exists|a: &A, b: &B, c: &C, d: &D, e: &E, g: &G, h: &mut H, i: &mut I, j: &mut J, k: &mut K|
        call_ensures(*function, (a, b, c, d, e, g, h, i, j, k), result)
}

impl<A, B, C, D, E, G, H, I, J, K, F> IntoSystem<(&A, &B, &C, &D, &E, &G, &mut H, &mut I, &mut J, &mut K)> for F where
    A: Default + Resource,
    B: Default + Resource,
    C: Default + Resource,
    D: Default + Resource,
    E: Default + Resource,
    G: Default + Resource,
    H: Default + Resource,
    I: Default + Resource,
    J: Default + Resource,
    K: Default + Resource,
    F: Fn(&A, &B, &C, &D, &E, &G, &mut H, &mut I, &mut J, &mut K) -> SystemResult + Send + 'static,
 {
    open spec fn accepts_all(&self) -> bool {
        forall|a: &A, b: &B, c: &C, d: &D, e: &E, g: &G, h: &mut H, i: &mut I, j: &mut J, k: &mut K|
            call_requires(*self, (a, b, c, d, e, g, h, i, j, k))
    }

    open spec fn needs() -> Seq<Lease> {
        needs_r6_w4::<A, B, C, D, E, G, H, I, J, K>()
    }

    open spec fn runs(&self, world: &World, result: SystemResult) -> bool {
        runs_r6_w4::<A, B, C, D, E, G, H, I, J, K, F>(self, world, result)
    }

    fn system(self) -> (system: System) {
        let mut needs: Vec<Requirement> = Vec::new();
        needs.push(Requirement::read::<A>());
        needs.push(Requirement::read::<B>());
        needs.push(Requirement::read::<C>());
        needs.push(Requirement::read::<D>());
        needs.push(Requirement::read::<E>());
        needs.push(Requirement::read::<G>());
        needs.push(Requirement::write::<H>());
        needs.push(Requirement::write::<I>());
        needs.push(Requirement::write::<J>());
        needs.push(Requirement::write::<K>());
        let run = move |world: &World| -> (result: SystemResult)
            ensures
                runs_r6_w4::<A, B, C, D, E, G, H, I, J, K, F>(&self, world, result),
            {
                let a = match world.get::<A>() {
                    Ok(guard) => guard,
                    Err(error) => {
                        let result = Err(error);
                        assert(stops_at(needs_r6_w4::<A, B, C, D, E, G, H, I, J, K>(), world, result, 0));
                        return result;
                    },
                };
                let b = match world.get::<B>() {
                    Ok(guard) => guard,
                    Err(error) => {
                        let result = Err(error);
                        assert(stops_at(needs_r6_w4::<A, B, C, D, E, G, H, I, J, K>(), world, result, 1));
                        return result;
                    },
                };
                let c = match world.get::<C>() {
                    Ok(guard) => guard,
                    Err(error) => {
                        let result = Err(error);
                        assert(stops_at(needs_r6_w4::<A, B, C, D, E, G, H, I, J, K>(), world, result, 2));
                        return result;
                    },
                };
                let d = match world.get::<D>() {
                    Ok(guard) => guard,
                    Err(error) => {
                        let result = Err(error);
                        assert(stops_at(needs_r6_w4::<A, B, C, D, E, G, H, I, J, K>(), world, result, 3));
                        return result;
                    },
                };
                let e = match world.get::<E>() {
                    Ok(guard) => guard,
                    Err(error) => {
                        let result = Err(error);
                        assert(stops_at(needs_r6_w4::<A, B, C, D, E, G, H, I, J, K>(), world, result, 4));
                        return result;
                    },
                };
                let g = match world.get::<G>() {
                    Ok(guard) => guard,
                    Err(error) => {
                        let result = Err(error);
                        assert(stops_at(needs_r6_w4::<A, B, C, D, E, G, H, I, J, K>(), world, result, 5));
                        return result;
                    },
                };
                let mut h = match world.get_mut::<H>() {
                    Ok(guard) => guard,
                    Err(error) => {
                        let result = Err(error);
                        assert(stops_at(needs_r6_w4::<A, B, C, D, E, G, H, I, J, K>(), world, result, 6));
                        return result;
                    },
                };
                let mut i = match world.get_mut::<I>() {
                    Ok(guard) => guard,
                    Err(error) => {
                        let result = Err(error);
                        assert(stops_at(needs_r6_w4::<A, B, C, D, E, G, H, I, J, K>(), world, result, 7));
                        return result;
                    },
                };
                let mut j = match world.get_mut::<J>() {
                    Ok(guard) => guard,
                    Err(error) => {
                        let result = Err(error);
                        assert(stops_at(needs_r6_w4::<A, B, C, D, E, G, H, I, J, K>(), world, result, 8));
                        return result;
                    },
                };
                let mut k = match world.get_mut::<K>() {
                    Ok(guard) => guard,
                    Err(error) => {
                        let result = Err(error);
                        assert(stops_at(needs_r6_w4::<A, B, C, D, E, G, H, I, J, K>(), world, result, 9));
                        return result;
                    },
                };
                self(
                    a.deref(),
                    b.deref(),
                    c.deref(),
                    d.deref(),
                    e.deref(),
                    g.deref(),
                    h.deref_mut(),
                    i.deref_mut(),
                    j.deref_mut(),
                    k.deref_mut(),
                )
            };
        System::new(needs, run)
    }
}

/// The borrows that five shared references and then five mutable references stand for.
pub open spec fn needs_r5_w5<A: 'static, B: 'static, C: 'static, D: 'static, E: 'static, G: 'static, H: 'static, I: 'static, J: 'static, K: 'static>() -> Seq<Lease> {
    seq![
        reading::<A>(),
        reading::<B>(),
        reading::<C>(),
        reading::<D>(),
        reading::<E>(),
        writing::<G>(),
        writing::<H>(),
        writing::<I>(),
        writing::<J>(),
        writing::<K>(),
    ]
}

/// Whether running `function` on the resources of `world` can end with
/// `result`: before the call, at the first resource that is missing or
/// refuses the borrow, or with the result of the call.
pub open spec fn runs_r5_w5<A: 'static, B: 'static, C: 'static, D: 'static, E: 'static, G: 'static, H: 'static, I: 'static, J: 'static, K: 'static, F>(
    function: &F,
    world: &World,
    result: SystemResult,
) -> bool where F: Fn(&A, &B, &C, &D, &E, &mut G, &mut H, &mut I, &mut J, &mut K) -> SystemResult {
    ||| stops_early(needs_r5_w5::<A, B, C, D, E, G, H, I, J, K>(), world, result)
    ||| holds_all(needs_r5_w5::<A, B, C, D, E, G, H, I, J, K>(), world) && exists|a: &A, b: &B, c: &C, d: &D, e: &E, g: &mut G, h: &mut H, i: &mut I, j: &mut J, k: &mut K|
        call_ensures(*function, (a, b, c, d, e, g, h, i, j, k), result)
}

impl<A, B, C, D, E, G, H, I, J, K, F> IntoSystem<(&A, &B, &C, &D, &E, &mut G, &mut H, &mut I, &mut J, &mut K)> for F where
    A: Default + Resource,
    B: Default + Resource,
    C: Default + Resource,
    D: Default + Resource,
    E: Default + Resource,
    G: Default + Resource,
    H: Default + Resource,
    I: Default + Resource,
    J: Default + Resource,
    K: Default + Resource,
    F: Fn(&A, &B, &C, &D, &E, &mut G, &mut H, &mut I, &mut J, &mut K) -> SystemResult + Send + 'static,
 {
    open spec fn accepts_all(&self) -> bool {
        forall|a: &A, b: &B, c: &C, d: &D, e: &E, g: &mut G, h: &mut H, i: &mut I, j: &mut J, k: &mut K|
            call_requires(*self, (a, b, c, d, e, g, h, i, j, k))
    }

    open spec fn needs() -> Seq<Lease> {
        needs_r5_w5::<A, B, C, D, E, G, H, I, J, K>()
    }

    open spec fn runs(&self, world: &World, result: SystemResult) -> bool {
        runs_r5_w5::<A, B, C, D, E, G, H, I, J, K, F>(self, world, result)
    }

    fn system(self) -> (system: System) {
        let mut needs: Vec<Requirement> = Vec::new();
        needs.push(Requirement::read::<A>());
        needs.push(Requirement::read::<B>());
        needs.push(Requirement::read::<C>());
        needs.push(Requirement::read::<D>());
        needs.push(Requirement::read::<E>());
        needs.push(Requirement::write::<G>());
        needs.push(Requirement::write::<H>());
        needs.push(Requirement::write::<I>());
        needs.push(Requirement::write::<J>());
        needs.push(Requirement::write::<K>());
        let run = move |world: &World| -> (result: SystemResult)
            ensures
                runs_r5_w5::<A, B, C, D, E, G, H, I, J, K, F>(&self, world, result),
            {
                let a = match world.get::<A>() {
                    Ok(guard) => guard,
                    Err(error) => {
                        let result = Err(error);
                        assert(stops_at(needs_r5_w5::<A, B, C, D, E, G, H, I, J, K>(), world, result, 0));
                        return result;
                    },
                };
                let b = match world.get::<B>() {
                    Ok(guard) => guard,
                    Err(error) => {
                        let result = Err(error);
                        assert(stops_at(needs_r5_w5::<A, B, C, D, E, G, H, I, J, K>(), world, result, 1));
                        return result;
                    },
                };
                let c = match world.get::<C>() {
                    Ok(guard) => guard,
                    Err(error) => {
                        let result = Err(error);
                        assert(stops_at(needs_r5_w5::<A, B, C, D, E, G, H, I, J, K>(), world, result, 2));
                        return result;
                    },
                };
                let d = match world.get::<D>() {
                    Ok(guard) => guard,
                    Err(error) => {
                        let result = Err(error);
                        assert(stops_at(needs_r5_w5::<A, B, C, D, E, G, H, I, J, K>(), world, result, 3));
                        return result;
                    },
                };
                let e = match world.get::<E>() {
                    Ok(guard) => guard,
                    Err(error) => {
                        let result = Err(error);
                        assert(stops_at(needs_r5_w5::<A, B, C, D, E, G, H, I, J, K>(), world, result, 4));
                        return result;
                    },
                };
                let mut g = match world.get_mut::<G>() {
                    Ok(guard) => guard,
                    Err(error) => {
                        let result = Err(error);
                        assert(stops_at(needs_r5_w5::<A, B, C, D, E, G, H, I, J, K>(), world, result, 5));
                        return result;
                    },
                };
                let mut h = match world.get_mut::<H>() {
                    Ok(guard) => guard,
                    Err(error) => {
                        let result = Err(error);
                        assert(stops_at(needs_r5_w5::<A, B, C, D, E, G, H, I, J, K>(), world, result, 6));
                        return result;
                    },
                };
                let mut i = match world.get_mut::<I>() {
                    Ok(guard) => guard,
                    Err(error) => {
                        let result = Err(error);
                        assert(stops_at(needs_r5_w5::<A, B, C, D, E, G, H, I, J, K>(), world, result, 7));
                        return result;
                    },
                };
                let mut j = match world.get_mut::<J>() {
                    Ok(guard) => guard,
                    Err(error) => {
                        let result = Err(error);
                        assert(stops_at(needs_r5_w5::<A, B, C, D, E, G, H, I, J, K>(), world, result, 8));
                        return result;
                    },
                };
                let mut k = match world.get_mut::<K>() {
                    Ok(guard) => guard,
                    Err(error) => {
                        let result = Err(error);
                        assert(stops_at(needs_r5_w5::<A, B, C, D, E, G, H, I, J, K>(), world, result, 9));
                        return result;
                    },
                };
                self(
                    a.deref(),
                    b.deref(),
                    c.deref(),
                    d.deref(),
                    e.deref(),
                    g.deref_mut(),
                    h.deref_mut(),
                    i.deref_mut(),
                    j.deref_mut(),
                    k.deref_mut(),
                )
            };
        System::new(needs, run)
    }
}

/// The borrows that four shared references and then six mutable references stand for.
pub open spec fn needs_r4_w6<A: 'static, B: 'static, C: 'static, D: 'static, E: 'static, G: 'static, H: 'static, I: 'static, J: 'static, K: 'static>() -> Seq<Lease> {
    seq![
        reading::<A>(),
        reading::<B>(),
        reading::<C>(),
        reading::<D>(),
        writing::<E>(),
        writing::<G>(),
        writing::<H>(),
        writing::<I>(),
        writing::<J>(),
        writing::<K>(),
    ]
}

/// Whether running `function` on the resources of `world` can end with
/// `result`: before the call, at the first resource that is missing or
/// refuses the borrow, or with the result of the call.
pub open spec fn runs_r4_w6<A: 'static, B: 'static, C: 'static, D: 'static, E: 'static, G: 'static, H: 'static, I: 'static, J: 'static, K: 'static, F>(
    function: &F,
    world: &World,
    result: SystemResult,
) -> bool where F: Fn(&A, &B, &C, &D, &mut E, &mut G, &mut H, &mut I, &mut J, &mut K) -> SystemResult {
    ||| stops_early(needs_r4_w6::<A, B, C, D, E, G, H, I, J, K>(), world, result)
    ||| holds_all(needs_r4_w6::<A, B, C, D, E, G, H, I, J, K>(), world) && exists|a: &A, b: &B, c: &C, d: &D, e: &mut E, g: &mut G, h: &mut H, i: &mut I, j: &mut J, k: &mut K|
        call_ensures(*function, (a, b, c, d, e, g, h, i, j, k), result)
}

impl<A, B, C, D, E, G, H, I, J, K, F> IntoSystem<(&A, &B, &C, &D, &mut E, &mut G, &mut H, &mut I, &mut J, &mut K)> for F where
    A: Default + Resource,
    B: Default + Resource,
    C: Default + Resource,
    D: Default + Resource,
    E: Default + Resource,
    G: Default + Resource,
    H: Default + Resource,
    I: Default + Resource,
    J: Default + Resource,
    K: Default + Resource,
    F: Fn(&A, &B, &C, &D, &mut E, &mut G, &mut H, &mut I, &mut J, &mut K) -> SystemResult + Send + 'static,
 {
    open spec fn accepts_all(&self) -> bool {
        forall|a: &A, b: &B, c: &C, d: &D, e: &mut E, g: &mut G, h: &mut H, i: &mut I, j: &mut J, k: &mut K|
            call_requires(*self, (a, b, c, d, e, g, h, i, j, k))
    }

    open spec fn needs() -> Seq<Lease> {
        needs_r4_w6::<A, B, C, D, E, G, H, I, J, K>()
    }

    open spec fn runs(&self, world: &World, result: SystemResult) -> bool {
        runs_r4_w6::<A, B, C, D, E, G, H, I, J, K, F>(self, world, result)
    }

    fn system(self) -> (system: System) {
        let mut needs: Vec<Requirement> = Vec::new();
        needs.push(Requirement::read::<A>());
        needs.push(Requirement::read::<B>());
        needs.push(Requirement::read::<C>());
        needs.push(Requirement::read::<D>());
        needs.push(Requirement::write::<E>());
        needs.push(Requirement::write::<G>());
        needs.push(Requirement::write::<H>());
        needs.push(Requirement::write::<I>());
        needs.push(Requirement::write::<J>());
        needs.push(Requirement::write::<K>());
        let run = move |world: &World| -> (result: SystemResult)
            ensures
                runs_r4_w6::<A, B, C, D, E, G, H, I, J, K, F>(&self, world, result),
            {
                let a = match world.get::<A>() {
                    Ok(guard) => guard,
                    Err(error) => {
                        let result = Err(error);
                        assert(stops_at(needs_r4_w6::<A, B, C, D, E, G, H, I, J, K>(), world, result, 0));
                        return result;
                    },
                };
                let b = match world.get::<B>() {
                    Ok(guard) => guard,
                    Err(error) => {
                        let result = Err(error);
                        assert(stops_at(needs_r4_w6::<A, B, C, D, E, G, H, I, J, K>(), world, result, 1));
                        return result;
                    },
                };
                let c = match world.get::<C>() {
                    Ok(guard) => guard,
                    Err(error) => {
                        let result = Err(error);
                        assert(stops_at(needs_r4_w6::<A, B, C, D, E, G, H, I, J, K>(), world, result, 2));
                        return result;
                    },
                };
                let d = match world.get::<D>() {
                    Ok(guard) => guard,
                    Err(error) => {
                        let result = Err(error);
                        assert(stops_at(needs_r4_w6::<A, B, C, D, E, G, H, I, J, K>(), world, result, 3));
                        return result;
                    },
                };
                let mut e = match world.get_mut::<E>() {
                    Ok(guard) => guard,
                    Err(error) => {
                        let result = Err(error);
                        assert(stops_at(needs_r4_w6::<A, B, C, D, E, G, H, I, J, K>(), world, result, 4));
                        return result;
                    },
                };
                let mut g = match world.get_mut::<G>() {
                    Ok(guard) => guard,
                    Err(error) => {
                        let result = Err(error);
                        assert(stops_at(needs_r4_w6::<A, B, C, D, E, G, H, I, J, K>(), world, result, 5));
                        return result;
                    },
                };
                let mut h = match world.get_mut::<H>() {
                    Ok(guard) => guard,
                    Err(error) => {
                        let result = Err(error);
                        assert(stops_at(needs_r4_w6::<A, B, C, D, E, G, H, I, J, K>(), world, result, 6));
                        return result;
                    },
                };
                let mut i = match world.get_mut::<I>() {
                    Ok(guard) => guard,
                    Err(error) => {
                        let result = Err(error);
                        assert(stops_at(needs_r4_w6::<A, B, C, D, E, G, H, I, J, K>(), world, result, 7));
                        return result;
                    },
                };
                let mut j = match world.get_mut::<J>() {
                    Ok(guard) => guard,
                    Err(error) => {
                        let result = Err(error);
                        assert(stops_at(needs_r4_w6::<A, B, C, D, E, G, H, I, J, K>(), world, result, 8));
                        return result;
                    },
                };
                let mut k = match world.get_mut::<K>() {
                    Ok(guard) => guard,
                    Err(error) => {
                        let result = Err(error);
                        assert(stops_at(needs_r4_w6::<A, B, C, D, E, G, H, I, J, K>(), world, result, 9));
                        return result;
                    },
                };
                self(
                    a.deref(),
                    b.deref(),
                    c.deref(),
                    d.deref(),
                    e.deref_mut(),
                    g.deref_mut(),
                    h.deref_mut(),
                    i.deref_mut(),
                    j.deref_mut(),
                    k.deref_mut(),
                )
            };
        System::new(needs, run)
    }
}

/// The borrows that three shared references and then seven mutable references stand for.
pub open spec fn needs_r3_w7<A: 'static, B: 'static, C: 'static, D: 'static, E: 'static, G: 'static, H: 'static, I: 'static, J: 'static, K: 'static>() -> Seq<Lease> {
    seq![
        reading::<A>(),
        reading::<B>(),
        reading::<C>(),
        writing::<D>(),
        writing::<E>(),
        writing::<G>(),
        writing::<H>(),
        writing::<I>(),
        writing::<J>(),
        writing::<K>(),
    ]
}

/// Whether running `function` on the resources of `world` can end with
/// `result`: before the call, at the first resource that is missing or
/// refuses the borrow, or with the result of the call.
pub open spec fn runs_r3_w7<A: 'static, B: 'static, C: 'static, D: 'static, E: 'static, G: 'static, H: 'static, I: 'static, J: 'static, K: 'static, F>(
    function: &F,
    world: &World,
    result: SystemResult,
) -> bool where F: Fn(&A, &B, &C, &mut D, &mut E, &mut G, &mut H, &mut I, &mut J, &mut K) -> SystemResult {
    ||| stops_early(needs_r3_w7::<A, B, C, D, E, G, H, I, J, K>(), world, result)
    ||| holds_all(needs_r3_w7::<A, B, C, D, E, G, H, I, J, K>(), world) && exists|a: &A, b: &B, c: &C, d: &mut D, e: &mut E, g: &mut G, h: &mut H, i: &mut I, j: &mut J, k: &mut K|
        call_ensures(*function, (a, b, c, d, e, g, h, i, j, k), result)
}

impl<A, B, C, D, E, G, H, I, J, K, F> IntoSystem<(&A, &B, &C, &mut D, &mut E, &mut G, &mut H, &mut I, &mut J, &mut K)> for F where
    A: Default + Resource,
    B: Default + Resource,
    C: Default + Resource,
    D: Default + Resource,
    E: Default + Resource,
    G: Default + Resource,
    H: Default + Resource,
    I: Default + Resource,
    J: Default + Resource,
    K: Default + Resource,
    F: Fn(&A, &B, &C, &mut D, &mut E, &mut G, &mut H, &mut I, &mut J, &mut K) -> SystemResult + Send + 'static,
 {
    open spec fn accepts_all(&self) -> bool {
        forall|a: &A, b: &B, c: &C, d: &mut D, e: &mut E, g: &mut G, h: &mut H, i: &mut I, j: &mut J, k: &mut K|
            call_requires(*self, (a, b, c, d, e, g, h, i, j, k))
    }

    open spec fn needs() -> Seq<Lease> {
        needs_r3_w7::<A, B, C, D, E, G, H, I, J, K>()
    }

    open spec fn runs(&self, world: &World, result: SystemResult) -> bool {
        runs_r3_w7::<A, B, C, D, E, G, H, I, J, K, F>(self, world, result)
    }

    fn system(self) -> (system: System) {
        let mut needs: Vec<Requirement> = Vec::new();
        needs.push(Requirement::read::<A>());
        needs.push(Requirement::read::<B>());
        needs.push(Requirement::read::<C>());
        needs.push(Requirement::write::<D>());
        needs.push(Requirement::write::<E>());
        needs.push(Requirement::write::<G>());
        needs.push(Requirement::write::<H>());
        needs.push(Requirement::write::<I>());
        needs.push(Requirement::write::<J>());
        needs.push(Requirement::write::<K>());
        let run = move |world: &World| -> (result: SystemResult)
            ensures
                runs_r3_w7::<A, B, C, D, E, G, H, I, J, K, F>(&self, world, result),
            {
                let a = match world.get::<A>() {
                    Ok(guard) => guard,
                    Err(error) => {
                        let result = Err(error);
                        assert(stops_at(needs_r3_w7::<A, B, C, D, E, G, H, I, J, K>(), world, result, 0));
                        return result;
                    },
                };
                let b = match world.get::<B>() {
                    Ok(guard) => guard,
                    Err(error) => {
                        let result = Err(error);
                        assert(stops_at(needs_r3_w7::<A, B, C, D, E, G, H, I, J, K>(), world, result, 1));
                        return result;
                    },
                };
                let c = match world.get::<C>() {
                    Ok(guard) => guard,
                    Err(error) => {
                        let result = Err(error);
                        assert(stops_at(needs_r3_w7::<A, B, C, D, E, G, H, I, J, K>(), world, result, 2));
                        return result;
                    },
                };
                let mut d = match world.get_mut::<D>() {
                    Ok(guard) => guard,
                    Err(error) => {
                        let result = Err(error);
                        assert(stops_at(needs_r3_w7::<A, B, C, D, E, G, H, I, J, K>(), world, result, 3));
                        return result;
                    },
                };
                let mut e = match world.get_mut::<E>() {
                    Ok(guard) => guard,
                    Err(error) => {
                        let result = Err(error);
                        assert(stops_at(needs_r3_w7::<A, B, C, D, E, G, H, I, J, K>(), world, result, 4));
                        return result;
                    },
                };
                let mut g = match world.get_mut::<G>() {
                    Ok(guard) => guard,
                    Err(error) => {
                        let result = Err(error);
                        assert(stops_at(needs_r3_w7::<A, B, C, D, E, G, H, I, J, K>(), world, result, 5));
                        return result;
                    },
                };
                let mut h = match world.get_mut::<H>() {
                    Ok(guard) => guard,
                    Err(error) => {
                        let result = Err(error);
                        assert(stops_at(needs_r3_w7::<A, B, C, D, E, G, H, I, J, K>(), world, result, 6));
                        return result;
                    },
                };
                let mut i = match world.get_mut::<I>() {
                    Ok(guard) => guard,
                    Err(error) => {
                        let result = Err(error);
                        assert(stops_at(needs_r3_w7::<A, B, C, D, E, G, H, I, J, K>(), world, result, 7));
                        return result;
                    },
                };
                let mut j = match world.get_mut::<J>() {
                    Ok(guard) => guard,
                    Err(error) => {
                        let result = Err(error);
                        assert(stops_at(needs_r3_w7::<A, B, C, D, E, G, H, I, J, K>(), world, result, 8));
                        return result;
                    },
                };
                let mut k = match world.get_mut::<K>() {
                    Ok(guard) => guard,
                    Err(error) => {
                        let result = Err(error);
                        assert(stops_at(needs_r3_w7::<A, B, C, D, E, G, H, I, J, K>(), world, result, 9));
                        return result;
                    },
                };
                self(
                    a.deref(),
                    b.deref(),
                    c.deref(),
                    d.deref_mut(),
                    e.deref_mut(),
                    g.deref_mut(),
                    h.deref_mut(),
                    i.deref_mut(),
                    j.deref_mut(),
                    k.deref_mut(),
                )
            };
        System::new(needs, run)
    }
}

/// The borrows that two shared references and then eight mutable references stand for.
pub open spec fn needs_r2_w8<A: 'static, B: 'static, C: 'static, D: 'static, E: 'static, G: 'static, H: 'static, I: 'static, J: 'static, K: 'static>() -> Seq<Lease> {
    seq![
        reading::<A>(),
        reading::<B>(),
        writing::<C>(),
        writing::<D>(),
        writing::<E>(),
        writing::<G>(),
        writing::<H>(),
        writing::<I>(),
        writing::<J>(),
        writing::<K>(),
    ]
}

/// Whether running `function` on the resources of `world` can end with
/// `result`: before the call, at the first resource that is missing or
/// refuses the borrow, or with the result of the call.
pub open spec fn runs_r2_w8<A: 'static, B: 'static, C: 'static, D: 'static, E: 'static, G: 'static, H: 'static, I: 'static, J: 'static, K: 'static, F>(
    function: &F,
    world: &World,
    result: SystemResult,
) -> bool where F: Fn(&A, &B, &mut C, &mut D, &mut E, &mut G, &mut H, &mut I, &mut J, &mut K) -> SystemResult {
    ||| stops_early(needs_r2_w8::<A, B, C, D, E, G, H, I, J, K>(), world, result)
    ||| holds_all(needs_r2_w8::<A, B, C, D, E, G, H, I, J, K>(), world) && exists|a: &A, b: &B, c: &mut C, d: &mut D, e: &mut E, g: &mut G, h: &mut H, i: &mut I, j: &mut J, k: &mut K|
        call_ensures(*function, (a, b, c, d, e, g, h, i, j, k), result)
}

impl<A, B, C, D, E, G, H, I, J, K, F> IntoSystem<(&A, &B, &mut C, &mut D, &mut E, &mut G, &mut H, &mut I, &mut J, &mut K)> for F where
    A: Default + Resource,
    B: Default + Resource,
    C: Default + Resource,
    D: Default + Resource,
    E: Default + Resource,
    G: Default + Resource,
    H: Default + Resource,
    I: Default + Resource,
    J: Default + Resource,
    K: Default + Resource,
    F: Fn(&A, &B, &mut C, &mut D, &mut E, &mut G, &mut H, &mut I, &mut J, &mut K) -> SystemResult + Send + 'static,
 {
    open spec fn accepts_all(&self) -> bool {
        forall|a: &A, b: &B, c: &mut C, d: &mut D, e: &mut E, g: &mut G, h: &mut H, i: &mut I, j: &mut J, k: &mut K|
            call_requires(*self, (a, b, c, d, e, g, h, i, j, k))
    }

    open spec fn needs() -> Seq<Lease> {
        needs_r2_w8::<A, B, C, D, E, G, H, I, J, K>()
    }

    open spec fn runs(&self, world: &World, result: SystemResult) -> bool {
        runs_r2_w8::<A, B, C, D, E, G, H, I, J, K, F>(self, world, result)
    }

    fn system(self) -> (system: System) {
        let mut needs: Vec<Requirement> = Vec::new();
        needs.push(Requirement::read::<A>());
        needs.push(Requirement::read::<B>());
        needs.push(Requirement::write::<C>());
        needs.push(Requirement::write::<D>());
        needs.push(Requirement::write::<E>());
        needs.push(Requirement::write::<G>());
        needs.push(Requirement::write::<H>());
        needs.push(Requirement::write::<I>());
        needs.push(Requirement::write::<J>());
        needs.push(Requirement::write::<K>());
        let run = move |world: &World| -> (result: SystemResult)
            ensures
                runs_r2_w8::<A, B, C, D, E, G, H, I, J, K, F>(&self, world, result),
            {
                let a = match world.get::<A>() {
                    Ok(guard) => guard,
                    Err(error) => {
                        let result = Err(error);
                        assert(stops_at(needs_r2_w8::<A, B, C, D, E, G, H, I, J, K>(), world, result, 0));
                        return result;
                    },
                };
                let b = match world.get::<B>() {
                    Ok(guard) => guard,
                    Err(error) => {
                        let result = Err(error);
                        assert(stops_at(needs_r2_w8::<A, B, C, D, E, G, H, I, J, K>(), world, result, 1));
                        return result;
                    },
                };
                let mut c = match world.get_mut::<C>() {
                    Ok(guard) => guard,
                    Err(error) => {
                        let result = Err(error);
                        assert(stops_at(needs_r2_w8::<A, B, C, D, E, G, H, I, J, K>(), world, result, 2));
                        return result;
                    },
                };
                let mut d = match world.get_mut::<D>() {
                    Ok(guard) => guard,
                    Err(error) => {
                        let result = Err(error);
                        assert(stops_at(needs_r2_w8::<A, B, C, D, E, G, H, I, J, K>(), world, result, 3));
                        return result;
                    },
                };
                let mut e = match world.get_mut::<E>() {
                    Ok(guard) => guard,
                    Err(error) => {
                        let result = Err(error);
                        assert(stops_at(needs_r2_w8::<A, B, C, D, E, G, H, I, J, K>(), world, result, 4));
                        return result;
                    },
                };
                let mut g = match world.get_mut::<G>() {
                    Ok(guard) => guard,
                    Err(error) => {
                        let result = Err(error);
                        assert(stops_at(needs_r2_w8::<A, B, C, D, E, G, H, I, J, K>(), world, result, 5));
                        return result;
                    },
                };
                let mut h = match world.get_mut::<H>() {
                    Ok(guard) => guard,
                    Err(error) => {
                        let result = Err(error);
                        assert(stops_at(needs_r2_w8::<A, B, C, D, E, G, H, I, J, K>(), world, result, 6));
                        return result;
                    },
                };
                let mut i = match world.get_mut::<I>() {
                    Ok(guard) => guard,
                    Err(error) => {
                        let result = Err(error);
                        assert(stops_at(needs_r2_w8::<A, B, C, D, E, G, H, I, J, K>(), world, result, 7));
                        return result;
                    },
                };
                let mut j = match world.get_mut::<J>() {
                    Ok(guard) => guard,
                    Err(error) => {
                        let result = Err(error);
                        assert(stops_at(needs_r2_w8::<A, B, C, D, E, G, H, I, J, K>(), world, result, 8));
                        return result;
                    },
                };
                let mut k = match world.get_mut::<K>() {
                    Ok(guard) => guard,
                    Err(error) => {
                        let result = Err(error);
                        assert(stops_at(needs_r2_w8::<A, B, C, D, E, G, H, I, J, K>(), world, result, 9));
                        return result;
                    },
                };
                self(
                    a.deref(),
                    b.deref(),
                    c.deref_mut(),
                    d.deref_mut(),
                    e.deref_mut(),
                    g.deref_mut(),
                    h.deref_mut(),
                    i.deref_mut(),
                    j.deref_mut(),
                    k.deref_mut(),
                )
            };
        System::new(needs, run)
    }
}

/// The borrows that one shared reference and then nine mutable references stand for.
pub open spec fn needs_r1_w9<A: 'static, B: 'static, C: 'static, D: 'static, E: 'static, G: 'static, H: 'static, I: 'static, J: 'static, K: 'static>() -> Seq<Lease> {
    seq![
        reading::<A>(),
        writing::<B>(),
        writing::<C>(),
        writing::<D>(),
        writing::<E>(),
        writing::<G>(),
        writing::<H>(),
        writing::<I>(),
        writing::<J>(),
        writing::<K>(),
    ]
}

/// Whether running `function` on the resources of `world` can end with
/// `result`: before the call, at the first resource that is missing or
/// refuses the borrow, or with the result of the call.
pub open spec fn runs_r1_w9<A: 'static, B: 'static, C: 'static, D: 'static, E: 'static, G: 'static, H: 'static, I: 'static, J: 'static, K: 'static, F>(
    function: &F,
    world: &World,
    result: SystemResult,
) -> bool where F: Fn(&A, &mut B, &mut C, &mut D, &mut E, &mut G, &mut H, &mut I, &mut J, &mut K) -> SystemResult {
    ||| stops_early(needs_r1_w9::<A, B, C, D, E, G, H, I, J, K>(), world, result)
    ||| holds_all(needs_r1_w9::<A, B, C, D, E, G, H, I, J, K>(), world) && exists|a: &A, b: &mut B, c: &mut C, d: &mut D, e: &mut E, g: &mut G, h: &mut H, i: &mut I, j: &mut J, k: &mut K|
        call_ensures(*function, (a, b, c, d, e, g, h, i, j, k), result)
}

impl<A, B, C, D, E, G, H, I, J, K, F> IntoSystem<(&A, &mut B, &mut C, &mut D, &mut E, &mut G, &mut H, &mut I, &mut J, &mut K)> for F where
    A: Default + Resource,
    B: Default + Resource,
    C: Default + Resource,
    D: Default + Resource,
    E: Default + Resource,
    G: Default + Resource,
    H: Default + Resource,
    I: Default + Resource,
    J: Default + Resource,
    K: Default + Resource,
    F: Fn(&A, &mut B, &mut C, &mut D, &mut E, &mut G, &mut H, &mut I, &mut J, &mut K) -> SystemResult + Send + 'static,
 {
    open spec fn accepts_all(&self) -> bool {
        forall|a: &A, b: &mut B, c: &mut C, d: &mut D, e: &mut E, g: &mut G, h: &mut H, i: &mut I, j: &mut J, k: &mut K|
            call_requires(*self, (a, b, c, d, e, g, h, i, j, k))
    }

    open spec fn needs() -> Seq<Lease> {
        needs_r1_w9::<A, B, C, D, E, G, H, I, J, K>()
    }

    open spec fn runs(&self, world: &World, result: SystemResult) -> bool {
        runs_r1_w9::<A, B, C, D, E, G, H, I, J, K, F>(self, world, result)
    }

    fn system(self) -> (system: System) {
        let mut needs: Vec<Requirement> = Vec::new();
        needs.push(Requirement::read::<A>());
        needs.push(Requirement::write::<B>());
        needs.push(Requirement::write::<C>());
        needs.push(Requirement::write::<D>());
        needs.push(Requirement::write::<E>());
        needs.push(Requirement::write::<G>());
        needs.push(Requirement::write::<H>());
        needs.push(Requirement::write::<I>());
        needs.push(Requirement::write::<J>());
        needs.push(Requirement::write::<K>());
        let run = move |world: &World| -> (result: SystemResult)
            ensures
                runs_r1_w9::<A, B, C, D, E, G, H, I, J, K, F>(&self, world, result),
            {
                let a = match world.get::<A>() {
                    Ok(guard) => guard,
                    Err(error) => {
                        let result = Err(error);
                        assert(stops_at(needs_r1_w9::<A, B, C, D, E, G, H, I, J, K>(), world, result, 0));
                        return result;
                    },
                };
                let mut b = match world.get_mut::<B>() {
                    Ok(guard) => guard,
                    Err(error) => {
                        let result = Err(error);
                        assert(stops_at(needs_r1_w9::<A, B, C, D, E, G, H, I, J, K>(), world, result, 1));
                        return result;
                    },
                };
                let mut c = match world.get_mut::<C>() {
                    Ok(guard) => guard,
                    Err(error) => {
                        let result = Err(error);
                        assert(stops_at(needs_r1_w9::<A, B, C, D, E, G, H, I, J, K>(), world, result, 2));
                        return result;
                    },
                };
                let mut d = match world.get_mut::<D>() {
                    Ok(guard) => guard,
                    Err(error) => {
                        let result = Err(error);
                        assert(stops_at(needs_r1_w9::<A, B, C, D, E, G, H, I, J, K>(), world, result, 3));
                        return result;
                    },
                };
                let mut e = match world.get_mut::<E>() {
                    Ok(guard) => guard,
                    Err(error) => {
                        let result = Err(error);
                        assert(stops_at(needs_r1_w9::<A, B, C, D, E, G, H, I, J, K>(), world, result, 4));
                        return result;
                    },
                };
                let mut g = match world.get_mut::<G>() {
                    Ok(guard) => guard,
                    Err(error) => {
                        let result = Err(error);
                        assert(stops_at(needs_r1_w9::<A, B, C, D, E, G, H, I, J, K>(), world, result, 5));
                        return result;
                    },
                };
                let mut h = match world.get_mut::<H>() {
                    Ok(guard) => guard,
                    Err(error) => {
                        let result = Err(error);
                        assert(stops_at(needs_r1_w9::<A, B, C, D, E, G, H, I, J, K>(), world, result, 6));
                        return result;
                    },
                };
                let mut i = match world.get_mut::<I>() {
                    Ok(guard) => guard,
                    Err(error) => {
                        let result = Err(error);
                        assert(stops_at(needs_r1_w9::<A, B, C, D, E, G, H, I, J, K>(), world, result, 7));
                        return result;
                    },
                };
                let mut j = match world.get_mut::<J>() {
                    Ok(guard) => guard,
                    Err(error) => {
                        let result = Err(error);
                        assert(stops_at(needs_r1_w9::<A, B, C, D, E, G, H, I, J, K>(), world, result, 8));
                        return result;
                    },
                };
                let mut k = match world.get_mut::<K>() {
                    Ok(guard) => guard,
                    Err(error) => {
                        let result = Err(error);
                        assert(stops_at(needs_r1_w9::<A, B, C, D, E, G, H, I, J, K>(), world, result, 9));
                        return result;
                    },
                };
                self(
                    a.deref(),
                    b.deref_mut(),
                    c.deref_mut(),
                    d.deref_mut(),
                    e.deref_mut(),
                    g.deref_mut(),
                    h.deref_mut(),
                    i.deref_mut(),
                    j.deref_mut(),
                    k.deref_mut(),
                )
            };
        System::new(needs, run)
    }
}

/// The borrows that ten mutable references stand for.
pub open spec fn needs_r0_w10<A: 'static, B: 'static, C: 'static, D: 'static, E: 'static, G: 'static, H: 'static, I: 'static, J: 'static, K: 'static>() -> Seq<Lease> {
    seq![
        writing::<A>(),
        writing::<B>(),
        writing::<C>(),
        writing::<D>(),
        writing::<E>(),
        writing::<G>(),
        writing::<H>(),
        writing::<I>(),
        writing::<J>(),
        writing::<K>(),
    ]
}

/// Whether running `function` on the resources of `world` can end with
/// `result`: before the call, at the first resource that is missing or
/// refuses the borrow, or with the result of the call.
pub open spec fn runs_r0_w10<A: 'static, B: 'static, C: 'static, D: 'static, E: 'static, G: 'static, H: 'static, I: 'static, J: 'static, K: 'static, F>(
    function: &F,
    world: &World,
    result: SystemResult,
) -> bool where F: Fn(&mut A, &mut B, &mut C, &mut D, &mut E, &mut G, &mut H, &mut I, &mut J, &mut K) -> SystemResult {
    ||| stops_early(needs_r0_w10::<A, B, C, D, E, G, H, I, J, K>(), world, result)
    ||| holds_all(needs_r0_w10::<A, B, C, D, E, G, H, I, J, K>(), world) && exists|a: &mut A, b: &mut B, c: &mut C, d: &mut D, e: &mut E, g: &mut G, h: &mut H, i: &mut I, j: &mut J, k: &mut K|
        call_ensures(*function, (a, b, c, d, e, g, h, i, j, k), result)
}

impl<A, B, C, D, E, G, H, I, J, K, F> IntoSystem<(&mut A, &mut B, &mut C, &mut D, &mut E, &mut G, &mut H, &mut I, &mut J, &mut K)> for F where
    A: Default + Resource,
    B: Default + Resource,
    C: Default + Resource,
    D: Default + Resource,
    E: Default + Resource,
    G: Default + Resource,
    H: Default + Resource,
    I: Default + Resource,
    J: Default + Resource,
    K: Default + Resource,
    F: Fn(&mut A, &mut B, &mut C, &mut D, &mut E, &mut G, &mut H, &mut I, &mut J, &mut K) -> SystemResult + Send + 'static,
 {
    open spec fn accepts_all(&self) -> bool {
        forall|a: &mut A, b: &mut B, c: &mut C, d: &mut D, e: &mut E, g: &mut G, h: &mut H, i: &mut I, j: &mut J, k: &mut K|
            call_requires(*self, (a, b, c, d, e, g, h, i, j, k))
    }

    open spec fn needs() -> Seq<Lease> {
        needs_r0_w10::<A, B, C, D, E, G, H, I, J, K>()
    }

    open spec fn runs(&self, world: &World, result: SystemResult) -> bool {
        runs_r0_w10::<A, B, C, D, E, G, H, I, J, K, F>(self, world, result)
    }

    fn system(self) -> (system: System) {
        let mut needs: Vec<Requirement> = Vec::new();
        needs.push(Requirement::write::<A>());
        needs.push(Requirement::write::<B>());
        needs.push(Requirement::write::<C>());
        needs.push(Requirement::write::<D>());
        needs.push(Requirement::write::<E>());
        needs.push(Requirement::write::<G>());
        needs.push(Requirement::write::<H>());
        needs.push(Requirement::write::<I>());
        needs.push(Requirement::write::<J>());
        needs.push(Requirement::write::<K>());
        let run = move |world: &World| -> (result: SystemResult)
            ensures
                runs_r0_w10::<A, B, C, D, E, G, H, I, J, K, F>(&self, world, result),
            {
                let mut a = match world.get_mut::<A>() {
                    Ok(guard) => guard,
                    Err(error) => {
                        let result = Err(error);
                        assert(stops_at(needs_r0_w10::<A, B, C, D, E, G, H, I, J, K>(), world, result, 0));
                        return result;
                    },
                };
                let mut b = match world.get_mut::<B>() {
                    Ok(guard) => guard,
                    Err(error) => {
                        let result = Err(error);
                        assert(stops_at(needs_r0_w10::<A, B, C, D, E, G, H, I, J, K>(), world, result, 1));
                        return result;
                    },
                };
                let mut c = match world.get_mut::<C>() {
                    Ok(guard) => guard,
                    Err(error) => {
                        let result = Err(error);
                        assert(stops_at(needs_r0_w10::<A, B, C, D, E, G, H, I, J, K>(), world, result, 2));
                        return result;
                    },
                };
                let mut d = match world.get_mut::<D>() {
                    Ok(guard) => guard,
                    Err(error) => {
                        let result = Err(error);
                        assert(stops_at(needs_r0_w10::<A, B, C, D, E, G, H, I, J, K>(), world, result, 3));
                        return result;
                    },
                };
                let mut e = match world.get_mut::<E>() {
                    Ok(guard) => guard,
                    Err(error) => {
                        let result = Err(error);
                        assert(stops_at(needs_r0_w10::<A, B, C, D, E, G, H, I, J, K>(), world, result, 4));
                        return result;
                    },
                };
                let mut g = match world.get_mut::<G>() {
                    Ok(guard) => guard,
                    Err(error) => {
                        let result = Err(error);
                        assert(stops_at(needs_r0_w10::<A, B, C, D, E, G, H, I, J, K>(), world, result, 5));
                        return result;
                    },
                };
                let mut h = match world.get_mut::<H>() {
                    Ok(guard) => guard,
                    Err(error) => {
                        let result = Err(error);
                        assert(stops_at(needs_r0_w10::<A, B, C, D, E, G, H, I, J, K>(), world, result, 6));
                        return result;
                    },
                };
                let mut i = match world.get_mut::<I>() {
                    Ok(guard) => guard,
                    Err(error) => {
                        let result = Err(error);
                        assert(stops_at(needs_r0_w10::<A, B, C, D, E, G, H, I, J, K>(), world, result, 7));
                        return result;
                    },
                };
                let mut j = match world.get_mut::<J>() {
                    Ok(guard) => guard,
                    Err(error) => {
                        let result = Err(error);
                        assert(stops_at(needs_r0_w10::<A, B, C, D, E, G, H, I, J, K>(), world, result, 8));
                        return result;
                    },
                };
                let mut k = match world.get_mut::<K>() {
                    Ok(guard) => guard,
                    Err(error) => {
                        let result = Err(error);
                        assert(stops_at(needs_r0_w10::<A, B, C, D, E, G, H, I, J, K>(), world, result, 9));
                        return result;
                    },
                };
                self(
                    a.deref_mut(),
                    b.deref_mut(),
                    c.deref_mut(),
                    d.deref_mut(),
                    e.deref_mut(),
                    g.deref_mut(),
                    h.deref_mut(),
                    i.deref_mut(),
                    j.deref_mut(),
                    k.deref_mut(),
                )
            };
        System::new(needs, run)
    }
}

} // verus!
