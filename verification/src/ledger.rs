//! Borrow tokens: a record of the leases that are held at one moment, with
//! the rule that decides whether one more lease may be granted.

use crate::error::EcsError;
use crate::typeid::same_key;
use std::any::TypeId;
use vstd::prelude::*;

verus! {

/// How a resource is borrowed.
#[derive(Clone, Copy, Debug, PartialEq, Eq, Structural)]
pub enum Access {
    /// Shared: any number of readers at once.
    Read,
    /// Exclusive: one writer and nobody else.
    Write,
}

/// One borrow of one resource.
#[derive(Clone, Copy, Debug)]
pub struct Lease {
    /// The type of the borrowed resource.
    pub key: TypeId,
    /// The mode of the borrow.
    pub access: Access,
}

/// The borrow state of one resource.
pub enum BorrowState {
    /// Nobody holds it.
    Free,
    /// This many readers hold it, and no writer.
    Shared(nat),
    /// One writer holds it.
    Exclusive,
}

/// Two borrows of one resource exclude each other unless both only read.
pub open spec fn conflicts(a: Access, b: Access) -> bool {
    a is Write || b is Write
}

/// Two leases collide when they borrow one resource in modes that exclude
/// each other.
pub open spec fn collide(a: Lease, b: Lease) -> bool {
    a.key == b.key && conflicts(a.access, b.access)
}

/// Whether one more borrow of `key` in mode `access` is compatible with
/// every lease in `held`.
pub open spec fn admits(held: Seq<Lease>, key: TypeId, access: Access) -> bool {
    forall|i: int| 0 <= i < held.len() ==> !collide(#[trigger] held[i], Lease { key, access })
}

/// No two leases at different positions collide: every resource has readers
/// only, or a single writer.
pub open spec fn coherent(held: Seq<Lease>) -> bool {
    forall|i: int, j: int|
        0 <= i < j < held.len() ==> !collide(#[trigger] held[i], #[trigger] held[j])
}

/// The number of leases on `key` in `held`.
pub open spec fn lease_count(held: Seq<Lease>, key: TypeId) -> nat
    decreases held.len(),
{
    if held.len() == 0 {
        0
    } else {
        lease_count(held.drop_last(), key) + if held.last().key == key {
            1nat
        } else {
            0nat
        }
    }
}

/// Whether some lease in `held` borrows `key` exclusively.
pub open spec fn has_writer(held: Seq<Lease>, key: TypeId) -> bool {
    exists|i: int| 0 <= i < held.len() && (#[trigger] held[i]).key == key && held[i].access is Write
}

/// The borrow state of `key` under the leases in `held`.
pub open spec fn state_of(held: Seq<Lease>, key: TypeId) -> BorrowState {
    if has_writer(held, key) {
        BorrowState::Exclusive
    } else if lease_count(held, key) == 0 {
        BorrowState::Free
    } else {
        BorrowState::Shared(lease_count(held, key))
    }
}

/// The leases that are held, in the order in which they were granted.
pub struct BorrowLedger {
    leases: Vec<Lease>,
}

impl View for BorrowLedger {
    type V = Seq<Lease>;

    closed spec fn view(&self) -> Seq<Lease> {
        self.leases@
    }
}

impl BorrowLedger {
    /// A ledger in which nothing is borrowed.
    pub fn new() -> (ledger: BorrowLedger)
        ensures
            ledger@ == Seq::<Lease>::empty(),
    {
        BorrowLedger { leases: Vec::new() }
    }

    /// The number of leases held.
    pub fn len(&self) -> (n: usize)
        ensures
            n == self@.len(),
    {
        self.leases.len()
    }

    /// Whether one more borrow of `key` in mode `access` would be granted.
    pub fn admits(&self, key: &TypeId, access: Access) -> (ok: bool)
        ensures
            ok == admits(self@, *key, access),
    {
        let wanted = Lease { key: *key, access };
        let mut i: usize = 0;
        while i < self.leases.len()
            invariant
                i <= self.leases.len(),
                wanted == (Lease { key: *key, access }),
                forall|j: int| 0 <= j < i ==> !collide(#[trigger] self.leases@[j], wanted),
            decreases self.leases.len() - i,
        {
            let held = &self.leases[i];
            if same_key(&held.key, key) {
                let excluded = match (held.access, access) {
                    (Access::Read, Access::Read) => false,
                    _ => true,
                };
                if excluded {
                    assert(collide(self.leases@[i as int], wanted));
                    return false;
                }
            }
            i = i + 1;
        }
        true
    }

    /// Grants one more borrow if the leases held admit it, and refuses it
    /// with `AlreadyBorrowed`, leaving the ledger as it was, if they do not.
    pub fn acquire(&mut self, key: TypeId, access: Access) -> (granted: Result<(), EcsError>)
        ensures
            coherent(old(self)@) ==> coherent(final(self)@),
            admits(old(self)@, key, access) ==> granted is Ok && final(self)@ == old(self)@.push(
                Lease { key, access },
            ),
            !admits(old(self)@, key, access) ==> granted == Err::<(), EcsError>(
                EcsError::AlreadyBorrowed,
            ) && final(self)@ == old(self)@,
    {
        if self.admits(&key, access) {
            self.leases.push(Lease { key, access });
            Ok(())
        } else {
            Err(EcsError::AlreadyBorrowed)
        }
    }

    /// Releases the lease on `key` in mode `access` that was granted last,
    /// and says whether there was one.
    pub fn release(&mut self, key: &TypeId, access: Access) -> (released: bool)
        ensures
            released == old(self)@.contains(Lease { key: *key, access }),
            !released ==> final(self)@ == old(self)@,
            released ==> exists|i: int|
                0 <= i < old(self)@.len() && #[trigger] old(self)@[i] == (Lease {
                    key: *key,
                    access,
                }) && final(self)@ == old(self)@.remove(i),
    {
        let wanted = Lease { key: *key, access };
        let mut i: usize = self.leases.len();
        while i > 0
            invariant
                i <= self.leases.len(),
                self@ == old(self)@,
                wanted == (Lease { key: *key, access }),
                forall|j: int| i <= j < self.leases.len() ==> self.leases@[j] != wanted,
            decreases i,
        {
            i = i - 1;
            let held = &self.leases[i];
            let same_mode = match (held.access, access) {
                (Access::Read, Access::Read) => true,
                (Access::Write, Access::Write) => true,
                _ => false,
            };
            if same_mode && same_key(&held.key, key) {
                assert(self.leases@[i as int] == wanted);
                self.leases.remove(i);
                return true;
            }
        }
        false
    }

    /// Releases every lease at once.
    pub fn clear(&mut self)
        ensures
            final(self)@ == Seq::<Lease>::empty(),
    {
        self.leases.clear();
    }
}

/// A lease on another resource does not count.
proof fn lemma_count_is_zero(held: Seq<Lease>, key: TypeId)
    ensures
        lease_count(held, key) == 0 <==> forall|i: int|
            0 <= i < held.len() ==> (#[trigger] held[i]).key != key,
    decreases held.len(),
{
    if held.len() > 0 {
        lemma_count_is_zero(held.drop_last(), key);
        if lease_count(held, key) == 0 {
            assert forall|i: int| 0 <= i < held.len() implies (#[trigger] held[i]).key != key by {
                if i < held.len() - 1 {
                    assert(held.drop_last()[i] == held[i]);
                }
            }
        } else if held.last().key != key {
            let i = choose|i: int|
                0 <= i < held.len() - 1 && (#[trigger] held.drop_last()[i]).key == key;
            assert(held[i].key == key);
        }
    }
}

/// The borrow discipline. A shared borrow is granted unless a writer holds
/// the resource, however many readers hold it; an exclusive borrow is
/// granted only while nobody holds the resource. A borrow that is granted
/// moves the resource to the state that counts it, and leaves every other
/// resource as it was. Once the leases are released, the resource is free
/// again, and any borrow of it is granted.
pub proof fn lemma_borrow_discipline(held: Seq<Lease>, key: TypeId, other: TypeId)
    requires
        other != key,
    ensures
        admits(held, key, Access::Read) <==> !(state_of(held, key) is Exclusive),
        admits(held, key, Access::Write) <==> state_of(held, key) is Free,
        admits(held, key, Access::Read) ==> state_of(
            held.push(Lease { key, access: Access::Read }),
            key,
        ) == BorrowState::Shared(lease_count(held, key) + 1),
        admits(held, key, Access::Write) ==> state_of(
            held.push(Lease { key, access: Access::Write }),
            key,
        ) == BorrowState::Exclusive,
        state_of(held.push(Lease { key, access: Access::Read }), other) == state_of(held, other),
        state_of(held.push(Lease { key, access: Access::Write }), other) == state_of(held, other),
        state_of(Seq::<Lease>::empty(), key) == BorrowState::Free,
        admits(Seq::<Lease>::empty(), key, Access::Read),
        admits(Seq::<Lease>::empty(), key, Access::Write),
{
    lemma_count_is_zero(held, key);
    let read = Lease { key, access: Access::Read };
    let write = Lease { key, access: Access::Write };
    let more = held.push(read);
    let most = held.push(write);
    assert(more.drop_last() == held);
    assert(most.drop_last() == held);
    if has_writer(held, key) {
        let i = choose|i: int|
            0 <= i < held.len() && (#[trigger] held[i]).key == key && held[i].access is Write;
        assert(collide(held[i], read));
        assert(collide(held[i], write));
    }
    if !admits(held, key, Access::Read) {
        let i = choose|i: int| 0 <= i < held.len() && collide(#[trigger] held[i], read);
        assert(held[i].key == key && held[i].access is Write);
    }
    if !admits(held, key, Access::Write) {
        let i = choose|i: int| 0 <= i < held.len() && collide(#[trigger] held[i], write);
        assert(held[i].key == key);
    }
    if has_writer(more, key) {
        let i = choose|i: int|
            0 <= i < more.len() && (#[trigger] more[i]).key == key && more[i].access is Write;
        assert(i < held.len());
        assert(held[i] == more[i]);
    }
    assert(most[held.len() as int] == write);
    assert(has_writer(held, other) <==> has_writer(more, other)) by {
        if has_writer(held, other) {
            let i = choose|i: int|
                0 <= i < held.len() && (#[trigger] held[i]).key == other && held[i].access is Write;
            assert(more[i] == held[i]);
        }
        if has_writer(more, other) {
            let i = choose|i: int|
                0 <= i < more.len() && (#[trigger] more[i]).key == other && more[i].access is Write;
            assert(held[i] == more[i]);
        }
    }
    assert(has_writer(held, other) <==> has_writer(most, other)) by {
        if has_writer(held, other) {
            let i = choose|i: int|
                0 <= i < held.len() && (#[trigger] held[i]).key == other && held[i].access is Write;
            assert(most[i] == held[i]);
        }
        if has_writer(most, other) {
            let i = choose|i: int|
                0 <= i < most.len() && (#[trigger] most[i]).key == other && most[i].access is Write;
            assert(held[i] == most[i]);
        }
    }
}

/// Taking one lease out lowers the count of its resource by one, and leaves
/// the count of every other resource as it was.
proof fn lemma_count_after_release(held: Seq<Lease>, at: int, key: TypeId)
    requires
        0 <= at < held.len(),
    ensures
        lease_count(held, key) == lease_count(held.remove(at), key) + if held[at].key == key {
            1nat
        } else {
            0nat
        },
    decreases held.len(),
{
    if at == held.len() - 1 {
        assert(held.remove(at) == held.drop_last());
    } else {
        lemma_count_after_release(held.drop_last(), at, key);
        assert(held.remove(at).drop_last() == held.drop_last().remove(at));
        assert(held.remove(at).last() == held.last());
    }
}

/// Releasing a borrow restores eligibility. When a lease is released, the
/// leases that remain are still coherent; a resource whose writer, or whose
/// last reader, was released is free, so that any borrow of it is granted
/// again; and a resource that keeps readers has one reader less.
pub proof fn lemma_release_restores(held: Seq<Lease>, at: int)
    requires
        coherent(held),
        0 <= at < held.len(),
    ensures
        coherent(held.remove(at)),
        held[at].access is Write || lease_count(held, held[at].key) == 1 ==> state_of(
            held.remove(at),
            held[at].key,
        ) == BorrowState::Free && admits(held.remove(at), held[at].key, Access::Write),
        held[at].access is Read && lease_count(held, held[at].key) > 1 ==> state_of(
            held.remove(at),
            held[at].key,
        ) == BorrowState::Shared((lease_count(held, held[at].key) - 1) as nat),
{
    let rest = held.remove(at);
    let key = held[at].key;
    lemma_count_after_release(held, at, key);
    lemma_count_is_zero(rest, key);
    assert forall|i: int, j: int| 0 <= i < j < rest.len() implies !collide(
        #[trigger] rest[i],
        #[trigger] rest[j],
    ) by {
        let a = if i < at { i } else { i + 1 };
        let b = if j < at { j } else { j + 1 };
        assert(rest[i] == held[a] && rest[j] == held[b]);
    }
    if held[at].access is Write {
        assert forall|i: int| 0 <= i < rest.len() implies (#[trigger] rest[i]).key != key by {
            let a = if i < at { i } else { i + 1 };
            assert(rest[i] == held[a]);
            if a < at {
                assert(!collide(held[a], held[at]));
            } else {
                assert(!collide(held[at], held[a]));
            }
        }
    }
    if has_writer(rest, key) {
        let i = choose|i: int|
            0 <= i < rest.len() && (#[trigger] rest[i]).key == key && rest[i].access is Write;
        let a = if i < at { i } else { i + 1 };
        assert(rest[i] == held[a]);
        if a < at {
            assert(!collide(held[a], held[at]));
        } else {
            assert(!collide(held[at], held[a]));
        }
    }
}

} // verus!
