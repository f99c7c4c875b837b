//! The router: the process-wide supervisor that maps database addresses to
//! per-database workers, materialising each worker lazily on its first
//! reference.
//!
//! Workers are named here by dense numeric ids; the runtime around the core
//! keeps the id-indexed handles. The routing table never drops or rebinds
//! an address, so two resolutions of one address always name one worker.

use vstd::prelude::*;
use crate::errors::PersistenceError;
use crate::errors::spec_engine_failure;
use crate::persistence::SqliteFactory;
use crate::persistence::SqlitePersistence;
use crate::tokens::DatabaseAddress;

verus! {

/// The routing state: the factory that opens databases, the table of
/// addresses already seen, and the id the next worker will get.
pub struct Router {
    factory: SqliteFactory,
    entries: Vec<(DatabaseAddress, u64)>,
    next_id: u64,
}

impl Router {
    /// The routing table: each address seen so far with its worker id.
    pub closed spec fn table(self) -> Seq<(DatabaseAddress, u64)> {
        self.entries@
    }

    /// The id the next fresh worker will get.
    pub closed spec fn next_worker_id(self) -> u64 {
        self.next_id
    }

    /// The factory this router consults on the first reference to an
    /// address.
    pub closed spec fn factory(self) -> SqliteFactory {
        self.factory
    }

    /// Well-formedness: no address and no worker id appears twice, and
    /// every issued id is below the next one. This is a type invariant:
    /// every reachable router satisfies it.
    #[verifier::type_invariant]
    pub open spec fn wf(self) -> bool {
        &&& forall|i: int, j: int|
            #![trigger self.table()[i], self.table()[j]]
            0 <= i < j < self.table().len() ==> self.table()[i].0@ != self.table()[j].0@
                && self.table()[i].1 != self.table()[j].1
        &&& forall|i: int|
            0 <= i < self.table().len() ==> (#[trigger] self.table()[i]).1
                < self.next_worker_id()
    }

    /// Whether some worker is already bound to the address `a` (an address
    /// counts by its text, not by which allocation holds it).
    pub open spec fn has_route(self, a: (Seq<char>, Seq<char>)) -> bool {
        exists|i: int| 0 <= i < self.table().len() && (#[trigger] self.table()[i]).0@ == a
    }

    /// The worker id bound to the address `a`; meaningful when a route
    /// exists, and unique in a well-formed router.
    pub open spec fn route_of(self, a: (Seq<char>, Seq<char>)) -> u64 {
        let i = choose|i: int|
            0 <= i < self.table().len() && (#[trigger] self.table()[i]).0@ == a;
        self.table()[i].1
    }

    /// A fresh router over `factory`: no worker yet, ids start at zero.
    pub fn new(factory: SqliteFactory) -> (r: Router)
        ensures
            r.factory() == factory,
            r.table() == Seq::<(DatabaseAddress, u64)>::empty(),
            r.next_worker_id() == 0,
    {
        Router { factory, entries: Vec::new(), next_id: 0u64 }
    }

    /// Resolves an address to its worker id, opening the database and
    /// assigning the next id on the first reference.
    ///
    /// Router uniqueness is stated here once and for all: an address that
    /// already has a route gets exactly that route back and nothing
    /// changes; a fresh address is bound to a brand-new id; and every
    /// route that existed before the call survives it unchanged — so any
    /// two resolutions of the same address within one router's lifetime
    /// return the same worker id.
    ///
    /// An address that already has a route succeeds outright: that path
    /// consults only the router's own table and asks nothing of the
    /// factory or the engine. Besides what the factory reports on a first
    /// reference, the call fails, changing nothing, exactly in the corner
    /// where a fresh address finds the id space spent.
    pub fn resolve(&mut self, addr: DatabaseAddress) -> (r: Result<
        (u64, Option<SqlitePersistence>),
        PersistenceError,
    >)
        ensures
            final(self).factory() == old(self).factory(),
            final(self).next_worker_id() >= old(self).next_worker_id(),
            old(self).has_route(addr@) ==> r is Ok,
            !old(self).has_route(addr@) && old(self).next_worker_id() == u64::MAX ==> r is Err,
            r matches Err(e) ==> spec_engine_failure(e) && *final(self) == *old(self),
            r matches Ok((id, fresh)) ==> final(self).has_route(addr@) && final(self).route_of(
                addr@,
            ) == id,
            r matches Ok((id, fresh)) ==> (old(self).has_route(addr@) ==> fresh is None && id
                == old(self).route_of(addr@) && *final(self) == *old(self)),
            r matches Ok((id, fresh)) ==> (!old(self).has_route(addr@) ==> fresh is Some && id
                == old(self).next_worker_id() && final(self).table() == old(self).table().push(
                (addr, id),
            ) && final(self).next_worker_id() == old(self).next_worker_id() + 1),
            r is Ok ==> forall|a: (Seq<char>, Seq<char>)|
                old(self).has_route(a) ==> final(self).has_route(a) && final(self).route_of(a)
                    == old(self).route_of(a),
    {
        proof {
            use_type_invariant(&*self);
        }
        let n = self.entries.len();
        let mut i: usize = 0;
        while i < n
            invariant
                i <= n,
                n == self.table().len(),
                self.wf(),
                forall|j: int| 0 <= j < i ==> (#[trigger] self.table()[j]).0@ != addr@,
            decreases n - i,
        {
            if self.entries[i].0.addr_eq(&addr) {
                let id = self.entries[i].1;
                proof {
                    let k = choose|k: int|
                        0 <= k < self.table().len() && (#[trigger] self.table()[k]).0@ == addr@;
                    assert(self.table()[i as int].0@ == addr@);
                    assert(k == i as int);
                }
                return Ok((id, None));
            }
            i = i + 1;
        }
        proof {
            assert(!old(self).has_route(addr@)) by {
                if old(self).has_route(addr@) {
                    let w = choose|w: int|
                        0 <= w < old(self).table().len() && (#[trigger] old(self).table()[w]).0@
                            == addr@;
                }
            }
        }
        if self.next_id == u64::MAX {
            return Err(PersistenceError::Unknown("worker id space exhausted".to_owned()));
        }
        let facade = match self.factory.open(&addr) {
            Err(e) => {
                return Err(e);
            },
            Ok(f) => f,
        };
        let mut taken = Router::new(SqliteFactory::InMemory);
        core::mem::swap(self, &mut taken);
        let Router { factory, mut entries, next_id } = taken;
        let id = next_id;
        entries.push((addr, id));
        *self = Router { factory, entries, next_id: id + 1 };
        proof {
            let t = self.table();
            assert forall|a: (Seq<char>, Seq<char>)| old(self).has_route(a) implies final(self).has_route(a)
                && final(self).route_of(a) == old(self).route_of(a) by {
                let w = choose|w: int|
                    0 <= w < old(self).table().len() && (#[trigger] old(self).table()[w]).0@ == a;
                assert(t[w] == old(self).table()[w]);
                assert(final(self).has_route(a));
                let k = choose|k: int| 0 <= k < t.len() && (#[trigger] t[k]).0@ == a;
                assert(k < t.len() - 1);
                assert(old(self).table()[k].0@ == a);
                let k2 = choose|k2: int|
                    0 <= k2 < old(self).table().len() && (#[trigger] old(self).table()[k2]).0@
                        == a;
                assert(old(self).table()[k2].0@ == a);
                assert(k2 == k);
            }
            assert(final(self).has_route(addr@)) by {
                assert(t[t.len() - 1].0@ == addr@);
            }
            assert(final(self).route_of(addr@) == id) by {
                let k = choose|k: int| 0 <= k < t.len() && (#[trigger] t[k]).0@ == addr@;
                assert(t[t.len() - 1].0@ == addr@);
                if k < t.len() - 1 {
                    assert(old(self).table()[k].0@ == addr@);
                }
            }
        }
        Ok((id, Some(facade)))
    }
}

} // verus!
