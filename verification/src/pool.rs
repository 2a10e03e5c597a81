//! A bounded connection pool with an explicit lease discipline.
//!
//! `acquire` hands out a `ConnLease` while a connection is free and
//! fails with a `DatabaseError` when the pool is exhausted; `release`
//! gives the connection back. Callers must release on every exit path;
//! each store operation's contract shows that it does, by leaving the
//! number of available connections unchanged.

use vstd::prelude::*;

use crate::error::StoreErrorType;

verus! {

/// An exclusively owned lease on one pooled connection. Only the pool
/// creates leases.
pub struct ConnLease {
    live: bool,
}

/// A bounded set of connections to the storage engine.
pub struct ConnPool {
    size: usize,
    available: usize,
}

impl ConnPool {
    /// The bound the pool was created with.
    pub closed spec fn size(&self) -> int {
        self.size as int
    }

    /// How many connections are currently free.
    pub closed spec fn available(&self) -> int {
        self.available as int
    }

    pub open spec fn wf(&self) -> bool {
        0 <= self.available() <= self.size()
    }

    /// Creates a pool of `size` connections, all free.
    pub fn new(size: usize) -> (r: ConnPool)
        ensures
            r.wf(),
            r.size() == size as int,
            r.available() == size as int,
    {
        ConnPool { size, available: size }
    }

    /// Checks a connection out. Fails with a `DatabaseError` if and
    /// only if the pool is exhausted.
    pub fn acquire(&mut self) -> (r: Result<ConnLease, StoreErrorType>)
        requires
            old(self).wf(),
        ensures
            final(self).wf(),
            final(self).size() == old(self).size(),
            old(self).available() == 0 ==> (r matches Err(StoreErrorType::DatabaseError(s))
                && s@ == "Failed to get connection from pool."@ && final(self).available()
                == 0),
            old(self).available() > 0 ==> (r is Ok && final(self).available() == old(
                self,
            ).available() - 1),
    {
        if self.available == 0 {
            Err(
                StoreErrorType::DatabaseError(
                    "Failed to get connection from pool.".to_owned(),
                ),
            )
        } else {
            self.available = self.available - 1;
            Ok(ConnLease { live: true })
        }
    }

    /// Gives a leased connection back.
    pub fn release(&mut self, lease: ConnLease)
        requires
            old(self).wf(),
            old(self).available() < old(self).size(),
        ensures
            final(self).wf(),
            final(self).size() == old(self).size(),
            final(self).available() == old(self).available() + 1,
    {
        let _ = lease.live;
        self.available = self.available + 1;
    }
}

} // verus!
