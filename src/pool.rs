use vstd::prelude::*;
use crate::error::DbError;

verus! {

/// The most connections the store hands out at once.
pub const MAX_CONNECTIONS: u32 = 5;

/// A bounded pool of connections: at most `max_size` are checked out at once.
pub struct ConnectionPool {
    pub max_size: u32,
    pub in_use: u32,
}

impl ConnectionPool {
    pub open spec fn wf(&self) -> bool {
        self.in_use <= self.max_size
    }

    /// A pool of `max_size` connections, none checked out.
    pub fn new(max_size: u32) -> (p: Self)
        ensures
            p.wf(),
            p.max_size == max_size,
            p.in_use == 0,
    {
        ConnectionPool { max_size, in_use: 0 }
    }

    /// Checks out a connection, or fails with `PoolExhausted` when all are in use.
    pub fn acquire(&mut self) -> (r: Result<(), DbError>)
        requires
            old(self).wf(),
        ensures
            final(self).wf(),
            final(self).max_size == old(self).max_size,
            old(self).in_use < old(self).max_size ==> r is Ok && final(self).in_use == old(
                self,
            ).in_use + 1,
            old(self).in_use == old(self).max_size ==> r == Err::<(), DbError>(
                DbError::PoolExhausted,
            ) && final(self).in_use == old(self).in_use,
    {
        if self.in_use < self.max_size {
            self.in_use = self.in_use + 1;
            Ok(())
        } else {
            Err(DbError::PoolExhausted)
        }
    }

    /// Returns a checked-out connection.
    pub fn release(&mut self)
        requires
            old(self).wf(),
            old(self).in_use > 0,
        ensures
            final(self).wf(),
            final(self).max_size == old(self).max_size,
            final(self).in_use == old(self).in_use - 1,
    {
        self.in_use = self.in_use - 1;
    }

    /// How many connections can still be checked out.
    pub fn available(&self) -> (r: u32)
        requires
            self.wf(),
        ensures
            r == self.max_size - self.in_use,
    {
        self.max_size - self.in_use
    }
}

} // verus!
