//! A memory pool: hands out zeroed byte ranges and tracks how many bytes
//! are outstanding, failing with `OutOfMemory` once a limit is exceeded.
//!
//! Every buffer of this library draws its storage through a pool value, so
//! allocation accounting can be isolated per pool instance.

use vstd::prelude::*;

use crate::status::{ArrowError, StatusCode};

verus! {

/// Tracks bytes handed out against a fixed limit.
#[derive(Clone, Copy)]
pub struct MemoryPool {
    limit: i64,
    allocated: i64,
}

impl MemoryPool {
    /// The number of bytes currently outstanding.
    pub closed spec fn allocated_spec(&self) -> int {
        self.allocated as int
    }

    /// The pool's capacity in bytes.
    pub closed spec fn limit_spec(&self) -> int {
        self.limit as int
    }

    pub open spec fn wf(&self) -> bool {
        0 <= self.allocated_spec() <= self.limit_spec()
    }

    /// A pool limited only by the address space.
    pub fn unbounded() -> (r: MemoryPool)
        ensures
            r.wf(),
            r.allocated_spec() == 0,
            r.limit_spec() == i64::MAX,
    {
        MemoryPool { limit: i64::MAX, allocated: 0 }
    }

    /// A pool that will not let more than `limit` bytes be outstanding.
    pub fn with_limit(limit: i64) -> (r: MemoryPool)
        requires
            limit >= 0,
        ensures
            r.wf(),
            r.allocated_spec() == 0,
            r.limit_spec() == limit,
    {
        MemoryPool { limit, allocated: 0 }
    }

    /// Obtain a zeroed byte range of the given size and charge it to the pool.
    /// Fails with `Invalid` for a negative size and with `OutOfMemory` when
    /// the pool's limit would be exceeded; the pool is unchanged on failure.
    pub fn allocate(&mut self, size: i64) -> (r: Result<Vec<u8>, ArrowError>)
        requires
            old(self).wf(),
        ensures
            final(self).wf(),
            final(self).limit_spec() == old(self).limit_spec(),
            match r {
                Ok(buffer) => {
                    &&& size >= 0
                    &&& buffer@ =~= Seq::new(size as nat, |i: int| 0u8)
                    &&& final(self).allocated_spec() == old(self).allocated_spec() + size
                },
                Err(e) => {
                    &&& final(self).allocated_spec() == old(self).allocated_spec()
                    &&& (e.code_spec() == StatusCode::Invalid <==> size < 0)
                    &&& (size >= 0 ==> e.code_spec() == StatusCode::OutOfMemory
                        && (old(self).allocated_spec() + size > old(self).limit_spec()
                            || size > usize::MAX))
                },
            },
    {
        if size < 0 {
            return Err(ArrowError::invalid("allocation size must not be negative"));
        }
        if size > self.limit - self.allocated {
            return Err(ArrowError::out_of_memory("memory pool limit exceeded"));
        }
        if (size as u64) > (usize::MAX as u64) {
            return Err(ArrowError::out_of_memory("allocation does not fit the address space"));
        }
        let buffer: Vec<u8> = vec![0u8; size as usize];
        self.allocated = self.allocated + size;
        Ok(buffer)
    }

    /// Return a byte range to the pool, crediting its size back.
    pub fn free(&mut self, buffer: Vec<u8>, size: i64)
        requires
            old(self).wf(),
            buffer@.len() == size,
            old(self).allocated_spec() >= size,
        ensures
            final(self).wf(),
            final(self).limit_spec() == old(self).limit_spec(),
            final(self).allocated_spec() == old(self).allocated_spec() - size,
    {
        self.allocated = self.allocated - size;
    }

    /// Charge `delta` more bytes to the pool without materializing them;
    /// used when a buffer grows its existing allocation in place.
    pub(crate) fn charge(&mut self, delta: i64) -> (r: Result<(), ArrowError>)
        requires
            old(self).wf(),
            delta >= 0,
        ensures
            final(self).wf(),
            final(self).limit_spec() == old(self).limit_spec(),
            match r {
                Ok(()) => final(self).allocated_spec() == old(self).allocated_spec() + delta,
                Err(e) => {
                    &&& final(self).allocated_spec() == old(self).allocated_spec()
                    &&& e.code_spec() == StatusCode::OutOfMemory
                    &&& old(self).allocated_spec() + delta > old(self).limit_spec()
                },
            },
    {
        if delta > self.limit - self.allocated {
            return Err(ArrowError::out_of_memory("memory pool limit exceeded"));
        }
        self.allocated = self.allocated + delta;
        Ok(())
    }

    /// The number of bytes currently outstanding.
    pub fn len(&self) -> (r: i64)
        ensures
            r == self.allocated_spec(),
    {
        self.allocated
    }
}

impl Default for MemoryPool {
    /// The default pool is unbounded.
    fn default() -> (r: MemoryPool)
        ensures
            r.wf(),
            r.allocated_spec() == 0,
            r.limit_spec() == i64::MAX,
    {
        MemoryPool::unbounded()
    }
}

} // verus!
