//! Byte buffers: immutable runs of bytes, resizable pool-backed buffers,
//! and an incremental builder with geometric capacity growth.
//!
//! A buffer has a capacity (the whole allocation) and a logical size not
//! exceeding it; bytes past the logical size are padding. Growth rounds the
//! requested size up to the next power of two and is charged to the
//! buffer's memory pool.

use vstd::prelude::*;

use crate::memory_pool::MemoryPool;
use crate::status::{ArrowError, StatusCode};

verus! {

/// Largest capacity a pool-backed buffer may grow to.
pub const MAX_BUFFER_CAPACITY: i64 = 0x4000_0000_0000_0000;

/// Largest capacity a buffer builder may grow to; builder sizes are `i32`.
pub const MAX_BUILDER_CAPACITY: i32 = 0x4000_0000;

/// The smallest power of two that is at least `n`, computed by doubling `p`.
pub open spec fn pow2_from(n: int, p: int) -> int
    decreases 2 * n - p,
    when 1 <= p
{
    if p >= n {
        p
    } else {
        pow2_from(n, 2 * p)
    }
}

/// The smallest power of two no smaller than `n` (0 for `n <= 0`): the
/// capacity that growing a buffer to size `n` yields.
pub open spec fn round_up_pow2(n: int) -> int {
    if n <= 0 {
        0
    } else {
        pow2_from(n, 1)
    }
}

proof fn lemma_pow2_from_bounds(n: int, p: int)
    requires
        1 <= p,
        p < 2 * n,
    ensures
        pow2_from(n, p) < 2 * n,
        p <= pow2_from(n, p),
        p >= n ==> pow2_from(n, p) == p,
        p < n ==> n <= pow2_from(n, p),
    decreases n - p,
{
    if p >= n {
        assert(pow2_from(n, p) == p);
    } else if 2 * p >= n {
        assert(pow2_from(n, p) == pow2_from(n, 2 * p));
        assert(pow2_from(n, 2 * p) == 2 * p);
    } else {
        lemma_pow2_from_bounds(n, 2 * p);
        assert(pow2_from(n, p) == pow2_from(n, 2 * p));
    }
}

/// Rounding up to a power of two never more than doubles a positive size.
pub proof fn lemma_round_up_pow2_bounds(n: int)
    requires
        1 <= n,
    ensures
        n <= round_up_pow2(n) < 2 * n,
{
    lemma_pow2_from_bounds(n, 1);
}

/// Growing to the rounded capacity is enough for any later request up to it:
/// the rounding is idempotent.
pub proof fn lemma_round_up_pow2_idempotent(n: int)
    requires
        1 <= n,
    ensures
        round_up_pow2(round_up_pow2(n)) == round_up_pow2(n),
    decreases n,
{
    lemma_round_up_pow2_bounds(n);
    lemma_pow2_idempotent_from(round_up_pow2(n), n, 1);
}

proof fn lemma_pow2_idempotent_from(target: int, n: int, p: int)
    requires
        1 <= p <= target,
        pow2_from(n, p) == target,
        p <= n <= target,
    ensures
        pow2_from(target, p) == target,
    decreases target - p,
{
    if p >= n {
        // target == p, so the chain from p is already at its end
    } else {
        if 2 * p >= n {
            // the chain takes one more step and ends at 2 * p == target
            assert(pow2_from(n, 2 * p) == 2 * p);
            assert(pow2_from(target, 2 * p) == 2 * p);
        } else {
            lemma_pow2_idempotent_from(target, n, 2 * p);
        }
        assert(pow2_from(target, p) == pow2_from(target, 2 * p));
    }
}

/// Compute `round_up_pow2(n)` for a positive size within bounds.
fn round_up_pow2_exec(n: i64) -> (r: i64)
    requires
        1 <= n <= MAX_BUFFER_CAPACITY,
    ensures
        r == round_up_pow2(n as int),
        n <= r < 2 * n,
{
    proof {
        lemma_round_up_pow2_bounds(n as int);
    }
    let mut p: i64 = 1;
    while p < n
        invariant
            1 <= p < 2 * n,
            n <= MAX_BUFFER_CAPACITY,
            pow2_from(n as int, p as int) == round_up_pow2(n as int),
        decreases 2 * n - p,
    {
        proof {
            assert(pow2_from(n as int, p as int) == pow2_from(n as int, 2 * (p as int)));
        }
        p = p * 2;
    }
    p
}

/// Which kind of storage backs a buffer: a plain base allocation or a
/// resizable pool-backed one.
#[derive(Clone, Copy, PartialEq, Eq, Structural, Debug)]
pub enum BufType {
    BASE,
    POOL,
}

/// Read access shared by every buffer kind.
pub trait Buffer: Sized {
    /// The whole allocation, padding included.
    spec fn buf_bytes(&self) -> Seq<u8>;

    /// The logical size: how many of the allocated bytes are meaningful.
    spec fn buf_size(&self) -> int;

    /// The allocation's length in bytes.
    fn capacity(&self) -> (r: i64)
        ensures
            r == self.buf_bytes().len(),
    ;

    /// The logical size in bytes.
    fn size(&self) -> (r: i64)
        ensures
            r == self.buf_size(),
    ;

    /// The allocated bytes themselves.
    fn data<'a>(&'a self) -> (r: &'a Vec<u8>)
        ensures
            r@ == self.buf_bytes(),
    ;
}

/// The logical bytes of a buffer: the prefix of the allocation up to the
/// logical size.
pub open spec fn buffer_contents<B: Buffer>(b: &B) -> Seq<u8> {
    b.buf_bytes().take(b.buf_size())
}

/// A buffer's logical size is never negative.
pub proof fn lemma_buf_size_nonneg(b: Buf)
    ensures
        0 <= b.buf_size(),
{
}

/// Write access on top of read access: an immutable view can be taken.
pub trait Mutable: Buffer {
    /// An immutable buffer holding the same bytes and logical size.
    fn as_immut(&self) -> (r: Buf)
        ensures
            r.buf_bytes() == self.buf_bytes(),
            r.buf_size() == self.buf_size(),
    ;
}

/// Buffers whose logical size can be set after creation.
pub trait Resizable {
    /// Set the logical size, growing the allocation when needed.
    fn resize(&mut self, new_size: i64) -> Result<(), ArrowError>;

    /// Grow the capacity without changing the logical size.
    fn reserve(&mut self, new_capacity: i64) -> Result<(), ArrowError>;
}

/// An immutable run of bytes.
#[derive(Debug)]
pub struct Buf {
    bytes: Vec<u8>,
    size: usize,
    ty: BufType,
}

impl Buf {
    #[verifier::type_invariant]
    pub open spec fn wf(&self) -> bool {
        self.buf_size() <= self.buf_bytes().len() <= i64::MAX
    }

    /// Wrap a byte vector as an immutable buffer whose logical size is the
    /// whole allocation.
    pub fn from_raw(bytes: Vec<u8>) -> (r: Buf)
        requires
            bytes@.len() <= i64::MAX,
        ensures
            r.buf_bytes() == bytes@,
            r.buf_size() == bytes@.len(),
    {
        let size = bytes.len();
        Buf { bytes, size, ty: BufType::BASE }
    }

    /// Wrap a byte vector as a buffer with an explicit logical size.
    pub fn with_size(bytes: Vec<u8>, size: i64) -> (r: Buf)
        requires
            0 <= size <= bytes@.len() <= i64::MAX,
        ensures
            r.buf_bytes() == bytes@,
            r.buf_size() == size,
    {
        let n = bytes.len();
        Buf { bytes, size: size as usize, ty: BufType::BASE }
    }

    /// Which kind of storage backs this buffer.
    pub fn buf_type(&self) -> (r: BufType)
        ensures
            r == self.buf_type_spec(),
    {
        self.ty
    }

    /// The storage kind, for specification purposes.
    pub closed spec fn buf_type_spec(&self) -> BufType {
        self.ty
    }
}

impl Buffer for Buf {
    closed spec fn buf_bytes(&self) -> Seq<u8> {
        self.bytes@
    }

    closed spec fn buf_size(&self) -> int {
        self.size as int
    }

    fn capacity(&self) -> (r: i64)
        ensures
            r == self.buf_bytes().len(),
    {
        proof {
            use_type_invariant(self);
        }
        self.bytes.len() as i64
    }

    fn size(&self) -> (r: i64)
        ensures
            r == self.buf_size(),
    {
        proof {
            use_type_invariant(self);
        }
        self.size as i64
    }

    fn data<'a>(&'a self) -> (r: &'a Vec<u8>)
        ensures
            r@ == self.buf_bytes(),
    {
        &self.bytes
    }
}

impl Clone for Buf {
    fn clone(&self) -> (r: Self)
        ensures
            r.buf_bytes() == self.buf_bytes(),
            r.buf_size() == self.buf_size(),
    {
        proof {
            use_type_invariant(self);
        }
        Buf { bytes: clone_bytes(&self.bytes), size: self.size, ty: self.ty }
    }
}

/// Clone a byte vector; the copy holds exactly the same bytes.
pub(crate) fn clone_bytes(v: &Vec<u8>) -> (r: Vec<u8>)
    ensures
        r@ == v@,
{
    let r = v.clone();
    proof {
        assert(r@ =~= v@);
    }
    r
}

/// A resizable, pool-backed run of bytes.
pub struct MutableBuf {
    bytes: Vec<u8>,
    size: usize,
    pool: MemoryPool,
    ty: BufType,
}

impl MutableBuf {
    #[verifier::type_invariant]
    pub open spec fn wf(&self) -> bool {
        self.buf_size() <= self.buf_bytes().len() <= i64::MAX
            && self.pool_spec().wf()
    }

    /// The pool that growth of this buffer is charged to.
    pub closed spec fn pool_spec(&self) -> MemoryPool {
        self.pool
    }

    /// Wrap an existing allocation as a resizable buffer drawing from `pool`.
    pub fn from_raw(bytes: Vec<u8>, pool: &MemoryPool) -> (r: MutableBuf)
        requires
            bytes@.len() <= i64::MAX,
            pool.wf(),
        ensures
            r.buf_bytes() == bytes@,
            r.buf_size() == bytes@.len(),
            r.pool_spec() == *pool,
    {
        let size = bytes.len();
        MutableBuf { bytes, size, pool: *pool, ty: BufType::POOL }
    }

    pub(crate) fn from_parts(bytes: Vec<u8>, size: usize, pool: MemoryPool) -> (r: MutableBuf)
        requires
            size <= bytes@.len() <= i64::MAX,
            pool.wf(),
        ensures
            r.buf_bytes() == bytes@,
            r.buf_size() == size,
            r.pool_spec() == pool,
    {
        MutableBuf { bytes, size, pool, ty: BufType::POOL }
    }

    /// Write `data` into the allocation at `pos`, leaving every other
    /// byte and the logical size alone; the safe face of raw write
    /// access. Fails with `Invalid` when the range lies outside the
    /// capacity; the buffer is unchanged on failure.
    pub fn write_at(&mut self, pos: i64, data: &Vec<u8>) -> (r: Result<(), ArrowError>)
        ensures
            final(self).buf_size() == old(self).buf_size(),
            final(self).buf_bytes().len() == old(self).buf_bytes().len(),
            final(self).pool_spec() == old(self).pool_spec(),
            match r {
                Ok(()) => {
                    &&& 0 <= pos
                    &&& pos + data@.len() <= old(self).buf_bytes().len()
                    &&& forall|j: int| 0 <= j < pos ==> final(self).buf_bytes()[j] == old(
                        self,
                    ).buf_bytes()[j]
                    &&& forall|j: int| 0 <= j < data@.len() ==> final(self).buf_bytes()[pos + j]
                        == data@[j]
                    &&& forall|j: int| pos + data@.len() <= j < old(self).buf_bytes().len()
                        ==> final(self).buf_bytes()[j] == old(self).buf_bytes()[j]
                },
                Err(e) => {
                    &&& final(self).buf_bytes() == old(self).buf_bytes()
                    &&& e.code_spec() == StatusCode::Invalid
                    &&& (pos < 0 || pos + data@.len() > old(self).buf_bytes().len())
                },
            },
    {
        proof {
            use_type_invariant(&*self);
        }
        if pos < 0 {
            return Err(ArrowError::invalid("write range out of bounds"));
        }
        let capacity = self.bytes.len();
        let n = data.len();
        if pos > capacity as i64 {
            return Err(ArrowError::invalid("write range out of bounds"));
        }
        let room = (capacity as i64) - pos;
        if (n as u64) > (room as u64) {
            return Err(ArrowError::invalid("write range out of bounds"));
        }
        let mut bytes = clone_bytes(&self.bytes);
        write_bytes_at(&mut bytes, pos as usize, data);
        let next = MutableBuf { bytes, size: self.size, pool: self.pool, ty: self.ty };
        *self = next;
        Ok(())
    }

    /// Turn this buffer into an immutable one, transferring the bytes.
    pub fn into_immut(self) -> (r: Buf)
        ensures
            r.buf_bytes() == self.buf_bytes(),
            r.buf_size() == self.buf_size(),
    {
        proof {
            use_type_invariant(&self);
        }
        Buf { bytes: self.bytes, size: self.size, ty: BufType::BASE }
    }

}

impl Resizable for MutableBuf {
    /// Set the logical size, growing the allocation through the pool when
    /// the new size exceeds the capacity; shrinking never reduces capacity.
    /// On failure the buffer is unchanged.
    fn resize(&mut self, new_size: i64) -> (r: Result<(), ArrowError>)
        ensures
            match r {
                Ok(()) => {
                    &&& 0 <= new_size
                    &&& final(self).buf_size() == new_size
                    &&& final(self).buf_bytes().len() == if new_size <= old(self).buf_bytes().len() {
                        old(self).buf_bytes().len() as int
                    } else {
                        round_up_pow2(new_size as int)
                    }
                    &&& final(self).buf_bytes().take(old(self).buf_bytes().len() as int)
                        == old(self).buf_bytes()
                    &&& forall|i: int| old(self).buf_bytes().len() <= i
                        < final(self).buf_bytes().len() ==> final(self).buf_bytes()[i] == 0u8
                    &&& final(self).pool_spec().allocated_spec()
                        == old(self).pool_spec().allocated_spec()
                            + (final(self).buf_bytes().len() - old(self).buf_bytes().len())
                    &&& final(self).pool_spec().limit_spec() == old(self).pool_spec().limit_spec()
                },
                Err(e) => {
                    &&& *final(self) == *old(self)
                    &&& (e.code_spec() == StatusCode::Invalid <==> new_size < 0)
                    &&& (new_size >= 0 ==> e.code_spec() == StatusCode::OutOfMemory
                        && new_size > old(self).buf_bytes().len()
                        && (new_size > MAX_BUFFER_CAPACITY
                            || round_up_pow2(new_size as int) > usize::MAX
                            || old(self).pool_spec().allocated_spec() + (round_up_pow2(
                            new_size as int,
                        ) - old(self).buf_bytes().len()) > old(self).pool_spec().limit_spec()))
                },
            },
    {
        proof {
            use_type_invariant(&*self);
        }
        if new_size < 0 {
            return Err(ArrowError::invalid("buffer size must not be negative"));
        }
        let capacity = self.bytes.len() as i64;
        if new_size <= capacity {
            self.size = new_size as usize;
            proof {
                assert(self.buf_bytes().take(old(self).buf_bytes().len() as int)
                    =~= old(self).buf_bytes());
            }
            return Ok(());
        }
        if new_size > MAX_BUFFER_CAPACITY {
            return Err(ArrowError::out_of_memory("buffer capacity limit exceeded"));
        }
        let new_capacity = round_up_pow2_exec(new_size);
        if (new_capacity as u64) > (usize::MAX as u64) {
            return Err(ArrowError::out_of_memory("allocation does not fit the address space"));
        }
        let mut pool = self.pool;
        match pool.charge(new_capacity - capacity) {
            Ok(()) => {}
            Err(e) => {
                return Err(e);
            }
        }
        let mut bytes = clone_bytes(&self.bytes);
        bytes.resize(new_capacity as usize, 0u8);
        let next = MutableBuf { bytes, size: new_size as usize, pool, ty: self.ty };
        *self = next;
        proof {
            assert(self.buf_bytes().take(old(self).buf_bytes().len() as int)
                =~= old(self).buf_bytes());
        }
        Ok(())
    }

    /// Grow the capacity to at least `new_capacity` without changing the
    /// logical size; never shrinks.
    fn reserve(&mut self, new_capacity: i64) -> (r: Result<(), ArrowError>)
        ensures
            match r {
                Ok(()) => {
                    &&& final(self).buf_size() == old(self).buf_size()
                    &&& final(self).buf_bytes().len() == if new_capacity
                        <= old(self).buf_bytes().len() {
                        old(self).buf_bytes().len() as int
                    } else {
                        round_up_pow2(new_capacity as int)
                    }
                    &&& final(self).buf_bytes().take(old(self).buf_bytes().len() as int)
                        == old(self).buf_bytes()
                    &&& forall|i: int| old(self).buf_bytes().len() <= i
                        < final(self).buf_bytes().len() ==> final(self).buf_bytes()[i] == 0u8
                    &&& final(self).pool_spec().allocated_spec()
                        == old(self).pool_spec().allocated_spec()
                            + (final(self).buf_bytes().len() - old(self).buf_bytes().len())
                    &&& final(self).pool_spec().limit_spec()
                        == old(self).pool_spec().limit_spec()
                },
                Err(e) => {
                    &&& *final(self) == *old(self)
                    &&& (e.code_spec() == StatusCode::Invalid <==> new_capacity < 0)
                    &&& (new_capacity >= 0 ==> e.code_spec() == StatusCode::OutOfMemory
                        && new_capacity > old(self).buf_bytes().len()
                        && (new_capacity > MAX_BUFFER_CAPACITY
                            || round_up_pow2(new_capacity as int) > usize::MAX
                            || old(self).pool_spec().allocated_spec() + (round_up_pow2(
                            new_capacity as int,
                        ) - old(self).buf_bytes().len()) > old(self).pool_spec().limit_spec()))
                },
            },
    {
        proof {
            use_type_invariant(&*self);
        }
        if new_capacity < 0 {
            return Err(ArrowError::invalid("buffer capacity must not be negative"));
        }
        let capacity = self.bytes.len() as i64;
        if new_capacity <= capacity {
            proof {
                assert(self.buf_bytes().take(old(self).buf_bytes().len() as int)
                    =~= old(self).buf_bytes());
            }
            return Ok(());
        }
        if new_capacity > MAX_BUFFER_CAPACITY {
            return Err(ArrowError::out_of_memory("buffer capacity limit exceeded"));
        }
        let new_cap = round_up_pow2_exec(new_capacity);
        if (new_cap as u64) > (usize::MAX as u64) {
            return Err(ArrowError::out_of_memory("allocation does not fit the address space"));
        }
        let mut pool = self.pool;
        match pool.charge(new_cap - capacity) {
            Ok(()) => {}
            Err(e) => {
                return Err(e);
            }
        }
        let mut bytes = clone_bytes(&self.bytes);
        bytes.resize(new_cap as usize, 0u8);
        let next = MutableBuf { bytes, size: self.size, pool, ty: self.ty };
        *self = next;
        proof {
            assert(self.buf_bytes().take(old(self).buf_bytes().len() as int)
                =~= old(self).buf_bytes());
        }
        Ok(())
    }

}

impl Mutable for MutableBuf {
    fn as_immut(&self) -> (r: Buf) {
        proof {
            use_type_invariant(self);
        }
        Buf { bytes: clone_bytes(&self.bytes), size: self.size, ty: BufType::BASE }
    }
}

impl Buffer for MutableBuf {
    closed spec fn buf_bytes(&self) -> Seq<u8> {
        self.bytes@
    }

    closed spec fn buf_size(&self) -> int {
        self.size as int
    }

    fn capacity(&self) -> (r: i64)
        ensures
            r == self.buf_bytes().len(),
    {
        proof {
            use_type_invariant(self);
        }
        self.bytes.len() as i64
    }

    fn size(&self) -> (r: i64)
        ensures
            r == self.buf_size(),
    {
        proof {
            use_type_invariant(self);
        }
        self.size as i64
    }

    fn data<'a>(&'a self) -> (r: &'a Vec<u8>)
        ensures
            r@ == self.buf_bytes(),
    {
        &self.bytes
    }
}

} // verus!

verus! {

/// The capacity that a resize to logical size `n` leaves behind, starting
/// from capacity `cap`: growth rounds up to the next power of two, and
/// shrinking never gives capacity back.
pub open spec fn resize_capacity(cap: int, n: int) -> int {
    if n <= cap {
        cap
    } else {
        round_up_pow2(n)
    }
}

/// Capacity growth is monotonic, and a second resize to the same or a
/// smaller size changes nothing.
pub proof fn lemma_resize_capacity_monotonic_idempotent(cap: int, n: int)
    requires
        0 <= cap,
        0 <= n,
    ensures
        cap <= resize_capacity(cap, n),
        forall|m: int| 0 <= m <= n ==> resize_capacity(resize_capacity(cap, n), m)
            == resize_capacity(cap, n),
{
    if n > cap {
        lemma_round_up_pow2_bounds(n);
    }
}

/// Write `src` into `dst` starting at `pos`, leaving all other bytes alone.
pub(crate) fn write_bytes_at(dst: &mut Vec<u8>, pos: usize, src: &Vec<u8>)
    requires
        pos + src@.len() <= old(dst)@.len(),
    ensures
        final(dst)@.len() == old(dst)@.len(),
        forall|j: int| 0 <= j < pos ==> final(dst)@[j] == old(dst)@[j],
        forall|j: int| 0 <= j < src@.len() ==> final(dst)@[pos + j] == src@[j],
        forall|j: int| pos + src@.len() <= j < old(dst)@.len() ==> final(dst)@[j] == old(dst)@[j],
{
    let dst_len = dst.len();
    let mut i: usize = 0;
    while i < src.len()
        invariant
            i <= src@.len(),
            pos + src@.len() <= dst_len,
            dst_len == dst@.len(),
            dst@.len() == old(dst)@.len(),
            forall|j: int| 0 <= j < pos ==> dst@[j] == old(dst)@[j],
            forall|j: int| 0 <= j < i ==> dst@[pos + j] == src@[j],
            forall|j: int| pos + i <= j < dst@.len() ==> dst@[j] == old(dst)@[j],
        decreases src@.len() - i,
    {
        dst.set(pos + i, src[i]);
        i = i + 1;
    }
}

/// Accumulates raw bytes incrementally and yields a buffer on completion.
///
/// The builder keeps an append cursor (`len`) and the logical size that the
/// finished buffer will report (`size`); an explicit `resize` sets the
/// latter, while appends past the capacity grow both.
pub struct BufferBuilder {
    bytes: Vec<u8>,
    size: usize,
    len: usize,
    pool: MemoryPool,
}

impl BufferBuilder {
    /// Well-formedness: the cursor and logical size lie within the
    /// allocation, whose length a builder keeps within `i32` range.
    pub open spec fn wf(&self) -> bool {
        self.builder_len() <= self.builder_bytes().len() && self.builder_size()
            <= self.builder_bytes().len() && self.builder_bytes().len() <= i32::MAX
            && self.pool_spec().wf()
    }

    /// The whole allocation.
    pub closed spec fn builder_bytes(&self) -> Seq<u8> {
        self.bytes@
    }

    /// The logical size that `finish` will give the buffer.
    pub closed spec fn builder_size(&self) -> int {
        self.size as int
    }

    /// The append cursor: how many bytes have been appended.
    pub closed spec fn builder_len(&self) -> int {
        self.len as int
    }

    /// The pool that growth is charged to.
    pub closed spec fn pool_spec(&self) -> MemoryPool {
        self.pool
    }

    /// A fresh, empty builder drawing storage from `pool`.
    pub fn new(pool: &MemoryPool) -> (r: BufferBuilder)
        requires
            pool.wf(),
        ensures
            r.wf(),
            r.builder_bytes().len() == 0,
            r.builder_size() == 0,
            r.builder_len() == 0,
            r.pool_spec() == *pool,
    {
        BufferBuilder { bytes: Vec::new(), size: 0, len: 0, pool: *pool }
    }

    /// Set the logical size of the buffer being built, growing capacity to
    /// the next power of two when needed. Returns the capacity. The
    /// builder is unchanged on failure.
    pub fn resize(&mut self, size: i32) -> (r: Result<i32, ArrowError>)
        requires
            old(self).wf(),
        ensures
            final(self).wf(),
            match r {
                Ok(capacity) => {
                    &&& 0 <= size
                    &&& capacity == final(self).builder_bytes().len()
                    &&& final(self).builder_bytes().len()
                        == resize_capacity(old(self).builder_bytes().len() as int, size as int)
                    &&& final(self).builder_size() == size
                    &&& final(self).builder_len() == old(self).builder_len()
                    &&& final(self).builder_bytes().take(old(self).builder_bytes().len() as int)
                        == old(self).builder_bytes()
                    &&& forall|j: int| old(self).builder_bytes().len() <= j
                        < final(self).builder_bytes().len() ==> final(self).builder_bytes()[j]
                        == 0u8
                    &&& final(self).pool_spec().allocated_spec()
                        == old(self).pool_spec().allocated_spec()
                            + (final(self).builder_bytes().len()
                            - old(self).builder_bytes().len())
                    &&& final(self).pool_spec().limit_spec()
                        == old(self).pool_spec().limit_spec()
                },
                Err(e) => {
                    &&& *final(self) == *old(self)
                    &&& (e.code_spec() == StatusCode::Invalid <==> size < 0)
                    &&& (size >= 0 ==> e.code_spec() == StatusCode::OutOfMemory
                        && size > old(self).builder_bytes().len()
                        && (size > MAX_BUILDER_CAPACITY
                            || old(self).pool_spec().allocated_spec() + (round_up_pow2(size as int)
                            - old(self).builder_bytes().len())
                            > old(self).pool_spec().limit_spec()))
                },
            },
    {
        if size < 0 {
            return Err(ArrowError::invalid("builder size must not be negative"));
        }
        let capacity = self.bytes.len();
        if size as usize <= capacity {
            self.size = size as usize;
            proof {
                assert(self.builder_bytes().take(old(self).builder_bytes().len() as int)
                    =~= old(self).builder_bytes());
            }
            return Ok(capacity as i32);
        }
        if size > MAX_BUILDER_CAPACITY {
            return Err(ArrowError::out_of_memory("builder capacity limit exceeded"));
        }
        let new_capacity = round_up_pow2_exec(size as i64);
        let mut pool = self.pool;
        match pool.charge(new_capacity - capacity as i64) {
            Ok(()) => {}
            Err(e) => {
                return Err(e);
            }
        }
        let mut bytes = clone_bytes(&self.bytes);
        bytes.resize(new_capacity as usize, 0u8);
        let next = BufferBuilder { bytes, size: size as usize, len: self.len, pool };
        *self = next;
        proof {
            assert(self.builder_bytes().take(old(self).builder_bytes().len() as int)
                =~= old(self).builder_bytes());
        }
        Ok(new_capacity as i32)
    }

    /// Append raw bytes at the cursor, growing the buffer when the
    /// capacity is exhausted. Returns the new cursor. The builder is
    /// unchanged on failure.
    pub fn raw_append(&mut self, data: &Vec<u8>) -> (r: Result<i32, ArrowError>)
        requires
            old(self).wf(),
        ensures
            final(self).wf(),
            match r {
                Ok(new_len) => {
                    &&& new_len == old(self).builder_len() + data@.len()
                    &&& final(self).builder_len() == old(self).builder_len() + data@.len()
                    &&& final(self).builder_bytes().len() == resize_capacity(
                        old(self).builder_bytes().len() as int,
                        old(self).builder_len() + data@.len(),
                    )
                    &&& final(self).builder_size() == if old(self).builder_len() + data@.len()
                        <= old(self).builder_bytes().len() {
                        old(self).builder_size()
                    } else {
                        old(self).builder_len() + data@.len()
                    }
                    &&& forall|j: int| 0 <= j < old(self).builder_len()
                        ==> final(self).builder_bytes()[j] == old(self).builder_bytes()[j]
                    &&& forall|j: int| 0 <= j < data@.len()
                        ==> final(self).builder_bytes()[old(self).builder_len() + j] == data@[j]
                    &&& forall|j: int| old(self).builder_len() + data@.len() <= j
                        < final(self).builder_bytes().len()
                        ==> final(self).builder_bytes()[j] == (if j
                            < old(self).builder_bytes().len() {
                            old(self).builder_bytes()[j]
                        } else {
                            0u8
                        })
                    &&& final(self).pool_spec().allocated_spec()
                        == old(self).pool_spec().allocated_spec()
                            + (final(self).builder_bytes().len()
                            - old(self).builder_bytes().len())
                    &&& final(self).pool_spec().limit_spec()
                        == old(self).pool_spec().limit_spec()
                },
                Err(e) => {
                    &&& *final(self) == *old(self)
                    &&& e.code_spec() == StatusCode::OutOfMemory
                    &&& old(self).builder_len() + data@.len()
                        > old(self).builder_bytes().len()
                    &&& (old(self).builder_len() + data@.len() > MAX_BUILDER_CAPACITY
                        || old(self).pool_spec().allocated_spec() + (round_up_pow2(
                        old(self).builder_len() + data@.len(),
                    ) - old(self).builder_bytes().len()) > old(self).pool_spec().limit_spec())
                },
            },
    {
        let k = data.len();
        if k > (i32::MAX as usize) - self.len {
            return Err(ArrowError::out_of_memory("builder capacity limit exceeded"));
        }
        let needed = self.len + k;
        let capacity = self.bytes.len();
        if needed > capacity {
            if needed > MAX_BUILDER_CAPACITY as usize {
                return Err(ArrowError::out_of_memory("builder capacity limit exceeded"));
            }
            let new_capacity = round_up_pow2_exec(needed as i64);
            let mut pool = self.pool;
            match pool.charge(new_capacity - capacity as i64) {
                Ok(()) => {}
                Err(e) => {
                    return Err(e);
                }
            }
            let mut bytes = clone_bytes(&self.bytes);
            bytes.resize(new_capacity as usize, 0u8);
            let next = BufferBuilder { bytes, size: needed, len: self.len, pool };
            *self = next;
        }
        write_bytes_at(&mut self.bytes, self.len, data);
        self.len = needed;
        Ok(needed as i32)
    }

    /// Freeze the accumulated bytes into a resizable buffer, leaving the
    /// builder empty.
    pub fn finish(&mut self) -> (r: MutableBuf)
        requires
            old(self).wf(),
        ensures
            final(self).wf(),
            r.buf_bytes() == old(self).builder_bytes(),
            r.buf_size() == old(self).builder_size(),
            r.pool_spec() == old(self).pool_spec(),
            final(self).builder_bytes().len() == 0,
            final(self).builder_size() == 0,
            final(self).builder_len() == 0,
            final(self).pool_spec() == old(self).pool_spec(),
    {
        let pool = self.pool;
        let size = self.size;
        let mut bytes: Vec<u8> = Vec::new();
        core::mem::swap(&mut bytes, &mut self.bytes);
        self.size = 0;
        self.len = 0;
        MutableBuf::from_parts(bytes, size, pool)
    }

    /// The builder's current capacity.
    pub fn capacity(&self) -> (r: i32)
        requires
            self.wf(),
        ensures
            r == self.builder_bytes().len(),
    {
        self.bytes.len() as i32
    }

    /// The append cursor: how many bytes have been appended so far.
    pub fn len(&self) -> (r: i32)
        requires
            self.wf(),
        ensures
            r == self.builder_len(),
    {
        self.len as i32
    }
}

} // verus!
