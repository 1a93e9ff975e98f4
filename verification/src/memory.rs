//! A byte region with an access mode: the in-memory model of a
//! memory-mapped file.
//!
//! The region is created with a size or from existing bytes, is read and
//! written at absolute positions under its access mode, and is closed
//! once. Opening a path and flushing bytes back to a file is the caller's
//! business; the region itself is plain bytes, and every bounds rule is
//! enforced here.

use vstd::prelude::*;

use crate::buffer::{Buf, Buffer, MAX_BUFFER_CAPACITY, write_bytes_at};
use crate::status::{ArrowError, StatusCode};

verus! {

/// What access a region was opened with.
#[derive(Clone, Copy, PartialEq, Eq, Structural, Debug)]
pub enum AccessMode {
    READ,
    WRITE,
    READWRITE,
}

/// The region bytes with `data` written at `pos`.
pub open spec fn spec_overwrite(region: Seq<u8>, pos: int, data: Seq<u8>) -> Seq<u8> {
    region.subrange(0, pos) + data + region.subrange(pos + data.len(), region.len() as int)
}

/// What overwriting changes and what it leaves alone.
pub proof fn lemma_overwrite_facts(region: Seq<u8>, pos: int, data: Seq<u8>)
    requires
        0 <= pos,
        pos + data.len() <= region.len(),
    ensures
        spec_overwrite(region, pos, data).len() == region.len(),
        forall|j: int| 0 <= j < pos ==> #[trigger] spec_overwrite(region, pos, data)[j]
            == region[j],
        forall|j: int| pos + data.len() <= j < region.len() ==> #[trigger] spec_overwrite(
            region,
            pos,
            data,
        )[j] == region[j],
        spec_overwrite(region, pos, data).subrange(pos, pos + data.len()) == data,
        forall|j: int| 0 <= j < data.len() ==> #[trigger] spec_overwrite(region, pos, data)[pos
            + j] == data[j],
{
    let result = spec_overwrite(region, pos, data);
    assert forall|j: int| 0 <= j < data.len() implies #[trigger] result[pos + j] == data[j] by {
    }
    assert(result.subrange(pos, pos + data.len()) =~= data);
}

/// A byte region under an access mode, standing in for a mapped file.
pub struct MemoryMappedSource {
    data: Vec<u8>,
    mode: AccessMode,
    is_open: bool,
}

/// The kinds of byte source a reader or writer can be bound to.
pub enum MemorySource {
    MEMORY_MAPPED_SRC { data: MemoryMappedSource },
}

impl MemoryMappedSource {
    /// The region's bytes.
    pub closed spec fn bytes_spec(&self) -> Seq<u8> {
        self.data@
    }

    /// The access mode the region was opened with.
    pub closed spec fn mode_spec(&self) -> AccessMode {
        self.mode
    }

    /// Whether the region is still open.
    pub closed spec fn is_open_spec(&self) -> bool {
        self.is_open
    }

    /// Whether reads are allowed: the region is open and not write-only.
    pub open spec fn readable(&self) -> bool {
        self.is_open_spec() && self.mode_spec() != AccessMode::WRITE
    }

    /// Whether writes are allowed: the region is open and not read-only.
    pub open spec fn writable(&self) -> bool {
        self.is_open_spec() && self.mode_spec() != AccessMode::READ
    }

    /// Well-formedness: the region's size stays within the same bound as
    /// a buffer's capacity, which leaves alignment arithmetic headroom.
    pub open spec fn wf(&self) -> bool {
        self.bytes_spec().len() <= MAX_BUFFER_CAPACITY
    }

    /// Open a region over existing bytes.
    pub fn from_vec(data: Vec<u8>, mode: AccessMode) -> (r: MemoryMappedSource)
        requires
            data@.len() <= MAX_BUFFER_CAPACITY,
        ensures
            r.wf(),
            r.bytes_spec() == data@,
            r.mode_spec() == mode,
            r.is_open_spec(),
    {
        MemoryMappedSource { data, mode, is_open: true }
    }

    /// Open a fresh zero-filled region of the given size.
    pub fn with_size(size: i64, mode: AccessMode) -> (r: Result<MemoryMappedSource, ArrowError>)
        ensures
            match r {
                Ok(src) => {
                    &&& 0 <= size <= usize::MAX
                    &&& src.wf()
                    &&& src.bytes_spec() =~= Seq::new(size as nat, |i: int| 0u8)
                    &&& src.mode_spec() == mode
                    &&& src.is_open_spec()
                },
                Err(e) => {
                    &&& (e.code_spec() == StatusCode::Invalid <==> size < 0)
                    &&& (size >= 0 ==> e.code_spec() == StatusCode::OutOfMemory && (size
                        > usize::MAX || size > MAX_BUFFER_CAPACITY))
                },
            },
    {
        if size < 0 {
            return Err(ArrowError::invalid("a region cannot have a negative size"));
        }
        if size > MAX_BUFFER_CAPACITY {
            return Err(ArrowError::out_of_memory("region size limit exceeded"));
        }
        if (size as u64) > (usize::MAX as u64) {
            return Err(ArrowError::out_of_memory("region does not fit the address space"));
        }
        let data: Vec<u8> = vec![0u8; size as usize];
        Ok(MemoryMappedSource { data, mode, is_open: true })
    }

    /// The region's size in bytes.
    pub fn size(&self) -> (r: i64)
        requires
            self.wf(),
        ensures
            r == self.bytes_spec().len(),
    {
        self.data.len() as i64
    }

    /// The access mode.
    pub fn mode(&self) -> (r: AccessMode)
        ensures
            r == self.mode_spec(),
    {
        self.mode
    }

    /// Read `nbytes` bytes at `pos` into a fresh buffer. Fails with
    /// `IOError` when the region is closed or write-only or the range
    /// lies outside it.
    pub fn read(&self, pos: i64, nbytes: i64) -> (r: Result<Buf, ArrowError>)
        requires
            self.wf(),
        ensures
            match r {
                Ok(buf) => {
                    &&& self.readable()
                    &&& 0 <= pos
                    &&& 0 <= nbytes
                    &&& pos + nbytes <= self.bytes_spec().len()
                    &&& buf.buf_bytes() == self.bytes_spec().subrange(pos as int, pos + nbytes)
                    &&& buf.buf_size() == nbytes
                },
                Err(e) => {
                    &&& e.code_spec() == StatusCode::IOError
                    &&& (!self.readable() || pos < 0 || nbytes < 0 || pos + nbytes
                        > self.bytes_spec().len())
                },
            },
    {
        if !self.is_open {
            return Err(ArrowError::io_error("the region is closed"));
        }
        let readable = match self.mode {
            AccessMode::WRITE => false,
            _ => true,
        };
        if !readable {
            return Err(ArrowError::io_error("the region is write-only"));
        }
        if pos < 0 || nbytes < 0 {
            return Err(ArrowError::io_error("read range out of bounds"));
        }
        let total = self.data.len();
        if nbytes > (total as i64) - pos {
            return Err(ArrowError::io_error("read range out of bounds"));
        }
        let mut out: Vec<u8> = Vec::new();
        let mut i: usize = 0;
        let base = pos as usize;
        let n = nbytes as usize;
        while i < n
            invariant
                i <= n,
                base + n <= total,
                total == self.bytes_spec().len(),
                out@.len() == i,
                forall|j: int| 0 <= j < i ==> out@[j] == self.bytes_spec()[base + j],
            decreases n - i,
        {
            out.push(self.data[base + i]);
            i = i + 1;
        }
        proof {
            assert(out@ =~= self.bytes_spec().subrange(pos as int, pos + nbytes));
        }
        Ok(Buf::from_raw(out))
    }

    /// Write `data` at `pos`, leaving all other bytes alone. Fails with
    /// `IOError` when the region is closed or read-only or the range lies
    /// outside it; the region is unchanged on failure.
    pub fn write(&mut self, pos: i64, data: &Vec<u8>) -> (r: Result<(), ArrowError>)
        requires
            old(self).wf(),
        ensures
            final(self).wf(),
            final(self).mode_spec() == old(self).mode_spec(),
            final(self).is_open_spec() == old(self).is_open_spec(),
            match r {
                Ok(()) => {
                    &&& old(self).writable()
                    &&& 0 <= pos
                    &&& pos + data@.len() <= old(self).bytes_spec().len()
                    &&& final(self).bytes_spec() == spec_overwrite(
                        old(self).bytes_spec(),
                        pos as int,
                        data@,
                    )
                },
                Err(e) => {
                    &&& final(self).bytes_spec() == old(self).bytes_spec()
                    &&& e.code_spec() == StatusCode::IOError
                    &&& (!old(self).writable() || pos < 0 || pos + data@.len() > old(
                        self,
                    ).bytes_spec().len())
                },
            },
    {
        if !self.is_open {
            return Err(ArrowError::io_error("the region is closed"));
        }
        let writable = match self.mode {
            AccessMode::READ => false,
            _ => true,
        };
        if !writable {
            return Err(ArrowError::io_error("the region is read-only"));
        }
        if pos < 0 {
            return Err(ArrowError::io_error("write range out of bounds"));
        }
        let total = self.data.len();
        let n = data.len();
        if pos > total as i64 {
            return Err(ArrowError::io_error("write range out of bounds"));
        }
        let room = (total as i64) - pos;
        if (n as u64) > (room as u64) {
            return Err(ArrowError::io_error("write range out of bounds"));
        }
        write_bytes_at(&mut self.data, pos as usize, data);
        proof {
            let result = spec_overwrite(old(self).bytes_spec(), pos as int, data@);
            assert(result.len() == old(self).bytes_spec().len());
            assert forall|j: int| 0 <= j < result.len() implies self.data@[j] == result[j] by {
                if pos <= j < pos + data@.len() {
                    assert(self.data@[pos + (j - pos)] == data@[j - pos]);
                }
            }
            assert(self.bytes_spec() =~= result);
        }
        Ok(())
    }

    /// Close the region; a closed region accepts no further reads,
    /// writes, or closes.
    pub fn close(&mut self) -> (r: Result<(), ArrowError>)
        requires
            old(self).wf(),
        ensures
            final(self).wf(),
            final(self).bytes_spec() == old(self).bytes_spec(),
            final(self).mode_spec() == old(self).mode_spec(),
            !final(self).is_open_spec(),
            match r {
                Ok(()) => old(self).is_open_spec(),
                Err(e) => !old(self).is_open_spec() && e.code_spec() == StatusCode::IOError,
            },
    {
        if !self.is_open {
            return Err(ArrowError::io_error("the region is already closed"));
        }
        self.is_open = false;
        Ok(())
    }

    /// Give up the region, handing back its bytes; how they reach a file
    /// is the caller's business.
    pub fn into_vec(self) -> (r: Vec<u8>)
        ensures
            r@ == self.bytes_spec(),
    {
        match self {
            MemoryMappedSource { data, mode, is_open } => data,
        }
    }
}

} // verus!

verus! {

impl MemoryMappedSource {
    /// Whether the region is still open.
    pub fn is_open(&self) -> (r: bool)
        ensures
            r == self.is_open_spec(),
    {
        self.is_open
    }
}

} // verus!
