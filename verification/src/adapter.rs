//! The batch serialization protocol: writing a row batch into a byte
//! region and reconstructing it from there.
//!
//! The writer lays out every column's buffers in declaration order, each
//! aligned to a 64-byte boundary, and then writes a header that locates
//! them: a fixed-width record per column holding the type code, length,
//! null count and the (offset, length) pair of each buffer. The header's
//! own offset is returned to the caller and must be handed verbatim to a
//! later reader, which validates every recorded range against the region
//! before rebuilding the arrays from the recorded slices.
//!
//! Array form exists only for the null type and the fixed-width
//! primitive types, so a batch never nests and the writer never
//! recurses; a header whose type codes name anything else is rejected as
//! unsupported when read.

use vstd::prelude::*;

use vstd::bytes::{
    spec_u32_to_le_bytes, spec_u32_from_le_bytes, lemma_auto_spec_u32_to_from_le_bytes,
    spec_u64_to_le_bytes, spec_u64_from_le_bytes, lemma_auto_spec_u64_to_from_le_bytes,
    u32_from_le_bytes, u32_to_le_bytes, u64_from_le_bytes, u64_to_le_bytes,
};

use crate::array::{
    BaseArray, array_equals, bit_at, count_valid_bits, lemma_valid_count_congruent, valid_count,
};
use crate::buffer::{Buf, Buffer, MAX_BUFFER_CAPACITY, buffer_contents, lemma_buf_size_nonneg};
use crate::memory::{AccessMode, MemoryMappedSource, lemma_overwrite_facts, spec_overwrite};
use crate::status::{ArrowError, StatusCode};
use crate::table::{RowBatch, batch_parts_ok};
use crate::ty::{DataType, Schema, Ty, type_value_size};

verus! {

/// Buffer bodies are aligned to this boundary so a reader can
/// reinterpret them as fixed-width value arrays in place.
pub const IPC_ALIGNMENT: i64 = 64;

/// Bytes of the header before the per-column records begin: the header
/// length, the column count and the row count.
pub const HEADER_BASE: i64 = 16;

/// Bytes of one per-column header record: a type code, a length, a null
/// count, and two (offset, length) pairs.
pub const COLUMN_RECORD: i64 = 44;

/// `pos` rounded up to the alignment boundary.
pub open spec fn align64(pos: int) -> int {
    ((pos + 63) / 64) * 64
}

/// Alignment never moves a position backwards, and never by 64 or more.
pub proof fn lemma_align64(pos: int)
    requires
        0 <= pos,
    ensures
        pos <= align64(pos) < pos + 64,
{
    assert(pos <= ((pos + 63) / 64) * 64 < pos + 64) by (nonlinear_arith)
        requires
            0 <= pos,
    ;
}

/// Compute the aligned position.
fn align64_exec(pos: i64) -> (r: i64)
    requires
        0 <= pos <= MAX_BUFFER_CAPACITY,
    ensures
        r == align64(pos as int),
        pos <= r < pos + 64,
{
    proof {
        lemma_align64(pos as int);
    }
    ((pos + 63) / 64) * 64
}

/// The numeric code each type tag is stored under.
pub open spec fn spec_ty_code(ty: Ty) -> u32 {
    match ty {
        Ty::NA => 0,
        Ty::BOOL => 1,
        Ty::UINT8 => 2,
        Ty::INT8 => 3,
        Ty::UINT16 => 4,
        Ty::INT16 => 5,
        Ty::UINT32 => 6,
        Ty::INT32 => 7,
        Ty::UINT64 => 8,
        Ty::INT64 => 9,
        Ty::FLOAT => 10,
        Ty::DOUBLE => 11,
        Ty::CHAR => 12,
        Ty::STRING => 13,
        Ty::VARCHAR => 14,
        Ty::BINARY => 15,
        Ty::DATE => 16,
        Ty::TIMESTAMP => 17,
        Ty::TIMESTAMP_DOUBLE => 18,
        Ty::TIME => 19,
        Ty::DECIMAL => 20,
        Ty::DECIMAL_TEXT => 21,
        Ty::LIST => 30,
        Ty::STRUCT => 31,
        Ty::DENSE_UNION => 32,
        Ty::SPARSE_UNION => 33,
        Ty::JSON_SCALAR => 50,
        Ty::USER => 60,
    }
}

/// The tag a stored code decodes to, if any.
pub open spec fn spec_code_ty(c: u32) -> Option<Ty> {
    if c == 0 {
        Some(Ty::NA)
    } else if c == 1 {
        Some(Ty::BOOL)
    } else if c == 2 {
        Some(Ty::UINT8)
    } else if c == 3 {
        Some(Ty::INT8)
    } else if c == 4 {
        Some(Ty::UINT16)
    } else if c == 5 {
        Some(Ty::INT16)
    } else if c == 6 {
        Some(Ty::UINT32)
    } else if c == 7 {
        Some(Ty::INT32)
    } else if c == 8 {
        Some(Ty::UINT64)
    } else if c == 9 {
        Some(Ty::INT64)
    } else if c == 10 {
        Some(Ty::FLOAT)
    } else if c == 11 {
        Some(Ty::DOUBLE)
    } else if c == 12 {
        Some(Ty::CHAR)
    } else if c == 13 {
        Some(Ty::STRING)
    } else if c == 14 {
        Some(Ty::VARCHAR)
    } else if c == 15 {
        Some(Ty::BINARY)
    } else if c == 16 {
        Some(Ty::DATE)
    } else if c == 17 {
        Some(Ty::TIMESTAMP)
    } else if c == 18 {
        Some(Ty::TIMESTAMP_DOUBLE)
    } else if c == 19 {
        Some(Ty::TIME)
    } else if c == 20 {
        Some(Ty::DECIMAL)
    } else if c == 21 {
        Some(Ty::DECIMAL_TEXT)
    } else if c == 30 {
        Some(Ty::LIST)
    } else if c == 31 {
        Some(Ty::STRUCT)
    } else if c == 32 {
        Some(Ty::DENSE_UNION)
    } else if c == 33 {
        Some(Ty::SPARSE_UNION)
    } else if c == 50 {
        Some(Ty::JSON_SCALAR)
    } else if c == 60 {
        Some(Ty::USER)
    } else {
        None
    }
}

/// Decoding a stored code gives back the tag it was stored for.
pub proof fn lemma_ty_code_inverse(ty: Ty)
    ensures
        spec_code_ty(spec_ty_code(ty)) == Some(ty),
{
}

/// The stored code of a type tag.
fn ty_code(ty: Ty) -> (r: u32)
    ensures
        r == spec_ty_code(ty),
{
    match ty {
        Ty::NA => 0,
        Ty::BOOL => 1,
        Ty::UINT8 => 2,
        Ty::INT8 => 3,
        Ty::UINT16 => 4,
        Ty::INT16 => 5,
        Ty::UINT32 => 6,
        Ty::INT32 => 7,
        Ty::UINT64 => 8,
        Ty::INT64 => 9,
        Ty::FLOAT => 10,
        Ty::DOUBLE => 11,
        Ty::CHAR => 12,
        Ty::STRING => 13,
        Ty::VARCHAR => 14,
        Ty::BINARY => 15,
        Ty::DATE => 16,
        Ty::TIMESTAMP => 17,
        Ty::TIMESTAMP_DOUBLE => 18,
        Ty::TIME => 19,
        Ty::DECIMAL => 20,
        Ty::DECIMAL_TEXT => 21,
        Ty::LIST => 30,
        Ty::STRUCT => 31,
        Ty::DENSE_UNION => 32,
        Ty::SPARSE_UNION => 33,
        Ty::JSON_SCALAR => 50,
        Ty::USER => 60,
    }
}

/// The tag a stored code decodes to, if any.
fn code_ty(c: u32) -> (r: Option<Ty>)
    ensures
        r == spec_code_ty(c),
{
    if c == 0 {
        Some(Ty::NA)
    } else if c == 1 {
        Some(Ty::BOOL)
    } else if c == 2 {
        Some(Ty::UINT8)
    } else if c == 3 {
        Some(Ty::INT8)
    } else if c == 4 {
        Some(Ty::UINT16)
    } else if c == 5 {
        Some(Ty::INT16)
    } else if c == 6 {
        Some(Ty::UINT32)
    } else if c == 7 {
        Some(Ty::INT32)
    } else if c == 8 {
        Some(Ty::UINT64)
    } else if c == 9 {
        Some(Ty::INT64)
    } else if c == 10 {
        Some(Ty::FLOAT)
    } else if c == 11 {
        Some(Ty::DOUBLE)
    } else if c == 12 {
        Some(Ty::CHAR)
    } else if c == 13 {
        Some(Ty::STRING)
    } else if c == 14 {
        Some(Ty::VARCHAR)
    } else if c == 15 {
        Some(Ty::BINARY)
    } else if c == 16 {
        Some(Ty::DATE)
    } else if c == 17 {
        Some(Ty::TIMESTAMP)
    } else if c == 18 {
        Some(Ty::TIMESTAMP_DOUBLE)
    } else if c == 19 {
        Some(Ty::TIME)
    } else if c == 20 {
        Some(Ty::DECIMAL)
    } else if c == 21 {
        Some(Ty::DECIMAL_TEXT)
    } else if c == 30 {
        Some(Ty::LIST)
    } else if c == 31 {
        Some(Ty::STRUCT)
    } else if c == 32 {
        Some(Ty::DENSE_UNION)
    } else if c == 33 {
        Some(Ty::SPARSE_UNION)
    } else if c == 50 {
        Some(Ty::JSON_SCALAR)
    } else if c == 60 {
        Some(Ty::USER)
    } else {
        None
    }
}

/// The write cursor after the bodies of the first `i` columns, starting
/// from `pos`: each non-null column appends its aligned validity bitmap
/// and its aligned value buffer.
pub open spec fn col_cursor(cols: Seq<BaseArray>, pos: int, i: int) -> int
    decreases i,
{
    if i <= 0 {
        pos
    } else {
        let c = col_cursor(cols, pos, i - 1);
        if cols[i - 1].ty_spec() == Ty::NA {
            c
        } else {
            align64(align64(c) + cols[i - 1].buffers_spec()[0].buf_size()) + cols[i
                - 1].buffers_spec()[1].buf_size()
        }
    }
}

/// Where column `i`'s validity bitmap body starts.
pub open spec fn col_bitmap_off(cols: Seq<BaseArray>, pos: int, i: int) -> int {
    align64(col_cursor(cols, pos, i))
}

/// Where column `i`'s value buffer body starts.
pub open spec fn col_values_off(cols: Seq<BaseArray>, pos: int, i: int) -> int {
    align64(col_bitmap_off(cols, pos, i) + cols[i].buffers_spec()[0].buf_size())
}

/// Where the header starts: right after the last body, aligned.
pub open spec fn header_pos(cols: Seq<BaseArray>, pos: int) -> int {
    align64(col_cursor(cols, pos, cols.len() as int))
}

/// The header's total length for `ncols` columns.
pub open spec fn spec_header_len(ncols: int) -> int {
    HEADER_BASE + COLUMN_RECORD * ncols
}

/// How many bytes writing the batch at `pos` needs in total.
pub open spec fn batch_total_size(cols: Seq<BaseArray>, pos: int) -> int {
    header_pos(cols, pos) + spec_header_len(cols.len() as int)
}

/// The cursor starts at `pos` and only moves forward with each column.
proof fn lemma_col_cursor_lb(cols: Seq<BaseArray>, pos: int, i: int)
    requires
        0 <= pos,
        0 <= i,
    ensures
        pos <= col_cursor(cols, pos, i),
        i >= 1 ==> col_cursor(cols, pos, i - 1) <= col_cursor(cols, pos, i),
    decreases i,
{
    if i >= 1 {
        lemma_col_cursor_lb(cols, pos, i - 1);
        let c = col_cursor(cols, pos, i - 1);
        lemma_align64(c);
        if cols[i - 1].ty_spec() != Ty::NA {
            lemma_buf_size_nonneg(cols[i - 1].buffers_spec()[0]);
            lemma_buf_size_nonneg(cols[i - 1].buffers_spec()[1]);
            lemma_align64(align64(c) + cols[i - 1].buffers_spec()[0].buf_size());
        }
    }
}

/// The cursor never moves backwards as columns are laid out.
pub proof fn lemma_col_cursor_monotonic(cols: Seq<BaseArray>, pos: int, i: int, j: int)
    requires
        0 <= pos,
        0 <= i <= j,
    ensures
        pos <= col_cursor(cols, pos, i) <= col_cursor(cols, pos, j),
    decreases j - i,
{
    lemma_col_cursor_lb(cols, pos, i);
    if i < j {
        lemma_col_cursor_lb(cols, pos, j);
        lemma_col_cursor_monotonic(cols, pos, i, j - 1);
    }
}

/// One column's header record: type code, length, null count, then the
/// bitmap and value buffer (offset, length) pairs; a null-type column
/// stores zeroes for the pairs.
pub open spec fn col_record_bytes(cols: Seq<BaseArray>, pos: int, i: int) -> Seq<u8> {
    let c = cols[i];
    spec_u32_to_le_bytes(spec_ty_code(c.ty_spec())) + spec_u32_to_le_bytes(c.len_spec() as u32)
        + spec_u32_to_le_bytes(c.null_count_spec() as u32) + if c.ty_spec() == Ty::NA {
        spec_u64_to_le_bytes(0u64) + spec_u64_to_le_bytes(0u64) + spec_u64_to_le_bytes(0u64)
            + spec_u64_to_le_bytes(0u64)
    } else {
        spec_u64_to_le_bytes(col_bitmap_off(cols, pos, i) as u64) + spec_u64_to_le_bytes(
            c.buffers_spec()[0].buf_size() as u64,
        ) + spec_u64_to_le_bytes(col_values_off(cols, pos, i) as u64) + spec_u64_to_le_bytes(
            c.buffers_spec()[1].buf_size() as u64,
        )
    }
}

/// The concatenated records of the first `i` columns.
pub open spec fn col_records(cols: Seq<BaseArray>, pos: int, i: int) -> Seq<u8>
    decreases i,
{
    if i <= 0 {
        Seq::<u8>::empty()
    } else {
        col_records(cols, pos, i - 1) + col_record_bytes(cols, pos, i - 1)
    }
}

/// The whole header: its own length, the column count, the row count,
/// then one record per column.
pub open spec fn spec_header_bytes(cols: Seq<BaseArray>, pos: int, num_rows: int) -> Seq<u8> {
    spec_u64_to_le_bytes(spec_header_len(cols.len() as int) as u64) + spec_u32_to_le_bytes(
        cols.len() as u32,
    ) + spec_u32_to_le_bytes(num_rows as u32) + col_records(cols, pos, cols.len() as int)
}

/// Each record is `COLUMN_RECORD` bytes, so the records of `i` columns
/// take `COLUMN_RECORD * i` bytes.
pub proof fn lemma_col_records_len(cols: Seq<BaseArray>, pos: int, i: int)
    requires
        0 <= i,
    ensures
        col_records(cols, pos, i).len() == COLUMN_RECORD * i,
    decreases i,
{
    lemma_auto_spec_u32_to_from_le_bytes();
    lemma_auto_spec_u64_to_from_le_bytes();
    if i > 0 {
        lemma_col_records_len(cols, pos, i - 1);
    }
}

/// How many bytes writing `batch` at `pos` would take: all buffer bodies,
/// aligned, plus the trailing header. Fails only when the total would
/// exceed the largest region size.
pub fn get_row_batch_size(batch: &RowBatch, pos: i64) -> (r: Result<i64, ArrowError>)
    requires
        0 <= pos <= MAX_BUFFER_CAPACITY,
    ensures
        match r {
            Ok(s) => {
                &&& s == batch_total_size(batch.columns_spec(), pos as int)
                &&& header_pos(batch.columns_spec(), pos as int) <= MAX_BUFFER_CAPACITY
            },
            Err(e) => {
                &&& e.code_spec() == StatusCode::OutOfMemory
                &&& header_pos(batch.columns_spec(), pos as int) > MAX_BUFFER_CAPACITY
            },
        },
{
    proof {
        use_type_invariant(batch);
    }
    let ghost cols = batch.columns_spec();
    let n = batch.column_num();
    let mut cursor: i64 = pos;
    let mut i: i32 = 0;
    proof {
        lemma_col_cursor_monotonic(cols, pos as int, 0, 0);
    }
    while i < n
        invariant
            0 <= i <= n,
            batch.wf(),
            cols == batch.columns_spec(),
            n == cols.len(),
            0 <= pos <= MAX_BUFFER_CAPACITY,
            cursor == col_cursor(cols, pos as int, i as int),
            pos <= cursor <= MAX_BUFFER_CAPACITY,
        decreases n - i,
    {
        let column = batch.column(i);
        proof {
            use_type_invariant(column);
            lemma_col_cursor_monotonic(cols, pos as int, i as int, i + 1);
        }
        match column.ty() {
            Ty::NA => {}
            _ => {
                let bm = align64_exec(cursor);
                let bm_size = column.buffers()[0].size();
                if bm_size > MAX_BUFFER_CAPACITY - bm {
                    proof {
                        cursor_overflow_witness(cols, pos as int, i as int);
                    }
                    return Err(ArrowError::out_of_memory("serialized batch is too large"));
                }
                let vs = align64_exec(bm + bm_size);
                let vs_size = column.buffers()[1].size();
                if vs_size > MAX_BUFFER_CAPACITY - vs {
                    proof {
                        cursor_overflow_witness(cols, pos as int, i as int);
                    }
                    return Err(ArrowError::out_of_memory("serialized batch is too large"));
                }
                cursor = vs + vs_size;
            },
        }
        i = i + 1;
    }
    let h = align64_exec(cursor);
    if h > MAX_BUFFER_CAPACITY {
        return Err(ArrowError::out_of_memory("serialized batch is too large"));
    }
    let hlen = HEADER_BASE + COLUMN_RECORD * (n as i64);
    Ok(h + hlen)
}

/// If the cursor passes the region bound part way through the layout, it
/// stays past it to the end, so the header position is past it too.
proof fn cursor_overflow_witness(cols: Seq<BaseArray>, pos: int, i: int)
    requires
        0 <= pos,
        0 <= i < cols.len(),
        col_cursor(cols, pos, i + 1) > MAX_BUFFER_CAPACITY,
    ensures
        header_pos(cols, pos) > MAX_BUFFER_CAPACITY,
{
    lemma_col_cursor_monotonic(cols, pos, i + 1, cols.len() as int);
    lemma_align64(col_cursor(cols, pos, cols.len() as int));
}

} // verus!

verus! {

/// Whether the bodies of the first `i` columns stand in the region at
/// their layout offsets.
pub open spec fn bodies_in_place(cols: Seq<BaseArray>, pos: int, i: int, region: Seq<u8>) -> bool {
    forall|t: int| 0 <= t < i && (#[trigger] cols[t]).ty_spec() != Ty::NA ==> region.subrange(
        col_bitmap_off(cols, pos, t),
        col_bitmap_off(cols, pos, t) + cols[t].buffers_spec()[0].buf_size(),
    ) == buffer_contents(&cols[t].buffers_spec()[0]) && region.subrange(
        col_values_off(cols, pos, t),
        col_values_off(cols, pos, t) + cols[t].buffers_spec()[1].buf_size(),
    ) == buffer_contents(&cols[t].buffers_spec()[1])
}

/// A column's two body ranges end no later than the cursor after it.
proof fn lemma_col_ranges(cols: Seq<BaseArray>, pos: int, t: int)
    requires
        0 <= pos,
        0 <= t < cols.len(),
        cols[t].ty_spec() != Ty::NA,
    ensures
        col_cursor(cols, pos, t) <= col_bitmap_off(cols, pos, t),
        col_bitmap_off(cols, pos, t) + cols[t].buffers_spec()[0].buf_size() <= col_values_off(
            cols,
            pos,
            t,
        ),
        col_values_off(cols, pos, t) + cols[t].buffers_spec()[1].buf_size() == col_cursor(
            cols,
            pos,
            t + 1,
        ),
        0 <= col_bitmap_off(cols, pos, t),
{
    lemma_col_cursor_monotonic(cols, pos, 0, t);
    lemma_buf_size_nonneg(cols[t].buffers_spec()[0]);
    lemma_buf_size_nonneg(cols[t].buffers_spec()[1]);
    lemma_align64(col_cursor(cols, pos, t));
    lemma_align64(col_bitmap_off(cols, pos, t) + cols[t].buffers_spec()[0].buf_size());
}

/// Changing the region at or past the cursor after the first `i` columns
/// leaves their bodies in place.
proof fn lemma_bodies_preserved(
    cols: Seq<BaseArray>,
    pos: int,
    i: int,
    before: Seq<u8>,
    after: Seq<u8>,
    wpos: int,
)
    requires
        0 <= pos,
        0 <= i <= cols.len(),
        col_cursor(cols, pos, i) <= wpos,
        col_cursor(cols, pos, i) <= before.len(),
        after.len() == before.len(),
        forall|j: int| 0 <= j < wpos && j < before.len() ==> #[trigger] after[j] == before[j],
        bodies_in_place(cols, pos, i, before),
    ensures
        bodies_in_place(cols, pos, i, after),
{
    assert forall|t: int| 0 <= t < i && (#[trigger] cols[t]).ty_spec() != Ty::NA implies
        after.subrange(
            col_bitmap_off(cols, pos, t),
            col_bitmap_off(cols, pos, t) + cols[t].buffers_spec()[0].buf_size(),
        ) == buffer_contents(&cols[t].buffers_spec()[0]) && after.subrange(
            col_values_off(cols, pos, t),
            col_values_off(cols, pos, t) + cols[t].buffers_spec()[1].buf_size(),
        ) == buffer_contents(&cols[t].buffers_spec()[1]) by {
        lemma_col_ranges(cols, pos, t);
        lemma_col_cursor_monotonic(cols, pos, t + 1, i);
        lemma_buf_size_nonneg(cols[t].buffers_spec()[0]);
        lemma_buf_size_nonneg(cols[t].buffers_spec()[1]);
        let bm_off = col_bitmap_off(cols, pos, t);
        let bm_size = cols[t].buffers_spec()[0].buf_size();
        let vs_off = col_values_off(cols, pos, t);
        let vs_size = cols[t].buffers_spec()[1].buf_size();
        assert(vs_off + vs_size <= wpos && vs_off + vs_size <= before.len());
        assert forall|j: int| bm_off <= j < bm_off + bm_size implies after[j] == before[j] by {
            assert(0 <= j && j < wpos && j < before.len());
        }
        assert forall|j: int| vs_off <= j < vs_off + vs_size implies after[j] == before[j] by {
            assert(0 <= j && j < wpos && j < before.len());
        }
        assert(after.subrange(bm_off, bm_off + bm_size) =~= before.subrange(
            bm_off,
            bm_off + bm_size,
        ));
        assert(after.subrange(vs_off, vs_off + vs_size) =~= before.subrange(
            vs_off,
            vs_off + vs_size,
        ));
    }
}

/// Whether every byte of `region` in `[a, b)` is zero.
pub open spec fn seq_zero(region: Seq<u8>, a: int, b: int) -> bool {
    forall|j: int| a <= j < b ==> region[j] == 0u8
}

/// Whether the alignment padding before each body of the first `i`
/// columns is zero bytes.
pub open spec fn padding_zeroed(cols: Seq<BaseArray>, pos: int, i: int, region: Seq<u8>) -> bool {
    forall|t: int| 0 <= t < i && (#[trigger] cols[t]).ty_spec() != Ty::NA ==> seq_zero(
        region,
        col_cursor(cols, pos, t),
        col_bitmap_off(cols, pos, t),
    ) && seq_zero(
        region,
        col_bitmap_off(cols, pos, t) + cols[t].buffers_spec()[0].buf_size(),
        col_values_off(cols, pos, t),
    )
}

/// Changing the region at or past the cursor after the first `i` columns
/// leaves their padding zeroed.
proof fn lemma_padding_preserved(
    cols: Seq<BaseArray>,
    pos: int,
    i: int,
    before: Seq<u8>,
    after: Seq<u8>,
    wpos: int,
)
    requires
        0 <= pos,
        0 <= i <= cols.len(),
        col_cursor(cols, pos, i) <= wpos,
        col_cursor(cols, pos, i) <= before.len(),
        after.len() == before.len(),
        forall|j: int| 0 <= j < wpos && j < before.len() ==> #[trigger] after[j] == before[j],
        padding_zeroed(cols, pos, i, before),
    ensures
        padding_zeroed(cols, pos, i, after),
{
    assert forall|t: int| 0 <= t < i && (#[trigger] cols[t]).ty_spec() != Ty::NA implies seq_zero(
        after,
        col_cursor(cols, pos, t),
        col_bitmap_off(cols, pos, t),
    ) && seq_zero(
        after,
        col_bitmap_off(cols, pos, t) + cols[t].buffers_spec()[0].buf_size(),
        col_values_off(cols, pos, t),
    ) by {
        lemma_col_ranges(cols, pos, t);
        lemma_col_cursor_monotonic(cols, pos, t, i);
        lemma_col_cursor_monotonic(cols, pos, t + 1, i);
        lemma_buf_size_nonneg(cols[t].buffers_spec()[0]);
        lemma_buf_size_nonneg(cols[t].buffers_spec()[1]);
        assert forall|j: int| col_cursor(cols, pos, t) <= j < col_bitmap_off(
            cols,
            pos,
            t,
        ) implies after[j] == 0u8 by {
            assert(0 <= j && j < wpos && j < before.len());
            assert(before[j] == 0u8);
        }
        assert forall|j: int| col_bitmap_off(cols, pos, t)
            + cols[t].buffers_spec()[0].buf_size() <= j < col_values_off(
            cols,
            pos,
            t,
        ) implies after[j] == 0u8 by {
            assert(0 <= j && j < wpos && j < before.len());
            assert(before[j] == 0u8);
        }
    }
}

/// Zero the bytes in `[from, to)`, an alignment gap of under one
/// boundary, leaving everything else alone.
fn write_zeros(src: &mut MemoryMappedSource, from: i64, to: i64) -> (r: Result<(), ArrowError>)
    requires
        old(src).wf(),
        0 <= from <= to,
        to - from <= 64,
    ensures
        final(src).wf(),
        final(src).mode_spec() == old(src).mode_spec(),
        final(src).is_open_spec() == old(src).is_open_spec(),
        final(src).bytes_spec().len() == old(src).bytes_spec().len(),
        match r {
            Ok(()) => {
                &&& old(src).writable()
                &&& to <= old(src).bytes_spec().len()
                &&& forall|j: int| 0 <= j < from
                    ==> #[trigger] final(src).bytes_spec()[j] == old(src).bytes_spec()[j]
                &&& forall|j: int| from <= j < to ==> #[trigger] final(src).bytes_spec()[j] == 0u8
                &&& forall|j: int| to <= j < old(src).bytes_spec().len()
                    ==> #[trigger] final(src).bytes_spec()[j] == old(src).bytes_spec()[j]
            },
            Err(e) => {
                &&& final(src).bytes_spec() == old(src).bytes_spec()
                &&& e.code_spec() == StatusCode::IOError
                &&& !(old(src).writable() && to <= old(src).bytes_spec().len())
            },
        },
{
    let n = (to - from) as usize;
    let zeros: Vec<u8> = vec![0u8; n];
    let ghost before = src.bytes_spec();
    match src.write(from, &zeros) {
        Ok(()) => {
            proof {
                lemma_overwrite_facts(before, from as int, zeros@);
                assert(src.bytes_spec() == spec_overwrite(before, from as int, zeros@));
                assert forall|j: int| from <= j < to implies #[trigger] src.bytes_spec()[j]
                    == 0u8 by {
                    assert(src.bytes_spec()[from + (j - from)] == zeros@[j - from]);
                }
            }
            Ok(())
        },
        Err(e) => Err(e),
    }
}

/// A copy of the first `n` bytes of `v`.
fn take_prefix(v: &Vec<u8>, n: usize) -> (r: Vec<u8>)
    requires
        n <= v@.len(),
    ensures
        r@ == v@.take(n as int),
{
    let mut out: Vec<u8> = Vec::new();
    let mut i: usize = 0;
    while i < n
        invariant
            i <= n,
            n <= v@.len(),
            out@.len() == i,
            forall|j: int| 0 <= j < i ==> out@[j] == v@[j],
        decreases n - i,
    {
        out.push(v[i]);
        i = i + 1;
    }
    proof {
        assert(out@ =~= v@.take(n as int));
    }
    out
}

/// Append the little-endian bytes of a `u32`.
fn push_u32(out: &mut Vec<u8>, x: u32)
    ensures
        final(out)@ == old(out)@ + spec_u32_to_le_bytes(x),
{
    let mut le = u32_to_le_bytes(x);
    out.append(&mut le);
}

/// Append the little-endian bytes of a `u64`.
fn push_u64(out: &mut Vec<u8>, x: u64)
    ensures
        final(out)@ == old(out)@ + spec_u64_to_le_bytes(x),
{
    let mut le = u64_to_le_bytes(x);
    out.append(&mut le);
}

/// Serialize `batch` into the region starting at `pos`: every column's
/// buffers in declaration order, each aligned to the 64-byte boundary by
/// zero-byte padding, then the header. Bytes outside the written span —
/// before `pos` and past the header's end — are left untouched. Returns
/// the header's offset, which a later reader must be given verbatim. On
/// failure the region is unchanged: the space needed is computed up
/// front, so a batch is never partially written.
#[verifier::rlimit(100)]
pub fn write_row_batch(src: &mut MemoryMappedSource, batch: &RowBatch, pos: i64) -> (r: Result<
    i64,
    ArrowError,
>)
    requires
        old(src).wf(),
    ensures
        final(src).wf(),
        final(src).mode_spec() == old(src).mode_spec(),
        final(src).is_open_spec() == old(src).is_open_spec(),
        final(src).bytes_spec().len() == old(src).bytes_spec().len(),
        match r {
            Ok(h) => {
                &&& old(src).writable()
                &&& 0 <= pos
                &&& h == header_pos(batch.columns_spec(), pos as int)
                &&& batch_total_size(batch.columns_spec(), pos as int)
                    <= old(src).bytes_spec().len()
                &&& bodies_in_place(
                    batch.columns_spec(),
                    pos as int,
                    batch.columns_spec().len() as int,
                    final(src).bytes_spec(),
                )
                &&& final(src).bytes_spec().subrange(
                    h as int,
                    h + spec_header_len(batch.columns_spec().len() as int),
                ) == spec_header_bytes(batch.columns_spec(), pos as int, batch.num_rows_spec())
                &&& padding_zeroed(
                    batch.columns_spec(),
                    pos as int,
                    batch.columns_spec().len() as int,
                    final(src).bytes_spec(),
                )
                &&& seq_zero(
                    final(src).bytes_spec(),
                    col_cursor(
                        batch.columns_spec(),
                        pos as int,
                        batch.columns_spec().len() as int,
                    ),
                    h as int,
                )
                &&& forall|j: int| 0 <= j < pos ==> final(src).bytes_spec()[j] == old(
                    src,
                ).bytes_spec()[j]
                &&& forall|j: int| batch_total_size(batch.columns_spec(), pos as int) <= j < old(
                    src,
                ).bytes_spec().len() ==> final(src).bytes_spec()[j] == old(src).bytes_spec()[j]
            },
            Err(e) => {
                &&& final(src).bytes_spec() == old(src).bytes_spec()
                &&& e.code_spec() == StatusCode::IOError
                &&& (!old(src).writable() || pos < 0 || batch_total_size(
                    batch.columns_spec(),
                    pos as int,
                ) > old(src).bytes_spec().len())
            },
        },
{
    proof {
        use_type_invariant(batch);
    }
    let ghost cols = batch.columns_spec();
    let size = src.size();
    if pos < 0 {
        return Err(ArrowError::io_error("write offset out of bounds"));
    }
    if !src.is_open() || src.mode() == AccessMode::READ {
        proof {
            lemma_col_cursor_monotonic(cols, pos as int, 0, cols.len() as int);
            lemma_align64(col_cursor(cols, pos as int, cols.len() as int));
        }
        return Err(ArrowError::io_error("the region does not accept writes"));
    }
    if pos > size {
        proof {
            lemma_col_cursor_monotonic(cols, pos as int, 0, cols.len() as int);
            lemma_align64(col_cursor(cols, pos as int, cols.len() as int));
        }
        return Err(ArrowError::io_error("write offset out of bounds"));
    }
    let total = match get_row_batch_size(batch, pos) {
        Ok(total) => total,
        Err(_) => {
            proof {
                lemma_col_cursor_monotonic(cols, pos as int, 0, cols.len() as int);
                lemma_align64(col_cursor(cols, pos as int, cols.len() as int));
            }
            return Err(ArrowError::io_error("the region is too small for the batch"));
        },
    };
    if total > size {
        return Err(ArrowError::io_error("the region is too small for the batch"));
    }

    let n = batch.column_num();
    let num_rows = batch.row_num();
    let hlen = HEADER_BASE + COLUMN_RECORD * (n as i64);
    let mut hdr: Vec<u8> = Vec::new();
    push_u64(&mut hdr, hlen as u64);
    push_u32(&mut hdr, n as u32);
    push_u32(&mut hdr, num_rows as u32);
    proof {
        lemma_auto_spec_u32_to_from_le_bytes();
        lemma_auto_spec_u64_to_from_le_bytes();
        assert(hdr@ =~= spec_u64_to_le_bytes(spec_header_len(cols.len() as int) as u64)
            + spec_u32_to_le_bytes(cols.len() as u32) + spec_u32_to_le_bytes(
            batch.num_rows_spec() as u32,
        ) + col_records(cols, pos as int, 0));
        lemma_col_cursor_monotonic(cols, pos as int, 0, 0);
    }

    let mut cursor: i64 = pos;
    let mut i: i32 = 0;
    while i < n
        invariant
            0 <= i <= n,
            batch.wf(),
            cols == batch.columns_spec(),
            n == cols.len(),
            0 <= pos,
            src.wf(),
            src.writable(),
            src.mode_spec() == old(src).mode_spec(),
            src.is_open_spec() == old(src).is_open_spec(),
            src.bytes_spec().len() == old(src).bytes_spec().len(),
            size == old(src).bytes_spec().len(),
            total == batch_total_size(cols, pos as int),
            total <= size,
            header_pos(cols, pos as int) <= MAX_BUFFER_CAPACITY,
            cursor == col_cursor(cols, pos as int, i as int),
            pos <= cursor,
            hdr@ =~= spec_u64_to_le_bytes(spec_header_len(cols.len() as int) as u64)
                + spec_u32_to_le_bytes(cols.len() as u32) + spec_u32_to_le_bytes(
                batch.num_rows_spec() as u32,
            ) + col_records(cols, pos as int, i as int),
            bodies_in_place(cols, pos as int, i as int, src.bytes_spec()),
            padding_zeroed(cols, pos as int, i as int, src.bytes_spec()),
            forall|j: int| 0 <= j < pos ==> src.bytes_spec()[j] == old(src).bytes_spec()[j],
            forall|j: int| total <= j < src.bytes_spec().len() ==> src.bytes_spec()[j] == old(
                src,
            ).bytes_spec()[j],
        decreases n - i,
    {
        let column = batch.column(i);
        proof {
            use_type_invariant(column);
            lemma_col_cursor_monotonic(cols, pos as int, i as int, i + 1);
            lemma_col_cursor_monotonic(cols, pos as int, i + 1, cols.len() as int);
            lemma_align64(col_cursor(cols, pos as int, cols.len() as int));
        }
        let ghost hdr_before = hdr@;
        push_u32(&mut hdr, ty_code(column.ty()));
        push_u32(&mut hdr, column.len() as u32);
        push_u32(&mut hdr, column.null_count() as u32);
        match column.ty() {
            Ty::NA => {
                push_u64(&mut hdr, 0u64);
                push_u64(&mut hdr, 0u64);
                push_u64(&mut hdr, 0u64);
                push_u64(&mut hdr, 0u64);
                proof {
                    assert(hdr@ =~= hdr_before + col_record_bytes(cols, pos as int, i as int));
                    assert(hdr@ =~= spec_u64_to_le_bytes(spec_header_len(cols.len() as int) as u64)
                        + spec_u32_to_le_bytes(cols.len() as u32) + spec_u32_to_le_bytes(
                        batch.num_rows_spec() as u32,
                    ) + col_records(cols, pos as int, i + 1));
                }
            },
            _ => {
                proof {
                    lemma_col_ranges(cols, pos as int, i as int);
                }
                let bm_off = align64_exec(cursor);
                let bm = &column.buffers()[0];
                proof {
                    use_type_invariant(bm);
                }
                let bm_size = bm.size();
                let bm_vec = bm.data();
                let bm_cap = bm_vec.len();
                let vs_off = align64_exec(bm_off + bm_size);
                let vs = &column.buffers()[1];
                proof {
                    use_type_invariant(vs);
                }
                let vs_size = vs.size();
                let vs_vec = vs.data();
                let vs_cap = vs_vec.len();
                proof {
                    assert(bm_size as int <= bm_cap as int);
                    assert(vs_size as int <= vs_cap as int);
                }

                push_u64(&mut hdr, bm_off as u64);
                push_u64(&mut hdr, bm_size as u64);
                push_u64(&mut hdr, vs_off as u64);
                push_u64(&mut hdr, vs_size as u64);
                proof {
                    assert(hdr@ =~= hdr_before + col_record_bytes(cols, pos as int, i as int));
                    assert(hdr@ =~= spec_u64_to_le_bytes(spec_header_len(cols.len() as int) as u64)
                        + spec_u32_to_le_bytes(cols.len() as u32) + spec_u32_to_le_bytes(
                        batch.num_rows_spec() as u32,
                    ) + col_records(cols, pos as int, i + 1));
                }

                // zero the alignment gap before the bitmap body
                let ghost region_g1 = src.bytes_spec();
                match write_zeros(src, cursor, bm_off) {
                    Ok(()) => {}
                    Err(e) => {
                        proof {
                            assert(false);
                        }
                        return Err(e);
                    },
                }
                proof {
                    lemma_bodies_preserved(
                        cols,
                        pos as int,
                        i as int,
                        region_g1,
                        src.bytes_spec(),
                        cursor as int,
                    );
                    lemma_padding_preserved(
                        cols,
                        pos as int,
                        i as int,
                        region_g1,
                        src.bytes_spec(),
                        cursor as int,
                    );
                }

                // the bitmap body
                let ghost region_b1 = src.bytes_spec();
                let bm_contents = take_prefix(bm_vec, bm_size as usize);
                match src.write(bm_off, &bm_contents) {
                    Ok(()) => {}
                    Err(e) => {
                        proof {
                            assert(false);
                        }
                        return Err(e);
                    },
                }
                proof {
                    lemma_overwrite_facts(region_b1, bm_off as int, bm_contents@);
                    assert(src.bytes_spec() == spec_overwrite(
                        region_b1,
                        bm_off as int,
                        bm_contents@,
                    ));
                    lemma_bodies_preserved(
                        cols,
                        pos as int,
                        i as int,
                        region_b1,
                        src.bytes_spec(),
                        bm_off as int,
                    );
                    lemma_padding_preserved(
                        cols,
                        pos as int,
                        i as int,
                        region_b1,
                        src.bytes_spec(),
                        bm_off as int,
                    );
                    assert(bm_contents@ =~= buffer_contents(&cols[i as int].buffers_spec()[0]));
                    assert(src.bytes_spec().subrange(bm_off as int, bm_off + bm_size)
                        == bm_contents@);
                    assert forall|j: int| cursor as int <= j < bm_off as int implies
                        src.bytes_spec()[j] == 0u8 by {
                        assert(src.bytes_spec()[j] == region_b1[j]);
                    }
                }

                // zero the alignment gap before the value body
                let ghost region_g2 = src.bytes_spec();
                match write_zeros(src, bm_off + bm_size, vs_off) {
                    Ok(()) => {}
                    Err(e) => {
                        proof {
                            assert(false);
                        }
                        return Err(e);
                    },
                }
                proof {
                    lemma_bodies_preserved(
                        cols,
                        pos as int,
                        i as int,
                        region_g2,
                        src.bytes_spec(),
                        bm_off + bm_size,
                    );
                    lemma_padding_preserved(
                        cols,
                        pos as int,
                        i as int,
                        region_g2,
                        src.bytes_spec(),
                        bm_off + bm_size,
                    );
                    assert(src.bytes_spec().subrange(bm_off as int, bm_off + bm_size)
                        =~= region_g2.subrange(bm_off as int, bm_off + bm_size));
                    assert forall|j: int| cursor as int <= j < bm_off as int implies
                        src.bytes_spec()[j] == 0u8 by {
                        assert(src.bytes_spec()[j] == region_g2[j]);
                    }
                }

                // the value body
                let ghost region_b2 = src.bytes_spec();
                let vs_contents = take_prefix(vs_vec, vs_size as usize);
                match src.write(vs_off, &vs_contents) {
                    Ok(()) => {}
                    Err(e) => {
                        proof {
                            assert(false);
                        }
                        return Err(e);
                    },
                }
                proof {
                    lemma_overwrite_facts(region_b2, vs_off as int, vs_contents@);
                    assert(src.bytes_spec() == spec_overwrite(
                        region_b2,
                        vs_off as int,
                        vs_contents@,
                    ));
                    lemma_bodies_preserved(
                        cols,
                        pos as int,
                        i as int,
                        region_b2,
                        src.bytes_spec(),
                        vs_off as int,
                    );
                    lemma_padding_preserved(
                        cols,
                        pos as int,
                        i as int,
                        region_b2,
                        src.bytes_spec(),
                        vs_off as int,
                    );
                    assert(vs_contents@ =~= buffer_contents(&cols[i as int].buffers_spec()[1]));
                    assert(src.bytes_spec().subrange(vs_off as int, vs_off + vs_size)
                        == vs_contents@);
                    assert(src.bytes_spec().subrange(bm_off as int, bm_off + bm_size)
                        =~= region_b2.subrange(bm_off as int, bm_off + bm_size));
                    assert(src.bytes_spec().subrange(
                        col_bitmap_off(cols, pos as int, i as int),
                        col_bitmap_off(cols, pos as int, i as int)
                            + cols[i as int].buffers_spec()[0].buf_size(),
                    ) == buffer_contents(&cols[i as int].buffers_spec()[0]));
                    assert(src.bytes_spec().subrange(
                        col_values_off(cols, pos as int, i as int),
                        col_values_off(cols, pos as int, i as int)
                            + cols[i as int].buffers_spec()[1].buf_size(),
                    ) == buffer_contents(&cols[i as int].buffers_spec()[1]));
                    assert(bodies_in_place(cols, pos as int, i + 1, src.bytes_spec()));
                    // both alignment gaps of this column are zero
                    assert forall|j: int| cursor as int <= j < bm_off as int implies
                        src.bytes_spec()[j] == 0u8 by {
                        assert(src.bytes_spec()[j] == region_b2[j]);
                    }
                    assert forall|j: int| bm_off + bm_size <= j < vs_off as int implies
                        src.bytes_spec()[j] == 0u8 by {
                        assert(src.bytes_spec()[j] == region_b2[j]);
                    }
                    assert(seq_zero(
                        src.bytes_spec(),
                        col_cursor(cols, pos as int, i as int),
                        col_bitmap_off(cols, pos as int, i as int),
                    ));
                    assert(seq_zero(
                        src.bytes_spec(),
                        col_bitmap_off(cols, pos as int, i as int)
                            + cols[i as int].buffers_spec()[0].buf_size(),
                        col_values_off(cols, pos as int, i as int),
                    ));
                    assert(padding_zeroed(cols, pos as int, i + 1, src.bytes_spec()));
                }
                cursor = vs_off + vs_size;
            },
        }
        i = i + 1;
    }

    let h = align64_exec(cursor);
    proof {
        lemma_col_records_len(cols, pos as int, cols.len() as int);
        lemma_auto_spec_u32_to_from_le_bytes();
        lemma_auto_spec_u64_to_from_le_bytes();
        assert(hdr@.len() == spec_header_len(cols.len() as int));
    }

    // zero the alignment gap before the header
    let ghost region_g3 = src.bytes_spec();
    match write_zeros(src, cursor, h) {
        Ok(()) => {}
        Err(e) => {
            proof {
                assert(false);
            }
            return Err(e);
        },
    }
    proof {
        lemma_bodies_preserved(
            cols,
            pos as int,
            cols.len() as int,
            region_g3,
            src.bytes_spec(),
            cursor as int,
        );
        lemma_padding_preserved(
            cols,
            pos as int,
            cols.len() as int,
            region_g3,
            src.bytes_spec(),
            cursor as int,
        );
    }

    // the header
    let ghost region_before = src.bytes_spec();
    match src.write(h, &hdr) {
        Ok(()) => {}
        Err(e) => {
            proof {
                assert(false);
            }
            return Err(e);
        },
    }
    proof {
        lemma_overwrite_facts(region_before, h as int, hdr@);
        assert(src.bytes_spec() == spec_overwrite(region_before, h as int, hdr@));
        lemma_bodies_preserved(
            cols,
            pos as int,
            cols.len() as int,
            region_before,
            src.bytes_spec(),
            h as int,
        );
        lemma_padding_preserved(
            cols,
            pos as int,
            cols.len() as int,
            region_before,
            src.bytes_spec(),
            h as int,
        );
        assert forall|j: int| cursor as int <= j < h as int implies src.bytes_spec()[j]
            == 0u8 by {
            assert(src.bytes_spec()[j] == region_before[j]);
        }
        assert(seq_zero(
            src.bytes_spec(),
            col_cursor(cols, pos as int, cols.len() as int),
            h as int,
        ));
    }
    Ok(h)
}

} // verus!

verus! {

/// The `u32` stored at `p` in the region.
pub open spec fn hdr_u32(region: Seq<u8>, p: int) -> int {
    spec_u32_from_le_bytes(region.subrange(p, p + 4)) as int
}

/// The `u64` stored at `p` in the region.
pub open spec fn hdr_u64(region: Seq<u8>, p: int) -> int {
    spec_u64_from_le_bytes(region.subrange(p, p + 8)) as int
}

/// The column count stored in a header at `pos`.
pub open spec fn hdr_ncols(region: Seq<u8>, pos: int) -> int {
    hdr_u32(region, pos + 8)
}

/// The row count stored in a header at `pos`.
pub open spec fn hdr_nrows(region: Seq<u8>, pos: int) -> int {
    hdr_u32(region, pos + 12)
}

/// Where the record of column `i` starts in a header at `pos`.
pub open spec fn rec_pos(pos: int, i: int) -> int {
    pos + HEADER_BASE + COLUMN_RECORD * i
}

pub open spec fn rec_ty_code(region: Seq<u8>, pos: int, i: int) -> int {
    hdr_u32(region, rec_pos(pos, i))
}

pub open spec fn rec_length(region: Seq<u8>, pos: int, i: int) -> int {
    hdr_u32(region, rec_pos(pos, i) + 4)
}

pub open spec fn rec_nulls(region: Seq<u8>, pos: int, i: int) -> int {
    hdr_u32(region, rec_pos(pos, i) + 8)
}

pub open spec fn rec_bm_off(region: Seq<u8>, pos: int, i: int) -> int {
    hdr_u64(region, rec_pos(pos, i) + 12)
}

pub open spec fn rec_bm_len(region: Seq<u8>, pos: int, i: int) -> int {
    hdr_u64(region, rec_pos(pos, i) + 20)
}

pub open spec fn rec_vs_off(region: Seq<u8>, pos: int, i: int) -> int {
    hdr_u64(region, rec_pos(pos, i) + 28)
}

pub open spec fn rec_vs_len(region: Seq<u8>, pos: int, i: int) -> int {
    hdr_u64(region, rec_pos(pos, i) + 36)
}

/// Whether the record of column `i` is internally consistent and its
/// recorded ranges lie within the region.
pub open spec fn col_meta_ok(region: Seq<u8>, pos: int, i: int, nrows: int) -> bool {
    match spec_code_ty(rec_ty_code(region, pos, i) as u32) {
        Option::None => false,
        Option::Some(ty) => {
            let length = rec_length(region, pos, i);
            let nulls = rec_nulls(region, pos, i);
            &&& length == nrows
            &&& nulls <= length
            &&& if ty == Ty::NA {
                nulls == length
            } else {
                &&& type_value_size(ty) >= 1
                &&& rec_bm_off(region, pos, i) + rec_bm_len(region, pos, i) <= region.len()
                &&& rec_bm_len(region, pos, i) >= (length + 7) / 8
                &&& rec_vs_off(region, pos, i) + rec_vs_len(region, pos, i) <= region.len()
                &&& rec_vs_len(region, pos, i) >= length * type_value_size(ty)
            }
        },
    }
}

/// Whether a well-formed header of this protocol stands at `pos`: its
/// length field is consistent with its column count, it lies within the
/// region, and every column record checks out.
pub open spec fn header_ok(region: Seq<u8>, pos: int) -> bool {
    &&& 0 <= pos
    &&& pos + HEADER_BASE <= region.len()
    &&& hdr_u64(region, pos) == spec_header_len(hdr_ncols(region, pos))
    &&& pos + spec_header_len(hdr_ncols(region, pos)) <= region.len()
    &&& hdr_ncols(region, pos) <= i32::MAX
    &&& hdr_nrows(region, pos) <= i32::MAX
    &&& forall|i: int| 0 <= i < hdr_ncols(region, pos) ==> col_meta_ok(
        region,
        pos,
        i,
        hdr_nrows(region, pos),
    )
}

/// The parsed record of one column.
struct ColMeta {
    ty: Ty,
    length: i32,
    null_count: i32,
    bitmap_off: i64,
    bitmap_len: i64,
    values_off: i64,
    values_len: i64,
}

/// Whether `m` holds exactly what the record of column `i` stores.
spec fn meta_matches(region: Seq<u8>, pos: int, i: int, m: ColMeta) -> bool {
    &&& Some(m.ty) == spec_code_ty(rec_ty_code(region, pos, i) as u32)
    &&& m.length == rec_length(region, pos, i)
    &&& m.null_count == rec_nulls(region, pos, i)
    &&& m.ty != Ty::NA ==> m.bitmap_off == rec_bm_off(region, pos, i) && m.bitmap_len
        == rec_bm_len(region, pos, i) && m.values_off == rec_vs_off(region, pos, i)
        && m.values_len == rec_vs_len(region, pos, i)
}

/// Read the `u32` stored at `p`.
fn read_u32_at(src: &MemoryMappedSource, p: i64) -> (r: Result<u32, ArrowError>)
    requires
        src.wf(),
    ensures
        match r {
            Ok(x) => {
                &&& src.readable()
                &&& 0 <= p
                &&& p + 4 <= src.bytes_spec().len()
                &&& x == hdr_u32(src.bytes_spec(), p as int)
            },
            Err(e) => {
                &&& e.code_spec() == StatusCode::IOError
                &&& (!src.readable() || p < 0 || p + 4 > src.bytes_spec().len())
            },
        },
{
    let buf = match src.read(p, 4) {
        Ok(buf) => buf,
        Err(e) => {
            return Err(e);
        },
    };
    Ok(u32_from_le_bytes(buf.data().as_slice()))
}

/// Read the `u64` stored at `p`.
fn read_u64_at(src: &MemoryMappedSource, p: i64) -> (r: Result<u64, ArrowError>)
    requires
        src.wf(),
    ensures
        match r {
            Ok(x) => {
                &&& src.readable()
                &&& 0 <= p
                &&& p + 8 <= src.bytes_spec().len()
                &&& x == hdr_u64(src.bytes_spec(), p as int)
            },
            Err(e) => {
                &&& e.code_spec() == StatusCode::IOError
                &&& (!src.readable() || p < 0 || p + 8 > src.bytes_spec().len())
            },
        },
{
    let buf = match src.read(p, 8) {
        Ok(buf) => buf,
        Err(e) => {
            return Err(e);
        },
    };
    Ok(u64_from_le_bytes(buf.data().as_slice()))
}

/// A reader bound to one header in one region: opening parses and
/// validates the header, and `read` then rebuilds the batch.
pub struct RowBatchReader {
    pos: i64,
    num_rows: i32,
    metas: Vec<ColMeta>,
    region: Ghost<Seq<u8>>,
}

impl RowBatchReader {
    /// The header offset the reader was opened at.
    pub closed spec fn pos_spec(&self) -> int {
        self.pos as int
    }

    /// The stored row count.
    pub closed spec fn num_rows_spec(&self) -> int {
        self.num_rows as int
    }

    /// The region bytes the reader was opened over.
    pub closed spec fn region_spec(&self) -> Seq<u8> {
        self.region@
    }

    #[verifier::type_invariant]
    closed spec fn wf(&self) -> bool {
        &&& header_ok(self.region@, self.pos as int)
        &&& self.num_rows as int == hdr_nrows(self.region@, self.pos as int)
        &&& self.metas@.len() == hdr_ncols(self.region@, self.pos as int)
        &&& forall|i: int| 0 <= i < self.metas@.len() ==> meta_matches(
            self.region@,
            self.pos as int,
            i,
            #[trigger] self.metas@[i],
        )
    }

    /// Parse and validate the header at `pos`. Succeeds exactly when the
    /// region is readable and a well-formed header stands there; an
    /// offset or range outside the region fails with `IOError`, malformed
    /// header content with `Invalid`.
    pub fn open(src: &MemoryMappedSource, pos: i64) -> (r: Result<RowBatchReader, ArrowError>)
        requires
            src.wf(),
        ensures
            match r {
                Ok(reader) => {
                    &&& src.readable()
                    &&& header_ok(src.bytes_spec(), pos as int)
                    &&& reader.region_spec() == src.bytes_spec()
                    &&& reader.pos_spec() == pos
                    &&& reader.num_rows_spec() == hdr_nrows(src.bytes_spec(), pos as int)
                },
                Err(e) => {
                    &&& !(src.readable() && header_ok(src.bytes_spec(), pos as int))
                    &&& (e.code_spec() == StatusCode::IOError || e.code_spec()
                        == StatusCode::Invalid)
                    &&& ((!src.readable() || pos < 0 || pos + HEADER_BASE
                        > src.bytes_spec().len()) ==> e.code_spec() == StatusCode::IOError)
                },
            },
    {
        let ghost region = src.bytes_spec();
        let size = src.size();
        let hlen_stored = match read_u64_at(src, pos) {
            Ok(x) => x,
            Err(e) => {
                return Err(e);
            },
        };
        if pos > size - HEADER_BASE {
            return Err(ArrowError::io_error("header offset out of bounds"));
        }
        let ncols_u32 = match read_u32_at(src, pos + 8) {
            Ok(x) => x,
            Err(e) => {
                proof {
                    assert(false);
                }
                return Err(e);
            },
        };
        let nrows_u32 = match read_u32_at(src, pos + 12) {
            Ok(x) => x,
            Err(e) => {
                proof {
                    assert(false);
                }
                return Err(e);
            },
        };
        if ncols_u32 > (i32::MAX as u32) {
            return Err(ArrowError::invalid("stored column count is out of range"));
        }
        if nrows_u32 > (i32::MAX as u32) {
            return Err(ArrowError::invalid("stored row count is out of range"));
        }
        let ncols = ncols_u32 as i32;
        let num_rows = nrows_u32 as i32;
        let hlen = HEADER_BASE + COLUMN_RECORD * (ncols as i64);
        if hlen_stored != (hlen as u64) {
            return Err(ArrowError::invalid("stored header length is inconsistent"));
        }
        if hlen > size - pos {
            return Err(ArrowError::io_error("header runs past the region"));
        }
        let mut metas: Vec<ColMeta> = Vec::new();
        let mut i: i32 = 0;
        while i < ncols
            invariant
                0 <= i <= ncols,
                src.wf(),
                src.readable(),
                region == src.bytes_spec(),
                size == region.len(),
                0 <= pos,
                pos + HEADER_BASE <= size,
                ncols == hdr_ncols(region, pos as int),
                num_rows == hdr_nrows(region, pos as int),
                hlen == spec_header_len(ncols as int),
                pos + hlen <= size,
                metas@.len() == i,
                forall|j: int| 0 <= j < i ==> meta_matches(
                    region,
                    pos as int,
                    j,
                    #[trigger] metas@[j],
                ),
                forall|j: int| 0 <= j < i ==> col_meta_ok(region, pos as int, j, num_rows as int),
            decreases ncols - i,
        {
            proof {
                assert(rec_pos(pos as int, i as int) + COLUMN_RECORD <= rec_pos(
                    pos as int,
                    ncols as int,
                )) by (nonlinear_arith)
                    requires
                        i < ncols,
                ;
                assert(rec_pos(pos as int, ncols as int) == pos + hlen);
            }
            let rp = pos + HEADER_BASE + COLUMN_RECORD * (i as i64);
            let code = match read_u32_at(src, rp) {
                Ok(x) => x,
                Err(e) => {
                    proof {
                        assert(false);
                    }
                    return Err(e);
                },
            };
            let ty = match code_ty(code) {
                Some(ty) => ty,
                None => {
                    proof {
                        assert(!col_meta_ok(region, pos as int, i as int, hdr_nrows(region, pos as int)));
                    }
                    return Err(ArrowError::invalid("unknown column type code"));
                },
            };
            let length_u32 = match read_u32_at(src, rp + 4) {
                Ok(x) => x,
                Err(e) => {
                    proof {
                        assert(false);
                    }
                    return Err(e);
                },
            };
            let nulls_u32 = match read_u32_at(src, rp + 8) {
                Ok(x) => x,
                Err(e) => {
                    proof {
                        assert(false);
                    }
                    return Err(e);
                },
            };
            let bm_off_u64 = match read_u64_at(src, rp + 12) {
                Ok(x) => x,
                Err(e) => {
                    proof {
                        assert(false);
                    }
                    return Err(e);
                },
            };
            let bm_len_u64 = match read_u64_at(src, rp + 20) {
                Ok(x) => x,
                Err(e) => {
                    proof {
                        assert(false);
                    }
                    return Err(e);
                },
            };
            let vs_off_u64 = match read_u64_at(src, rp + 28) {
                Ok(x) => x,
                Err(e) => {
                    proof {
                        assert(false);
                    }
                    return Err(e);
                },
            };
            let vs_len_u64 = match read_u64_at(src, rp + 36) {
                Ok(x) => x,
                Err(e) => {
                    proof {
                        assert(false);
                    }
                    return Err(e);
                },
            };
            if length_u32 != (num_rows as u32) {
                proof {
                        assert(!col_meta_ok(region, pos as int, i as int, hdr_nrows(region, pos as int)));
                    }
                    return Err(ArrowError::invalid("column length does not match the row count"));
            }
            if nulls_u32 > length_u32 {
                proof {
                        assert(!col_meta_ok(region, pos as int, i as int, hdr_nrows(region, pos as int)));
                    }
                    return Err(ArrowError::invalid("stored null count exceeds the length"));
            }
            let length = length_u32 as i32;
            let nulls = nulls_u32 as i32;
            let meta = match ty {
                Ty::NA => {
                    if nulls != length {
                        proof {
                        assert(!col_meta_ok(region, pos as int, i as int, hdr_nrows(region, pos as int)));
                    }
                    return Err(ArrowError::invalid(
                            "a null-type column must be entirely null",
                        ));
                    }
                    ColMeta {
                        ty,
                        length,
                        null_count: nulls,
                        bitmap_off: 0,
                        bitmap_len: 0,
                        values_off: 0,
                        values_len: 0,
                    }
                },
                _ => {
                    let dt = DataType::new_primitive(ty);
                    let width = dt.value_size();
                    if width < 1 {
                        proof {
                        assert(!col_meta_ok(region, pos as int, i as int, hdr_nrows(region, pos as int)));
                    }
                    return Err(ArrowError::invalid("unsupported on-disk column type"));
                    }
                    if bm_off_u64 > (size as u64) || bm_len_u64 > (size as u64) - bm_off_u64 {
                        proof {
                        assert(!col_meta_ok(region, pos as int, i as int, hdr_nrows(region, pos as int)));
                    }
                    return Err(ArrowError::io_error("bitmap range out of bounds"));
                    }
                    if vs_off_u64 > (size as u64) || vs_len_u64 > (size as u64) - vs_off_u64 {
                        proof {
                        assert(!col_meta_ok(region, pos as int, i as int, hdr_nrows(region, pos as int)));
                    }
                    return Err(ArrowError::io_error("value range out of bounds"));
                    }
                    let bm_off = bm_off_u64 as i64;
                    let bm_len = bm_len_u64 as i64;
                    let vs_off = vs_off_u64 as i64;
                    let vs_len = vs_len_u64 as i64;
                    if bm_len < ((length as i64) + 7) / 8 {
                        proof {
                        assert(!col_meta_ok(region, pos as int, i as int, hdr_nrows(region, pos as int)));
                    }
                    return Err(ArrowError::invalid("bitmap is too short for the length"));
                    }
                    proof {
                        assert(1 <= type_value_size(ty) <= 8);
                        assert((length as int) * (width as int) <= 8 * (i32::MAX as int))
                            by (nonlinear_arith)
                            requires
                                0 <= length <= i32::MAX,
                                1 <= width <= 8,
                        ;
                    }
                    if vs_len < (length as i64) * (width as i64) {
                        proof {
                        assert(!col_meta_ok(region, pos as int, i as int, hdr_nrows(region, pos as int)));
                    }
                    return Err(ArrowError::invalid(
                            "value buffer is too short for the length",
                        ));
                    }
                    ColMeta {
                        ty,
                        length,
                        null_count: nulls,
                        bitmap_off: bm_off,
                        bitmap_len: bm_len,
                        values_off: vs_off,
                        values_len: vs_len,
                    }
                },
            };
            metas.push(meta);
            i = i + 1;
        }
        Ok(RowBatchReader { pos, num_rows, metas, region: Ghost(src.bytes_spec()) })
    }
}

} // verus!

verus! {

/// Whether the caller-supplied schema is structurally compatible with
/// the stored header: one field per stored column, of the stored type.
pub open spec fn read_schema_match(region: Seq<u8>, pos: int, schema: Schema) -> bool {
    &&& schema.fields@.len() == hdr_ncols(region, pos)
    &&& forall|i: int| 0 <= i < hdr_ncols(region, pos) ==> Some(
        (#[trigger] schema.fields@[i]).ty.ty,
    ) == spec_code_ty(rec_ty_code(region, pos, i) as u32)
}

/// Whether each stored null count agrees with the stored bitmap: what
/// the reader recomputes and checks.
pub open spec fn read_nulls_match(region: Seq<u8>, pos: int) -> bool {
    forall|i: int| 0 <= i < hdr_ncols(region, pos) ==> (match spec_code_ty(
        #[trigger] rec_ty_code(region, pos, i) as u32,
    ) {
        Option::Some(ty) => ty == Ty::NA || rec_length(region, pos, i) - rec_nulls(region, pos, i)
            == valid_count(
            region.subrange(
                rec_bm_off(region, pos, i),
                rec_bm_off(region, pos, i) + rec_bm_len(region, pos, i),
            ),
            rec_length(region, pos, i),
        ),
        Option::None => true,
    })
}

/// Whether a reconstructed array holds exactly what the record of column
/// `i` locates: the stored type, length and null count, over buffers
/// that are the recorded slices of the region.
pub open spec fn read_col_matches(region: Seq<u8>, pos: int, i: int, a: BaseArray) -> bool {
    match spec_code_ty(rec_ty_code(region, pos, i) as u32) {
        Option::Some(ty) => {
            &&& a.ty_spec() == ty
            &&& a.len_spec() == rec_length(region, pos, i)
            &&& a.null_count_spec() == rec_nulls(region, pos, i)
            &&& (ty != Ty::NA ==> a.buffers_spec()[0].buf_bytes() == region.subrange(
                rec_bm_off(region, pos, i),
                rec_bm_off(region, pos, i) + rec_bm_len(region, pos, i),
            ) && a.buffers_spec()[0].buf_size() == rec_bm_len(region, pos, i)
                && a.buffers_spec()[1].buf_bytes() == region.subrange(
                rec_vs_off(region, pos, i),
                rec_vs_off(region, pos, i) + rec_vs_len(region, pos, i),
            ) && a.buffers_spec()[1].buf_size() == rec_vs_len(region, pos, i))
        },
        Option::None => false,
    }
}

impl RowBatchReader {
    /// Rebuild the batch this reader's header locates, as arrays over
    /// the recorded slices of the region, checked structurally against
    /// the caller's schema and with every stored null count checked
    /// against its bitmap.
    pub fn read(&self, src: &MemoryMappedSource, schema: &Schema) -> (r: Result<
        RowBatch,
        ArrowError,
    >)
        requires
            src.wf(),
            src.bytes_spec() == self.region_spec(),
        ensures
            match r {
                Ok(batch) => {
                    &&& src.readable()
                    &&& read_schema_match(self.region_spec(), self.pos_spec(), *schema)
                    &&& read_nulls_match(self.region_spec(), self.pos_spec())
                    &&& crate::ty::schema_eq(batch.schema_spec(), *schema)
                    &&& batch.num_rows_spec() == self.num_rows_spec()
                    &&& batch.columns_spec().len() == hdr_ncols(
                        self.region_spec(),
                        self.pos_spec(),
                    )
                    &&& forall|i: int| 0 <= i < batch.columns_spec().len() ==> read_col_matches(
                        self.region_spec(),
                        self.pos_spec(),
                        i,
                        #[trigger] batch.columns_spec()[i],
                    )
                },
                Err(e) => {
                    &&& !(src.readable() && read_schema_match(
                        self.region_spec(),
                        self.pos_spec(),
                        *schema,
                    ) && read_nulls_match(self.region_spec(), self.pos_spec()))
                    &&& (!src.readable() ==> e.code_spec() == StatusCode::IOError)
                    &&& (src.readable() ==> e.code_spec() == StatusCode::Invalid)
                },
            },
    {
        proof {
            use_type_invariant(self);
        }
        let ghost region = self.region@;
        let ghost hpos = self.pos as int;
        if !src.is_open() || src.mode() == AccessMode::WRITE {
            return Err(ArrowError::io_error("the region does not accept reads"));
        }
        let ncols = self.metas.len();
        if schema.num_fields() != ncols {
            return Err(ArrowError::invalid("schema field count does not match the header"));
        }
        let mut arrays: Vec<BaseArray> = Vec::new();
        let mut i: usize = 0;
        while i < ncols
            invariant
                0 <= i <= ncols,
                self.wf(),
                region == self.region@,
                hpos == self.pos as int,
                src.wf(),
                src.readable(),
                src.bytes_spec() == region,
                ncols == self.metas@.len(),
                schema.fields@.len() == ncols,
                arrays@.len() == i,
                forall|j: int| 0 <= j < i ==> Some((#[trigger] schema.fields@[j]).ty.ty)
                    == spec_code_ty(rec_ty_code(region, hpos, j) as u32),
                forall|j: int| 0 <= j < i ==> read_col_matches(
                    region,
                    hpos,
                    j,
                    #[trigger] arrays@[j],
                ),
                forall|j: int| 0 <= j < i ==> (#[trigger] arrays@[j]).wf() && arrays@[j].ty_spec()
                    == schema.fields@[j].ty.ty && arrays@[j].len_spec()
                    == self.num_rows_spec(),
                forall|j: int| 0 <= j < i ==> (match spec_code_ty(
                    #[trigger] rec_ty_code(region, hpos, j) as u32,
                ) {
                    Option::Some(ty) => ty == Ty::NA || rec_length(region, hpos, j) - rec_nulls(
                        region,
                        hpos,
                        j,
                    ) == valid_count(
                        region.subrange(
                            rec_bm_off(region, hpos, j),
                            rec_bm_off(region, hpos, j) + rec_bm_len(region, hpos, j),
                        ),
                        rec_length(region, hpos, j),
                    ),
                    Option::None => true,
                }),
            decreases ncols - i,
        {
            let meta = &self.metas[i];
            proof {
                assert(meta_matches(region, hpos, i as int, self.metas@[i as int]));
                assert(col_meta_ok(region, hpos, i as int, hdr_nrows(region, hpos)));
            }
            if schema.field(i).ty.ty != meta.ty {
                return Err(ArrowError::invalid("schema field type does not match the header"));
            }
            let array = match meta.ty {
                Ty::NA => {
                    BaseArray::new_null_array(DataType::new_primitive(Ty::NA), meta.length)
                },
                _ => {
                    let bm_buf = match src.read(meta.bitmap_off, meta.bitmap_len) {
                        Ok(buf) => buf,
                        Err(e) => {
                            proof {
                                assert(false);
                            }
                            return Err(e);
                        },
                    };
                    let vs_buf = match src.read(meta.values_off, meta.values_len) {
                        Ok(buf) => buf,
                        Err(e) => {
                            proof {
                                assert(false);
                            }
                            return Err(e);
                        },
                    };
                    let count = count_valid_bits(bm_buf.data(), meta.length);
                    if meta.length - count != meta.null_count {
                        return Err(ArrowError::invalid(
                            "stored null count does not match the bitmap",
                        ));
                    }
                    proof {
                        use_type_invariant(&bm_buf);
                        use_type_invariant(&vs_buf);
                        assert(rec_length(region, hpos, i as int) - rec_nulls(
                            region,
                            hpos,
                            i as int,
                        ) == valid_count(
                            region.subrange(
                                rec_bm_off(region, hpos, i as int),
                                rec_bm_off(region, hpos, i as int) + rec_bm_len(
                                    region,
                                    hpos,
                                    i as int,
                                ),
                            ),
                            rec_length(region, hpos, i as int),
                        ));
                    }
                    let mut buffers: Vec<Buf> = Vec::new();
                    buffers.push(bm_buf);
                    buffers.push(vs_buf);
                    BaseArray::from_raw(
                        DataType::new_primitive(meta.ty),
                        meta.length,
                        meta.null_count,
                        buffers,
                    )
                },
            };
            proof {
                use_type_invariant(&array);
                assert(read_col_matches(region, hpos, i as int, array));
            }
            arrays.push(array);
            i = i + 1;
        }
        let batch = match RowBatch::new(schema, self.num_rows, &arrays) {
            Ok(batch) => batch,
            Err(e) => {
                proof {
                    assert(false);
                }
                return Err(e);
            },
        };
        proof {
            assert forall|i2: int| 0 <= i2 < batch.columns_spec().len() implies read_col_matches(
                region,
                hpos,
                i2,
                #[trigger] batch.columns_spec()[i2],
            ) by {
                assert(read_col_matches(region, hpos, i2, arrays@[i2]));
            }
        }
        Ok(batch)
    }

    /// How many columns the header records.
    pub fn num_columns(&self) -> (r: usize)
        ensures
            r == hdr_ncols(self.region_spec(), self.pos_spec()),
    {
        proof {
            use_type_invariant(self);
        }
        self.metas.len()
    }

    /// The stored row count.
    pub fn num_rows(&self) -> (r: i32)
        ensures
            r == self.num_rows_spec(),
    {
        self.num_rows
    }
}

} // verus!

verus! {

/// A slice of an embedded byte run equals the matching slice of the run.
proof fn lemma_subrange_chain(region: Seq<u8>, h: int, hl: Seq<u8>, a: int, b: int)
    requires
        0 <= h,
        h + hl.len() <= region.len(),
        region.subrange(h, h + hl.len()) == hl,
        0 <= a <= b <= hl.len(),
    ensures
        region.subrange(h + a, h + b) == hl.subrange(a, b),
{
    assert forall|k: int| 0 <= k < b - a implies #[trigger] region.subrange(h + a, h + b)[k]
        == hl.subrange(a, b)[k] by {
        assert(region.subrange(h, h + hl.len())[a + k] == hl[a + k]);
    }
    assert(region.subrange(h + a, h + b) =~= hl.subrange(a, b));
}

/// The record of column `i` sits at its stride inside the records run.
proof fn lemma_col_records_index(cols: Seq<BaseArray>, pos: int, n: int, i: int)
    requires
        0 <= i < n,
    ensures
        col_records(cols, pos, n).subrange(COLUMN_RECORD * i, COLUMN_RECORD * (i + 1))
            == col_record_bytes(cols, pos, i),
        col_record_bytes(cols, pos, i).len() == COLUMN_RECORD,
    decreases n,
{
    lemma_auto_spec_u32_to_from_le_bytes();
    lemma_auto_spec_u64_to_from_le_bytes();
    lemma_col_records_len(cols, pos, n - 1);
    if i == n - 1 {
        assert(col_records(cols, pos, n).subrange(COLUMN_RECORD * i, COLUMN_RECORD * (i + 1))
            =~= col_record_bytes(cols, pos, i));
    } else {
        lemma_col_records_index(cols, pos, n - 1, i);
        assert(col_records(cols, pos, n).subrange(COLUMN_RECORD * i, COLUMN_RECORD * (i + 1))
            =~= col_records(cols, pos, n - 1).subrange(
            COLUMN_RECORD * i,
            COLUMN_RECORD * (i + 1),
        ));
    }
}

/// Where each field lies inside one column record.
proof fn lemma_record_fields(cols: Seq<BaseArray>, pos: int, i: int)
    ensures
        col_record_bytes(cols, pos, i).len() == COLUMN_RECORD,
        col_record_bytes(cols, pos, i).subrange(0, 4) == spec_u32_to_le_bytes(
            spec_ty_code(cols[i].ty_spec()),
        ),
        col_record_bytes(cols, pos, i).subrange(4, 8) == spec_u32_to_le_bytes(
            cols[i].len_spec() as u32,
        ),
        col_record_bytes(cols, pos, i).subrange(8, 12) == spec_u32_to_le_bytes(
            cols[i].null_count_spec() as u32,
        ),
        cols[i].ty_spec() != Ty::NA ==> col_record_bytes(cols, pos, i).subrange(12, 20)
            == spec_u64_to_le_bytes(col_bitmap_off(cols, pos, i) as u64),
        cols[i].ty_spec() != Ty::NA ==> col_record_bytes(cols, pos, i).subrange(20, 28)
            == spec_u64_to_le_bytes(cols[i].buffers_spec()[0].buf_size() as u64),
        cols[i].ty_spec() != Ty::NA ==> col_record_bytes(cols, pos, i).subrange(28, 36)
            == spec_u64_to_le_bytes(col_values_off(cols, pos, i) as u64),
        cols[i].ty_spec() != Ty::NA ==> col_record_bytes(cols, pos, i).subrange(36, 44)
            == spec_u64_to_le_bytes(cols[i].buffers_spec()[1].buf_size() as u64),
{
    lemma_auto_spec_u32_to_from_le_bytes();
    lemma_auto_spec_u64_to_from_le_bytes();
    let rec = col_record_bytes(cols, pos, i);
    assert(rec.subrange(0, 4) =~= spec_u32_to_le_bytes(spec_ty_code(cols[i].ty_spec())));
    assert(rec.subrange(4, 8) =~= spec_u32_to_le_bytes(cols[i].len_spec() as u32));
    assert(rec.subrange(8, 12) =~= spec_u32_to_le_bytes(cols[i].null_count_spec() as u32));
    if cols[i].ty_spec() != Ty::NA {
        assert(rec.subrange(12, 20) =~= spec_u64_to_le_bytes(col_bitmap_off(cols, pos, i) as u64));
        assert(rec.subrange(20, 28) =~= spec_u64_to_le_bytes(
            cols[i].buffers_spec()[0].buf_size() as u64,
        ));
        assert(rec.subrange(28, 36) =~= spec_u64_to_le_bytes(col_values_off(cols, pos, i) as u64));
        assert(rec.subrange(36, 44) =~= spec_u64_to_le_bytes(
            cols[i].buffers_spec()[1].buf_size() as u64,
        ));
    }
}

/// Decoding the header the writer lays down gives back exactly what it
/// stored.
proof fn lemma_header_fields(region: Seq<u8>, cols: Seq<BaseArray>, pos: int, num_rows: int)
    requires
        0 <= pos,
        0 <= num_rows <= i32::MAX,
        cols.len() <= i32::MAX,
        forall|i: int| 0 <= i < cols.len() ==> (#[trigger] cols[i]).wf(),
        batch_total_size(cols, pos) <= region.len(),
        region.len() <= MAX_BUFFER_CAPACITY,
        region.subrange(
            header_pos(cols, pos),
            header_pos(cols, pos) + spec_header_len(cols.len() as int),
        ) == spec_header_bytes(cols, pos, num_rows),
    ensures
        hdr_u64(region, header_pos(cols, pos)) == spec_header_len(cols.len() as int),
        hdr_ncols(region, header_pos(cols, pos)) == cols.len(),
        hdr_nrows(region, header_pos(cols, pos)) == num_rows,
        forall|i: int| 0 <= i < cols.len() ==> {
            &&& #[trigger] rec_ty_code(region, header_pos(cols, pos), i) == spec_ty_code(
                cols[i].ty_spec(),
            )
            &&& rec_length(region, header_pos(cols, pos), i) == cols[i].len_spec()
            &&& rec_nulls(region, header_pos(cols, pos), i) == cols[i].null_count_spec()
            &&& (cols[i].ty_spec() != Ty::NA ==> rec_bm_off(region, header_pos(cols, pos), i)
                == col_bitmap_off(cols, pos, i) && rec_bm_len(region, header_pos(cols, pos), i)
                == cols[i].buffers_spec()[0].buf_size() && rec_vs_off(
                region,
                header_pos(cols, pos),
                i,
            ) == col_values_off(cols, pos, i) && rec_vs_len(region, header_pos(cols, pos), i)
                == cols[i].buffers_spec()[1].buf_size())
        },
{
    lemma_auto_spec_u32_to_from_le_bytes();
    lemma_auto_spec_u64_to_from_le_bytes();
    lemma_col_cursor_monotonic(cols, pos, 0, cols.len() as int);
    lemma_align64(col_cursor(cols, pos, cols.len() as int));
    let h = header_pos(cols, pos);
    let hb = spec_header_bytes(cols, pos, num_rows);
    let hlen = spec_header_len(cols.len() as int);
    lemma_col_records_len(cols, pos, cols.len() as int);
    assert(hb.len() == hlen);
    lemma_subrange_chain(region, h, hb, 0, 8);
    assert(hb.subrange(0, 8) =~= spec_u64_to_le_bytes(hlen as u64));
    lemma_subrange_chain(region, h, hb, 8, 12);
    assert(hb.subrange(8, 12) =~= spec_u32_to_le_bytes(cols.len() as u32));
    lemma_subrange_chain(region, h, hb, 12, 16);
    assert(hb.subrange(12, 16) =~= spec_u32_to_le_bytes(num_rows as u32));
    assert forall|i: int| 0 <= i < cols.len() implies {
        &&& #[trigger] rec_ty_code(region, h, i) == spec_ty_code(cols[i].ty_spec())
        &&& rec_length(region, h, i) == cols[i].len_spec()
        &&& rec_nulls(region, h, i) == cols[i].null_count_spec()
        &&& (cols[i].ty_spec() != Ty::NA ==> rec_bm_off(region, h, i) == col_bitmap_off(
            cols,
            pos,
            i,
        ) && rec_bm_len(region, h, i) == cols[i].buffers_spec()[0].buf_size() && rec_vs_off(
            region,
            h,
            i,
        ) == col_values_off(cols, pos, i) && rec_vs_len(region, h, i)
            == cols[i].buffers_spec()[1].buf_size())
    } by {
        assert(cols[i].wf());
        lemma_col_records_index(cols, pos, cols.len() as int, i);
        lemma_record_fields(cols, pos, i);
        let rec = col_record_bytes(cols, pos, i);
        let records = col_records(cols, pos, cols.len() as int);
        assert((HEADER_BASE + COLUMN_RECORD * i) + 4 <= (HEADER_BASE + COLUMN_RECORD * (i + 1))
            <= hlen) by (nonlinear_arith)
            requires
                0 <= i < cols.len(),
                hlen == HEADER_BASE + COLUMN_RECORD * cols.len(),
        ;
        // the record inside the whole header
        assert(hb.subrange(HEADER_BASE + COLUMN_RECORD * i, HEADER_BASE + COLUMN_RECORD * (i + 1))
            =~= records.subrange(COLUMN_RECORD * i, COLUMN_RECORD * (i + 1)));
        // and inside the region
        lemma_subrange_chain(
            region,
            h,
            hb,
            HEADER_BASE + COLUMN_RECORD * i,
            HEADER_BASE + COLUMN_RECORD * (i + 1),
        );
        let rp = rec_pos(h, i);
        assert(region.subrange(rp, rp + COLUMN_RECORD) == rec);
        lemma_subrange_chain(region, rp, rec, 0, 4);
        lemma_subrange_chain(region, rp, rec, 4, 8);
        lemma_subrange_chain(region, rp, rec, 8, 12);
        lemma_subrange_chain(region, rp, rec, 12, 20);
        lemma_subrange_chain(region, rp, rec, 20, 28);
        lemma_subrange_chain(region, rp, rec, 28, 36);
        lemma_subrange_chain(region, rp, rec, 36, 44);
        if cols[i].ty_spec() != Ty::NA {
            lemma_buf_size_nonneg(cols[i].buffers_spec()[0]);
            lemma_buf_size_nonneg(cols[i].buffers_spec()[1]);
            lemma_col_ranges(cols, pos, i);
            lemma_col_cursor_monotonic(cols, pos, i + 1, cols.len() as int);
        }
        let code = spec_ty_code(cols[i].ty_spec());
        let len32 = cols[i].len_spec() as u32;
        let nulls32 = cols[i].null_count_spec() as u32;
        assert(spec_u32_to_le_bytes(code).len() == 4);
        assert(spec_u32_to_le_bytes(len32).len() == 4);
        assert(spec_u32_to_le_bytes(nulls32).len() == 4);
        assert(region.subrange(rp, rp + 4) == spec_u32_to_le_bytes(code));
        assert(region.subrange(rp + 4, rp + 8) == spec_u32_to_le_bytes(len32));
        assert(region.subrange(rp + 8, rp + 12) == spec_u32_to_le_bytes(nulls32));
        assert(spec_u32_from_le_bytes(spec_u32_to_le_bytes(code)) == code);
        assert(spec_u32_from_le_bytes(spec_u32_to_le_bytes(len32)) == len32);
        assert(spec_u32_from_le_bytes(spec_u32_to_le_bytes(nulls32)) == nulls32);
        if cols[i].ty_spec() != Ty::NA {
            let bmo = col_bitmap_off(cols, pos, i) as u64;
            let bml = cols[i].buffers_spec()[0].buf_size() as u64;
            let vso = col_values_off(cols, pos, i) as u64;
            let vsl = cols[i].buffers_spec()[1].buf_size() as u64;
            assert(spec_u64_to_le_bytes(bmo).len() == 8);
            assert(spec_u64_to_le_bytes(bml).len() == 8);
            assert(spec_u64_to_le_bytes(vso).len() == 8);
            assert(spec_u64_to_le_bytes(vsl).len() == 8);
            assert(region.subrange(rp + 12, rp + 20) == spec_u64_to_le_bytes(bmo));
            assert(region.subrange(rp + 20, rp + 28) == spec_u64_to_le_bytes(bml));
            assert(region.subrange(rp + 28, rp + 36) == spec_u64_to_le_bytes(vso));
            assert(region.subrange(rp + 36, rp + 44) == spec_u64_to_le_bytes(vsl));
            assert(spec_u64_from_le_bytes(spec_u64_to_le_bytes(bmo)) == bmo);
            assert(spec_u64_from_le_bytes(spec_u64_to_le_bytes(bml)) == bml);
            assert(spec_u64_from_le_bytes(spec_u64_to_le_bytes(vso)) == vso);
            assert(spec_u64_from_le_bytes(spec_u64_to_le_bytes(vsl)) == vsl);
        }
    }
}

/// The round trip: a region holding what the writer lays down for a
/// well-formed batch carries a well-formed header; it passes the
/// reader's schema and null-count checks for the batch's own schema; and
/// any array reconstructed from a column's recorded slices is logically
/// equal to that column of the batch. Exact equality is not claimed: the
/// reconstructed buffers carry no padding past their logical size.
pub proof fn lemma_ipc_round_trip(
    region: Seq<u8>,
    cols: Seq<BaseArray>,
    schema: Schema,
    num_rows: int,
    pos: int,
)
    requires
        batch_parts_ok(schema.fields@, num_rows, cols),
        cols.len() <= i32::MAX,
        num_rows <= i32::MAX,
        forall|i: int| 0 <= i < cols.len() ==> (#[trigger] cols[i]).wf(),
        0 <= pos,
        batch_total_size(cols, pos) <= region.len(),
        region.len() <= MAX_BUFFER_CAPACITY,
        bodies_in_place(cols, pos, cols.len() as int, region),
        region.subrange(
            header_pos(cols, pos),
            header_pos(cols, pos) + spec_header_len(cols.len() as int),
        ) == spec_header_bytes(cols, pos, num_rows),
    ensures
        header_ok(region, header_pos(cols, pos)),
        read_schema_match(region, header_pos(cols, pos), schema),
        read_nulls_match(region, header_pos(cols, pos)),
        forall|i: int, a: BaseArray| 0 <= i < cols.len() && a.wf() && #[trigger] read_col_matches(
            region,
            header_pos(cols, pos),
            i,
            a,
        ) ==> array_equals(&a, &cols[i]),
{
    let h = header_pos(cols, pos);
    let n = cols.len() as int;
    lemma_header_fields(region, cols, pos, num_rows);
    lemma_col_cursor_monotonic(cols, pos, 0, n);
    lemma_align64(col_cursor(cols, pos, n));
    lemma_col_records_len(cols, pos, n);

    // every record checks out
    assert forall|i: int| 0 <= i < n implies col_meta_ok(region, h, i, num_rows) by {
        assert(cols[i].wf());
        lemma_ty_code_inverse(cols[i].ty_spec());
        if cols[i].ty_spec() != Ty::NA {
            lemma_col_ranges(cols, pos, i);
            lemma_col_cursor_monotonic(cols, pos, i + 1, n);
        }
    }
    assert(header_ok(region, h));

    // the batch's own schema passes the structural check
    assert forall|i: int| 0 <= i < n implies Some((#[trigger] schema.fields@[i]).ty.ty)
        == spec_code_ty(rec_ty_code(region, h, i) as u32) by {
        lemma_ty_code_inverse(cols[i].ty_spec());
    }

    // each stored null count agrees with the stored bitmap
    assert forall|i: int| 0 <= i < n implies (match spec_code_ty(
        #[trigger] rec_ty_code(region, h, i) as u32,
    ) {
        Option::Some(ty) => ty == Ty::NA || rec_length(region, h, i) - rec_nulls(region, h, i)
            == valid_count(
            region.subrange(
                rec_bm_off(region, h, i),
                rec_bm_off(region, h, i) + rec_bm_len(region, h, i),
            ),
            rec_length(region, h, i),
        ),
        Option::None => true,
    }) by {
        assert(cols[i].wf());
        lemma_ty_code_inverse(cols[i].ty_spec());
        if cols[i].ty_spec() != Ty::NA {
            lemma_col_ranges(cols, pos, i);
            let bm = cols[i].buffers_spec()[0];
            let stored = region.subrange(
                col_bitmap_off(cols, pos, i),
                col_bitmap_off(cols, pos, i) + bm.buf_size(),
            );
            assert(stored == buffer_contents(&bm));
            assert forall|t: int| 0 <= t < cols[i].len_spec() implies bit_at(stored, t) == bit_at(
                bm.buf_bytes(),
                t,
            ) by {
                assert(stored[t / 8] == bm.buf_bytes()[t / 8]);
            }
            lemma_valid_count_congruent(stored, bm.buf_bytes(), cols[i].len_spec());
        }
    }

    // a reconstruction from the recorded slices is logically equal
    assert forall|i: int, a: BaseArray| 0 <= i < cols.len() && a.wf()
        && #[trigger] read_col_matches(region, h, i, a) implies array_equals(&a, &cols[i]) by {
        assert(cols[i].wf());
        lemma_ty_code_inverse(cols[i].ty_spec());
        if cols[i].ty_spec() == Ty::NA {
            assert(a.ty_spec() == Ty::NA);
            assert(array_equals(&a, &cols[i]));
        } else {
            lemma_col_ranges(cols, pos, i);
            let bm = cols[i].buffers_spec()[0];
            let vs = cols[i].buffers_spec()[1];
            assert(a.buffers_spec()[0].buf_bytes() == buffer_contents(&bm));
            assert(a.buffers_spec()[1].buf_bytes() == buffer_contents(&vs));
            assert(a.buffers_spec()[0].buf_size() == bm.buf_size());
            assert(a.buffers_spec()[1].buf_size() == vs.buf_size());
            let len = cols[i].len_spec();
            let w = cols[i].width();
            assert forall|t: int| 0 <= t < len implies #[trigger] a.valid_at(0 + t)
                == cols[i].valid_at(0 + t) && (a.valid_at(0 + t) ==> a.cell(0 + t)
                == cols[i].cell(0 + t)) by {
                assert(a.validity_bytes()[t / 8] == bm.buf_bytes()[t / 8]);
                assert(a.valid_at(t) == cols[i].valid_at(t));
                if a.valid_at(t) {
                    assert((t + 1) * w <= len * w && 0 <= t * w && t * w + w == (t + 1) * w)
                        by (nonlinear_arith)
                        requires
                            0 <= t,
                            t + 1 <= len,
                            1 <= w,
                    ;
                    assert forall|x: int| t * w <= x < (t + 1) * w implies a.value_bytes()[x]
                        == cols[i].value_bytes()[x] by {
                        assert(a.value_bytes()[x] == buffer_contents(&vs)[x]);
                    }
                    assert(a.cell(t) =~= cols[i].cell(t));
                }
            }
            assert(array_equals(&a, &cols[i]));
        }
    }
}

} // verus!

verus! {

impl RowBatch {
    /// How many bytes this batch needs when written at the start of a
    /// region: all buffer bodies, aligned, plus the trailing header.
    pub fn size(&self) -> (r: Result<i64, ArrowError>)
        ensures
            match r {
                Ok(s) => s == batch_total_size(self.columns_spec(), 0),
                Err(e) => e.code_spec() == StatusCode::OutOfMemory,
            },
    {
        get_row_batch_size(self, 0)
    }
}

} // verus!
