//! Columns: a field paired with a chunked sequence of same-typed arrays.
//!
//! A chunked array is a logical column stored as an ordered sequence of
//! arrays concatenated end to end; a column pairs one with the field that
//! declares its name, type and nullability. Whether the data matches the
//! declared type is an explicit, possibly expensive self-check, not
//! enforced on construction.

use vstd::prelude::*;

use crate::array::{BaseArray, array_equals_exact};
use crate::status::{ArrowError, StatusCode};
use crate::ty::{DataType, Field, field_eq};

verus! {

/// The total number of values in the first `n` chunks.
pub open spec fn chunks_len_prefix(chunks: Seq<BaseArray>, n: int) -> int
    decreases n,
{
    if n <= 0 {
        0
    } else {
        chunks_len_prefix(chunks, n - 1) + chunks[n - 1].len_spec()
    }
}

/// The total number of nulls in the first `n` chunks.
pub open spec fn chunks_null_prefix(chunks: Seq<BaseArray>, n: int) -> int
    decreases n,
{
    if n <= 0 {
        0
    } else {
        chunks_null_prefix(chunks, n - 1) + chunks[n - 1].null_count_spec()
    }
}

/// Prefix totals of well-formed chunks only grow.
pub proof fn lemma_chunk_prefix_monotonic(chunks: Seq<BaseArray>, j: int, n: int)
    requires
        j <= n,
        forall|i: int| 0 <= i < n ==> (#[trigger] chunks[i]).wf(),
    ensures
        chunks_len_prefix(chunks, j) <= chunks_len_prefix(chunks, n),
        chunks_null_prefix(chunks, j) <= chunks_null_prefix(chunks, n),
    decreases n - j,
{
    if j < n {
        lemma_chunk_prefix_monotonic(chunks, j, n - 1);
    }
}

/// Null totals lie between zero and the length total.
pub proof fn lemma_chunk_prefix_bounds(chunks: Seq<BaseArray>, n: int)
    requires
        forall|i: int| 0 <= i < n ==> (#[trigger] chunks[i]).wf(),
    ensures
        0 <= chunks_null_prefix(chunks, n) <= chunks_len_prefix(chunks, n),
    decreases n,
{
    if n > 0 {
        lemma_chunk_prefix_bounds(chunks, n - 1);
    }
}

/// A logical column stored as an ordered sequence of arrays laid end to
/// end.
#[derive(Debug)]
pub struct ChunkedArray {
    chunks: Vec<BaseArray>,
}

impl ChunkedArray {
    /// The chunks, in order.
    pub closed spec fn chunks_spec(&self) -> Seq<BaseArray> {
        self.chunks@
    }

    /// Every chunk is a well-formed array.
    #[verifier::type_invariant]
    pub open spec fn wf(&self) -> bool {
        forall|i: int| 0 <= i < self.chunks_spec().len() ==> (#[trigger] self.chunks_spec()[i]).wf()
    }

    /// A chunked array over copies of the given arrays.
    pub fn new(arrays: &Vec<BaseArray>) -> (r: ChunkedArray)
        ensures
            r.chunks_spec().len() == arrays@.len(),
            forall|i: int| 0 <= i < arrays@.len() ==> array_equals_exact(
                &(#[trigger] r.chunks_spec()[i]),
                &arrays@[i],
            ),
            forall|i: int| 0 <= i < arrays@.len() ==> (#[trigger] r.chunks_spec()[i]).ty_spec()
                == arrays@[i].ty_spec() && r.chunks_spec()[i].len_spec() == arrays@[i].len_spec()
                && r.chunks_spec()[i].null_count_spec() == arrays@[i].null_count_spec(),
    {
        let mut chunks: Vec<BaseArray> = Vec::new();
        let mut i: usize = 0;
        while i < arrays.len()
            invariant
                i <= arrays@.len(),
                chunks@.len() == i,
                forall|j: int| 0 <= j < i ==> array_equals_exact(
                    &(#[trigger] chunks@[j]),
                    &arrays@[j],
                ),
                forall|j: int| 0 <= j < i ==> (#[trigger] chunks@[j]).ty_spec()
                    == arrays@[j].ty_spec() && chunks@[j].len_spec() == arrays@[j].len_spec()
                    && chunks@[j].null_count_spec() == arrays@[j].null_count_spec(),
                forall|j: int| 0 <= j < i ==> (#[trigger] chunks@[j]).wf(),
            decreases arrays@.len() - i,
        {
            let copy = arrays[i].clone();
            proof {
                use_type_invariant(&copy);
            }
            chunks.push(copy);
            i = i + 1;
        }
        ChunkedArray { chunks }
    }

    /// Wrap a single array as a one-chunk column body.
    pub fn from_single(array: &BaseArray) -> (r: ChunkedArray)
        ensures
            r.chunks_spec().len() == 1,
            array_equals_exact(&r.chunks_spec()[0], array),
            r.chunks_spec()[0].ty_spec() == array.ty_spec(),
            r.chunks_spec()[0].len_spec() == array.len_spec(),
            r.chunks_spec()[0].null_count_spec() == array.null_count_spec(),
    {
        let mut chunks: Vec<BaseArray> = Vec::new();
        let copy = array.clone();
        proof {
            use_type_invariant(&copy);
        }
        chunks.push(copy);
        ChunkedArray { chunks }
    }

    /// How many chunks the column body has.
    pub fn num_chunks(&self) -> (r: usize)
        ensures
            r == self.chunks_spec().len(),
    {
        self.chunks.len()
    }

    /// The chunk at position `i`.
    pub fn chunk(&self, i: usize) -> (r: &BaseArray)
        requires
            i < self.chunks_spec().len(),
        ensures
            *r == self.chunks_spec()[i as int],
    {
        &self.chunks[i]
    }
}

/// A field together with its data as a chunked array.
///
/// The length and null count are the sums over the chunks, computed once
/// at construction.
#[derive(Debug)]
pub struct Column {
    field: Field,
    data: ChunkedArray,
    length: i64,
    nulls: i64,
}

impl Column {
    /// The declaring field, for specification purposes.
    pub closed spec fn field_spec(&self) -> Field {
        self.field
    }

    /// The chunks of the column's data.
    pub closed spec fn chunks_spec(&self) -> Seq<BaseArray> {
        self.data.chunks_spec()
    }

    /// The column's total length.
    pub closed spec fn len_spec(&self) -> int {
        self.length as int
    }

    /// The column's total null count.
    pub closed spec fn null_count_spec(&self) -> int {
        self.nulls as int
    }

    #[verifier::type_invariant]
    pub open spec fn wf(&self) -> bool {
        &&& self.len_spec() == chunks_len_prefix(self.chunks_spec(), self.chunks_spec().len() as int)
        &&& self.null_count_spec() == chunks_null_prefix(
            self.chunks_spec(),
            self.chunks_spec().len() as int,
        )
    }

    /// A column over a copy of a single array.
    pub fn from_array(field: &Field, array: &BaseArray) -> (r: Column)
        ensures
            field_eq(r.field_spec(), *field),
            r.chunks_spec().len() == 1,
            array_equals_exact(&r.chunks_spec()[0], array),
            r.len_spec() == array.len_spec(),
            r.null_count_spec() == array.null_count_spec(),
    {
        proof {
            use_type_invariant(array);
        }
        let data = ChunkedArray::from_single(array);
        let length = array.len() as i64;
        let nulls = array.null_count() as i64;
        proof {
            assert(chunks_len_prefix(data.chunks_spec(), 1) == chunks_len_prefix(
                data.chunks_spec(),
                0,
            ) + data.chunks_spec()[0].len_spec());
            assert(chunks_null_prefix(data.chunks_spec(), 1) == chunks_null_prefix(
                data.chunks_spec(),
                0,
            ) + data.chunks_spec()[0].null_count_spec());
        }
        Column { field: field.clone(), data, length, nulls }
    }

    /// A column over an already chunked body, whose total length must be
    /// representable.
    pub fn from_chunked_array(field: Field, array: ChunkedArray) -> (r: Column)
        requires
            chunks_len_prefix(array.chunks_spec(), array.chunks_spec().len() as int) <= i64::MAX,
        ensures
            field_eq(r.field_spec(), field),
            r.chunks_spec() == array.chunks_spec(),
            r.len_spec() == chunks_len_prefix(
                array.chunks_spec(),
                array.chunks_spec().len() as int,
            ),
            r.null_count_spec() == chunks_null_prefix(
                array.chunks_spec(),
                array.chunks_spec().len() as int,
            ),
    {
        proof {
            use_type_invariant(&array);
        }
        let n = array.num_chunks();
        let mut length: i64 = 0;
        let mut nulls: i64 = 0;
        let mut i: usize = 0;
        while i < n
            invariant
                i <= n,
                n == array.chunks_spec().len(),
                length == chunks_len_prefix(array.chunks_spec(), i as int),
                nulls == chunks_null_prefix(array.chunks_spec(), i as int),
                chunks_len_prefix(array.chunks_spec(), n as int) <= i64::MAX,
                forall|j: int| 0 <= j < n ==> (#[trigger] array.chunks_spec()[j]).wf(),
            decreases n - i,
        {
            let chunk = array.chunk(i);
            proof {
                lemma_chunk_prefix_monotonic(array.chunks_spec(), i + 1, n as int);
                lemma_chunk_prefix_bounds(array.chunks_spec(), i + 1);
                lemma_chunk_prefix_bounds(array.chunks_spec(), i as int);
            }
            length = length + chunk.len() as i64;
            nulls = nulls + chunk.null_count() as i64;
            i = i + 1;
        }
        Column { field, data: array, length, nulls }
    }

    /// The column's total length.
    pub fn len(&self) -> (r: i64)
        ensures
            r == self.len_spec(),
    {
        self.length
    }

    /// The column's total null count.
    pub fn null_count(&self) -> (r: i64)
        ensures
            r == self.null_count_spec(),
    {
        self.nulls
    }

    /// The declared type of the column.
    pub fn data_type(&self) -> (r: DataType)
        ensures
            r == self.field_spec().ty,
    {
        self.field.ty
    }

    /// The declaring field.
    pub fn field(&self) -> (r: &Field)
        ensures
            *r == self.field_spec(),
    {
        &self.field
    }

    /// The column's data.
    pub fn data(&self) -> (r: &ChunkedArray)
        ensures
            r.chunks_spec() == self.chunks_spec(),
    {
        &self.data
    }

    /// Walk every chunk and check that its type matches the declared
    /// field type, returning the validated chunks, or `Invalid` naming the
    /// mismatch.
    pub fn validate_data(&self) -> (r: Result<&ChunkedArray, ArrowError>)
        ensures
            match r {
                Ok(chunks) => {
                    &&& chunks.chunks_spec() == self.chunks_spec()
                    &&& forall|i: int| 0 <= i < self.chunks_spec().len()
                        ==> (#[trigger] self.chunks_spec()[i]).ty_spec()
                        == self.field_spec().ty.ty
                },
                Err(e) => {
                    &&& e.code_spec() == StatusCode::Invalid
                    &&& exists|i: int| 0 <= i < self.chunks_spec().len()
                        && (#[trigger] self.chunks_spec()[i]).ty_spec()
                        != self.field_spec().ty.ty
                },
            },
    {
        let n = self.data.num_chunks();
        let mut i: usize = 0;
        while i < n
            invariant
                i <= n,
                n == self.chunks_spec().len(),
                forall|j: int| 0 <= j < i ==> (#[trigger] self.chunks_spec()[j]).ty_spec()
                    == self.field_spec().ty.ty,
            decreases n - i,
        {
            if self.data.chunk(i).ty() != self.field.ty.ty {
                return Err(ArrowError::invalid("chunk type does not match the field type"));
            }
            i = i + 1;
        }
        Ok(&self.data)
    }
}

} // verus!

verus! {

impl Clone for ChunkedArray {
    /// The copy holds exactly equal chunks.
    fn clone(&self) -> (r: Self)
        ensures
            r.chunks_spec().len() == self.chunks_spec().len(),
            forall|i: int| 0 <= i < self.chunks_spec().len() ==> array_equals_exact(
                &(#[trigger] r.chunks_spec()[i]),
                &self.chunks_spec()[i],
            ),
            forall|i: int| 0 <= i < self.chunks_spec().len()
                ==> (#[trigger] r.chunks_spec()[i]).ty_spec() == self.chunks_spec()[i].ty_spec()
                && r.chunks_spec()[i].len_spec() == self.chunks_spec()[i].len_spec()
                && r.chunks_spec()[i].null_count_spec()
                == self.chunks_spec()[i].null_count_spec(),
    {
        ChunkedArray::new(&self.chunks)
    }
}

impl Clone for Column {
    /// The copy declares the same field over exactly equal chunks.
    fn clone(&self) -> (r: Self)
        ensures
            field_eq(r.field_spec(), self.field_spec()),
            r.len_spec() == self.len_spec(),
            r.null_count_spec() == self.null_count_spec(),
            r.chunks_spec().len() == self.chunks_spec().len(),
            forall|i: int| 0 <= i < self.chunks_spec().len() ==> array_equals_exact(
                &(#[trigger] r.chunks_spec()[i]),
                &self.chunks_spec()[i],
            ),
            forall|i: int| 0 <= i < self.chunks_spec().len()
                ==> (#[trigger] r.chunks_spec()[i]).ty_spec() == self.chunks_spec()[i].ty_spec(),
    {
        proof {
            use_type_invariant(self);
        }
        let data = self.data.clone();
        proof {
            lemma_chunk_prefix_congruent(
                data.chunks_spec(),
                self.data.chunks_spec(),
                data.chunks_spec().len() as int,
            );
        }
        Column {
            field: self.field.clone(),
            data,
            length: self.length,
            nulls: self.nulls,
        }
    }
}

/// Chunk sequences with pairwise equal lengths and null counts have equal
/// totals.
proof fn lemma_chunk_prefix_congruent(a: Seq<BaseArray>, b: Seq<BaseArray>, n: int)
    requires
        forall|i: int| 0 <= i < n ==> (#[trigger] a[i]).len_spec() == b[i].len_spec()
            && a[i].null_count_spec() == b[i].null_count_spec(),
    ensures
        chunks_len_prefix(a, n) == chunks_len_prefix(b, n),
        chunks_null_prefix(a, n) == chunks_null_prefix(b, n),
    decreases n,
{
    if n > 0 {
        lemma_chunk_prefix_congruent(a, b, n - 1);
    }
}

} // verus!
