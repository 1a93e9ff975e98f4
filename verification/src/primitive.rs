//! Fixed-width primitive values and the typed array/builder family.
//!
//! Every fixed-width primitive value has a little-endian byte form; a
//! typed builder accumulates values and a validity mask into the buffers
//! of an array, and a typed array decodes values back out of them.

use vstd::prelude::*;

use vstd::bytes::{
    spec_u16_to_le_bytes, spec_u16_from_le_bytes, lemma_auto_spec_u16_to_from_le_bytes,
    spec_u32_to_le_bytes, spec_u32_from_le_bytes, lemma_auto_spec_u32_to_from_le_bytes,
    spec_u64_to_le_bytes, spec_u64_from_le_bytes, lemma_auto_spec_u64_to_from_le_bytes,
    u16_from_le_bytes, u16_to_le_bytes, u32_from_le_bytes, u32_to_le_bytes, u64_from_le_bytes,
    u64_to_le_bytes,
};
use vstd::slice::slice_subrange;

use crate::array::{BaseArray, bit_at, lemma_zero_bits, nth_bit, valid_count};
use crate::buffer::{Buf, Buffer, BufferBuilder, MAX_BUILDER_CAPACITY, round_up_pow2};
use crate::memory_pool::MemoryPool;
use crate::status::{ArrowError, StatusCode};
use crate::ty::{DataType, Ty, type_value_size};

verus! {

/// A value of a fixed-width primitive type: it has a little-endian byte
/// form of a fixed width, and can be written to and read back from a byte
/// buffer. Floating point columns carry their values as the bit patterns
/// `u32` and `u64`.
pub trait PrimitiveValue: Copy + Sized {
    /// The little-endian bytes of this value.
    spec fn as_le_bytes(self) -> Seq<u8>;

    /// The width of the byte form.
    spec fn width() -> int;

    /// The byte form determines the value, and its width is fixed.
    proof fn le_props()
        ensures
            1 <= Self::width() <= 8,
            forall|v: Self| (#[trigger] v.as_le_bytes()).len() == Self::width(),
            forall|a: Self, b: Self| a.as_le_bytes() == b.as_le_bytes() ==> a == b,
    ;

    /// The width of the byte form.
    fn byte_width() -> (w: usize)
        ensures
            w == Self::width(),
    ;

    /// Append the little-endian bytes of this value.
    fn append_le_bytes(self, out: &mut Vec<u8>)
        ensures
            final(out)@ == old(out)@ + self.as_le_bytes(),
    ;

    /// Read a value back from its little-endian bytes at `pos`.
    fn read_le_bytes(bytes: &Vec<u8>, pos: usize) -> (v: Self)
        requires
            pos + Self::width() <= bytes@.len(),
        ensures
            v.as_le_bytes() == bytes@.subrange(pos as int, pos + Self::width()),
    ;
}

impl PrimitiveValue for u8 {
    open spec fn as_le_bytes(self) -> Seq<u8> {
        seq![self]
    }

    open spec fn width() -> int {
        1
    }

    proof fn le_props() {
        assert forall|a: u8, b: u8| a.as_le_bytes() == b.as_le_bytes() implies a == b by {
            assert(a.as_le_bytes()[0] == b.as_le_bytes()[0]);
        }
    }

    fn byte_width() -> usize {
        1
    }

    fn append_le_bytes(self, out: &mut Vec<u8>) {
        out.push(self);
        proof {
            assert(out@ =~= old(out)@ + self.as_le_bytes());
        }
    }

    fn read_le_bytes(bytes: &Vec<u8>, pos: usize) -> (v: Self) {
        let v = bytes[pos];
        proof {
            assert(v.as_le_bytes() =~= bytes@.subrange(pos as int, pos + 1));
        }
        v
    }
}

impl PrimitiveValue for i8 {
    open spec fn as_le_bytes(self) -> Seq<u8> {
        seq![self as u8]
    }

    open spec fn width() -> int {
        1
    }

    proof fn le_props() {
        assert forall|a: i8, b: i8| a.as_le_bytes() == b.as_le_bytes() implies a == b by {
            assert(a.as_le_bytes()[0] == b.as_le_bytes()[0]);
            let x = a;
            let y = b;
            assert(x as u8 == y as u8 ==> x == y) by (bit_vector);
        }
    }

    fn byte_width() -> usize {
        1
    }

    fn append_le_bytes(self, out: &mut Vec<u8>) {
        out.push(self as u8);
        proof {
            assert(out@ =~= old(out)@ + self.as_le_bytes());
        }
    }

    fn read_le_bytes(bytes: &Vec<u8>, pos: usize) -> (v: Self) {
        let b = bytes[pos];
        let v = b as i8;
        proof {
            let x = v;
            let y = b;
            assert(x == y as i8 ==> x as u8 == y) by (bit_vector);
            assert(v.as_le_bytes() =~= bytes@.subrange(pos as int, pos + 1));
        }
        v
    }
}

impl PrimitiveValue for u16 {
    open spec fn as_le_bytes(self) -> Seq<u8> {
        spec_u16_to_le_bytes(self)
    }

    open spec fn width() -> int {
        2
    }

    proof fn le_props() {
        lemma_auto_spec_u16_to_from_le_bytes();
        assert forall|a: u16, b: u16| a.as_le_bytes() == b.as_le_bytes() implies a == b by {
            assert(spec_u16_to_le_bytes(a).len() == 2);
            assert(spec_u16_to_le_bytes(b).len() == 2);
            assert(spec_u16_from_le_bytes(spec_u16_to_le_bytes(a)) == a);
            assert(spec_u16_from_le_bytes(spec_u16_to_le_bytes(b)) == b);
        }
    }

    fn byte_width() -> usize {
        2
    }

    fn append_le_bytes(self, out: &mut Vec<u8>) {
        let mut le = u16_to_le_bytes(self);
        out.append(&mut le);
    }

    fn read_le_bytes(bytes: &Vec<u8>, pos: usize) -> (v: Self) {
        let total = bytes.len();
        let v = u16_from_le_bytes(slice_subrange(bytes.as_slice(), pos, pos + 2));
        proof {
            lemma_auto_spec_u16_to_from_le_bytes();
        }
        v
    }
}

impl PrimitiveValue for i16 {
    open spec fn as_le_bytes(self) -> Seq<u8> {
        spec_u16_to_le_bytes(self as u16)
    }

    open spec fn width() -> int {
        2
    }

    proof fn le_props() {
        lemma_auto_spec_u16_to_from_le_bytes();
        assert forall|a: i16, b: i16| a.as_le_bytes() == b.as_le_bytes() implies a == b by {
            assert(spec_u16_to_le_bytes(a as u16).len() == 2);
            assert(spec_u16_to_le_bytes(b as u16).len() == 2);
            assert(spec_u16_from_le_bytes(spec_u16_to_le_bytes(a as u16)) == a as u16);
            assert(spec_u16_from_le_bytes(spec_u16_to_le_bytes(b as u16)) == b as u16);
            let x = a;
            let y = b;
            assert(x as u16 == y as u16 ==> x == y) by (bit_vector);
        }
    }

    fn byte_width() -> usize {
        2
    }

    fn append_le_bytes(self, out: &mut Vec<u8>) {
        let mut le = u16_to_le_bytes(self as u16);
        out.append(&mut le);
    }

    fn read_le_bytes(bytes: &Vec<u8>, pos: usize) -> (v: Self) {
        let total = bytes.len();
        let u = u16_from_le_bytes(slice_subrange(bytes.as_slice(), pos, pos + 2));
        let v = u as i16;
        proof {
            lemma_auto_spec_u16_to_from_le_bytes();
            let x = v;
            let y = u;
            assert(x == y as i16 ==> x as u16 == y) by (bit_vector);
        }
        v
    }
}

impl PrimitiveValue for u32 {
    open spec fn as_le_bytes(self) -> Seq<u8> {
        spec_u32_to_le_bytes(self)
    }

    open spec fn width() -> int {
        4
    }

    proof fn le_props() {
        lemma_auto_spec_u32_to_from_le_bytes();
        assert forall|a: u32, b: u32| a.as_le_bytes() == b.as_le_bytes() implies a == b by {
            assert(spec_u32_to_le_bytes(a).len() == 4);
            assert(spec_u32_to_le_bytes(b).len() == 4);
            assert(spec_u32_from_le_bytes(spec_u32_to_le_bytes(a)) == a);
            assert(spec_u32_from_le_bytes(spec_u32_to_le_bytes(b)) == b);
        }
    }

    fn byte_width() -> usize {
        4
    }

    fn append_le_bytes(self, out: &mut Vec<u8>) {
        let mut le = u32_to_le_bytes(self);
        out.append(&mut le);
    }

    fn read_le_bytes(bytes: &Vec<u8>, pos: usize) -> (v: Self) {
        let total = bytes.len();
        let v = u32_from_le_bytes(slice_subrange(bytes.as_slice(), pos, pos + 4));
        proof {
            lemma_auto_spec_u32_to_from_le_bytes();
        }
        v
    }
}

impl PrimitiveValue for i32 {
    open spec fn as_le_bytes(self) -> Seq<u8> {
        spec_u32_to_le_bytes(self as u32)
    }

    open spec fn width() -> int {
        4
    }

    proof fn le_props() {
        lemma_auto_spec_u32_to_from_le_bytes();
        assert forall|a: i32, b: i32| a.as_le_bytes() == b.as_le_bytes() implies a == b by {
            assert(spec_u32_to_le_bytes(a as u32).len() == 4);
            assert(spec_u32_to_le_bytes(b as u32).len() == 4);
            assert(spec_u32_from_le_bytes(spec_u32_to_le_bytes(a as u32)) == a as u32);
            assert(spec_u32_from_le_bytes(spec_u32_to_le_bytes(b as u32)) == b as u32);
            let x = a;
            let y = b;
            assert(x as u32 == y as u32 ==> x == y) by (bit_vector);
        }
    }

    fn byte_width() -> usize {
        4
    }

    fn append_le_bytes(self, out: &mut Vec<u8>) {
        let mut le = u32_to_le_bytes(self as u32);
        out.append(&mut le);
    }

    fn read_le_bytes(bytes: &Vec<u8>, pos: usize) -> (v: Self) {
        let total = bytes.len();
        let u = u32_from_le_bytes(slice_subrange(bytes.as_slice(), pos, pos + 4));
        let v = u as i32;
        proof {
            lemma_auto_spec_u32_to_from_le_bytes();
            let x = v;
            let y = u;
            assert(x == y as i32 ==> x as u32 == y) by (bit_vector);
        }
        v
    }
}

impl PrimitiveValue for u64 {
    open spec fn as_le_bytes(self) -> Seq<u8> {
        spec_u64_to_le_bytes(self)
    }

    open spec fn width() -> int {
        8
    }

    proof fn le_props() {
        lemma_auto_spec_u64_to_from_le_bytes();
        assert forall|a: u64, b: u64| a.as_le_bytes() == b.as_le_bytes() implies a == b by {
            assert(spec_u64_to_le_bytes(a).len() == 8);
            assert(spec_u64_to_le_bytes(b).len() == 8);
            assert(spec_u64_from_le_bytes(spec_u64_to_le_bytes(a)) == a);
            assert(spec_u64_from_le_bytes(spec_u64_to_le_bytes(b)) == b);
        }
    }

    fn byte_width() -> usize {
        8
    }

    fn append_le_bytes(self, out: &mut Vec<u8>) {
        let mut le = u64_to_le_bytes(self);
        out.append(&mut le);
    }

    fn read_le_bytes(bytes: &Vec<u8>, pos: usize) -> (v: Self) {
        let total = bytes.len();
        let v = u64_from_le_bytes(slice_subrange(bytes.as_slice(), pos, pos + 8));
        proof {
            lemma_auto_spec_u64_to_from_le_bytes();
        }
        v
    }
}

impl PrimitiveValue for i64 {
    open spec fn as_le_bytes(self) -> Seq<u8> {
        spec_u64_to_le_bytes(self as u64)
    }

    open spec fn width() -> int {
        8
    }

    proof fn le_props() {
        lemma_auto_spec_u64_to_from_le_bytes();
        assert forall|a: i64, b: i64| a.as_le_bytes() == b.as_le_bytes() implies a == b by {
            assert(spec_u64_to_le_bytes(a as u64).len() == 8);
            assert(spec_u64_to_le_bytes(b as u64).len() == 8);
            assert(spec_u64_from_le_bytes(spec_u64_to_le_bytes(a as u64)) == a as u64);
            assert(spec_u64_from_le_bytes(spec_u64_to_le_bytes(b as u64)) == b as u64);
            let x = a;
            let y = b;
            assert(x as u64 == y as u64 ==> x == y) by (bit_vector);
        }
    }

    fn byte_width() -> usize {
        8
    }

    fn append_le_bytes(self, out: &mut Vec<u8>) {
        let mut le = u64_to_le_bytes(self as u64);
        out.append(&mut le);
    }

    fn read_le_bytes(bytes: &Vec<u8>, pos: usize) -> (v: Self) {
        let total = bytes.len();
        let u = u64_from_le_bytes(slice_subrange(bytes.as_slice(), pos, pos + 8));
        let v = u as i64;
        proof {
            lemma_auto_spec_u64_to_from_le_bytes();
            let x = v;
            let y = u;
            assert(x == y as i64 ==> x as u64 == y) by (bit_vector);
        }
        v
    }
}

/// Reading back the very bytes a value was written as yields that value.
pub proof fn lemma_le_round_trip<T: PrimitiveValue>(original: T, read: T)
    requires
        read.as_le_bytes() == original.as_le_bytes(),
    ensures
        read == original,
{
    T::le_props();
}

} // verus!

verus! {

/// How many of the first `n` flags are true.
pub open spec fn count_true(s: Seq<bool>, n: int) -> int
    decreases n,
{
    if n <= 0 {
        0
    } else {
        count_true(s, n - 1) + if s[n - 1] {
            1int
        } else {
            0int
        }
    }
}

/// The count of true flags lies between 0 and the prefix length.
pub proof fn lemma_count_true_bounds(s: Seq<bool>, n: int)
    ensures
        0 <= count_true(s, n) <= if n <= 0 {
            0int
        } else {
            n
        },
    decreases n,
{
    if n > 0 {
        lemma_count_true_bounds(s, n - 1);
    }
}

/// A bitmap whose first `n` bits spell out the flags has as many set bits
/// as there are true flags.
proof fn lemma_bitmap_count(bm: Seq<u8>, s: Seq<bool>, n: int)
    requires
        forall|i: int| 0 <= i < n ==> bit_at(bm, i) == s[i],
    ensures
        valid_count(bm, n) == count_true(s, n),
    decreases n,
{
    if n > 0 {
        lemma_bitmap_count(bm, s, n - 1);
    }
}

/// Setting bit `k` of a byte leaves every other bit alone.
pub proof fn lemma_set_bit(b: u8, k: u8)
    requires
        k < 8,
    ensures
        nth_bit(b | (1u8 << k), k),
        forall|j: u8| j < 8 && j != k ==> nth_bit(b | (1u8 << k), j) == nth_bit(b, j),
{
    assert(((b | (1u8 << k)) >> k) & 1 == 1) by (bit_vector)
        requires
            k < 8,
    ;
    assert forall|j: u8| j < 8 && j != k implies nth_bit(b | (1u8 << k), j) == nth_bit(b, j) by {
        let bb = b;
        let kk = k;
        let jj = j;
        assert(((bb | (1u8 << kk)) >> jj) & 1 == (bb >> jj) & 1) by (bit_vector)
            requires
                jj < 8,
                kk < 8,
                jj != kk,
        ;
    }
}

/// Builds a typed array incrementally: batches of values with an optional
/// validity mask accumulate in a value buffer and a flag list, and
/// `finish` freezes them into an array.
pub struct PrimitiveArrayBuilder<T: PrimitiveValue> {
    data_type: DataType,
    values: BufferBuilder,
    validity: Vec<bool>,
    value_type: core::marker::PhantomData<T>,
}

impl<T: PrimitiveValue> PrimitiveArrayBuilder<T> {
    /// How many values have been appended.
    pub closed spec fn count(&self) -> int {
        self.validity@.len() as int
    }

    /// The validity flag of each appended value.
    pub closed spec fn valid_seq(&self) -> Seq<bool> {
        self.validity@
    }

    /// The type the array will carry.
    pub closed spec fn data_type_spec(&self) -> DataType {
        self.data_type
    }

    /// The accumulated value bytes.
    pub closed spec fn content_bytes(&self) -> Seq<u8> {
        self.values.builder_bytes().take(self.values.builder_len())
    }

    /// The bytes of the `j`th appended value.
    pub open spec fn cell(&self, j: int) -> Seq<u8> {
        self.content_bytes().subrange(j * T::width(), (j + 1) * T::width())
    }

    /// Well-formedness: the value buffer holds exactly the bytes of the
    /// appended values, and the type's width matches the value type.
    pub open spec fn wf(&self) -> bool {
        &&& self.values_builder().wf()
        &&& self.values_builder().builder_len() == self.count() * T::width()
        &&& self.values_builder().builder_size() == self.values_builder().builder_len()
        &&& self.count() <= i32::MAX
        &&& type_value_size(self.data_type_spec().ty) == T::width()
    }

    /// The underlying byte builder, for specification purposes.
    pub closed spec fn values_builder(&self) -> BufferBuilder {
        self.values
    }

    /// A fresh, empty builder for arrays of `data_type`, whose width must
    /// be the width of the value type.
    pub fn new(pool: &MemoryPool, data_type: DataType) -> (r: PrimitiveArrayBuilder<T>)
        requires
            pool.wf(),
            type_value_size(data_type.ty) == T::width(),
        ensures
            r.wf(),
            r.count() == 0,
            r.valid_seq() == Seq::<bool>::empty(),
            r.content_bytes() == Seq::<u8>::empty(),
            r.data_type_spec() == data_type,
            r.values_builder().pool_spec() == *pool,
    {
        proof {
            T::le_props();
        }
        let r = PrimitiveArrayBuilder {
            data_type,
            values: BufferBuilder::new(pool),
            validity: Vec::new(),
            value_type: core::marker::PhantomData,
        };
        proof {
            assert(r.content_bytes() =~= Seq::<u8>::empty());
            assert(r.valid_seq() =~= Seq::<bool>::empty());
        }
        r
    }

    /// Append a batch of values. Each entry of `valid_bytes`, if given,
    /// marks whether the matching value is present (nonzero) or null
    /// (zero); with no mask every value is present. The builder is
    /// unchanged on failure.
    pub fn append(&mut self, values: &Vec<T>, valid_bytes: Option<&Vec<u8>>) -> (r: Result<
        (),
        ArrowError,
    >)
        requires
            old(self).wf(),
            (match valid_bytes {
                Some(m) => m@.len() == values@.len(),
                None => true,
            }),
        ensures
            final(self).wf(),
            match r {
                Ok(()) => {
                    &&& final(self).count() == old(self).count() + values@.len()
                    &&& final(self).data_type_spec() == old(self).data_type_spec()
                    &&& forall|j: int| 0 <= j < old(self).count() ==> final(self).cell(j) == old(
                        self,
                    ).cell(j)
                    &&& forall|j: int| 0 <= j < values@.len() ==> final(self).cell(
                        old(self).count() + j,
                    ) == values@[j].as_le_bytes()
                    &&& final(self).valid_seq() == old(self).valid_seq() + (match valid_bytes {
                        Some(m) => Seq::new(values@.len(), |j: int| m@[j] != 0),
                        None => Seq::new(values@.len(), |j: int| true),
                    })
                },
                Err(e) => {
                    &&& *final(self) == *old(self)
                    &&& e.code_spec() == StatusCode::OutOfMemory
                    &&& (old(self).count() + values@.len()) * T::width()
                        > old(self).values_builder().builder_bytes().len()
                    &&& ((old(self).count() + values@.len()) * T::width()
                        > MAX_BUILDER_CAPACITY
                        || old(self).values_builder().pool_spec().allocated_spec()
                            + (round_up_pow2((old(self).count() + values@.len()) * T::width())
                            - old(self).values_builder().builder_bytes().len())
                        > old(self).values_builder().pool_spec().limit_spec())
                },
            },
    {
        proof {
            T::le_props();
        }
        let n = values.len();
        let w = T::byte_width();
        let mut scratch: Vec<u8> = Vec::new();
        let mut j: usize = 0;
        proof {
            assert(scratch@ =~= Seq::<u8>::empty());
        }
        while j < n
            invariant
                j <= n,
                n == values@.len(),
                w == T::width(),
                1 <= w <= 8,
                forall|v: T| (#[trigger] v.as_le_bytes()).len() == T::width(),
                scratch@.len() == j * w,
                forall|t: int| 0 <= t < j ==> #[trigger] scratch@.subrange(
                    t * (w as int),
                    (t + 1) * (w as int),
                ) == values@[t].as_le_bytes(),
            decreases n - j,
        {
            let ghost before = scratch@;
            proof {
                assert((j + 1) * (w as int) == j * (w as int) + (w as int)) by (nonlinear_arith);
            }
            values[j].append_le_bytes(&mut scratch);
            proof {
                assert forall|t: int| 0 <= t < j + 1 implies #[trigger] scratch@.subrange(
                    t * (w as int),
                    (t + 1) * (w as int),
                ) == values@[t].as_le_bytes() by {
                    assert((t + 1) * (w as int) <= j * (w as int) + (w as int) && 0 <= t * (
                    w as int) && t * (w as int) + (w as int) == (t + 1) * (w as int))
                        by (nonlinear_arith)
                        requires
                            0 <= t <= j,
                            1 <= w,
                    ;
                    if t < j {
                        assert((t + 1) * (w as int) <= j * (w as int)) by (nonlinear_arith)
                            requires
                                t + 1 <= j,
                                1 <= w,
                        ;
                        assert(scratch@.subrange(t * (w as int), (t + 1) * (w as int))
                            =~= before.subrange(t * (w as int), (t + 1) * (w as int)));
                    } else {
                        assert(scratch@.subrange(t * (w as int), (t + 1) * (w as int))
                            =~= values@[t].as_le_bytes());
                    }
                }
            }
            j = j + 1;
        }
        let ghost old_count = self.count();
        let ghost old_content = self.content_bytes();
        match self.values.raw_append(&scratch) {
            Ok(_) => {}
            Err(e) => {
                proof {
                    assert((old_count + n) * (w as int) == old_count * (w as int) + n * (
                    w as int)) by (nonlinear_arith);
                }
                return Err(e);
            }
        }
        let new_len = self.values.len();
        match self.values.resize(new_len) {
            Ok(_) => {}
            Err(e) => {
                proof {
                    assert(false);
                }
                return Err(e);
            }
        }
        proof {
            let wq = w as int;
            let oc = old(self).count();
            assert((oc + n) * wq == oc * wq + n * wq) by (nonlinear_arith);
            assert(oc + n <= (oc + n) * wq) by (nonlinear_arith)
                requires
                    0 <= oc + n,
                    1 <= wq,
            ;
            assert forall|j2: int| 0 <= j2 < oc implies self.cell(j2) == old(self).cell(j2) by {
                assert((j2 + 1) * wq <= oc * wq && 0 <= j2 * wq && j2 * wq + wq == (j2 + 1) * wq)
                    by (nonlinear_arith)
                    requires
                        0 <= j2,
                        j2 + 1 <= oc,
                        1 <= wq,
                ;
                assert(self.cell(j2) =~= old(self).cell(j2));
            }
            assert forall|j2: int| 0 <= j2 < n implies self.cell(oc + j2) == values@[
                j2].as_le_bytes() by {
                assert((oc + j2) * wq == oc * wq + j2 * wq && (oc + j2 + 1) * wq == oc * wq + (j2
                    + 1) * wq && 0 <= j2 * wq && (j2 + 1) * wq <= n * wq && j2 * wq + wq == (j2
                    + 1) * wq) by (nonlinear_arith)
                    requires
                        0 <= j2,
                        j2 + 1 <= n,
                        0 <= oc,
                        1 <= wq,
                ;
                assert(self.cell(oc + j2) =~= scratch@.subrange(j2 * wq, (j2 + 1) * wq));
            }
        }
        let mut t: usize = 0;
        let ghost vb = self.values_builder();
        let ghost mask = (match valid_bytes {
            Some(m) => Seq::new(values@.len() as nat, |j: int| m@[j] != 0),
            None => Seq::new(values@.len() as nat, |j: int| true),
        });
        while t < n
            invariant
                t <= n,
                n == values@.len(),
                (match valid_bytes {
                    Some(m) => m@.len() == values@.len(),
                    None => true,
                }),
                mask == (match valid_bytes {
                    Some(m) => Seq::new(values@.len() as nat, |j: int| m@[j] != 0),
                    None => Seq::new(values@.len() as nat, |j: int| true),
                }),
                self.validity@ == old(self).validity@ + mask.take(t as int),
                self.values_builder() == vb,
                self.data_type_spec() == old(self).data_type_spec(),
            decreases n - t,
        {
            let flag = match valid_bytes {
                Some(m) => m[t] != 0,
                None => true,
            };
            self.validity.push(flag);
            proof {
                assert(self.validity@ =~= old(self).validity@ + mask.take(t + 1));
            }
            t = t + 1;
        }
        proof {
            assert(self.validity@ =~= old(self).validity@ + mask);
        }
        Ok(())
    }
}

} // verus!

verus! {

/// A typed view over a `BaseArray` of the matching fixed-width type:
/// values can be decoded back out of the value buffer.
pub struct TypedArray<T: PrimitiveValue> {
    base: BaseArray,
    value_type: core::marker::PhantomData<T>,
}

/// Typed access to the values of a fixed-width primitive array.
pub trait PrimitiveArray<T: PrimitiveValue>: Sized {
    /// How many values the array holds.
    spec fn prim_len(&self) -> int;

    /// The stored bytes of the value at `i`.
    spec fn prim_cell(&self, i: int) -> Seq<u8>;

    /// The value at `i`, decoded from its stored bytes. If the value is
    /// null the bytes behind it are still well-defined, just meaningless.
    fn value(&self, i: i32) -> (r: T)
        requires
            0 <= i < self.prim_len(),
        ensures
            r.as_le_bytes() == self.prim_cell(i as int),
    ;

    /// All values, decoded in order.
    fn values(&self) -> (r: Vec<T>)
        ensures
            r@.len() == self.prim_len(),
            forall|i: int| 0 <= i < self.prim_len() ==> (#[trigger] r@[i]).as_le_bytes()
                == self.prim_cell(i),
    ;
}

impl<T: PrimitiveValue> TypedArray<T> {
    /// The underlying array, for specification purposes.
    pub closed spec fn base_spec(&self) -> BaseArray {
        self.base
    }

    /// The type's width always matches the value type's.
    #[verifier::type_invariant]
    pub open spec fn wf(&self) -> bool {
        &&& self.base_spec().wf()
        &&& self.base_spec().ty_spec() != Ty::NA
        &&& self.base_spec().width() == T::width()
    }

    /// Wrap an array whose type has the width of the value type.
    pub fn from_base(base: BaseArray) -> (r: TypedArray<T>)
        requires
            base.ty_spec() != Ty::NA,
            type_value_size(base.ty_spec()) == T::width(),
        ensures
            r.base_spec() == base,
    {
        proof {
            use_type_invariant(&base);
        }
        TypedArray { base, value_type: core::marker::PhantomData }
    }

    /// The checked downcast: wrap the array only after verifying that
    /// its runtime type tag has the width of the value type, and fail
    /// with `Invalid` on a mismatch rather than reinterpreting.
    pub fn try_from_base(base: BaseArray) -> (r: Result<TypedArray<T>, ArrowError>)
        ensures
            match r {
                Ok(a) => {
                    &&& base.ty_spec() != Ty::NA
                    &&& type_value_size(base.ty_spec()) == T::width()
                    &&& a.base_spec() == base
                },
                Err(e) => {
                    &&& e.code_spec() == StatusCode::Invalid
                    &&& (base.ty_spec() == Ty::NA || type_value_size(base.ty_spec())
                        != T::width())
                },
            },
    {
        proof {
            T::le_props();
        }
        let w = T::byte_width();
        match base.ty() {
            Ty::NA => Err(ArrowError::invalid("a null-type array has no typed values")),
            _ => {
                let value_width = base.data_type().value_size();
                if (value_width as i64) != (w as i64) {
                    return Err(ArrowError::invalid(
                        "array type width does not match the value type",
                    ));
                }
                Ok(TypedArray::<T>::from_base(base))
            },
        }
    }

    /// The underlying array.
    pub fn as_base(&self) -> (r: &BaseArray)
        ensures
            *r == self.base_spec(),
    {
        &self.base
    }

    /// Give up the typed view, leaving the plain array.
    pub fn into_base(self) -> (r: BaseArray)
        ensures
            r == self.base_spec(),
    {
        self.base
    }

    /// The number of values.
    pub fn len(&self) -> (r: i32)
        ensures
            r == self.base_spec().len_spec(),
    {
        self.base.len()
    }

    /// The number of nulls among them.
    pub fn null_count(&self) -> (r: i32)
        ensures
            r == self.base_spec().null_count_spec(),
    {
        self.base.null_count()
    }

    /// The logical type.
    pub fn data_type(&self) -> (r: DataType)
        ensures
            r.ty == self.base_spec().ty_spec(),
    {
        self.base.data_type()
    }

    /// Whether the value at `i` is null.
    pub fn is_null(&self, i: i32) -> (r: bool)
        requires
            0 <= i < self.base_spec().len_spec(),
        ensures
            r == !self.base_spec().valid_at(i as int),
    {
        self.base.is_null(i)
    }
}

impl<T: PrimitiveValue> PrimitiveArray<T> for TypedArray<T> {
    open spec fn prim_len(&self) -> int {
        self.base_spec().len_spec()
    }

    open spec fn prim_cell(&self, i: int) -> Seq<u8> {
        self.base_spec().cell(i)
    }

    fn value(&self, i: i32) -> (r: T) {
        proof {
            use_type_invariant(self);
            T::le_props();
        }
        let w = T::byte_width();
        let values = self.base.data().data();
        let total = values.len();
        proof {
            assert(self.base_spec().len_spec() * (w as int) <= total as int);
            assert((i + 1) * (w as int) <= self.base_spec().len_spec() * (w as int) && 0 <= i * (
            w as int) && i * (w as int) + (w as int) == (i + 1) * (w as int)) by (nonlinear_arith)
                requires
                    0 <= i,
                    i + 1 <= self.base_spec().len_spec(),
                    1 <= w,
            ;
        }
        let v = T::read_le_bytes(values, (i as usize) * w);
        v
    }

    fn values(&self) -> (r: Vec<T>) {
        proof {
            use_type_invariant(self);
        }
        let n = self.base.len();
        let mut out: Vec<T> = Vec::new();
        let mut i: i32 = 0;
        while i < n
            invariant
                0 <= i <= n,
                n == self.base_spec().len_spec(),
                self.wf(),
                out@.len() == i,
                forall|t: int| 0 <= t < i ==> (#[trigger] out@[t]).as_le_bytes()
                    == self.prim_cell(t),
            decreases n - i,
        {
            let v = self.value(i);
            out.push(v);
            i = i + 1;
        }
        out
    }
}

impl<T: PrimitiveValue> PrimitiveArrayBuilder<T> {
    /// Freeze the accumulated values and validity flags into a typed
    /// array, leaving the builder empty. Every appended value's bytes
    /// land in the value buffer at its position; the validity bitmap
    /// spells out the flags; the null count counts the false flags.
    pub fn finish(&mut self) -> (r: TypedArray<T>)
        requires
            old(self).wf(),
        ensures
            final(self).wf(),
            final(self).count() == 0,
            final(self).data_type_spec() == old(self).data_type_spec(),
            r.base_spec().ty_spec() == old(self).data_type_spec().ty,
            r.base_spec().len_spec() == old(self).count(),
            r.base_spec().null_count_spec() == old(self).count() - count_true(
                old(self).valid_seq(),
                old(self).count(),
            ),
            forall|i: int| 0 <= i < old(self).count() ==> r.base_spec().valid_at(i) == old(
                self,
            ).valid_seq()[i],
            forall|i: int| 0 <= i < old(self).count() ==> r.base_spec().cell(i) == old(self).cell(
                i,
            ),
    {
        proof {
            T::le_props();
        }
        let count = self.validity.len();
        let w = T::byte_width();
        let nbytes = (count + 7) / 8;

        // pack the validity flags into a bitmap, least significant bit first
        let mut bitmap: Vec<u8> = Vec::new();
        let mut b: usize = 0;
        while b < nbytes
            invariant
                b <= nbytes,
                count == self.validity@.len(),
                count <= i32::MAX,
                nbytes == (count + 7) / 8,
                bitmap@.len() == b,
                forall|i: int| 0 <= i < 8 * b && i < count ==> bit_at(bitmap@, i)
                    == self.validity@[i],
            decreases nbytes - b,
        {
            let ghost bitmap_before = bitmap@;
            let mut byte: u8 = 0;
            proof {
                lemma_zero_bits();
            }
            let mut k: usize = 0;
            while k < 8
                invariant
                    k <= 8,
                    b < nbytes,
                    count == self.validity@.len(),
                    count <= i32::MAX,
                    nbytes == (count + 7) / 8,
                    forall|kk: int| 0 <= kk < k ==> #[trigger] nth_bit(byte, kk as u8) == (8 * b
                        + kk < count && self.validity@[8 * b + kk]),
                    forall|kk: int| k <= kk < 8 ==> !(#[trigger] nth_bit(byte, kk as u8)),
                decreases 8 - k,
            {
                let ghost byte0 = byte;
                let idx = 8 * b + k;
                let set = idx < count && self.validity[idx];
                if set {
                    proof {
                        lemma_set_bit(byte, k as u8);
                    }
                    byte = byte | (1u8 << (k as u8));
                }
                proof {
                    assert forall|kk: int| 0 <= kk < k + 1 implies #[trigger] nth_bit(
                        byte,
                        kk as u8,
                    ) == (8 * b + kk < count && self.validity@[8 * b + kk]) by {
                        if kk == k {
                            if !set {
                                assert(!nth_bit(byte0, kk as u8));
                            }
                        } else {
                            if set {
                                assert(nth_bit(byte, kk as u8) == nth_bit(byte0, kk as u8));
                            }
                            assert(nth_bit(byte0, kk as u8) == (8 * b + kk < count
                                && self.validity@[8 * b + kk]));
                        }
                    }
                    assert forall|kk: int| k + 1 <= kk < 8 implies !(#[trigger] nth_bit(
                        byte,
                        kk as u8,
                    )) by {
                        if set {
                            assert(nth_bit(byte, kk as u8) == nth_bit(byte0, kk as u8));
                        }
                        assert(!nth_bit(byte0, kk as u8));
                    }
                }
                k = k + 1;
            }
            bitmap.push(byte);
            proof {
                assert forall|i: int| 0 <= i < 8 * (b + 1) && i < count implies bit_at(
                    bitmap@,
                    i,
                ) == self.validity@[i] by {
                    if i < 8 * b {
                        assert(i / 8 < b && 0 <= i / 8) by (nonlinear_arith)
                            requires
                                0 <= i < 8 * b,
                        ;
                        assert(bitmap@[i / 8] == bitmap_before[i / 8]);
                        assert(bit_at(bitmap_before, i) == self.validity@[i]);
                        assert(bit_at(bitmap@, i) == bit_at(bitmap_before, i));
                    } else {
                        assert(i / 8 == b && i % 8 == i - 8 * b) by (nonlinear_arith)
                            requires
                                8 * b <= i < 8 * b + 8,
                                0 <= b,
                        ;
                        assert(bitmap@[i / 8] == byte);
                        assert(nth_bit(byte, (i - 8 * b) as u8) == self.validity@[i]);
                        assert(bit_at(bitmap@, i) == nth_bit(byte, (i % 8) as u8));
                    }
                }
            }
            b = b + 1;
        }

        // count the valid entries
        let mut nvalid: usize = 0;
        let mut t: usize = 0;
        while t < count
            invariant
                t <= count,
                count == self.validity@.len(),
                nvalid <= t,
                nvalid == count_true(self.validity@, t as int),
            decreases count - t,
        {
            if self.validity[t] {
                nvalid = nvalid + 1;
            }
            t = t + 1;
        }
        let null_count = (count - nvalid) as i32;

        // freeze the buffers
        let ghost old_valid = self.validity@;
        let ghost old_content = self.content_bytes();
        let values_buf = self.values.finish();
        let values_imm = values_buf.into_immut();
        let bitmap_buf = Buf::with_size(bitmap, nbytes as i64);
        proof {
            use_type_invariant(&values_imm);
            use_type_invariant(&bitmap_buf);
        }
        let mut buffers: Vec<Buf> = Vec::new();
        buffers.push(bitmap_buf);
        buffers.push(values_imm);
        proof {
            lemma_bitmap_count(buffers@[0].buf_bytes(), old_valid, count as int);
            lemma_count_true_bounds(old_valid, count as int);
            assert(count as int * (w as int) == old(self).count() * T::width());
        }
        let base = BaseArray::from_raw(self.data_type, count as i32, null_count, buffers);
        self.validity = Vec::new();
        let r = TypedArray::<T> { base, value_type: core::marker::PhantomData };
        proof {
            assert(r.base_spec().value_bytes() == old(self).values_builder().builder_bytes());
            assert forall|i: int| 0 <= i < count implies r.base_spec().cell(i) == old(self).cell(
                i,
            ) by {
                assert((i + 1) * (w as int) <= count as int * (w as int) && 0 <= i * (w as int)
                    && i * (w as int) + (w as int) == (i + 1) * (w as int)) by (nonlinear_arith)
                    requires
                        0 <= i,
                        i + 1 <= count,
                        1 <= w,
                ;
                assert forall|x: int| i * (w as int) <= x < (i + 1) * (w as int) implies
                    r.base_spec().value_bytes()[x] == old(self).content_bytes()[x] by {
                    assert(old(self).content_bytes()[x] == old(
                        self,
                    ).values_builder().builder_bytes()[x]);
                }
                assert(r.base_spec().cell(i) =~= old(self).cell(i));
            }
            assert(final(self).content_bytes() =~= Seq::<u8>::empty());
        }
        r
    }

    /// As `finish`, but hand back the plain array.
    pub fn finish_as_base(&mut self) -> (r: BaseArray)
        requires
            old(self).wf(),
        ensures
            final(self).wf(),
            final(self).count() == 0,
            final(self).data_type_spec() == old(self).data_type_spec(),
            r.ty_spec() == old(self).data_type_spec().ty,
            r.len_spec() == old(self).count(),
            r.null_count_spec() == old(self).count() - count_true(
                old(self).valid_seq(),
                old(self).count(),
            ),
            forall|i: int| 0 <= i < old(self).count() ==> r.valid_at(i) == old(
                self,
            ).valid_seq()[i],
            forall|i: int| 0 <= i < old(self).count() ==> r.cell(i) == old(self).cell(i),
    {
        self.finish().into_base()
    }
}

/// Arrays and builders for each fixed-width primitive type. Floating
/// point columns carry their values as bit patterns.
pub type U8Array = TypedArray<u8>;

pub type I8Array = TypedArray<i8>;

pub type U16Array = TypedArray<u16>;

pub type I16Array = TypedArray<i16>;

pub type U32Array = TypedArray<u32>;

pub type I32Array = TypedArray<i32>;

pub type U64Array = TypedArray<u64>;

pub type I64Array = TypedArray<i64>;

pub type F32Array = TypedArray<u32>;

pub type F64Array = TypedArray<u64>;

pub type U8ArrayBuilder = PrimitiveArrayBuilder<u8>;

pub type I8ArrayBuilder = PrimitiveArrayBuilder<i8>;

pub type U16ArrayBuilder = PrimitiveArrayBuilder<u16>;

pub type I16ArrayBuilder = PrimitiveArrayBuilder<i16>;

pub type U32ArrayBuilder = PrimitiveArrayBuilder<u32>;

pub type I32ArrayBuilder = PrimitiveArrayBuilder<i32>;

pub type U64ArrayBuilder = PrimitiveArrayBuilder<u64>;

pub type I64ArrayBuilder = PrimitiveArrayBuilder<i64>;

pub type F32ArrayBuilder = PrimitiveArrayBuilder<u32>;

pub type F64ArrayBuilder = PrimitiveArrayBuilder<u64>;

} // verus!
