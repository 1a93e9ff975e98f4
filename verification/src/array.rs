//! Typed arrays: fixed-length sequences of logical values over buffers.
//!
//! An array couples a logical type with a length, a null count, and the
//! buffers that carry its data: for a fixed-width primitive type a validity
//! bitmap and a value buffer; for the degenerate null type no buffers at
//! all. Equality comes at two levels: `equals_exact` compares the buffers
//! byte for byte, while `equals` compares only the logically meaningful
//! bytes, ignoring padding and the don't-care bytes behind nulls.

use vstd::prelude::*;

use crate::buffer::{Buf, Buffer};
use crate::ty::{DataType, Ty, type_value_size};

verus! {

/// Whether bit `k` of byte `b` is set.
pub open spec fn nth_bit(b: u8, k: u8) -> bool {
    (b >> k) & 1 == 1
}

/// Whether bit `i` of a bitmap laid out least-significant-bit first is set.
pub open spec fn bit_at(bitmap: Seq<u8>, i: int) -> bool {
    nth_bit(bitmap[i / 8], (i % 8) as u8)
}

/// How many of the first `n` bits of the bitmap are set.
pub open spec fn valid_count(bitmap: Seq<u8>, n: int) -> int
    decreases n,
{
    if n <= 0 {
        0
    } else {
        valid_count(bitmap, n - 1) + if bit_at(bitmap, n - 1) {
            1int
        } else {
            0int
        }
    }
}

/// The set-bit count of a prefix lies between 0 and the prefix length.
pub proof fn lemma_valid_count_bounds(bitmap: Seq<u8>, n: int)
    ensures
        0 <= valid_count(bitmap, n) <= if n <= 0 {
            0int
        } else {
            n
        },
    decreases n,
{
    if n > 0 {
        lemma_valid_count_bounds(bitmap, n - 1);
    }
}

/// Two bitmaps that agree on their first `n` bits have the same count.
pub proof fn lemma_valid_count_congruent(a: Seq<u8>, b: Seq<u8>, n: int)
    requires
        forall|i: int| 0 <= i < n ==> bit_at(a, i) == bit_at(b, i),
    ensures
        valid_count(a, n) == valid_count(b, n),
    decreases n,
{
    if n > 0 {
        lemma_valid_count_congruent(a, b, n - 1);
    }
}

/// Well-formedness of an array's parts: the null count matches the
/// bitmap, and the buffers are large enough for the length. Only the null
/// type and the fixed-width primitive types have array form.
pub open spec fn array_parts_wf(ty: Ty, length: int, null_count: int, buffers: Seq<Buf>) -> bool {
    &&& 0 <= null_count <= length <= i32::MAX
    &&& if ty == Ty::NA {
        buffers.len() == 0 && null_count == length
    } else {
        &&& type_value_size(ty) >= 1
        &&& buffers.len() == 2
        &&& buffers[0].wf()
        &&& buffers[1].wf()
        &&& buffers[0].buf_size() >= (length + 7) / 8
        &&& buffers[1].buf_size() >= length * type_value_size(ty)
        &&& null_count == length - valid_count(buffers[0].buf_bytes(), length)
    }
}

/// A typed, fixed-length array of logical values over buffers.
///
/// For a fixed-width primitive type the buffers are the validity bitmap
/// and the value buffer, in that order; the degenerate null type has no
/// buffers.
#[derive(Debug)]
pub struct BaseArray {
    data_type: DataType,
    length: i32,
    null_count: i32,
    buffers: Vec<Buf>,
}

impl BaseArray {
    /// The logical type tag.
    pub closed spec fn ty_spec(&self) -> Ty {
        self.data_type.ty
    }

    /// The number of logical values.
    pub closed spec fn len_spec(&self) -> int {
        self.length as int
    }

    /// The number of null values.
    pub closed spec fn null_count_spec(&self) -> int {
        self.null_count as int
    }

    /// The buffers, in declaration order.
    pub closed spec fn buffers_spec(&self) -> Seq<Buf> {
        self.buffers@
    }

    /// The width in bytes of one value.
    pub open spec fn width(&self) -> int {
        type_value_size(self.ty_spec())
    }

    /// The bytes of the validity bitmap.
    pub open spec fn validity_bytes(&self) -> Seq<u8> {
        self.buffers_spec()[0].buf_bytes()
    }

    /// The bytes of the value buffer.
    pub open spec fn value_bytes(&self) -> Seq<u8> {
        self.buffers_spec()[1].buf_bytes()
    }

    /// Whether the value at `i` is present (not null).
    pub open spec fn valid_at(&self, i: int) -> bool {
        if self.ty_spec() == Ty::NA {
            false
        } else {
            bit_at(self.validity_bytes(), i)
        }
    }

    /// The bytes of the value at `i`.
    pub open spec fn cell(&self, i: int) -> Seq<u8> {
        self.value_bytes().subrange(i * self.width(), (i + 1) * self.width())
    }

    /// Well-formedness: the null count matches the bitmap, and the buffers
    /// are large enough for the length. Only the null type and the
    /// fixed-width primitive types have array form.
    #[verifier::type_invariant]
    pub open spec fn wf(&self) -> bool {
        array_parts_wf(
            self.ty_spec(),
            self.len_spec(),
            self.null_count_spec(),
            self.buffers_spec(),
        )
    }

    /// Assemble an array from its parts; the parts must already be
    /// consistent.
    pub fn from_raw(data_type: DataType, length: i32, null_count: i32, buffers: Vec<Buf>) -> (r:
        BaseArray)
        requires
            array_parts_wf(data_type.ty, length as int, null_count as int, buffers@),
        ensures
            r.ty_spec() == data_type.ty,
            r.len_spec() == length,
            r.null_count_spec() == null_count,
            r.buffers_spec() == buffers@,
    {
        BaseArray { data_type, length, null_count, buffers }
    }

    /// The number of logical values.
    pub fn len(&self) -> (r: i32)
        ensures
            r == self.len_spec(),
    {
        self.length
    }

    /// The number of nulls among them.
    pub fn null_count(&self) -> (r: i32)
        ensures
            r == self.null_count_spec(),
    {
        self.null_count
    }

    /// The logical type.
    pub fn data_type(&self) -> (r: DataType)
        ensures
            r.ty == self.ty_spec(),
    {
        self.data_type
    }

    /// The logical type tag.
    pub fn ty(&self) -> (r: Ty)
        ensures
            r == self.ty_spec(),
    {
        self.data_type.ty
    }

    /// The buffers, in declaration order.
    pub fn buffers(&self) -> (r: &Vec<Buf>)
        ensures
            r@ == self.buffers_spec(),
    {
        &self.buffers
    }

    /// The value buffer; arrays of the null type have none.
    pub fn data(&self) -> (r: &Buf)
        requires
            self.ty_spec() != Ty::NA,
        ensures
            *r == self.buffers_spec()[1],
    {
        proof {
            use_type_invariant(self);
        }
        &self.buffers[1]
    }

    /// Whether the value at `i` is null.
    pub fn is_null(&self, i: i32) -> (r: bool)
        requires
            0 <= i < self.len_spec(),
        ensures
            r == !self.valid_at(i as int),
    {
        proof {
            use_type_invariant(self);
        }
        match self.data_type.ty {
            Ty::NA => true,
            _ => {
                let byte: u8 = *vstd::slice::slice_index_get(
                    self.buffers[0].data().as_slice(),
                    (i / 8) as usize,
                );
                let k: u8 = (i % 8) as u8;
                (byte >> k) & 1 != 1
            },
        }
    }

    /// An all-null array of the given type and length. For a fixed-width
    /// type the validity bitmap is all zeroes and the value buffer is
    /// zero-filled; the null type gets no buffers.
    pub fn new_null_array(data_type: DataType, length: i32) -> (r: BaseArray)
        requires
            0 <= length,
            data_type.ty == Ty::NA || type_value_size(data_type.ty) >= 1,
            length * type_value_size(data_type.ty) <= usize::MAX,
        ensures
            r.ty_spec() == data_type.ty,
            r.len_spec() == length,
            r.null_count_spec() == length,
            forall|i: int| 0 <= i < length ==> !r.valid_at(i),
    {
        proof {
            lemma_zero_bits();
        }
        match data_type.ty {
            Ty::NA => {
                BaseArray { data_type, length, null_count: length, buffers: Vec::new() }
            },
            _ => {
                let width = data_type.value_size();
                proof {
                    assert(1 <= type_value_size(data_type.ty) <= 8);
                    assert((length as int) * (width as int) <= 8 * (i32::MAX as int))
                        by (nonlinear_arith)
                        requires
                            0 <= length <= i32::MAX,
                            1 <= width <= 8,
                    ;
                }
                let bitmap_len = ((length as i64) + 7) / 8;
                let values_len = (length as i64) * (width as i64);
                let bitmap = Buf::with_size(vec![0u8; bitmap_len as usize], bitmap_len);
                let values = Buf::with_size(vec![0u8; values_len as usize], values_len);
                proof {
                    use_type_invariant(&bitmap);
                    use_type_invariant(&values);
                    lemma_valid_count_zero(bitmap.buf_bytes(), length as int);
                }
                let buffers = vec![bitmap, values];
                BaseArray { data_type, length, null_count: length, buffers }
            },
        }
    }
}

/// No bit of a zero byte is set.
pub proof fn lemma_zero_bits()
    ensures
        forall|k: u8| k < 8 ==> !nth_bit(0u8, k),
{
    assert forall|k: u8| k < 8 implies !nth_bit(0u8, k) by {
        assert((0u8 >> k) & 1 == 0) by (bit_vector);
    }
}

/// A bitmap of zero bytes has no set bits in range.
proof fn lemma_valid_count_zero(bitmap: Seq<u8>, n: int)
    requires
        forall|i: int| 0 <= i < bitmap.len() ==> bitmap[i] == 0u8,
        8 * bitmap.len() >= n,
    ensures
        valid_count(bitmap, n) == 0,
        forall|i: int| 0 <= i < n ==> !bit_at(bitmap, i),
    decreases n,
{
    lemma_zero_bits();
    if n > 0 {
        lemma_valid_count_zero(bitmap, n - 1);
    }
}

/// Exact equality: same type, length and null count, and buffers equal
/// byte for byte over their logical sizes, padding included.
pub open spec fn array_equals_exact(a: &BaseArray, b: &BaseArray) -> bool {
    &&& a.ty_spec() == b.ty_spec()
    &&& a.len_spec() == b.len_spec()
    &&& a.null_count_spec() == b.null_count_spec()
    &&& a.buffers_spec().len() == b.buffers_spec().len()
    &&& forall|j: int| 0 <= j < a.buffers_spec().len() ==> #[trigger] a.buffers_spec()[j].buf_size()
        == b.buffers_spec()[j].buf_size()
    &&& forall|j: int| 0 <= j < a.buffers_spec().len() ==> #[trigger] a.buffers_spec()[j].buf_bytes().take(
        a.buffers_spec()[j].buf_size(),
    ) == b.buffers_spec()[j].buf_bytes().take(b.buffers_spec()[j].buf_size())
}

} // verus!

verus! {

/// Compare `n` bytes of `a` starting at `ao` against `n` bytes of `b`
/// starting at `bo`.
pub(crate) fn bytes_range_equal(a: &Vec<u8>, ao: usize, b: &Vec<u8>, bo: usize, n: usize) -> (r:
    bool)
    requires
        ao + n <= a@.len(),
        bo + n <= b@.len(),
    ensures
        r == (a@.subrange(ao as int, ao + n) == b@.subrange(bo as int, bo + n)),
{
    let a_total = a.len();
    let b_total = b.len();
    let mut i: usize = 0;
    while i < n
        invariant
            i <= n,
            ao + n <= a_total,
            bo + n <= b_total,
            a_total == a@.len(),
            b_total == b@.len(),
            forall|j: int| 0 <= j < i ==> #[trigger] a@[ao + j] == b@[bo + j],
        decreases n - i,
    {
        if a[ao + i] != b[bo + i] {
            proof {
                assert(a@.subrange(ao as int, ao + n)[i as int] != b@.subrange(
                    bo as int,
                    bo + n,
                )[i as int]);
            }
            return false;
        }
        i = i + 1;
    }
    proof {
        assert forall|t: int| 0 <= t < n implies #[trigger] a@.subrange(ao as int, ao + n)[t]
            == b@.subrange(bo as int, bo + n)[t] by {
            assert(a@[ao + t] == b@[bo + t]);
        }
        assert(a@.subrange(ao as int, ao + n) =~= b@.subrange(bo as int, bo + n));
    }
    true
}

/// Value-wise equality of `a`'s positions `[start, end)` against `b`'s
/// positions starting at `other_start`: nulls in the same places and equal
/// value bytes where present.
pub open spec fn array_range_equals(
    a: &BaseArray,
    b: &BaseArray,
    start: int,
    end: int,
    other_start: int,
) -> bool {
    forall|k: int| 0 <= k < end - start ==> #[trigger] a.valid_at(start + k) == b.valid_at(
        other_start + k,
    ) && (a.valid_at(start + k) ==> a.cell(start + k) == b.cell(other_start + k))
}

/// Logical equality: same type and length, nulls in the same places, and
/// equal value bytes wherever the value is present. Padding and the bytes
/// behind nulls do not matter.
pub open spec fn array_equals(a: &BaseArray, b: &BaseArray) -> bool {
    &&& a.ty_spec() == b.ty_spec()
    &&& a.len_spec() == b.len_spec()
    &&& array_range_equals(a, b, 0, a.len_spec(), 0)
}

impl BaseArray {
    /// Compare positions `[start, end)` of this array against positions
    /// `[other_start, other_start + (end - start))` of `other` value-wise.
    pub fn range_equals(&self, other: &BaseArray, start: i32, end: i32, other_start: i32) -> (r:
        bool)
        requires
            self.ty_spec() == other.ty_spec(),
            0 <= start <= end <= self.len_spec(),
            0 <= other_start,
            other_start + (end - start) <= other.len_spec(),
        ensures
            r == array_range_equals(self, other, start as int, end as int, other_start as int),
    {
        proof {
            use_type_invariant(self);
            use_type_invariant(other);
        }
        match self.data_type.ty {
            Ty::NA => true,
            _ => {
                let w = self.data_type.value_size() as usize;
                let a_values = self.buffers[1].data();
                let b_values = other.buffers[1].data();
                let a_len = a_values.len();
                let b_len = b_values.len();
                proof {
                    assert(1 <= type_value_size(self.ty_spec()) <= 8);
                    assert(self.len_spec() * self.width() <= a_len as int);
                    assert(other.len_spec() * other.width() <= b_len as int);
                }
                let mut k: i32 = 0;
                while k < end - start
                    invariant
                        0 <= k <= end - start,
                        self.ty_spec() == other.ty_spec(),
                        self.ty_spec() != Ty::NA,
                        self.wf(),
                        other.wf(),
                        0 <= start <= end <= self.len_spec(),
                        0 <= other_start,
                        other_start + (end - start) <= other.len_spec(),
                        w == self.width(),
                        a_values@ == self.value_bytes(),
                        b_values@ == other.value_bytes(),
                        a_len == a_values@.len(),
                        b_len == b_values@.len(),
                        self.len_spec() * self.width() <= a_len as int,
                        other.len_spec() * other.width() <= b_len as int,
                        forall|j: int| 0 <= j < k ==> #[trigger] self.valid_at(start + j)
                            == other.valid_at(other_start + j) && (self.valid_at(start + j)
                            ==> self.cell(start + j) == other.cell(other_start + j)),
                    decreases end - start - k,
                {
                    let a_valid = !self.is_null(start + k);
                    let b_valid = !other.is_null(other_start + k);
                    if a_valid != b_valid {
                        return false;
                    }
                    if a_valid {
                        proof {
                            assert((start + k + 1) * (w as int) <= self.len_spec() * (w as int)
                                && (start + k) * (w as int) >= 0
                                && (start + k) * (w as int) + (w as int) == (start + k + 1) * (
                            w as int)) by (nonlinear_arith)
                                requires
                                    0 <= start + k,
                                    start + k + 1 <= self.len_spec(),
                                    1 <= w,
                            ;
                            assert((other_start + k + 1) * (w as int) <= other.len_spec() * (
                            w as int) && (other_start + k) * (w as int) >= 0
                                && (other_start + k) * (w as int) + (w as int) == (other_start + k
                                + 1) * (w as int)) by (nonlinear_arith)
                                requires
                                    0 <= other_start + k,
                                    other_start + k + 1 <= other.len_spec(),
                                    1 <= w,
                            ;
                        }
                        let ao = ((start + k) as usize) * w;
                        let bo = ((other_start + k) as usize) * w;
                        if !bytes_range_equal(a_values, ao, b_values, bo, w) {
                            proof {
                                assert(self.cell(start + k as int) != other.cell(
                                    other_start + k as int,
                                ));
                            }
                            return false;
                        }
                    }
                    k = k + 1;
                }
                true
            },
        }
    }

    /// Logical equality against `other`: same type and length, nulls in
    /// the same places, equal value bytes where present.
    pub fn equals(&self, other: &BaseArray) -> (r: bool)
        ensures
            r == array_equals(self, other),
    {
        proof {
            use_type_invariant(self);
            use_type_invariant(other);
        }
        if self.data_type.ty != other.data_type.ty || self.length != other.length {
            return false;
        }
        self.range_equals(other, 0, self.length, 0)
    }

    /// Exact equality against `other`: same type, length and null count,
    /// and buffers equal byte for byte over their logical sizes.
    pub fn equals_exact(&self, other: &BaseArray) -> (r: bool)
        ensures
            r == array_equals_exact(self, other),
    {
        proof {
            use_type_invariant(self);
            use_type_invariant(other);
        }
        if self.data_type.ty != other.data_type.ty || self.length != other.length
            || self.null_count != other.null_count || self.buffers.len() != other.buffers.len() {
            return false;
        }
        let mut j: usize = 0;
        while j < self.buffers.len()
            invariant
                j <= self.buffers_spec().len(),
                self.wf(),
                other.wf(),
                self.buffers_spec().len() == other.buffers_spec().len(),
                forall|t: int| 0 <= t < j ==> #[trigger] self.buffers_spec()[t].buf_size()
                    == other.buffers_spec()[t].buf_size(),
                forall|t: int| 0 <= t < j ==> #[trigger] self.buffers_spec()[t].buf_bytes().take(
                    self.buffers_spec()[t].buf_size(),
                ) == other.buffers_spec()[t].buf_bytes().take(
                    other.buffers_spec()[t].buf_size(),
                ),
            decreases self.buffers_spec().len() - j,
        {
            let a_buf = &self.buffers[j];
            let b_buf = &other.buffers[j];
            proof {
                use_type_invariant(a_buf);
                use_type_invariant(b_buf);
            }
            let a_size = a_buf.size();
            let b_size = b_buf.size();
            if a_size != b_size {
                return false;
            }
            let a_bytes = a_buf.data();
            let b_bytes = b_buf.data();
            let a_cap = a_bytes.len();
            let b_cap = b_bytes.len();
            proof {
                assert(a_size as int <= a_cap as int);
                assert(b_size as int <= b_cap as int);
            }
            let equal = bytes_range_equal(a_bytes, 0, b_bytes, 0, a_size as usize);
            proof {
                assert(a_buf.buf_bytes().subrange(0, a_buf.buf_size()) =~= a_buf.buf_bytes().take(
                    a_buf.buf_size(),
                ));
                assert(b_buf.buf_bytes().subrange(0, b_buf.buf_size()) =~= b_buf.buf_bytes().take(
                    b_buf.buf_size(),
                ));
            }
            if !equal {
                return false;
            }
            j = j + 1;
        }
        true
    }
}

impl PartialEq for BaseArray {
    /// Arrays compare by exact equality.
    fn eq(&self, other: &BaseArray) -> (r: bool)
    {
        self.equals_exact(other)
    }
}

impl vstd::std_specs::cmp::PartialEqSpecImpl for BaseArray {
    open spec fn obeys_eq_spec() -> bool {
        true
    }

    open spec fn eq_spec(&self, other: &BaseArray) -> bool {
        array_equals_exact(self, other)
    }
}

impl Clone for BaseArray {
    /// The copy shares nothing with the original and compares exactly
    /// equal to it.
    fn clone(&self) -> (r: Self)
        ensures
            array_equals_exact(&r, self),
            r.ty_spec() == self.ty_spec(),
            r.len_spec() == self.len_spec(),
            r.null_count_spec() == self.null_count_spec(),
            r.buffers_spec().len() == self.buffers_spec().len(),
            forall|j: int| 0 <= j < self.buffers_spec().len()
                ==> (#[trigger] r.buffers_spec()[j]).buf_bytes()
                == self.buffers_spec()[j].buf_bytes() && r.buffers_spec()[j].buf_size()
                == self.buffers_spec()[j].buf_size(),
    {
        proof {
            use_type_invariant(self);
        }
        let mut buffers: Vec<Buf> = Vec::new();
        let mut j: usize = 0;
        while j < self.buffers.len()
            invariant
                j <= self.buffers_spec().len(),
                buffers@.len() == j,
                self.wf(),
                forall|t: int| 0 <= t < j ==> (#[trigger] buffers@[t]).buf_bytes()
                    == self.buffers_spec()[t].buf_bytes() && buffers@[t].buf_size()
                    == self.buffers_spec()[t].buf_size(),
            decreases self.buffers_spec().len() - j,
        {
            buffers.push(self.buffers[j].clone());
            j = j + 1;
        }
        let r = BaseArray {
            data_type: self.data_type,
            length: self.length,
            null_count: self.null_count,
            buffers,
        };
        proof {
            if r.ty_spec() != Ty::NA {
                assert(r.validity_bytes() == self.validity_bytes());
            }
        }
        r
    }
}

/// Exact equality is reflexive.
pub proof fn lemma_equals_exact_reflexive(a: &BaseArray)
    ensures
        array_equals_exact(a, a),
{
}

/// Logical equality is reflexive.
pub proof fn lemma_equals_reflexive(a: &BaseArray)
    ensures
        array_equals(a, a),
{
}

/// Exact equality implies logical equality: equal buffers leave no room
/// for differing validity bits or value bytes. The converse does not hold:
/// two arrays may differ only in padding or in bytes behind nulls.
pub proof fn lemma_equals_exact_implies_equals(a: &BaseArray, b: &BaseArray)
    requires
        a.wf(),
        b.wf(),
        array_equals_exact(a, b),
    ensures
        array_equals(a, b),
{
    let n = a.len_spec();
    let w = a.width();
    assert forall|k: int| 0 <= k < n - 0 implies #[trigger] a.valid_at(0 + k) == b.valid_at(0 + k)
        && (a.valid_at(0 + k) ==> a.cell(0 + k) == b.cell(0 + k)) by {
        let i = k;
        if a.ty_spec() != Ty::NA {
            let av = a.buffers_spec()[0];
            let bv = b.buffers_spec()[0];
            assert(av.buf_bytes().take(av.buf_size())[i / 8] == bv.buf_bytes().take(
                bv.buf_size(),
            )[i / 8]);
            assert(a.valid_at(i) == b.valid_at(i));
            if a.valid_at(i) {
                let a2 = a.buffers_spec()[1];
                let b2 = b.buffers_spec()[1];
                assert((i + 1) * w <= n * w && 0 <= i * w && i * w <= (i + 1) * w)
                    by (nonlinear_arith)
                    requires
                        0 <= i,
                        i + 1 <= n,
                        1 <= w,
                ;
                assert forall|t: int| i * w <= t < (i + 1) * w implies a2.buf_bytes()[t]
                    == b2.buf_bytes()[t] by {
                    assert(a2.buf_bytes().take(a2.buf_size())[t] == b2.buf_bytes().take(
                        b2.buf_size(),
                    )[t]);
                }
                assert(a.cell(i) =~= b.cell(i));
            }
        }
    }
}

} // verus!

verus! {

/// Count the set bits among the first `n` of the bitmap.
pub fn count_valid_bits(bytes: &Vec<u8>, n: i32) -> (r: i32)
    requires
        0 <= n,
        (n + 7) / 8 <= bytes@.len(),
    ensures
        r == valid_count(bytes@, n as int),
        0 <= r <= n,
{
    proof {
        lemma_valid_count_bounds(bytes@, n as int);
    }
    let total = bytes.len();
    let mut count: i32 = 0;
    let mut i: i32 = 0;
    while i < n
        invariant
            0 <= i <= n,
            (n + 7) / 8 <= total,
            total == bytes@.len(),
            0 <= count <= i,
            count == valid_count(bytes@, i as int),
        decreases n - i,
    {
        proof {
            lemma_valid_count_bounds(bytes@, i as int);
        }
        let byte: u8 = bytes[(i / 8) as usize];
        let k: u8 = (i % 8) as u8;
        if (byte >> k) & 1 == 1 {
            count = count + 1;
        }
        i = i + 1;
    }
    count
}

} // verus!
