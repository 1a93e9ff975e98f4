//! The remaining public surface: layout descriptors, buffer views,
//! chunked columns, and batch accessors.

use arrow::array::BaseArray;
use arrow::buffer::{Buf, Buffer, BufferBuilder, Mutable, MutableBuf, Resizable};
use arrow::column::{ChunkedArray, Column};
use arrow::memory_pool::MemoryPool;
use arrow::primitive::{I64ArrayBuilder, U16Array, U16ArrayBuilder, PrimitiveArray};
use arrow::table::RowBatch;
use arrow::ty::{
    BufferType, DataTypeProvider, Field, FixedWidth, FloatTyped, IntegerTyped, Precision, Schema,
    Ty,
};

#[test]
fn buffer_layouts_follow_the_type() {
    let tp = DataTypeProvider::new();
    let layout = tp.i32().get_buffer_layout();
    assert_eq!(2, layout.len());
    assert_eq!(BufferType::VALIDITY, layout[0].ty);
    assert_eq!(1, layout[0].bit_width);
    assert_eq!(BufferType::DATA, layout[1].ty);
    assert_eq!(32, layout[1].bit_width);

    let layout = tp.string().get_buffer_layout();
    assert_eq!(3, layout.len());
    assert_eq!(BufferType::OFFSET, layout[1].ty);

    assert_eq!(0, tp.null().get_buffer_layout().len());

    assert_eq!(64, tp.u64().get_bit_width());
    assert!(tp.i16().is_signed());
    assert!(!tp.u16().is_signed());
    assert_eq!(Precision::SINGLE, tp.float().precision());
    assert_eq!(Precision::DOUBLE, tp.double().precision());
}

#[test]
fn buffers_wrap_and_view_bytes() {
    let buf = Buf::from_raw(vec![1u8, 2, 3, 4]);
    assert_eq!(4, buf.size());
    assert_eq!(4, buf.capacity());
    assert_eq!(vec![1u8, 2, 3, 4], *buf.data());

    let buf = Buf::with_size(vec![9u8, 8, 7, 6], 2);
    assert_eq!(2, buf.size());
    assert_eq!(4, buf.capacity());

    let pool = MemoryPool::default();
    let mut mbuf = MutableBuf::from_raw(vec![5u8; 10], &pool);
    assert_eq!(10, mbuf.size());
    mbuf.reserve(100).unwrap();
    assert_eq!(10, mbuf.size());
    assert_eq!(128, mbuf.capacity());
    let view = mbuf.as_immut();
    assert_eq!(10, view.size());
    assert_eq!(128, view.capacity());

    mbuf.write_at(0, &vec![1u8, 2, 3]).unwrap();
    let e = mbuf.write_at(126, &vec![1u8, 2, 3]).unwrap_err();
    assert_eq!(arrow::status::StatusCode::Invalid, e.code());

    let frozen = mbuf.into_immut();
    assert_eq!(10, frozen.size());
    assert_eq!(vec![1u8, 2, 3], frozen.data()[0..3].to_vec());
}

#[test]
fn builder_finish_leaves_it_empty() {
    let pool = MemoryPool::default();
    let mut builder = BufferBuilder::new(&pool);
    builder.raw_append(&vec![1u8, 2, 3]).unwrap();
    let buf = builder.finish();
    assert_eq!(3, buf.size());
    assert_eq!(0, builder.len());
    assert_eq!(0, builder.capacity());
    builder.raw_append(&vec![4u8]).unwrap();
    assert_eq!(1, builder.len());
}

#[test]
fn chunked_columns_sum_their_chunks() {
    let pool = MemoryPool::default();
    let tp = DataTypeProvider::new();

    let mut b1 = U16ArrayBuilder::new(&pool, tp.u16());
    b1.append(&vec![1u16, 2, 3], Some(&vec![1, 0, 1])).unwrap();
    let mut b2 = U16ArrayBuilder::new(&pool, tp.u16());
    b2.append(&vec![4u16, 5], None).unwrap();
    let chunks = vec![b1.finish_as_base(), b2.finish_as_base()];

    let chunked = ChunkedArray::new(&chunks);
    assert_eq!(2, chunked.num_chunks());
    assert_eq!(3, chunked.chunk(0).len());

    let field = Field::new(String::from("c"), tp.u16(), true);
    let col = Column::from_chunked_array(field, chunked);
    assert_eq!(5, col.len());
    assert_eq!(1, col.null_count());
    assert_eq!(2, col.data().num_chunks());
    assert!(col.validate_data().is_ok());
    assert_eq!(String::from("c"), *col.field().get_name());

    let copy = col.clone();
    assert_eq!(5, copy.len());
    assert_eq!(1, copy.null_count());
}

#[test]
fn typed_views_decode_what_builders_store() {
    let pool = MemoryPool::default();
    let tp = DataTypeProvider::new();
    let mut builder = I64ArrayBuilder::new(&pool, tp.i64());
    builder.append(&vec![i64::MIN, -1, 0, i64::MAX], None).unwrap();
    let array = builder.finish();
    assert_eq!(i64::MIN, array.value(0));
    assert_eq!(-1, array.value(1));
    assert_eq!(i64::MAX, array.value(3));
    assert_eq!(vec![i64::MIN, -1, 0, i64::MAX], array.values());

    let base: BaseArray = array.into_base();
    assert_eq!(Ty::INT64, base.ty());
    let mut builder = U16ArrayBuilder::new(&pool, tp.u16());
    builder.append(&vec![0xABCDu16], None).unwrap();
    let array: U16Array = builder.finish();
    assert_eq!(0xABCDu16, array.value(0));
}

#[test]
fn batch_accessors_expose_schema_and_columns() {
    let pool = MemoryPool::default();
    let tp = DataTypeProvider::new();
    let f1 = Field::new(String::from("first"), tp.u16(), false);
    let f2 = Field::new(String::from("second"), tp.u16(), false);
    let schema = Schema::from_raw(vec![f1, f2]);
    assert_eq!(2, schema.num_fields());
    assert_eq!(String::from("second"), *schema.field(1).get_name());
    assert_eq!(2, schema.raw_schema().len());

    let mut b1 = U16ArrayBuilder::new(&pool, tp.u16());
    b1.append(&vec![10u16, 20], None).unwrap();
    let mut b2 = U16ArrayBuilder::new(&pool, tp.u16());
    b2.append(&vec![30u16, 40], None).unwrap();
    let arrays = vec![b1.finish_as_base(), b2.finish_as_base()];

    let batch = RowBatch::new(&schema, 2, &arrays).unwrap();
    assert_eq!(String::from("first"), batch.column_name(0));
    assert_eq!(2, batch.raw_batch().len());

    let handed_over = RowBatch::from_raw(schema, 2, arrays);
    assert_eq!(2, handed_over.row_num());
    assert_eq!(2, handed_over.column_num());
    assert!(handed_over.size().unwrap() > 0);
}
