//! Writing a row batch into a region and reading it back.

use arrow::adapter::{RowBatchReader, get_row_batch_size, write_row_batch};
use arrow::buffer::Buffer;
use arrow::memory::{AccessMode, MemoryMappedSource};
use arrow::memory_pool::MemoryPool;
use arrow::primitive::{F32Array, F32ArrayBuilder, I32Array, I32ArrayBuilder, PrimitiveArray,
    TypedArray};
use arrow::status::StatusCode;
use arrow::table::RowBatch;
use arrow::ty::{DataTypeProvider, Field, Schema};

fn round_trip_ints(n: i32) {
    let pool = MemoryPool::default();
    let tp = DataTypeProvider::new();
    let field = Field::new(String::from("v"), tp.i32(), true);
    let schema = Schema::new(&vec![field]);

    let values: Vec<i32> = (0..n).collect();
    let mask: Vec<u8> = (0..n).map(|i| if i % 7 == 0 { 0u8 } else { 1u8 }).collect();
    let mut builder = I32ArrayBuilder::new(&pool, tp.i32());
    builder.append(&values, Some(&mask)).unwrap();
    let arrays = vec![builder.finish_as_base()];
    let batch = RowBatch::new(&schema, n, &arrays).unwrap();

    // write at offset 0 into a freshly sized region, close it, and
    // reopen the same bytes read-only
    let size = batch.size().unwrap();
    let mut src = MemoryMappedSource::with_size(size, AccessMode::READWRITE).unwrap();
    let header = write_row_batch(&mut src, &batch, 0).unwrap();
    src.close().unwrap();

    let src = MemoryMappedSource::from_vec(src.into_vec(), AccessMode::READ);
    let reader = RowBatchReader::open(&src, header).unwrap();
    let back = reader.read(&src, &schema).unwrap();

    assert_eq!(n, back.row_num());
    assert_eq!(1, back.column_num());
    // logically equal, though not necessarily bit for bit
    assert!(arrays[0].equals(back.column(0)));
}

#[test]
fn round_trip_zero_rows() {
    round_trip_ints(0);
}

#[test]
fn round_trip_one_row() {
    round_trip_ints(1);
}

#[test]
fn round_trip_million_rows() {
    round_trip_ints(1_000_000);
}

#[test]
fn round_trip_at_nonzero_offset() {
    let pool = MemoryPool::default();
    let tp = DataTypeProvider::new();
    let field = Field::new(String::from("v"), tp.i32(), false);
    let schema = Schema::new(&vec![field]);

    let mut builder = I32ArrayBuilder::new(&pool, tp.i32());
    builder.append(&vec![11, 22, 33], None).unwrap();
    let arrays = vec![builder.finish_as_base()];
    let batch = RowBatch::new(&schema, 3, &arrays).unwrap();

    let offset: i64 = 160;
    let size = get_row_batch_size(&batch, offset).unwrap();
    let mut src = MemoryMappedSource::with_size(size, AccessMode::READWRITE).unwrap();
    let header = write_row_batch(&mut src, &batch, offset).unwrap();
    assert!(header >= offset);
    src.close().unwrap();

    let src = MemoryMappedSource::from_vec(src.into_vec(), AccessMode::READ);
    let reader = RowBatchReader::open(&src, header).unwrap();
    let back = reader.read(&src, &schema).unwrap();
    assert!(arrays[0].equals(back.column(0)));
    assert!(arrays[0].equals_exact(back.column(0)));
}

#[test]
fn hundred_rows_of_int32_and_float() {
    // one non-nullable int32 field and one nullable float field, 100 rows
    // of 0..100 with no nulls, written to a freshly sized region, closed,
    // reopened read-only, and read back with the same schema
    let pool = MemoryPool::default();
    let tp = DataTypeProvider::new();
    let f1 = Field::new(String::from("key"), tp.i32(), false);
    let f2 = Field::new(String::from("payload"), tp.float(), true);
    let schema = Schema::new(&vec![f1, f2]);

    let keys: Vec<i32> = (0..100).collect();
    let payloads: Vec<u32> = (0..100).map(|i| (i as f32).to_bits()).collect();
    let mut b1 = I32ArrayBuilder::new(&pool, tp.i32());
    let mut b2 = F32ArrayBuilder::new(&pool, tp.float());
    b1.append(&keys, None).unwrap();
    b2.append(&payloads, None).unwrap();
    let arrays = vec![b1.finish_as_base(), b2.finish_as_base()];
    let batch = RowBatch::new(&schema, 100, &arrays).unwrap();

    let size = batch.size().unwrap();
    let mut src = MemoryMappedSource::with_size(size, AccessMode::READWRITE).unwrap();
    let header = write_row_batch(&mut src, &batch, 0).unwrap();
    src.close().unwrap();

    let src = MemoryMappedSource::from_vec(src.into_vec(), AccessMode::READ);
    let reader = RowBatchReader::open(&src, header).unwrap();
    let back = reader.read(&src, &schema).unwrap();

    assert_eq!(100, back.row_num());
    assert_eq!(2, back.column_num());
    let key_col: I32Array = TypedArray::from_base(back.column(0).clone());
    assert_eq!(50, key_col.value(50));
    let payload_col: F32Array = TypedArray::from_base(back.column(1).clone());
    assert_eq!(50.0f32, f32::from_bits(payload_col.value(50)));
}

#[test]
fn opening_outside_the_region_fails_cleanly() {
    let src = MemoryMappedSource::with_size(100, AccessMode::READ).unwrap();

    // an offset past the region's size is an error, never a crash
    let e = match RowBatchReader::open(&src, 200) {
        Ok(_) => panic!("opening must fail"),
        Err(e) => e,
    };
    assert!(e.code() == StatusCode::IOError || e.code() == StatusCode::Invalid);

    let e = match RowBatchReader::open(&src, -1) {
        Ok(_) => panic!("opening must fail"),
        Err(e) => e,
    };
    assert!(e.code() == StatusCode::IOError || e.code() == StatusCode::Invalid);

    // an offset whose header would run past the end fails the same way
    let e = match RowBatchReader::open(&src, 95) {
        Ok(_) => panic!("opening must fail"),
        Err(e) => e,
    };
    assert!(e.code() == StatusCode::IOError || e.code() == StatusCode::Invalid);

    // garbage bytes inside the region do not parse as a header
    let e = match RowBatchReader::open(&src, 0) {
        Ok(_) => panic!("opening must fail"),
        Err(e) => e,
    };
    assert!(e.code() == StatusCode::IOError || e.code() == StatusCode::Invalid);
}

#[test]
fn region_enforces_modes_and_bounds() {
    let mut src = MemoryMappedSource::with_size(32, AccessMode::READWRITE).unwrap();
    src.write(0, &vec![7u8; 32]).unwrap();

    let e = src.write(16, &vec![0u8; 32]).unwrap_err();
    assert_eq!(StatusCode::IOError, e.code());

    let e = src.read(16, 32).unwrap_err();
    assert_eq!(StatusCode::IOError, e.code());

    let read_only = MemoryMappedSource::from_vec(vec![1u8, 2, 3], AccessMode::READ);
    let buf = read_only.read(1, 2).unwrap();
    assert_eq!(2, buf.size());
    assert_eq!(vec![2u8, 3], *buf.data());

    let mut read_only = read_only;
    let e = read_only.write(0, &vec![9u8]).unwrap_err();
    assert_eq!(StatusCode::IOError, e.code());

    read_only.close().unwrap();
    let e = read_only.read(0, 1).unwrap_err();
    assert_eq!(StatusCode::IOError, e.code());
}

#[test]
fn writer_rejects_a_region_that_is_too_small() {
    let pool = MemoryPool::default();
    let tp = DataTypeProvider::new();
    let field = Field::new(String::from("v"), tp.i32(), false);
    let schema = Schema::new(&vec![field]);
    let mut builder = I32ArrayBuilder::new(&pool, tp.i32());
    builder.append(&vec![1, 2, 3, 4], None).unwrap();
    let arrays = vec![builder.finish_as_base()];
    let batch = RowBatch::new(&schema, 4, &arrays).unwrap();

    let mut small = MemoryMappedSource::with_size(32, AccessMode::READWRITE).unwrap();
    let e = write_row_batch(&mut small, &batch, 0).unwrap_err();
    assert_eq!(StatusCode::IOError, e.code());

    let mut read_only = MemoryMappedSource::with_size(4096, AccessMode::READ).unwrap();
    let e = write_row_batch(&mut read_only, &batch, 0).unwrap_err();
    assert_eq!(StatusCode::IOError, e.code());
}

#[test]
fn alignment_padding_is_zeroed_and_the_rest_untouched() {
    // write into a dirty region: the alignment gaps come out zero, and
    // bytes outside the written span keep their old contents
    let pool = MemoryPool::default();
    let tp = DataTypeProvider::new();
    let field = Field::new(String::from("v"), tp.i32(), false);
    let schema = Schema::new(&vec![field]);

    let mut builder = I32ArrayBuilder::new(&pool, tp.i32());
    builder.append(&vec![1, 2, 3], None).unwrap();
    let arrays = vec![builder.finish_as_base()];
    let batch = RowBatch::new(&schema, 3, &arrays).unwrap();
    let total = batch.size().unwrap();

    let mut src = MemoryMappedSource::from_vec(vec![0xFFu8; (total + 12) as usize],
        AccessMode::READWRITE);
    let header = write_row_batch(&mut src, &batch, 0).unwrap();

    // the 1-byte bitmap body sits at 0; the gap up to the value body at
    // 64 is zero padding
    let gap = src.read(1, 63).unwrap();
    assert!(gap.data().iter().all(|b| *b == 0));
    // the gap between the 12-byte value body and the header is zero too
    let gap = src.read(64 + 12, header - 64 - 12).unwrap();
    assert!(gap.data().iter().all(|b| *b == 0));
    // past the header, the region is untouched
    let tail = src.read(total, 12).unwrap();
    assert!(tail.data().iter().all(|b| *b == 0xFF));
}

#[test]
fn typed_downcast_checks_the_tag() {
    let pool = MemoryPool::default();
    let tp = DataTypeProvider::new();
    let mut builder = I32ArrayBuilder::new(&pool, tp.i32());
    builder.append(&vec![1, 2], None).unwrap();
    let base = builder.finish_as_base();

    // the right width succeeds and reads the values back
    let typed: I32Array = TypedArray::try_from_base(base.clone()).unwrap();
    assert_eq!(2, typed.value(1));

    // a mismatched width is rejected as Invalid, not reinterpreted
    let wrong: Result<arrow::primitive::U16Array, _> = TypedArray::try_from_base(base);
    let e = match wrong {
        Ok(_) => panic!("the downcast must fail"),
        Err(e) => e,
    };
    assert_eq!(StatusCode::Invalid, e.code());

    let null_arr = arrow::array::BaseArray::new_null_array(
        arrow::ty::DataType::new_primitive(arrow::ty::Ty::NA),
        2,
    );
    let wrong: Result<I32Array, _> = TypedArray::try_from_base(null_arr);
    let e = match wrong {
        Ok(_) => panic!("the downcast must fail"),
        Err(e) => e,
    };
    assert_eq!(StatusCode::Invalid, e.code());
}

#[test]
fn schema_mismatch_on_read_is_invalid() {
    let pool = MemoryPool::default();
    let tp = DataTypeProvider::new();
    let field = Field::new(String::from("v"), tp.i32(), false);
    let schema = Schema::new(&vec![field]);

    let mut builder = I32ArrayBuilder::new(&pool, tp.i32());
    builder.append(&vec![7, 8], None).unwrap();
    let arrays = vec![builder.finish_as_base()];
    let batch = RowBatch::new(&schema, 2, &arrays).unwrap();

    let size = batch.size().unwrap();
    let mut src = MemoryMappedSource::with_size(size, AccessMode::READWRITE).unwrap();
    let header = write_row_batch(&mut src, &batch, 0).unwrap();
    src.close().unwrap();
    let src = MemoryMappedSource::from_vec(src.into_vec(), AccessMode::READ);
    let reader = RowBatchReader::open(&src, header).unwrap();

    // a wrong field type is a structural mismatch: Invalid, exactly
    let wrong_type = Schema::new(&vec![Field::new(String::from("v"), tp.u64(), false)]);
    let e = reader.read(&src, &wrong_type).unwrap_err();
    assert_eq!(StatusCode::Invalid, e.code());

    // so is a wrong field count
    let wrong_count = Schema::new(&vec![
        Field::new(String::from("v"), tp.i32(), false),
        Field::new(String::from("w"), tp.i32(), false),
    ]);
    let e = reader.read(&src, &wrong_count).unwrap_err();
    assert_eq!(StatusCode::Invalid, e.code());

    // the matching schema still reads
    assert!(reader.read(&src, &schema).is_ok());
}
