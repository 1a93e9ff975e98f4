//! Memory pool accounting, buffer growth, and primitive array building.

use arrow::array::BaseArray;
use arrow::buffer::{Buffer, BufferBuilder, Resizable};
use arrow::memory_pool::MemoryPool;
use arrow::primitive::{I32Array, I32ArrayBuilder, PrimitiveArray, U8ArrayBuilder};
use arrow::status::StatusCode;
use arrow::ty::{DataType, DataTypeProvider, Ty};

#[test]
fn test_mem_pool() {
    let mut pool = MemoryPool::default();
    let init_len = pool.len();

    let buf = match pool.allocate(64) {
        Ok(buf) => buf,
        Err(e) => panic!("allocation failed: {}", e.message()),
    };
    assert_eq!(init_len + 64, pool.len());

    pool.free(buf, 64);
    assert_eq!(init_len, pool.len());
}

#[test]
fn test_raw_buffer() {
    let pool = MemoryPool::default();
    let mut buf_builder = BufferBuilder::new(&pool);

    buf_builder.raw_append(&vec![10u8]).unwrap();
    buf_builder.resize(100).unwrap();

    assert_eq!(1, buf_builder.len());
    assert_eq!(128, buf_builder.capacity());

    let mut buf = buf_builder.finish();
    assert_eq!(100, buf.size());

    buf.resize(50).unwrap();
    assert_eq!(50, buf.size());
    assert_eq!(128, buf.capacity());
}

#[test]
fn test_buffer() {
    let pool = MemoryPool::default();
    let mut builder = BufferBuilder::new(&pool);

    let len = match builder.raw_append(&vec![10u8; 5]) {
        Ok(len) => len,
        Err(e) => panic!("append failed: {}", e.message()),
    };
    assert_eq!(5, len);

    builder.resize(200).unwrap();
    assert_eq!(5, len);
    assert_eq!(256, builder.capacity());

    let mut buf = builder.finish();
    assert_eq!(200, buf.size());
    assert_eq!(256, buf.capacity());

    match buf.resize(50) {
        Ok(()) => {}
        Err(e) => panic!("resize failed: {}", e.message()),
    }
    assert_eq!(50, buf.size());
    assert_eq!(256, buf.capacity());
}

#[test]
fn resize_to_same_size_changes_nothing() {
    // capacity growth is monotonic and a repeated resize to the same or a
    // smaller size is a no-op
    let pool = MemoryPool::default();
    let mut builder = BufferBuilder::new(&pool);
    builder.raw_append(&vec![1u8]).unwrap();

    let capa1 = builder.resize(100).unwrap();
    let len1 = builder.len();
    let capa2 = builder.resize(100).unwrap();
    assert_eq!(capa1, capa2);
    assert_eq!(len1, builder.len());
    assert_eq!(128, builder.capacity());

    let capa3 = builder.resize(60).unwrap();
    assert_eq!(128, capa3);
    let capa4 = builder.resize(300).unwrap();
    assert_eq!(512, capa4);
    assert!(capa4 >= capa3);
}

#[test]
fn builder_fails_with_out_of_memory_when_pool_is_exhausted() {
    let pool = MemoryPool::with_limit(16);
    let mut builder = BufferBuilder::new(&pool);
    let e = builder.raw_append(&vec![0u8; 64]).unwrap_err();
    assert_eq!(StatusCode::OutOfMemory, e.code());
    // the builder keeps its pre-call state
    assert_eq!(0, builder.len());
    assert_eq!(0, builder.capacity());
}

#[test]
fn test_raw_array() {
    let pool = MemoryPool::default();
    let ty_provider = DataTypeProvider::new();
    let mut builder = U8ArrayBuilder::new(&pool, ty_provider.u8());
    let values: Vec<u8> = (0..32).collect();

    builder.append(&values, None).unwrap();
    let arr = builder.finish();

    assert_eq!(DataType::new_primitive(Ty::UINT8), arr.data_type());
    assert_eq!(32, arr.len());

    for i in 0..32 {
        assert_eq!(i as u8, arr.value(i));
    }
}

#[test]
fn test_array() {
    let ty_provider = DataTypeProvider::new();
    let pool = MemoryPool::default();

    let mut builder = U8ArrayBuilder::new(&pool, ty_provider.u8());
    let values: Vec<u8> = (0..32).collect();

    match builder.append(&values, None) {
        Ok(()) => {}
        Err(e) => panic!("append failed: {}", e.message()),
    }
    let array = builder.finish();
    assert_eq!(ty_provider.u8(), array.data_type());
    assert_eq!(32, array.len());

    for i in 0..32 {
        assert_eq!(i as u8, array.value(i));
    }
}

#[test]
fn built_array_reads_back_values_and_mask() {
    // building an array then reading back every index reproduces the
    // original value at every valid index, and is_null matches the mask
    let pool = MemoryPool::default();
    let tp = DataTypeProvider::new();
    let mut builder = I32ArrayBuilder::new(&pool, tp.i32());
    let values: Vec<i32> = vec![5, -7, 42, 0, i32::MIN, i32::MAX];
    let mask: Vec<u8> = vec![1, 0, 1, 1, 1, 1];
    builder.append(&values, Some(&mask)).unwrap();
    let array: I32Array = builder.finish();

    assert_eq!(6, array.len());
    assert_eq!(1, array.null_count());
    for i in 0..6 {
        assert_eq!(mask[i as usize] == 0, array.is_null(i));
        if mask[i as usize] != 0 {
            assert_eq!(values[i as usize], array.value(i));
        }
    }
}

#[test]
fn equality_is_reflexive_and_exact_implies_logical() {
    let pool = MemoryPool::default();
    let tp = DataTypeProvider::new();

    let mut b1 = I32ArrayBuilder::new(&pool, tp.i32());
    b1.append(&vec![1, 99, 3], Some(&vec![1, 0, 1])).unwrap();
    let a1 = b1.finish_as_base();

    // reflexivity at both levels
    assert!(a1.equals(&a1));
    assert!(a1.equals_exact(&a1));

    // same logical values, different bytes behind the null
    let mut b2 = I32ArrayBuilder::new(&pool, tp.i32());
    b2.append(&vec![1, 77, 3], Some(&vec![1, 0, 1])).unwrap();
    let a2 = b2.finish_as_base();

    assert!(a1.equals(&a2));
    assert!(!a1.equals_exact(&a2));

    // a bitwise copy is equal at both levels
    let a3 = a1.clone();
    assert!(a1.equals_exact(&a3));
    assert!(a1.equals(&a3));
    assert_eq!(a1, a3);
}

#[test]
fn range_equals_compares_value_ranges() {
    let pool = MemoryPool::default();
    let tp = DataTypeProvider::new();

    let mut b1 = I32ArrayBuilder::new(&pool, tp.i32());
    b1.append(&vec![9, 1, 2, 3], None).unwrap();
    let a1 = b1.finish_as_base();

    let mut b2 = I32ArrayBuilder::new(&pool, tp.i32());
    b2.append(&vec![1, 2, 3, 9], None).unwrap();
    let a2 = b2.finish_as_base();

    assert!(a1.range_equals(&a2, 1, 4, 0));
    assert!(!a1.range_equals(&a2, 0, 3, 0));
}

#[test]
fn all_null_array_has_no_values() {
    let arr = BaseArray::new_null_array(DataType::new_primitive(Ty::INT32), 5);
    assert_eq!(5, arr.len());
    assert_eq!(5, arr.null_count());
    for i in 0..5 {
        assert!(arr.is_null(i));
    }
    let na = BaseArray::new_null_array(DataType::new_primitive(Ty::NA), 3);
    assert_eq!(3, na.len());
    assert_eq!(3, na.null_count());
    assert!(na.is_null(0));
}
