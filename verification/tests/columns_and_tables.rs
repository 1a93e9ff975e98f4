//! Columns, row batches and tables over typed arrays.

use arrow::column::Column;
use arrow::memory_pool::MemoryPool;
use arrow::primitive::{F32ArrayBuilder, I32ArrayBuilder};
use arrow::status::StatusCode;
use arrow::table::{RowBatch, Table};
use arrow::ty::{DataTypeProvider, Field, Schema};

#[test]
fn test_column() {
    let type_provider = DataTypeProvider::new();
    let pool = MemoryPool::default();
    let f1 = Field::new(String::from("f1"), type_provider.float(), false);
    let values: Vec<f32> = (0..32).map(|i| i as f32).collect();
    let bits: Vec<u32> = values.iter().map(|v| v.to_bits()).collect();
    let mut builder = F32ArrayBuilder::new(&pool, type_provider.float());

    builder.append(&bits, None).unwrap();
    let array = builder.finish();
    assert_eq!(32, array.len());

    let col = Column::from_array(&f1, array.as_base());
    assert_eq!(32, col.len());
    assert_eq!(0, col.null_count());
    assert_eq!(type_provider.float(), col.data_type());
    match col.validate_data() {
        Ok(arrays) => arrays,
        Err(e) => panic!("column data validation failed: {}", e.message()),
    };
}

#[test]
fn test_row_batch() {
    let type_provider = DataTypeProvider::new();
    let pool = MemoryPool::default();
    let f1 = Field::new(String::from("f1"), type_provider.i32(), false);
    let f2 = Field::new(String::from("f2"), type_provider.float(), true);
    let schema = Schema::new(&vec![f1, f2]);
    let values1: Vec<i32> = (0..100).map(|i| i as i32).collect();
    let values2: Vec<u32> = (0..100).map(|i| (i as f32).to_bits()).collect();

    let mut builder1 = I32ArrayBuilder::new(&pool, type_provider.i32());
    let mut builder2 = F32ArrayBuilder::new(&pool, type_provider.float());
    builder1.append(&values1, None).unwrap();
    builder2.append(&values2, None).unwrap();

    let arrays = vec![builder1.finish_as_base(), builder2.finish_as_base()];
    let row_batch = RowBatch::new(&schema, 100, &arrays).unwrap();

    assert_eq!(schema, *row_batch.schema());
    assert_eq!(&arrays[0], row_batch.column(0));
    assert_eq!(&arrays[1], row_batch.column(1));
    assert_eq!(100, row_batch.row_num());
    assert_eq!(2, row_batch.column_num());
}

#[test]
fn test_table() {
    let type_provider = DataTypeProvider::new();
    let pool = MemoryPool::default();
    let f1 = Field::new(String::from("f1"), type_provider.i32(), false);
    let f2 = Field::new(String::from("f2"), type_provider.float(), true);
    let schema = Schema::new(&vec![f1.clone(), f2.clone()]);
    let values1: Vec<i32> = (0..100).map(|i| i as i32).collect();
    let values2: Vec<u32> = (0..100).map(|i| (i as f32).to_bits()).collect();

    let mut builder1 = I32ArrayBuilder::new(&pool, type_provider.i32());
    let mut builder2 = F32ArrayBuilder::new(&pool, type_provider.float());
    builder1.append(&values1, None).unwrap();
    builder2.append(&values2, None).unwrap();

    let arrays = vec![builder1.finish_as_base(), builder2.finish_as_base()];
    let cols = vec![
        Column::from_array(&f1, &arrays[0]),
        Column::from_array(&f2, &arrays[1]),
    ];
    let table = Table::new(String::from("t1"), &schema, &cols).unwrap();

    assert_eq!(schema, *table.schema());
    assert_eq!(2, table.column_num());
    assert_eq!(100, table.row_num());
    match table.validate_columns() {
        Ok(table) => table,
        Err(e) => panic!("table validation failed: {}", e.message()),
    };
}

#[test]
fn row_batch_rejects_mismatched_parts() {
    let tp = DataTypeProvider::new();
    let pool = MemoryPool::default();
    let f1 = Field::new(String::from("k"), tp.i32(), false);
    let schema = Schema::new(&vec![f1]);

    let mut builder = I32ArrayBuilder::new(&pool, tp.i32());
    builder.append(&vec![1, 2, 3], None).unwrap();
    let arrays = vec![builder.finish_as_base()];

    // a row count disagreeing with the column's length is rejected,
    // never truncated
    let e = RowBatch::new(&schema, 5, &arrays).unwrap_err();
    assert_eq!(StatusCode::Invalid, e.code());

    // a type mismatch with the schema is rejected
    let f_wrong = Field::new(String::from("k"), tp.u64(), false);
    let wrong_schema = Schema::new(&vec![f_wrong]);
    let e = RowBatch::new(&wrong_schema, 3, &arrays).unwrap_err();
    assert_eq!(StatusCode::Invalid, e.code());

    // the matching row count is accepted
    assert!(RowBatch::new(&schema, 3, &arrays).is_ok());
}

#[test]
fn table_validation_reports_short_columns() {
    let tp = DataTypeProvider::new();
    let pool = MemoryPool::default();
    let f1 = Field::new(String::from("a"), tp.i32(), false);
    let f2 = Field::new(String::from("b"), tp.i32(), false);
    let schema = Schema::new(&vec![f1.clone(), f2.clone()]);

    let mut b1 = I32ArrayBuilder::new(&pool, tp.i32());
    b1.append(&vec![1, 2, 3], None).unwrap();
    let mut b2 = I32ArrayBuilder::new(&pool, tp.i32());
    b2.append(&vec![1, 2], None).unwrap();
    let a1 = b1.finish_as_base();
    let a2 = b2.finish_as_base();

    let cols = vec![Column::from_array(&f1, &a1), Column::from_array(&f2, &a2)];
    // construction takes the row count from the first column
    let table = Table::new(String::from("t"), &schema, &cols).unwrap();
    assert_eq!(3, table.row_num());
    // the explicit check reports the short second column
    let e = table.validate_columns().unwrap_err();
    assert_eq!(StatusCode::Invalid, e.code());
}
