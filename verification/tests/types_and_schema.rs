//! Fields, schemas, and their printed forms and equality.

use arrow::ty::{DataType, DataTypeProvider, Field, Schema, Ty};

#[test]
fn test_field() {
    let ty_provider = DataTypeProvider::new();

    let f1 = Field::new(String::from("f1"), ty_provider.i32(), false);
    let f2 = Field::new(String::from("f1"), ty_provider.i32(), false);

    assert_eq!(f1, f2);
    assert_eq!(String::from("f1: int32 not null"), f1.to_string());
}

#[test]
fn test_schema() {
    let ty_provider = DataTypeProvider::new();
    let f1 = Field::new(String::from("f1"), ty_provider.i32(), false);
    let f2 = Field::new(String::from("f2"), ty_provider.float(), false);
    let f3 = Field::new(String::from("f3"), ty_provider.u64(), true);

    let schema = Schema::new(&vec![f1, f2, f3]);
    assert_eq!(
        String::from("f1: int32 not null\nf2: float not null\nf3: uint64"),
        schema.to_string()
    );

    let f1 = Field::new(String::from("f1"), ty_provider.i32(), false);
    let f2 = Field::new(String::from("f2"), ty_provider.float(), false);
    let f3 = Field::new(String::from("f3"), ty_provider.u64(), true);
    let schema2 = Schema::new(&vec![f1, f2, f3]);

    assert_eq!(schema, schema2);
}

#[test]
fn schema_equality_ignores_identity_but_not_order() {
    let tp = DataTypeProvider::new();
    let a = Schema::new(&vec![
        Field::new(String::from("k"), tp.i32(), false),
        Field::new(String::from("v"), tp.float(), true),
    ]);
    let b = Schema::new(&vec![
        Field::new(String::from("k"), tp.i32(), false),
        Field::new(String::from("v"), tp.float(), true),
    ]);
    let reordered = Schema::new(&vec![
        Field::new(String::from("v"), tp.float(), true),
        Field::new(String::from("k"), tp.i32(), false),
    ]);

    // reflexive, symmetric, independent of object identity
    assert_eq!(a, a);
    assert_eq!(a, b);
    assert_eq!(b, a);
    // reordering the fields makes schemas unequal
    assert!(a != reordered);
}

#[test]
fn data_type_names_and_sizes() {
    let tp = DataTypeProvider::new();
    assert_eq!(4, tp.i32().value_size());
    assert_eq!(8, tp.double().value_size());
    assert_eq!(1, tp.u8().value_size());
    assert_eq!(-1, tp.string().value_size());
    assert_eq!(String::from("int32"), tp.i32().to_string());
    assert_eq!(String::from("float"), tp.float().to_string());
    assert_eq!(tp.i32(), DataType::new_primitive(Ty::INT32));
    assert_eq!(DataType::new_string(), tp.string());
    assert_eq!(DataType::new_binary(), tp.binary());
    let f = Field::non_null("f0", tp.i32());
    assert_eq!(String::from("f0: int32 not null"), f.to_string());
    let g = Field::basic("g0", tp.u64());
    assert_eq!(String::from("g0: uint64"), g.to_string());
}
