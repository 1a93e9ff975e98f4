//! Row batches and tables: equal-length columns under a schema.
//!
//! A row batch is one contiguous slice of rows: a schema plus one array
//! per field, all of the same length. A table is the chunked counterpart:
//! a schema plus one column per field, with an independent row count that
//! an explicit validation step holds the columns to.

use vstd::prelude::*;

use crate::array::{BaseArray, array_equals_exact};
use crate::buffer::Buffer;
use crate::column::Column;
use crate::status::{ArrowError, StatusCode};
use crate::ty::{Field, Schema, field_eq, schema_eq};

verus! {

/// What a row batch requires of its parts: one array per field, of the
/// field's type, all `num_rows` long.
pub open spec fn batch_parts_ok(fields: Seq<Field>, num_rows: int, arrays: Seq<BaseArray>) -> bool {
    &&& 0 <= num_rows
    &&& arrays.len() == fields.len()
    &&& forall|i: int| 0 <= i < arrays.len() ==> (#[trigger] arrays[i]).ty_spec() == fields[i].ty.ty
    &&& forall|i: int| 0 <= i < arrays.len() ==> (#[trigger] arrays[i]).len_spec() == num_rows
}

/// A schema plus one equal-length array per field: one contiguous slice
/// of rows.
#[derive(Debug)]
pub struct RowBatch {
    schema: Schema,
    num_rows: i32,
    columns: Vec<BaseArray>,
}

impl RowBatch {
    /// The batch's schema, for specification purposes.
    pub closed spec fn schema_spec(&self) -> Schema {
        self.schema
    }

    /// The number of rows.
    pub closed spec fn num_rows_spec(&self) -> int {
        self.num_rows as int
    }

    /// The columns, one per field.
    pub closed spec fn columns_spec(&self) -> Seq<BaseArray> {
        self.columns@
    }

    #[verifier::type_invariant]
    pub open spec fn wf(&self) -> bool {
        &&& batch_parts_ok(self.schema_spec().fields@, self.num_rows_spec(), self.columns_spec())
        &&& self.columns_spec().len() <= i32::MAX
        &&& forall|i: int| 0 <= i < self.columns_spec().len()
            ==> (#[trigger] self.columns_spec()[i]).wf()
    }

    /// A batch over copies of the given arrays. The arrays must agree
    /// with the schema field for field and all be `num_rows` long;
    /// anything else is rejected as `Invalid` rather than truncated.
    pub fn new(schema: &Schema, num_rows: i32, arrays: &Vec<BaseArray>) -> (r: Result<
        RowBatch,
        ArrowError,
    >)
        ensures
            match r {
                Ok(batch) => {
                    &&& batch_parts_ok(schema.fields@, num_rows as int, arrays@)
                    &&& schema_eq(batch.schema_spec(), *schema)
                    &&& batch.num_rows_spec() == num_rows
                    &&& batch.columns_spec().len() == arrays@.len()
                    &&& forall|i: int| 0 <= i < arrays@.len() ==> array_equals_exact(
                        &(#[trigger] batch.columns_spec()[i]),
                        &arrays@[i],
                    )
                    &&& forall|i: int| 0 <= i < arrays@.len()
                        ==> (#[trigger] batch.columns_spec()[i]).ty_spec() == arrays@[i].ty_spec()
                        && batch.columns_spec()[i].len_spec() == arrays@[i].len_spec()
                        && batch.columns_spec()[i].null_count_spec()
                        == arrays@[i].null_count_spec()
                        && batch.columns_spec()[i].buffers_spec().len()
                        == arrays@[i].buffers_spec().len()
                    &&& forall|i: int, j: int| 0 <= i < arrays@.len() && 0 <= j
                        < arrays@[i].buffers_spec().len()
                        ==> (#[trigger] batch.columns_spec()[i].buffers_spec()[j]).buf_bytes()
                        == arrays@[i].buffers_spec()[j].buf_bytes()
                        && batch.columns_spec()[i].buffers_spec()[j].buf_size()
                        == arrays@[i].buffers_spec()[j].buf_size()
                },
                Err(e) => {
                    &&& e.code_spec() == StatusCode::Invalid
                    &&& (!batch_parts_ok(schema.fields@, num_rows as int, arrays@)
                        || arrays@.len() > i32::MAX)
                },
            },
    {
        if num_rows < 0 {
            return Err(ArrowError::invalid("a row batch cannot have a negative row count"));
        }
        if arrays.len() != schema.num_fields() {
            return Err(ArrowError::invalid("one array per schema field is required"));
        }
        if arrays.len() > (i32::MAX as usize) {
            return Err(ArrowError::invalid("too many columns for a row batch"));
        }
        let mut columns: Vec<BaseArray> = Vec::new();
        let mut i: usize = 0;
        while i < arrays.len()
            invariant
                i <= arrays@.len(),
                arrays@.len() == schema.fields@.len(),
                columns@.len() == i,
                forall|j: int| 0 <= j < i ==> array_equals_exact(
                    &(#[trigger] columns@[j]),
                    &arrays@[j],
                ),
                forall|j: int| 0 <= j < i ==> (#[trigger] columns@[j]).ty_spec()
                    == arrays@[j].ty_spec() && columns@[j].len_spec() == arrays@[j].len_spec()
                    && columns@[j].null_count_spec() == arrays@[j].null_count_spec()
                    && columns@[j].buffers_spec().len() == arrays@[j].buffers_spec().len(),
                forall|j: int, t: int| 0 <= j < i && 0 <= t < arrays@[j].buffers_spec().len()
                    ==> (#[trigger] columns@[j].buffers_spec()[t]).buf_bytes()
                    == arrays@[j].buffers_spec()[t].buf_bytes()
                    && columns@[j].buffers_spec()[t].buf_size()
                    == arrays@[j].buffers_spec()[t].buf_size(),
                forall|j: int| 0 <= j < i ==> (#[trigger] arrays@[j]).ty_spec()
                    == schema.fields@[j].ty.ty && arrays@[j].len_spec() == num_rows,
                forall|j: int| 0 <= j < i ==> (#[trigger] columns@[j]).wf(),
            decreases arrays@.len() - i,
        {
            let array = &arrays[i];
            if array.ty() != schema.field(i).ty.ty {
                return Err(ArrowError::invalid("array type does not match the schema field"));
            }
            if array.len() != num_rows {
                return Err(ArrowError::invalid("array length does not match the row count"));
            }
            let copy = array.clone();
            proof {
                use_type_invariant(&copy);
            }
            columns.push(copy);
            i = i + 1;
        }
        Ok(RowBatch { schema: schema.clone(), num_rows, columns })
    }

    /// Assemble a batch from parts that already agree, schema field for
    /// field, copying nothing.
    pub fn from_raw(schema: Schema, num_rows: i32, columns: Vec<BaseArray>) -> (r: RowBatch)
        requires
            batch_parts_ok(schema.fields@, num_rows as int, columns@),
            columns@.len() <= i32::MAX,
        ensures
            r.schema_spec() == schema,
            r.num_rows_spec() == num_rows,
            r.columns_spec() == columns@,
    {
        let n = columns.len();
        let mut i: usize = 0;
        while i < n
            invariant
                i <= n,
                n == columns@.len(),
                forall|j: int| 0 <= j < i ==> (#[trigger] columns@[j]).wf(),
            decreases n - i,
        {
            let column = &columns[i];
            proof {
                use_type_invariant(column);
            }
            i = i + 1;
        }
        RowBatch { schema, num_rows, columns }
    }

    /// The underlying columns.
    pub fn raw_batch(&self) -> (r: &Vec<BaseArray>)
        ensures
            r@ == self.columns_spec(),
    {
        &self.columns
    }

    /// The batch's schema.
    pub fn schema(&self) -> (r: &Schema)
        ensures
            *r == self.schema_spec(),
    {
        &self.schema
    }

    /// The column at position `i`.
    pub fn column(&self, i: i32) -> (r: &BaseArray)
        requires
            0 <= i < self.columns_spec().len(),
        ensures
            *r == self.columns_spec()[i as int],
    {
        proof {
            use_type_invariant(self);
        }
        &self.columns[i as usize]
    }

    /// The name of the field at position `i`.
    pub fn column_name(&self, i: i32) -> (r: String)
        requires
            0 <= i < self.columns_spec().len(),
        ensures
            r@ == self.schema_spec().fields@[i as int].name@,
    {
        proof {
            use_type_invariant(self);
        }
        self.schema.field(i as usize).get_name().clone()
    }

    /// How many columns the batch has.
    pub fn column_num(&self) -> (r: i32)
        ensures
            r == self.columns_spec().len(),
    {
        proof {
            use_type_invariant(self);
        }
        self.columns.len() as i32
    }

    /// How many rows the batch has.
    pub fn row_num(&self) -> (r: i32)
        ensures
            r == self.num_rows_spec(),
    {
        self.num_rows
    }
}

/// What a table's columns must satisfy: one column per field, of the
/// field's type.
pub open spec fn table_parts_ok(fields: Seq<Field>, columns: Seq<Column>) -> bool {
    &&& columns.len() == fields.len()
    &&& forall|i: int| 0 <= i < columns.len() ==> (#[trigger] columns[i]).field_spec().ty
        == fields[i].ty
}

/// Whether every column is `num_rows` long and its chunks carry the
/// declared type: what `validate_columns` checks.
pub open spec fn table_columns_valid(columns: Seq<Column>, num_rows: int) -> bool {
    &&& forall|i: int| 0 <= i < columns.len() ==> (#[trigger] columns[i]).len_spec() == num_rows
    &&& forall|i: int, j: int| 0 <= i < columns.len() && 0 <= j
        < columns[i].chunks_spec().len() ==> (#[trigger] columns[i].chunks_spec()[j]).ty_spec()
        == columns[i].field_spec().ty.ty
}

/// A named, schema-typed set of chunked columns with an independent row
/// count.
#[derive(Debug)]
pub struct Table {
    name: String,
    schema: Schema,
    columns: Vec<Column>,
    num_rows: i64,
}

impl Table {
    /// The table's name, for specification purposes.
    pub closed spec fn name_spec(&self) -> Seq<char> {
        self.name@
    }

    /// The table's schema.
    pub closed spec fn schema_spec(&self) -> Schema {
        self.schema
    }

    /// The columns, one per field.
    pub closed spec fn columns_spec(&self) -> Seq<Column> {
        self.columns@
    }

    /// The declared row count.
    pub closed spec fn num_rows_spec(&self) -> int {
        self.num_rows as int
    }

    #[verifier::type_invariant]
    pub open spec fn wf(&self) -> bool {
        &&& table_parts_ok(self.schema_spec().fields@, self.columns_spec())
        &&& self.columns_spec().len() <= i32::MAX
        &&& 0 <= self.num_rows_spec()
    }

    /// A table over copies of the given columns, whose types must match
    /// the schema field for field. The row count is taken from the first
    /// column (0 with no columns); whether every column agrees with it is
    /// `validate_columns`' business, not the constructor's.
    pub fn new(name: String, schema: &Schema, columns: &Vec<Column>) -> (r: Result<
        Table,
        ArrowError,
    >)
        ensures
            match r {
                Ok(table) => {
                    &&& table_parts_ok(schema.fields@, columns@)
                    &&& table.name_spec() == name@
                    &&& schema_eq(table.schema_spec(), *schema)
                    &&& table.columns_spec().len() == columns@.len()
                    &&& table.num_rows_spec() == if columns@.len() == 0 {
                        0int
                    } else {
                        columns@[0].len_spec()
                    }
                    &&& forall|i: int| 0 <= i < columns@.len()
                        ==> (#[trigger] table.columns_spec()[i]).len_spec()
                        == columns@[i].len_spec() && table.columns_spec()[i].field_spec().ty
                        == columns@[i].field_spec().ty
                    &&& forall|i: int, j: int| 0 <= i < columns@.len() && 0 <= j
                        < columns@[i].chunks_spec().len()
                        ==> (#[trigger] table.columns_spec()[i].chunks_spec()[j]).ty_spec()
                        == columns@[i].chunks_spec()[j].ty_spec()
                },
                Err(e) => {
                    &&& e.code_spec() == StatusCode::Invalid
                    &&& (!table_parts_ok(schema.fields@, columns@) || columns@.len() > i32::MAX
                        || (columns@.len() > 0 && columns@[0].len_spec() < 0))
                },
            },
    {
        if columns.len() != schema.num_fields() {
            return Err(ArrowError::invalid("one column per schema field is required"));
        }
        if columns.len() > (i32::MAX as usize) {
            return Err(ArrowError::invalid("too many columns for a table"));
        }
        let mut copies: Vec<Column> = Vec::new();
        let mut i: usize = 0;
        while i < columns.len()
            invariant
                i <= columns@.len(),
                columns@.len() == schema.fields@.len(),
                copies@.len() == i,
                forall|j: int| 0 <= j < i ==> (#[trigger] columns@[j]).field_spec().ty
                    == schema.fields@[j].ty,
                forall|j: int| 0 <= j < i ==> (#[trigger] copies@[j]).field_spec().ty
                    == columns@[j].field_spec().ty && copies@[j].len_spec()
                    == columns@[j].len_spec(),
                forall|j: int, t: int| 0 <= j < i && 0 <= t < columns@[j].chunks_spec().len()
                    ==> (#[trigger] copies@[j].chunks_spec()[t]).ty_spec()
                    == columns@[j].chunks_spec()[t].ty_spec(),
                forall|j: int| 0 <= j < i ==> (#[trigger] copies@[j]).chunks_spec().len()
                    == columns@[j].chunks_spec().len(),
            decreases columns@.len() - i,
        {
            let column = &columns[i];
            if column.data_type().ty != schema.field(i).ty.ty {
                return Err(ArrowError::invalid("column type does not match the schema field"));
            }
            copies.push(column.clone());
            i = i + 1;
        }
        let num_rows: i64 = if columns.len() > 0 {
            let first_len = columns[0].len();
            if first_len < 0 {
                return Err(ArrowError::invalid("a table cannot have a negative row count"));
            }
            first_len
        } else {
            0
        };
        Ok(Table { name, schema: schema.clone(), columns: copies, num_rows })
    }

    /// The table's name.
    pub fn name(&self) -> (r: &String)
        ensures
            r@ == self.name_spec(),
    {
        &self.name
    }

    /// The table's schema.
    pub fn schema(&self) -> (r: &Schema)
        ensures
            *r == self.schema_spec(),
    {
        &self.schema
    }

    /// The column at position `i`.
    pub fn column(&self, i: i32) -> (r: &Column)
        requires
            0 <= i < self.columns_spec().len(),
        ensures
            *r == self.columns_spec()[i as int],
    {
        &self.columns[i as usize]
    }

    /// How many columns the table has.
    pub fn column_num(&self) -> (r: i32)
        ensures
            r == self.columns_spec().len(),
    {
        proof {
            use_type_invariant(self);
        }
        self.columns.len() as i32
    }

    /// How many rows the table declares.
    pub fn row_num(&self) -> (r: i64)
        ensures
            r == self.num_rows_spec(),
    {
        self.num_rows
    }

    /// Walk every column and check that it is as long as the table says
    /// and that its chunks carry the declared type; `Invalid` names the
    /// first mismatch.
    pub fn validate_columns(&self) -> (r: Result<&Table, ArrowError>)
        ensures
            match r {
                Ok(table) => {
                    &&& *table == *self
                    &&& table_columns_valid(self.columns_spec(), self.num_rows_spec())
                },
                Err(e) => {
                    &&& e.code_spec() == StatusCode::Invalid
                    &&& !table_columns_valid(self.columns_spec(), self.num_rows_spec())
                },
            },
    {
        proof {
            use_type_invariant(self);
        }
        let n = self.columns.len();
        let mut i: usize = 0;
        while i < n
            invariant
                i <= n,
                n == self.columns_spec().len(),
                forall|j: int| 0 <= j < i ==> (#[trigger] self.columns_spec()[j]).len_spec()
                    == self.num_rows_spec(),
                forall|j: int, t: int| 0 <= j < i && 0 <= t
                    < self.columns_spec()[j].chunks_spec().len() ==> (#[trigger] self.columns_spec(
                )[j].chunks_spec()[t]).ty_spec() == self.columns_spec()[j].field_spec().ty.ty,
            decreases n - i,
        {
            let column = &self.columns[i];
            if column.len() != self.num_rows {
                return Err(ArrowError::invalid("column length does not match the row count"));
            }
            match column.validate_data() {
                Ok(_) => {}
                Err(e) => {
                    return Err(e);
                }
            }
            i = i + 1;
        }
        Ok(self)
    }
}

} // verus!
