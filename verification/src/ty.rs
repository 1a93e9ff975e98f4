//! Logical data types, fields and schemas.
//!
//! A data type is a tag from a closed set of logical types; a field pairs a
//! name with a type, nullability and an optional dictionary id; a schema is
//! an ordered sequence of fields compared structurally.

use vstd::prelude::*;

verus! {

/// The closed set of logical type tags.
#[allow(non_camel_case_types)]
#[derive(Clone, Copy, PartialEq, Eq, Structural, Debug)]
pub enum Ty {
    /// A degenerate null type, represented by no bytes at all.
    NA,
    /// A boolean value represented as one bit.
    BOOL,
    // Little-endian integer types.
    UINT8,
    INT8,
    UINT16,
    INT16,
    UINT32,
    INT32,
    UINT64,
    INT64,
    /// A 4-byte floating point value, carried as its bit pattern.
    FLOAT,
    /// An 8-byte floating point value, carried as its bit pattern.
    DOUBLE,
    /// Fixed-length string.
    CHAR,
    /// Variable-length string.
    STRING,
    /// Null-terminated string embedded in a fixed-length one.
    VARCHAR,
    /// Variable-length bytes.
    BINARY,
    /// Days since the epoch, stored in 8 bytes.
    DATE,
    /// Timestamp since the epoch, stored in 8 bytes.
    TIMESTAMP,
    /// Timestamp as seconds since the epoch in floating point form.
    TIMESTAMP_DOUBLE,
    /// Time of day, stored in 8 bytes.
    TIME,
    /// Precision- and scale-based decimal.
    DECIMAL,
    /// Decimal encoded as text.
    DECIMAL_TEXT,
    /// A list of some other type.
    LIST,
    /// A struct of other types.
    STRUCT,
    // Unions of other types.
    DENSE_UNION,
    SPARSE_UNION,
    /// A union of null, integer, floating point, string and boolean.
    JSON_SCALAR,
    /// A user-defined type.
    USER,
}

/// The byte width of a fixed-width primitive type, or -1 where values are
/// not fixed-width (bit-packed booleans included).
pub open spec fn type_value_size(ty: Ty) -> int {
    match ty {
        Ty::UINT8 => 1,
        Ty::INT8 => 1,
        Ty::UINT16 => 2,
        Ty::INT16 => 2,
        Ty::UINT32 => 4,
        Ty::INT32 => 4,
        Ty::UINT64 => 8,
        Ty::INT64 => 8,
        Ty::FLOAT => 4,
        Ty::DOUBLE => 8,
        Ty::DATE => 8,
        Ty::TIMESTAMP => 8,
        Ty::TIMESTAMP_DOUBLE => 8,
        Ty::TIME => 8,
        _ => -1,
    }
}

/// The printed name of a type tag.
pub open spec fn spec_type_name(ty: Ty) -> Seq<char> {
    match ty {
        Ty::NA => "null"@,
        Ty::BOOL => "bool"@,
        Ty::UINT8 => "uint8"@,
        Ty::INT8 => "int8"@,
        Ty::UINT16 => "uint16"@,
        Ty::INT16 => "int16"@,
        Ty::UINT32 => "uint32"@,
        Ty::INT32 => "int32"@,
        Ty::UINT64 => "uint64"@,
        Ty::INT64 => "int64"@,
        Ty::FLOAT => "float"@,
        Ty::DOUBLE => "double"@,
        Ty::CHAR => "char"@,
        Ty::STRING => "utf8"@,
        Ty::VARCHAR => "varchar"@,
        Ty::BINARY => "binary"@,
        Ty::DATE => "date"@,
        Ty::TIMESTAMP => "timestamp"@,
        Ty::TIMESTAMP_DOUBLE => "timestamp_double"@,
        Ty::TIME => "time"@,
        Ty::DECIMAL => "decimal"@,
        Ty::DECIMAL_TEXT => "decimal_text"@,
        Ty::LIST => "list"@,
        Ty::STRUCT => "struct"@,
        Ty::DENSE_UNION => "union"@,
        Ty::SPARSE_UNION => "union"@,
        Ty::JSON_SCALAR => "json_scalar"@,
        Ty::USER => "user"@,
    }
}

/// What a buffer of an array contributes: values, list offsets, union type
/// codes, or the validity bitmap.
#[derive(Clone, Copy, PartialEq, Eq, Structural, Debug)]
pub enum BufferType {
    DATA,
    OFFSET,
    TYPE,
    VALIDITY,
}

/// One buffer in an array's layout, with the bit width of its items.
#[derive(Clone, Copy, PartialEq, Eq, Structural, Debug)]
pub struct BufferDesc {
    pub ty: BufferType,
    pub bit_width: i32,
}

/// Whether the buffer layout of a type tag is defined.
pub open spec fn layout_defined(ty: Ty) -> bool {
    match ty {
        Ty::CHAR => false,
        Ty::VARCHAR => false,
        Ty::DECIMAL_TEXT => false,
        Ty::JSON_SCALAR => false,
        Ty::USER => false,
        _ => true,
    }
}

/// The buffer layout of each type tag: which buffers an array of that type
/// is made of, in declaration order.
pub open spec fn spec_buffer_layout(ty: Ty) -> Seq<BufferDesc> {
    let validity = (BufferDesc { ty: BufferType::VALIDITY, bit_width: 1 });
    let offsets = (BufferDesc { ty: BufferType::OFFSET, bit_width: 32 });
    let type_codes = (BufferDesc { ty: BufferType::TYPE, bit_width: 32 });
    match ty {
        Ty::NA => seq![],
        Ty::BOOL => seq![validity, (BufferDesc { ty: BufferType::DATA, bit_width: 1 })],
        Ty::STRING => seq![
            validity,
            offsets,
            (BufferDesc { ty: BufferType::DATA, bit_width: 8 }),
        ],
        Ty::BINARY => seq![
            validity,
            offsets,
            (BufferDesc { ty: BufferType::DATA, bit_width: 8 }),
        ],
        Ty::DECIMAL => seq![],
        Ty::LIST => seq![validity, offsets],
        Ty::STRUCT => seq![validity],
        Ty::DENSE_UNION => seq![validity, type_codes, offsets],
        Ty::SPARSE_UNION => seq![validity, type_codes],
        _ => seq![
            validity,
            (BufferDesc { ty: BufferType::DATA, bit_width: (8 * type_value_size(ty)) as i32 }),
        ],
    }
}

/// A logical data type: a tag from the closed set above.
#[derive(Clone, Copy, PartialEq, Eq, Structural, Debug)]
pub struct DataType {
    pub ty: Ty,
}

impl DataType {
    /// A data type with the given tag.
    pub fn new_primitive(ty: Ty) -> (r: DataType)
        ensures
            r.ty == ty,
    {
        DataType { ty }
    }

    /// The variable-length bytes type.
    pub fn new_binary() -> (r: DataType)
        ensures
            r.ty == Ty::BINARY,
    {
        DataType { ty: Ty::BINARY }
    }

    /// The variable-length string type.
    pub fn new_string() -> (r: DataType)
        ensures
            r.ty == Ty::STRING,
    {
        DataType { ty: Ty::STRING }
    }

    /// The byte width of values of this type, or -1 where values are not
    /// fixed-width.
    pub fn value_size(&self) -> (r: i32)
        ensures
            r == type_value_size(self.ty),
    {
        match self.ty {
            Ty::UINT8 => 1,
            Ty::INT8 => 1,
            Ty::UINT16 => 2,
            Ty::INT16 => 2,
            Ty::UINT32 => 4,
            Ty::INT32 => 4,
            Ty::UINT64 => 8,
            Ty::INT64 => 8,
            Ty::FLOAT => 4,
            Ty::DOUBLE => 8,
            Ty::DATE => 8,
            Ty::TIMESTAMP => 8,
            Ty::TIMESTAMP_DOUBLE => 8,
            Ty::TIME => 8,
            _ => -1,
        }
    }

    /// The printed name of this type.
    pub fn get_name(&self) -> (r: &'static str)
        ensures
            r@ == spec_type_name(self.ty),
    {
        match self.ty {
            Ty::NA => "null",
            Ty::BOOL => "bool",
            Ty::UINT8 => "uint8",
            Ty::INT8 => "int8",
            Ty::UINT16 => "uint16",
            Ty::INT16 => "int16",
            Ty::UINT32 => "uint32",
            Ty::INT32 => "int32",
            Ty::UINT64 => "uint64",
            Ty::INT64 => "int64",
            Ty::FLOAT => "float",
            Ty::DOUBLE => "double",
            Ty::CHAR => "char",
            Ty::STRING => "utf8",
            Ty::VARCHAR => "varchar",
            Ty::BINARY => "binary",
            Ty::DATE => "date",
            Ty::TIMESTAMP => "timestamp",
            Ty::TIMESTAMP_DOUBLE => "timestamp_double",
            Ty::TIME => "time",
            Ty::DECIMAL => "decimal",
            Ty::DECIMAL_TEXT => "decimal_text",
            Ty::LIST => "list",
            Ty::STRUCT => "struct",
            Ty::DENSE_UNION => "union",
            Ty::SPARSE_UNION => "union",
            Ty::JSON_SCALAR => "json_scalar",
            Ty::USER => "user",
        }
    }

    /// The printed name as an owned string.
    pub fn to_string(&self) -> (r: String)
        ensures
            r@ == spec_type_name(self.ty),
    {
        self.get_name().to_owned()
    }

    /// The buffers an array of this type is made of, in declaration order.
    /// Types whose layout is undefined are left out by precondition, as the
    /// layout of a fixed-length string is not defined by this library.
    pub fn get_buffer_layout(&self) -> (r: Vec<BufferDesc>)
        requires
            layout_defined(self.ty),
        ensures
            r@ == spec_buffer_layout(self.ty),
    {
        let validity = BufferDesc { ty: BufferType::VALIDITY, bit_width: 1 };
        let offsets = BufferDesc { ty: BufferType::OFFSET, bit_width: 32 };
        let type_codes = BufferDesc { ty: BufferType::TYPE, bit_width: 32 };
        let r: Vec<BufferDesc> = match self.ty {
            Ty::NA => vec![],
            Ty::BOOL => vec![validity, BufferDesc { ty: BufferType::DATA, bit_width: 1 }],
            Ty::STRING => vec![
                validity,
                offsets,
                BufferDesc { ty: BufferType::DATA, bit_width: 8 },
            ],
            Ty::BINARY => vec![
                validity,
                offsets,
                BufferDesc { ty: BufferType::DATA, bit_width: 8 },
            ],
            Ty::DECIMAL => vec![],
            Ty::LIST => vec![validity, offsets],
            Ty::STRUCT => vec![validity],
            Ty::DENSE_UNION => vec![validity, type_codes, offsets],
            Ty::SPARSE_UNION => vec![validity, type_codes],
            _ => {
                let width = self.value_size();
                vec![validity, BufferDesc { ty: BufferType::DATA, bit_width: 8 * width }]
            },
        };
        proof {
            assert(r@ =~= spec_buffer_layout(self.ty));
        }
        r
    }
}

/// Byte-width access for fixed-width types.
pub trait FixedWidth {
    /// Whether the width is defined for this value.
    spec fn bit_width_defined(&self) -> bool;

    /// The width in bits of one value.
    fn get_bit_width(&self) -> i32
        requires
            self.bit_width_defined(),
    ;
}

impl FixedWidth for DataType {
    open spec fn bit_width_defined(&self) -> bool {
        type_value_size(self.ty) > 0
    }

    /// The width in bits; defined for the fixed-width primitive types.
    fn get_bit_width(&self) -> (r: i32)
        ensures
            r == 8 * type_value_size(self.ty),
    {
        8 * self.value_size()
    }
}

/// Signedness of integer types.
pub trait IntegerTyped {
    /// Whether signedness is defined for this value.
    spec fn signedness_defined(&self) -> bool;

    fn is_signed(&self) -> bool
        requires
            self.signedness_defined(),
    ;
}

/// Whether a tag is one of the integer types.
pub open spec fn is_integer_type(ty: Ty) -> bool {
    match ty {
        Ty::UINT8 | Ty::INT8 | Ty::UINT16 | Ty::INT16 | Ty::UINT32 | Ty::INT32 | Ty::UINT64
        | Ty::INT64 => true,
        _ => false,
    }
}

impl IntegerTyped for DataType {
    open spec fn signedness_defined(&self) -> bool {
        is_integer_type(self.ty)
    }

    /// Whether values of this integer type carry a sign.
    fn is_signed(&self) -> (r: bool)
        ensures
            r == (self.ty == Ty::INT8 || self.ty == Ty::INT16 || self.ty == Ty::INT32
                || self.ty == Ty::INT64),
    {
        match self.ty {
            Ty::INT8 => true,
            Ty::INT16 => true,
            Ty::INT32 => true,
            Ty::INT64 => true,
            _ => false,
        }
    }
}

/// How wide a floating point type is.
#[derive(Clone, Copy, PartialEq, Eq, Structural, Debug)]
pub enum Precision {
    HALF,
    SINGLE,
    DOUBLE,
}

/// Precision access for floating point types.
pub trait FloatTyped {
    /// Whether a precision is defined for this value.
    spec fn precision_defined(&self) -> bool;

    fn precision(&self) -> Precision
        requires
            self.precision_defined(),
    ;
}

impl FloatTyped for DataType {
    open spec fn precision_defined(&self) -> bool {
        self.ty == Ty::FLOAT || self.ty == Ty::DOUBLE
    }

    /// The precision; defined for the floating point types.
    fn precision(&self) -> (r: Precision)
        ensures
            self.ty == Ty::FLOAT ==> r == Precision::SINGLE,
            self.ty == Ty::DOUBLE ==> r == Precision::DOUBLE,
    {
        match self.ty {
            Ty::FLOAT => Precision::SINGLE,
            _ => Precision::DOUBLE,
        }
    }
}

/// Granularity of timestamps and times.
#[derive(Clone, Copy, PartialEq, Eq, Structural, Debug)]
pub enum TimeUnit {
    SECOND,
    MILLI,
    MICRO,
    NANO,
}

/// How a union lays out its children.
#[derive(Clone, Copy, PartialEq, Eq, Structural, Debug)]
pub enum UnionMode {
    SPARSE,
    DENSE,
}

/// A named, typed slot of a schema, with nullability and an optional
/// dictionary id (0 when not dictionary encoded).
#[derive(Debug)]
pub struct Field {
    pub name: String,
    pub ty: DataType,
    pub nullable: bool,
    pub dictionary: i64,
}

/// Structural equality of fields: same name, type, nullability and
/// dictionary id.
pub open spec fn field_eq(a: Field, b: Field) -> bool {
    a.name@ == b.name@ && a.ty == b.ty && a.nullable == b.nullable && a.dictionary == b.dictionary
}

/// The printed form of a field: `name: type`, with ` not null` appended for
/// a field that may not hold nulls.
pub open spec fn spec_field_string(f: Field) -> Seq<char> {
    f.name@ + ": "@ + spec_type_name(f.ty.ty) + if f.nullable {
        Seq::<char>::empty()
    } else {
        " not null"@
    }
}

impl Field {
    /// A field with the given name, type and nullability, not dictionary
    /// encoded.
    pub fn new(name: String, ty: DataType, nullable: bool) -> (r: Field)
        ensures
            r.name@ == name@,
            r.ty == ty,
            r.nullable == nullable,
            r.dictionary == 0,
    {
        Field { name, ty, nullable, dictionary: 0 }
    }

    /// A nullable field, not dictionary encoded.
    pub fn basic(name: &str, ty: DataType) -> (r: Field)
        ensures
            r.name@ == name@,
            r.ty == ty,
            r.nullable == true,
            r.dictionary == 0,
    {
        Field { name: name.to_owned(), ty, nullable: true, dictionary: 0 }
    }

    /// A field that may not hold nulls, not dictionary encoded.
    pub fn non_null(name: &str, ty: DataType) -> (r: Field)
        ensures
            r.name@ == name@,
            r.ty == ty,
            r.nullable == false,
            r.dictionary == 0,
    {
        Field { name: name.to_owned(), ty, nullable: false, dictionary: 0 }
    }

    /// A nullable, dictionary-encoded field.
    pub fn with_dic(name: &str, ty: DataType, dictionary: i64) -> (r: Field)
        ensures
            r.name@ == name@,
            r.ty == ty,
            r.nullable == true,
            r.dictionary == dictionary,
    {
        Field { name: name.to_owned(), ty, nullable: true, dictionary }
    }

    /// A dictionary-encoded field that may not hold nulls.
    pub fn non_null_with_dic(name: &str, ty: DataType, dictionary: i64) -> (r: Field)
        ensures
            r.name@ == name@,
            r.ty == ty,
            r.nullable == false,
            r.dictionary == dictionary,
    {
        Field { name: name.to_owned(), ty, nullable: false, dictionary }
    }

    pub fn get_name(&self) -> (r: &String)
        ensures
            r@ == self.name@,
    {
        &self.name
    }

    pub fn get_type(&self) -> (r: &DataType)
        ensures
            *r == self.ty,
    {
        &self.ty
    }

    pub fn is_nullable(&self) -> (r: bool)
        ensures
            r == self.nullable,
    {
        self.nullable
    }

    pub fn get_dictionary(&self) -> (r: i64)
        ensures
            r == self.dictionary,
    {
        self.dictionary
    }

    /// The printed form of the field.
    pub fn to_string(&self) -> (r: String)
        ensures
            r@ == spec_field_string(*self),
    {
        let mut s = self.name.clone();
        s.append(": ");
        s.append(self.ty.get_name());
        if !self.nullable {
            s.append(" not null");
        }
        s
    }
}

impl Clone for Field {
    fn clone(&self) -> (r: Self)
        ensures
            field_eq(r, *self),
    {
        Field {
            name: self.name.clone(),
            ty: self.ty,
            nullable: self.nullable,
            dictionary: self.dictionary,
        }
    }
}

impl PartialEq for Field {
    fn eq(&self, other: &Field) -> (r: bool)
    {
        self.name == other.name && self.ty.ty == other.ty.ty && self.nullable == other.nullable
            && self.dictionary == other.dictionary
    }
}

impl vstd::std_specs::cmp::PartialEqSpecImpl for Field {
    open spec fn obeys_eq_spec() -> bool {
        true
    }

    open spec fn eq_spec(&self, other: &Field) -> bool {
        field_eq(*self, *other)
    }
}

/// An ordered, named sequence of fields, compared structurally.
#[derive(Debug)]
pub struct Schema {
    pub fields: Vec<Field>,
}

/// Structural equality of schemas: the same fields in the same order.
pub open spec fn schema_eq(a: Schema, b: Schema) -> bool {
    a.fields@.len() == b.fields@.len() && forall|i: int|
        0 <= i < a.fields@.len() ==> field_eq(#[trigger] a.fields@[i], b.fields@[i])
}

/// The printed form of a schema: one field per line.
pub open spec fn spec_schema_string_from(fields: Seq<Field>, i: int) -> Seq<char>
    decreases fields.len() - i,
{
    if i < 0 || i >= fields.len() {
        Seq::<char>::empty()
    } else if i == fields.len() - 1 {
        spec_field_string(fields[i])
    } else {
        spec_field_string(fields[i]) + "\n"@ + spec_schema_string_from(fields, i + 1)
    }
}

impl Schema {
    /// A schema over copies of the given fields, in order.
    pub fn new(fields: &Vec<Field>) -> (r: Schema)
        ensures
            r.fields@.len() == fields@.len(),
            forall|i: int| 0 <= i < fields@.len() ==> field_eq(
                #[trigger] r.fields@[i],
                fields@[i],
            ),
    {
        let mut copies: Vec<Field> = Vec::new();
        let mut i: usize = 0;
        while i < fields.len()
            invariant
                i <= fields@.len(),
                copies@.len() == i,
                forall|j: int| 0 <= j < i ==> field_eq(#[trigger] copies@[j], fields@[j]),
            decreases fields@.len() - i,
        {
            copies.push(fields[i].clone());
            i = i + 1;
        }
        Schema { fields: copies }
    }

    /// Take ownership of a field list as a schema, copying nothing.
    pub fn from_raw(fields: Vec<Field>) -> (r: Schema)
        ensures
            r.fields@ == fields@,
    {
        Schema { fields }
    }

    /// The underlying field list.
    pub fn raw_schema(&self) -> (r: &Vec<Field>)
        ensures
            r@ == self.fields@,
    {
        &self.fields
    }

    /// How many fields the schema has.
    pub fn num_fields(&self) -> (r: usize)
        ensures
            r == self.fields@.len(),
    {
        self.fields.len()
    }

    /// The field at position `i`.
    pub fn field(&self, i: usize) -> (r: &Field)
        requires
            i < self.fields@.len(),
        ensures
            *r == self.fields@[i as int],
    {
        &self.fields[i]
    }

    /// The printed form of the schema: one field per line.
    pub fn to_string(&self) -> (r: String)
        ensures
            r@ == spec_schema_string_from(self.fields@, 0),
    {
        let mut s = String::new();
        let n = self.fields.len();
        let mut i: usize = 0;
        while i < n
            invariant
                i <= n,
                n == self.fields@.len(),
                s@ + spec_schema_string_from(self.fields@, i as int)
                    == spec_schema_string_from(self.fields@, 0),
            decreases n - i,
        {
            let ghost s0 = s@;
            let line = self.fields[i].to_string();
            s.append(line.as_str());
            if i + 1 < n {
                s.append("\n");
                proof {
                    assert(s@ + spec_schema_string_from(self.fields@, i + 1)
                        =~= s0 + spec_schema_string_from(self.fields@, i as int));
                }
            } else {
                proof {
                    assert(spec_schema_string_from(self.fields@, i + 1)
                        =~= Seq::<char>::empty());
                    assert(s@ + spec_schema_string_from(self.fields@, i + 1)
                        =~= s0 + spec_schema_string_from(self.fields@, i as int));
                }
            }
            i = i + 1;
        }
        proof {
            assert(spec_schema_string_from(self.fields@, n as int) =~= Seq::<char>::empty());
            assert(s@ + spec_schema_string_from(self.fields@, n as int) =~= s@);
        }
        s
    }
}

impl Clone for Schema {
    fn clone(&self) -> (r: Self)
        ensures
            schema_eq(r, *self),
    {
        Schema::new(&self.fields)
    }
}

impl PartialEq for Schema {
    fn eq(&self, other: &Schema) -> (r: bool)
    {
        self.fields == other.fields
    }
}

impl vstd::std_specs::cmp::PartialEqSpecImpl for Schema {
    open spec fn obeys_eq_spec() -> bool {
        true
    }

    open spec fn eq_spec(&self, other: &Schema) -> bool {
        schema_eq(*self, *other)
    }
}

/// Hands out data type values for each tag; a convenience over
/// `DataType::new_primitive`.
pub struct DataTypeProvider {}

impl DataTypeProvider {
    pub fn new() -> DataTypeProvider {
        DataTypeProvider {}
    }

    pub fn null(&self) -> (r: DataType)
        ensures
            r.ty == Ty::NA,
    {
        DataType { ty: Ty::NA }
    }

    pub fn boolean(&self) -> (r: DataType)
        ensures
            r.ty == Ty::BOOL,
    {
        DataType { ty: Ty::BOOL }
    }

    pub fn u8(&self) -> (r: DataType)
        ensures
            r.ty == Ty::UINT8,
    {
        DataType { ty: Ty::UINT8 }
    }

    pub fn i8(&self) -> (r: DataType)
        ensures
            r.ty == Ty::INT8,
    {
        DataType { ty: Ty::INT8 }
    }

    pub fn u16(&self) -> (r: DataType)
        ensures
            r.ty == Ty::UINT16,
    {
        DataType { ty: Ty::UINT16 }
    }

    pub fn i16(&self) -> (r: DataType)
        ensures
            r.ty == Ty::INT16,
    {
        DataType { ty: Ty::INT16 }
    }

    pub fn u32(&self) -> (r: DataType)
        ensures
            r.ty == Ty::UINT32,
    {
        DataType { ty: Ty::UINT32 }
    }

    pub fn i32(&self) -> (r: DataType)
        ensures
            r.ty == Ty::INT32,
    {
        DataType { ty: Ty::INT32 }
    }

    pub fn u64(&self) -> (r: DataType)
        ensures
            r.ty == Ty::UINT64,
    {
        DataType { ty: Ty::UINT64 }
    }

    pub fn i64(&self) -> (r: DataType)
        ensures
            r.ty == Ty::INT64,
    {
        DataType { ty: Ty::INT64 }
    }

    pub fn float(&self) -> (r: DataType)
        ensures
            r.ty == Ty::FLOAT,
    {
        DataType { ty: Ty::FLOAT }
    }

    pub fn double(&self) -> (r: DataType)
        ensures
            r.ty == Ty::DOUBLE,
    {
        DataType { ty: Ty::DOUBLE }
    }

    pub fn string(&self) -> (r: DataType)
        ensures
            r.ty == Ty::STRING,
    {
        DataType { ty: Ty::STRING }
    }

    pub fn binary(&self) -> (r: DataType)
        ensures
            r.ty == Ty::BINARY,
    {
        DataType { ty: Ty::BINARY }
    }
}

} // verus!

verus! {

/// Schema equality is reflexive.
pub proof fn lemma_schema_eq_reflexive(s: Schema)
    ensures
        schema_eq(s, s),
{
}

/// Schema equality is symmetric.
pub proof fn lemma_schema_eq_symmetric(a: Schema, b: Schema)
    requires
        schema_eq(a, b),
    ensures
        schema_eq(b, a),
{
}

/// Schema equality is transitive.
pub proof fn lemma_schema_eq_transitive(a: Schema, b: Schema, c: Schema)
    requires
        schema_eq(a, b),
        schema_eq(b, c),
    ensures
        schema_eq(a, c),
{
}

/// Schema equality looks only at the field lists, never at object
/// identity: two schemas whose fields agree pairwise in name, type,
/// nullability and dictionary id compare equal.
pub proof fn lemma_schema_eq_structural(a: Schema, b: Schema)
    requires
        a.fields@.len() == b.fields@.len(),
        forall|i: int| 0 <= i < a.fields@.len() ==> field_eq(#[trigger] a.fields@[i], b.fields@[i]),
    ensures
        schema_eq(a, b),
{
}

} // verus!
