use vstd::prelude::*;

verus! {

/// The element type of one table column, mirroring the columnar
/// in-memory format's own list of types.
#[derive(Debug)]
pub enum DataType {
    Null,
    Boolean,
    Int8,
    Int16,
    Int32,
    Int64,
    UInt8,
    UInt16,
    UInt32,
    UInt64,
    Float16,
    Float32,
    Float64,
    Date32,
    Date64,
    Binary,
    FixedSizeBinary(i32),
    LargeBinary,
    Utf8,
    LargeUtf8,
    Dictionary(Box<DataType>, Box<DataType>),
    Decimal(usize, usize),
}

impl DataType {
    /// A copy with the same shape, variant for variant.
    pub fn duplicate(&self) -> (r: DataType)
        ensures
            r == *self,
        decreases *self,
    {
        match self {
            DataType::Null => DataType::Null,
            DataType::Boolean => DataType::Boolean,
            DataType::Int8 => DataType::Int8,
            DataType::Int16 => DataType::Int16,
            DataType::Int32 => DataType::Int32,
            DataType::Int64 => DataType::Int64,
            DataType::UInt8 => DataType::UInt8,
            DataType::UInt16 => DataType::UInt16,
            DataType::UInt32 => DataType::UInt32,
            DataType::UInt64 => DataType::UInt64,
            DataType::Float16 => DataType::Float16,
            DataType::Float32 => DataType::Float32,
            DataType::Float64 => DataType::Float64,
            DataType::Date32 => DataType::Date32,
            DataType::Date64 => DataType::Date64,
            DataType::Binary => DataType::Binary,
            DataType::FixedSizeBinary(i) => DataType::FixedSizeBinary(*i),
            DataType::LargeBinary => DataType::LargeBinary,
            DataType::Utf8 => DataType::Utf8,
            DataType::LargeUtf8 => DataType::LargeUtf8,
            DataType::Dictionary(k, v) => DataType::Dictionary(
                Box::new(k.duplicate()),
                Box::new(v.duplicate()),
            ),
            DataType::Decimal(a, b) => DataType::Decimal(*a, *b),
        }
    }
}

/// One column of a struct-of-arrays table, reduced to what a schema
/// needs of it: its name, its element type, and how many of its values
/// are null.
#[derive(Debug)]
pub struct ArrowColumn {
    pub name: String,
    pub data_type: DataType,
    pub null_count: usize,
}

/// A struct-of-arrays table: named columns over a common row count.
#[derive(Debug)]
pub struct StructArrayInfo {
    pub columns: Vec<ArrowColumn>,
    pub num_rows: usize,
}

/// One named, typed field of a schema.
#[derive(Debug)]
pub struct Field {
    pub name: String,
    pub data_type: DataType,
    pub nullable: bool,
    pub metadata: Option<Vec<(String, String)>>,
}

impl Field {
    /// The schema field describing one column: it is nullable exactly
    /// when the column holds at least one null, and carries no metadata.
    pub fn from_column(name: &str, column: &ArrowColumn) -> (r: Field)
        ensures
            r.name@ == name@,
            r.data_type == column.data_type,
            r.nullable == (column.null_count > 0),
            r.metadata is None,
    {
        Field {
            name: String::from_str(name),
            data_type: column.data_type.duplicate(),
            nullable: column.null_count > 0,
            metadata: None,
        }
    }
}

/// The shape of a table: its fields and optional metadata.
#[derive(Debug)]
pub struct Schema {
    pub fields: Vec<Field>,
    pub metadata: Option<Vec<(String, String)>>,
}

impl Schema {
    /// The schema of a struct array: one field per column, in column
    /// order, and no metadata.
    pub fn for_struct_array(array: &StructArrayInfo) -> (r: Schema)
        ensures
            r.fields@.len() == array.columns@.len(),
            forall|i: int|
                0 <= i < r.fields@.len() ==> {
                    &&& (#[trigger] r.fields@[i]).name@ == array.columns@[i].name@
                    &&& r.fields@[i].data_type == array.columns@[i].data_type
                    &&& r.fields@[i].nullable == (array.columns@[i].null_count > 0)
                    &&& r.fields@[i].metadata is None
                },
            r.metadata is None,
    {
        let n = array.columns.len();
        let mut fields: Vec<Field> = Vec::new();
        let mut i: usize = 0;
        while i < n
            invariant
                0 <= i <= n,
                n == array.columns@.len(),
                fields@.len() == i,
                forall|j: int|
                    0 <= j < i ==> {
                        &&& (#[trigger] fields@[j]).name@ == array.columns@[j].name@
                        &&& fields@[j].data_type == array.columns@[j].data_type
                        &&& fields@[j].nullable == (array.columns@[j].null_count > 0)
                        &&& fields@[j].metadata is None
                    },
            decreases n - i,
        {
            let column = &array.columns[i];
            let field = Field::from_column(column.name.as_str(), column);
            fields.push(field);
            i += 1;
        }
        Schema { fields, metadata: None }
    }
}

} // verus!
