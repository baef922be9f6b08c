use vstd::prelude::*;

use crate::shared::arrow::{Schema, StructArrayInfo};
use crate::shared::tensors::ElementType;

verus! {

/// One page of a stored dataset.
#[derive(Debug, Clone)]
pub struct DatasetPage {
    pub total_records: usize,
    /// The page's records, serialized in the columnar interchange
    /// format.
    pub table: Vec<u8>,
}

/// One tensor registered over a dataset.
#[derive(Debug, Clone)]
pub struct TensorInfo {
    pub id: String,
    pub display_name: String,
    pub dimensions: Vec<usize>,
    pub element_type: ElementType,
}

/// What is known of a stored dataset.
#[derive(Debug)]
pub struct DatasetInfo {
    pub id: String,
    pub display_name: String,
    pub num_rows: usize,
    pub schema: Schema,
    pub registered_tensors: Vec<TensorInfo>,
}

impl DatasetInfo {
    /// Describe a dataset: its identifier, its display name, the schema
    /// and row count of its records, and its registered tensors.
    pub fn new(id: String, name: &str, records: &StructArrayInfo, tensors: Vec<TensorInfo>) -> (r:
        DatasetInfo)
        ensures
            r.id == id,
            r.display_name@ == name@,
            r.num_rows == records.num_rows,
            r.registered_tensors == tensors,
            r.schema.fields@.len() == records.columns@.len(),
            forall|i: int|
                0 <= i < r.schema.fields@.len() ==> {
                    &&& (#[trigger] r.schema.fields@[i]).name@ == records.columns@[i].name@
                    &&& r.schema.fields@[i].data_type == records.columns@[i].data_type
                    &&& r.schema.fields@[i].nullable == (records.columns@[i].null_count > 0)
                },
    {
        let schema = Schema::for_struct_array(records);
        DatasetInfo {
            id,
            display_name: String::from_str(name),
            num_rows: records.num_rows,
            schema,
            registered_tensors: tensors,
        }
    }
}

} // verus!
