//! Types shared between the verified core and the embedding application.

pub mod arrow;
pub mod errors;
pub mod package;
pub mod runtime;
pub mod tensors;

pub use arrow::{DataType, Field, Schema};
pub use errors::SerializableError;
pub use package::{Package, PackageView};
pub use runtime::{Analysis, ColumnMapping, Node, NodeKind, Pipeline};
pub use tensors::{Dimensions, ElementType};

use vstd::prelude::*;

verus! {

/// A page request against a stored dataset.
#[derive(Debug, Clone, PartialEq, Eq)]
pub struct PaginationConfig {
    /// The index of the first record to show.
    pub offset: Option<usize>,
    /// The maximum number of records in this page.
    pub max_records: Option<usize>,
}

} // verus!
