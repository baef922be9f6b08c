//! Verified core of a WASM processing-block workbench: an asset resolver
//! with a freshness-aware download cache, and a synchronization pipeline
//! that keeps a local catalog of downloadable packages in step with a
//! remote registry.
//!
//! All network and file transfer is performed by the embedding
//! application; the modules here hold the decisions: how a URI is taken
//! apart, when a cached payload may be served without a request, what a
//! registry answer means, which packages must be downloaded, and how the
//! catalog and the progress report change with every completed transfer.

pub mod catalog;
pub mod datasets;
pub mod errors;
pub mod legacy;
pub mod resolver;
pub mod shared;
pub mod sql;
pub mod sync;
pub mod text;
pub mod uri;
pub mod wapm;

pub use crate::catalog::{Catalog, CatalogEntry, CatalogRow};
pub use crate::datasets::{DatasetInfo, DatasetPage, TensorInfo};
pub use crate::errors::ResolveError;
pub use crate::resolver::{Cache, CachingStrategy};
pub use crate::shared::Package;
pub use crate::sync::{ProgressEvent, SyncPipeline, SyncState};
pub use crate::wapm::{fetch_packages, GetNamespace};
