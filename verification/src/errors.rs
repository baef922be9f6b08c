use vstd::prelude::*;

verus! {

/// The failure kinds of the resolver and the catalog-sync pipeline.
///
/// `UnsupportedScheme` carries the scheme that was not recognised,
/// `MalformedReference` the package path or query that could not be read,
/// `Transport` a description of a failed network or file transfer,
/// `NotFound` the asset that was missing, `RegistryError` the complaint of
/// the remote registry, and `CatalogError` a failure of the local catalog
/// store.
#[derive(Debug, Clone, PartialEq, Eq)]
pub enum ResolveError {
    UnsupportedScheme(String),
    MalformedReference(String),
    Transport(String),
    NotFound(String),
    RegistryError(String),
    CatalogError(String),
}

impl ResolveError {
    /// A human-readable account of the error, in place of `Display`.
    pub fn describe(&self) -> (r: String)
        ensures
            match self {
                ResolveError::UnsupportedScheme(s) => r@ == "unsupported scheme: "@ + s@,
                ResolveError::MalformedReference(s) => r@ == "malformed reference: "@ + s@,
                ResolveError::Transport(s) => r@ == "transport failure: "@ + s@,
                ResolveError::NotFound(s) => r@ == "not found: "@ + s@,
                ResolveError::RegistryError(s) => r@ == "registry error: "@ + s@,
                ResolveError::CatalogError(s) => r@ == "catalog error: "@ + s@,
            },
    {
        match self {
            ResolveError::UnsupportedScheme(s) => String::from_str("unsupported scheme: ").concat(s.as_str()),
            ResolveError::MalformedReference(s) => String::from_str("malformed reference: ").concat(s.as_str()),
            ResolveError::Transport(s) => String::from_str("transport failure: ").concat(s.as_str()),
            ResolveError::NotFound(s) => String::from_str("not found: ").concat(s.as_str()),
            ResolveError::RegistryError(s) => String::from_str("registry error: ").concat(s.as_str()),
            ResolveError::CatalogError(s) => String::from_str("catalog error: ").concat(s.as_str()),
        }
    }
}

} // verus!
