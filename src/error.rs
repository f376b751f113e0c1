use vstd::prelude::*;

verus! {

/// Every failure of a load or a rendering. None is retried: each one ends
/// the whole operation and reaches the caller unchanged.
#[derive(Debug, Clone, PartialEq, Eq)]
pub enum SqlantError {
    /// The database could not be reached or a query failed.
    Postgres(String),
    /// The TLS connector could not be set up.
    TlsConnector(String),
    /// The requested schema is not in the catalog.
    SchemaNotFound(String),
    /// The catalog answered something the loader cannot accept.
    PsqlErdLoader(String),
    /// A diagram could not be produced.
    Generator(String),
}

} // verus!
