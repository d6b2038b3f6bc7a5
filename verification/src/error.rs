use vstd::prelude::*;

verus! {

/// Error taxonomy of the library.
///
/// `Connection` reports a transport or network failure (retryable by the
/// caller, never retried internally). `NotFound` reports the absence of a
/// collection or record. `SchemaMismatch` reports a dimensionality or
/// vector-name mismatch. `Provider` reports a non-success status from an
/// upstream embedding or chat service, with the status and message kept
/// verbatim.
#[derive(Debug, Clone, PartialEq, Eq)]
pub enum StoreError {
    Connection(String),
    NotFound(String),
    SchemaMismatch(String),
    Provider { status: u16, message: String },
}

impl StoreError {
    /// The detail text carried by the error.
    pub fn detail(&self) -> (r: String)
        ensures
            self is Connection ==> r@ == self->Connection_0@,
            self is NotFound ==> r@ == self->NotFound_0@,
            self is SchemaMismatch ==> r@ == self->SchemaMismatch_0@,
            self is Provider ==> r@ == self->Provider_message@,
    {
        match self {
            StoreError::Connection(m) => m.clone(),
            StoreError::NotFound(m) => m.clone(),
            StoreError::SchemaMismatch(m) => m.clone(),
            StoreError::Provider { status: _, message } => message.clone(),
        }
    }
}

} // verus!
