//! The error surface of the store.
//!
//! Absence is always distinguishable from failure: a missing key is
//! `NotFound`, a storage-engine failure (pool exhaustion, constraint
//! violation, sequence exhaustion) is `DatabaseError`, a stored document
//! that cannot be decoded is `JsonError`, and an unresolved piece of
//! configuration is `EnvVarError`.

use vstd::prelude::*;

verus! {

#[derive(Debug)]
pub enum StoreErrorType {
    DatabaseError(String),
    NotFound(String),
    JsonError(String),
    EnvVarError(String),
}

impl StoreErrorType {
    /// The human-readable detail carried by the error.
    pub open spec fn detail(&self) -> Seq<char> {
        match self {
            StoreErrorType::DatabaseError(s) => s@,
            StoreErrorType::NotFound(s) => s@,
            StoreErrorType::JsonError(s) => s@,
            StoreErrorType::EnvVarError(s) => s@,
        }
    }

    /// Returns the detail text of the error.
    pub fn message(&self) -> (r: String)
        ensures
            r@ == self.detail(),
    {
        match self {
            StoreErrorType::DatabaseError(s) => s.clone(),
            StoreErrorType::NotFound(s) => s.clone(),
            StoreErrorType::JsonError(s) => s.clone(),
            StoreErrorType::EnvVarError(s) => s.clone(),
        }
    }
}

} // verus!
