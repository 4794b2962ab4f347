//! The errors of the store under a replica.

use vstd::prelude::*;

use crate::storage::StorageError;

verus! {

pub enum Error {
    StorageError(StorageError),
}

impl From<StorageError> for Error {
    fn from(value: StorageError) -> (error: Self) {
        Self::StorageError(value)
    }
}

impl vstd::std_specs::convert::FromSpecImpl<StorageError> for Error {
    open spec fn obeys_from_spec() -> bool {
        true
    }

    open spec fn from_spec(value: StorageError) -> Self {
        Error::StorageError(value)
    }
}

} // verus!
