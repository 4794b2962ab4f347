//! What the channel between replicas reports back.

use vstd::prelude::*;

verus! {

pub type TransportResult<T> = Result<T, TransportError>;

#[derive(Debug, Clone, Copy, PartialEq, Eq, Structural)]
pub enum TransportError {
    /// The channel to the other replicas is gone.
    Disconnected,
}

} // verus!
