//! The application's state machine, as the replica sees it.

use std::rc::Rc;
use vstd::prelude::*;

verus! {

pub type StateResult<T> = Result<T, StateError>;

/// Applies committed operations. The replica hands over each committed
/// operation once, in log order, in batches that never overlap.
pub trait StateMachine<O, OR> {
    /// Applies `operations` in the given order and returns one result for
    /// each. An error means that none of them was applied.
    fn apply_operations(&self, operations: &[Rc<O>]) -> StateResult<Vec<OR>>;
}

#[derive(Debug, Clone, Copy, PartialEq, Eq, Structural)]
pub enum StateError {
    /// The state machine could not apply the batch.
    Rejected,
}

} // verus!
