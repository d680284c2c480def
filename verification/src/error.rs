//! Error taxonomy of the execution core.

use vstd::prelude::*;

verus! {

/// Field/identity errors: fatal to the request that raised them.
#[derive(Debug, Clone)]
pub enum DomainError {
    /// A named field is absent from a record's known field list.
    FieldNotFound { name: String, model: String },
}

/// Errors of the graph, interpreter and transaction layers.
#[derive(Debug)]
pub enum CoreError {
    /// The dependency graph has an edge that runs against construction order
    /// or points outside the node list: its dependency structure is cyclic or
    /// unreachable.
    InvalidGraph,
    /// The graph was handed to the compiler without a finalize pass.
    GraphNotFinalized,
    /// An argument placeholder referenced a binding that no enclosing
    /// sequence had produced.
    BindingNotFound { name: String },
    /// A named field is absent from a record's known field list.
    FieldNotFound { name: String },
    /// A mandatory data edge's source produced no rows.
    RecordNotFound,
    /// The interpreter exceeded its configured recursion depth.
    DepthLimitExceeded,
    /// No connection could be acquired within the allowed time.
    TransactionAcquisitionTimeout,
    /// The given transaction id names no open transaction: it was never
    /// issued, or was already committed or rolled back.
    TransactionNotFound,
    /// In a transactional batch, a sibling operation failed, so this
    /// operation's effects were rolled back or it was never run.
    OperationNotApplied,
}

impl Clone for CoreError {
    fn clone(&self) -> (r: Self)
        ensures
            r == *self,
    {
        match self {
            CoreError::InvalidGraph => CoreError::InvalidGraph,
            CoreError::GraphNotFinalized => CoreError::GraphNotFinalized,
            CoreError::BindingNotFound { name } => CoreError::BindingNotFound {
                name: name.clone(),
            },
            CoreError::FieldNotFound { name } => CoreError::FieldNotFound { name: name.clone() },
            CoreError::RecordNotFound => CoreError::RecordNotFound,
            CoreError::DepthLimitExceeded => CoreError::DepthLimitExceeded,
            CoreError::TransactionAcquisitionTimeout => CoreError::TransactionAcquisitionTimeout,
            CoreError::TransactionNotFound => CoreError::TransactionNotFound,
            CoreError::OperationNotApplied => CoreError::OperationNotApplied,
        }
    }
}

impl CoreError {
    /// Lift a field/identity error into the core taxonomy unchanged.
    pub fn from_domain(err: DomainError) -> (r: CoreError)
        ensures
            match err {
                DomainError::FieldNotFound { name, model } => r == (CoreError::FieldNotFound {
                    name,
                }),
            },
    {
        match err {
            DomainError::FieldNotFound { name, model: _ } => CoreError::FieldNotFound { name },
        }
    }
}

} // verus!
