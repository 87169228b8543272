use vstd::prelude::*;

verus! {

/// Errors surfaced by the contract's operations.
///
/// Every failing operation aborts immediately and leaves the persisted
/// record unchanged; no partial state is ever committed.
#[derive(Clone, Copy, Debug, PartialEq, Eq, Structural)]
pub enum ContractError {
    /// A mutation was attempted by a caller other than the record's owner.
    Unauthorized,
    /// No record has been persisted yet.
    NotFound,
    /// A decimal string handed to aggregation was malformed.
    ParseError,
    /// Aggregation was asked to average zero entries.
    EmptyInput,
}

} // verus!
