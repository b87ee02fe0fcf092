//! The ways in which the engine refuses a request.

use vstd::prelude::*;

verus! {

/// Why a request was refused. Each kind is distinct, so that a client can
/// explain why a query did not run.
#[derive(Debug, PartialEq)]
pub enum QueryError {
    /// A statement that should be a read has no `from` clause.
    ParseFailure,
    /// A table that the catalog does not hold.
    UnknownTable(String),
    /// A column that the named table does not hold.
    UnknownColumn { table: String, column: String },
    /// A column asked for without an allowed aggregate around it, or `*`.
    RawColumnRequested(String),
    /// A referenced table whose remaining budget is used up.
    InsufficientBudget(String),
    /// A column whose sensitivity is unbounded, which no noise can cover.
    UnboundedSensitivity(String),
    /// A failure that the execution or introspection collaborator reported.
    ConnectorFailure(String),
    /// No store is connected.
    NotConnected,
}

} // verus!
