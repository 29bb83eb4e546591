//! The error taxonomy: construction-time errors fail router building
//! fast; request-time errors are returned to the caller per call and
//! never affect another request.

use vstd::prelude::*;

verus! {

/// A request-time error, returned to the caller of a dispatch.
#[derive(Clone, Copy, Debug, PartialEq, Eq, Structural)]
pub enum ExecError {
    /// The dispatch key and kind have no registered entry.
    ProcedureNotFoundErr,
    /// The raw argument does not decode against the expected schema.
    DeserializingArgErr,
    /// A produced value does not encode to the structured representation.
    SerializingResultErr,
    /// The handler's own declared failure, surfaced verbatim.
    ResolverErr,
}

/// A construction-time error: the router is defined once at startup, so
/// these abort initialization instead of being tolerated.
#[derive(Clone, Copy, Debug, PartialEq, Eq, Structural)]
pub enum BuildError {
    /// A procedure key violates the naming contract.
    InvalidKey,
    /// A second procedure was registered under one key within a store.
    DuplicateKey,
    /// A merge prefix violates the naming contract.
    InvalidPrefix,
}

} // verus!
