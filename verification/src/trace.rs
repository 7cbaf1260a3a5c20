//! The denom trace query: a read-only pass-through resolver.
//!
//! An external chain-introspection module is asked for the trace record of
//! an opaque denomination hash; the caller performs that request and hands
//! the outcome here. If the module reported no record, the query fails with
//! a generic "not found" error; otherwise the base denomination is
//! extracted from the record and returned. No registry state is read or
//! written.

use vstd::prelude::*;

use crate::errors::StdError;

verus! {

/// The trace record an external chain module reports for a wrapped
/// denomination: the path it travelled and the denomination it was minted
/// under on its origin chain.
#[derive(Debug, Clone, PartialEq, Eq)]
pub struct DenomTrace {
    pub path: String,
    pub base_denom: String,
}

/// Extracts the base denomination from the trace record the external module
/// reported, or fails with a generic error if it reported none.
pub fn query_denom_trace(denom_trace: Option<DenomTrace>) -> (result: Result<String, StdError>)
    ensures
        denom_trace matches Some(trace) ==> result == Ok::<String, StdError>(trace.base_denom),
        denom_trace is None ==> (result matches Err(StdError::GenericErr { msg }) && msg@
            == "No denom trace found"@),
{
    match denom_trace {
        Some(trace) => Ok(trace.base_denom),
        None => Err(StdError::GenericErr { msg: "No denom trace found".to_owned() }),
    }
}

} // verus!
