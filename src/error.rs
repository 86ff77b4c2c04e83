//! The ways a request can fail.

use vstd::prelude::*;

verus! {

/// Why a request was refused. Every error aborts the whole request.
#[derive(Clone, Copy, Debug, PartialEq, Eq, Structural)]
pub enum ProofError {
    /// Malformed, truncated or over-long request or record bytes.
    DecodeError,
    /// Fewer accounts supplied than the request's roles.
    MissingAccount,
    /// The funding authority is not the expected identity, or the slot is
    /// not owned by this program.
    IncorrectAuthority,
    /// The payer did not sign the request.
    MissingSignature,
    /// The slot decodes, but no record was ever written into it.
    UninitializedAccount,
    /// The payer cannot fund the slot, or the slot is already allocated.
    AllocationError,
    /// The record does not fit the slot's fixed capacity.
    CapacityExceeded,
}

} // verus!
