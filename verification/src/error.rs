//! The error type shared by the codecs and the client.

use vstd::prelude::*;

verus! {

/// Errors of the RPC layer, each carrying a description.
#[derive(Debug, PartialEq, Eq)]
pub enum RpcError<T> {
    /// A request could not be understood.
    InvalidRequest(T),
    /// A response could not be understood.
    InvalidResponse(T),
    /// Anything else that went wrong.
    InternalError(T),
}

} // verus!
