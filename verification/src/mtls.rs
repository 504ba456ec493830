use vstd::prelude::*;

verus! {

/// Why a TLS layer could not be added to a connection: the TLS configuration
/// refused the server identity, or the server name is not a valid DNS name.
/// Each variant carries the description of the underlying failure.
#[derive(Debug)]
pub enum AddMtlsError {
    Comprehensive(String),
    ServerName(String),
}

} // verus!
