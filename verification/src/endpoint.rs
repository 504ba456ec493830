use vstd::prelude::*;

use crate::io_error::IoError;

verus! {

/// Why serving a connection to its endpoint failed.
#[derive(Debug)]
pub enum ServeError {
    IOError(IoError),
    /// The HTTP server failed; the description of why.
    Http(String),
}

} // verus!
