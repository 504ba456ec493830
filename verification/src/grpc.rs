use vstd::prelude::*;

verus! {

/// The status codes of gRPC (`Success` is the code named `OK`).
#[derive(Debug, Clone, Copy, PartialEq, Eq, Structural)]
pub enum GrpcCode {
    Success,
    Cancelled,
    Unknown,
    InvalidArgument,
    DeadlineExceeded,
    NotFound,
    AlreadyExists,
    PermissionDenied,
    ResourceExhausted,
    FailedPrecondition,
    Aborted,
    OutOfRange,
    Unimplemented,
    Internal,
    Unavailable,
    DataLoss,
    Unauthenticated,
}

/// A gRPC status: a code and a message.
#[derive(Debug)]
pub struct Status {
    pub code: GrpcCode,
    pub message: String,
}

} // verus!
