use vstd::prelude::*;
use vstd::string::StringExecFns;

use crate::grpc::{GrpcCode, Status};

verus! {

/// Why a request to the Kubernetes API failed. Each variant carries the
/// description of the underlying failure.
#[derive(Debug)]
pub enum KubeApiError {
    /// The Kubernetes client failed; `api_code` is the HTTP status of the
    /// response where the API server answered with an error.
    Kube { api_code: Option<u16>, message: String },
    DeadlineExceeded(String),
    MissingInformation,
    AddrParseError(String),
}

pub open spec fn missing_information_message() -> Seq<char> {
    "Missing properties on k8s_openapi object"@
}

/// The gRPC status that reports a failed Kubernetes request: a refusal (403) is
/// "permission denied", an absent object (404) "not found", a timeout "deadline
/// exceeded", missing properties "unavailable", and anything else "internal".
pub open spec fn kube_error_status(e: KubeApiError) -> (GrpcCode, Seq<char>) {
    match e {
        KubeApiError::Kube { api_code, message } => (
            match api_code {
                Some(c) => if c == 403 {
                    GrpcCode::PermissionDenied
                } else if c == 404 {
                    GrpcCode::NotFound
                } else {
                    GrpcCode::Internal
                },
                None => GrpcCode::Internal,
            },
            message@,
        ),
        KubeApiError::DeadlineExceeded(m) => (GrpcCode::DeadlineExceeded, m@),
        KubeApiError::MissingInformation => (GrpcCode::Unavailable, missing_information_message()),
        KubeApiError::AddrParseError(m) => (GrpcCode::Internal, m@),
    }
}

impl KubeApiError {
    /// The gRPC status that reports this failure.
    pub fn into_status(self) -> (r: Status)
        ensures
            (r.code, r.message@) == kube_error_status(self),
            (r.code == GrpcCode::PermissionDenied) <==> (self matches KubeApiError::Kube {
                api_code: Some(c),
                ..
            } && c == 403),
            (r.code == GrpcCode::NotFound) <==> (self matches KubeApiError::Kube {
                api_code: Some(c),
                ..
            } && c == 404),
            (r.code == GrpcCode::DeadlineExceeded) <==> (self is DeadlineExceeded),
            (r.code == GrpcCode::Unavailable) <==> (self is MissingInformation),
            r.code == GrpcCode::PermissionDenied || r.code == GrpcCode::NotFound || r.code
                == GrpcCode::DeadlineExceeded || r.code == GrpcCode::Unavailable || r.code
                == GrpcCode::Internal,
            self matches KubeApiError::Kube { message, .. } ==> r.message == message,
            self matches KubeApiError::DeadlineExceeded(m) ==> r.message == m,
            self matches KubeApiError::AddrParseError(m) ==> r.message == m,
    {
        match self {
            KubeApiError::Kube { api_code, message } => {
                let code = match api_code {
                    Some(c) => if c == 403 {
                        GrpcCode::PermissionDenied
                    } else if c == 404 {
                        GrpcCode::NotFound
                    } else {
                        GrpcCode::Internal
                    },
                    None => GrpcCode::Internal,
                };
                Status { code, message }
            },
            KubeApiError::DeadlineExceeded(m) => Status { code: GrpcCode::DeadlineExceeded, message: m },
            KubeApiError::MissingInformation => Status {
                code: GrpcCode::Unavailable,
                message: String::from_str("Missing properties on k8s_openapi object"),
            },
            KubeApiError::AddrParseError(m) => Status { code: GrpcCode::Internal, message: m },
        }
    }
}

/// What the gateway reads from a pod's status: its IP address, as the API
/// server wrote it.
#[derive(Debug)]
pub struct KubePodStatus {
    pub pod_ip: Option<String>,
}

/// The text of a pod's IP address: missing information where the pod has no
/// status or its status no IP address.
pub fn pod_ip_text(status: Option<KubePodStatus>) -> (r: Result<String, KubeApiError>)
    ensures
        match status {
            Some(KubePodStatus { pod_ip: Some(t) }) => r matches Ok(s) && s == t,
            _ => r matches Err(KubeApiError::MissingInformation),
        },
{
    match status {
        Some(s) => match s.pod_ip {
            Some(t) => Ok(t),
            None => Err(KubeApiError::MissingInformation),
        },
        None => Err(KubeApiError::MissingInformation),
    }
}

} // verus!
