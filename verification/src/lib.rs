pub mod text;
pub mod uri;
pub mod io_error;
pub mod mtls;
pub mod router;
pub mod socks_proto;
pub mod socks_server;
pub mod grpc;
pub mod encap;
pub mod error_server;
pub mod acl;
pub mod gateway;
pub mod kube;
pub mod convert;
pub mod endpoint;
