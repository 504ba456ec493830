use kappa::acl::SimpleACL;
use kappa::encap::{Destination, StreamRequest};
use kappa::gateway::{
    gateway_step, write_step, GatewayAction, GatewayEvent, GatewayState, WriteAction,
};
use kappa::grpc::{GrpcCode, Status};
use kappa::kube::{pod_ip_text, KubeApiError, KubePodStatus};

const CERT_WITH_URI_SAN: &str = "3082017030820115a003020102021459359ec9064a5bc1ba6fbe1895cc1a5d97225c05300a06082a8648ce3d0403023011310f300d06035504030c06636c69656e743020170d3236313131373232313231375a180f32313236313032343232313231375a3011310f300d06035504030c06636c69656e743059301306072a8648ce3d020106082a8648ce3d03010703420004f0bd88ee4d106b86391d860dccbee6e03fb170efd841eb803554e4008b527f6a9fdfcaf092e1d93a8ceea09c860119e47605823a74bd3e7147fc7952e995a3e4a349304730260603551d11041f301d861b7370696666653a2f2f6578616d706c652e6f72672f636c69656e74301d0603551d0e04160414d77f6da93bdcc379507e35102d2255eb82894bf6300a06082a8648ce3d0403020349003046022100f3aefe13e8179c96f706430c62d98e8379c2916d9927c1c7f8fe7245a1816b510221009740fd3c994ffb48210021b77a9414b95dfec2184d68a5fd5a26beed531f9a2b";

fn bytes(hex: &str) -> Vec<u8> {
    (0..hex.len()).step_by(2).map(|i| u8::from_str_radix(&hex[i..i + 2], 16).unwrap()).collect()
}

fn request(dest: Option<Destination>, b: &[u8]) -> StreamRequest {
    StreamRequest { connect_to: dest, b: Some(b.to_vec()) }
}

fn web(port: Option<u32>) -> Destination {
    Destination { namespace: Some("ns".to_string()), pod: Some("web".to_string()), port }
}

fn admitted(acl: &SimpleACL) -> GatewayState {
    let (state, action) =
        gateway_step(acl, GatewayState::AwaitPeer, GatewayEvent::Peer(Some(vec![bytes(CERT_WITH_URI_SAN)])));
    assert!(matches!(action, GatewayAction::ReadFirstFrame));
    state
}

fn looking_up(acl: &SimpleACL, port: Option<u32>) -> GatewayState {
    let (state, action) = gateway_step(
        acl,
        admitted(acl),
        GatewayEvent::FirstFrame(Some(Ok(request(Some(web(port)), b"hello")))),
    );
    match action {
        GatewayAction::LookUpPod { namespace, pod } => {
            assert_eq!(namespace, "ns");
            assert_eq!(pod, "web");
        }
        other => panic!("expected a lookup, got {other:?}"),
    }
    state
}

#[test]
fn refused_client_ends_before_anything_is_read() {
    let acl = SimpleACL::new(vec!["spiffe://example.org/other".parse().unwrap()]);
    let (state, action) =
        gateway_step(&acl, GatewayState::AwaitPeer, GatewayEvent::Peer(Some(vec![bytes(CERT_WITH_URI_SAN)])));
    assert!(matches!(state, GatewayState::Done));
    match action {
        GatewayAction::Fail(s) => {
            assert_eq!(s.code, GrpcCode::PermissionDenied);
            assert_eq!(s.message, "Client not allowed");
        }
        other => panic!("expected a refusal, got {other:?}"),
    }
    let (state, action) = gateway_step(&acl, GatewayState::AwaitPeer, GatewayEvent::Peer(None));
    assert!(matches!(state, GatewayState::Done));
    assert!(matches!(action, GatewayAction::Fail(Status { code: GrpcCode::PermissionDenied, .. })));
}

#[test]
fn admitted_client_is_connected_to_the_pod_port() {
    let acl = SimpleACL::new(vec!["spiffe://example.org/client".parse().unwrap()]);
    let state = admitted(&acl);
    match &state {
        GatewayState::AwaitFirstFrame { peer } => assert_eq!(peer.to_string(), "spiffe://example.org/client"),
        other => panic!("expected to wait for the first message, got {other:?}"),
    }
    let state = looking_up(&acl, Some(8080));
    let (state, action) = gateway_step(&acl, state, GatewayEvent::PodAddress(Ok(())));
    assert!(matches!(state, GatewayState::Done));
    match action {
        GatewayAction::Connect { peer, dest, port, first_bytes } => {
            assert_eq!(peer.to_string(), "spiffe://example.org/client");
            assert_eq!(dest.pod.as_deref(), Some("web"));
            assert_eq!(port, 8080);
            assert_eq!(first_bytes, Some(b"hello".to_vec()));
        }
        other => panic!("expected a connection, got {other:?}"),
    }
}

#[test]
fn first_frame_failures_end_the_stream() {
    let acl = SimpleACL::new(vec![]);
    let (state, action) = gateway_step(&acl, admitted(&acl), GatewayEvent::FirstFrame(None));
    assert!(matches!(state, GatewayState::Done));
    match action {
        GatewayAction::Fail(s) => {
            assert_eq!(s.code, GrpcCode::OutOfRange);
            assert_eq!(s.message, "Empty stream, no connection possible");
        }
        other => panic!("expected a failure, got {other:?}"),
    }
    let (_, action) = gateway_step(
        &acl,
        admitted(&acl),
        GatewayEvent::FirstFrame(Some(Ok(request(None, b"x")))),
    );
    match action {
        GatewayAction::Fail(s) => {
            assert_eq!(s.code, GrpcCode::InvalidArgument);
            assert_eq!(s.message, "First frame of stream must have connect_to");
        }
        other => panic!("expected a failure, got {other:?}"),
    }
    let (_, action) = gateway_step(
        &acl,
        admitted(&acl),
        GatewayEvent::FirstFrame(Some(Err(Status { code: GrpcCode::Cancelled, message: "gone".to_string() }))),
    );
    match action {
        GatewayAction::Fail(s) => {
            assert_eq!(s.code, GrpcCode::Cancelled);
            assert_eq!(s.message, "gone");
        }
        other => panic!("expected a failure, got {other:?}"),
    }
}

#[test]
fn failed_lookup_and_bad_port_end_the_stream() {
    let acl = SimpleACL::new(vec![]);
    let (state, action) = gateway_step(
        &acl,
        looking_up(&acl, Some(80)),
        GatewayEvent::PodAddress(Err(KubeApiError::Kube { api_code: Some(404), message: "no pod".to_string() })),
    );
    assert!(matches!(state, GatewayState::Done));
    match action {
        GatewayAction::Fail(s) => {
            assert_eq!(s.code, GrpcCode::NotFound);
            assert_eq!(s.message, "no pod");
        }
        other => panic!("expected a failure, got {other:?}"),
    }
    for port in [None, Some(65536)] {
        let (_, action) = gateway_step(&acl, looking_up(&acl, port), GatewayEvent::PodAddress(Ok(())));
        match action {
            GatewayAction::Fail(s) => {
                assert_eq!(s.code, GrpcCode::InvalidArgument);
                assert_eq!(s.message, "invalid port number");
            }
            other => panic!("expected a failure, got {other:?}"),
        }
    }
}

#[test]
fn write_step_writes_bytes_skips_empty_and_stops() {
    match write_step(Some(Ok(request(None, b"abc")))) {
        WriteAction::Write(v) => assert_eq!(v, b"abc".to_vec()),
        other => panic!("expected a write, got {other:?}"),
    }
    assert!(matches!(write_step(Some(Ok(request(None, b"")))), WriteAction::Skip));
    assert!(matches!(
        write_step(Some(Ok(StreamRequest { connect_to: None, b: None }))),
        WriteAction::Skip
    ));
    assert!(matches!(write_step(None), WriteAction::Finish));
    match write_step(Some(Err(Status { code: GrpcCode::Aborted, message: "stop".to_string() }))) {
        WriteAction::Fail(s) => {
            assert_eq!(s.code, GrpcCode::Aborted);
            assert_eq!(s.message, "stop");
        }
        other => panic!("expected a failure, got {other:?}"),
    }
}

#[test]
fn pod_ip_needs_a_status_with_an_address() {
    assert!(matches!(pod_ip_text(None), Err(KubeApiError::MissingInformation)));
    assert!(matches!(
        pod_ip_text(Some(KubePodStatus { pod_ip: None })),
        Err(KubeApiError::MissingInformation)
    ));
    assert_eq!(
        pod_ip_text(Some(KubePodStatus { pod_ip: Some("10.0.0.7".to_string()) })).unwrap(),
        "10.0.0.7"
    );
    let s = KubeApiError::MissingInformation.into_status();
    assert_eq!(s.code, GrpcCode::Unavailable);
    assert_eq!(s.message, "Missing properties on k8s_openapi object");
}
