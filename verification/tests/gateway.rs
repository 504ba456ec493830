use kappa::convert::{KubeObjectMeta, KubePod, Pod};
use kappa::encap::{Destination, StreamRequest};
use kappa::gateway::{
    backend_step, bytes_to_write, first_frame, pod_of, port_of_destination, BackendAction,
    BackendEvent,
};
use kappa::grpc::{GrpcCode, Status};
use kappa::kube::KubeApiError;

fn dest(ns: Option<&str>, pod: Option<&str>, port: Option<u32>) -> Destination {
    Destination { namespace: ns.map(String::from), pod: pod.map(String::from), port }
}

#[test]
fn empty_stream_is_out_of_range() {
    let e = first_frame(None).unwrap_err();
    assert_eq!(e.code, GrpcCode::OutOfRange);
    assert_eq!(e.message, "Empty stream, no connection possible");
}

#[test]
fn first_frame_must_name_destination() {
    let e = first_frame(Some(Ok(StreamRequest { connect_to: None, b: None }))).unwrap_err();
    assert_eq!(e.code, GrpcCode::InvalidArgument);
    assert_eq!(e.message, "First frame of stream must have connect_to");
    let failed = Status { code: GrpcCode::Cancelled, message: "gone".to_string() };
    let e = first_frame(Some(Err(failed))).unwrap_err();
    assert_eq!(e.code, GrpcCode::Cancelled);
    let (d, b) = first_frame(Some(Ok(StreamRequest {
        connect_to: Some(dest(Some("ns"), Some("p"), Some(80))),
        b: Some(vec![1]),
    })))
    .unwrap();
    assert_eq!(d.port, Some(80));
    assert_eq!(b, Some(vec![1]));
}

#[test]
fn destination_defaults_and_port_checks() {
    assert_eq!(pod_of(&dest(None, None, None)), (String::new(), String::new()));
    let e = port_of_destination(&dest(None, None, None)).unwrap_err();
    assert_eq!((e.code, e.message.as_str()), (GrpcCode::InvalidArgument, "invalid port number"));
    assert!(port_of_destination(&dest(None, None, Some(65536))).is_err());
    assert_eq!(port_of_destination(&dest(None, None, Some(0))).unwrap(), 0);
}

#[test]
fn backend_events() {
    match backend_step(BackendEvent::Read(vec![1, 2])) {
        BackendAction::Yield(m) => assert_eq!(m.b, Some(vec![1, 2])),
        other => panic!("unexpected action {:?}", other),
    }
    assert!(matches!(backend_step(BackendEvent::Read(vec![])), BackendAction::Stop));
    assert!(matches!(backend_step(BackendEvent::WriterDone), BackendAction::Stop));
    match backend_step(BackendEvent::WriterLost("panicked".to_string())) {
        BackendAction::Fail(s) => assert_eq!((s.code, s.message.as_str()), (GrpcCode::Internal, "panicked")),
        other => panic!("unexpected action {:?}", other),
    }
    let s = Status { code: GrpcCode::Unavailable, message: "x".to_string() };
    assert!(matches!(backend_step(BackendEvent::ReadFailed(s)), BackendAction::Fail(t) if t.code == GrpcCode::Unavailable));
    assert_eq!(bytes_to_write(Some(vec![])), None);
    assert_eq!(bytes_to_write(None), None);
    assert_eq!(bytes_to_write(Some(vec![9])), Some(vec![9]));
}

#[test]
fn kube_errors_become_statuses() {
    let s = KubeApiError::Kube { api_code: Some(403), message: "forbidden".to_string() }.into_status();
    assert_eq!((s.code, s.message.as_str()), (GrpcCode::PermissionDenied, "forbidden"));
    let s = KubeApiError::Kube { api_code: Some(404), message: "nf".to_string() }.into_status();
    assert_eq!(s.code, GrpcCode::NotFound);
    let s = KubeApiError::Kube { api_code: Some(500), message: "x".to_string() }.into_status();
    assert_eq!(s.code, GrpcCode::Internal);
    let s = KubeApiError::Kube { api_code: None, message: "x".to_string() }.into_status();
    assert_eq!(s.code, GrpcCode::Internal);
    let s = KubeApiError::DeadlineExceeded("deadline has elapsed".to_string()).into_status();
    assert_eq!((s.code, s.message.as_str()), (GrpcCode::DeadlineExceeded, "deadline has elapsed"));
    let s = KubeApiError::MissingInformation.into_status();
    assert_eq!((s.code, s.message.as_str()), (GrpcCode::Unavailable, "Missing properties on k8s_openapi object"));
    let s = KubeApiError::AddrParseError("invalid IP address syntax".to_string()).into_status();
    assert_eq!(s.code, GrpcCode::Internal);
}

#[test]
fn pods_are_converted_keeping_order() {
    let p = Pod::from_kube(KubePod {
        metadata: KubeObjectMeta {
            namespace: Some("ns".to_string()),
            name: Some("web".to_string()),
            annotations: Some(vec![("a".to_string(), "1".to_string()), ("b".to_string(), "2".to_string())]),
            labels: None,
        },
    });
    let m = p.metadata.unwrap();
    assert_eq!(m.namespace.as_deref(), Some("ns"));
    assert_eq!(m.name.as_deref(), Some("web"));
    assert_eq!(m.annotations.len(), 2);
    assert_eq!(m.annotations[0].key.as_deref(), Some("a"));
    assert_eq!(m.annotations[1].value.as_deref(), Some("2"));
    assert!(m.labels.is_empty());
}
