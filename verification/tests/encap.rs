use kappa::encap::{
    concat_chunks, destination, status_to_io, PollState, ReadBuffer, ReadStep, StreamResponse,
    ToGateway, ToGatewayStream,
};
use kappa::grpc::Status;
use kappa::gateway::{pod_of, port_of_destination};
use kappa::grpc::GrpcCode;
use kappa::io_error::IoErrorKind;

#[test]
fn written_bytes_come_out_in_order() {
    let mut q: ToGateway<u32> = ToGateway::new();
    let w = q.poll_write(1, b"hello ");
    assert_eq!(w.poll, PollState::Ready(6));
    assert!(w.wake.is_none());
    let w = q.poll_write(2, b"world");
    assert_eq!(w.poll, PollState::Ready(5));
    let n = q.poll_next(3);
    match n.poll {
        PollState::Ready(Some(batch)) => assert_eq!(concat_chunks(batch), b"hello world".to_vec()),
        _ => panic!("expected a batch"),
    }
    assert!(n.wake.is_none());
}

#[test]
fn reader_waits_for_data_and_writer_wakes_nobody_until_flush() {
    let mut q: ToGateway<u32> = ToGateway::new();
    let n = q.poll_next(7);
    assert!(matches!(n.poll, PollState::Pending));
    assert!(n.wake.is_none());
    let w = q.poll_write(8, b"x");
    assert_eq!(w.poll, PollState::Ready(1));
    let f = q.poll_flush(9);
    assert_eq!(f.poll, PollState::Pending);
    assert_eq!(f.wake, Some(7));
    let n = q.poll_next(10);
    assert!(matches!(n.poll, PollState::Ready(Some(_))));
    let f = q.poll_flush(11);
    assert_eq!(f.poll, PollState::Ready(()));
}

#[test]
fn reader_wakes_parked_writer() {
    let mut q: ToGateway<u32> = ToGateway::new();
    let _ = q.poll_write(1, b"abc");
    let f = q.poll_flush(2);
    assert_eq!(f.poll, PollState::Pending);
    let _ = q.poll_next(3);
    let n = q.poll_next(4);
    assert!(matches!(n.poll, PollState::Pending));
    assert_eq!(n.wake, Some(2));
}

#[test]
fn full_queue_makes_writer_wait() {
    let mut q: ToGateway<u32> = ToGateway::new();
    let big = vec![7u8; 500];
    assert_eq!(q.poll_write(1, &big).poll, PollState::Ready(500));
    let w = q.poll_write(2, b"more");
    assert_eq!(w.poll, PollState::Pending);
    let n = q.poll_next(3);
    assert!(matches!(n.poll, PollState::Ready(Some(ref b)) if b.len() == 1));
    assert_eq!(q.poll_write(4, b"more").poll, PollState::Ready(4));
}

#[test]
fn queue_below_limit_accepts_large_write() {
    let mut q: ToGateway<u32> = ToGateway::new();
    assert_eq!(q.poll_write(1, &vec![1u8; 499]).poll, PollState::Ready(499));
    assert_eq!(q.poll_write(1, &vec![1u8; 1000]).poll, PollState::Ready(1000));
}

#[test]
fn shutdown_ends_the_stream_after_the_data() {
    let mut q: ToGateway<u32> = ToGateway::new();
    let _ = q.poll_write(1, b"last");
    assert_eq!(q.poll_shutdown(2).poll, PollState::Pending);
    assert!(matches!(q.poll_next(3).poll, PollState::Ready(Some(_))));
    assert!(matches!(q.poll_next(4).poll, PollState::Ready(None)));
    assert_eq!(q.poll_shutdown(5).poll, PollState::Ready(()));
}

#[test]
fn only_the_first_request_names_the_destination() {
    let mut s = ToGatewayStream::new(destination("ns".to_string(), "pod".to_string(), 8080));
    let first = s.request_for(vec![b"ab".to_vec(), b"cd".to_vec()]);
    let d = first.connect_to.expect("destination in first request");
    assert_eq!(d.namespace.as_deref(), Some("ns"));
    assert_eq!(d.pod.as_deref(), Some("pod"));
    assert_eq!(d.port, Some(8080));
    assert_eq!(first.b, Some(b"abcd".to_vec()));
    let second = s.request_for(vec![]);
    assert!(second.connect_to.is_none());
    assert_eq!(second.b, Some(vec![]));
}

#[test]
fn destination_round_trips_through_the_gateway() {
    let d = destination("default".to_string(), "web-0".to_string(), 65535);
    assert_eq!(port_of_destination(&d).unwrap(), 65535);
    assert_eq!(pod_of(&d), ("default".to_string(), "web-0".to_string()));
}

#[test]
fn frames_are_handed_out_as_room_allows() {
    let mut r = ReadBuffer::new();
    assert!(!r.has_leftover());
    assert_eq!(r.take_leftover(10), None);
    assert_eq!(r.accept_frame(vec![], 10), None);
    assert_eq!(r.accept_frame(b"abcdef".to_vec(), 4), Some(b"abcd".to_vec()));
    assert!(r.has_leftover());
    assert_eq!(r.take_leftover(1), Some(b"e".to_vec()));
    assert_eq!(r.take_leftover(0), Some(vec![]));
    assert_eq!(r.take_leftover(8), Some(b"f".to_vec()));
    assert!(!r.has_leftover());
    assert_eq!(r.accept_frame(b"xy".to_vec(), 2), Some(b"xy".to_vec()));
    assert!(!r.has_leftover());
    assert_eq!(r.accept_frame(b"xy".to_vec(), 0), Some(vec![]));
    assert_eq!(r.take_leftover(5), Some(b"xy".to_vec()));
}

#[test]
fn grpc_codes_become_io_kinds() {
    assert_eq!(status_to_io(GrpcCode::InvalidArgument), IoErrorKind::InvalidInput);
    assert_eq!(status_to_io(GrpcCode::FailedPrecondition), IoErrorKind::InvalidInput);
    assert_eq!(status_to_io(GrpcCode::DeadlineExceeded), IoErrorKind::TimedOut);
    assert_eq!(status_to_io(GrpcCode::NotFound), IoErrorKind::NotFound);
    assert_eq!(status_to_io(GrpcCode::AlreadyExists), IoErrorKind::AlreadyExists);
    assert_eq!(status_to_io(GrpcCode::PermissionDenied), IoErrorKind::PermissionDenied);
    assert_eq!(status_to_io(GrpcCode::Unauthenticated), IoErrorKind::PermissionDenied);
    assert_eq!(status_to_io(GrpcCode::ResourceExhausted), IoErrorKind::QuotaExceeded);
    assert_eq!(status_to_io(GrpcCode::Internal), IoErrorKind::Other);
    assert_eq!(status_to_io(GrpcCode::Success), IoErrorKind::Other);
}

#[test]
fn concat_joins_chunks() {
    assert_eq!(concat_chunks(vec![]), Vec::<u8>::new());
    assert_eq!(concat_chunks(vec![vec![1], vec![], vec![2, 3]]), vec![1, 2, 3]);
}

#[test]
fn empty_write_from_tunnel_touches_nothing() {
    let mut q: ToGateway<u32> = ToGateway::new();
    let w = q.write_from_tunnel(1, b"");
    assert_eq!(w.poll, PollState::Ready(0));
    assert!(w.wake.is_none());
    // The queue is still empty and open: the reader waits, and nobody is woken.
    let n = q.poll_next(2);
    assert_eq!(n.poll, PollState::Pending);
    assert!(n.wake.is_none());
    let w = q.write_from_tunnel(3, b"xy");
    assert_eq!(w.poll, PollState::Ready(2));
    match q.poll_next(4).poll {
        PollState::Ready(Some(batch)) => assert_eq!(concat_chunks(batch), b"xy".to_vec()),
        _ => panic!("expected a batch"),
    }
}

#[test]
fn request_stream_names_the_destination_once_and_ends_with_the_queue() {
    let mut q: ToGateway<u32> = ToGateway::new();
    let mut s = ToGatewayStream::new(destination("ns".to_string(), "pod".to_string(), 80));
    let p = s.poll_next_request(&mut q, 1);
    assert!(matches!(p.poll, PollState::Pending));
    assert!(p.wake.is_none());
    let w = q.poll_write(2, b"GET ");
    assert_eq!(w.wake, None);
    let _ = q.poll_write(3, b"/");
    let first = match s.poll_next_request(&mut q, 4).poll {
        PollState::Ready(Some(req)) => req,
        _ => panic!("expected a request"),
    };
    assert_eq!(first.connect_to.and_then(|d| d.pod).as_deref(), Some("pod"));
    assert_eq!(first.b, Some(b"GET /".to_vec()));
    let _ = q.poll_write(5, b"x");
    let second = match s.poll_next_request(&mut q, 6).poll {
        PollState::Ready(Some(req)) => req,
        _ => panic!("expected a request"),
    };
    assert!(second.connect_to.is_none());
    assert_eq!(second.b, Some(b"x".to_vec()));
    let _ = q.poll_shutdown(7);
    assert!(matches!(s.poll_next_request(&mut q, 8).poll, PollState::Ready(None)));
}

#[test]
fn reading_side_skips_empty_messages_and_ends_with_the_stream() {
    let mut r = ReadBuffer::new();
    let mut out: Vec<u8> = Vec::new();
    let frames = vec![
        Some(Ok(StreamResponse { b: None })),
        Some(Ok(StreamResponse { b: Some(b"abcdef".to_vec()) })),
        Some(Ok(StreamResponse { b: Some(vec![]) })),
        Some(Ok(StreamResponse { b: Some(b"gh".to_vec()) })),
        None,
    ];
    let mut steps = Vec::new();
    for frame in frames {
        while let Some(bytes) = r.take_leftover(4) {
            out.extend_from_slice(&bytes);
        }
        match r.on_frame(frame, 4) {
            ReadStep::Deliver(bytes) => {
                assert!(bytes.len() <= 4);
                out.extend_from_slice(&bytes);
                steps.push("deliver");
            }
            ReadStep::NeedFrame => steps.push("next"),
            ReadStep::End => steps.push("end"),
            ReadStep::Fail(..) => panic!("no failure was sent"),
        }
    }
    assert_eq!(out, b"abcdefgh".to_vec());
    assert_eq!(steps, vec!["next", "deliver", "next", "deliver", "end"]);
}

#[test]
fn reading_side_turns_a_failed_stream_into_an_io_failure() {
    let mut r = ReadBuffer::new();
    let status = Status { code: GrpcCode::NotFound, message: "no such pod".to_string() };
    match r.on_frame(Some(Err(status)), 16) {
        ReadStep::Fail(kind, s) => {
            assert_eq!(kind, IoErrorKind::NotFound);
            assert_eq!(s.message, "no such pod");
        }
        other => panic!("expected a failure, got {other:?}"),
    }
}
