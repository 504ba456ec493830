use kappa::io_error::{IoError, IoErrorKind};
use kappa::mtls::AddMtlsError;
use kappa::router::{DomainRouter, DomainRouterArgs, Endpoint, RouterError};
use kappa::socks_proto::{
    read_client_hello, read_socks_request, send_reply, server_hello_no_acceptable_auth,
    server_hello_no_auth, AuthenticationMethod, Parsed, SocksAddr, SocksProtocolError,
    SocksReply, SocksRequest,
};
use kappa::socks_server::{
    on_bind_error, on_probe, serve_step, BindDecision, ProbeDecision, SocksAction, SocksEvent,
    SocksState,
};

#[test]
fn client_hello_asks_for_header_then_methods() {
    assert!(matches!(read_client_hello(&[]), Ok(Parsed::Incomplete(2))));
    assert!(matches!(read_client_hello(&[5]), Ok(Parsed::Incomplete(2))));
    assert!(matches!(read_client_hello(&[5, 2]), Ok(Parsed::Incomplete(4))));
    assert!(matches!(read_client_hello(&[5, 2, 0]), Ok(Parsed::Incomplete(4))));
    match read_client_hello(&[5, 2, 0, 2, 99]) {
        Ok(Parsed::Complete(methods, used)) => {
            assert_eq!(methods, vec![AuthenticationMethod(0), AuthenticationMethod(2)]);
            assert_eq!(used, 4);
        }
        other => panic!("unexpected outcome {:?}", other),
    }
    match read_client_hello(&[5, 0]) {
        Ok(Parsed::Complete(methods, used)) => {
            assert!(methods.is_empty());
            assert_eq!(used, 2);
        }
        other => panic!("unexpected outcome {:?}", other),
    }
}

#[test]
fn client_hello_with_wrong_version() {
    assert!(matches!(read_client_hello(&[4, 1, 0]), Err(SocksProtocolError::WrongVersion(4))));
}

#[test]
fn server_hellos() {
    assert_eq!(server_hello_no_auth(), vec![5, 0]);
    assert_eq!(server_hello_no_acceptable_auth(), vec![5, 255]);
}

#[test]
fn domain_request() {
    let mut b = vec![5, 1, 0, 3, 11];
    b.extend_from_slice(b"example.com");
    b.extend_from_slice(&[0x1f, 0x90]);
    assert!(matches!(read_socks_request(&b[..3]), Ok(Parsed::Incomplete(4))));
    assert!(matches!(read_socks_request(&b[..4]), Ok(Parsed::Incomplete(5))));
    assert!(matches!(read_socks_request(&b[..5]), Ok(Parsed::Incomplete(18))));
    match read_socks_request(&b) {
        Ok(Parsed::Complete(SocksRequest::Connect(SocksAddr::Domain(d), port), used)) => {
            assert_eq!(d, "example.com");
            assert_eq!(port, 8080);
            assert_eq!(used, 18);
        }
        other => panic!("unexpected outcome {:?}", other),
    }
}

#[test]
fn domain_request_with_non_ascii_name() {
    let name = "bücher.de".as_bytes();
    let mut b = vec![5, 1, 0, 3, name.len() as u8];
    b.extend_from_slice(name);
    b.extend_from_slice(&[0, 80]);
    match read_socks_request(&b) {
        Ok(Parsed::Complete(SocksRequest::Connect(SocksAddr::Domain(d), 80), _)) => {
            assert_eq!(d, "bücher.de");
        }
        other => panic!("unexpected outcome {:?}", other),
    }
}

#[test]
fn domain_request_with_invalid_utf8() {
    let b = vec![5, 1, 0, 3, 2, 0xff, 0xfe, 0, 80];
    assert!(matches!(read_socks_request(&b), Err(SocksProtocolError::Utf8(_))));
}

#[test]
fn ip_requests() {
    let v4 = [5, 1, 0, 1, 10, 0, 0, 1, 0x01, 0xbb];
    assert!(matches!(read_socks_request(&v4[..9]), Ok(Parsed::Incomplete(10))));
    assert!(matches!(
        read_socks_request(&v4),
        Ok(Parsed::Complete(SocksRequest::Connect(SocksAddr::IP, 443), 10))
    ));
    let mut v6 = vec![5, 1, 0, 4];
    v6.extend_from_slice(&[0x20, 0x01, 0x0d, 0xb8, 0x12, 0x34]);
    v6.extend_from_slice(&[0; 10]);
    v6.extend_from_slice(&[0, 80]);
    assert!(matches!(read_socks_request(&v6[..21]), Ok(Parsed::Incomplete(22))));
    match read_socks_request(&v6) {
        Ok(Parsed::Complete(SocksRequest::Connect(SocksAddr::IP, port), 22)) => {
            assert_eq!(port, 0x1234);
        }
        other => panic!("unexpected outcome {:?}", other),
    }
}

#[test]
fn other_commands_and_bad_requests() {
    assert!(matches!(
        read_socks_request(&[5, 2, 0, 1, 1, 2, 3, 4, 0, 80]),
        Ok(Parsed::Complete(SocksRequest::Other, 10))
    ));
    assert!(matches!(read_socks_request(&[4, 1, 0, 1]), Err(SocksProtocolError::WrongVersion(4))));
    assert!(matches!(read_socks_request(&[5, 1, 0, 2]), Err(SocksProtocolError::WrongAddrType(2))));
}

#[test]
fn reply_messages() {
    assert_eq!(send_reply(SocksReply::succeeded()), vec![5, 0, 0, 1, 0, 0, 0, 0, 0, 0]);
    assert_eq!(send_reply(SocksReply::connection_refused()), vec![5, 5, 0, 1, 0, 0, 0, 0, 0, 0]);
    assert_eq!(u8::from(SocksReply::address_type_not_supported()), 8);
    assert_eq!(u8::from(AuthenticationMethod::no_acceptable_authentication()), 255);
}

#[test]
fn router_errors_become_replies() {
    let denied = RouterError::IOError(IoError {
        kind: IoErrorKind::PermissionDenied,
        message: "denied".to_string(),
    });
    let reset = RouterError::IOError(IoError {
        kind: IoErrorKind::ConnectionReset,
        message: "reset".to_string(),
    });
    assert_eq!(SocksReply::from(denied), SocksReply(2));
    assert_eq!(SocksReply::from(reset), SocksReply(4));
    assert_eq!(
        SocksReply::from(RouterError::UnrecognisedSuffix("a".to_string(), "b".to_string())),
        SocksReply(2)
    );
    assert_eq!(SocksReply::from(RouterError::PortUnreachable), SocksReply(5));
    assert_eq!(SocksReply::from(RouterError::BadSelector(None)), SocksReply(4));
    assert_eq!(SocksReply::from(RouterError::ExpectKubeObject), SocksReply(4));
    assert_eq!(SocksReply::from(RouterError::BadServerIdentity), SocksReply(4));
    assert_eq!(SocksReply::from(RouterError::ExpectBrowser), SocksReply(4));
}

fn router() -> DomainRouter {
    DomainRouter::new(DomainRouterArgs { domain_suffix: Some("kappa.local".to_string()) })
}

#[test]
fn session_refuses_clients_that_need_authentication() {
    let (state, action) = serve_step(
        &router(),
        SocksState::AwaitHello,
        SocksEvent::Hello(vec![AuthenticationMethod(2)]),
    );
    assert_eq!(state, SocksState::Closed);
    assert!(matches!(action, SocksAction::Finish(m) if m == vec![5, 255]));
}

#[test]
fn session_connects_routed_domains() {
    let r = router();
    let (state, action) = serve_step(
        &r,
        SocksState::AwaitHello,
        SocksEvent::Hello(vec![AuthenticationMethod(2), AuthenticationMethod(0)]),
    );
    assert_eq!(state, SocksState::AwaitRequest);
    assert!(matches!(action, SocksAction::Send(m) if m == vec![5, 0]));
    let (state, action) = serve_step(
        &r,
        state,
        SocksEvent::Request(SocksRequest::Connect(
            SocksAddr::Domain("api.browser.kappa.local".to_string()),
            80,
        )),
    );
    assert_eq!(state, SocksState::Closed);
    match action {
        SocksAction::Connect(m, Endpoint::Api) => assert_eq!(m, vec![5, 0, 0, 1, 0, 0, 0, 0, 0, 0]),
        other => panic!("unexpected action {:?}", other),
    }
}

#[test]
fn session_replies_with_routing_failure() {
    let (state, action) = serve_step(
        &router(),
        SocksState::AwaitRequest,
        SocksEvent::Request(SocksRequest::Connect(
            SocksAddr::Domain("browser.kappa.local".to_string()),
            8080,
        )),
    );
    assert_eq!(state, SocksState::Closed);
    match action {
        SocksAction::Refuse(m, RouterError::PortUnreachable) => {
            assert_eq!(m, vec![5, 5, 0, 1, 0, 0, 0, 0, 0, 0])
        }
        other => panic!("unexpected action {:?}", other),
    }
}

#[test]
fn session_rejects_unsupported_requests() {
    let (_, action) = serve_step(&router(), SocksState::AwaitRequest, SocksEvent::Request(SocksRequest::Other));
    assert!(matches!(action, SocksAction::Finish(m) if m == vec![5, 7, 0, 1, 0, 0, 0, 0, 0, 0]));
    let (_, action) = serve_step(
        &router(),
        SocksState::AwaitRequest,
        SocksEvent::Request(SocksRequest::Connect(SocksAddr::IP, 80)),
    );
    assert!(matches!(action, SocksAction::Finish(m) if m == vec![5, 8, 0, 1, 0, 0, 0, 0, 0, 0]));
}

#[test]
fn stale_socket_decisions() {
    assert_eq!(on_bind_error(IoErrorKind::AddrInUse), BindDecision::ProbeExisting);
    assert_eq!(on_bind_error(IoErrorKind::PermissionDenied), BindDecision::Fail);
    assert_eq!(on_probe(None), ProbeDecision::FailWithBindError);
    assert_eq!(on_probe(Some(IoErrorKind::ConnectionRefused)), ProbeDecision::RemoveAndRebind);
    assert_eq!(on_probe(Some(IoErrorKind::NotFound)), ProbeDecision::FailWithProbeError);
}

#[test]
fn bytes_after_a_request_do_not_change_it() {
    let mut b = vec![5, 1, 0, 3, 3, b'a', b'.', b'b', 0, 22];
    b.extend_from_slice(&[5, 1, 0, 1]);
    match read_socks_request(&b) {
        Ok(Parsed::Complete(SocksRequest::Connect(SocksAddr::Domain(d), 22), 10)) => assert_eq!(d, "a.b"),
        other => panic!("unexpected outcome {:?}", other),
    }
}

#[test]
fn tls_route_replies_only_after_set_up() {
    let r = router();
    let request = || {
        SocksEvent::Request(SocksRequest::Connect(
            SocksAddr::Domain("spiffe.trust.domain._.https.web.default.pod.kappa.local".to_string()),
            443,
        ))
    };
    let (state, action) = serve_step(&r, SocksState::AwaitRequest, request());
    assert_eq!(state, SocksState::AwaitTlsSetUp);
    let ep = match action {
        SocksAction::SetUpTls(ep) => ep,
        other => panic!("unexpected action {:?}", other),
    };
    match &ep {
        Endpoint::Tls { namespace, pod, port, server_identity } => {
            assert_eq!((namespace.as_str(), pod.as_str(), *port), ("default", "web", 443));
            assert_eq!(server_identity.to_string(), "spiffe://trust.domain/");
        }
        other => panic!("unexpected endpoint {:?}", other),
    }
    let (state, action) = serve_step(&r, state, SocksEvent::TlsSetUp(ep, Ok(())));
    assert_eq!(state, SocksState::Closed);
    match action {
        SocksAction::Connect(m, Endpoint::Tls { .. }) => assert_eq!(m, vec![5, 0, 0, 1, 0, 0, 0, 0, 0, 0]),
        other => panic!("unexpected action {:?}", other),
    }
}

#[test]
fn failed_tls_set_up_is_host_not_reachable() {
    let r = router();
    let (state, action) = serve_step(
        &r,
        SocksState::AwaitRequest,
        SocksEvent::Request(SocksRequest::Connect(
            SocksAddr::Domain("spiffe.x._.https.web.default.pod.kappa.local".to_string()),
            443,
        )),
    );
    let ep = match action {
        SocksAction::SetUpTls(ep) => ep,
        other => panic!("unexpected action {:?}", other),
    };
    let (state, action) = serve_step(
        &r,
        state,
        SocksEvent::TlsSetUp(ep, Err(AddMtlsError::ServerName("invalid dns name".to_string()))),
    );
    assert_eq!(state, SocksState::Closed);
    match action {
        SocksAction::Refuse(m, RouterError::AddMtls(AddMtlsError::ServerName(s))) => {
            assert_eq!(m, vec![5, 4, 0, 1, 0, 0, 0, 0, 0, 0]);
            assert_eq!(s, "invalid dns name");
        }
        other => panic!("unexpected action {:?}", other),
    }
}
