use kappa::router::{DomainRouter, DomainRouterArgs, Endpoint, RouterError};

fn router(suffix: Option<&str>) -> DomainRouter {
    DomainRouter::new(DomainRouterArgs { domain_suffix: suffix.map(|s| s.to_string()) })
}

fn identity_of(name: &str) -> String {
    match router(Some("kappa.local")).connect(name, 443) {
        Ok(Endpoint::Tls { namespace, pod, port, server_identity }) => {
            assert_eq!(namespace, "myns");
            assert_eq!(pod, "mypod");
            assert_eq!(port, 443);
            server_identity.to_string()
        }
        other => panic!("unexpected outcome {:?}", other),
    }
}

#[test]
fn http_pod_routes_to_encap() {
    match router(Some("kappa.local")).connect("http.mypod.myns.pod.kappa.local", 8080) {
        Ok(Endpoint::Encap { namespace, pod, port }) => {
            assert_eq!(namespace, "myns");
            assert_eq!(pod, "mypod");
            assert_eq!(port, 8080);
        }
        other => panic!("unexpected outcome {:?}", other),
    }
}

#[test]
fn suffix_and_selector_ignore_ascii_case() {
    match router(Some("kappa.local")).connect("http.MyPod.MyNs.POD.Kappa.LOCAL", 80) {
        Ok(Endpoint::Encap { namespace, pod, .. }) => {
            assert_eq!(namespace, "MyNs");
            assert_eq!(pod, "MyPod");
        }
        other => panic!("unexpected outcome {:?}", other),
    }
}

#[test]
fn protocol_label_is_case_sensitive() {
    assert!(matches!(
        router(Some("kappa.local")).connect("HTTP.mypod.myns.pod.kappa.local", 80),
        Err(RouterError::ExpectKubeObject)
    ));
}

#[test]
fn unrecognised_suffix_reports_name_and_suffix() {
    match router(Some("kappa.local")).connect("www.example.com", 80) {
        Err(RouterError::UnrecognisedSuffix(name, suffix)) => {
            assert_eq!(name, "www.example.com");
            assert_eq!(suffix, "kappa.local");
        }
        other => panic!("unexpected outcome {:?}", other),
    }
}

#[test]
fn too_short_name_is_unrecognised() {
    assert!(matches!(
        router(Some("a.kappa.local")).connect("local", 80),
        Err(RouterError::UnrecognisedSuffix(_, _))
    ));
}

#[test]
fn suffix_with_empty_labels_is_reported_verbatim() {
    match router(Some("a..b.")).connect("x", 80) {
        Err(RouterError::UnrecognisedSuffix(name, suffix)) => {
            assert_eq!(name, "x");
            assert_eq!(suffix, "a..b.");
        }
        other => panic!("unexpected outcome {:?}", other),
    }
}

#[test]
fn name_equal_to_suffix_has_no_selector() {
    assert!(matches!(
        router(Some("kappa.local")).connect("kappa.local", 80),
        Err(RouterError::BadSelector(None))
    ));
}

#[test]
fn unknown_selector_is_reported() {
    match router(Some("kappa.local")).connect("x.svc.kappa.local", 80) {
        Err(RouterError::BadSelector(Some(s))) => assert_eq!(s, "svc"),
        other => panic!("unexpected outcome {:?}", other),
    }
}

#[test]
fn without_suffix_the_last_label_selects() {
    assert!(matches!(router(None).connect("browser", 80), Ok(Endpoint::Http)));
    match router(None).connect("http.p.n.pod", 1) {
        Ok(Endpoint::Encap { namespace, pod, port }) => {
            assert_eq!((namespace.as_str(), pod.as_str(), port), ("n", "p", 1));
        }
        other => panic!("unexpected outcome {:?}", other),
    }
}

#[test]
fn pod_needs_protocol_pod_and_namespace() {
    assert!(matches!(
        router(Some("kappa.local")).connect("mypod.myns.pod.kappa.local", 80),
        Err(RouterError::ExpectKubeObject)
    ));
    assert!(matches!(
        router(Some("kappa.local")).connect("ftp.mypod.myns.pod.kappa.local", 80),
        Err(RouterError::ExpectKubeObject)
    ));
    assert!(matches!(
        router(Some("kappa.local")).connect("extra.http.mypod.myns.pod.kappa.local", 80),
        Err(RouterError::ExpectKubeObject)
    ));
}

#[test]
fn browser_pages_and_api() {
    let r = router(Some("kappa.local"));
    assert!(matches!(r.connect("browser.kappa.local", 80), Ok(Endpoint::Http)));
    assert!(matches!(r.connect("BROWSER.kappa.local", 80), Ok(Endpoint::Http)));
    assert!(matches!(r.connect("other.browser.kappa.local", 80), Ok(Endpoint::Http)));
    assert!(matches!(r.connect("api.browser.kappa.local", 80), Ok(Endpoint::Api)));
    assert!(matches!(
        r.connect("x.api.browser.kappa.local", 80),
        Err(RouterError::ExpectBrowser)
    ));
    assert!(matches!(
        r.connect("browser.kappa.local", 443),
        Err(RouterError::PortUnreachable)
    ));
}

#[test]
fn identity_with_empty_path() {
    assert_eq!(
        identity_of("spiffe.trust.domain._.https.mypod.myns.pod.kappa.local"),
        "spiffe://trust.domain/"
    );
}

#[test]
fn identity_with_path() {
    assert_eq!(
        identity_of("spiffe.trust.domain._.foo.bar._.https.mypod.myns.pod.kappa.local"),
        "spiffe://trust.domain/foo/bar"
    );
}

#[test]
fn identity_with_dot_in_path() {
    assert_eq!(
        identity_of("spiffe.trust.domain._.contains.a._.dot._.https.mypod.myns.pod.kappa.local"),
        "spiffe://trust.domain/contains/a.dot"
    );
}

#[test]
fn identity_with_escaped_underscore_label() {
    assert_eq!(
        identity_of("spiffe.trust.domain._.very.__.weird._.https.mypod.myns.pod.kappa.local"),
        "spiffe://trust.domain/very/_/weird"
    );
}

#[test]
fn identity_without_path_marker() {
    assert_eq!(
        identity_of("spiffe.trust.domain._.https.mypod.myns.pod.kappa.local"),
        identity_of("spiffe.trust.domain._.https.mypod.myns.pod.kappa.local")
    );
    assert_eq!(identity_of("spiffe.host._.https.mypod.myns.pod.kappa.local"), "spiffe://host/");
}

#[test]
fn identity_needs_trailing_marker_and_scheme() {
    let r = router(Some("kappa.local"));
    assert!(matches!(
        r.connect("https.mypod.myns.pod.kappa.local", 443),
        Err(RouterError::BadServerIdentity)
    ));
    assert!(matches!(
        r.connect("spiffe.trust.https.mypod.myns.pod.kappa.local", 443),
        Err(RouterError::BadServerIdentity)
    ));
    assert!(matches!(
        r.connect("_.https.mypod.myns.pod.kappa.local", 443),
        Err(RouterError::BadServerIdentity)
    ));
}

#[test]
fn identity_with_invalid_scheme_is_a_uri_error() {
    assert!(matches!(
        router(Some("kappa.local")).connect("bad scheme.host._.https.mypod.myns.pod.kappa.local", 443),
        Err(RouterError::UriError(_))
    ));
}
