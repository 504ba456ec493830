use kappa::acl::{AclError, SimpleACL};
use kappa::grpc::GrpcCode;

const CERT_WITH_URI_SAN: &str = "3082017030820115a003020102021459359ec9064a5bc1ba6fbe1895cc1a5d97225c05300a06082a8648ce3d0403023011310f300d06035504030c06636c69656e743020170d3236313131373232313231375a180f32313236313032343232313231375a3011310f300d06035504030c06636c69656e743059301306072a8648ce3d020106082a8648ce3d03010703420004f0bd88ee4d106b86391d860dccbee6e03fb170efd841eb803554e4008b527f6a9fdfcaf092e1d93a8ceea09c860119e47605823a74bd3e7147fc7952e995a3e4a349304730260603551d11041f301d861b7370696666653a2f2f6578616d706c652e6f72672f636c69656e74301d0603551d0e04160414d77f6da93bdcc379507e35102d2255eb82894bf6300a06082a8648ce3d0403020349003046022100f3aefe13e8179c96f706430c62d98e8379c2916d9927c1c7f8fe7245a1816b510221009740fd3c994ffb48210021b77a9414b95dfec2184d68a5fd5a26beed531f9a2b";
const CERT_WITH_DNS_SAN: &str = "3082015f30820105a0030201020214115c747abf7c9e31fb7acd60befce7c4e6e8a71e300a06082a8648ce3d0403023011310f300d06035504030c06636c69656e743020170d3236313131373232313231375a180f32313236313032343232313231375a3011310f300d06035504030c06636c69656e743059301306072a8648ce3d020106082a8648ce3d030107034200042d0b331c0d84b7f820176271f1f5373cb7530b2a0ba58d89656b5ba85e124042537cf885fbda589ce1dc4a1cfc2f496d26d63ca57cf569a263fe88bf1caa2158a339303730160603551d11040f300d820b6578616d706c652e6f7267301d0603551d0e0416041454f79465f18045260cdafb92809cb7107a01c257300a06082a8648ce3d0403020348003045022100a702b6dee91fbdfa03d1cc94828f4bf8a29d084df130c9ee13d51b2e6452907c02200c6ce587358446ce0c50d0f98057298fc12db2c720cbeeb1592c0f2f019b688e";

fn bytes(hex: &str) -> Vec<u8> {
    (0..hex.len()).step_by(2).map(|i| u8::from_str_radix(&hex[i..i + 2], 16).unwrap()).collect()
}

fn uri(s: &str) -> http::Uri {
    s.parse().unwrap()
}

#[test]
fn no_certificate_is_refused() {
    let acl = SimpleACL::new(vec![]);
    assert!(matches!(acl.allowed(None), Err(AclError::NoClientCertificate)));
    assert!(matches!(acl.allowed(Some(vec![])), Err(AclError::NoClientCertificate)));
}

#[test]
fn unreadable_certificate_is_refused() {
    let acl = SimpleACL::new(vec![]);
    match acl.allowed(Some(vec![vec![1, 2, 3]])) {
        Err(e @ AclError::CertificateUnreadable(_)) => {
            let s = e.to_status();
            assert_eq!(s.code, GrpcCode::PermissionDenied);
            assert!(s.message.starts_with("error reading client certificate: "));
            assert!(s.message.len() > "error reading client certificate: ".len());
        }
        other => panic!("unexpected outcome {:?}", other),
    }
}

#[test]
fn empty_list_allows_any_uri_san() {
    let acl = SimpleACL::new(vec![]);
    let u = acl.allowed(Some(vec![bytes(CERT_WITH_URI_SAN)])).unwrap();
    assert_eq!(u.to_string(), "spiffe://example.org/client");
}

#[test]
fn listed_uri_is_allowed_and_others_are_not() {
    let acl = SimpleACL::new(vec![uri("spiffe://other.org/x"), uri("spiffe://EXAMPLE.org/client")]);
    let u = acl.allowed(Some(vec![bytes(CERT_WITH_URI_SAN), vec![0]])).unwrap();
    assert_eq!(u.to_string(), "spiffe://example.org/client");
    let acl = SimpleACL::new(vec![uri("spiffe://example.org/other")]);
    match acl.allowed(Some(vec![bytes(CERT_WITH_URI_SAN)])) {
        Err(e @ AclError::ClientNotAllowed) => assert_eq!(e.to_status().message, "Client not allowed"),
        other => panic!("unexpected outcome {:?}", other),
    }
}

#[test]
fn certificate_without_uri_san_is_refused() {
    let acl = SimpleACL::new(vec![]);
    match acl.allowed(Some(vec![bytes(CERT_WITH_DNS_SAN)])) {
        Err(e @ AclError::NoUriSan) => assert_eq!(e.to_status().message, "no URI SAN in certificate"),
        other => panic!("unexpected outcome {:?}", other),
    }
}

#[test]
fn refusal_messages() {
    assert_eq!(AclError::NoClientCertificate.to_status().message, "no client certificate");
    assert_eq!(AclError::UriSanNotParsable.to_status().message, "URI SAN not parsable");
    assert_eq!(
        AclError::CertificateUnreadable("x".to_string()).to_status().message,
        "error reading client certificate: x"
    );
}
