use vstd::prelude::*;
use vstd::string::StringExecFns;

use x509_parser::prelude::FromDer;

use crate::grpc::{GrpcCode, Status};
use crate::uri::{parse_uri, uri_eq, uri_equal, uri_parse};

verus! {

/// A subject alternative name of a certificate, as far as access control is
/// concerned: a URI, or a name of another kind.
#[derive(Debug)]
pub enum SanName {
    Uri(String),
    Other,
}

/// What reading a DER certificate with `x509_parser` gives: the text of the
/// parse error where it cannot be read, otherwise its subject alternative names,
/// or `None` where it has no such extension or the extension cannot be read.
pub uninterp spec fn x509_subject_alt_names(der: Seq<u8>) -> Result<Option<Seq<SanName>>, Seq<char>>;

/// Reads a DER certificate with `X509Certificate::from_der` and takes its subject
/// alternative names with `subject_alternative_name`. The contract claims that the
/// outcome depends on the bytes alone, and names it `x509_subject_alt_names`.
#[verifier::external_body]
fn subject_alt_names(der: &[u8]) -> (r: Result<Option<Vec<SanName>>, String>)
    ensures
        match x509_subject_alt_names(der@) {
            Err(m) => r matches Err(t) && t@ == m,
            Ok(None) => r matches Ok(None),
            Ok(Some(ns)) => r matches Ok(Some(v)) && v@ == ns,
        },
{
    match x509_parser::certificate::X509Certificate::from_der(der) {
        Err(e) => Err(format!("{}", e)),
        Ok((_, cert)) => Ok(cert.subject_alternative_name().ok().flatten().map(|ext| {
            ext.value.general_names.iter().map(|gn| match gn {
                x509_parser::extensions::GeneralName::URI(s) => SanName::Uri(s.to_string()),
                _ => SanName::Other,
            }).collect()
        })),
    }
}

/// Why a client was refused.
#[derive(Debug)]
pub enum AclError {
    NoClientCertificate,
    /// The text of the error met in reading the certificate.
    CertificateUnreadable(String),
    NoUriSan,
    UriSanNotParsable,
    ClientNotAllowed,
}

/// The URI text of the names, where there is exactly one name and it is a URI.
pub open spec fn single_uri(names: Option<Seq<SanName>>) -> Option<Seq<char>> {
    match names {
        Some(ns) => if ns.len() == 1 {
            match ns[0] {
                SanName::Uri(s) => Some(s@),
                SanName::Other => None,
            }
        } else {
            None
        },
        None => None,
    }
}

/// The message that tells a refused client why.
pub open spec fn acl_error_message(e: AclError) -> Seq<char> {
    match e {
        AclError::NoClientCertificate => "no client certificate"@,
        AclError::CertificateUnreadable(m) => "error reading client certificate: "@ + m@,
        AclError::NoUriSan => "no URI SAN in certificate"@,
        AclError::UriSanNotParsable => "URI SAN not parsable"@,
        AclError::ClientNotAllowed => "Client not allowed"@,
    }
}

impl AclError {
    /// The status that refuses the client: always "permission denied", with the
    /// message that says why.
    pub fn to_status(&self) -> (r: Status)
        ensures
            r.code == GrpcCode::PermissionDenied,
            r.message@ == acl_error_message(*self),
    {
        let message = match self {
            AclError::NoClientCertificate => String::from_str("no client certificate"),
            AclError::CertificateUnreadable(m) => {
                let mut t = String::from_str("error reading client certificate: ");
                t.append(m.as_str());
                t
            },
            AclError::NoUriSan => String::from_str("no URI SAN in certificate"),
            AclError::UriSanNotParsable => String::from_str("URI SAN not parsable"),
            AclError::ClientNotAllowed => String::from_str("Client not allowed"),
        };
        Status { code: GrpcCode::PermissionDenied, message }
    }
}

/// The outcome of access control for the peer's certificates, given the allowed
/// URIs.
pub open spec fn acl_outcome(
    allowed: Seq<http::Uri>,
    peer_certs: Option<Vec<Vec<u8>>>,
    r: Result<http::Uri, AclError>,
) -> bool {
    match peer_certs {
        None => r matches Err(AclError::NoClientCertificate),
        Some(certs) => if certs@.len() == 0 {
            r matches Err(AclError::NoClientCertificate)
        } else {
            match x509_subject_alt_names(certs@[0]@) {
                Err(m) => r matches Err(AclError::CertificateUnreadable(t)) && t@ == m,
                Ok(names) => match single_uri(names) {
                    None => r matches Err(AclError::NoUriSan),
                    Some(text) => match uri_parse(text) {
                        None => r matches Err(AclError::UriSanNotParsable),
                        Some(u) => if allowed.len() == 0 || exists|i: int|
                            0 <= i < allowed.len() && #[trigger] uri_equal(
                                allowed[i],
                                u,
                            ) {
                            r == Ok::<http::Uri, AclError>(u)
                        } else {
                            r matches Err(AclError::ClientNotAllowed)
                        },
                    },
                },
            }
        },
    }
}

/// For a client whose first certificate carries a single subject alternative
/// name, a URI `u`: it is admitted, as `u`, when no URIs are configured or when
/// `u` equals any one of the configured URIs, whichever its place in the list;
/// when URIs are configured and `u` equals none of them it is refused as not
/// allowed.
pub proof fn lemma_acl_admits_any_listed_uri(
    allowed: Seq<http::Uri>,
    certs: Vec<Vec<u8>>,
    s: String,
    u: http::Uri,
    r: Result<http::Uri, AclError>,
)
    requires
        acl_outcome(allowed, Some(certs), r),
        certs@.len() > 0,
        x509_subject_alt_names(certs@[0]@) == Ok::<Option<Seq<SanName>>, Seq<char>>(
            Some(seq![SanName::Uri(s)]),
        ),
        uri_parse(s@) == Some(u),
    ensures
        allowed.len() == 0 ==> r == Ok::<http::Uri, AclError>(u),
        forall|i: int|
            0 <= i < allowed.len() && #[trigger] uri_equal(allowed[i], u) ==> r == Ok::<
                http::Uri,
                AclError,
            >(u),
        allowed.len() > 0 && (forall|i: int| 0 <= i < allowed.len() ==> !#[trigger] uri_equal(allowed[i], u))
            ==> r matches Err(AclError::ClientNotAllowed),
{
    assert(seq![SanName::Uri(s)][0] == SanName::Uri(s));
    assert(single_uri(Some(seq![SanName::Uri(s)])) == Some(s@));
}

/// Access control by the URI in the client certificate's subject alternative name.
pub struct SimpleACL {
    allowed: Vec<http::Uri>,
}

impl SimpleACL {
    /// The URIs allowed to connect; none means that any client with a URI is allowed.
    pub closed spec fn allowed_uris(&self) -> Seq<http::Uri> {
        self.allowed@
    }

    pub fn new(acl: Vec<http::Uri>) -> (r: SimpleACL)
        ensures
            r.allowed_uris() == acl@,
    {
        SimpleACL { allowed: acl }
    }

    /// The client's identity, where the client may connect: the first of the
    /// peer's certificates must have exactly one subject alternative name, a URI,
    /// and that URI must be allowed. With no URIs configured every such URI is
    /// allowed.
    pub fn allowed(&self, peer_certs: Option<Vec<Vec<u8>>>) -> (r: Result<http::Uri, AclError>)
        ensures
            acl_outcome(self.allowed_uris(), peer_certs, r),
    {
        let certs = match peer_certs {
            None => {
                return Err(AclError::NoClientCertificate);
            },
            Some(c) => c,
        };
        if certs.len() == 0 {
            return Err(AclError::NoClientCertificate);
        }
        let names = match subject_alt_names(certs[0].as_slice()) {
            Err(m) => {
                return Err(AclError::CertificateUnreadable(m));
            },
            Ok(names) => names,
        };
        let text = match names {
            Some(ns) => {
                if ns.len() != 1 {
                    return Err(AclError::NoUriSan);
                }
                match &ns[0] {
                    SanName::Uri(s) => s.clone(),
                    SanName::Other => {
                        return Err(AclError::NoUriSan);
                    },
                }
            },
            None => {
                return Err(AclError::NoUriSan);
            },
        };
        let san = match parse_uri(text.as_str()) {
            Ok(u) => u,
            Err(_) => {
                return Err(AclError::UriSanNotParsable);
            },
        };
        assert(x509_subject_alt_names(certs@[0]@) is Ok);
        assert(single_uri(x509_subject_alt_names(certs@[0]@)->Ok_0) == Some(text@));
        assert(uri_parse(text@) == Some(san));
        let ok = self.allowed.len() == 0 || contains_uri(&self.allowed, &san);
        let r: Result<http::Uri, AclError> = if ok {
            Ok(san)
        } else {
            Err(AclError::ClientNotAllowed)
        };
        assert(match single_uri(x509_subject_alt_names(certs@[0]@)->Ok_0) {
            None => false,
            Some(t) => match uri_parse(t) {
                None => false,
                Some(u) => if ok {
                    r == Ok::<http::Uri, AclError>(u)
                } else {
                    r matches Err(AclError::ClientNotAllowed)
                },
            },
        });
        r
    }
}

/// Whether a URI equal to `u` is among the URIs.
fn contains_uri(list: &Vec<http::Uri>, u: &http::Uri) -> (r: bool)
    ensures
        r == exists|i: int| 0 <= i < list@.len() && #[trigger] uri_equal(list@[i], *u),
{
    let mut i: usize = 0;
    while i < list.len()
        invariant
            i <= list@.len(),
            forall|j: int| 0 <= j < i ==> !uri_equal(#[trigger] list@[j], *u),
        decreases list@.len() - i,
    {
        if uri_eq(&list[i], u) {
            return true;
        }
        i = i + 1;
    }
    false
}


} // verus!
