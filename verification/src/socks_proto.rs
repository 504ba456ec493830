use vstd::prelude::*;
use vstd::utf8::{decode_utf8, valid_utf8};

use crate::io_error::{IoError, IoErrorKind};
use crate::router::RouterError;

verus! {

/// The standard library's error for bytes that are not UTF-8, carried as it is.
#[verifier::external_type_specification]
#[verifier::external_body]
pub struct ExFromUtf8Error(std::string::FromUtf8Error);

pub const SOCKS_VERSION5: u8 = 5;

/// A SOCKS authentication method, by its number on the wire.
#[derive(Debug, PartialEq, Eq, Structural, Hash, Clone, Copy)]
pub struct AuthenticationMethod(pub u8);

impl AuthenticationMethod {
    /// The method that needs no authentication.
    pub fn no_authentication() -> (r: AuthenticationMethod)
        ensures
            r == AuthenticationMethod(0),
    {
        AuthenticationMethod(0)
    }

    /// The answer that none of the offered methods is acceptable.
    pub fn no_acceptable_authentication() -> (r: AuthenticationMethod)
        ensures
            r == AuthenticationMethod(255),
    {
        AuthenticationMethod(255)
    }
}

impl From<AuthenticationMethod> for u8 {
    fn from(v: AuthenticationMethod) -> (r: u8) {
        v.0
    }
}

impl vstd::std_specs::convert::FromSpecImpl<AuthenticationMethod> for u8 {
    open spec fn obeys_from_spec() -> bool {
        true
    }

    open spec fn from_spec(v: AuthenticationMethod) -> u8 {
        v.0
    }
}

pub const COMMAND_CONNECT: u8 = 1;

pub const ADDRTYPE_V4: u8 = 1;

pub const ADDRTYPE_DOMAIN: u8 = 3;

pub const ADDRTYPE_V6: u8 = 4;

/// A SOCKS reply code, by its number on the wire.
#[derive(Debug, PartialEq, Eq, Structural, Hash, Clone, Copy)]
pub struct SocksReply(pub u8);

impl From<SocksReply> for u8 {
    fn from(v: SocksReply) -> (r: u8) {
        v.0
    }
}

impl vstd::std_specs::convert::FromSpecImpl<SocksReply> for u8 {
    open spec fn obeys_from_spec() -> bool {
        true
    }

    open spec fn from_spec(v: SocksReply) -> u8 {
        v.0
    }
}

impl SocksReply {
    /// The request was granted.
    pub fn succeeded() -> (r: SocksReply)
        ensures
            r == SocksReply(0),
    {
        SocksReply(0)
    }

    /// The connection is not allowed by the rule set.
    pub fn connection_not_allowed() -> (r: SocksReply)
        ensures
            r == SocksReply(2),
    {
        SocksReply(2)
    }

    /// The host is not reachable.
    pub fn host_not_reachable() -> (r: SocksReply)
        ensures
            r == SocksReply(4),
    {
        SocksReply(4)
    }

    /// The connection was refused.
    pub fn connection_refused() -> (r: SocksReply)
        ensures
            r == SocksReply(5),
    {
        SocksReply(5)
    }

    /// The command is not supported.
    pub fn command_not_supported() -> (r: SocksReply)
        ensures
            r == SocksReply(7),
    {
        SocksReply(7)
    }

    /// The address type is not supported.
    pub fn address_type_not_supported() -> (r: SocksReply)
        ensures
            r == SocksReply(8),
    {
        SocksReply(8)
    }
}

/// The reply that tells the client why routing failed: a refused permission or
/// an unrecognised suffix is "connection not allowed", a wrong port is
/// "connection refused", anything else is "host not reachable".
pub open spec fn reply_for_router_error(re: RouterError) -> SocksReply {
    match re {
        RouterError::IOError(e) => if e.kind == IoErrorKind::PermissionDenied {
            SocksReply(2)
        } else {
            SocksReply(4)
        },
        RouterError::UnrecognisedSuffix(_, _) => SocksReply(2),
        RouterError::PortUnreachable => SocksReply(5),
        _ => SocksReply(4),
    }
}

/// The reply that answers a request whose routing failed with `re`.
pub fn reply_for(re: &RouterError) -> (r: SocksReply)
    ensures
        r == reply_for_router_error(*re),
        r == SocksReply(2) || r == SocksReply(4) || r == SocksReply(5),
        (r == SocksReply(5)) <==> (*re is PortUnreachable),
        (r == SocksReply(2)) <==> (*re is UnrecognisedSuffix || (*re matches RouterError::IOError(e)
            && e.kind == IoErrorKind::PermissionDenied)),
{
    match re {
        RouterError::IOError(ioe) => match ioe.kind {
            IoErrorKind::PermissionDenied => SocksReply::connection_not_allowed(),
            _ => SocksReply::host_not_reachable(),
        },
        RouterError::UnrecognisedSuffix(_, _) => SocksReply::connection_not_allowed(),
        RouterError::BadSelector(_) => SocksReply::host_not_reachable(),
        RouterError::ExpectKubeObject => SocksReply::host_not_reachable(),
        RouterError::BadServerIdentity => SocksReply::host_not_reachable(),
        RouterError::ExpectBrowser => SocksReply::host_not_reachable(),
        RouterError::UriError(_) => SocksReply::host_not_reachable(),
        RouterError::AddMtls(_) => SocksReply::host_not_reachable(),
        RouterError::PortUnreachable => SocksReply::connection_refused(),
    }
}

impl From<RouterError> for SocksReply {
    fn from(re: RouterError) -> (r: SocksReply) {
        reply_for(&re)
    }
}

impl vstd::std_specs::convert::FromSpecImpl<RouterError> for SocksReply {
    open spec fn obeys_from_spec() -> bool {
        true
    }

    open spec fn from_spec(re: RouterError) -> SocksReply {
        reply_for_router_error(re)
    }
}

/// Why a SOCKS exchange failed.
#[derive(Debug)]
pub enum SocksProtocolError {
    IOError(IoError),
    Utf8(std::string::FromUtf8Error),
    WrongVersion(u8),
    WrongAddrType(u8),
}

/// How far a message at the start of a buffer could be read.
#[derive(Debug)]
pub enum Parsed<T> {
    /// The buffer is too short: this many bytes, counted from its start, are needed
    /// before reading can go on.
    Incomplete(usize),
    /// The message, and the number of bytes it took.
    Complete(T, usize),
}

/// The authentication methods that a client hello offers.
pub open spec fn offered_methods(b: Seq<u8>) -> Seq<AuthenticationMethod> {
    b.subrange(2, 2 + b[1]).map_values(|x: u8| AuthenticationMethod(x))
}

/// Reads the client hello at the start of `b`: the version byte 5, a count, and
/// that many authentication methods.
pub fn read_client_hello(b: &[u8]) -> (r: Result<Parsed<Vec<AuthenticationMethod>>, SocksProtocolError>)
    ensures
        b@.len() < 2 ==> (r matches Ok(Parsed::Incomplete(n)) && n == 2),
        b@.len() >= 2 && b[0] != SOCKS_VERSION5 ==> (r matches Err(
            SocksProtocolError::WrongVersion(v),
        ) && v == b[0]),
        b@.len() >= 2 && b[0] == SOCKS_VERSION5 && b@.len() < 2 + b[1] ==> (r matches Ok(
            Parsed::Incomplete(n),
        ) && n == 2 + b[1]),
        b@.len() >= 2 && b[0] == SOCKS_VERSION5 && b@.len() >= 2 + b[1] ==> (r matches Ok(
            Parsed::Complete(ms, used),
        ) && used == 2 + b[1] && ms@ == offered_methods(b@)),
        r matches Ok(Parsed::Complete(ms, _)) ==> ms@.len() == b[1] && forall|i: int|
            0 <= i < b[1] ==> #[trigger] ms@[i] == AuthenticationMethod(b[2 + i]),
        r matches Ok(Parsed::Incomplete(n)) ==> n > b@.len(),
        r matches Ok(Parsed::Complete(_, used)) ==> used <= b@.len(),
{
    if b.len() < 2 {
        return Ok(Parsed::Incomplete(2));
    }
    if b[0] != SOCKS_VERSION5 {
        return Err(SocksProtocolError::WrongVersion(b[0]));
    }
    let count = b[1] as usize;
    if b.len() < 2 + count {
        return Ok(Parsed::Incomplete(2 + count));
    }
    let mut methods: Vec<AuthenticationMethod> = Vec::new();
    let mut i: usize = 0;
    while i < count
        invariant
            i <= count,
            count == b[1],
            2 + count <= b@.len(),
            methods@ == b@.subrange(2, 2 + i).map_values(|x: u8| AuthenticationMethod(x)),
        decreases count - i,
    {
        methods.push(AuthenticationMethod(b[2 + i]));
        i = i + 1;
        assert(methods@ =~= b@.subrange(2, 2 + i).map_values(|x: u8| AuthenticationMethod(x)));
    }
    proof {
        lemma_offered_methods_are_the_method_bytes(b@);
    }
    Ok(Parsed::Complete(methods, 2 + count))
}

/// A hello offers exactly the methods in the `b[1]` bytes after its two-byte
/// header, each byte one method, in the order they were sent.
pub proof fn lemma_offered_methods_are_the_method_bytes(b: Seq<u8>)
    requires
        b.len() >= 2,
        b.len() >= 2 + b[1],
    ensures
        offered_methods(b).len() == b[1],
        forall|i: int| 0 <= i < b[1] ==> #[trigger] offered_methods(b)[i] == AuthenticationMethod(b[2 + i]),
{
}

/// Bytes after a complete client hello do not change what it reads as: the hello
/// takes the same bytes and offers the same methods, so reading exactly the bytes
/// asked for and reading more give the same hello.
pub proof fn lemma_client_hello_prefix(b: Seq<u8>, extra: Seq<u8>)
    requires
        b.len() >= 2,
        b.len() >= 2 + b[1],
    ensures
        (b + extra)[0] == b[0],
        (b + extra)[1] == b[1],
        offered_methods(b + extra) == offered_methods(b),
{
    assert((b + extra).subrange(2, 2 + b[1]) =~= b.subrange(2, 2 + b[1]));
}

/// The server hello that accepts a client without authentication.
pub fn server_hello_no_auth() -> (r: Vec<u8>)
    ensures
        r@ == seq![SOCKS_VERSION5, 0u8],
{
    let r: Vec<u8> = vec![SOCKS_VERSION5, AuthenticationMethod::no_authentication().into()];
    assert(r@ =~= seq![SOCKS_VERSION5, 0u8]);
    r
}

/// The server hello that tells a client that none of its methods is acceptable.
pub fn server_hello_no_acceptable_auth() -> (r: Vec<u8>)
    ensures
        r@ == seq![SOCKS_VERSION5, 255u8],
{
    let r: Vec<u8> = vec![SOCKS_VERSION5, AuthenticationMethod::no_acceptable_authentication().into()];
    assert(r@ =~= seq![SOCKS_VERSION5, 255u8]);
    r
}

/// The address that a SOCKS request names.
#[derive(Debug)]
pub enum SocksAddr {
    Domain(String),
    IP,
}

/// A SOCKS request.
#[derive(Debug)]
pub enum SocksRequest {
    Connect(SocksAddr, u16),
    Other,
}

/// Decodes bytes as text with `String::from_utf8` (standard library); the
/// contract claims that it succeeds exactly on valid UTF-8 and then gives the
/// characters that the bytes encode.
#[verifier::external_body]
fn string_from_utf8(bytes: Vec<u8>) -> (r: Result<String, std::string::FromUtf8Error>)
    ensures
        r is Ok <==> valid_utf8(bytes@),
        r matches Ok(s) ==> s@ == decode_utf8(bytes@),
{
    String::from_utf8(bytes)
}

fn copy_bytes(b: &[u8], from: usize, to: usize) -> (r: Vec<u8>)
    requires
        from <= to <= b@.len(),
    ensures
        r@ == b@.subrange(from as int, to as int),
{
    let mut r: Vec<u8> = Vec::new();
    let mut i: usize = from;
    while i < to
        invariant
            from <= i <= to,
            to <= b@.len(),
            r@ == b@.subrange(from as int, i as int),
        decreases to - i,
    {
        r.push(b[i]);
        i = i + 1;
        assert(r@ =~= b@.subrange(from as int, i as int));
    }
    r
}

/// A port number sent as two bytes, the high one first.
pub open spec fn port_of(hi: u8, lo: u8) -> u16 {
    (hi * 256 + lo) as u16
}

fn port_from_bytes(hi: u8, lo: u8) -> (r: u16)
    ensures
        r == port_of(hi, lo),
        r as int == hi as int * 256 + lo as int,
{
    (hi as u16) * 256 + (lo as u16)
}

/// A port sent as two bytes is their big-endian value: the high byte times 256
/// plus the low byte, every port from 0 to 65535 read whole.
pub proof fn lemma_port_is_big_endian(hi: u8, lo: u8)
    ensures
        port_of(hi, lo) as int == hi as int * 256 + lo as int,
{
}

/// The big-endian value of the two port bytes of a request: right after the
/// domain name, or at bytes 8 and 9 otherwise.
pub open spec fn request_port_value(b: Seq<u8>) -> int {
    if b[3] == ADDRTYPE_DOMAIN {
        b[5 + b[4]] as int * 256 + b[6 + b[4]] as int
    } else {
        b[8] as int * 256 + b[9] as int
    }
}

/// A CONNECT request that reads as `r` connects to the port whose two bytes it
/// carries, read big-endian.
pub proof fn lemma_connect_port(r: SocksRequest, b: Seq<u8>, domain: Seq<char>)
    requires
        request_is(r, b, domain),
        b[1] == COMMAND_CONNECT,
    ensures
        r matches SocksRequest::Connect(_, p) && p as int == request_port_value(b),
{
    if b[3] == ADDRTYPE_DOMAIN {
        lemma_port_is_big_endian(b[5 + b[4]], b[6 + b[4]]);
    } else {
        lemma_port_is_big_endian(b[8], b[9]);
    }
}

/// The number of bytes that a request with a complete header takes, where its
/// address type is known: ten for IPv4, twenty-two for IPv6 (whose port this
/// reading takes from the bytes right after the first four address bytes), and
/// seven plus the name's length for a domain name.
pub open spec fn request_size(b: Seq<u8>) -> nat
    recommends
        b.len() >= 5 || b[3] != ADDRTYPE_DOMAIN,
{
    if b[3] == ADDRTYPE_DOMAIN {
        (7 + b[4]) as nat
    } else if b[3] == ADDRTYPE_V4 {
        10
    } else {
        22
    }
}

/// The request that `b` holds, given that it is complete and its domain name,
/// if it has one, has the given text.
pub open spec fn request_is(r: SocksRequest, b: Seq<u8>, domain: Seq<char>) -> bool {
    let port = if b[3] == ADDRTYPE_DOMAIN {
        port_of(b[5 + b[4]], b[6 + b[4]])
    } else {
        port_of(b[8], b[9])
    };
    if b[1] == COMMAND_CONNECT {
        r matches SocksRequest::Connect(a, p) && p == port && (if b[3] == ADDRTYPE_DOMAIN {
            a matches SocksAddr::Domain(d) && d@ == domain
        } else {
            a is IP
        })
    } else {
        r is Other
    }
}

/// The buffer holds the version 5 and a known address type, and for a domain
/// name also its length.
pub open spec fn complete_header(b: Seq<u8>) -> bool {
    &&& b.len() >= 4
    &&& b[0] == SOCKS_VERSION5
    &&& (b[3] == ADDRTYPE_V4 || b[3] == ADDRTYPE_V6 || (b[3] == ADDRTYPE_DOMAIN && b.len() >= 5))
}

/// The domain name bytes of a complete domain request.
pub open spec fn domain_bytes(b: Seq<u8>) -> Seq<u8> {
    b.subrange(5, 5 + b[4])
}

/// The domain name of a request is the `b[4]` bytes after its five-byte header,
/// in order, and its two port bytes follow right after them, ending the request.
pub proof fn lemma_domain_bytes_follow_the_length(b: Seq<u8>)
    requires
        complete_header(b),
        b[3] == ADDRTYPE_DOMAIN,
        b.len() >= request_size(b),
    ensures
        domain_bytes(b).len() == b[4],
        forall|i: int| 0 <= i < b[4] ==> #[trigger] domain_bytes(b)[i] == b[5 + i],
        request_size(b) == 5 + b[4] + 2,
{
}

/// Bytes after a complete request do not change what it reads as: the same size,
/// the same domain name bytes and the same request.
pub proof fn lemma_socks_request_prefix(b: Seq<u8>, extra: Seq<u8>, r: SocksRequest, domain: Seq<char>)
    requires
        complete_header(b),
        b.len() >= request_size(b),
    ensures
        complete_header(b + extra),
        request_size(b + extra) == request_size(b),
        b[3] == ADDRTYPE_DOMAIN ==> domain_bytes(b + extra) == domain_bytes(b),
        request_is(r, b + extra, domain) == request_is(r, b, domain),
{
    let c = b + extra;
    assert(c[0] == b[0] && c[1] == b[1] && c[3] == b[3]);
    if b[3] == ADDRTYPE_DOMAIN {
        assert(c[4] == b[4]);
        assert(c[5 + b[4]] == b[5 + b[4]]);
        assert(c[6 + b[4]] == b[6 + b[4]]);
        assert(domain_bytes(c) =~= domain_bytes(b));
    } else {
        assert(c[8] == b[8] && c[9] == b[9]);
    }
}

/// Reads the SOCKS request at the start of `b`: version 5, a command, a reserved
/// byte, an address type (IPv4, domain name or IPv6), the address and a port.
pub fn read_socks_request(b: &[u8]) -> (r: Result<Parsed<SocksRequest>, SocksProtocolError>)
    ensures
        b@.len() < 4 ==> (r matches Ok(Parsed::Incomplete(n)) && n == 4),
        b@.len() >= 4 && b[0] != SOCKS_VERSION5 ==> (r matches Err(
            SocksProtocolError::WrongVersion(v),
        ) && v == b[0]),
        b@.len() >= 4 && b[0] == SOCKS_VERSION5 && b[3] != ADDRTYPE_DOMAIN && b[3] != ADDRTYPE_V4
            && b[3] != ADDRTYPE_V6 ==> (r matches Err(SocksProtocolError::WrongAddrType(t)) && t
            == b[3]),
        b@.len() == 4 && b[0] == SOCKS_VERSION5 && b[3] == ADDRTYPE_DOMAIN ==> (r matches Ok(
            Parsed::Incomplete(n),
        ) && n == 5),
        complete_header(b@) && b@.len() < request_size(b@) ==> (r matches Ok(Parsed::Incomplete(n))
            && n == request_size(b@)),
        complete_header(b@) && b@.len() >= request_size(b@) && b[3] == ADDRTYPE_DOMAIN
            && !valid_utf8(domain_bytes(b@)) ==> (r matches Err(SocksProtocolError::Utf8(_))),
        complete_header(b@) && b@.len() >= request_size(b@) && (b[3] != ADDRTYPE_DOMAIN
            || valid_utf8(domain_bytes(b@))) ==> (r matches Ok(Parsed::Complete(req, used)) && used
            == request_size(b@) && request_is(req, b@, decode_utf8(domain_bytes(b@)))),
        r matches Ok(Parsed::Complete(SocksRequest::Connect(_, p), _)) ==> p as int
            == request_port_value(b@),
        r matches Ok(Parsed::Incomplete(n)) ==> n > b@.len(),
        r matches Ok(Parsed::Complete(_, used)) ==> used <= b@.len(),
{
    if b.len() < 4 {
        return Ok(Parsed::Incomplete(4));
    }
    if b[0] != SOCKS_VERSION5 {
        return Err(SocksProtocolError::WrongVersion(b[0]));
    }
    let (addr, port, size) = if b[3] == ADDRTYPE_DOMAIN {
        if b.len() < 5 {
            return Ok(Parsed::Incomplete(5));
        }
        let domain_length = b[4] as usize;
        let size = 7 + domain_length;
        if b.len() < size {
            return Ok(Parsed::Incomplete(size));
        }
        let domain = match string_from_utf8(copy_bytes(b, 5, 5 + domain_length)) {
            Ok(d) => d,
            Err(e) => {
                return Err(SocksProtocolError::Utf8(e));
            },
        };
        (SocksAddr::Domain(domain), port_from_bytes(b[5 + domain_length], b[6 + domain_length]), size)
    } else if b[3] == ADDRTYPE_V4 {
        if b.len() < 10 {
            return Ok(Parsed::Incomplete(10));
        }
        (SocksAddr::IP, port_from_bytes(b[8], b[9]), 10)
    } else if b[3] == ADDRTYPE_V6 {
        if b.len() < 22 {
            return Ok(Parsed::Incomplete(22));
        }
        (SocksAddr::IP, port_from_bytes(b[8], b[9]), 22)
    } else {
        return Err(SocksProtocolError::WrongAddrType(b[3]));
    };
    let request = if b[1] == COMMAND_CONNECT {
        SocksRequest::Connect(addr, port)
    } else {
        SocksRequest::Other
    };
    Ok(Parsed::Complete(request, size))
}

/// The reply message for a reply code: version, code, a reserved byte, and the
/// IPv4 address 0.0.0.0 with port 0.
pub open spec fn reply_message(reply: SocksReply) -> Seq<u8> {
    seq![SOCKS_VERSION5, reply.0, 0u8, ADDRTYPE_V4, 0u8, 0u8, 0u8, 0u8, 0u8, 0u8]
}

/// The reply message that answers a request with the given code, naming the
/// IPv4 address 0.0.0.0 and port 0.
pub fn send_reply(reply: SocksReply) -> (r: Vec<u8>)
    ensures
        r@ == reply_message(reply),
{
    let r: Vec<u8> = vec![SOCKS_VERSION5, reply.into(), 0, ADDRTYPE_V4, 0, 0, 0, 0, 0, 0];
    assert(r@ =~= seq![SOCKS_VERSION5, reply.0, 0u8, ADDRTYPE_V4, 0u8, 0u8, 0u8, 0u8, 0u8, 0u8]);
    r
}

} // verus!
