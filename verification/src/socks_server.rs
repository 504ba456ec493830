use vstd::prelude::*;

use crate::router::{dot, outcome_is, route, DomainRouter, Endpoint, RouterError};
use crate::socks_proto::{
    reply_for, reply_for_router_error, reply_message, send_reply, server_hello_no_acceptable_auth,
    server_hello_no_auth, AuthenticationMethod, SocksAddr, SocksReply, SocksRequest,
    SOCKS_VERSION5,
};
use crate::io_error::IoErrorKind;
use crate::mtls::AddMtlsError;
use crate::text::join;

verus! {

/// `std::path::PathBuf`, carried as it is.
#[verifier::external_type_specification]
#[verifier::external_body]
pub struct ExPathBuf(std::path::PathBuf);

/// The SOCKS server: it answers each client connection on a UNIX socket.
pub struct SocksServer;

/// The arguments that configure the SOCKS server.
pub struct SocksServerArgs {
    /// Path of UNIX socket to listen on (browser should connect to this).
    pub socks_listen: std::path::PathBuf,
}

/// Where a SOCKS session stands.
#[derive(Debug, PartialEq, Eq, Structural, Clone, Copy)]
pub enum SocksState {
    /// Waiting for the client hello.
    AwaitHello,
    /// The client was accepted; waiting for its request.
    AwaitRequest,
    /// The request was routed to a pod over TLS; waiting for the outcome of
    /// setting up the TLS connector, before any reply is sent.
    AwaitTlsSetUp,
    /// The session is over.
    Closed,
}

/// What the client sent.
#[derive(Debug)]
pub enum SocksEvent {
    Hello(Vec<AuthenticationMethod>),
    Request(SocksRequest),
    /// The outcome of setting up TLS for the endpoint that the request was
    /// routed to.
    TlsSetUp(Endpoint, Result<(), AddMtlsError>),
}

/// What the server does next.
#[derive(Debug)]
pub enum SocksAction {
    /// Write the message and wait for the client's next message.
    Send(Vec<u8>),
    /// Write the message and end the session.
    Finish(Vec<u8>),
    /// Routing failed: write the message and end the session.
    Refuse(Vec<u8>, RouterError),
    /// Write the message, then carry the connection to the endpoint.
    Connect(Vec<u8>, Endpoint),
    /// Write nothing yet: set up TLS with the endpoint's expected server identity
    /// and report the outcome.
    SetUpTls(Endpoint),
}

/// The event is the one that the state waits for.
pub open spec fn event_fits(state: SocksState, event: SocksEvent) -> bool {
    match state {
        SocksState::AwaitHello => event is Hello,
        SocksState::AwaitRequest => event is Request,
        SocksState::AwaitTlsSetUp => event matches SocksEvent::TlsSetUp(ep, _) && ep is Tls,
        SocksState::Closed => false,
    }
}

fn offers_no_authentication(methods: &Vec<AuthenticationMethod>) -> (r: bool)
    ensures
        r == methods@.contains(AuthenticationMethod(0)),
{
    let mut i: usize = 0;
    while i < methods.len()
        invariant
            i <= methods.len(),
            forall|j: int| 0 <= j < i ==> methods@[j] != AuthenticationMethod(0),
        decreases methods.len() - i,
    {
        if methods[i] == AuthenticationMethod::no_authentication() {
            assert(methods@[i as int] == AuthenticationMethod(0));
            return true;
        }
        i = i + 1;
    }
    false
}

/// Takes a SOCKS session one step further: given what the client sent, decides
/// the server's next state and what it does.
///
/// A hello is accepted only where it offers the method that needs no
/// authentication; otherwise the server answers that no method is acceptable and
/// ends the session. A request is answered "command not supported" unless it is a
/// CONNECT, and "address type not supported" unless it names a domain. A CONNECT to
/// a domain is routed: where routing fails the server replies with the code for
/// the routing error and ends the session. A route to a pod over TLS first needs
/// its TLS connector: the server asks for it to be set up and replies only once
/// the outcome is known, "succeeded" where it was set up and otherwise "host not
/// reachable" for the failure, which ends the session. Any other route is
/// answered "succeeded" at once, and the connection is carried to the endpoint.
pub fn serve_step(router: &DomainRouter, state: SocksState, event: SocksEvent) -> (r: (
    SocksState,
    SocksAction,
))
    requires
        event_fits(state, event),
    ensures
        event matches SocksEvent::Hello(ms) ==> if ms@.contains(AuthenticationMethod(0)) {
            r.0 == SocksState::AwaitRequest && (r.1 matches SocksAction::Send(m) && m@ == seq![
                SOCKS_VERSION5,
                0u8,
            ])
        } else {
            r.0 == SocksState::Closed && (r.1 matches SocksAction::Finish(m) && m@ == seq![
                SOCKS_VERSION5,
                255u8,
            ])
        },
        event matches SocksEvent::Request(SocksRequest::Other) ==> r.0 == SocksState::Closed && (
        r.1 matches SocksAction::Finish(m) && m@ == reply_message(SocksReply(7))),
        event matches SocksEvent::Request(SocksRequest::Connect(SocksAddr::IP, _)) ==> r.0
            == SocksState::Closed && (r.1 matches SocksAction::Finish(m) && m@ == reply_message(
            SocksReply(8),
        )),
        event matches SocksEvent::Request(SocksRequest::Connect(SocksAddr::Domain(d), p)) ==> {
            let decision = route(router.suffix(), d@, p);
            let suffix_text = join(router.suffix(), dot());
            &&& r.1 is Connect || r.1 is Refuse || r.1 is SetUpTls
            &&& r.1 matches SocksAction::Connect(m, ep) ==> r.0 == SocksState::Closed && m@
                == reply_message(SocksReply(0)) && !(ep is Tls) && outcome_is(
                Ok(ep),
                d@,
                suffix_text,
                p,
                decision,
            )
            &&& r.1 matches SocksAction::SetUpTls(ep) ==> r.0 == SocksState::AwaitTlsSetUp && ep is Tls
                && outcome_is(Ok(ep), d@, suffix_text, p, decision)
            &&& r.1 matches SocksAction::Refuse(m, e) ==> r.0 == SocksState::Closed && m@
                == reply_message(reply_for_router_error(e)) && outcome_is(
                Err(e),
                d@,
                suffix_text,
                p,
                decision,
            )
        },
        event matches SocksEvent::TlsSetUp(ep, Ok(_)) ==> r.0 == SocksState::Closed && (
        r.1 matches SocksAction::Connect(m, e2) && m@ == reply_message(SocksReply(0)) && e2 == ep),
        event matches SocksEvent::TlsSetUp(_, Err(e)) ==> r.0 == SocksState::Closed && (
        r.1 matches SocksAction::Refuse(m, re) && m@ == reply_message(SocksReply(4)) && re
            == RouterError::AddMtls(e)),
{
    match event {
        SocksEvent::Hello(methods) => {
            if offers_no_authentication(&methods) {
                (SocksState::AwaitRequest, SocksAction::Send(server_hello_no_auth()))
            } else {
                (SocksState::Closed, SocksAction::Finish(server_hello_no_acceptable_auth()))
            }
        },
        SocksEvent::Request(request) => match request {
            SocksRequest::Other => (
                SocksState::Closed,
                SocksAction::Finish(send_reply(SocksReply::command_not_supported())),
            ),
            SocksRequest::Connect(SocksAddr::IP, _) => (
                SocksState::Closed,
                SocksAction::Finish(send_reply(SocksReply::address_type_not_supported())),
            ),
            SocksRequest::Connect(SocksAddr::Domain(domain), port) => {
                match router.connect(domain.as_str(), port) {
                    Ok(ep) => match ep {
                        Endpoint::Tls { .. } => (SocksState::AwaitTlsSetUp, SocksAction::SetUpTls(ep)),
                        _ => (
                            SocksState::Closed,
                            SocksAction::Connect(send_reply(SocksReply::succeeded()), ep),
                        ),
                    },
                    Err(e) => {
                        let reply = reply_for(&e);
                        (SocksState::Closed, SocksAction::Refuse(send_reply(reply), e))
                    },
                }
            },
        },
        SocksEvent::TlsSetUp(ep, outcome) => match outcome {
            Ok(()) => (SocksState::Closed, SocksAction::Connect(send_reply(SocksReply::succeeded()), ep)),
            Err(e) => {
                let re = RouterError::AddMtls(e);
                let reply = reply_for(&re);
                (SocksState::Closed, SocksAction::Refuse(send_reply(reply), re))
            },
        },
    }
}

/// What to do when the socket path cannot be bound.
#[derive(Debug, PartialEq, Eq, Structural, Clone, Copy)]
pub enum BindDecision {
    /// Give up with the bind error.
    Fail,
    /// The path is in use: connect to it to learn whether a server still listens.
    ProbeExisting,
}

/// What to do once a connection to the socket path in use was attempted.
#[derive(Debug, PartialEq, Eq, Structural, Clone, Copy)]
pub enum ProbeDecision {
    /// A server listens there: give up with the bind error.
    FailWithBindError,
    /// The attempt failed otherwise: give up with its error.
    FailWithProbeError,
    /// Nobody listens: remove the stale socket file and bind again; should the
    /// removal fail, give up with the probe's error.
    RemoveAndRebind,
}

/// Only a path that is already in use is worth probing.
pub fn on_bind_error(kind: IoErrorKind) -> (r: BindDecision)
    ensures
        r == (if kind == IoErrorKind::AddrInUse {
            BindDecision::ProbeExisting
        } else {
            BindDecision::Fail
        }),
{
    match kind {
        IoErrorKind::AddrInUse => BindDecision::ProbeExisting,
        _ => BindDecision::Fail,
    }
}

/// Decides from the outcome of connecting to the socket path in use (`None` for
/// a connection made, otherwise the kind of its failure) whether the socket file
/// is stale: only a refused connection shows that nobody listens.
pub fn on_probe(failure: Option<IoErrorKind>) -> (r: ProbeDecision)
    ensures
        r == match failure {
            None => ProbeDecision::FailWithBindError,
            Some(k) => if k == IoErrorKind::ConnectionRefused {
                ProbeDecision::RemoveAndRebind
            } else {
                ProbeDecision::FailWithProbeError
            },
        },
{
    match failure {
        None => ProbeDecision::FailWithBindError,
        Some(IoErrorKind::ConnectionRefused) => ProbeDecision::RemoveAndRebind,
        Some(_) => ProbeDecision::FailWithProbeError,
    }
}

} // verus!
