use vstd::prelude::*;
use vstd::string::StringExecFns;

use crate::acl::{acl_error_message, acl_outcome, AclError, SimpleACL};
use crate::encap::{Destination, StreamRequest, StreamResponse};
use crate::grpc::{GrpcCode, Status};
use crate::kube::{kube_error_status, KubeApiError};

verus! {

pub open spec fn empty_stream_message() -> Seq<char> {
    "Empty stream, no connection possible"@
}

pub open spec fn missing_destination_message() -> Seq<char> {
    "First frame of stream must have connect_to"@
}

pub open spec fn invalid_port_message() -> Seq<char> {
    "invalid port number"@
}

/// The first message of a stream to the gateway must be there and must name the
/// destination. Gives the destination and the bytes that came with it; otherwise
/// the status that ends the stream: "out of range" for an empty stream, the
/// stream's own failure, or "invalid argument" for a first message without a
/// destination.
pub fn first_frame(frame: Option<Result<StreamRequest, Status>>) -> (r: Result<
    (Destination, Option<Vec<u8>>),
    Status,
>)
    ensures
        frame is None ==> (r matches Err(s) && s.code == GrpcCode::OutOfRange && s.message@
            == empty_stream_message()),
        frame matches Some(Err(e)) ==> r == Err::<(Destination, Option<Vec<u8>>), Status>(e),
        frame matches Some(Ok(req)) ==> match req.connect_to {
            None => r matches Err(s) && s.code == GrpcCode::InvalidArgument && s.message@
                == missing_destination_message(),
            Some(d) => r == Ok::<(Destination, Option<Vec<u8>>), Status>((d, req.b)),
        },
{
    match frame {
        None => Err(
            Status {
                code: GrpcCode::OutOfRange,
                message: String::from_str("Empty stream, no connection possible"),
            },
        ),
        Some(Err(e)) => Err(e),
        Some(Ok(req)) => match req.connect_to {
            None => Err(
                Status {
                    code: GrpcCode::InvalidArgument,
                    message: String::from_str("First frame of stream must have connect_to"),
                },
            ),
            Some(d) => Ok((d, req.b)),
        },
    }
}

/// A name that may be absent, read as empty where it is.
pub open spec fn name_or_empty(n: Option<String>) -> Seq<char> {
    match n {
        Some(t) => t@,
        None => Seq::<char>::empty(),
    }
}

/// The namespace and pod that a destination names, an absent one read as empty.
pub fn pod_of(d: &Destination) -> (r: (String, String))
    ensures
        r.0@ == name_or_empty(d.namespace),
        r.1@ == name_or_empty(d.pod),
{
    let namespace = match &d.namespace {
        Some(n) => n.clone(),
        None => String::new(),
    };
    let pod = match &d.pod {
        Some(p) => p.clone(),
        None => String::new(),
    };
    (namespace, pod)
}

/// A destination made by the client for a pod names, as the gateway reads it, the
/// same namespace, pod and port: the port is there and fits in 16 bits.
pub proof fn lemma_destination_round_trip(d: Destination, namespace: String, pod: String, port: u16)
    requires
        d.namespace == Some(namespace),
        d.pod == Some(pod),
        d.port == Some(port as u32),
    ensures
        d.port matches Some(p) && p <= u16::MAX && p as u16 == port,
        match d.namespace {
            Some(n) => n@,
            None => Seq::<char>::empty(),
        } == namespace@,
        match d.pod {
            Some(p) => p@,
            None => Seq::<char>::empty(),
        } == pod@,
{
}

/// The port that a destination names: it must be there and fit in 16 bits;
/// otherwise "invalid argument".
pub fn port_of_destination(d: &Destination) -> (r: Result<u16, Status>)
    ensures
        match d.port {
            Some(p) => if p <= u16::MAX {
                r == Ok::<u16, Status>(p as u16)
            } else {
                r matches Err(s) && s.code == GrpcCode::InvalidArgument && s.message@
                    == invalid_port_message()
            },
            None => r matches Err(s) && s.code == GrpcCode::InvalidArgument && s.message@
                == invalid_port_message(),
        },
{
    let port: u32 = match d.port {
        Some(p) => p,
        None => 65536,
    };
    if port <= 65535 {
        Ok(port as u16)
    } else {
        Err(Status { code: GrpcCode::InvalidArgument, message: String::from_str("invalid port number") })
    }
}

/// What happened first while the gateway relays a backend connection: the task
/// that writes to the backend ended, or a read from the backend completed.
#[derive(Debug)]
pub enum BackendEvent {
    /// The writing task could not be joined; the description of why.
    WriterLost(String),
    /// The writing task ended with a failure.
    WriterFailed(Status),
    /// The writing task ended: the client's stream is over.
    WriterDone,
    /// Reading from the backend failed, with this status.
    ReadFailed(Status),
    /// Bytes read from the backend; none means the backend closed the connection.
    Read(Vec<u8>),
}

/// What the stream to the client does next.
#[derive(Debug)]
pub enum BackendAction {
    /// Send the message and keep relaying.
    Yield(StreamResponse),
    /// Send the failure and end the stream.
    Fail(Status),
    /// End the stream.
    Stop,
}

/// Decides what the stream back to the client does after an event: bytes from the
/// backend are sent on; the end of either direction ends the stream; a failure is
/// sent and ends the stream, a lost writer as an "internal" failure.
pub fn backend_step(event: BackendEvent) -> (r: BackendAction)
    ensures
        event matches BackendEvent::WriterLost(m) ==> (r matches BackendAction::Fail(s) && s.code
            == GrpcCode::Internal && s.message == m),
        event matches BackendEvent::WriterFailed(s) ==> r == BackendAction::Fail(s),
        event is WriterDone ==> r is Stop,
        event matches BackendEvent::ReadFailed(s) ==> r == BackendAction::Fail(s),
        event matches BackendEvent::Read(b) ==> if b@.len() == 0 {
            r is Stop
        } else {
            r matches BackendAction::Yield(m) && m.b == Some(b)
        },
{
    match event {
        BackendEvent::WriterLost(m) => BackendAction::Fail(Status { code: GrpcCode::Internal, message: m }),
        BackendEvent::WriterFailed(s) => BackendAction::Fail(s),
        BackendEvent::WriterDone => BackendAction::Stop,
        BackendEvent::ReadFailed(s) => BackendAction::Fail(s),
        BackendEvent::Read(b) => if b.len() == 0 {
            BackendAction::Stop
        } else {
            BackendAction::Yield(StreamResponse { b: Some(b) })
        },
    }
}

/// The bytes of a client message that must be written to the backend: none for
/// a message without bytes or with no bytes at all.
pub fn bytes_to_write(b: Option<Vec<u8>>) -> (r: Option<Vec<u8>>)
    ensures
        match b {
            Some(v) => if v@.len() > 0 {
                r == Some(v)
            } else {
                r is None
            },
            None => r is None,
        },
{
    match b {
        Some(v) => if v.len() > 0 {
            Some(v)
        } else {
            None
        },
        None => None,
    }
}

/// Where the gateway stands in admitting a stream.
#[derive(Debug)]
pub enum GatewayState {
    /// The client's certificates have not been checked yet.
    AwaitPeer,
    /// The client is admitted as `peer`; the stream's first message is not read yet.
    AwaitFirstFrame { peer: http::Uri },
    /// The first message named `dest`; the pod's address is being looked up.
    AwaitPodAddress { peer: http::Uri, dest: Destination, first_bytes: Option<Vec<u8>> },
    /// The stream is connected to its backend, or has failed.
    Done,
}

/// What the gateway learnt since its last action.
#[derive(Debug)]
pub enum GatewayEvent {
    /// The certificates that the client presented, if any.
    Peer(Option<Vec<Vec<u8>>>),
    /// The first message of the stream, the stream's failure, or its end.
    FirstFrame(Option<Result<StreamRequest, Status>>),
    /// Whether the pod's address was found; the address stays with the caller.
    PodAddress(Result<(), KubeApiError>),
}

/// What the gateway does next for a stream.
#[derive(Debug)]
pub enum GatewayAction {
    /// Read the first message of the stream.
    ReadFirstFrame,
    /// Look up the address of a pod.
    LookUpPod { namespace: String, pod: String },
    /// Connect to the port of the pod whose address was found, write the first
    /// message's bytes there and relay the rest.
    Connect { peer: http::Uri, dest: Destination, port: u16, first_bytes: Option<Vec<u8>> },
    /// End the stream with this status.
    Fail(Status),
}

/// Whether the event is the one that the state waits for.
pub open spec fn gateway_event_fits(state: GatewayState, event: GatewayEvent) -> bool {
    match state {
        GatewayState::AwaitPeer => event is Peer,
        GatewayState::AwaitFirstFrame { .. } => event is FirstFrame,
        GatewayState::AwaitPodAddress { .. } => event is PodAddress,
        GatewayState::Done => false,
    }
}

/// The stream ends with a status of this code and message.
pub open spec fn fails_with(r: (GatewayState, GatewayAction), code: GrpcCode, message: Seq<char>) -> bool {
    &&& r.0 is Done
    &&& r.1 matches GatewayAction::Fail(s) && s.code == code && s.message@ == message
}

/// After access control: an admitted client's stream has its first message
/// read; a refused one ends, "permission denied", before anything is read.
pub open spec fn after_peer(a: Result<http::Uri, AclError>, r: (GatewayState, GatewayAction)) -> bool {
    match a {
        Ok(u) => r.0 == GatewayState::AwaitFirstFrame { peer: u } && r.1 is ReadFirstFrame,
        Err(e) => fails_with(r, GrpcCode::PermissionDenied, acl_error_message(e)),
    }
}

/// After the first message: it must be there and name a destination, whose pod
/// is then looked up; otherwise the stream ends as `first_frame` says.
pub open spec fn after_first_frame(
    peer: http::Uri,
    frame: Option<Result<StreamRequest, Status>>,
    r: (GatewayState, GatewayAction),
) -> bool {
    match frame {
        None => fails_with(r, GrpcCode::OutOfRange, empty_stream_message()),
        Some(Err(e)) => r.0 is Done && r.1 == GatewayAction::Fail(e),
        Some(Ok(req)) => match req.connect_to {
            None => fails_with(r, GrpcCode::InvalidArgument, missing_destination_message()),
            Some(d) => {
                &&& r.0 == GatewayState::AwaitPodAddress { peer, dest: d, first_bytes: req.b }
                &&& r.1 matches GatewayAction::LookUpPod { namespace, pod } && namespace@
                    == name_or_empty(d.namespace) && pod@ == name_or_empty(d.pod)
            },
        },
    }
}

/// After the pod's address is looked up: a failed lookup ends the stream with
/// its status; otherwise the destination's port must fit in 16 bits, and the
/// gateway connects there.
pub open spec fn after_pod_address(
    peer: http::Uri,
    dest: Destination,
    first_bytes: Option<Vec<u8>>,
    found: Result<(), KubeApiError>,
    r: (GatewayState, GatewayAction),
) -> bool {
    match found {
        Err(e) => r.0 is Done && (r.1 matches GatewayAction::Fail(s) && (s.code, s.message@)
            == kube_error_status(e)),
        Ok(_) => match dest.port {
            Some(p) => if p <= u16::MAX {
                r.0 is Done && r.1 == GatewayAction::Connect { peer, dest, port: p as u16, first_bytes }
            } else {
                fails_with(r, GrpcCode::InvalidArgument, invalid_port_message())
            },
            None => fails_with(r, GrpcCode::InvalidArgument, invalid_port_message()),
        },
    }
}

/// One step of admitting a stream, from the state and the event that it waits for.
pub open spec fn gateway_step_is(
    allowed: Seq<http::Uri>,
    state: GatewayState,
    event: GatewayEvent,
    r: (GatewayState, GatewayAction),
) -> bool {
    match state {
        GatewayState::AwaitPeer => match event {
            GatewayEvent::Peer(certs) => exists|a: Result<http::Uri, AclError>|
                #[trigger] acl_outcome(allowed, certs, a) && after_peer(a, r),
            _ => false,
        },
        GatewayState::AwaitFirstFrame { peer } => match event {
            GatewayEvent::FirstFrame(f) => after_first_frame(peer, f, r),
            _ => false,
        },
        GatewayState::AwaitPodAddress { peer, dest, first_bytes } => match event {
            GatewayEvent::PodAddress(found) => after_pod_address(peer, dest, first_bytes, found, r),
            _ => false,
        },
        GatewayState::Done => false,
    }
}

/// Decides the next step of admitting a stream to the gateway: access control
/// first, then the first message, then the pod's address and the port.
pub fn gateway_step(acl: &SimpleACL, state: GatewayState, event: GatewayEvent) -> (r: (
    GatewayState,
    GatewayAction,
))
    requires
        gateway_event_fits(state, event),
    ensures
        gateway_step_is(acl.allowed_uris(), state, event, r),
{
    match (state, event) {
        (GatewayState::AwaitPeer, GatewayEvent::Peer(certs)) => {
            let ghost c = certs;
            let a = acl.allowed(certs);
            let ghost ag = a;
            let r = match a {
                Ok(u) => (GatewayState::AwaitFirstFrame { peer: u }, GatewayAction::ReadFirstFrame),
                Err(e) => (GatewayState::Done, GatewayAction::Fail(e.to_status())),
            };
            assert(acl_outcome(acl.allowed_uris(), c, ag) && after_peer(ag, r));
            r
        },
        (GatewayState::AwaitFirstFrame { peer }, GatewayEvent::FirstFrame(f)) => match first_frame(f) {
            Err(s) => (GatewayState::Done, GatewayAction::Fail(s)),
            Ok((dest, first_bytes)) => {
                let (namespace, pod) = pod_of(&dest);
                (
                    GatewayState::AwaitPodAddress { peer, dest, first_bytes },
                    GatewayAction::LookUpPod { namespace, pod },
                )
            },
        },
        (
            GatewayState::AwaitPodAddress { peer, dest, first_bytes },
            GatewayEvent::PodAddress(found),
        ) => match found {
            Err(e) => (GatewayState::Done, GatewayAction::Fail(e.into_status())),
            Ok(()) => match port_of_destination(&dest) {
                Err(s) => (GatewayState::Done, GatewayAction::Fail(s)),
                Ok(port) => (GatewayState::Done, GatewayAction::Connect { peer, dest, port, first_bytes }),
            },
        },
        _ => {
            // No other pair of state and event fits.
            proof {
                assert(false);
            }
            (GatewayState::Done, GatewayAction::ReadFirstFrame)
        },
    }
}

/// Once the pod's address is found, the gateway connects to the destination's
/// port whenever it fits in 16 bits, keeping the client, the destination and the
/// first bytes; only a missing port, or one above 65535, is refused as an
/// invalid argument.
pub proof fn lemma_found_pod_connects_to_its_port(
    allowed: Seq<http::Uri>,
    peer: http::Uri,
    dest: Destination,
    first_bytes: Option<Vec<u8>>,
    r: (GatewayState, GatewayAction),
)
    requires
        gateway_step_is(
            allowed,
            GatewayState::AwaitPodAddress { peer, dest, first_bytes },
            GatewayEvent::PodAddress(Ok(())),
            r,
        ),
    ensures
        r.0 is Done,
        dest.port matches Some(p) ==> (p <= 65535 ==> (r.1 matches GatewayAction::Connect {
            peer: c,
            dest: d,
            port,
            first_bytes: fb,
        } && port as int == p as int && c == peer && d == dest && fb == first_bytes)),
        dest.port matches Some(p) ==> (p > 65535 ==> (r.1 matches GatewayAction::Fail(s) && s.code
            == GrpcCode::InvalidArgument)),
        dest.port is None ==> (r.1 matches GatewayAction::Fail(s) && s.code == GrpcCode::InvalidArgument),
{
}

/// A refused client's stream ends at once with "permission denied": no message
/// of it is read, no pod looked up and no connection made, since no event fits
/// the state that follows.
pub proof fn lemma_refused_client_reads_nothing(
    allowed: Seq<http::Uri>,
    certs: Option<Vec<Vec<u8>>>,
    e: AclError,
    r: (GatewayState, GatewayAction),
)
    requires
        acl_outcome(allowed, certs, Err(e)),
        gateway_step_is(allowed, GatewayState::AwaitPeer, GatewayEvent::Peer(certs), r),
    ensures
        r.0 is Done,
        r.1 matches GatewayAction::Fail(s) && s.code == GrpcCode::PermissionDenied,
        forall|ev: GatewayEvent| !gateway_event_fits(r.0, ev),
{
    let a = choose|a: Result<http::Uri, AclError>|
        #[trigger] acl_outcome(allowed, certs, a) && after_peer(a, r);
    lemma_acl_outcome_refusal_is_unique(allowed, certs, e, a);
}

/// An admitted client's stream goes on to have its first message read, with the
/// client known by the URI that access control admitted it as; and a first
/// message that names a destination leads to looking up that destination's pod
/// in that destination's namespace.
pub proof fn lemma_admitted_client_reads_first_frame(
    allowed: Seq<http::Uri>,
    certs: Option<Vec<Vec<u8>>>,
    u: http::Uri,
    r: (GatewayState, GatewayAction),
    req: StreamRequest,
    r2: (GatewayState, GatewayAction),
)
    requires
        acl_outcome(allowed, certs, Ok(u)),
        gateway_step_is(allowed, GatewayState::AwaitPeer, GatewayEvent::Peer(certs), r),
        gateway_step_is(allowed, r.0, GatewayEvent::FirstFrame(Some(Ok(req))), r2),
        (req.connect_to is Some),
    ensures
        (r.0 == GatewayState::AwaitFirstFrame { peer: u }),
        (r.1 is ReadFirstFrame),
        (r2.0 matches GatewayState::AwaitPodAddress { peer, dest, first_bytes } && peer == u && Some(
            dest,
        ) == req.connect_to && first_bytes == req.b),
        (r2.1 matches GatewayAction::LookUpPod { namespace, pod } && (req.connect_to matches Some(d)
            && namespace@ == name_or_empty(d.namespace) && pod@ == name_or_empty(d.pod))),
{
    let a = choose|a: Result<http::Uri, AclError>|
        #[trigger] acl_outcome(allowed, certs, a) && after_peer(a, r);
    lemma_acl_outcome_ok_is_unique(allowed, certs, u, a);
}

proof fn lemma_acl_outcome_ok_is_unique(
    allowed: Seq<http::Uri>,
    certs: Option<Vec<Vec<u8>>>,
    u: http::Uri,
    a: Result<http::Uri, AclError>,
)
    requires
        acl_outcome(allowed, certs, Ok(u)),
        acl_outcome(allowed, certs, a),
    ensures
        a == Ok::<http::Uri, AclError>(u),
{
}

proof fn lemma_acl_outcome_refusal_is_unique(
    allowed: Seq<http::Uri>,
    certs: Option<Vec<Vec<u8>>>,
    e: AclError,
    a: Result<http::Uri, AclError>,
)
    requires
        acl_outcome(allowed, certs, Err(e)),
        acl_outcome(allowed, certs, a),
    ensures
        a is Err,
{
}

/// What the task that writes to the backend does with the next message of the
/// client's stream.
#[derive(Debug)]
pub enum WriteAction {
    /// Write these bytes to the backend.
    Write(Vec<u8>),
    /// Nothing to write; wait for the next message.
    Skip,
    /// The client's stream is over: the task ends.
    Finish,
    /// The client's stream failed: the task ends with this status.
    Fail(Status),
}

/// Decides what the writing task does with the next message of the client's
/// stream: a message's bytes are written unless there are none, the end of the
/// stream ends the task, and a failure ends it with that failure.
pub fn write_step(frame: Option<Result<StreamRequest, Status>>) -> (r: WriteAction)
    ensures
        frame is None ==> r is Finish,
        frame matches Some(Err(s)) ==> r == WriteAction::Fail(s),
        frame matches Some(Ok(req)) ==> match req.b {
            Some(v) => if v@.len() > 0 {
                r == WriteAction::Write(v)
            } else {
                r is Skip
            },
            None => r is Skip,
        },
{
    match frame {
        None => WriteAction::Finish,
        Some(Err(s)) => WriteAction::Fail(s),
        Some(Ok(req)) => match bytes_to_write(req.b) {
            Some(v) => WriteAction::Write(v),
            None => WriteAction::Skip,
        },
    }
}

} // verus!
