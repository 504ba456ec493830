use vstd::prelude::*;

use crate::io_error::IoError;
use crate::mtls::AddMtlsError;
use crate::text::{
    chars_eq, chars_of, eq_ignore_ascii_case, eq_ignore_ascii_case_exec, join, join_exec,
    labels_of, lemma_split_labels_nonempty, push_chars, split_labels, split_labels_exec,
    string_from_chars,
};
use crate::uri::{build_uri, uri_from_parts};

verus! {

/// Why a domain name could not be routed.
#[derive(Debug)]
pub enum RouterError {
    IOError(IoError),
    AddMtls(AddMtlsError),
    /// The name and the suffix that it was expected to end with.
    UnrecognisedSuffix(String, String),
    /// The label in front of the suffix, where there is one.
    BadSelector(Option<String>),
    ExpectKubeObject,
    BadServerIdentity,
    ExpectBrowser,
    PortUnreachable,
    UriError(http::Error),
}

/// Where a routed connection goes.
#[derive(Debug)]
pub enum Endpoint {
    /// Through the gateway, in the clear, to a port of a pod.
    Encap { namespace: String, pod: String, port: u16 },
    /// Through the gateway to a port of a pod, under TLS with the given expected
    /// server identity.
    Tls { namespace: String, pod: String, port: u16, server_identity: http::Uri },
    /// To the built-in web pages.
    Http,
    /// To the built-in API server.
    Api,
}

/// Routes names of the form `labels.selector.suffix` to endpoints.
pub struct DomainRouter {
    domain_suffix: Vec<Vec<char>>,
}

/// The arguments that configure a `DomainRouter`.
pub struct DomainRouterArgs {
    /// Fixed suffix which must appear at the end of domain names and will be stripped.
    pub domain_suffix: Option<String>,
}

/// The decision that routing takes for a name, over texts.
pub enum Route {
    UnrecognisedSuffix,
    BadSelector(Option<Seq<char>>),
    ExpectKubeObject,
    BadServerIdentity,
    ExpectBrowser,
    PortUnreachable,
    Encap { namespace: Seq<char>, pod: Seq<char> },
    Tls {
        namespace: Seq<char>,
        pod: Seq<char>,
        scheme: Seq<char>,
        authority: Seq<char>,
        path: Seq<char>,
    },
    Http,
    Api,
}

pub open spec fn marker() -> Seq<char> {
    seq!['_']
}

pub open spec fn dot() -> Seq<char> {
    seq!['.']
}

/// The labels end with the suffix labels, each compared without regard to ASCII case.
pub open spec fn has_suffix(labels: Seq<Seq<char>>, suffix: Seq<Seq<char>>) -> bool {
    &&& labels.len() >= suffix.len()
    &&& forall|i: int|
        0 <= i < suffix.len() ==> #[trigger] eq_ignore_ascii_case(
            labels[labels.len() - suffix.len() + i],
            suffix[i],
        )
}

/// The position of the first label that is exactly `_`, or the number of labels
/// where there is none.
pub open spec fn marker_index(labels: Seq<Seq<char>>) -> nat
    decreases labels.len(),
{
    if labels.len() == 0 {
        0
    } else if labels[0] == marker() {
        0
    } else {
        1 + marker_index(labels.skip(1))
    }
}

/// A label with one leading `_` removed, where it has one.
pub open spec fn strip_escape(label: Seq<char>) -> Seq<char> {
    if label.len() > 0 && label[0] == '_' {
        label.skip(1)
    } else {
        label
    }
}

/// The URI path that path labels encode: each label is preceded by `/`, except
/// that a label `_` stands for a `.` that joins its neighbours, and a label that
/// begins with `_` loses that first `_`.
pub open spec fn decode_path(labels: Seq<Seq<char>>) -> Seq<char>
    decreases labels.len(),
{
    if labels.len() == 0 {
        Seq::<char>::empty()
    } else if labels[0] == marker() {
        if labels.len() == 1 {
            dot()
        } else {
            dot() + strip_escape(labels[1]) + decode_path(labels.skip(2))
        }
    } else {
        seq!['/'] + strip_escape(labels[0]) + decode_path(labels.skip(1))
    }
}

/// Each label preceded by `/`.
pub open spec fn slash_path(labels: Seq<Seq<char>>) -> Seq<char>
    decreases labels.len(),
{
    if labels.len() == 0 {
        Seq::<char>::empty()
    } else {
        seq!['/'] + labels[0] + slash_path(labels.skip(1))
    }
}

/// Path labels that do not begin with `_` are joined with `/` to form the path,
/// each behind its own `/`.
pub proof fn lemma_plain_path_labels(labels: Seq<Seq<char>>)
    requires
        forall|i: int| 0 <= i < labels.len() ==> #[trigger] labels[i].len() == 0 || labels[i][0] != '_',
    ensures
        decode_path(labels) == slash_path(labels),
    decreases labels.len(),
{
    if labels.len() > 0 {
        assert(labels[0].len() == 0 || labels[0][0] != '_');
        assert(labels[0] != marker()) by {
            if labels[0] == marker() {
                assert(labels[0][0] == '_');
            }
        }
        assert(strip_escape(labels[0]) == labels[0]);
        assert forall|i: int| 0 <= i < labels.skip(1).len() implies #[trigger] labels.skip(1)[i].len()
            == 0 || labels.skip(1)[i][0] != '_' by {
            assert(labels.skip(1)[i] == labels[i + 1]);
        }
        lemma_plain_path_labels(labels.skip(1));
    }
}

/// In a path, a label `_` joins its two neighbours with a `.` in place of a
/// `/`; a label that begins with `_` and has more after it keeps the rest, as an
/// ordinary path segment.
pub proof fn lemma_path_markers(a: Seq<char>, b: Seq<char>)
    requires
        a.len() == 0 || a[0] != '_',
        b.len() == 0 || b[0] != '_',
    ensures
        decode_path(seq![a, marker(), b]) == seq!['/'] + a + seq!['.'] + b,
        a.len() + b.len() > 0 ==> decode_path(seq![seq!['_'] + a + b]) == seq!['/'] + a + b,
{
    let l = seq![a, marker(), b];
    assert(a != marker()) by {
        if a == marker() {
            assert(a[0] == '_');
        }
    }
    assert(strip_escape(a) == a);
    assert(strip_escape(b) == b);
    let m = seq![marker(), b];
    assert(l.skip(1) =~= m);
    assert(m[0] == marker() && m[1] == b);
    assert(m.skip(2) =~= Seq::<Seq<char>>::empty());
    assert(decode_path(Seq::<Seq<char>>::empty()) == Seq::<char>::empty());
    assert(decode_path(m) =~= seq!['.'] + b);
    assert(decode_path(l) =~= seq!['/'] + a + seq!['.'] + b);
    let e = seq!['_'] + a + b;
    if a.len() + b.len() > 0 {
        assert(e != marker()) by {
            assert(e.len() > 1);
        }
        assert(e[0] == '_');
        assert(strip_escape(e) =~= a + b);
        assert(seq![e].skip(1) =~= Seq::<Seq<char>>::empty());
        assert(decode_path(seq![e]) =~= seq!['/'] + a + b);
    }
}

/// The scheme, authority and path of the server identity that the labels in
/// front of `https` encode: `scheme[.host-label]*[._[.path-label]*]._`.
pub open spec fn identity_parts(front: Seq<Seq<char>>) -> Option<(Seq<char>, Seq<char>, Seq<char>)> {
    if front.len() < 2 || front.last() != marker() {
        None
    } else {
        let inner = front.drop_last();
        let rest = inner.skip(1);
        let m = marker_index(rest);
        let path_labels = if m < rest.len() {
            rest.skip(m + 1 as int)
        } else {
            Seq::<Seq<char>>::empty()
        };
        Some((inner[0], join(rest.take(m as int), dot()), decode_path(path_labels)))
    }
}

/// Where a `(protocol).(pod).(namespace)` name goes, given the labels in front of
/// `pod`.
pub open spec fn pod_route(rest: Seq<Seq<char>>) -> Route {
    if rest.len() < 3 {
        Route::ExpectKubeObject
    } else {
        let namespace = rest[rest.len() - 1];
        let pod = rest[rest.len() - 2];
        let protocol = rest[rest.len() - 3];
        let front = rest.take(rest.len() - 3);
        if protocol == seq!['h', 't', 't', 'p'] {
            if front.len() > 0 {
                Route::ExpectKubeObject
            } else {
                Route::Encap { namespace, pod }
            }
        } else if protocol == seq!['h', 't', 't', 'p', 's'] {
            match identity_parts(front) {
                None => Route::BadServerIdentity,
                Some((scheme, authority, path)) => Route::Tls {
                    namespace,
                    pod,
                    scheme,
                    authority,
                    path,
                },
            }
        } else {
            Route::ExpectKubeObject
        }
    }
}

/// Where a `browser` name goes, given the labels in front of `browser`.
pub open spec fn browser_route(rest: Seq<Seq<char>>, port: u16) -> Route {
    if port != 80 {
        Route::PortUnreachable
    } else if rest.len() > 0 && rest.last() == seq!['a', 'p', 'i'] {
        if rest.len() > 1 {
            Route::ExpectBrowser
        } else {
            Route::Api
        }
    } else {
        Route::Http
    }
}

/// Where a name goes, given the suffix labels that it must end with.
pub open spec fn route(suffix: Seq<Seq<char>>, name: Seq<char>, port: u16) -> Route {
    let labels = split_labels(name);
    if !has_suffix(labels, suffix) {
        Route::UnrecognisedSuffix
    } else {
        let rest = labels.take(labels.len() - suffix.len());
        if rest.len() == 0 {
            Route::BadSelector(None)
        } else if eq_ignore_ascii_case(rest.last(), seq!['p', 'o', 'd']) {
            pod_route(rest.drop_last())
        } else if eq_ignore_ascii_case(rest.last(), seq!['b', 'r', 'o', 'w', 's', 'e', 'r']) {
            browser_route(rest.drop_last(), port)
        } else {
            Route::BadSelector(Some(rest.last()))
        }
    }
}

/// The outcome of routing is the one that the decision `d` calls for.
pub open spec fn outcome_is(
    r: Result<Endpoint, RouterError>,
    name: Seq<char>,
    suffix_text: Seq<char>,
    port: u16,
    d: Route,
) -> bool {
    match d {
        Route::UnrecognisedSuffix => r matches Err(RouterError::UnrecognisedSuffix(n, s)) && n@
            == name && s@ == suffix_text,
        Route::BadSelector(None) => r matches Err(RouterError::BadSelector(None)),
        Route::BadSelector(Some(sel)) => r matches Err(RouterError::BadSelector(Some(s))) && s@
            == sel,
        Route::ExpectKubeObject => r matches Err(RouterError::ExpectKubeObject),
        Route::BadServerIdentity => r matches Err(RouterError::BadServerIdentity),
        Route::ExpectBrowser => r matches Err(RouterError::ExpectBrowser),
        Route::PortUnreachable => r matches Err(RouterError::PortUnreachable),
        Route::Encap { namespace, pod } => r matches Ok(
            Endpoint::Encap { namespace: n, pod: p, port: q },
        ) && n@ == namespace && p@ == pod && q == port,
        Route::Tls { namespace, pod, scheme, authority, path } => match uri_from_parts(
            scheme,
            authority,
            path,
        ) {
            None => r matches Err(RouterError::UriError(_)),
            Some(u) => r matches Ok(Endpoint::Tls { namespace: n, pod: p, port: q, server_identity: i })
                && n@ == namespace && p@ == pod && q == port && i == u,
        },
        Route::Http => r matches Ok(Endpoint::Http),
        Route::Api => r matches Ok(Endpoint::Api),
    }
}

fn is_marker_exec(label: &Vec<char>) -> (r: bool)
    ensures
        r == (label@ == marker()),
{
    let m: Vec<char> = vec!['_'];
    let r = chars_eq(label.as_slice(), m.as_slice());
    assert(m@ =~= marker());
    r
}

fn strip_escape_exec(label: &Vec<char>) -> (r: Vec<char>)
    ensures
        r@ == strip_escape(label@),
{
    let mut r: Vec<char> = Vec::new();
    let start: usize = if label.len() > 0 && label[0] == '_' {
        1
    } else {
        0
    };
    let mut i: usize = start;
    while i < label.len()
        invariant
            start <= i <= label.len(),
            r@ == label@.subrange(start as int, i as int),
        decreases label.len() - i,
    {
        r.push(label[i]);
        i = i + 1;
        assert(r@ =~= label@.subrange(start as int, i as int));
    }
    assert(label@.subrange(0, label.len() as int) =~= label@);
    r
}

/// Decodes the path that the labels `labels[from..to]` encode.
fn decode_escaped_path(labels: &Vec<Vec<char>>, from: usize, to: usize) -> (r: Vec<char>)
    requires
        from <= to <= labels.len(),
    ensures
        r@ == decode_path(labels_of(labels@).subrange(from as int, to as int)),
{
    let ghost all = labels_of(labels@).subrange(from as int, to as int);
    let mut r: Vec<char> = Vec::new();
    let mut k: usize = from;
    assert(all.skip(0) =~= all);
    assert(r@ + decode_path(all) =~= decode_path(all)) by {
        assert(r@ =~= Seq::<char>::empty());
    }
    while k < to
        invariant
            from <= k <= to,
            to <= labels.len(),
            all == labels_of(labels@).subrange(from as int, to as int),
            r@ + decode_path(all.skip(k - from)) == decode_path(all),
        decreases to - k,
    {
        let ghost p = all.skip(k - from);
        assert(p[0] == labels[k as int]@);
        if is_marker_exec(&labels[k]) {
            r.push('.');
            k = k + 1;
            if k < to {
                assert(p[1] == labels[k as int]@);
                assert(p.skip(2) =~= all.skip(k + 1 - from));
                let s = strip_escape_exec(&labels[k]);
                push_chars(&mut r, s.as_slice());
                k = k + 1;
                assert(decode_path(p) == dot() + strip_escape(p[1]) + decode_path(p.skip(2)));
            } else {
                assert(all.skip(k - from) =~= Seq::<Seq<char>>::empty());
                assert(decode_path(p) == dot());
            }
            assert(r@ + decode_path(all.skip(k - from)) =~= decode_path(all));
        } else {
            r.push('/');
            let s = strip_escape_exec(&labels[k]);
            push_chars(&mut r, s.as_slice());
            assert(p.skip(1) =~= all.skip(k + 1 - from));
            k = k + 1;
            assert(decode_path(p) == seq!['/'] + strip_escape(p[0]) + decode_path(p.skip(1)));
            assert(r@ + decode_path(all.skip(k - from)) =~= decode_path(all));
        }
    }
    assert(all.skip(k - from) =~= Seq::<Seq<char>>::empty());
    assert(all.skip(0) =~= all);
    assert(r@ + Seq::<char>::empty() =~= r@);
    r
}

fn copy_label(l: &Vec<char>) -> (r: Vec<char>)
    ensures
        r@ == l@,
{
    let mut r: Vec<char> = Vec::new();
    push_chars(&mut r, l.as_slice());
    assert(r@ =~= l@);
    r
}

proof fn lemma_has_own_suffix(front: Seq<Seq<char>>, suffix: Seq<Seq<char>>)
    ensures
        has_suffix(front + suffix, suffix),
{
    let labels = front + suffix;
    assert forall|i: int| 0 <= i < suffix.len() implies #[trigger] eq_ignore_ascii_case(
        labels[labels.len() - suffix.len() + i],
        suffix[i],
    ) by {
        assert(labels[labels.len() - suffix.len() + i] == suffix[i]);
    }
}

/// Only a name that ends with the suffix labels, each equal to its suffix label
/// without regard to ASCII case, gets past the suffix check; any other name is
/// an unrecognised suffix.
pub proof fn lemma_route_needs_suffix(suffix: Seq<Seq<char>>, name: Seq<char>, port: u16)
    ensures
        !(route(suffix, name, port) is UnrecognisedSuffix) <==> (split_labels(name).len()
            >= suffix.len() && forall|i: int|
            0 <= i < suffix.len() ==> #[trigger] eq_ignore_ascii_case(
                split_labels(name)[split_labels(name).len() - suffix.len() + i],
                suffix[i],
            )),
{
}

/// A name whose labels are `http`, a pod, a namespace and `pod`, then the
/// router's suffix, is routed in the clear through the gateway to that pod in
/// that namespace, at the port asked for.
pub proof fn lemma_connect_http_pod(
    suffix: Seq<Seq<char>>,
    name: Seq<char>,
    suffix_text: Seq<char>,
    port: u16,
    pod: Seq<char>,
    namespace: Seq<char>,
    r: Result<Endpoint, RouterError>,
)
    requires
        split_labels(name) == seq![seq!['h', 't', 't', 'p'], pod, namespace, seq!['p', 'o', 'd']]
            + suffix,
        outcome_is(r, name, suffix_text, port, route(suffix, name, port)),
    ensures
        r matches Ok(Endpoint::Encap { namespace: n, pod: p, port: q }) && n@ == namespace && p@
            == pod && q == port,
{
    let front = seq![seq!['h', 't', 't', 'p'], pod, namespace, seq!['p', 'o', 'd']];
    let labels = split_labels(name);
    lemma_has_own_suffix(front, suffix);
    assert(labels.take(labels.len() - suffix.len()) =~= front);
    assert(front.drop_last() =~= seq![seq!['h', 't', 't', 'p'], pod, namespace]);
    assert(front.drop_last().take(0) =~= Seq::<Seq<char>>::empty());
}

/// A name whose labels are `browser`, then the router's suffix, goes to the
/// built-in web pages on port 80 and nowhere on any other port; with `api` in
/// front of `browser` it goes to the built-in API on port 80.
pub proof fn lemma_connect_browser(
    suffix: Seq<Seq<char>>,
    name: Seq<char>,
    suffix_text: Seq<char>,
    port: u16,
    r: Result<Endpoint, RouterError>,
)
    requires
        split_labels(name) == seq![seq!['b', 'r', 'o', 'w', 's', 'e', 'r']] + suffix
            || split_labels(name) == seq![seq!['a', 'p', 'i'], seq!['b', 'r', 'o', 'w', 's', 'e', 'r']]
            + suffix,
        outcome_is(r, name, suffix_text, port, route(suffix, name, port)),
    ensures
        port != 80 ==> (r matches Err(RouterError::PortUnreachable)),
        port == 80 && split_labels(name).len() == suffix.len() + 1 ==> (r matches Ok(Endpoint::Http)),
        port == 80 && split_labels(name).len() == suffix.len() + 2 ==> (r matches Ok(Endpoint::Api)),
{
    let labels = split_labels(name);
    let b = seq!['b', 'r', 'o', 'w', 's', 'e', 'r'];
    if labels == seq![b] + suffix {
        lemma_has_own_suffix(seq![b], suffix);
        assert(labels.take(labels.len() - suffix.len()) =~= seq![b]);
        assert(seq![b].drop_last() =~= Seq::<Seq<char>>::empty());
    } else {
        let front = seq![seq!['a', 'p', 'i'], b];
        lemma_has_own_suffix(front, suffix);
        assert(labels.take(labels.len() - suffix.len()) =~= front);
        assert(front.drop_last() =~= seq![seq!['a', 'p', 'i']]);
    }
}

/// A name whose labels are a scheme, host labels, `_`, path labels, `_`,
/// `https`, a pod, a namespace and `pod`, then the router's suffix, is routed
/// under TLS through the gateway to that pod in that namespace, at the port
/// asked for; the expected server identity is the URI built from the scheme,
/// the host labels joined by dots, and the path labels each behind a `/`.
pub proof fn lemma_connect_https_pod(
    suffix: Seq<Seq<char>>,
    name: Seq<char>,
    suffix_text: Seq<char>,
    port: u16,
    scheme: Seq<char>,
    hosts: Seq<Seq<char>>,
    paths: Seq<Seq<char>>,
    pod: Seq<char>,
    namespace: Seq<char>,
    r: Result<Endpoint, RouterError>,
)
    requires
        forall|i: int| 0 <= i < hosts.len() ==> #[trigger] hosts[i] != marker(),
        forall|i: int| 0 <= i < paths.len() ==> #[trigger] paths[i].len() == 0 || paths[i][0] != '_',
        split_labels(name) == seq![scheme] + hosts + seq![marker()] + paths + seq![
            marker(),
            seq!['h', 't', 't', 'p', 's'],
            pod,
            namespace,
            seq!['p', 'o', 'd'],
        ] + suffix,
        outcome_is(r, name, suffix_text, port, route(suffix, name, port)),
    ensures
        match uri_from_parts(scheme, join(hosts, dot()), slash_path(paths)) {
            None => r matches Err(RouterError::UriError(_)),
            Some(u) => r matches Ok(Endpoint::Tls { namespace: n, pod: p, port: q, server_identity: i })
                && n@ == namespace && p@ == pod && q == port && i == u,
        },
{
    let ident = seq![scheme] + hosts + seq![marker()] + paths + seq![marker()];
    let front = ident + seq![seq!['h', 't', 't', 'p', 's'], pod, namespace, seq!['p', 'o', 'd']];
    let labels = split_labels(name);
    assert(labels =~= front + suffix);
    lemma_has_own_suffix(front, suffix);
    assert(labels.take(labels.len() - suffix.len()) =~= front);
    let rest = front.drop_last();
    assert(rest.take(rest.len() - 3) =~= ident);
    assert(rest[rest.len() - 3] == seq!['h', 't', 't', 'p', 's']);
    assert(rest[rest.len() - 2] == pod);
    assert(rest[rest.len() - 1] == namespace);
    let inner = ident.drop_last();
    assert(inner =~= seq![scheme] + hosts + seq![marker()] + paths);
    let after = inner.skip(1);
    assert(after =~= hosts + seq![marker()] + paths);
    assert forall|i: int| 0 <= i < hosts.len() implies after[i] != marker() by {
        assert(after[i] == hosts[i]);
    }
    lemma_marker_index_is_first(after, hosts.len() as int);
    assert(after.take(hosts.len() as int) =~= hosts);
    assert(after.skip(hosts.len() + 1 as int) =~= paths);
    lemma_plain_path_labels(paths);
    assert(rest[rest.len() - 3] != seq!['h', 't', 't', 'p']) by {
        assert(rest[rest.len() - 3].len() == 5);
    }
}

proof fn lemma_marker_index_is_first(labels: Seq<Seq<char>>, m: int)
    requires
        0 <= m <= labels.len(),
        forall|i: int| 0 <= i < m ==> labels[i] != marker(),
        m < labels.len() ==> labels[m] == marker(),
    ensures
        marker_index(labels) == m,
    decreases labels.len(),
{
    if labels.len() > 0 && m > 0 {
        assert forall|i: int| 0 <= i < m - 1 implies labels.skip(1)[i] != marker() by {
            assert(labels.skip(1)[i] == labels[i + 1]);
        }
        lemma_marker_index_is_first(labels.skip(1), m - 1);
    }
}

/// The expected server identity that the labels `labels[from..to]` encode.
fn extract_expected_identity(labels: &Vec<Vec<char>>, to: usize) -> (r: Result<http::Uri, RouterError>)
    requires
        to <= labels.len(),
    ensures
        match identity_parts(labels_of(labels@).take(to as int)) {
            None => r matches Err(RouterError::BadServerIdentity),
            Some((scheme, authority, path)) => match uri_from_parts(scheme, authority, path) {
                None => r matches Err(RouterError::UriError(_)),
                Some(u) => r == Ok::<http::Uri, RouterError>(u),
            },
        },
{
    let ghost front = labels_of(labels@).take(to as int);
    if to < 2 {
        return Err(RouterError::BadServerIdentity);
    }
    assert(front.last() == labels[to - 1]@);
    if !is_marker_exec(&labels[to - 1]) {
        return Err(RouterError::BadServerIdentity);
    }
    let ghost inner = front.drop_last();
    let ghost rest = inner.skip(1);
    assert(rest =~= labels_of(labels@).subrange(1, to - 1));
    assert(inner[0] == labels[0]@);
    let end = to - 1;
    let scheme = &labels[0];
    let mut host_labels: Vec<Vec<char>> = Vec::new();
    let mut i: usize = 1;
    while i < end && !is_marker_exec(&labels[i])
        invariant
            1 <= i <= end,
            end + 1 == to,
            to <= labels.len(),
            rest == labels_of(labels@).subrange(1, end as int),
            labels_of(host_labels@) == rest.take(i - 1),
            forall|j: int| 0 <= j < i - 1 ==> rest[j] != marker(),
        decreases end - i,
    {
        assert(rest[i - 1] == labels[i as int]@);
        let ghost before = host_labels@;
        let l = copy_label(&labels[i]);
        host_labels.push(l);
        assert(labels_of(host_labels@) =~= labels_of(before).push(rest[i - 1]));
        assert(rest.take(i as int) =~= rest.take(i - 1).push(rest[i - 1]));
        i = i + 1;
        assert(labels_of(host_labels@) =~= rest.take(i - 1));
    }
    proof {
        lemma_marker_index_is_first(rest, i - 1);
    }
    let path_from: usize = if i < end {
        i + 1
    } else {
        end
    };
    let sep: Vec<char> = vec!['.'];
    assert(sep@ =~= dot());
    let host = join_exec(host_labels.as_slice(), sep.as_slice());
    let path = decode_escaped_path(labels, path_from, end);
    assert(labels_of(labels@).subrange(path_from as int, end as int) =~= (if i < end {
        rest.skip(i as int)
    } else {
        Seq::<Seq<char>>::empty()
    }));
    let scheme_text = string_from_chars(scheme.as_slice());
    let host_text = string_from_chars(host.as_slice());
    let path_text = string_from_chars(path.as_slice());
    match build_uri(scheme_text.as_str(), host_text.as_str(), path_text.as_str()) {
        Ok(u) => Ok(u),
        Err(e) => Err(RouterError::UriError(e)),
    }
}

impl DomainRouter {
    /// The labels that every routed name must end with.
    pub closed spec fn suffix(&self) -> Seq<Seq<char>> {
        labels_of(self.domain_suffix@)
    }

    /// A router for the suffix given in the arguments, split into labels at each
    /// dot; no suffix where none is given.
    pub fn new(a: DomainRouterArgs) -> (r: DomainRouter)
        ensures
            r.suffix() == match a.domain_suffix {
                None => Seq::<Seq<char>>::empty(),
                Some(s) => split_labels(s@),
            },
    {
        match a.domain_suffix {
            None => {
                let r = DomainRouter { domain_suffix: Vec::new() };
                assert(r.suffix() =~= Seq::<Seq<char>>::empty());
                r
            },
            Some(s) => {
                let cs = chars_of(s.as_str());
                DomainRouter { domain_suffix: split_labels_exec(cs.as_slice()) }
            },
        }
    }

    fn unrecognised_suffix(&self, name: &str) -> (r: RouterError)
        ensures
            r matches RouterError::UnrecognisedSuffix(n, s) && n@ == name@ && s@ == join(
                self.suffix(),
                dot(),
            ),
    {
        let sep: Vec<char> = vec!['.'];
        assert(sep@ =~= dot());
        let joined = join_exec(self.domain_suffix.as_slice(), sep.as_slice());
        RouterError::UnrecognisedSuffix(name.to_owned(), string_from_chars(joined.as_slice()))
    }

    /// Decides where a connection to `name` and `port` goes.
    ///
    /// The name is split into labels at each dot. It must end with the router's
    /// suffix labels (compared without regard to ASCII case); the label in front of
    /// them selects the kind of destination:
    /// - `(http|https).(pod).(namespace).pod`: a port of a pod reached through the
    ///   gateway; for `https` the labels in front encode the expected server identity
    ///   as `scheme[.host-label]*[._[.path-label]*]._`;
    /// - `browser` or `api.browser`, on port 80 only: the built-in web pages or API.
    ///
    /// For a TLS endpoint the TLS connector still has to be set up with the
    /// expected server identity; `serve_step` waits for that outcome before it
    /// answers the client, and a failure there is `RouterError::AddMtls`.
    pub fn connect(&self, name: &str, port: u16) -> (r: Result<Endpoint, RouterError>)
        ensures
            outcome_is(r, name@, join(self.suffix(), dot()), port, route(self.suffix(), name@, port)),
    {
        let cs = chars_of(name);
        let labels = split_labels_exec(cs.as_slice());
        proof {
            lemma_split_labels_nonempty(name@);
        }
        let ghost all = labels_of(labels@);
        let ghost suffix = self.suffix();
        let n = labels.len();
        let k = self.domain_suffix.len();
        if n < k {
            return Err(self.unrecognised_suffix(name));
        }
        let mut i: usize = 0;
        while i < k
            invariant
                i <= k,
                k == self.domain_suffix.len(),
                k <= n,
                n == labels.len(),
                all == labels_of(labels@),
                all == split_labels(name@),
                suffix == self.suffix(),
                forall|j: int|
                    0 <= j < i ==> #[trigger] eq_ignore_ascii_case(all[n - k + j], suffix[j]),
            decreases k - i,
        {
            if !eq_ignore_ascii_case_exec(
                labels[n - k + i].as_slice(),
                self.domain_suffix[i].as_slice(),
            ) {
                assert(!has_suffix(all, suffix)) by {
                    assert(all[n - k + i] == labels[n - k + i]@);
                    assert(suffix[i as int] == self.domain_suffix[i as int]@);
                }
                return Err(self.unrecognised_suffix(name));
            }
            assert(all[n - k + i] == labels[n - k + i]@);
            i = i + 1;
        }
        assert(has_suffix(all, suffix));
        let m = n - k;
        let ghost rest = all.take(m as int);
        if m == 0 {
            return Err(RouterError::BadSelector(None));
        }
        let selector = &labels[m - 1];
        assert(rest.last() == selector@);
        let pod_word: Vec<char> = vec!['p', 'o', 'd'];
        assert(pod_word@ =~= seq!['p', 'o', 'd']);
        let browser_word: Vec<char> = vec!['b', 'r', 'o', 'w', 's', 'e', 'r'];
        assert(browser_word@ =~= seq!['b', 'r', 'o', 'w', 's', 'e', 'r']);
        if eq_ignore_ascii_case_exec(selector.as_slice(), pod_word.as_slice()) {
            let ghost r2 = rest.drop_last();
            if m < 4 {
                return Err(RouterError::ExpectKubeObject);
            }
            let namespace = &labels[m - 2];
            let pod = &labels[m - 3];
            let protocol = &labels[m - 4];
            assert(r2[r2.len() - 1] == namespace@);
            assert(r2[r2.len() - 2] == pod@);
            assert(r2[r2.len() - 3] == protocol@);
            assert(r2.take(r2.len() - 3) =~= all.take(m - 4));
            let http_word: Vec<char> = vec!['h', 't', 't', 'p'];
            assert(http_word@ =~= seq!['h', 't', 't', 'p']);
            let https_word: Vec<char> = vec!['h', 't', 't', 'p', 's'];
            assert(https_word@ =~= seq!['h', 't', 't', 'p', 's']);
            if chars_eq(protocol.as_slice(), http_word.as_slice()) {
                if m - 4 > 0 {
                    return Err(RouterError::ExpectKubeObject);
                }
                Ok(
                    Endpoint::Encap {
                        namespace: string_from_chars(namespace.as_slice()),
                        pod: string_from_chars(pod.as_slice()),
                        port,
                    },
                )
            } else if chars_eq(protocol.as_slice(), https_word.as_slice()) {
                match extract_expected_identity(&labels, m - 4) {
                    Ok(u) => Ok(
                        Endpoint::Tls {
                            namespace: string_from_chars(namespace.as_slice()),
                            pod: string_from_chars(pod.as_slice()),
                            port,
                            server_identity: u,
                        },
                    ),
                    Err(e) => Err(e),
                }
            } else {
                Err(RouterError::ExpectKubeObject)
            }
        } else if eq_ignore_ascii_case_exec(selector.as_slice(), browser_word.as_slice()) {
            let ghost r2 = rest.drop_last();
            if port != 80 {
                return Err(RouterError::PortUnreachable);
            }
            let api_word: Vec<char> = vec!['a', 'p', 'i'];
            assert(api_word@ =~= seq!['a', 'p', 'i']);
            if m > 1 && chars_eq(labels[m - 2].as_slice(), api_word.as_slice()) {
                assert(r2.last() == labels[m - 2]@);
                if m > 2 {
                    Err(RouterError::ExpectBrowser)
                } else {
                    Ok(Endpoint::Api)
                }
            } else {
                assert(m > 1 ==> r2.last() == labels[m - 2]@);
                Ok(Endpoint::Http)
            }
        } else {
            Err(RouterError::BadSelector(Some(string_from_chars(selector.as_slice()))))
        }
    }
}

} // verus!
