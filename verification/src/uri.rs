use vstd::prelude::*;

verus! {

/// `http::Uri`, carried as it is.
#[verifier::external_type_specification]
#[verifier::external_body]
pub struct ExUri(http::Uri);

/// `http::Error`, carried as it is.
#[verifier::external_type_specification]
#[verifier::external_body]
pub struct ExHttpError(http::Error);

/// What `http::Uri::builder()` gives when it is handed a scheme, an authority
/// and a path-and-query and then built: `Some` of the URI, or `None` where one of
/// the parts is not valid for its place.
pub uninterp spec fn uri_from_parts(scheme: Seq<char>, authority: Seq<char>, path: Seq<char>) -> Option<http::Uri>;

/// Builds a URI with `http::Uri::builder()` from a scheme, an authority and a
/// path-and-query. The contract claims that the outcome depends on the three
/// texts alone, and names it `uri_from_parts`.
#[verifier::external_body]
pub(crate) fn build_uri(scheme: &str, authority: &str, path: &str) -> (r: Result<http::Uri, http::Error>)
    ensures
        r is Ok <==> uri_from_parts(scheme@, authority@, path@) is Some,
        r matches Ok(u) ==> uri_from_parts(scheme@, authority@, path@) == Some(u),
{
    http::Uri::builder().scheme(scheme).authority(authority).path_and_query(path).build()
}

/// `http::uri::InvalidUri`, carried as it is.
#[verifier::external_type_specification]
#[verifier::external_body]
pub struct ExInvalidUri(http::uri::InvalidUri);

/// What parsing a text as an `http::Uri` gives: `Some` of the URI, or `None`
/// where the text is not a valid URI.
pub uninterp spec fn uri_parse(text: Seq<char>) -> Option<http::Uri>;

/// Parses a text as a URI with `<http::Uri as FromStr>::from_str`. The contract
/// claims that the outcome depends on the text alone, and names it `uri_parse`.
#[verifier::external_body]
pub(crate) fn parse_uri(text: &str) -> (r: Result<http::Uri, http::uri::InvalidUri>)
    ensures
        r is Ok <==> uri_parse(text@) is Some,
        r matches Ok(u) ==> uri_parse(text@) == Some(u),
{
    text.parse::<http::Uri>()
}

/// Whether two URIs compare equal with `<http::Uri as PartialEq>::eq`, which
/// compares schemes and authorities without regard to ASCII case and paths and
/// queries exactly.
pub uninterp spec fn uri_equal(a: http::Uri, b: http::Uri) -> bool;

/// Compares two URIs with `<http::Uri as PartialEq>::eq`. The contract claims
/// that the answer depends on the two URIs alone, and names it `uri_equal`.
#[verifier::external_body]
pub(crate) fn uri_eq(a: &http::Uri, b: &http::Uri) -> (r: bool)
    ensures
        r == uri_equal(*a, *b),
{
    a == b
}

} // verus!
