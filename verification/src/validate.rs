//! Validation of candidate target URLs: a submitted string is acceptable
//! only if it parses as an absolute URL whose scheme is `http` or `https`
//! and which has a non-empty host.

use vstd::prelude::*;

verus! {

/// What parsing a string as an absolute URL yields: `None` when the string
/// is not an absolute URL, otherwise the parsed scheme (lower-cased) and
/// whether the URL has a host. The result is a function of the string alone.
pub uninterp spec fn spec_url_parts(s: Seq<char>) -> Option<(Seq<char>, bool)>;

/// A string is an acceptable target URL when it parses as an absolute URL,
/// its scheme is exactly `http` or `https`, and a host is present.
pub open spec fn spec_is_valid_url(s: Seq<char>) -> bool {
    match spec_url_parts(s) {
        Some(parts) => (parts.0 == "http"@ || parts.0 == "https"@) && parts.1,
        None => false,
    }
}

/// Relies on `url::Url::parse`, with `Url::scheme` and `Url::has_host` on
/// its result: whether a string parses as an absolute URL, its scheme
/// (which `Url::parse` normalises to lower case) and whether it has a host
/// are functions of the input string alone. Parsing fails on relative
/// references and on malformed input.
#[verifier::external_body]
fn parse_url_parts(s: &str) -> (r: Option<(String, bool)>)
    ensures
        r matches Some(p) ==> spec_url_parts(s@) == Some::<(Seq<char>, bool)>((p.0@, p.1)),
        r is None <==> spec_url_parts(s@) is None,
{
    match url::Url::parse(s) {
        Ok(u) => Some((u.scheme().to_owned(), u.has_host())),
        Err(_) => None,
    }
}

/// Decides whether `candidate` may be stored as a target URL: true exactly
/// for absolute `http`/`https` URLs with a host. A pure predicate; no
/// network access or name resolution.
pub fn is_valid_url(candidate: &str) -> (r: bool)
    ensures
        r == spec_is_valid_url(candidate@),
{
    match parse_url_parts(candidate) {
        Some(parts) => {
            let http: String = "http".to_owned();
            let https: String = "https".to_owned();
            (parts.0 == http || parts.0 == https) && parts.1
        },
        None => false,
    }
}

} // verus!
