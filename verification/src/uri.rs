//! Document URIs. They are kept as text; how a URI splits into scheme and
//! path is asked of the `url` crate, through `tower_lsp::lsp_types::Url`.

use vstd::prelude::*;
use tower_lsp::lsp_types::Url;
use crate::text::{is_prefix, str_eq, starts_with};

verus! {

/// The scheme of `uri` as an absolute URL; `None` where it is not one.
pub uninterp spec fn scheme_of(uri: Seq<char>) -> Option<Seq<char>>;

/// The path of `uri` as an absolute URL; `None` where it is not one.
pub uninterp spec fn path_of(uri: Seq<char>) -> Option<Seq<char>>;

/// The scheme and the path of a URI.
#[derive(Debug, Clone)]
pub struct UriParts {
    pub scheme: String,
    pub path: String,
}

/// `Url::parse`, with `Url::scheme` and `Url::path` read off the result:
/// the two parts of `uri` where it is an absolute URL, nothing else.
#[verifier::external_body]
pub(crate) fn uri_parts(uri: &str) -> (r: Option<UriParts>)
    ensures
        match r {
            Some(parts) => scheme_of(uri@) == Some(parts.scheme@) && path_of(uri@) == Some(
                parts.path@,
            ),
            None => scheme_of(uri@) is None && path_of(uri@) is None,
        },
{
    match Url::parse(uri) {
        Ok(url) => Some(UriParts { scheme: url.scheme().to_string(), path: url.path().to_string() }),
        Err(_) => None,
    }
}

/// The scheme of `uri`, where it is an absolute URL.
pub fn uri_scheme(uri: &str) -> (r: Option<String>)
    ensures
        r.deep_view() == scheme_of(uri@),
{
    match uri_parts(uri) {
        Some(parts) => Some(parts.scheme),
        None => None,
    }
}

/// The scheme under which the sources of the Java platform's archive are
/// indexed.
pub open spec fn archive_scheme() -> Seq<char> {
    "jrsls-std"@
}

/// Where a declaration ranks by the place it comes from, given the scheme
/// of its URI: files first; then the archive, the platform's own packages
/// before the rest of it; then every other scheme, and what is no URL.
pub open spec fn priority_of(scheme: Option<Seq<char>>, fqmn: Seq<char>) -> int {
    if scheme == Some("file"@) {
        0
    } else if scheme == Some(archive_scheme()) {
        if is_prefix("java."@, fqmn) {
            1
        } else {
            2
        }
    } else {
        3
    }
}

/// The rank of a declaration, from the scheme of its URI and its qualified
/// name.
pub fn priority_for_scheme(scheme: &Option<String>, fqmn: &str) -> (r: i32)
    ensures
        r == priority_of(scheme.deep_view(), fqmn@),
{
    match scheme {
        Some(s) => {
            if str_eq(s.as_str(), "file") {
                0
            } else if str_eq(s.as_str(), "jrsls-std") {
                if starts_with(fqmn, "java.") {
                    1
                } else {
                    2
                }
            } else {
                3
            }
        },
        None => 3,
    }
}

/// The rank of a declaration at `uri`.
pub fn priority_for_uri(uri: &str, fqmn: &str) -> (r: i32)
    ensures
        r == priority_of(scheme_of(uri@), fqmn@),
{
    let scheme = uri_scheme(uri);
    priority_for_scheme(&scheme, fqmn)
}

} // verus!
