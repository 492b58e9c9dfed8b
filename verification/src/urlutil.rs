//! URL resolution against a playlist's base, through the `url` crate.

use vstd::prelude::*;

use crate::error::{LivestreamDLError, LivestreamDLErrorV};

verus! {

/// What resolving `url` against `base` yields: the normalized absolute
/// URL, or `None` where neither parsing nor joining succeeds.
pub uninterp spec fn join_url(base: Seq<char>, url: Seq<char>) -> Option<Seq<char>>;

/// The normalized form of an absolute URL string, or `None` where it
/// does not parse on its own.
pub uninterp spec fn norm_url(url: Seq<char>) -> Option<Seq<char>>;

/// Create an absolute URL from a possibly relative URL and a base URL if
/// needed.
///
/// Relies on `url::Url::parse` and `url::Url::join`: both are functions
/// of their string arguments alone, and a URL that parses as absolute is
/// kept (normalized) without consulting the base.
#[verifier::external_body]
pub fn make_absolute_url(base: &str, url: &str) -> (r: Result<String, LivestreamDLError>)
    ensures
        match r {
            Ok(u) => join_url(base@, url@) == Some(u@),
            Err(e) => join_url(base@, url@) is None && e@ == (LivestreamDLErrorV::ParseUrl {
                url: url@,
            }),
        },
{
    match url::Url::parse(url) {
        Ok(u) => Ok(String::from(u)),
        Err(url::ParseError::RelativeUrlWithoutBase) => {
            match url::Url::parse(base).and_then(|b| b.join(url)) {
                Ok(u) => Ok(String::from(u)),
                Err(_) => Err(LivestreamDLError::ParseUrl { url: url.to_owned() }),
            }
        },
        Err(_) => Err(LivestreamDLError::ParseUrl { url: url.to_owned() }),
    }
}

/// Validates and normalizes an absolute URL string.
///
/// Relies on `url::Url::parse`: a function of its string argument alone.
#[verifier::external_body]
pub(crate) fn parse_absolute_url(url: &str) -> (r: Option<String>)
    ensures
        match r {
            Some(u) => norm_url(url@) == Some(u@),
            None => norm_url(url@) is None,
        },
{
    match url::Url::parse(url) {
        Ok(u) => Some(String::from(u)),
        Err(_) => None,
    }
}

} // verus!
