//! Netscape cookie-file lines: seven tab-separated fields per cookie.

use vstd::prelude::*;

use crate::error::{LivestreamDLError, LivestreamDLErrorV};
use crate::text::{spec_split, spec_trim_start_matches, split_char, trim_start_matches};
use crate::urlutil::{norm_url, parse_absolute_url};

verus! {

/// What a well-formed cookie line yields: the `https` URL derived from
/// the domain field (leading dots dropped), and the `name=value` pair.
/// A line without exactly seven tab-separated fields, or whose domain
/// yields no valid URL, is rejected (non-fatal for the caller).
pub open spec fn spec_parse_cookie(line: Seq<char>) -> Result<
    (Seq<char>, Seq<char>),
    LivestreamDLErrorV,
> {
    let fields = spec_split(line, '\t');
    if fields.len() == 7 {
        let domain = spec_trim_start_matches(fields[0], "."@);
        match norm_url("https://"@ + domain) {
            Option::Some(u) => Ok((u, fields[5] + "="@ + fields[6])),
            Option::None => Err(LivestreamDLErrorV::ParseCookie { line }),
        }
    } else {
        Err(LivestreamDLErrorV::ParseCookie { line })
    }
}

/// Parses one cookie line into the domain URL to bind it to and the
/// cookie string to set.
pub fn parse_cookie(line: &str) -> (r: Result<(String, String), LivestreamDLError>)
    ensures
        match r {
            Ok(p) => spec_parse_cookie(line@) == Ok::<(Seq<char>, Seq<char>), LivestreamDLErrorV>(
                (p.0@, p.1@),
            ),
            Err(e) => spec_parse_cookie(line@) == Err::<(Seq<char>, Seq<char>), LivestreamDLErrorV>(
                e@,
            ),
        },
{
    let fields = split_char(line, '\t');
    if fields.len() != 7 {
        return Err(LivestreamDLError::ParseCookie { line: line.to_owned() });
    }
    let domain = trim_start_matches(fields[0].as_str(), ".");
    let mut candidate = String::from_str("https://");
    candidate.append(domain.as_str());
    match parse_absolute_url(candidate.as_str()) {
        Some(u) => {
            let mut cookie = fields[5].clone();
            cookie.append("=");
            cookie.append(fields[6].as_str());
            proof {
                assert(fields@.map_values(|t: String| t@)[0] == fields@[0]@);
                assert(fields@.map_values(|t: String| t@)[5] == fields@[5]@);
                assert(fields@.map_values(|t: String| t@)[6] == fields@[6]@);
            }
            Ok((u, cookie))
        },
        None => Err(LivestreamDLError::ParseCookie { line: line.to_owned() }),
    }
}

} // verus!
