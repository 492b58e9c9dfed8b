//! A fetchable byte span: a URL plus an optional byte range.

use vstd::prelude::*;

use crate::byte_range::ByteRange;
use crate::text::{dec_digits, str_eq, u64_string};

verus! {

/// Identifies a fetchable resource: segment payload, initialization
/// segment, or key.  Value type; equality is by URL and range.
#[derive(Clone, PartialEq, Eq, Hash, Debug)]
pub struct RemoteData {
    pub url: String,
    pub byte_range: Option<ByteRange>,
}

/// Mathematical model of a [`RemoteData`].
pub struct RemoteDataV {
    pub url: Seq<char>,
    pub byte_range: Option<ByteRange>,
}

impl View for RemoteData {
    type V = RemoteDataV;

    open spec fn view(&self) -> RemoteDataV {
        RemoteDataV { url: self.url@, byte_range: self.byte_range.view_opt() }
    }
}

/// Lifts `Option<ByteRange>` to its model; `ByteRange` is already plain.
pub trait OptionByteRangeView {
    /// The model of the optional range.
    spec fn view_opt(&self) -> Option<ByteRange>;
}

impl OptionByteRangeView for Option<ByteRange> {
    open spec fn view_opt(&self) -> Option<ByteRange> {
        match self {
            Some(b) => Some(*b),
            None => None,
        }
    }
}

/// The `Range` header value for a byte range: `bytes=<start>-<end>`,
/// with `end` inclusive.
pub open spec fn spec_range_header(r: ByteRange) -> Seq<char> {
    "bytes="@ + dec_digits(r.spec_start() as nat) + "-"@ + dec_digits(r.spec_end() as nat)
}

impl RemoteData {
    /// Well-formed when an attached byte range's inclusive end fits in `u64`.
    pub open spec fn wf(self) -> bool {
        match self@.byte_range {
            Some(b) => b.spec_end() <= u64::MAX,
            None => true,
        }
    }

    /// Creates a resource identity from a URL and an optional byte range.
    pub fn new(url: String, byte_range: Option<ByteRange>) -> (r: RemoteData)
        ensures
            r@.url == url@,
            r@.byte_range == byte_range.view_opt(),
    {
        RemoteData { url, byte_range }
    }

    /// URL of the resource.
    pub fn url(&self) -> (r: &String)
        ensures
            r@ == self@.url,
    {
        &self.url
    }

    /// The resource's byte range, if it has one.
    pub fn byte_range(&self) -> (r: Option<ByteRange>)
        ensures
            r == self@.byte_range,
    {
        self.byte_range
    }

    /// The `Range` header value to request this resource's span, absent
    /// when the whole resource is wanted.
    pub fn byte_range_string(&self) -> (r: Option<String>)
        requires
            self.wf(),
        ensures
            match (r, self@.byte_range) {
                (Some(s), Some(b)) => s@ == spec_range_header(b),
                (None, None) => true,
                _ => false,
            },
    {
        match &self.byte_range {
            None => None,
            Some(range) => {
                let start = range.start();
                let end = range.end();
                let mut s = String::from_str("bytes=");
                let ds = u64_string(start);
                s.append(ds.as_str());
                s.append("-");
                let de = u64_string(end);
                s.append(de.as_str());
                Some(s)
            },
        }
    }

    /// Whether two resources are the same, by URL and byte range.
    pub fn same(&self, other: &RemoteData) -> (r: bool)
        ensures
            r == (self@.url == other@.url && self@.byte_range == other@.byte_range),
    {
        let urls = str_eq(self.url.as_str(), other.url.as_str());
        let ranges = match (&self.byte_range, &other.byte_range) {
            (None, None) => true,
            (Some(a), Some(b)) => {
                let offs = match (a.offset, b.offset) {
                    (None, None) => true,
                    (Some(x), Some(y)) => x == y,
                    _ => false,
                };
                a.length == b.length && offs
            },
            _ => false,
        };
        urls && ranges
    }
}

} // verus!
