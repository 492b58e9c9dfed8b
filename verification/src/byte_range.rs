//! Sub-span of a remote resource, addressed over HTTP with a `Range` header.

use vstd::prelude::*;

verus! {

/// A byte range of a remote resource: `length` bytes starting at `offset`
/// (or at 0 when no offset is given).  The range is half-open:
/// `[start, start + length)`.
#[derive(Clone, Copy, Debug, PartialEq, Eq, Hash, Structural)]
pub struct ByteRange {
    pub length: u64,
    pub offset: Option<u64>,
}

impl ByteRange {
    /// First byte position covered by the range.
    pub open spec fn spec_start(self) -> u64 {
        match self.offset {
            Some(o) => o,
            None => 0,
        }
    }

    /// Last byte position of the range in an HTTP `Range` header,
    /// which is inclusive: `start + length - 1`, saturating at `start`
    /// for an empty range.
    pub open spec fn spec_end(self) -> int {
        if self.length == 0 {
            self.spec_start() as int
        } else {
            self.spec_start() + self.length - 1
        }
    }

    /// First byte position covered by the range.
    pub fn start(&self) -> (r: u64)
        ensures
            r == self.spec_start(),
    {
        match self.offset {
            Some(o) => o,
            None => 0,
        }
    }

    /// Inclusive end position for an HTTP `Range` header.
    pub fn end(&self) -> (r: u64)
        requires
            self.spec_end() <= u64::MAX,
        ensures
            r == self.spec_end(),
    {
        let s = self.start();
        if self.length == 0 {
            s
        } else {
            s + (self.length - 1)
        }
    }
}

} // verus!
