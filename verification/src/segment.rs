//! A media segment: initialization header bytes, or one numbered span of
//! the stream's timeline.

use vstd::prelude::*;

use crate::media_format::MediaFormat;
use crate::remote_data::{RemoteData, RemoteDataV};
use crate::text::{spec_pad_left, dec_digits, u64_string_pad};

verus! {

/// Type of media segment.  A `Sequence` segment is ordered by the key
/// `(discon_seq, seq)`: the discontinuity sequence first, the playlist's
/// media sequence number second.
#[derive(Clone, PartialEq, Eq, Hash, Debug)]
pub enum Segment {
    /// Shared header bytes that prefix following sequence segments.
    Initialization { data: RemoteData },
    /// One numbered media segment of the capture timeline.
    Sequence { data: RemoteData, discon_seq: u64, seq: u64, format: MediaFormat },
}

/// Mathematical model of a [`Segment`].
pub enum SegmentV {
    Initialization { data: RemoteDataV },
    Sequence { data: RemoteDataV, discon_seq: u64, seq: u64, format: MediaFormat },
}

impl View for Segment {
    type V = SegmentV;

    open spec fn view(&self) -> SegmentV {
        match self {
            Segment::Initialization { data } => SegmentV::Initialization { data: data@ },
            Segment::Sequence { data, discon_seq, seq, format } => SegmentV::Sequence {
                data: data@,
                discon_seq: *discon_seq,
                seq: *seq,
                format: *format,
            },
        }
    }
}

impl SegmentV {
    /// The string identifier of the segment, embedded in file names:
    /// `init`, or the zero-padded key `d<discon>s<seq>`.
    pub open spec fn spec_id(self) -> Seq<char> {
        match self {
            SegmentV::Initialization { .. } => "init"@,
            SegmentV::Sequence { discon_seq, seq, .. } => "d"@ + spec_pad_left(
                dec_digits(discon_seq as nat),
                10,
                '0',
            ) + "s"@ + spec_pad_left(dec_digits(seq as nat), 10, '0'),
        }
    }

    /// The resource the segment's payload is fetched from.
    pub open spec fn spec_data(self) -> RemoteDataV {
        match self {
            SegmentV::Initialization { data } => data,
            SegmentV::Sequence { data, .. } => data,
        }
    }
}

/// Ordering key of a sequence segment: discontinuity sequence first,
/// media sequence second.
pub open spec fn spec_key_lt(d1: u64, s1: u64, d2: u64, s2: u64) -> bool {
    d1 < d2 || (d1 == d2 && s1 < s2)
}

/// `(d1, s1) <= (d2, s2)` in the segment key order.
pub open spec fn spec_key_le(d1: u64, s1: u64, d2: u64, s2: u64) -> bool {
    d1 < d2 || (d1 == d2 && s1 <= s2)
}

impl Segment {
    /// URL of the segment's payload.
    pub fn url(&self) -> (r: &String)
        ensures
            r@ == self@.spec_data().url,
    {
        match self {
            Segment::Initialization { data } => data.url(),
            Segment::Sequence { data, .. } => data.url(),
        }
    }

    /// String identifier of the segment, embedded in file names.
    pub fn id(&self) -> (r: String)
        ensures
            r@ == self@.spec_id(),
    {
        match self {
            Segment::Initialization { .. } => String::from_str("init"),
            Segment::Sequence { discon_seq, seq, .. } => {
                let mut s = String::from_str("d");
                let d = u64_string_pad(*discon_seq, 10);
                s.append(d.as_str());
                s.append("s");
                let q = u64_string_pad(*seq, 10);
                s.append(q.as_str());
                s
            },
        }
    }

    /// The `Range` header value for the segment's byte range, if it has
    /// one.
    pub fn byte_range(&self) -> (r: Option<String>)
        requires
            (match self {
                Segment::Initialization { data } => data.wf(),
                Segment::Sequence { data, .. } => data.wf(),
            }),
        ensures
            match (r, self@.spec_data().byte_range) {
                (Some(s), Some(b)) => s@ == crate::remote_data::spec_range_header(b),
                (None, None) => true,
                _ => false,
            },
    {
        match self {
            Segment::Initialization { data } => data.byte_range_string(),
            Segment::Sequence { data, .. } => data.byte_range_string(),
        }
    }

    /// The segment payload's resource identity.
    pub fn data(&self) -> (r: &RemoteData)
        ensures
            r@ == self@.spec_data(),
    {
        match self {
            Segment::Initialization { data } => data,
            Segment::Sequence { data, .. } => data,
        }
    }
}

} // verus!
