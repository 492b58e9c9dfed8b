//! The downloader pool's pure steps: assembling a segment's final bytes
//! and naming its file on disk.  Fetching runs outside the library; the
//! bytes come in as plain values.

use vstd::prelude::*;

use crate::segment::Segment;
use crate::stream::Stream;

verus! {

/// Prepends the initialization bytes (empty where the segment needs
/// none) to the decrypted payload.
pub fn assemble_segment(init: &Vec<u8>, payload: &Vec<u8>) -> (r: Vec<u8>)
    ensures
        r@ == init@ + payload@,
{
    let mut out: Vec<u8> = Vec::new();
    let mut i: usize = 0;
    while i < init.len()
        invariant
            i <= init@.len(),
            out@ == init@.subrange(0, i as int),
        decreases init@.len() - i,
    {
        out.push(init[i]);
        i += 1;
        proof {
            assert(out@ =~= init@.subrange(0, i as int));
        }
    }
    proof {
        assert(out@ =~= init@);
    }
    let mut j: usize = 0;
    while j < payload.len()
        invariant
            j <= payload@.len(),
            out@ == init@ + payload@.subrange(0, j as int),
        decreases payload@.len() - j,
    {
        out.push(payload[j]);
        j += 1;
        proof {
            assert(out@ =~= init@ + payload@.subrange(0, j as int));
        }
    }
    proof {
        assert(out@ =~= init@ + payload@);
    }
    out
}

/// The on-disk file name for a downloaded segment:
/// `segment_<stream>_<id>.<ext>`, the extension taken from the
/// segment's detected format.
pub open spec fn spec_segment_file_name(
    stream: crate::stream::StreamV,
    segment: crate::segment::SegmentV,
) -> Seq<char> {
    "segment_"@ + stream.spec_label() + "_"@ + segment.spec_id() + "."@ + (match segment {
        crate::segment::SegmentV::Sequence { format, .. } => format.spec_extension(),
        crate::segment::SegmentV::Initialization { .. } => stream.spec_extension(),
    })
}

/// Names the file a downloaded segment is saved to.
pub fn segment_file_name(stream: &Stream, segment: &Segment) -> (r: String)
    ensures
        r@ == spec_segment_file_name(stream@, segment@),
{
    let mut s = String::from_str("segment_");
    let label = stream.label();
    s.append(label.as_str());
    s.append("_");
    let id = segment.id();
    s.append(id.as_str());
    s.append(".");
    let ext = match segment {
        Segment::Sequence { format, .. } => format.extension(),
        Segment::Initialization { .. } => stream.extension(),
    };
    s.append(ext.as_str());
    s
}

} // verus!
