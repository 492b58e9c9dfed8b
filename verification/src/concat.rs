//! Concatenation planning: partition a track's sorted ledger into runs
//! of one discontinuity sequence each, and decide file-wise versus
//! structured concatenation per run.  The file writing and the external
//! tool run outside the library.

use vstd::prelude::*;

use crate::ledger::{LedgerEntry, LedgerEntryV};
use crate::media_format::MediaFormat;
use crate::segment::SegmentV;
use crate::stream::{Stream, StreamV};
use crate::text::{dec_digits, spec_pad_left, u64_string_pad};

verus! {

/// One concatenation run: the contiguous segments of one discontinuity
/// sequence, merged into one file.
pub struct ConcatRun {
    pub discon_seq: u64,
    pub format: MediaFormat,
    pub paths: Vec<String>,
    pub output: String,
    pub use_ffmpeg: bool,
}

/// Model of a [`ConcatRun`].
pub struct ConcatRunV {
    pub discon_seq: u64,
    pub format: MediaFormat,
    pub paths: Seq<Seq<char>>,
    pub output: Seq<char>,
    pub use_ffmpeg: bool,
}

impl View for ConcatRun {
    type V = ConcatRunV;

    open spec fn view(&self) -> ConcatRunV {
        ConcatRunV {
            discon_seq: self.discon_seq,
            format: self.format,
            paths: self.paths.deep_view(),
            output: self.output@,
            use_ffmpeg: self.use_ffmpeg,
        }
    }
}

impl DeepView for ConcatRun {
    type V = ConcatRunV;

    open spec fn deep_view(&self) -> ConcatRunV {
        self.view()
    }
}

/// The discontinuity sequence of a ledger entry's segment.
pub open spec fn spec_entry_discon(e: LedgerEntryV) -> u64 {
    match e.segment {
        SegmentV::Sequence { discon_seq, .. } => discon_seq,
        SegmentV::Initialization { .. } => 0,
    }
}

/// The detected format of a ledger entry's segment.
pub open spec fn spec_entry_format(e: LedgerEntryV) -> MediaFormat {
    match e.segment {
        SegmentV::Sequence { format, .. } => format,
        SegmentV::Initialization { .. } => MediaFormat::Unknown,
    }
}

/// The file a run is concatenated into:
/// `<dir>/<stream>_<discon>.<ext>`, the extension taken from the run's
/// first segment.
pub open spec fn spec_concat_path(
    dir: Seq<char>,
    stream: StreamV,
    d: u64,
    f: MediaFormat,
) -> Seq<char> {
    dir + "/"@ + stream.spec_label() + "_"@ + spec_pad_left(dec_digits(d as nat), 10, '0') + "."@
        + f.spec_extension()
}

/// Structured (tool-driven) concatenation is needed exactly for formats
/// that cannot be appended byte-for-byte: MP3.
pub open spec fn spec_use_ffmpeg(f: MediaFormat) -> bool {
    f == MediaFormat::Mp3
}

/// The concatenation plan over the first `k` entries: each entry joins
/// the last run while its discontinuity sequence matches, else opens a
/// new run whose format, output path and concatenation mode come from
/// that first segment.
pub open spec fn spec_concat_plan(
    stream: StreamV,
    dir: Seq<char>,
    es: Seq<LedgerEntryV>,
    k: int,
) -> Seq<ConcatRunV>
    decreases k,
{
    if k <= 0 {
        Seq::empty()
    } else {
        let prev = spec_concat_plan(stream, dir, es, k - 1);
        let e = es[k - 1];
        let d = spec_entry_discon(e);
        if prev.len() > 0 && prev.last().discon_seq == d {
            prev.update(
                prev.len() - 1,
                ConcatRunV { paths: prev.last().paths.push(e.path), ..prev.last() },
            )
        } else {
            let f = spec_entry_format(e);
            prev.push(
                ConcatRunV {
                    discon_seq: d,
                    format: f,
                    paths: seq![e.path],
                    output: spec_concat_path(dir, stream, d, f),
                    use_ffmpeg: spec_use_ffmpeg(f),
                },
            )
        }
    }
}

/// Every run of a plan holds at least one path, and neighbouring runs
/// belong to different discontinuity sequences.
pub proof fn lemma_concat_plan_runs(stream: StreamV, dir: Seq<char>, es: Seq<LedgerEntryV>, k: int)
    requires
        k <= es.len(),
    ensures
        ({
            let runs = spec_concat_plan(stream, dir, es, k);
            &&& forall|i: int| 0 <= i < runs.len() ==> (#[trigger] runs[i]).paths.len() > 0
            &&& forall|i: int|
                0 <= i < runs.len() - 1 ==> (#[trigger] runs[i]).discon_seq != runs[i
                    + 1].discon_seq
        }),
    decreases k,
{
    if k > 0 {
        lemma_concat_plan_runs(stream, dir, es, k - 1);
    }
}

/// Builds the concatenation plan for one track's ledger entries.
pub fn concat_plan(stream: &Stream, dir: &str, entries: &Vec<LedgerEntry>) -> (r: Vec<ConcatRun>)
    requires
        forall|i: int|
            0 <= i < entries.deep_view().len() ==> (#[trigger] entries.deep_view()[i]).segment
                is Sequence,
    ensures
        r.deep_view() == spec_concat_plan(
            stream@,
            dir@,
            entries.deep_view(),
            entries.deep_view().len() as int,
        ),
{
    let ghost es = entries.deep_view();
    let mut runs: Vec<ConcatRun> = Vec::new();
    let n = entries.len();
    let mut i: usize = 0;
    proof {
        assert(runs.deep_view() =~= spec_concat_plan(stream@, dir@, es, 0));
    }
    while i < n
        invariant
            n == es.len(),
            es == entries.deep_view(),
            i <= n,
            forall|j: int| 0 <= j < es.len() ==> (#[trigger] es[j]).segment is Sequence,
            runs.deep_view() == spec_concat_plan(stream@, dir@, es, i as int),
        decreases n - i,
    {
        let ghost prev = spec_concat_plan(stream@, dir@, es, i as int);
        let e = &entries[i];
        let (d, f) = match &e.segment {
            crate::segment::Segment::Sequence { discon_seq, format, .. } => (*discon_seq, *format),
            crate::segment::Segment::Initialization { .. } => {
                proof {
                    assert(false);
                }
                (0u64, MediaFormat::Unknown)
            },
        };
        let extend_last = if runs.len() > 0 {
            runs[runs.len() - 1].discon_seq == d
        } else {
            false
        };
        if extend_last {
            let mut run = match runs.pop() {
                Some(r0) => r0,
                None => {
                    proof {
                        assert(false);
                    }
                    return runs;
                },
            };
            run.paths.push(e.path.clone());
            let ghost run_v = run@;
            runs.push(run);
            proof {
                assert(run_v.paths =~= prev.last().paths.push(es[i as int].path));
                assert(run_v == (ConcatRunV {
                    paths: prev.last().paths.push(es[i as int].path),
                    ..prev.last()
                }));
                assert(runs.deep_view() =~= prev.update(prev.len() - 1, run_v));
            }
        } else {
            let output = concat_path(dir, stream, d, &f);
            let mut paths: Vec<String> = Vec::new();
            paths.push(e.path.clone());
            let run = ConcatRun {
                discon_seq: d,
                format: f,
                paths,
                output,
                use_ffmpeg: matches!(f, MediaFormat::Mp3),
            };
            proof {
                assert(run@.paths =~= seq![es[i as int].path]);
            }
            let ghost run_v = run@;
            runs.push(run);
            proof {
                assert(run_v == (ConcatRunV {
                    discon_seq: d,
                    format: f,
                    paths: seq![es[i as int].path],
                    output: spec_concat_path(dir@, stream@, d, f),
                    use_ffmpeg: spec_use_ffmpeg(f),
                }));
                assert(runs.deep_view() =~= prev.push(run_v));
            }
        }
        i += 1;
    }
    runs
}

/// Names the file a run is concatenated into.
pub fn concat_path(dir: &str, stream: &Stream, d: u64, f: &MediaFormat) -> (r: String)
    ensures
        r@ == spec_concat_path(dir@, stream@, d, *f),
{
    let mut s = dir.to_owned();
    s.append("/");
    let label = stream.label();
    s.append(label.as_str());
    s.append("_");
    let dd = u64_string_pad(d, 10);
    s.append(dd.as_str());
    s.append(".");
    let ext = f.extension();
    s.append(ext.as_str());
    s
}

/// The lines of the concat list file handed to the external tool's
/// concat mode: `file '<path>'`, one line per input, each ended with a
/// newline.
pub open spec fn spec_concat_manifest(paths: Seq<Seq<char>>, k: int) -> Seq<char>
    decreases k,
{
    if k <= 0 {
        Seq::empty()
    } else {
        spec_concat_manifest(paths, k - 1) + "file '"@ + paths[k - 1] + "'\n"@
    }
}

/// Renders the concat list file for the external tool's concat mode.
pub fn concat_manifest(paths: &Vec<String>) -> (r: String)
    ensures
        r@ == spec_concat_manifest(paths.deep_view(), paths.deep_view().len() as int),
{
    let ghost ps = paths.deep_view();
    let mut s = String::new();
    let n = paths.len();
    let mut i: usize = 0;
    while i < n
        invariant
            n == ps.len(),
            ps == paths.deep_view(),
            i <= n,
            s@ == spec_concat_manifest(ps, i as int),
        decreases n - i,
    {
        s.append("file '");
        s.append(paths[i].as_str());
        s.append("'\n");
        i += 1;
    }
    s
}

/// The argument list for the external tool's concat-demuxer run:
/// read the list file, copy streams, regenerate timestamps.
pub open spec fn spec_ffmpeg_concat_args(list_path: Seq<char>, output: Seq<char>) -> Seq<
    Seq<char>,
> {
    seq![
        "-y"@,
        "-f"@,
        "concat"@,
        "-safe"@,
        "0"@,
        "-i"@,
        list_path,
        "-c"@,
        "copy"@,
        "-fflags"@,
        "+genpts"@,
        output,
    ]
}

/// Builds the argument list for the external tool's concat-demuxer run.
pub fn ffmpeg_concat_args(list_path: &str, output: &str) -> (r: Vec<String>)
    ensures
        r.deep_view() == spec_ffmpeg_concat_args(list_path@, output@),
{
    let mut args: Vec<String> = Vec::new();
    args.push(String::from_str("-y"));
    args.push(String::from_str("-f"));
    args.push(String::from_str("concat"));
    args.push(String::from_str("-safe"));
    args.push(String::from_str("0"));
    args.push(String::from_str("-i"));
    args.push(list_path.to_owned());
    args.push(String::from_str("-c"));
    args.push(String::from_str("copy"));
    args.push(String::from_str("-fflags"));
    args.push(String::from_str("+genpts"));
    args.push(output.to_owned());
    proof {
        assert(args.deep_view() =~= spec_ffmpeg_concat_args(list_path@, output@));
    }
    args
}

} // verus!
