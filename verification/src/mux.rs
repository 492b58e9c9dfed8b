//! Mux planning: the argument list for the external mux tool, per-stream
//! metadata (title and language), and the output file per discontinuity
//! run.  The tool itself runs outside the library.

use vstd::prelude::*;

use crate::error::{LivestreamDLError, LivestreamDLErrorV};
use crate::media_format::StreamType;
use crate::stream::{Stream, StreamV};
use crate::text::{dec_digits, spec_pad_left, u64_string, u64_string_pad};

verus! {

/// What parsing an RFC 5646 language tag yields: its primary language
/// subtag and its region subtag, or `None` for an invalid tag.
pub uninterp spec fn lang_tag_parts(s: Seq<char>) -> Option<(Seq<char>, Option<Seq<char>>)>;

/// The ISO 639-3 code for a two-letter ISO 639-1 code, or `None` where
/// the table has no entry.
pub uninterp spec fn iso639_3_of(code: Seq<char>) -> Option<Seq<char>>;

/// Relies on `oxilangtag::LanguageTag::parse`, `primary_language` and
/// `region`: parsing is a function of the tag string alone.
#[verifier::external_body]
fn parse_lang_tag(s: &str) -> (r: Option<(String, Option<String>)>)
    ensures
        match r {
            Some(p) => lang_tag_parts(s@) == Some((p.0@, p.1.deep_view())),
            None => lang_tag_parts(s@) is None,
        },
{
    match oxilangtag::LanguageTag::parse(s) {
        Ok(t) => Some((t.primary_language().to_owned(), t.region().map(|c| c.to_owned()))),
        Err(_) => None,
    }
}

/// Relies on `isolang::Language::from_639_1` and `to_639_3`: a lookup in
/// a fixed code table.
#[verifier::external_body]
fn lookup_iso639_3(code: &str) -> (r: Option<String>)
    ensures
        match r {
            Some(c) => iso639_3_of(code@) == Some(c@),
            None => iso639_3_of(code@) is None,
        },
{
    isolang::Language::from_639_1(code).map(|l| l.to_639_3().to_owned())
}

/// The ISO 639-2/3 form of a language tag, as the mux tool expects it: a
/// two-letter primary subtag is upgraded through the code table, a
/// longer one kept; the region subtag, if any, is appended after a
/// hyphen.  Invalid tags and unknown two-letter codes are rejected.
pub open spec fn spec_to_iso639_2(lang: Seq<char>) -> Result<Seq<char>, LivestreamDLErrorV> {
    match lang_tag_parts(lang) {
        Option::None => Err(LivestreamDLErrorV::InvalidLanguageTag { lang }),
        Option::Some(parts) => {
            let code_r = if parts.0.len() == 2 {
                match iso639_3_of(parts.0) {
                    Option::None => Err(LivestreamDLErrorV::UnknownLanguage { lang: parts.0 }),
                    Option::Some(c) => Ok(c),
                }
            } else {
                Ok(parts.0)
            };
            match code_r {
                Result::Err(e) => Err(e),
                Result::Ok(code) => Ok(
                    match parts.1 {
                        Option::Some(region) => code + "-"@ + region,
                        Option::None => code,
                    },
                ),
            }
        },
    }
}

/// Converts an RFC 5646 language tag to the ISO 639-2/3 form the mux
/// tool reads.
pub fn to_iso639_2(lang: &str) -> (r: Result<String, LivestreamDLError>)
    ensures
        match r {
            Ok(code) => spec_to_iso639_2(lang@) == Ok::<Seq<char>, LivestreamDLErrorV>(code@),
            Err(e) => spec_to_iso639_2(lang@) == Err::<Seq<char>, LivestreamDLErrorV>(e@),
        },
{
    let parts = match parse_lang_tag(lang) {
        Some(p) => p,
        None => {
            return Err(LivestreamDLError::InvalidLanguageTag { lang: lang.to_owned() });
        },
    };
    let primary = parts.0;
    let code = if primary.as_str().unicode_len() == 2 {
        match lookup_iso639_3(primary.as_str()) {
            Some(c) => c,
            None => {
                return Err(LivestreamDLError::UnknownLanguage { lang: primary });
            },
        }
    } else {
        primary
    };
    match parts.1 {
        Some(region) => {
            let mut s = code;
            s.append("-");
            s.append(region.as_str());
            Ok(s)
        },
        None => Ok(code),
    }
}

/// One input of a mux run: a stream's concatenated file, with the
/// stream kinds the probe tool reported for it (read only for the main
/// stream, whose own kinds the playlist does not declare).
pub struct MuxInput {
    pub stream: Stream,
    pub path: String,
    pub probed: Vec<StreamType>,
}

/// Model of a [`MuxInput`].
pub struct MuxInputV {
    pub stream: StreamV,
    pub path: Seq<char>,
    pub probed: Seq<StreamType>,
}

impl View for MuxInput {
    type V = MuxInputV;

    open spec fn view(&self) -> MuxInputV {
        MuxInputV { stream: self.stream@, path: self.path@, probed: self.probed@ }
    }
}

impl DeepView for MuxInput {
    type V = MuxInputV;

    open spec fn deep_view(&self) -> MuxInputV {
        self.view()
    }
}

/// How many of the first `k` probed kinds equal `t`.
pub open spec fn spec_count_type(ts: Seq<StreamType>, t: StreamType, k: int) -> int
    decreases k,
{
    if k <= 0 {
        0
    } else {
        spec_count_type(ts, t, k - 1) + if ts[k - 1] == t {
            1int
        } else {
            0int
        }
    }
}

proof fn lemma_count_type_bounds(ts: Seq<StreamType>, t: StreamType, k: int)
    ensures
        0 <= spec_count_type(ts, t, k),
        k >= 0 ==> spec_count_type(ts, t, k) <= k,
    decreases k,
{
    if k > 0 {
        lemma_count_type_bounds(ts, t, k - 1);
    }
}

/// A `-metadata` selector for the `count`-th stream of kind `t`.
pub open spec fn spec_meta_tag(t: Seq<char>, count: int) -> Seq<char> {
    "-metadata:s:"@ + t + ":"@ + dec_digits(count as nat)
}

/// The metadata arguments for one alternative stream: its language (if
/// the tag converts) and its title and handler name.
pub open spec fn spec_add_lang_args(
    t: Seq<char>,
    lang: Option<Seq<char>>,
    name: Option<Seq<char>>,
    count: int,
) -> Seq<Seq<char>> {
    (match lang {
        Option::Some(l) => match spec_to_iso639_2(l) {
            Result::Ok(code) => seq![spec_meta_tag(t, count), "language="@ + code],
            Result::Err(_) => Seq::empty(),
        },
        Option::None => Seq::empty(),
    }) + (match name {
        Option::Some(n) => seq![
            spec_meta_tag(t, count),
            "title="@ + n,
            spec_meta_tag(t, count),
            "handler="@ + n,
        ],
        Option::None => Seq::empty(),
    })
}

/// Running state of the metadata fold: the arguments so far and how many
/// streams of each kind earlier inputs contributed.
pub struct MetaAccV {
    pub args: Seq<Seq<char>>,
    pub video: int,
    pub audio: int,
    pub sub: int,
}

/// One input's metadata: the main stream only advances the counters by
/// its probed kinds; an alternative stream contributes its language and
/// title under its kind's running index.
pub open spec fn spec_meta_step(acc: MetaAccV, e: MuxInputV) -> MetaAccV {
    match e.stream {
        StreamV::Main => MetaAccV {
            args: acc.args,
            video: acc.video + spec_count_type(e.probed, StreamType::Video, e.probed.len() as int),
            audio: acc.audio + spec_count_type(e.probed, StreamType::Audio, e.probed.len() as int),
            sub: acc.sub + spec_count_type(e.probed, StreamType::Subtitle, e.probed.len() as int),
        },
        StreamV::Video { name, lang } => MetaAccV {
            args: acc.args + spec_add_lang_args("v"@, lang, Some(name), acc.video),
            video: acc.video + 1,
            audio: acc.audio,
            sub: acc.sub,
        },
        StreamV::Audio { name, lang } => MetaAccV {
            args: acc.args + spec_add_lang_args("a"@, lang, Some(name), acc.audio),
            video: acc.video,
            audio: acc.audio + 1,
            sub: acc.sub,
        },
        StreamV::Subtitle { name, lang } => MetaAccV {
            args: acc.args + spec_add_lang_args("s"@, lang, Some(name), acc.sub),
            video: acc.video,
            audio: acc.audio,
            sub: acc.sub + 1,
        },
    }
}

/// The metadata fold over the first `k` inputs.
pub open spec fn spec_meta(entries: Seq<MuxInputV>, k: int) -> MetaAccV
    decreases k,
{
    if k <= 0 {
        MetaAccV { args: Seq::empty(), video: 0, audio: 0, sub: 0 }
    } else {
        spec_meta_step(spec_meta(entries, k - 1), entries[k - 1])
    }
}

/// The weight of the first `k` inputs: an upper bound for the stream
/// counters.
pub open spec fn spec_mux_weight(entries: Seq<MuxInputV>, k: int) -> int
    decreases k,
{
    if k <= 0 {
        0
    } else {
        spec_mux_weight(entries, k - 1) + 1 + entries[k - 1].probed.len()
    }
}

/// The counters of the metadata fold stay within the inputs' weight.
pub proof fn lemma_meta_counts(entries: Seq<MuxInputV>, k: int)
    ensures
        0 <= spec_meta(entries, k).video,
        0 <= spec_meta(entries, k).audio,
        0 <= spec_meta(entries, k).sub,
        k >= 0 ==> spec_meta(entries, k).video + spec_meta(entries, k).audio + spec_meta(
            entries,
            k,
        ).sub <= spec_mux_weight(entries, k),
    decreases k,
{
    if k > 0 {
        lemma_meta_counts(entries, k - 1);
        let e = entries[k - 1];
        lemma_count_type_bounds(e.probed, StreamType::Video, e.probed.len() as int);
        lemma_count_type_bounds(e.probed, StreamType::Audio, e.probed.len() as int);
        lemma_count_type_bounds(e.probed, StreamType::Subtitle, e.probed.len() as int);
        lemma_count_type_disjoint(e.probed, e.probed.len() as int);
    }
}

/// The per-kind counts together never exceed the number of probed kinds.
proof fn lemma_count_type_disjoint(ts: Seq<StreamType>, k: int)
    ensures
        k >= 0 ==> spec_count_type(ts, StreamType::Video, k) + spec_count_type(
            ts,
            StreamType::Audio,
            k,
        ) + spec_count_type(ts, StreamType::Subtitle, k) <= k,
    decreases k,
{
    if k > 0 {
        lemma_count_type_disjoint(ts, k - 1);
    }
}

/// The weight grows with `k`.
proof fn lemma_weight_step(entries: Seq<MuxInputV>, k: int, m: int)
    requires
        0 <= k <= m,
    ensures
        spec_mux_weight(entries, k) <= spec_mux_weight(entries, m),
        spec_mux_weight(entries, k) >= 0,
    decreases m,
{
    if m > k {
        lemma_weight_step(entries, k, m - 1);
    } else if m == k && k > 0 {
        lemma_weight_step(entries, k - 1, k - 1);
    }
}

/// The `-i` input arguments of the first `k` inputs.
pub open spec fn spec_input_args(entries: Seq<MuxInputV>, k: int) -> Seq<Seq<char>>
    decreases k,
{
    if k <= 0 {
        Seq::empty()
    } else {
        spec_input_args(entries, k - 1) + seq!["-i"@, entries[k - 1].path]
    }
}

/// The `-map` arguments for inputs `0` to `k - 1`.
pub open spec fn spec_map_args(k: int) -> Seq<Seq<char>>
    decreases k,
{
    if k <= 0 {
        Seq::empty()
    } else {
        spec_map_args(k - 1) + seq!["-map"@, dec_digits((k - 1) as nat)]
    }
}

/// The whole argument list of one mux run: overwrite and copy
/// timestamps, the inputs, a map per input, the per-stream metadata,
/// the fixed copy/faststart tail, and the output file.
pub open spec fn spec_mux_args(entries: Seq<MuxInputV>, output: Seq<char>) -> Seq<Seq<char>> {
    seq!["-y"@, "-copyts"@] + spec_input_args(entries, entries.len() as int) + spec_map_args(
        entries.len() as int,
    ) + spec_meta(entries, entries.len() as int).args + seq![
        "-muxpreload"@,
        "0"@,
        "-muxdelay"@,
        "0"@,
        "-avoid_negative_ts"@,
        "make_zero"@,
        "-c:v"@,
        "copy"@,
        "-c:a"@,
        "copy"@,
        "-c:s"@,
        "mov_text"@,
        "-dn"@,
        "-movflags"@,
        "+faststart"@,
    ] + seq![output]
}

fn meta_tag(t: &str, count: u64) -> (r: String)
    ensures
        r@ == spec_meta_tag(t@, count as int),
{
    let mut s = String::from_str("-metadata:s:");
    s.append(t);
    s.append(":");
    let d = u64_string(count);
    s.append(d.as_str());
    s
}

/// Appends the metadata arguments of one alternative stream.
fn push_lang_args(
    args: &mut Vec<String>,
    t: &str,
    lang: &Option<String>,
    name: &Option<String>,
    count: u64,
)
    ensures
        final(args).deep_view() == old(args).deep_view() + spec_add_lang_args(
            t@,
            lang.deep_view(),
            name.deep_view(),
            count as int,
        ),
{
    let ghost start = args.deep_view();
    match lang {
        Some(l) => {
            match to_iso639_2(l.as_str()) {
                Ok(code) => {
                    args.push(meta_tag(t, count));
                    let mut la = String::from_str("language=");
                    la.append(code.as_str());
                    args.push(la);
                },
                Err(_) => {},
            }
        },
        None => {},
    }
    let ghost mid = args.deep_view();
    proof {
        assert(mid =~= start + (match lang.deep_view() {
            Option::Some(l) => match spec_to_iso639_2(l) {
                Result::Ok(code) => seq![
                    spec_meta_tag(t@, count as int),
                    "language="@ + code,
                ],
                Result::Err(_) => Seq::<Seq<char>>::empty(),
            },
            Option::None => Seq::<Seq<char>>::empty(),
        }));
    }
    match name {
        Some(n) => {
            args.push(meta_tag(t, count));
            let mut ti = String::from_str("title=");
            ti.append(n.as_str());
            args.push(ti);
            args.push(meta_tag(t, count));
            let mut ha = String::from_str("handler=");
            ha.append(n.as_str());
            args.push(ha);
        },
        None => {},
    }
    proof {
        assert(args.deep_view() =~= start + spec_add_lang_args(
            t@,
            lang.deep_view(),
            name.deep_view(),
            count as int,
        ));
    }
}

/// Builds the argument list for one mux run over the given inputs.
pub fn mux_args(entries: &Vec<MuxInput>, output: &str) -> (r: Vec<String>)
    requires
        spec_mux_weight(entries.deep_view(), entries.deep_view().len() as int) <= u64::MAX,
    ensures
        r.deep_view() == spec_mux_args(entries.deep_view(), output@),
{
    let ghost es = entries.deep_view();
    let n = entries.len();
    let mut args: Vec<String> = Vec::new();
    args.push(String::from_str("-y"));
    args.push(String::from_str("-copyts"));
    let ghost head = args.deep_view();
    proof {
        assert(head =~= seq!["-y"@, "-copyts"@]);
    }

    let mut i: usize = 0;
    proof {
        assert(args.deep_view() =~= head + spec_input_args(es, 0));
    }
    while i < n
        invariant
            n == es.len(),
            es == entries.deep_view(),
            i <= n,
            args.deep_view() == head + spec_input_args(es, i as int),
        decreases n - i,
    {
        let ghost before = args.deep_view();
        args.push(String::from_str("-i"));
        args.push(entries[i].path.clone());
        proof {
            assert(args.deep_view() =~= before + seq!["-i"@, es[i as int].path]);
            assert(spec_input_args(es, i as int + 1) == spec_input_args(es, i as int) + seq![
                "-i"@,
                es[i as int].path,
            ]);
            assert(args.deep_view() =~= head + spec_input_args(es, i as int + 1));
        }
        i += 1;
    }
    let ghost with_inputs = args.deep_view();

    let mut j: usize = 0;
    proof {
        assert(args.deep_view() =~= with_inputs + spec_map_args(0));
    }
    while j < n
        invariant
            n == es.len(),
            j <= n,
            args.deep_view() == with_inputs + spec_map_args(j as int),
        decreases n - j,
    {
        let ghost before = args.deep_view();
        args.push(String::from_str("-map"));
        args.push(u64_string(j as u64));
        proof {
            assert(args.deep_view() =~= before + seq!["-map"@, dec_digits(j as nat)]);
            assert(spec_map_args(j as int + 1) == spec_map_args(j as int) + seq![
                "-map"@,
                dec_digits(j as nat),
            ]);
            assert(args.deep_view() =~= with_inputs + spec_map_args(j as int + 1));
        }
        j += 1;
    }
    let ghost with_maps = args.deep_view();

    let mut video: u64 = 0;
    let mut audio: u64 = 0;
    let mut sub: u64 = 0;
    let mut k: usize = 0;
    proof {
        assert(args.deep_view() =~= with_maps + spec_meta(es, 0).args);
    }
    while k < n
        invariant
            n == es.len(),
            es == entries.deep_view(),
            k <= n,
            spec_mux_weight(es, n as int) <= u64::MAX,
            args.deep_view() == with_maps + spec_meta(es, k as int).args,
            video == spec_meta(es, k as int).video,
            audio == spec_meta(es, k as int).audio,
            sub == spec_meta(es, k as int).sub,
        decreases n - k,
    {
        let ghost acc = spec_meta(es, k as int);
        proof {
            lemma_meta_counts(es, k as int);
            lemma_weight_step(es, k as int, n as int);
            lemma_weight_step(es, k as int + 1, n as int);
        }
        let e = &entries[k];
        match &e.stream {
            Stream::Main => {
                let ghost ts = e.probed@;
                let m = e.probed.len();
                let mut q: usize = 0;
                while q < m
                    invariant
                        m == ts.len(),
                        ts == e.probed@,
                        q <= m,
                        video == acc.video + spec_count_type(ts, StreamType::Video, q as int),
                        audio == acc.audio + spec_count_type(ts, StreamType::Audio, q as int),
                        sub == acc.sub + spec_count_type(ts, StreamType::Subtitle, q as int),
                        acc.video + acc.audio + acc.sub + m <= u64::MAX,
                        0 <= acc.video && 0 <= acc.audio && 0 <= acc.sub,
                    decreases m - q,
                {
                    proof {
                        lemma_count_type_bounds(ts, StreamType::Video, q as int);
                        lemma_count_type_bounds(ts, StreamType::Audio, q as int);
                        lemma_count_type_bounds(ts, StreamType::Subtitle, q as int);
                        lemma_count_type_disjoint(ts, q as int);
                    }
                    match e.probed[q] {
                        StreamType::Video => {
                            video = video + 1;
                        },
                        StreamType::Audio => {
                            audio = audio + 1;
                        },
                        StreamType::Subtitle => {
                            sub = sub + 1;
                        },
                        StreamType::Other => {},
                    }
                    q += 1;
                }
            },
            Stream::Video { name, lang } => {
                push_lang_args(&mut args, "v", lang, &Some(name.clone()), video);
                video = video + 1;
            },
            Stream::Audio { name, lang } => {
                push_lang_args(&mut args, "a", lang, &Some(name.clone()), audio);
                audio = audio + 1;
            },
            Stream::Subtitle { name, lang } => {
                push_lang_args(&mut args, "s", lang, &Some(name.clone()), sub);
                sub = sub + 1;
            },
        }
        proof {
            assert(spec_meta(es, k as int + 1) == spec_meta_step(acc, es[k as int]));
            assert(args.deep_view() =~= with_maps + spec_meta(es, k as int + 1).args);
        }
        k += 1;
    }

    args.push(String::from_str("-muxpreload"));
    args.push(String::from_str("0"));
    args.push(String::from_str("-muxdelay"));
    args.push(String::from_str("0"));
    args.push(String::from_str("-avoid_negative_ts"));
    args.push(String::from_str("make_zero"));
    args.push(String::from_str("-c:v"));
    args.push(String::from_str("copy"));
    args.push(String::from_str("-c:a"));
    args.push(String::from_str("copy"));
    args.push(String::from_str("-c:s"));
    args.push(String::from_str("mov_text"));
    args.push(String::from_str("-dn"));
    args.push(String::from_str("-movflags"));
    args.push(String::from_str("+faststart"));
    args.push(output.to_owned());
    proof {
        assert(args.deep_view() =~= spec_mux_args(es, output@));
    }
    args
}

/// The muxed output file for a discontinuity run: `video.mp4` in the
/// output directory, with the zero-padded discontinuity index embedded
/// only when the capture has more than one run.
pub open spec fn spec_mux_output(dir: Seq<char>, d: u64, multiple: bool) -> Seq<char> {
    if multiple {
        dir + "/video_"@ + spec_pad_left(dec_digits(d as nat), 10, '0') + ".mp4"@
    } else {
        dir + "/video.mp4"@
    }
}

/// One planned run of the mux tool.
pub struct MuxJob {
    pub discon_seq: u64,
    pub output: String,
}

/// Model of a [`MuxJob`].
pub struct MuxJobV {
    pub discon_seq: u64,
    pub output: Seq<char>,
}

impl View for MuxJob {
    type V = MuxJobV;

    open spec fn view(&self) -> MuxJobV {
        MuxJobV { discon_seq: self.discon_seq, output: self.output@ }
    }
}

impl DeepView for MuxJob {
    type V = MuxJobV;

    open spec fn deep_view(&self) -> MuxJobV {
        self.view()
    }
}

/// Plans one mux run per discontinuity sequence: the output embeds the
/// discontinuity index exactly when more than one run exists.
pub fn remux_plan(discons: &Vec<u64>, dir: &str) -> (r: Vec<MuxJob>)
    ensures
        r.deep_view().len() == discons@.len(),
        forall|i: int|
            0 <= i < discons@.len() ==> (#[trigger] r.deep_view()[i]) == (MuxJobV {
                discon_seq: discons@[i],
                output: spec_mux_output(dir@, discons@[i], discons@.len() > 1),
            }),
{
    let n = discons.len();
    let multiple = n > 1;
    let mut jobs: Vec<MuxJob> = Vec::new();
    let mut i: usize = 0;
    while i < n
        invariant
            n == discons@.len(),
            i <= n,
            multiple == (n > 1),
            jobs.deep_view().len() == i,
            forall|j: int|
                0 <= j < i ==> (#[trigger] jobs.deep_view()[j]) == (MuxJobV {
                    discon_seq: discons@[j],
                    output: spec_mux_output(dir@, discons@[j], n > 1),
                }),
        decreases n - i,
    {
        let d = discons[i];
        let mut s = dir.to_owned();
        if multiple {
            s.append("/video_");
            let dd = u64_string_pad(d, 10);
            s.append(dd.as_str());
            s.append(".mp4");
        } else {
            s.append("/video.mp4");
        }
        let ghost job_v = MuxJobV {
            discon_seq: d,
            output: spec_mux_output(dir@, d, multiple),
        };
        proof {
            assert(s@ == spec_mux_output(dir@, d, multiple));
        }
        let ghost before = jobs.deep_view();
        jobs.push(MuxJob { discon_seq: d, output: s });
        proof {
            assert(jobs.deep_view() =~= before.push(job_v));
        }
        i += 1;
    }
    jobs
}

} // verus!
