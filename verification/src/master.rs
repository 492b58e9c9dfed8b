//! Master-playlist selection: the variant to capture and the set of
//! streams (main plus grouped alternatives) to poll.

use vstd::prelude::*;

use crate::error::{LivestreamDLError, LivestreamDLErrorV};
use crate::playlist::{AlternativeMediaV, MasterPlaylist, MasterPlaylistV, Variant, VariantV};
use crate::stream::{Stream, StreamV};
use crate::text::{dec_digits, spec_pad_left, pad_left, str_eq, u64_string};
use crate::urlutil::{join_url, make_absolute_url};

verus! {

/// One stream chosen for capture: its identity and its playlist URL.
pub struct SelectedStream {
    pub stream: Stream,
    pub url: String,
}

/// Model of a [`SelectedStream`].
pub struct SelectedStreamV {
    pub stream: StreamV,
    pub url: Seq<char>,
}

impl View for SelectedStream {
    type V = SelectedStreamV;

    open spec fn view(&self) -> SelectedStreamV {
        SelectedStreamV { stream: self.stream@, url: self.url@ }
    }
}

impl DeepView for SelectedStream {
    type V = SelectedStreamV;

    open spec fn deep_view(&self) -> SelectedStreamV {
        self.view()
    }
}

/// Which alternative-media group a scan is for.
#[derive(Clone, Copy, PartialEq, Eq, Structural, Debug)]
pub enum AltKind {
    Video,
    Audio,
    Subtitle,
}

/// The stream identity an alternative of the given kind yields.
pub open spec fn spec_make_stream(kind: AltKind, name: Seq<char>, lang: Option<Seq<char>>) -> StreamV {
    match kind {
        AltKind::Video => StreamV::Video { name, lang },
        AltKind::Audio => StreamV::Audio { name, lang },
        AltKind::Subtitle => StreamV::Subtitle { name, lang },
    }
}

/// The index of the chosen variant among the first `k`: the one with the
/// greatest bandwidth, the last of equals, `-1` where none.
pub open spec fn spec_best_upto(vs: Seq<VariantV>, k: int) -> int
    decreases k,
{
    if k <= 0 {
        -1
    } else {
        let b = spec_best_upto(vs, k - 1);
        if b < 0 || vs[k - 1].bandwidth >= vs[b].bandwidth {
            k - 1
        } else {
            b
        }
    }
}

/// The chosen variant's index is in range and its bandwidth is maximal
/// among the first `k` variants.
pub proof fn lemma_best_upto(vs: Seq<VariantV>, k: int)
    requires
        0 <= k <= vs.len(),
    ensures
        k == 0 ==> spec_best_upto(vs, k) == -1,
        k > 0 ==> 0 <= spec_best_upto(vs, k) < k,
        forall|j: int| 0 <= j < k ==> (#[trigger] vs[j]).bandwidth <= vs[spec_best_upto(vs, k)].bandwidth,
    decreases k,
{
    if k > 0 {
        lemma_best_upto(vs, k - 1);
    }
}

/// The streams contributed by the first `k` alternatives of `group`:
/// those with a URI, in order, their URIs made absolute against `base`.
pub open spec fn spec_add_alts(
    alts: Seq<AlternativeMediaV>,
    group: Seq<char>,
    kind: AltKind,
    base: Seq<char>,
    k: int,
) -> Result<Seq<SelectedStreamV>, LivestreamDLErrorV>
    decreases k,
{
    if k <= 0 {
        Ok(Seq::empty())
    } else {
        match spec_add_alts(alts, group, kind, base, k - 1) {
            Result::Err(e) => Err(e),
            Result::Ok(sofar) => {
                let a = alts[k - 1];
                if a.group_id == group && a.uri is Some {
                    match join_url(base, a.uri.unwrap()) {
                        Option::None => Err(
                            LivestreamDLErrorV::ParseUrl { url: a.uri.unwrap() },
                        ),
                        Option::Some(u) => Ok(
                            sofar.push(
                                SelectedStreamV {
                                    stream: spec_make_stream(kind, a.name, a.language),
                                    url: u,
                                },
                            ),
                        ),
                    }
                } else {
                    Ok(sofar)
                }
            },
        }
    }
}

/// The streams contributed by an optional group reference.
pub open spec fn spec_group_alts(
    alts: Seq<AlternativeMediaV>,
    group: Option<Seq<char>>,
    kind: AltKind,
    base: Seq<char>,
) -> Result<Seq<SelectedStreamV>, LivestreamDLErrorV> {
    match group {
        Option::None => Ok(Seq::empty()),
        Option::Some(g) => spec_add_alts(alts, g, kind, base, alts.len() as int),
    }
}

/// The full selection from a master playlist: the highest-bandwidth
/// variant becomes the main stream, and its audio, video and subtitle
/// group references contribute the alternative streams, in that order.
pub open spec fn spec_select_streams(m: MasterPlaylistV, base: Seq<char>) -> Result<
    Seq<SelectedStreamV>,
    LivestreamDLErrorV,
> {
    let b = spec_best_upto(m.variants, m.variants.len() as int);
    if b < 0 {
        Err(LivestreamDLErrorV::NoStreams)
    } else {
        let v = m.variants[b];
        match join_url(base, v.uri) {
            Option::None => Err(LivestreamDLErrorV::ParseUrl { url: v.uri }),
            Option::Some(mu) => {
                let main = seq![SelectedStreamV { stream: StreamV::Main, url: mu }];
                match spec_group_alts(m.alternatives, v.audio, AltKind::Audio, base) {
                    Result::Err(e) => Err(e),
                    Result::Ok(au) => match spec_group_alts(
                        m.alternatives,
                        v.video,
                        AltKind::Video,
                        base,
                    ) {
                        Result::Err(e) => Err(e),
                        Result::Ok(vi) => match spec_group_alts(
                            m.alternatives,
                            v.subtitles,
                            AltKind::Subtitle,
                            base,
                        ) {
                            Result::Err(e) => Err(e),
                            Result::Ok(su) => Ok(main + au + vi + su),
                        },
                    },
                }
            },
        }
    }
}

/// Picks the variant with the greatest bandwidth (the last of equals),
/// or `None` for an empty variant list.
pub fn select_variant(variants: &Vec<Variant>) -> (r: Option<usize>)
    ensures
        ({
            let b = spec_best_upto(variants.deep_view(), variants@.len() as int);
            match r {
                Some(i) => b == i && i < variants@.len() && (forall|j: int|
                    0 <= j < variants@.len() ==> (#[trigger] variants.deep_view()[j]).bandwidth
                        <= variants.deep_view()[i as int].bandwidth),
                None => variants@.len() == 0,
            }
        }),
{
    let ghost vs = variants.deep_view();
    let n = variants.len();
    if n == 0 {
        return None;
    }
    let mut best: usize = 0;
    let mut i: usize = 1;
    proof {
        assert(spec_best_upto(vs, 0) == -1);
        assert(spec_best_upto(vs, 1) == 0);
    }
    while i < n
        invariant
            n == vs.len(),
            vs == variants.deep_view(),
            1 <= i <= n,
            best < i,
            spec_best_upto(vs, i as int) == best,
        decreases n - i,
    {
        if variants[i].bandwidth >= variants[best].bandwidth {
            best = i;
        }
        i += 1;
    }
    proof {
        lemma_best_upto(vs, n as int);
    }
    Some(best)
}

/// Scans the alternatives for those of `group`, appending a stream per
/// alternative that carries a URI.
fn add_alternatives(
    out: &mut Vec<SelectedStream>,
    alts: &Vec<crate::playlist::AlternativeMedia>,
    group: &str,
    kind: AltKind,
    base_url: &str,
) -> (r: Result<(), LivestreamDLError>)
    ensures
        ({
            let spec = spec_add_alts(alts.deep_view(), group@, kind, base_url@, alts@.len() as int);
            match r {
                Ok(()) => spec is Ok && final(out).deep_view() == old(out).deep_view()
                    + spec->Ok_0,
                Err(e) => spec == Err::<Seq<SelectedStreamV>, LivestreamDLErrorV>(e@),
            }
        }),
{
    let ghost alts_v = alts.deep_view();
    let ghost start = out.deep_view();
    let n = alts.len();
    let mut i: usize = 0;
    proof {
        assert(out.deep_view() =~= start + spec_add_alts(alts_v, group@, kind, base_url@, 0)->Ok_0);
    }
    while i < n
        invariant
            n == alts_v.len(),
            alts_v == alts.deep_view(),
            i <= n,
            spec_add_alts(alts_v, group@, kind, base_url@, i as int) is Ok,
            out.deep_view() == start + spec_add_alts(
                alts_v,
                group@,
                kind,
                base_url@,
                i as int,
            )->Ok_0,
        decreases n - i,
    {
        let a = &alts[i];
        let in_group = str_eq(a.group_id.as_str(), group);
        let has_uri = match &a.uri {
            Some(_) => true,
            None => false,
        };
        if in_group && has_uri {
            let uri = match &a.uri {
                Some(u) => u,
                None => {
                    proof {
                        assert(false);
                    }
                    return Ok(());
                },
            };
            match make_absolute_url(base_url, uri.as_str()) {
                Ok(u) => {
                    let name = a.name.clone();
                    let lang = match &a.language {
                        Some(l) => Some(l.clone()),
                        None => None,
                    };
                    let stream = match kind {
                        AltKind::Video => Stream::Video { name, lang },
                        AltKind::Audio => Stream::Audio { name, lang },
                        AltKind::Subtitle => Stream::Subtitle { name, lang },
                    };
                    out.push(SelectedStream { stream, url: u });
                    proof {
                        let prev = spec_add_alts(alts_v, group@, kind, base_url@, i as int);
                        let next = spec_add_alts(alts_v, group@, kind, base_url@, i as int + 1);
                        let av = alts_v[i as int];
                        assert(av == alts@[i as int].deep_view());
                        assert(av.group_id == group@ && av.uri is Some);
                        assert(join_url(base_url@, av.uri.unwrap()) == Some(u@));
                        assert(next == Ok::<Seq<SelectedStreamV>, LivestreamDLErrorV>(
                            prev->Ok_0.push(
                                SelectedStreamV {
                                    stream: spec_make_stream(kind, av.name, av.language),
                                    url: u@,
                                },
                            ),
                        ));
                        let em_v = out@[out@.len() - 1].deep_view();
                        let elem_spec = SelectedStreamV {
                            stream: spec_make_stream(kind, av.name, av.language),
                            url: u@,
                        };
                        assert(em_v.url == elem_spec.url);
                        assert(em_v.stream == elem_spec.stream);
                        assert(em_v == elem_spec);
                        assert(out.deep_view() =~= (start + prev->Ok_0).push(em_v));
                        assert((start + prev->Ok_0).push(em_v) =~= start + next->Ok_0);
                        assert(out.deep_view() == start + next->Ok_0);
                    }
                },
                Err(e) => {
                    proof {
                        lemma_add_alts_error_sticky(
                            alts_v,
                            group@,
                            kind,
                            base_url@,
                            i as int + 1,
                            n as int,
                        );
                    }
                    return Err(e);
                },
            }
        }
        i += 1;
    }
    Ok(())
}

/// Once the alternative scan has failed, every longer prefix carries the
/// same error.
proof fn lemma_add_alts_error_sticky(
    alts: Seq<AlternativeMediaV>,
    group: Seq<char>,
    kind: AltKind,
    base: Seq<char>,
    k: int,
    m: int,
)
    requires
        0 <= k <= m,
        spec_add_alts(alts, group, kind, base, k) is Err,
    ensures
        spec_add_alts(alts, group, kind, base, m) == spec_add_alts(alts, group, kind, base, k),
    decreases m - k,
{
    if m > k {
        lemma_add_alts_error_sticky(alts, group, kind, base, k, m - 1);
    }
}

/// Chooses the streams to capture from a master playlist: the variant
/// with the greatest bandwidth becomes `Main`, and the alternatives of
/// its audio, video and subtitle groups are added in that order.  The
/// behaviour is exactly [`spec_select_streams`].
pub fn select_streams(master: &MasterPlaylist, base_url: &str) -> (r: Result<
    Vec<SelectedStream>,
    LivestreamDLError,
>)
    ensures
        ({
            let spec = spec_select_streams(master@, base_url@);
            match r {
                Ok(out) => spec == Ok::<Seq<SelectedStreamV>, LivestreamDLErrorV>(out.deep_view()),
                Err(e) => spec == Err::<Seq<SelectedStreamV>, LivestreamDLErrorV>(e@),
            }
        }),
{
    let best = match select_variant(&master.variants) {
        Some(b) => b,
        None => {
            return Err(LivestreamDLError::NoStreams);
        },
    };
    let v = &master.variants[best];
    let main_url = match make_absolute_url(base_url, v.uri.as_str()) {
        Ok(u) => u,
        Err(e) => {
            return Err(e);
        },
    };
    let ghost mu = main_url@;
    let mut out: Vec<SelectedStream> = Vec::new();
    out.push(SelectedStream { stream: Stream::Main, url: main_url });

    let ghost main_v = out.deep_view();
    proof {
        assert(main_v =~= seq![SelectedStreamV { stream: StreamV::Main, url: mu }]);
    }
    match &v.audio {
        Some(g) => {
            match add_alternatives(&mut out, &master.alternatives, g.as_str(), AltKind::Audio, base_url) {
                Ok(()) => {},
                Err(e) => {
                    return Err(e);
                },
            }
        },
        None => {},
    }
    match &v.video {
        Some(g) => {
            match add_alternatives(&mut out, &master.alternatives, g.as_str(), AltKind::Video, base_url) {
                Ok(()) => {},
                Err(e) => {
                    return Err(e);
                },
            }
        },
        None => {},
    }
    match &v.subtitles {
        Some(g) => {
            match add_alternatives(
                &mut out,
                &master.alternatives,
                g.as_str(),
                AltKind::Subtitle,
                base_url,
            ) {
                Ok(()) => {},
                Err(e) => {
                    return Err(e);
                },
            }
        },
        None => {},
    }
    proof {
        let spec = spec_select_streams(master@, base_url@);
        let au = spec_group_alts(master@.alternatives, master@.variants[best as int].audio, AltKind::Audio, base_url@);
        let vi = spec_group_alts(master@.alternatives, master@.variants[best as int].video, AltKind::Video, base_url@);
        let su = spec_group_alts(
            master@.alternatives,
            master@.variants[best as int].subtitles,
            AltKind::Subtitle,
            base_url@,
        );
        assert(out.deep_view() =~= main_v + au->Ok_0 + vi->Ok_0 + su->Ok_0);
        assert(spec_best_upto(master@.variants, master@.variants.len() as int) == best as int);
        assert(join_url(base_url@, master@.variants[best as int].uri) == Some(mu));
        assert(spec == Ok::<Seq<SelectedStreamV>, LivestreamDLErrorV>(
            seq![SelectedStreamV { stream: StreamV::Main, url: mu }] + au->Ok_0 + vi->Ok_0
                + su->Ok_0,
        ));
    }
    Ok(out)
}

/// A variant rendered for an interactive chooser: bitrate (truncated to
/// K or M units), resolution and codec.
pub open spec fn spec_variant_label(v: VariantV) -> Seq<char> {
    let b = dec_digits(v.bandwidth as nat);
    let kept = if b.len() <= 4 {
        b.take(b.len() - 1)
    } else if b.len() <= 7 {
        b.take(b.len() - 4)
    } else {
        b.take(b.len() - 7)
    };
    let prefix = if b.len() <= 4 {
        ""@
    } else if b.len() <= 7 {
        "K"@
    } else {
        "M"@
    };
    let head = "Bitrate: "@ + spec_pad_left(kept, 4, ' ') + " "@ + prefix + "b/s"@;
    let with_res = match v.resolution {
        Option::Some(res) => head + "  Resolution: "@ + spec_pad_left(
            dec_digits(res.width as nat) + "x"@ + dec_digits(res.height as nat),
            9,
            ' ',
        ),
        Option::None => head,
    };
    match v.codecs {
        Option::Some(c) => with_res + "  Codec: "@ + c,
        Option::None => with_res,
    }
}

/// Renders a variant for an interactive chooser.
pub fn variant_label(v: &Variant) -> (r: String)
    ensures
        r@ == spec_variant_label(v@),
{
    let b = u64_string(v.bandwidth);
    proof {
        crate::text::lemma_dec_digits_len(v@.bandwidth as nat);
    }
    let blen = b.as_str().unicode_len();
    let drop_n: usize = if blen <= 4 {
        1
    } else if blen <= 7 {
        4
    } else {
        7
    };
    let kept = if blen >= drop_n {
        b.as_str().substring_char(0, blen - drop_n)
    } else {
        b.as_str().substring_char(0, 0)
    };
    proof {
        assert(kept@ =~= dec_digits(v@.bandwidth as nat).take(blen - drop_n));
    }
    let prefix = if blen <= 4 {
        ""
    } else if blen <= 7 {
        "K"
    } else {
        "M"
    };
    let mut s = String::from_str("Bitrate: ");
    let padded = pad_left(kept, 4, 0x20);
    s.append(padded.as_str());
    s.append(" ");
    s.append(prefix);
    s.append("b/s");
    match &v.resolution {
        Some(res) => {
            s.append("  Resolution: ");
            let mut rs = u64_string(res.width);
            rs.append("x");
            let h = u64_string(res.height);
            rs.append(h.as_str());
            let rp = pad_left(rs.as_str(), 9, 0x20);
            s.append(rp.as_str());
        },
        None => {},
    }
    match &v.codecs {
        Some(c) => {
            s.append("  Codec: ");
            s.append(c.as_str());
        },
        None => {},
    }
    s
}

} // verus!
