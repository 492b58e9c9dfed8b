//! The playlist poller's per-cycle step: which segments of a freshly
//! fetched media playlist are new, what they decrypt with, which
//! initialization prefixes them, and how long to wait before the next
//! poll.  The surrounding loop — fetching, sleeping, racing the stop
//! signal — lives outside the library and hands each parsed playlist in.

use vstd::prelude::*;

use crate::encryption::{Encryption, EncryptionV};
use crate::error::{LivestreamDLError, LivestreamDLErrorV};
use crate::media_format::MediaFormat;
use crate::playlist::{KeyTag, KeyTagV, MediaPlaylist, MediaPlaylistV};
use crate::remote_data::{RemoteData, RemoteDataV};
use crate::segment::{spec_key_le, Segment, SegmentV};
use crate::urlutil::{join_url, make_absolute_url};

verus! {

/// Ordering key of a sequence segment: `(discontinuity sequence, media
/// sequence)`, compared lexicographically.
#[derive(Clone, Copy, PartialEq, Eq, Structural, Debug)]
pub struct SeqKey {
    pub discon_seq: u64,
    pub seq: u64,
}

/// Per-track poller state that persists across poll cycles: the key of
/// the last emitted segment, the initialization resource currently in
/// force, and the encryption key tag currently in force.
#[derive(Clone, Debug)]
pub struct FetcherState {
    pub last_key: Option<SeqKey>,
    pub current_init: Option<RemoteData>,
    pub current_key: Option<KeyTag>,
}

/// Model of a [`FetcherState`].
pub struct FetcherStateV {
    pub last_key: Option<SeqKey>,
    pub current_init: Option<RemoteDataV>,
    pub current_key: Option<KeyTagV>,
}

impl View for FetcherState {
    type V = FetcherStateV;

    open spec fn view(&self) -> FetcherStateV {
        FetcherStateV {
            last_key: self.last_key,
            current_init: match &self.current_init {
                Some(r) => Some(r@),
                None => None,
            },
            current_key: match &self.current_key {
                Some(k) => Some(k@),
                None => None,
            },
        }
    }
}

impl FetcherState {
    /// The state a poller starts from: nothing seen, no initialization,
    /// segments in the clear.
    pub fn new() -> (r: FetcherState)
        ensures
            r@.last_key is None,
            r@.current_init is None,
            r@.current_key is None,
    {
        FetcherState { last_key: None, current_init: None, current_key: None }
    }
}

/// One item the poller hands to the downloader pool: the segment, how it
/// decrypts, and the initialization resource that must prefix it.
#[derive(Clone, Debug)]
pub struct Emission {
    pub segment: Segment,
    pub encryption: Encryption,
    pub init: Option<RemoteData>,
}

/// Model of an [`Emission`].
pub struct EmissionV {
    pub segment: SegmentV,
    pub encryption: EncryptionV,
    pub init: Option<RemoteDataV>,
}

impl View for Emission {
    type V = EmissionV;

    open spec fn view(&self) -> EmissionV {
        EmissionV {
            segment: self.segment@,
            encryption: self.encryption@,
            init: match &self.init {
                Some(r) => Some(r@),
                None => None,
            },
        }
    }
}

impl DeepView for Emission {
    type V = EmissionV;

    open spec fn deep_view(&self) -> EmissionV {
        self.view()
    }
}

impl EmissionV {
    /// The emission's ordering key.
    pub open spec fn key(self) -> SeqKey {
        match self.segment {
            SegmentV::Sequence { discon_seq, seq, .. } => SeqKey { discon_seq, seq },
            SegmentV::Initialization { .. } => SeqKey { discon_seq: 0, seq: 0 },
        }
    }
}

/// What one poll cycle produced: the new emissions in playlist order, the
/// state to poll with next, whether the playlist declared its end, and
/// how many milliseconds to wait before the next poll.
pub struct CycleOutput {
    pub emissions: Vec<Emission>,
    pub state: FetcherState,
    pub ended: bool,
    pub wait_ms: u64,
}

/// Whether the key `(d, s)` is at or before `last`: such a segment has
/// been seen and is not emitted again.
pub open spec fn spec_seen(last: Option<SeqKey>, d: u64, s: u64) -> bool {
    match last {
        Some(lk) => spec_key_le(d, s, lk.discon_seq, lk.seq),
        None => false,
    }
}

/// The wait before the next poll, in milliseconds: the playlist's target
/// duration where the cycle found new segments, half of it otherwise,
/// saturating at `u64::MAX`.
pub open spec fn spec_wait_ms(td: u64, found_new: bool) -> u64 {
    let f: int = if found_new {
        1000
    } else {
        500
    };
    if td * f > u64::MAX {
        u64::MAX
    } else {
        (td * f) as u64
    }
}

/// Running state of the cycle's fold over the playlist's entries.
pub struct CycleAccV {
    pub emissions: Seq<EmissionV>,
    pub last_key: Option<SeqKey>,
    pub current_init: Option<RemoteDataV>,
    pub current_key: Option<KeyTagV>,
    pub discon_offset: int,
    pub found_new: bool,
    pub error: Option<LivestreamDLErrorV>,
}

/// The fold's starting accumulator: the persisted state with the offset
/// at zero.
pub open spec fn spec_cycle_init(st: FetcherStateV) -> CycleAccV {
    CycleAccV {
        emissions: Seq::empty(),
        last_key: st.last_key,
        current_init: st.current_init,
        current_key: st.current_key,
        discon_offset: 0,
        found_new: false,
        error: None,
    }
}

/// One entry's effect on the cycle: bump the discontinuity offset on a
/// marked entry; take the entry's key tag, if it has one, as the tag in
/// force (whether the entry is new or already seen); skip seen keys;
/// resolve a new segment's encryption from the tag in force with that
/// segment's own sequence number; make the segment and map URIs
/// absolute; remember a redeclared initialization; emit the segment.
/// A failure stops the cycle with that error.
pub open spec fn spec_cycle_step(
    acc: CycleAccV,
    base: Seq<char>,
    p: MediaPlaylistV,
    i: int,
) -> CycleAccV {
    if acc.error is Some {
        acc
    } else {
        let e = p.segments[i];
        let doff = if e.discontinuity {
            acc.discon_offset + 1
        } else {
            acc.discon_offset
        };
        let d = (p.discontinuity_sequence + doff) as u64;
        let s = (p.media_sequence + i) as u64;
        let ck = match e.key {
            Option::Some(k) => Some(k),
            Option::None => acc.current_key,
        };
        let acc1 = CycleAccV { discon_offset: doff, current_key: ck, ..acc };
        if spec_seen(acc.last_key, d, s) {
            acc1
        } else {
            let enc_r = match ck {
                Option::Some(k) => EncryptionV::spec_new(k, base, s),
                Option::None => Ok(EncryptionV::Clear),
            };
            match enc_r {
                Result::Err(er) => CycleAccV { error: Some(er), ..acc1 },
                Result::Ok(enc) => {
                    let acc2 = CycleAccV {
                        last_key: Some(SeqKey { discon_seq: d, seq: s }),
                        found_new: true,
                        ..acc1
                    };
                    match join_url(base, e.uri) {
                        Option::None => CycleAccV {
                            error: Some(LivestreamDLErrorV::ParseUrl { url: e.uri }),
                            ..acc2
                        },
                        Option::Some(u) => {
                            let init_r = match e.map {
                                Option::Some(m) => match join_url(base, m.uri) {
                                    Option::None => Result::<
                                        Option<RemoteDataV>,
                                        LivestreamDLErrorV,
                                    >::Err(LivestreamDLErrorV::ParseUrl { url: m.uri }),
                                    Option::Some(mu) => Ok(
                                        Some(RemoteDataV { url: mu, byte_range: m.byte_range }),
                                    ),
                                },
                                Option::None => Ok(acc.current_init),
                            };
                            match init_r {
                                Result::Err(er) => CycleAccV { error: Some(er), ..acc2 },
                                Result::Ok(init) => CycleAccV {
                                    emissions: acc.emissions.push(
                                        EmissionV {
                                            segment: SegmentV::Sequence {
                                                data: RemoteDataV {
                                                    url: u,
                                                    byte_range: e.byte_range,
                                                },
                                                discon_seq: d,
                                                seq: s,
                                                format: MediaFormat::Unknown,
                                            },
                                            encryption: enc,
                                            init: init,
                                        },
                                    ),
                                    current_init: init,
                                    ..acc2
                                },
                            }
                        },
                    }
                },
            }
        }
    }
}

/// The fold over the playlist's first `k` entries.
pub open spec fn spec_cycle_prefix(
    st: FetcherStateV,
    base: Seq<char>,
    p: MediaPlaylistV,
    k: int,
) -> CycleAccV
    decreases k,
{
    if k <= 0 {
        spec_cycle_init(st)
    } else {
        spec_cycle_step(spec_cycle_prefix(st, base, p, k - 1), base, p, k - 1)
    }
}

/// The whole cycle: the fold over every entry of the playlist.
pub open spec fn spec_cycle(st: FetcherStateV, base: Seq<char>, p: MediaPlaylistV) -> CycleAccV {
    spec_cycle_prefix(st, base, p, p.segments.len() as int)
}

fn wait_millis(td: u64, found_new: bool) -> (r: u64)
    ensures
        r == spec_wait_ms(td, found_new),
{
    let f: u64 = if found_new {
        1000
    } else {
        500
    };
    if td > u64::MAX / f {
        proof {
            assert(td * (f as int) > u64::MAX) by (nonlinear_arith)
                requires
                    td > u64::MAX as int / (f as int),
                    f == 1000 || f == 500,
            ;
        }
        u64::MAX
    } else {
        proof {
            assert(td * (f as int) <= u64::MAX) by (nonlinear_arith)
                requires
                    td <= u64::MAX as int / (f as int),
                    f == 1000 || f == 500,
            ;
        }
        td * f
    }
}

fn clone_opt_remote(r: &Option<RemoteData>) -> (res: Option<RemoteData>)
    ensures
        (match res {
            Some(v) => (match r {
                Some(o) => v@ == o@,
                None => false,
            }),
            None => r is None,
        }),
{
    match r {
        Some(d) => Some(RemoteData::new(d.url().clone(), d.byte_range())),
        None => None,
    }
}

fn clone_opt_key_tag(k: &Option<KeyTag>) -> (res: Option<KeyTag>)
    ensures
        (match res {
            Some(v) => (match k {
                Some(o) => v@ == o@,
                None => false,
            }),
            None => k is None,
        }),
{
    match k {
        Some(t) => Some(t.duplicate()),
        None => None,
    }
}

/// Runs one poll cycle of the per-track poller over a freshly parsed
/// media playlist: emits every segment whose key exceeds the last seen
/// key, in playlist order.  Key and initialization tags govern every
/// following segment until redeclared, across cycles, whether or not
/// their carrying entry was already seen; each new segment's encryption
/// is resolved from the tag in force with that segment's own sequence
/// number.  The behaviour is exactly the fold [`spec_cycle`]; on its
/// first error the cycle stops and the error is returned (fatal for
/// this track).
pub fn process_playlist(state: &FetcherState, base_url: &str, playlist: &MediaPlaylist) -> (r:
    Result<CycleOutput, LivestreamDLError>)
    requires
        playlist@.media_sequence + playlist@.segments.len() <= u64::MAX,
        playlist@.discontinuity_sequence + playlist@.segments.len() <= u64::MAX,
    ensures
        ({
            let acc = spec_cycle(state@, base_url@, playlist@);
            match r {
                Ok(out) => acc.error is None && out.emissions.deep_view() == acc.emissions
                    && out.state@.last_key == acc.last_key && out.state@.current_init
                    == acc.current_init && out.state@.current_key == acc.current_key
                    && out.ended == playlist@.end_list && out.wait_ms
                    == spec_wait_ms(playlist@.target_duration, acc.found_new) && (forall|j: int|
                    0 <= j < out.emissions@.len() ==> (#[trigger] out.emissions@[j]@).encryption.wf()
                        && out.emissions@[j]@.segment is Sequence),
                Err(e) => acc.error == Some(e@),
            }
        }),
{
    let ghost st = state@;
    let ghost base = base_url@;
    let ghost p = playlist@;

    let mut emissions: Vec<Emission> = Vec::new();
    let mut last_key: Option<SeqKey> = state.last_key;
    let mut current_init: Option<RemoteData> = clone_opt_remote(&state.current_init);
    let mut current_key: Option<KeyTag> = clone_opt_key_tag(&state.current_key);
    let mut discon_offset: u64 = 0;
    let mut found_new: bool = false;

    let n = playlist.segments.len();
    let mut i: usize = 0;
    proof {
        assert(emissions.deep_view() =~= spec_cycle_prefix(st, base, p, 0).emissions);
    }
    while i < n
        invariant
            n == p.segments.len(),
            p == playlist@,
            st == state@,
            base == base_url@,
            p.media_sequence + n <= u64::MAX,
            p.discontinuity_sequence + n <= u64::MAX,
            i <= n,
            discon_offset <= i,
            ({
                let acc = spec_cycle_prefix(st, base, p, i as int);
                acc.error is None && emissions.deep_view() == acc.emissions && last_key
                    == acc.last_key && (match (&current_init, acc.current_init) {
                    (Some(c), Some(a)) => c@ == a,
                    (None, None) => true,
                    _ => false,
                }) && (match (&current_key, acc.current_key) {
                    (Some(c), Some(a)) => c@ == a,
                    (None, None) => true,
                    _ => false,
                }) && discon_offset as int == acc.discon_offset && found_new == acc.found_new
            }),
            forall|j: int|
                0 <= j < emissions@.len() ==> (#[trigger] emissions@[j]@).encryption.wf()
                    && emissions@[j]@.segment is Sequence,
        decreases n - i,
    {
        let ghost acc = spec_cycle_prefix(st, base, p, i as int);
        let ghost acc_next = spec_cycle_prefix(st, base, p, i as int + 1);
        proof {
            assert(acc_next == spec_cycle_step(acc, base, p, i as int));
        }
        let entry = &playlist.segments[i];
        if entry.discontinuity {
            discon_offset = discon_offset + 1;
        }
        let d: u64 = playlist.discontinuity_sequence + discon_offset;
        let s: u64 = playlist.media_sequence + (i as u64);
        match &entry.key {
            Some(k) => {
                current_key = Some(k.duplicate());
            },
            None => {},
        }
        let seen = match &last_key {
            Some(lk) => d < lk.discon_seq || (d == lk.discon_seq && s <= lk.seq),
            None => false,
        };
        if !seen {
            let enc = match &current_key {
                Some(k) => {
                    match Encryption::new(k, base_url, s) {
                        Ok(enc) => enc,
                        Err(er) => {
                            proof {
                                lemma_error_sticky(st, base, p, i as int + 1, n as int);
                            }
                            return Err(er);
                        },
                    }
                },
                None => Encryption::Clear,
            };
            last_key = Some(SeqKey { discon_seq: d, seq: s });
            found_new = true;
            let seg_url = match make_absolute_url(base_url, entry.uri.as_str()) {
                Ok(u) => u,
                Err(er) => {
                    proof {
                        lemma_error_sticky(st, base, p, i as int + 1, n as int);
                    }
                    return Err(er);
                },
            };
            let init: Option<RemoteData> = match &entry.map {
                Some(m) => {
                    match make_absolute_url(base_url, m.uri.as_str()) {
                        Ok(mu) => Some(RemoteData::new(mu, m.byte_range)),
                        Err(er) => {
                            proof {
                                lemma_error_sticky(st, base, p, i as int + 1, n as int);
                            }
                            return Err(er);
                        },
                    }
                },
                None => clone_opt_remote(&current_init),
            };
            let em = Emission {
                segment: Segment::Sequence {
                    data: RemoteData::new(seg_url, entry.byte_range),
                    discon_seq: d,
                    seq: s,
                    format: MediaFormat::Unknown,
                },
                encryption: enc,
                init: clone_opt_remote(&init),
            };
            emissions.push(em);
            current_init = init;
            proof {
                assert(emissions.deep_view() =~= acc_next.emissions);
            }
        }
        i += 1;
    }
    let wait_ms = wait_millis(playlist.target_duration, found_new);
    let out = CycleOutput {
        emissions,
        state: FetcherState { last_key, current_init, current_key },
        ended: playlist.end_list,
        wait_ms,
    };
    Ok(out)
}

/// `a < b` on segment keys.
pub open spec fn key_lt(a: SeqKey, b: SeqKey) -> bool {
    crate::segment::spec_key_lt(a.discon_seq, a.seq, b.discon_seq, b.seq)
}

/// `a <= b` on segment keys.
pub open spec fn key_le(a: SeqKey, b: SeqKey) -> bool {
    spec_key_le(a.discon_seq, a.seq, b.discon_seq, b.seq)
}

/// The emissions' keys strictly increase along the sequence.
pub open spec fn emissions_strictly_increasing(ems: Seq<EmissionV>) -> bool {
    forall|i: int, j: int|
        0 <= i < j < ems.len() ==> key_lt((#[trigger] ems[i]).key(), (#[trigger] ems[j]).key())
}

/// Every emission's key exceeds `last` (vacuous when nothing was seen).
pub open spec fn emissions_after(ems: Seq<EmissionV>, last: Option<SeqKey>) -> bool {
    match last {
        Some(lk) => forall|i: int| 0 <= i < ems.len() ==> key_lt(lk, (#[trigger] ems[i]).key()),
        None => true,
    }
}

/// How many of the playlist's first `k` entries carry the discontinuity
/// marker.
pub open spec fn spec_doff(p: MediaPlaylistV, k: int) -> int
    decreases k,
{
    if k <= 0 {
        0
    } else {
        spec_doff(p, k - 1) + if p.segments[k - 1].discontinuity {
            1int
        } else {
            0int
        }
    }
}

/// The ordering key of the playlist's entry `i`, as the cycle computes
/// it: the discontinuity sequence plus the markers up to and including
/// the entry, and the media sequence plus the entry's index.
pub open spec fn spec_entry_key(p: MediaPlaylistV, i: int) -> SeqKey {
    SeqKey {
        discon_seq: (p.discontinuity_sequence + spec_doff(p, i + 1)) as u64,
        seq: (p.media_sequence + i) as u64,
    }
}

/// The running invariants of an error-free cycle prefix: the offset
/// counts the markers; the last key only moves forward; it is the last
/// emission's key; emitted keys strictly increase, all exceed the
/// starting key, and every processed entry's key is at or before the
/// current last key.
pub proof fn lemma_cycle_monotone(st: FetcherStateV, base: Seq<char>, p: MediaPlaylistV, k: int)
    requires
        0 <= k <= p.segments.len(),
        p.media_sequence + p.segments.len() <= u64::MAX,
        p.discontinuity_sequence + p.segments.len() <= u64::MAX,
    ensures
        ({
            let acc = spec_cycle_prefix(st, base, p, k);
            acc.error is None ==> {
                &&& acc.discon_offset == spec_doff(p, k)
                &&& 0 <= acc.discon_offset <= k
                &&& (match (st.last_key, acc.last_key) {
                    (Some(a), Some(b)) => key_le(a, b),
                    (Some(a), None) => false,
                    (None, _) => true,
                })
                &&& (acc.emissions.len() == 0 ==> acc.last_key == st.last_key)
                &&& (acc.emissions.len() > 0 ==> acc.last_key == Some(
                    acc.emissions.last().key(),
                ))
                &&& emissions_strictly_increasing(acc.emissions)
                &&& emissions_after(acc.emissions, st.last_key)
                &&& (forall|i: int|
                    0 <= i < acc.emissions.len() ==> acc.last_key is Some && key_le(
                        (#[trigger] acc.emissions[i]).key(),
                        acc.last_key.unwrap(),
                    ))
                &&& (forall|i: int|
                    0 <= i < k ==> spec_seen(
                        acc.last_key,
                        (#[trigger] spec_entry_key(p, i)).discon_seq,
                        spec_entry_key(p, i).seq,
                    ))
            }
        }),
    decreases k,
{
    if k > 0 {
        lemma_cycle_monotone(st, base, p, k - 1);
        let prev = spec_cycle_prefix(st, base, p, k - 1);
        let acc = spec_cycle_prefix(st, base, p, k);
        if acc.error is None {
            assert(prev.error is None) by {
                if prev.error is Some {
                    lemma_error_sticky(st, base, p, k - 1, k);
                }
            }
            let e = p.segments[k - 1];
            let doff = if e.discontinuity {
                prev.discon_offset + 1
            } else {
                prev.discon_offset
            };
            let d = (p.discontinuity_sequence + doff) as u64;
            let s = (p.media_sequence + k - 1) as u64;
            assert(spec_doff(p, k) == doff);
            assert(spec_entry_key(p, k - 1) == SeqKey { discon_seq: d, seq: s });
            if spec_seen(prev.last_key, d, s) {
                assert(acc.emissions == prev.emissions);
            } else {
                assert(acc.last_key == Some(SeqKey { discon_seq: d, seq: s }));
                if acc.emissions.len() > prev.emissions.len() {
                    assert(acc.emissions == prev.emissions.push(acc.emissions.last()));
                    assert(acc.emissions.last().key() == SeqKey { discon_seq: d, seq: s });
                }
            }
        }
    }
}

/// For every poll cycle that completes without error: the emitted
/// segment keys strictly increase under the `(discontinuity-sequence,
/// media-sequence)` order; every emitted key exceeds the key last seen
/// before the cycle, so no key is ever emitted twice; and the state's
/// last key afterwards is the greatest emitted key (or unchanged when
/// nothing was emitted).
pub proof fn lemma_emitted_keys_strictly_increase(
    st: FetcherStateV,
    base: Seq<char>,
    p: MediaPlaylistV,
)
    requires
        p.media_sequence + p.segments.len() <= u64::MAX,
        p.discontinuity_sequence + p.segments.len() <= u64::MAX,
    ensures
        ({
            let acc = spec_cycle(st, base, p);
            acc.error is None ==> {
                &&& emissions_strictly_increasing(acc.emissions)
                &&& emissions_after(acc.emissions, st.last_key)
                &&& (acc.emissions.len() == 0 ==> acc.last_key == st.last_key)
                &&& (acc.emissions.len() > 0 ==> acc.last_key == Some(
                    acc.emissions.last().key(),
                ))
            }
        }),
{
    lemma_cycle_monotone(st, base, p, p.segments.len() as int);
}

/// The key tag in force after the playlist's first `k` entries: the
/// last tag declared among them, or the starting one where none is.
pub open spec fn spec_tag_fold(ck: Option<KeyTagV>, p: MediaPlaylistV, k: int) -> Option<KeyTagV>
    decreases k,
{
    if k <= 0 {
        ck
    } else {
        match p.segments[k - 1].key {
            Option::Some(t) => Some(t),
            Option::None => spec_tag_fold(ck, p, k - 1),
        }
    }
}

/// An error-free cycle prefix's tag in force is the fold of the
/// entries' tags over the starting one.
pub proof fn lemma_cycle_tracks_tags(st: FetcherStateV, base: Seq<char>, p: MediaPlaylistV, k: int)
    requires
        0 <= k <= p.segments.len(),
    ensures
        spec_cycle_prefix(st, base, p, k).error is None ==> spec_cycle_prefix(
            st,
            base,
            p,
            k,
        ).current_key == spec_tag_fold(st.current_key, p, k),
    decreases k,
{
    if k > 0 {
        lemma_cycle_tracks_tags(st, base, p, k - 1);
        if spec_cycle_prefix(st, base, p, k).error is None {
            assert(spec_cycle_prefix(st, base, p, k - 1).error is None) by {
                if spec_cycle_prefix(st, base, p, k - 1).error is Some {
                    lemma_error_sticky(st, base, p, k - 1, k);
                }
            }
        }
    }
}

/// Folding the entries' tags over an already folded tag changes
/// nothing.
proof fn lemma_tag_fold_absorb(ck: Option<KeyTagV>, p: MediaPlaylistV, k: int)
    requires
        0 <= k,
    ensures
        spec_tag_fold(spec_tag_fold(ck, p, k), p, k) == spec_tag_fold(ck, p, k),
    decreases k,
{
    if k > 0 {
        lemma_tag_fold_absorb(ck, p, k - 1);
    }
}

/// Reprocessing an already-seen playlist with the last key unchanged
/// emits nothing new: running a second cycle over the same playlist,
/// from the state the first error-free cycle left, produces no
/// emissions and leaves the state exactly as it was.
pub proof fn lemma_reprocess_idempotent(st: FetcherStateV, base: Seq<char>, p: MediaPlaylistV)
    requires
        p.media_sequence + p.segments.len() <= u64::MAX,
        p.discontinuity_sequence + p.segments.len() <= u64::MAX,
        spec_cycle(st, base, p).error is None,
    ensures
        ({
            let acc1 = spec_cycle(st, base, p);
            let st1 = FetcherStateV {
                last_key: acc1.last_key,
                current_init: acc1.current_init,
                current_key: acc1.current_key,
            };
            let acc2 = spec_cycle(st1, base, p);
            &&& acc2.error is None
            &&& acc2.emissions == Seq::<EmissionV>::empty()
            &&& acc2.last_key == acc1.last_key
            &&& acc2.current_init == acc1.current_init
            &&& acc2.current_key == acc1.current_key
            &&& !acc2.found_new
        }),
{
    let n = p.segments.len() as int;
    lemma_cycle_monotone(st, base, p, n);
    lemma_cycle_tracks_tags(st, base, p, n);
    let acc1 = spec_cycle(st, base, p);
    let st1 = FetcherStateV {
        last_key: acc1.last_key,
        current_init: acc1.current_init,
        current_key: acc1.current_key,
    };
    lemma_reprocess_prefix(st1, base, p, n, acc1.last_key);
    lemma_tag_fold_absorb(st.current_key, p, n);
}

/// In a cycle starting from a last key at or past every entry's key,
/// every prefix only counts discontinuity markers and changes nothing
/// else.
proof fn lemma_reprocess_prefix(
    st: FetcherStateV,
    base: Seq<char>,
    p: MediaPlaylistV,
    k: int,
    last: Option<SeqKey>,
)
    requires
        0 <= k <= p.segments.len(),
        p.media_sequence + p.segments.len() <= u64::MAX,
        p.discontinuity_sequence + p.segments.len() <= u64::MAX,
        st.last_key == last,
        forall|i: int|
            0 <= i < p.segments.len() ==> spec_seen(
                last,
                (#[trigger] spec_entry_key(p, i)).discon_seq,
                spec_entry_key(p, i).seq,
            ),
    ensures
        ({
            let acc = spec_cycle_prefix(st, base, p, k);
            &&& acc.error is None
            &&& acc.emissions == Seq::<EmissionV>::empty()
            &&& acc.last_key == st.last_key
            &&& acc.current_init == st.current_init
            &&& !acc.found_new
            &&& acc.discon_offset == spec_doff(p, k)
            &&& acc.current_key == spec_tag_fold(st.current_key, p, k)
        }),
    decreases k,
{
    if k > 0 {
        lemma_reprocess_prefix(st, base, p, k - 1, last);
        let prev = spec_cycle_prefix(st, base, p, k - 1);
        let e = p.segments[k - 1];
        let doff = if e.discontinuity {
            prev.discon_offset + 1
        } else {
            prev.discon_offset
        };
        assert(doff == spec_doff(p, k));
        assert(spec_entry_key(p, k - 1) == SeqKey {
            discon_seq: (p.discontinuity_sequence + doff) as u64,
            seq: (p.media_sequence + k - 1) as u64,
        });
        assert(spec_seen(
            last,
            spec_entry_key(p, k - 1).discon_seq,
            spec_entry_key(p, k - 1).seq,
        ));
    }
}

/// Across consecutive poll cycles of one track — whatever playlists the
/// server publishes — every key emitted by the later cycle exceeds every
/// key emitted by the earlier one: together with the per-cycle strict
/// increase, no key is ever emitted twice.
pub proof fn lemma_cycles_never_repeat_keys(
    st: FetcherStateV,
    base1: Seq<char>,
    p1: MediaPlaylistV,
    base2: Seq<char>,
    p2: MediaPlaylistV,
)
    requires
        p1.media_sequence + p1.segments.len() <= u64::MAX,
        p1.discontinuity_sequence + p1.segments.len() <= u64::MAX,
        p2.media_sequence + p2.segments.len() <= u64::MAX,
        p2.discontinuity_sequence + p2.segments.len() <= u64::MAX,
        spec_cycle(st, base1, p1).error is None,
    ensures
        ({
            let acc1 = spec_cycle(st, base1, p1);
            let st1 = FetcherStateV {
                last_key: acc1.last_key,
                current_init: acc1.current_init,
                current_key: acc1.current_key,
            };
            let acc2 = spec_cycle(st1, base2, p2);
            acc2.error is None ==> forall|i: int, j: int|
                0 <= i < acc1.emissions.len() && 0 <= j < acc2.emissions.len() ==> key_lt(
                    (#[trigger] acc1.emissions[i]).key(),
                    (#[trigger] acc2.emissions[j]).key(),
                )
        }),
{
    lemma_cycle_monotone(st, base1, p1, p1.segments.len() as int);
    let acc1 = spec_cycle(st, base1, p1);
    let st1 = FetcherStateV {
        last_key: acc1.last_key,
        current_init: acc1.current_init,
        current_key: acc1.current_key,
    };
    lemma_cycle_monotone(st1, base2, p2, p2.segments.len() as int);
}

/// Once a cycle has failed, every longer prefix carries the same error.
pub proof fn lemma_error_sticky(
    st: FetcherStateV,
    base: Seq<char>,
    p: MediaPlaylistV,
    k: int,
    m: int,
)
    requires
        0 <= k <= m,
        spec_cycle_prefix(st, base, p, k).error is Some,
    ensures
        spec_cycle_prefix(st, base, p, m) == spec_cycle_prefix(st, base, p, k),
    decreases m - k,
{
    if m > k {
        lemma_error_sticky(st, base, p, k, m - 1);
    }
}

} // verus!
