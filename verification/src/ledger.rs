//! The downloaded-segment ledger: per track, the segments written to
//! disk so far, kept sorted by `(discontinuity-sequence, media-sequence)`
//! key regardless of download completion order.

use vstd::prelude::*;
use vstd::multiset::Multiset;

use crate::fetcher::{key_le, SeqKey};
use crate::segment::{Segment, SegmentV};
use crate::stream::{Stream, StreamV};

verus! {

/// One downloaded segment of a track: the segment and its on-disk path.
pub struct LedgerEntry {
    pub segment: Segment,
    pub path: String,
}

/// Model of a [`LedgerEntry`].
pub struct LedgerEntryV {
    pub segment: SegmentV,
    pub path: Seq<char>,
}

impl View for LedgerEntry {
    type V = LedgerEntryV;

    open spec fn view(&self) -> LedgerEntryV {
        LedgerEntryV { segment: self.segment@, path: self.path@ }
    }
}

impl DeepView for LedgerEntry {
    type V = LedgerEntryV;

    open spec fn deep_view(&self) -> LedgerEntryV {
        self.view()
    }
}

impl LedgerEntryV {
    /// The entry's ordering key.
    pub open spec fn key(self) -> SeqKey {
        match self.segment {
            SegmentV::Sequence { discon_seq, seq, .. } => SeqKey { discon_seq, seq },
            SegmentV::Initialization { .. } => SeqKey { discon_seq: 0, seq: 0 },
        }
    }
}

/// The entries are sorted by key.
pub open spec fn spec_entries_sorted(es: Seq<LedgerEntryV>) -> bool {
    forall|i: int, j: int|
        0 <= i < j < es.len() ==> key_le((#[trigger] es[i]).key(), (#[trigger] es[j]).key())
}

/// `e` inserted into sorted `es`, after any entries with the same key.
pub open spec fn spec_insert_sorted(es: Seq<LedgerEntryV>, e: LedgerEntryV) -> Seq<LedgerEntryV>
    decreases es.len(),
{
    if es.len() == 0 {
        seq![e]
    } else if key_le(es[0].key(), e.key()) {
        seq![es[0]] + spec_insert_sorted(es.drop_first(), e)
    } else {
        seq![e] + es
    }
}

/// Inserting into a sorted sequence keeps it sorted and adds exactly the
/// new entry.
pub proof fn lemma_insert_sorted(es: Seq<LedgerEntryV>, e: LedgerEntryV)
    requires
        spec_entries_sorted(es),
    ensures
        spec_entries_sorted(spec_insert_sorted(es, e)),
        spec_insert_sorted(es, e).len() == es.len() + 1,
        spec_insert_sorted(es, e).to_multiset() == es.to_multiset().insert(e),
    decreases es.len(),
{
    broadcast use vstd::seq_lib::group_to_multiset_ensures;

    if es.len() == 0 {
        assert(seq![e].drop_first() =~= Seq::<LedgerEntryV>::empty());
        assert(seq![e] =~= Seq::<LedgerEntryV>::empty().push(e));
        assert(seq![e].to_multiset() =~= es.to_multiset().insert(e));
    } else if key_le(es[0].key(), e.key()) {
        assert(spec_entries_sorted(es.drop_first()));
        lemma_insert_sorted(es.drop_first(), e);
        let inner = spec_insert_sorted(es.drop_first(), e);
        let r = seq![es[0]] + inner;
        assert forall|i: int, j: int| 0 <= i < j < r.len() implies key_le(
            (#[trigger] r[i]).key(),
            (#[trigger] r[j]).key(),
        ) by {
            if i == 0 {
                // r[j] is either e or an entry of es.drop_first(), both at
                // or after es[0] in the order.
                assert(inner.to_multiset().contains(r[j]));
                assert(inner.to_multiset() == es.drop_first().to_multiset().insert(e));
                if r[j] != e || es.drop_first().to_multiset().contains(r[j]) {
                    if es.drop_first().to_multiset().contains(r[j]) {
                        let k = choose|k: int|
                            0 <= k < es.drop_first().len() && es.drop_first()[k] == r[j];
                        assert(es[k + 1] == r[j]);
                        assert(key_le(es[0].key(), es[k + 1].key()));
                    } else {
                        assert(r[j] == e);
                    }
                }
            }
        }
        assert(r =~= seq![es[0]] + inner);
        assert(es =~= seq![es[0]] + es.drop_first());
        assert(r.to_multiset() =~= es.to_multiset().insert(e)) by {
            vstd::seq_lib::lemma_multiset_commutative(seq![es[0]], inner);
            vstd::seq_lib::lemma_multiset_commutative(seq![es[0]], es.drop_first());
        }
    } else {
        let r = seq![e] + es;
        assert forall|i: int, j: int| 0 <= i < j < r.len() implies key_le(
            (#[trigger] r[i]).key(),
            (#[trigger] r[j]).key(),
        ) by {
            if i == 0 {
                assert(key_le(e.key(), es[0].key()));
                if j > 1 {
                    assert(key_le(es[0].key(), es[j - 1].key()));
                }
            }
        }
        assert(r.to_multiset() =~= es.to_multiset().insert(e)) by {
            vstd::seq_lib::lemma_multiset_commutative(seq![e], es);
            assert(seq![e].to_multiset() =~= Multiset::<LedgerEntryV>::empty().insert(e));
        }
    }
}

/// One track's ledger.
pub struct TrackLedger {
    pub stream: Stream,
    pub entries: Vec<LedgerEntry>,
}

/// Model of a [`TrackLedger`].
pub struct TrackLedgerV {
    pub stream: StreamV,
    pub entries: Seq<LedgerEntryV>,
}

impl View for TrackLedger {
    type V = TrackLedgerV;

    open spec fn view(&self) -> TrackLedgerV {
        TrackLedgerV { stream: self.stream@, entries: self.entries.deep_view() }
    }
}

impl DeepView for TrackLedger {
    type V = TrackLedgerV;

    open spec fn deep_view(&self) -> TrackLedgerV {
        self.view()
    }
}

/// The per-session ledger: one track ledger per stream, each sorted.
pub struct DownloadLedger {
    pub tracks: Vec<TrackLedger>,
}

impl View for DownloadLedger {
    type V = Seq<TrackLedgerV>;

    open spec fn view(&self) -> Seq<TrackLedgerV> {
        self.tracks.deep_view()
    }
}

/// `e` recorded under `s`: appended in key order to `s`'s track, a new
/// track at the end where none exists yet.
pub open spec fn spec_ledger_insert(ts: Seq<TrackLedgerV>, s: StreamV, e: LedgerEntryV) -> Seq<
    TrackLedgerV,
>
    decreases ts.len(),
{
    if ts.len() == 0 {
        seq![TrackLedgerV { stream: s, entries: seq![e] }]
    } else if ts[0].stream == s {
        seq![TrackLedgerV { stream: s, entries: spec_insert_sorted(ts[0].entries, e) }]
            + ts.drop_first()
    } else {
        seq![ts[0]] + spec_ledger_insert(ts.drop_first(), s, e)
    }
}

/// The entries recorded under `s`, if any.
pub open spec fn spec_ledger_entries(ts: Seq<TrackLedgerV>, s: StreamV) -> Option<
    Seq<LedgerEntryV>,
>
    decreases ts.len(),
{
    if ts.len() == 0 {
        None
    } else if ts[0].stream == s {
        Some(ts[0].entries)
    } else {
        spec_ledger_entries(ts.drop_first(), s)
    }
}

/// Every track's entries are sorted by key.
pub open spec fn spec_ledger_wf(ts: Seq<TrackLedgerV>) -> bool {
    forall|i: int| 0 <= i < ts.len() ==> spec_entries_sorted((#[trigger] ts[i]).entries)
}

/// Recording an entry keeps every track's entries sorted by key.
pub proof fn lemma_ledger_insert_preserves_wf(ts: Seq<TrackLedgerV>, s: StreamV, e: LedgerEntryV)
    requires
        spec_ledger_wf(ts),
    ensures
        spec_ledger_wf(spec_ledger_insert(ts, s, e)),
    decreases ts.len(),
{
    if ts.len() == 0 {
        let r = spec_ledger_insert(ts, s, e);
        assert(r[0].entries =~= seq![e]);
        assert(spec_entries_sorted(r[0].entries));
    } else if ts[0].stream == s {
        assert(spec_entries_sorted(ts[0].entries));
        lemma_insert_sorted(ts[0].entries, e);
        let r = spec_ledger_insert(ts, s, e);
        assert forall|i: int| 0 <= i < r.len() implies spec_entries_sorted(
            (#[trigger] r[i]).entries,
        ) by {
            if i > 0 {
                assert(r[i] == ts[i]);
            }
        }
    } else {
        assert(spec_ledger_wf(ts.drop_first())) by {
            assert(forall|i: int|
                0 <= i < ts.drop_first().len() ==> (#[trigger] ts.drop_first()[i]) == ts[i + 1]);
        }
        lemma_ledger_insert_preserves_wf(ts.drop_first(), s, e);
        let r = spec_ledger_insert(ts, s, e);
        let inner = spec_ledger_insert(ts.drop_first(), s, e);
        assert forall|i: int| 0 <= i < r.len() implies spec_entries_sorted(
            (#[trigger] r[i]).entries,
        ) by {
            if i > 0 {
                assert(r[i] == inner[i - 1]);
            } else {
                assert(r[0] == ts[0]);
            }
        }
    }
}

proof fn lemma_ledger_insert_skip(ts: Seq<TrackLedgerV>, s: StreamV, e: LedgerEntryV, i: int)
    requires
        0 <= i <= ts.len(),
        forall|j: int| 0 <= j < i ==> (#[trigger] ts[j]).stream != s,
    ensures
        spec_ledger_insert(ts, s, e) == ts.take(i) + spec_ledger_insert(ts.skip(i), s, e),
    decreases i,
{
    if i == 0 {
        assert(ts.skip(0) =~= ts);
        assert(ts.take(0) + spec_ledger_insert(ts, s, e) =~= spec_ledger_insert(ts, s, e));
    } else {
        assert(ts.len() > 0);
        assert(ts[0].stream != s);
        let rest = ts.drop_first();
        assert(forall|j: int| 0 <= j < i - 1 ==> (#[trigger] rest[j]).stream != s);
        lemma_ledger_insert_skip(rest, s, e, i - 1);
        assert(rest.skip(i - 1) =~= ts.skip(i));
        assert(seq![ts[0]] + (rest.take(i - 1) + spec_ledger_insert(ts.skip(i), s, e)) =~= ts.take(
            i,
        ) + spec_ledger_insert(ts.skip(i), s, e));
    }
}

impl DownloadLedger {
    /// An empty ledger.
    pub fn new() -> (r: DownloadLedger)
        ensures
            r@ == Seq::<TrackLedgerV>::empty(),
    {
        let r = DownloadLedger { tracks: Vec::new() };
        proof {
            assert(r@ =~= Seq::<TrackLedgerV>::empty());
        }
        r
    }

    /// Records a downloaded segment under its stream, in key order.
    pub fn insert(&mut self, stream: &Stream, segment: Segment, path: String)
        ensures
            final(self)@ == spec_ledger_insert(old(self)@, stream@, LedgerEntryV {
                segment: segment@,
                path: path@,
            }),
    {
        let ghost ts = self@;
        let ghost ev = LedgerEntryV { segment: segment@, path: path@ };
        let n = self.tracks.len();
        let i = find_track(&self.tracks, stream);
        proof {
            lemma_ledger_insert_skip(ts, stream@, ev, i as int);
        }
        if i < n {
            proof {
                assert(ts.skip(i as int)[0] == ts[i as int]);
            }
            let mut track = self.tracks.remove(i);
            let ghost old_entries = track.entries.deep_view();
            let key = match &segment {
                Segment::Sequence { discon_seq, seq, .. } => SeqKey {
                    discon_seq: *discon_seq,
                    seq: *seq,
                },
                Segment::Initialization { .. } => SeqKey { discon_seq: 0, seq: 0 },
            };
            let p = find_pos(&track.entries, key);
            proof {
                lemma_insert_at_pos(old_entries, ev, p as int);
            }
            track.entries.insert(p, LedgerEntry { segment, path });
            proof {
                assert(track.entries.deep_view() =~= old_entries.take(p as int) + seq![ev]
                    + old_entries.skip(p as int));
                assert(track@.entries == spec_insert_sorted(ts[i as int].entries, ev));
            }
            let ghost track_v = track@;
            self.tracks.insert(i, track);
            proof {
                assert(track_v.stream == stream@);
                assert(spec_ledger_insert(ts.skip(i as int), stream@, ev) == seq![
                    TrackLedgerV {
                        stream: stream@,
                        entries: spec_insert_sorted(ts.skip(i as int)[0].entries, ev),
                    },
                ] + ts.skip(i as int).drop_first());
                assert(ts.skip(i as int).drop_first() =~= ts.skip(i as int + 1));
                assert(track_v == TrackLedgerV {
                    stream: stream@,
                    entries: spec_insert_sorted(ts.skip(i as int)[0].entries, ev),
                });
                let rhs = ts.take(i as int) + spec_ledger_insert(ts.skip(i as int), stream@, ev);
                assert(self.tracks@.len() == ts.len());
                assert forall|j: int| 0 <= j < ts.len() implies self@[j] == rhs[j] by {
                    if j < i {
                        assert(self.tracks@[j] == old(self).tracks@[j]);
                        assert(rhs[j] == ts[j]);
                    } else if j == i {
                        assert(self.tracks@[j] == track);
                        assert(rhs[j] == track_v);
                    } else {
                        assert(self.tracks@[j] == old(self).tracks@[j]);
                        assert(rhs[j] == ts.skip(i as int).drop_first()[j - i - 1]);
                        assert(rhs[j] == ts[j]);
                    }
                }
                assert(self@ =~= rhs);
            }
        } else {
            let mut entries: Vec<LedgerEntry> = Vec::new();
            entries.push(LedgerEntry { segment, path });
            let stream_copy = self_clone_stream(stream);
            let track = TrackLedger { stream: stream_copy, entries };
            proof {
                assert(track@.entries =~= seq![ev]);
                assert(track@ == (TrackLedgerV { stream: stream@, entries: seq![ev] }));
            }
            let ghost track_v = track@;
            self.tracks.push(track);
            proof {
                assert(ts.skip(i as int) =~= Seq::<TrackLedgerV>::empty());
                assert(spec_ledger_insert(ts.skip(i as int), stream@, ev) == seq![track_v]);
                assert(ts.take(i as int) =~= ts);
                assert(self@ =~= ts + seq![track_v]);
                assert(self@ =~= ts.take(i as int) + spec_ledger_insert(
                    ts.skip(i as int),
                    stream@,
                    ev,
                ));
            }
        }
    }

    /// The recorded entries of a stream, in key order.
    pub fn entries_for(&self, stream: &Stream) -> (r: Option<&Vec<LedgerEntry>>)
        ensures
            match r {
                Some(v) => spec_ledger_entries(self@, stream@) == Some(v.deep_view()),
                None => spec_ledger_entries(self@, stream@) is None,
            },
    {
        let ghost ts = self@;
        let n = self.tracks.len();
        let mut i: usize = 0;
        proof {
            assert(ts.skip(0) =~= ts);
        }
        while i < n
            invariant
                n == ts.len(),
                ts == self@,
                i <= n,
                forall|j: int| 0 <= j < i ==> (#[trigger] ts[j]).stream != stream@,
                spec_ledger_entries(ts, stream@) == spec_ledger_entries(ts.skip(i as int), stream@),
            decreases n - i,
        {
            if self.tracks[i].stream.same(stream) {
                proof {
                    assert(ts.skip(i as int)[0] == ts[i as int]);
                }
                return Some(&self.tracks[i].entries);
            }
            proof {
                assert(ts.skip(i as int).drop_first() =~= ts.skip(i as int + 1));
            }
            i += 1;
        }
        proof {
            assert(ts.skip(i as int) =~= Seq::<TrackLedgerV>::empty());
        }
        None
    }

    /// The tracks of the ledger, in the order their first segments
    /// arrived.
    pub fn tracks(&self) -> (r: &Vec<TrackLedger>)
        ensures
            r.deep_view() == self@,
    {
        &self.tracks
    }
}

/// The index to insert an entry with the given key at: after every
/// entry whose key is at or before it.
fn find_pos(entries: &Vec<LedgerEntry>, key: SeqKey) -> (r: usize)
    ensures
        r <= entries.deep_view().len(),
        forall|j: int|
            0 <= j < r ==> key_le((#[trigger] entries.deep_view()[j]).key(), key),
        r < entries.deep_view().len() ==> !key_le(entries.deep_view()[r as int].key(), key),
{
    let ghost es = entries.deep_view();
    let m = entries.len();
    let mut p: usize = 0;
    while p < m
        invariant
            m == es.len(),
            es == entries.deep_view(),
            p <= m,
            forall|j: int| 0 <= j < p ==> key_le((#[trigger] es[j]).key(), key),
        decreases m - p,
    {
        let ek = match &entries[p].segment {
            Segment::Sequence { discon_seq, seq, .. } => SeqKey {
                discon_seq: *discon_seq,
                seq: *seq,
            },
            Segment::Initialization { .. } => SeqKey { discon_seq: 0, seq: 0 },
        };
        let le = ek.discon_seq < key.discon_seq || (ek.discon_seq == key.discon_seq && ek.seq
            <= key.seq);
        if !le {
            return p;
        }
        p += 1;
    }
    p
}

/// The index of the first track with the given stream identity, or the
/// length where none matches.
fn find_track(tracks: &Vec<TrackLedger>, stream: &Stream) -> (r: usize)
    ensures
        r <= tracks.deep_view().len(),
        forall|j: int| 0 <= j < r ==> (#[trigger] tracks.deep_view()[j]).stream != stream@,
        r < tracks.deep_view().len() ==> tracks.deep_view()[r as int].stream == stream@,
{
    let ghost ts = tracks.deep_view();
    let n = tracks.len();
    let mut i: usize = 0;
    while i < n
        invariant
            n == ts.len(),
            ts == tracks.deep_view(),
            i <= n,
            forall|j: int| 0 <= j < i ==> (#[trigger] ts[j]).stream != stream@,
        decreases n - i,
    {
        if tracks[i].stream.same(stream) {
            return i;
        }
        i += 1;
    }
    i
}

/// Inserting after every entry at or before the new key matches the
/// recursive insertion.
proof fn lemma_insert_at_pos(es: Seq<LedgerEntryV>, e: LedgerEntryV, p: int)
    requires
        0 <= p <= es.len(),
        forall|j: int| 0 <= j < p ==> key_le((#[trigger] es[j]).key(), e.key()),
        p < es.len() ==> !key_le(es[p].key(), e.key()),
    ensures
        spec_insert_sorted(es, e) == es.take(p) + seq![e] + es.skip(p),
    decreases p,
{
    if p == 0 {
        if es.len() == 0 {
            assert(seq![e] =~= es.take(0) + seq![e] + es.skip(0));
        } else {
            assert(!key_le(es[0].key(), e.key()));
            assert(seq![e] + es =~= es.take(0) + seq![e] + es.skip(0));
        }
    } else {
        assert(key_le(es[0].key(), e.key()));
        let rest = es.drop_first();
        assert(forall|j: int| 0 <= j < p - 1 ==> key_le((#[trigger] rest[j]).key(), e.key()));
        assert(p - 1 < rest.len() ==> !key_le(rest[p - 1].key(), e.key()));
        lemma_insert_at_pos(rest, e, p - 1);
        assert(seq![es[0]] + (rest.take(p - 1) + seq![e] + rest.skip(p - 1)) =~= es.take(p)
            + seq![e] + es.skip(p));
    }
}

/// A copy of a stream identity with the same model.
fn self_clone_stream(s: &Stream) -> (r: Stream)
    ensures
        r@ == s@,
{
    match s {
        Stream::Main => Stream::Main,
        Stream::Video { name, lang } => Stream::Video {
            name: name.clone(),
            lang: match lang {
                Some(l) => Some(l.clone()),
                None => None,
            },
        },
        Stream::Audio { name, lang } => Stream::Audio {
            name: name.clone(),
            lang: match lang {
                Some(l) => Some(l.clone()),
                None => None,
            },
        },
        Stream::Subtitle { name, lang } => Stream::Subtitle {
            name: name.clone(),
            lang: match lang {
                Some(l) => Some(l.clone()),
                None => None,
            },
        },
    }
}

} // verus!
