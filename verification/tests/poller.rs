//! The poller's per-cycle step: emission, deduplication, discontinuity
//! accounting, end-of-list and wait computation.

use livestream_dl::{
    process_playlist, Encryption, FetcherState, MediaPlaylist, Segment, SegmentEntry,
};

fn entry(uri: &str) -> SegmentEntry {
    SegmentEntry {
        uri: uri.to_string(),
        byte_range: None,
        discontinuity: false,
        key: None,
        map: None,
    }
}

fn playlist(entries: Vec<SegmentEntry>, end_list: bool) -> MediaPlaylist {
    MediaPlaylist {
        target_duration: 6,
        media_sequence: 10,
        discontinuity_sequence: 0,
        end_list,
        segments: entries,
    }
}

fn key_of(seg: &Segment) -> (u64, u64) {
    match seg {
        Segment::Sequence { discon_seq, seq, .. } => (*discon_seq, *seq),
        Segment::Initialization { .. } => panic!("unexpected initialization segment"),
    }
}

#[test]
fn first_cycle_emits_every_segment_in_order() {
    let p = playlist(vec![entry("a.ts"), entry("b.ts")], true);
    let state = FetcherState::new();
    let out = process_playlist(&state, "http://example.com/p.m3u8", &p).expect("cycle");
    assert_eq!(out.emissions.len(), 2);
    assert_eq!(key_of(&out.emissions[0].segment), (0, 10));
    assert_eq!(key_of(&out.emissions[1].segment), (0, 11));
    assert_eq!(out.emissions[0].segment.url().as_str(), "http://example.com/a.ts");
    assert_eq!(out.emissions[1].segment.url().as_str(), "http://example.com/b.ts");
    assert!(out.ended);
    assert_eq!(out.wait_ms, 6000);
}

#[test]
fn reprocessing_same_playlist_emits_nothing() {
    let p = playlist(vec![entry("a.ts"), entry("b.ts")], false);
    let state = FetcherState::new();
    let first = process_playlist(&state, "http://example.com/p.m3u8", &p).expect("cycle");
    assert_eq!(first.emissions.len(), 2);
    let second = process_playlist(&first.state, "http://example.com/p.m3u8", &p).expect("cycle");
    assert_eq!(second.emissions.len(), 0);
    assert_eq!(second.state.last_key, first.state.last_key);
    assert!(!second.ended);
    // no new segments: wait half the target duration
    assert_eq!(second.wait_ms, 3000);
}

#[test]
fn sliding_window_emits_only_new_keys() {
    let p1 = playlist(vec![entry("a.ts"), entry("b.ts")], false);
    let state = FetcherState::new();
    let first = process_playlist(&state, "http://example.com/p.m3u8", &p1).expect("cycle");
    // the playlist slides forward by one segment
    let p2 = MediaPlaylist {
        target_duration: 6,
        media_sequence: 11,
        discontinuity_sequence: 0,
        end_list: false,
        segments: vec![entry("b.ts"), entry("c.ts")],
    };
    let second = process_playlist(&first.state, "http://example.com/p.m3u8", &p2).expect("cycle");
    assert_eq!(second.emissions.len(), 1);
    assert_eq!(key_of(&second.emissions[0].segment), (0, 12));
    assert_eq!(second.emissions[0].segment.url().as_str(), "http://example.com/c.ts");
}

#[test]
fn discontinuity_advances_the_major_key() {
    let mut e2 = entry("b.ts");
    e2.discontinuity = true;
    let p = playlist(vec![entry("a.ts"), e2, entry("c.ts")], true);
    let state = FetcherState::new();
    let out = process_playlist(&state, "http://example.com/p.m3u8", &p).expect("cycle");
    let keys: Vec<(u64, u64)> = out.emissions.iter().map(|e| key_of(&e.segment)).collect();
    assert_eq!(keys, vec![(0, 10), (1, 11), (1, 12)]);
    // keys strictly increase
    for w in keys.windows(2) {
        assert!(w[0] < w[1]);
    }
}

#[test]
fn initialization_attaches_to_following_segments() {
    let mut e1 = entry("a.ts");
    e1.map = Some(livestream_dl::MapTag { uri: "init.mp4".to_string(), byte_range: None });
    let p = playlist(vec![e1, entry("b.ts")], true);
    let state = FetcherState::new();
    let out = process_playlist(&state, "http://example.com/p.m3u8", &p).expect("cycle");
    assert_eq!(out.emissions.len(), 2);
    let i0 = out.emissions[0].init.as_ref().expect("init on declaring segment");
    assert_eq!(i0.url().as_str(), "http://example.com/init.mp4");
    let i1 = out.emissions[1].init.as_ref().expect("init carried forward");
    assert_eq!(i1.url().as_str(), "http://example.com/init.mp4");
}

#[test]
fn key_tag_applies_from_its_segment_on() {
    let mut e2 = entry("b.ts");
    e2.key = Some(livestream_dl::KeyTag {
        method: livestream_dl::KeyMethod::Aes128,
        uri: Some("k.bin".to_string()),
        iv: None,
        keyformat: None,
    });
    let p = playlist(vec![entry("a.ts"), e2, entry("c.ts")], true);
    let state = FetcherState::new();
    let out = process_playlist(&state, "http://example.com/p.m3u8", &p).expect("cycle");
    assert_eq!(out.emissions.len(), 3);
    assert_eq!(out.emissions[0].encryption, Encryption::Clear);
    match &out.emissions[1].encryption {
        Encryption::Aes128 { key_url, iv } => {
            assert_eq!(key_url, "http://example.com/k.bin");
            assert_eq!(*iv, livestream_dl::iv_from_sequence(11));
        },
        other => panic!("expected AES-128, got {:?}", other),
    }
    match &out.emissions[2].encryption {
        Encryption::Aes128 { iv, .. } => {
            // the tag carries forward; each segment's IV derives from
            // its own sequence number
            assert_eq!(*iv, livestream_dl::iv_from_sequence(12));
        },
        other => panic!("expected AES-128, got {:?}", other),
    }
}

#[test]
fn key_tag_on_seen_segment_still_governs_new_ones() {
    // first cycle sees only the first segment
    let p1 = playlist(vec![entry("a.ts")], false);
    let state = FetcherState::new();
    let first = process_playlist(&state, "http://example.com/p.m3u8", &p1).expect("cycle");
    assert_eq!(first.emissions.len(), 1);

    // next cycle: the key tag rides on the already-seen segment, and a
    // new segment follows it
    let mut ea = entry("a.ts");
    ea.key = Some(livestream_dl::KeyTag {
        method: livestream_dl::KeyMethod::Aes128,
        uri: Some("k.bin".to_string()),
        iv: None,
        keyformat: None,
    });
    let p2 = playlist(vec![ea, entry("b.ts")], false);
    let second = process_playlist(&first.state, "http://example.com/p.m3u8", &p2).expect("cycle");
    assert_eq!(second.emissions.len(), 1);
    match &second.emissions[0].encryption {
        Encryption::Aes128 { key_url, iv } => {
            assert_eq!(key_url, "http://example.com/k.bin");
            assert_eq!(*iv, livestream_dl::iv_from_sequence(11));
        },
        other => panic!("expected AES-128, got {:?}", other),
    }
}

#[test]
fn key_tag_persists_across_cycles() {
    // a key tag declared in one cycle still governs segments of later
    // cycles until redeclared
    let mut ea = entry("a.ts");
    ea.key = Some(livestream_dl::KeyTag {
        method: livestream_dl::KeyMethod::Aes128,
        uri: Some("k.bin".to_string()),
        iv: None,
        keyformat: None,
    });
    let p1 = playlist(vec![ea], false);
    let state = FetcherState::new();
    let first = process_playlist(&state, "http://example.com/p.m3u8", &p1).expect("cycle");
    assert_eq!(first.emissions.len(), 1);

    // the window slides past the tag's carrier entirely
    let p2 = MediaPlaylist {
        target_duration: 6,
        media_sequence: 11,
        discontinuity_sequence: 0,
        end_list: false,
        segments: vec![entry("b.ts")],
    };
    let second = process_playlist(&first.state, "http://example.com/p.m3u8", &p2).expect("cycle");
    assert_eq!(second.emissions.len(), 1);
    match &second.emissions[0].encryption {
        Encryption::Aes128 { key_url, iv } => {
            assert_eq!(key_url, "http://example.com/k.bin");
            assert_eq!(*iv, livestream_dl::iv_from_sequence(11));
        },
        other => panic!("expected AES-128, got {:?}", other),
    }
}

#[test]
fn bad_key_tag_fails_the_cycle() {
    let mut e1 = entry("a.ts");
    e1.key = Some(livestream_dl::KeyTag {
        method: livestream_dl::KeyMethod::Aes128,
        uri: None,
        iv: None,
        keyformat: None,
    });
    let p = playlist(vec![e1], false);
    let state = FetcherState::new();
    let out = process_playlist(&state, "http://example.com/p.m3u8", &p);
    assert_eq!(out.err(), Some(livestream_dl::LivestreamDLError::NoKeyUri));
}

#[test]
fn byte_ranges_ride_along() {
    let mut e1 = entry("a.ts");
    e1.byte_range = Some(livestream_dl::ByteRange { length: 50, offset: Some(100) });
    let p = playlist(vec![e1], true);
    let state = FetcherState::new();
    let out = process_playlist(&state, "http://example.com/p.m3u8", &p).expect("cycle");
    assert_eq!(
        out.emissions[0].segment.byte_range(),
        Some("bytes=100-149".to_string())
    );
}
