//! Post-capture planning: the ledger, concatenation runs, mux arguments
//! and outputs, language conversion, and the initialization cache.

use livestream_dl::{
    concat_manifest, concat_plan, ffmpeg_concat_args, mux_args, process_playlist, remux_plan,
    to_iso639_2, ByteRange, DownloadLedger, FetcherState, InitCache, MediaFormat, MediaPlaylist,
    MuxInput, RemoteData, Segment, SegmentEntry, Stream, StreamType,
};

fn seq_segment(url: &str, d: u64, s: u64, f: MediaFormat) -> Segment {
    Segment::Sequence {
        data: RemoteData::new(url.to_string(), None),
        discon_seq: d,
        seq: s,
        format: f,
    }
}

#[test]
fn ledger_sorts_out_of_order_arrivals() {
    let mut ledger = DownloadLedger::new();
    ledger.insert(
        &Stream::Main,
        seq_segment("u2", 0, 2, MediaFormat::MpegTs),
        "p2".to_string(),
    );
    ledger.insert(
        &Stream::Main,
        seq_segment("u1", 0, 1, MediaFormat::MpegTs),
        "p1".to_string(),
    );
    ledger.insert(
        &Stream::Main,
        seq_segment("u3", 1, 3, MediaFormat::MpegTs),
        "p3".to_string(),
    );
    let entries = ledger.entries_for(&Stream::Main).expect("main track");
    let paths: Vec<&str> = entries.iter().map(|e| e.path.as_str()).collect();
    assert_eq!(paths, vec!["p1", "p2", "p3"]);
}

#[test]
fn ledger_keeps_tracks_separate() {
    let audio = Stream::Audio { name: "en".to_string(), lang: None };
    let mut ledger = DownloadLedger::new();
    ledger.insert(&Stream::Main, seq_segment("m", 0, 1, MediaFormat::MpegTs), "m1".to_string());
    ledger.insert(&audio, seq_segment("a", 0, 1, MediaFormat::Aac), "a1".to_string());
    assert_eq!(ledger.entries_for(&Stream::Main).unwrap().len(), 1);
    assert_eq!(ledger.entries_for(&audio).unwrap().len(), 1);
    let video = Stream::Video { name: "x".to_string(), lang: None };
    assert!(ledger.entries_for(&video).is_none());
}

#[test]
fn concat_plan_groups_runs_by_discontinuity() {
    let mut ledger = DownloadLedger::new();
    for (i, d) in [(1u64, 0u64), (2, 0), (3, 1), (4, 1), (5, 2)] {
        ledger.insert(
            &Stream::Main,
            seq_segment("u", d, i, MediaFormat::MpegTs),
            format!("p{}", i),
        );
    }
    let entries = ledger.entries_for(&Stream::Main).unwrap();
    let runs = concat_plan(&Stream::Main, "out", entries);
    assert_eq!(runs.len(), 3);
    assert_eq!(runs[0].discon_seq, 0);
    assert_eq!(runs[0].paths, vec!["p1", "p2"]);
    assert_eq!(runs[0].output, "out/main_0000000000.ts");
    assert!(!runs[0].use_ffmpeg);
    assert_eq!(runs[1].discon_seq, 1);
    assert_eq!(runs[1].paths, vec!["p3", "p4"]);
    assert_eq!(runs[2].discon_seq, 2);
    assert_eq!(runs[2].paths, vec!["p5"]);
}

#[test]
fn mp3_runs_use_the_structured_concat() {
    let entries = vec![livestream_dl::LedgerEntry {
        segment: seq_segment("u", 0, 1, MediaFormat::Mp3),
        path: "p1".to_string(),
    }];
    let runs = concat_plan(&Stream::Main, "out", &entries);
    assert_eq!(runs.len(), 1);
    assert!(runs[0].use_ffmpeg);
    assert_eq!(runs[0].output, "out/main_0000000000.mp3");
}

#[test]
fn concat_manifest_lists_files() {
    let m = concat_manifest(&vec!["a/x.ts".to_string(), "b/y.ts".to_string()]);
    assert_eq!(m, "file 'a/x.ts'\nfile 'b/y.ts'\n");
}

#[test]
fn ffmpeg_concat_argument_list() {
    let args = ffmpeg_concat_args("list.txt", "out.ts");
    assert_eq!(
        args,
        vec!["-y", "-f", "concat", "-safe", "0", "-i", "list.txt", "-c", "copy", "-fflags", "+genpts", "out.ts"]
    );
}

#[test]
fn iso639_two_letter_codes_upgrade() {
    assert_eq!(to_iso639_2("en").unwrap(), "eng");
    assert_eq!(to_iso639_2("de").unwrap(), "deu");
}

#[test]
fn iso639_keeps_region_suffix() {
    assert_eq!(to_iso639_2("en-US").unwrap(), "eng-US");
}

#[test]
fn iso639_three_letter_codes_pass_through() {
    assert_eq!(to_iso639_2("eng").unwrap(), "eng");
}

#[test]
fn iso639_rejects_nonsense() {
    assert!(to_iso639_2("not a tag!").is_err());
}

#[test]
fn mux_argument_list_with_metadata() {
    let entries = vec![
        MuxInput {
            stream: Stream::Main,
            path: "out/main_0000000000.ts".to_string(),
            probed: vec![StreamType::Video, StreamType::Audio],
        },
        MuxInput {
            stream: Stream::Audio { name: "English".to_string(), lang: Some("en".to_string()) },
            path: "out/audio_English_0000000000.m4a".to_string(),
            probed: Vec::new(),
        },
    ];
    let args = mux_args(&entries, "out/video.mp4");
    let expect: Vec<String> = [
        "-y",
        "-copyts",
        "-i",
        "out/main_0000000000.ts",
        "-i",
        "out/audio_English_0000000000.m4a",
        "-map",
        "0",
        "-map",
        "1",
        "-metadata:s:a:1",
        "language=eng",
        "-metadata:s:a:1",
        "title=English",
        "-metadata:s:a:1",
        "handler=English",
        "-muxpreload",
        "0",
        "-muxdelay",
        "0",
        "-avoid_negative_ts",
        "make_zero",
        "-c:v",
        "copy",
        "-c:a",
        "copy",
        "-c:s",
        "mov_text",
        "-dn",
        "-movflags",
        "+faststart",
        "out/video.mp4",
    ]
    .iter()
    .map(|s| s.to_string())
    .collect();
    assert_eq!(args, expect);
}

#[test]
fn remux_plan_single_run_omits_the_index() {
    let jobs = remux_plan(&vec![0], "out");
    assert_eq!(jobs.len(), 1);
    assert_eq!(jobs[0].output, "out/video.mp4");
}

#[test]
fn remux_plan_many_runs_embed_the_index() {
    let jobs = remux_plan(&vec![0, 1], "out");
    assert_eq!(jobs.len(), 2);
    assert_eq!(jobs[0].output, "out/video_0000000000.mp4");
    assert_eq!(jobs[1].output, "out/video_0000000001.mp4");
}

#[test]
fn init_cache_stores_and_returns_bytes() {
    let mut cache = InitCache::new(2);
    let key = RemoteData::new("http://x/init.mp4".to_string(), None).cache_key();
    assert_eq!(cache.get(&key), None);
    cache.put(key.clone(), vec![1, 2, 3]);
    assert_eq!(cache.get(&key), Some(vec![1, 2, 3]));
}

#[test]
fn init_cache_evicts_least_recently_used() {
    let mut cache = InitCache::new(2);
    cache.put("a".to_string(), vec![1]);
    cache.put("b".to_string(), vec![2]);
    cache.put("c".to_string(), vec![3]);
    assert_eq!(cache.get(&"a".to_string()), None);
    assert_eq!(cache.get(&"b".to_string()), Some(vec![2]));
    assert_eq!(cache.get(&"c".to_string()), Some(vec![3]));
}

#[test]
fn cache_keys_distinguish_byte_ranges() {
    let whole = RemoteData::new("http://x/init.mp4".to_string(), None);
    let part = RemoteData::new(
        "http://x/init.mp4".to_string(),
        Some(ByteRange { length: 100, offset: Some(5) }),
    );
    assert_ne!(whole.cache_key(), part.cache_key());
}

#[test]
fn two_segment_capture_yields_two_files_and_one_muxed_output() {
    // a two-segment, unencrypted, single-discontinuity media playlist
    // with end-of-list set
    let playlist = MediaPlaylist {
        target_duration: 6,
        media_sequence: 0,
        discontinuity_sequence: 0,
        end_list: true,
        segments: vec![
            SegmentEntry {
                uri: "s0.ts".to_string(),
                byte_range: None,
                discontinuity: false,
                key: None,
                map: None,
            },
            SegmentEntry {
                uri: "s1.ts".to_string(),
                byte_range: None,
                discontinuity: false,
                key: None,
                map: None,
            },
        ],
    };
    let out = process_playlist(&FetcherState::new(), "http://example.com/p.m3u8", &playlist)
        .expect("cycle");
    assert!(out.ended);
    assert_eq!(out.emissions.len(), 2);

    // the writer records each downloaded segment under its file name
    let mut ledger = DownloadLedger::new();
    for em in &out.emissions {
        let seg = match &em.segment {
            Segment::Sequence { data, discon_seq, seq, .. } => Segment::Sequence {
                data: data.clone(),
                discon_seq: *discon_seq,
                seq: *seq,
                format: MediaFormat::MpegTs,
            },
            other => panic!("unexpected segment {:?}", other),
        };
        let name = livestream_dl::segment_file_name(&Stream::Main, &seg);
        ledger.insert(&Stream::Main, seg, name);
    }
    let entries = ledger.entries_for(&Stream::Main).expect("main track");
    assert_eq!(entries.len(), 2);
    assert_eq!(entries[0].path, "segment_main_d0000000000s0000000000.ts");
    assert_eq!(entries[1].path, "segment_main_d0000000000s0000000001.ts");

    // one discontinuity: one concatenated intermediate, one mux job
    let runs = concat_plan(&Stream::Main, "out", entries);
    assert_eq!(runs.len(), 1);
    assert_eq!(runs[0].paths.len(), 2);
    assert_eq!(runs[0].output, "out/main_0000000000.ts");

    let discons: Vec<u64> = runs.iter().map(|r| r.discon_seq).collect();
    let jobs = remux_plan(&discons, "out");
    assert_eq!(jobs.len(), 1);
    assert_eq!(jobs[0].output, "out/video.mp4");

    // after a successful mux, the intermediates to delete are exactly
    // the concatenated run outputs
    let deletions: Vec<&str> = runs.iter().map(|r| r.output.as_str()).collect();
    assert_eq!(deletions, vec!["out/main_0000000000.ts"]);
}
