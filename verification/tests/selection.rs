//! Master-playlist selection, variant labels, cookie lines and URL
//! resolution.

use livestream_dl::{
    make_absolute_url, parse_cookie, select_streams, select_variant, variant_label,
    AlternativeMedia, LivestreamDLError, MasterPlaylist, Resolution, Stream, Variant,
};

fn variant(uri: &str, bandwidth: u64) -> Variant {
    Variant {
        uri: uri.to_string(),
        bandwidth,
        audio: None,
        video: None,
        subtitles: None,
        resolution: None,
        codecs: None,
    }
}

#[test]
fn absolute_urls_pass_through_normalized() {
    let u = make_absolute_url("http://example.com/a/p.m3u8", "http://other.com/x.ts").unwrap();
    assert_eq!(u, "http://other.com/x.ts");
}

#[test]
fn relative_urls_join_the_base() {
    let u = make_absolute_url("http://example.com/a/p.m3u8", "seg/x.ts").unwrap();
    assert_eq!(u, "http://example.com/a/seg/x.ts");
}

#[test]
fn invalid_urls_are_rejected() {
    let e = make_absolute_url("not a url", "also ://not");
    assert!(matches!(e, Err(LivestreamDLError::ParseUrl { .. })));
}

#[test]
fn highest_bandwidth_variant_wins() {
    let variants = vec![variant("low.m3u8", 500000), variant("high.m3u8", 2000000)];
    assert_eq!(select_variant(&variants), Some(1));
    let variants = vec![variant("high.m3u8", 2000000), variant("low.m3u8", 500000)];
    assert_eq!(select_variant(&variants), Some(0));
    assert_eq!(select_variant(&Vec::new()), None);
}

#[test]
fn equal_bandwidths_take_the_last() {
    let variants = vec![variant("a.m3u8", 1000), variant("b.m3u8", 1000)];
    assert_eq!(select_variant(&variants), Some(1));
}

#[test]
fn master_selection_picks_the_two_million_variant_as_main() {
    let master = MasterPlaylist {
        variants: vec![variant("low/stream.m3u8", 500000), variant("high/stream.m3u8", 2000000)],
        alternatives: Vec::new(),
    };
    let streams = select_streams(&master, "http://example.com/master.m3u8").expect("selection");
    assert_eq!(streams.len(), 1);
    assert!(matches!(streams[0].stream, Stream::Main));
    assert_eq!(streams[0].url, "http://example.com/high/stream.m3u8");
}

#[test]
fn alternatives_follow_the_chosen_variant_groups() {
    let mut v = variant("main.m3u8", 2000000);
    v.audio = Some("aud".to_string());
    v.subtitles = Some("subs".to_string());
    let master = MasterPlaylist {
        variants: vec![variant("low.m3u8", 100), v],
        alternatives: vec![
            AlternativeMedia {
                uri: Some("audio_en.m3u8".to_string()),
                group_id: "aud".to_string(),
                language: Some("en".to_string()),
                name: "English".to_string(),
            },
            AlternativeMedia {
                uri: None,
                group_id: "aud".to_string(),
                language: None,
                name: "Embedded".to_string(),
            },
            AlternativeMedia {
                uri: Some("subs_de.m3u8".to_string()),
                group_id: "subs".to_string(),
                language: Some("de".to_string()),
                name: "German".to_string(),
            },
            AlternativeMedia {
                uri: Some("other.m3u8".to_string()),
                group_id: "unrelated".to_string(),
                language: None,
                name: "Other".to_string(),
            },
        ],
    };
    let streams = select_streams(&master, "http://example.com/master.m3u8").expect("selection");
    assert_eq!(streams.len(), 3);
    assert!(matches!(streams[0].stream, Stream::Main));
    match &streams[1].stream {
        Stream::Audio { name, lang } => {
            assert_eq!(name, "English");
            assert_eq!(lang.as_deref(), Some("en"));
        },
        other => panic!("expected audio stream, got {:?}", other),
    }
    assert_eq!(streams[1].url, "http://example.com/audio_en.m3u8");
    match &streams[2].stream {
        Stream::Subtitle { name, .. } => assert_eq!(name, "German"),
        other => panic!("expected subtitle stream, got {:?}", other),
    }
}

#[test]
fn empty_master_has_no_streams() {
    let master = MasterPlaylist { variants: Vec::new(), alternatives: Vec::new() };
    let e = select_streams(&master, "http://example.com/master.m3u8");
    assert!(matches!(e, Err(LivestreamDLError::NoStreams)));
}

#[test]
fn variant_labels_render_bitrate_resolution_and_codec() {
    let mut v = variant("x.m3u8", 2000000);
    v.resolution = Some(Resolution { width: 1280, height: 720 });
    v.codecs = Some("avc1.64001f".to_string());
    assert_eq!(
        variant_label(&v),
        "Bitrate:  200 Kb/s  Resolution:  1280x720  Codec: avc1.64001f"
    );
    let small = variant("y.m3u8", 900);
    assert_eq!(variant_label(&small), "Bitrate:   90 b/s");
}

#[test]
fn cookie_line_with_seven_fields_binds_to_https_domain() {
    let line = ".example.com\tTRUE\t/\tFALSE\t0\tsession\tabc123";
    let (domain, cookie) = parse_cookie(line).expect("cookie");
    assert_eq!(domain, "https://example.com/");
    assert_eq!(cookie, "session=abc123");
}

#[test]
fn cookie_line_with_too_few_fields_is_rejected() {
    let line = "example.com\tTRUE\t/\tFALSE\t0\tsession";
    let e = parse_cookie(line);
    assert_eq!(
        e,
        Err(LivestreamDLError::ParseCookie { line: line.to_string() })
    );
}
