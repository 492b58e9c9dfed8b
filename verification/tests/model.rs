//! The segment/track data model: extensions, labels, identifiers, byte
//! ranges and error messages.

use livestream_dl::{ByteRange, LivestreamDLError, MediaFormat, RemoteData, Segment, Stream, StreamType};

fn video_stream() -> Stream {
    Stream::Video { name: "hd".to_string(), lang: Some("en".to_string()) }
}

#[test]
fn stream_extensions() {
    assert_eq!(Stream::Main.extension(), "ts");
    assert_eq!(video_stream().extension(), "ts");
    assert_eq!(Stream::Audio { name: "a".to_string(), lang: None }.extension(), "m4a");
    assert_eq!(Stream::Subtitle { name: "s".to_string(), lang: None }.extension(), "vtt");
}

#[test]
fn stream_names() {
    assert_eq!(Stream::Main.name(), None);
    assert_eq!(video_stream().name(), Some("hd".to_string()));
}

#[test]
fn stream_labels() {
    assert_eq!(Stream::Main.label(), "main");
    assert_eq!(video_stream().label(), "video_hd");
    assert_eq!(Stream::Audio { name: "fr".to_string(), lang: None }.label(), "audio_fr");
}

#[test]
fn media_format_extensions() {
    assert_eq!(MediaFormat::MpegTs.extension(), "ts");
    assert_eq!(MediaFormat::FMp4.extension(), "mp4");
    assert_eq!(MediaFormat::Mp3.extension(), "mp3");
    assert_eq!(MediaFormat::WebVtt.extension(), "vtt");
    assert_eq!(MediaFormat::Unknown.extension(), "ts");
}

#[test]
fn media_format_classification() {
    assert_eq!(MediaFormat::classify("mpegts"), MediaFormat::MpegTs);
    assert_eq!(MediaFormat::classify(" mp3\n"), MediaFormat::Mp3);
    assert_eq!(MediaFormat::classify("mov,mp4,m4a,3gp,3g2,mj2"), MediaFormat::FMp4);
    assert_eq!(MediaFormat::classify("webvtt"), MediaFormat::WebVtt);
    assert_eq!(MediaFormat::classify("matroska"), MediaFormat::Unknown);
}

#[test]
fn stream_type_classification() {
    assert_eq!(StreamType::classify("Video"), StreamType::Video);
    assert_eq!(StreamType::classify(" audio "), StreamType::Audio);
    assert_eq!(StreamType::classify("SUBTITLE"), StreamType::Subtitle);
    assert_eq!(StreamType::classify("data"), StreamType::Other);
}

#[test]
fn byte_range_header_with_offset() {
    let r = RemoteData::new(
        "http://example.com/seg.ts".to_string(),
        Some(ByteRange { length: 50, offset: Some(100) }),
    );
    assert_eq!(r.byte_range_string(), Some("bytes=100-149".to_string()));
}

#[test]
fn byte_range_header_defaults_offset_to_zero() {
    let r = RemoteData::new(
        "http://example.com/seg.ts".to_string(),
        Some(ByteRange { length: 50, offset: None }),
    );
    assert_eq!(r.byte_range_string(), Some("bytes=0-49".to_string()));
}

#[test]
fn byte_range_header_absent() {
    let r = RemoteData::new("http://example.com/seg.ts".to_string(), None);
    assert_eq!(r.byte_range_string(), None);
}

#[test]
fn segment_identifiers() {
    let data = RemoteData::new("http://example.com/seg.ts".to_string(), None);
    let init = Segment::Initialization { data: data.clone() };
    assert_eq!(init.id(), "init");
    let seq = Segment::Sequence {
        data,
        discon_seq: 1,
        seq: 42,
        format: MediaFormat::Unknown,
    };
    assert_eq!(seq.id(), "d0000000001s0000000042");
}

#[test]
fn segment_file_names() {
    let data = RemoteData::new("http://example.com/seg.ts".to_string(), None);
    let seg = Segment::Sequence {
        data,
        discon_seq: 0,
        seq: 7,
        format: MediaFormat::Mp3,
    };
    assert_eq!(
        livestream_dl::segment_file_name(&Stream::Main, &seg),
        "segment_main_d0000000000s0000000007.mp3"
    );
}

#[test]
fn assemble_prepends_initialization() {
    let init = vec![1u8, 2, 3];
    let payload = vec![9u8, 8];
    assert_eq!(livestream_dl::assemble_segment(&init, &payload), vec![1, 2, 3, 9, 8]);
    assert_eq!(livestream_dl::assemble_segment(&Vec::new(), &payload), vec![9, 8]);
}

#[test]
fn error_messages() {
    let e = LivestreamDLError::NetworkRequest {
        status: 404,
        url: "http://example.com/x.m3u8".to_string(),
    };
    assert_eq!(
        e.message(),
        "http request returned status code 404 for url: http://example.com/x.m3u8"
    );
    let e = LivestreamDLError::ParseCookie { line: "bad".to_string() };
    assert_eq!(e.message(), "failed to parse cookie: bad");
    let e = LivestreamDLError::ParseM3u8 { url: "u".to_string() };
    assert_eq!(e.message(), "failed to parse m3u8 playlist from url: u");
    let e = LivestreamDLError::NoKeyUri;
    assert_eq!(e.message(), "No URI found for AES-128 key");
    let e = LivestreamDLError::UnsupportedMethod { method: "SAMPLE-AES".to_string() };
    assert_eq!(e.message(), "Unimplemented encryption method: SAMPLE-AES");
    let e = LivestreamDLError::InvalidMethod { method: "ROT13".to_string() };
    assert_eq!(e.message(), "Invalid encryption method: ROT13");
    let e = LivestreamDLError::NoStreams;
    assert_eq!(e.message(), "No streams found");
}
