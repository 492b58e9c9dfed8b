//! Container/codec classification of downloaded bytes, from the structured
//! output of the external probe tool.

use vstd::prelude::*;

use crate::text::{ascii_lower, spec_lower_char, spec_trim, str_eq, trim_ascii};

verus! {

/// Media container or codec of a downloaded segment.
#[derive(Clone, Copy, PartialEq, Eq, Hash, Debug, Structural)]
pub enum MediaFormat {
    /// MPEG-2 transport stream
    MpegTs,
    /// Fragmented MPEG-4
    FMp4,
    /// Advanced audio coding
    Aac,
    /// Audio data transport stream
    Adts,
    /// MP3
    Mp3,
    /// AC-3
    Ac3,
    /// Enhanced AC-3
    EAc3,
    /// WebVTT
    WebVtt,
    /// Anything the probe did not recognize
    Unknown,
}

impl MediaFormat {
    /// File extension for the format; `ts` where unknown.
    pub open spec fn spec_extension(self) -> Seq<char> {
        match self {
            MediaFormat::MpegTs => "ts"@,
            MediaFormat::FMp4 => "mp4"@,
            MediaFormat::Aac => "m4a"@,
            MediaFormat::Adts => "aac"@,
            MediaFormat::Mp3 => "mp3"@,
            MediaFormat::Ac3 => "ac3"@,
            MediaFormat::EAc3 => "eac3"@,
            MediaFormat::WebVtt => "vtt"@,
            MediaFormat::Unknown => "ts"@,
        }
    }

    /// File extension for the format.
    pub fn extension(&self) -> (r: String)
        ensures
            r@ == self.spec_extension(),
    {
        match self {
            MediaFormat::MpegTs => String::from_str("ts"),
            MediaFormat::FMp4 => String::from_str("mp4"),
            MediaFormat::Aac => String::from_str("m4a"),
            MediaFormat::Adts => String::from_str("aac"),
            MediaFormat::Mp3 => String::from_str("mp3"),
            MediaFormat::Ac3 => String::from_str("ac3"),
            MediaFormat::EAc3 => String::from_str("eac3"),
            MediaFormat::WebVtt => String::from_str("vtt"),
            MediaFormat::Unknown => String::from_str("ts"),
        }
    }

    /// The format named by the probe tool's `format_name` field, after
    /// trimming; names outside the recognized set map to `Unknown`.
    pub open spec fn spec_classify(name: Seq<char>) -> MediaFormat {
        let t = spec_trim(name);
        if t == "mpegts"@ {
            MediaFormat::MpegTs
        } else if t == "mp3"@ {
            MediaFormat::Mp3
        } else if t == "mov,mp4,m4a,3gp,3g2,mj2"@ {
            MediaFormat::FMp4
        } else if t == "webvtt"@ {
            MediaFormat::WebVtt
        } else {
            MediaFormat::Unknown
        }
    }

    /// Classifies the probe tool's container name.
    pub fn classify(name: &str) -> (r: MediaFormat)
        ensures
            r == MediaFormat::spec_classify(name@),
    {
        let t = trim_ascii(name);
        if str_eq(t.as_str(), "mpegts") {
            MediaFormat::MpegTs
        } else if str_eq(t.as_str(), "mp3") {
            MediaFormat::Mp3
        } else if str_eq(t.as_str(), "mov,mp4,m4a,3gp,3g2,mj2") {
            MediaFormat::FMp4
        } else if str_eq(t.as_str(), "webvtt") {
            MediaFormat::WebVtt
        } else {
            MediaFormat::Unknown
        }
    }
}

/// Kind of an elementary stream inside a media file, as named by the
/// probe tool's `codec_type` field.
#[derive(Clone, Copy, PartialEq, Eq, Debug, Structural)]
pub enum StreamType {
    Video,
    Audio,
    Subtitle,
    Other,
}

impl StreamType {
    /// The stream type named by `value`, lower-cased and trimmed;
    /// unrecognized names map to `Other`.
    pub open spec fn spec_classify(value: Seq<char>) -> StreamType {
        let t = spec_trim(value.map_values(|c: char| spec_lower_char(c)));
        if t == "video"@ {
            StreamType::Video
        } else if t == "audio"@ {
            StreamType::Audio
        } else if t == "subtitle"@ {
            StreamType::Subtitle
        } else {
            StreamType::Other
        }
    }

    /// Classifies the probe tool's stream kind name.
    pub fn classify(value: &str) -> (r: StreamType)
        ensures
            r == StreamType::spec_classify(value@),
    {
        let low = ascii_lower(value);
        let t = trim_ascii(low.as_str());
        if str_eq(t.as_str(), "video") {
            StreamType::Video
        } else if str_eq(t.as_str(), "audio") {
            StreamType::Audio
        } else if str_eq(t.as_str(), "subtitle") {
            StreamType::Subtitle
        } else {
            StreamType::Other
        }
    }
}

} // verus!
