//! Plain-value model of a parsed playlist: what the polling and selection
//! logic reads of it.  The playlist grammar itself is parsed outside the
//! library; these types carry the result in.

use vstd::prelude::*;

use crate::byte_range::ByteRange;
use crate::remote_data::OptionByteRangeView;

verus! {

/// How segments under a key tag are encrypted.
#[derive(Clone, PartialEq, Eq, Debug)]
pub enum KeyMethod {
    /// `METHOD=NONE`: segments are in the clear.
    Clear,
    /// `METHOD=AES-128`.
    Aes128,
    /// `METHOD=SAMPLE-AES` (unsupported).
    SampleAes,
    /// Any other method name.
    Other { name: String },
}

/// Model of a [`KeyMethod`].
pub enum KeyMethodV {
    Clear,
    Aes128,
    SampleAes,
    Other { name: Seq<char> },
}

impl View for KeyMethod {
    type V = KeyMethodV;

    open spec fn view(&self) -> KeyMethodV {
        match self {
            KeyMethod::Clear => KeyMethodV::Clear,
            KeyMethod::Aes128 => KeyMethodV::Aes128,
            KeyMethod::SampleAes => KeyMethodV::SampleAes,
            KeyMethod::Other { name } => KeyMethodV::Other { name: name@ },
        }
    }
}

/// A playlist's `EXT-X-KEY` tag: how to decrypt the segments it governs.
#[derive(Clone, PartialEq, Eq, Debug)]
pub struct KeyTag {
    pub method: KeyMethod,
    pub uri: Option<String>,
    pub iv: Option<String>,
    pub keyformat: Option<String>,
}

/// Model of a [`KeyTag`].
pub struct KeyTagV {
    pub method: KeyMethodV,
    pub uri: Option<Seq<char>>,
    pub iv: Option<Seq<char>>,
    pub keyformat: Option<Seq<char>>,
}

impl View for KeyTag {
    type V = KeyTagV;

    open spec fn view(&self) -> KeyTagV {
        KeyTagV {
            method: self.method@,
            uri: self.uri.deep_view(),
            iv: self.iv.deep_view(),
            keyformat: self.keyformat.deep_view(),
        }
    }
}

impl KeyTag {
    /// A copy of the tag with the same model.
    pub fn duplicate(&self) -> (r: KeyTag)
        ensures
            r@ == self@,
    {
        KeyTag {
            method: match &self.method {
                KeyMethod::Clear => KeyMethod::Clear,
                KeyMethod::Aes128 => KeyMethod::Aes128,
                KeyMethod::SampleAes => KeyMethod::SampleAes,
                KeyMethod::Other { name } => KeyMethod::Other { name: name.clone() },
            },
            uri: match &self.uri {
                Some(u) => Some(u.clone()),
                None => None,
            },
            iv: match &self.iv {
                Some(v) => Some(v.clone()),
                None => None,
            },
            keyformat: match &self.keyformat {
                Some(f) => Some(f.clone()),
                None => None,
            },
        }
    }
}

/// A playlist's `EXT-X-MAP` tag: the initialization section to prefix
/// following segments with.
#[derive(Clone, PartialEq, Eq, Debug)]
pub struct MapTag {
    pub uri: String,
    pub byte_range: Option<ByteRange>,
}

/// Model of a [`MapTag`].
pub struct MapTagV {
    pub uri: Seq<char>,
    pub byte_range: Option<ByteRange>,
}

impl View for MapTag {
    type V = MapTagV;

    open spec fn view(&self) -> MapTagV {
        MapTagV { uri: self.uri@, byte_range: self.byte_range.view_opt() }
    }
}

/// One media segment entry of a media playlist, as the poller reads it.
#[derive(Clone, PartialEq, Eq, Debug)]
pub struct SegmentEntry {
    pub uri: String,
    pub byte_range: Option<ByteRange>,
    pub discontinuity: bool,
    pub key: Option<KeyTag>,
    pub map: Option<MapTag>,
}

/// Model of a [`SegmentEntry`].
pub struct SegmentEntryV {
    pub uri: Seq<char>,
    pub byte_range: Option<ByteRange>,
    pub discontinuity: bool,
    pub key: Option<KeyTagV>,
    pub map: Option<MapTagV>,
}

impl View for SegmentEntry {
    type V = SegmentEntryV;

    open spec fn view(&self) -> SegmentEntryV {
        SegmentEntryV {
            uri: self.uri@,
            byte_range: self.byte_range.view_opt(),
            discontinuity: self.discontinuity,
            key: match &self.key {
                Some(k) => Some(k@),
                None => None,
            },
            map: match &self.map {
                Some(m) => Some(m@),
                None => None,
            },
        }
    }
}

/// A media playlist, as the poller reads it: its counters, end marker,
/// target duration (in whole seconds) and segment entries.
#[derive(Clone, PartialEq, Eq, Debug)]
pub struct MediaPlaylist {
    pub target_duration: u64,
    pub media_sequence: u64,
    pub discontinuity_sequence: u64,
    pub end_list: bool,
    pub segments: Vec<SegmentEntry>,
}

/// Model of a [`MediaPlaylist`].
pub struct MediaPlaylistV {
    pub target_duration: u64,
    pub media_sequence: u64,
    pub discontinuity_sequence: u64,
    pub end_list: bool,
    pub segments: Seq<SegmentEntryV>,
}

impl View for MediaPlaylist {
    type V = MediaPlaylistV;

    open spec fn view(&self) -> MediaPlaylistV {
        MediaPlaylistV {
            target_duration: self.target_duration,
            media_sequence: self.media_sequence,
            discontinuity_sequence: self.discontinuity_sequence,
            end_list: self.end_list,
            segments: self.segments.deep_view(),
        }
    }
}

impl DeepView for SegmentEntry {
    type V = SegmentEntryV;

    open spec fn deep_view(&self) -> SegmentEntryV {
        self.view()
    }
}

/// Display resolution of a variant.
#[derive(Clone, Copy, PartialEq, Eq, Structural, Debug)]
pub struct Resolution {
    pub width: u64,
    pub height: u64,
}

/// One variant rendition of a master playlist, as selection reads it.
#[derive(Clone, PartialEq, Eq, Debug)]
pub struct Variant {
    pub uri: String,
    pub bandwidth: u64,
    pub audio: Option<String>,
    pub video: Option<String>,
    pub subtitles: Option<String>,
    pub resolution: Option<Resolution>,
    pub codecs: Option<String>,
}

/// Model of a [`Variant`].
pub struct VariantV {
    pub uri: Seq<char>,
    pub bandwidth: u64,
    pub audio: Option<Seq<char>>,
    pub video: Option<Seq<char>>,
    pub subtitles: Option<Seq<char>>,
    pub resolution: Option<Resolution>,
    pub codecs: Option<Seq<char>>,
}

impl View for Variant {
    type V = VariantV;

    open spec fn view(&self) -> VariantV {
        VariantV {
            uri: self.uri@,
            bandwidth: self.bandwidth,
            audio: self.audio.deep_view(),
            video: self.video.deep_view(),
            subtitles: self.subtitles.deep_view(),
            resolution: match self.resolution {
                Some(r) => Some(r),
                None => None,
            },
            codecs: self.codecs.deep_view(),
        }
    }
}

impl DeepView for Variant {
    type V = VariantV;

    open spec fn deep_view(&self) -> VariantV {
        self.view()
    }
}

/// One alternative rendition of a master playlist.
#[derive(Clone, PartialEq, Eq, Debug)]
pub struct AlternativeMedia {
    pub uri: Option<String>,
    pub group_id: String,
    pub language: Option<String>,
    pub name: String,
}

/// Model of an [`AlternativeMedia`].
pub struct AlternativeMediaV {
    pub uri: Option<Seq<char>>,
    pub group_id: Seq<char>,
    pub language: Option<Seq<char>>,
    pub name: Seq<char>,
}

impl View for AlternativeMedia {
    type V = AlternativeMediaV;

    open spec fn view(&self) -> AlternativeMediaV {
        AlternativeMediaV {
            uri: self.uri.deep_view(),
            group_id: self.group_id@,
            language: self.language.deep_view(),
            name: self.name@,
        }
    }
}

impl DeepView for AlternativeMedia {
    type V = AlternativeMediaV;

    open spec fn deep_view(&self) -> AlternativeMediaV {
        self.view()
    }
}

/// A master playlist, as selection reads it.
#[derive(Clone, PartialEq, Eq, Debug)]
pub struct MasterPlaylist {
    pub variants: Vec<Variant>,
    pub alternatives: Vec<AlternativeMedia>,
}

/// Model of a [`MasterPlaylist`].
pub struct MasterPlaylistV {
    pub variants: Seq<VariantV>,
    pub alternatives: Seq<AlternativeMediaV>,
}

impl View for MasterPlaylist {
    type V = MasterPlaylistV;

    open spec fn view(&self) -> MasterPlaylistV {
        MasterPlaylistV {
            variants: self.variants.deep_view(),
            alternatives: self.alternatives.deep_view(),
        }
    }
}

} // verus!
