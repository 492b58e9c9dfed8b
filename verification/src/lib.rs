//! Verified core of an HLS livestream downloader.
//!
//! The library holds the logic of the downloader: the playlist-polling state
//! machine, the segment/track data model, encryption key and IV handling,
//! cookie-line parsing, media-format classification, and the planning of the
//! post-capture concatenation and mux stages.  Network and disk I/O, the
//! external mux/probe tool, and the async plumbing live outside the library
//! and hand it plain values.

pub mod byte_range;
pub mod concat;
pub mod cookies;
pub mod downloader;
pub mod encryption;
pub mod error;
pub mod fetcher;
pub mod init_cache;
pub mod ledger;
pub mod master;
pub mod media_format;
pub mod mux;
pub mod options;
pub mod playlist;
pub mod remote_data;
pub mod segment;
pub mod stream;
pub mod text;
pub mod urlutil;

pub use byte_range::ByteRange;
pub use concat::{concat_manifest, concat_path, concat_plan, ffmpeg_concat_args, ConcatRun};
pub use cookies::parse_cookie;
pub use downloader::{assemble_segment, segment_file_name};
pub use encryption::{decrypt_aes128, encrypt_aes128, iv_from_sequence, Encryption};
pub use error::LivestreamDLError;
pub use fetcher::{process_playlist, CycleOutput, Emission, FetcherState, SeqKey};
pub use init_cache::InitCache;
pub use ledger::{DownloadLedger, LedgerEntry, TrackLedger};
pub use master::{select_streams, select_variant, variant_label, SelectedStream};
pub use mux::{mux_args, remux_plan, to_iso639_2, MuxInput, MuxJob};
pub use options::{DownloadOptions, NetworkOptions};
pub use media_format::{MediaFormat, StreamType};
pub use playlist::{
    AlternativeMedia, KeyMethod, KeyTag, MapTag, MasterPlaylist, MediaPlaylist, Resolution,
    SegmentEntry, Variant,
};
pub use remote_data::RemoteData;
pub use segment::Segment;
pub use stream::Stream;
pub use urlutil::make_absolute_url;
