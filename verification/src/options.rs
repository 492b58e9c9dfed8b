//! Session options, as plain values.  Argument parsing happens outside
//! the library and hands these in.

use vstd::prelude::*;

verus! {

/// What to capture and where to put it.
#[derive(Clone, Debug)]
pub struct DownloadOptions {
    /// Output directory; generated from the date when absent.
    pub output: Option<String>,
    /// Keep the raw captured streams instead of muxing them.
    pub no_remux: bool,
    /// Offer an interactive variant chooser instead of taking the
    /// highest bandwidth.
    pub choose_stream: bool,
    /// Accept invalid TLS certificates.
    pub insecure: bool,
}

/// How to talk to the network.
#[derive(Clone, Debug)]
pub struct NetworkOptions {
    /// How many times to retry a transient network failure.
    pub max_retries: u32,
    /// Per-request timeout, in seconds.
    pub timeout: u64,
    /// Bound on concurrent fetch/decrypt operations.
    pub max_concurrent_downloads: usize,
    /// Path of a Netscape-format cookie file, if cookies are wanted.
    pub cookies: Option<String>,
    /// Copy the playlist URL's query parameters onto every request.
    pub copy_query: bool,
}

} // verus!
