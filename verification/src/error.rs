//! Error taxonomy of the capture pipeline.

use vstd::prelude::*;

use crate::text::dec_digits;

verus! {

/// Errors of the capture pipeline.  Terminal network responses carry the
/// status code and the effective URL; parse errors carry the offending
/// input; encryption errors say what was malformed or missing.
#[derive(Clone, PartialEq, Eq, Debug)]
pub enum LivestreamDLError {
    /// The final response to a request was non-2xx.
    NetworkRequest { status: u16, url: String },
    /// A cookie line was not in the expected form (non-fatal).
    ParseCookie { line: String },
    /// A playlist could not be parsed (fatal for its track).
    ParseM3u8 { url: String },
    /// A URL in a playlist was invalid even against its base.
    ParseUrl { url: String },
    /// An encrypted segment's key tag named no URI.
    NoKeyUri,
    /// A key tag's keyformat was neither absent nor `identity`.
    InvalidKeyFormat { keyformat: String },
    /// A key tag's explicit IV was not 16 hex-encoded bytes.
    MalformedIv { iv: String },
    /// The key tag named an encryption method this pipeline does not do.
    UnsupportedMethod { method: String },
    /// The key tag's method was not a known method name.
    InvalidMethod { method: String },
    /// An encrypted segment's payload did not decrypt cleanly.
    DecryptFailed,
    /// A language tag did not parse as RFC 5646.
    InvalidLanguageTag { lang: String },
    /// A two-letter language code missing from the code table.
    UnknownLanguage { lang: String },
    /// No variant of the master playlist could be used.
    NoStreams,
    /// The external mux/probe tool exited non-zero.
    ExternalTool { tool: String },
}

/// Model of an error: the same shape over character sequences.
pub enum LivestreamDLErrorV {
    NetworkRequest { status: u16, url: Seq<char> },
    ParseCookie { line: Seq<char> },
    ParseM3u8 { url: Seq<char> },
    ParseUrl { url: Seq<char> },
    NoKeyUri,
    InvalidKeyFormat { keyformat: Seq<char> },
    MalformedIv { iv: Seq<char> },
    UnsupportedMethod { method: Seq<char> },
    InvalidMethod { method: Seq<char> },
    DecryptFailed,
    InvalidLanguageTag { lang: Seq<char> },
    UnknownLanguage { lang: Seq<char> },
    NoStreams,
    ExternalTool { tool: Seq<char> },
}

impl View for LivestreamDLError {
    type V = LivestreamDLErrorV;

    open spec fn view(&self) -> LivestreamDLErrorV {
        match self {
            LivestreamDLError::NetworkRequest { status, url } => LivestreamDLErrorV::NetworkRequest {
                status: *status,
                url: url@,
            },
            LivestreamDLError::ParseCookie { line } => LivestreamDLErrorV::ParseCookie {
                line: line@,
            },
            LivestreamDLError::ParseM3u8 { url } => LivestreamDLErrorV::ParseM3u8 { url: url@ },
            LivestreamDLError::ParseUrl { url } => LivestreamDLErrorV::ParseUrl { url: url@ },
            LivestreamDLError::NoKeyUri => LivestreamDLErrorV::NoKeyUri,
            LivestreamDLError::InvalidKeyFormat { keyformat } => LivestreamDLErrorV::InvalidKeyFormat {
                keyformat: keyformat@,
            },
            LivestreamDLError::MalformedIv { iv } => LivestreamDLErrorV::MalformedIv { iv: iv@ },
            LivestreamDLError::UnsupportedMethod { method } => LivestreamDLErrorV::UnsupportedMethod {
                method: method@,
            },
            LivestreamDLError::InvalidMethod { method } => LivestreamDLErrorV::InvalidMethod {
                method: method@,
            },
            LivestreamDLError::DecryptFailed => LivestreamDLErrorV::DecryptFailed,
            LivestreamDLError::InvalidLanguageTag { lang } => LivestreamDLErrorV::InvalidLanguageTag {
                lang: lang@,
            },
            LivestreamDLError::UnknownLanguage { lang } => LivestreamDLErrorV::UnknownLanguage {
                lang: lang@,
            },
            LivestreamDLError::NoStreams => LivestreamDLErrorV::NoStreams,
            LivestreamDLError::ExternalTool { tool } => LivestreamDLErrorV::ExternalTool {
                tool: tool@,
            },
        }
    }
}

impl LivestreamDLErrorV {
    /// The human-readable message for the error.
    pub open spec fn spec_message(self) -> Seq<char> {
        match self {
            LivestreamDLErrorV::NetworkRequest { status, url } => "http request returned status code "@
                + dec_digits(status as nat) + " for url: "@ + url,
            LivestreamDLErrorV::ParseCookie { line } => "failed to parse cookie: "@ + line,
            LivestreamDLErrorV::ParseM3u8 { url } => "failed to parse m3u8 playlist from url: "@
                + url,
            LivestreamDLErrorV::ParseUrl { url } => "failed to parse url: "@ + url,
            LivestreamDLErrorV::NoKeyUri => "No URI found for AES-128 key"@,
            LivestreamDLErrorV::InvalidKeyFormat { keyformat } => "Invalid keyformat: "@
                + keyformat,
            LivestreamDLErrorV::MalformedIv { iv } => "Invalid IV: "@ + iv,
            LivestreamDLErrorV::UnsupportedMethod { method } => "Unimplemented encryption method: "@
                + method,
            LivestreamDLErrorV::InvalidMethod { method } => "Invalid encryption method: "@
                + method,
            LivestreamDLErrorV::DecryptFailed => "failed to decrypt segment"@,
            LivestreamDLErrorV::InvalidLanguageTag { lang } => "failed to parse language tag: "@
                + lang,
            LivestreamDLErrorV::UnknownLanguage { lang } => "Unknown language: "@ + lang,
            LivestreamDLErrorV::NoStreams => "No streams found"@,
            LivestreamDLErrorV::ExternalTool { tool } => "external tool failed: "@ + tool,
        }
    }
}

impl LivestreamDLError {
    /// Renders the error's message.
    pub fn message(&self) -> (r: String)
        ensures
            r@ == self@.spec_message(),
    {
        match self {
            LivestreamDLError::NetworkRequest { status, url } => {
                let mut s = String::from_str("http request returned status code ");
                let d = crate::text::u64_string(*status as u64);
                s.append(d.as_str());
                s.append(" for url: ");
                s.append(url.as_str());
                s
            },
            LivestreamDLError::ParseCookie { line } => {
                let mut s = String::from_str("failed to parse cookie: ");
                s.append(line.as_str());
                s
            },
            LivestreamDLError::ParseM3u8 { url } => {
                let mut s = String::from_str("failed to parse m3u8 playlist from url: ");
                s.append(url.as_str());
                s
            },
            LivestreamDLError::ParseUrl { url } => {
                let mut s = String::from_str("failed to parse url: ");
                s.append(url.as_str());
                s
            },
            LivestreamDLError::NoKeyUri => String::from_str("No URI found for AES-128 key"),
            LivestreamDLError::InvalidKeyFormat { keyformat } => {
                let mut s = String::from_str("Invalid keyformat: ");
                s.append(keyformat.as_str());
                s
            },
            LivestreamDLError::MalformedIv { iv } => {
                let mut s = String::from_str("Invalid IV: ");
                s.append(iv.as_str());
                s
            },
            LivestreamDLError::UnsupportedMethod { method } => {
                let mut s = String::from_str("Unimplemented encryption method: ");
                s.append(method.as_str());
                s
            },
            LivestreamDLError::InvalidMethod { method } => {
                let mut s = String::from_str("Invalid encryption method: ");
                s.append(method.as_str());
                s
            },
            LivestreamDLError::DecryptFailed => String::from_str("failed to decrypt segment"),
            LivestreamDLError::InvalidLanguageTag { lang } => {
                let mut s = String::from_str("failed to parse language tag: ");
                s.append(lang.as_str());
                s
            },
            LivestreamDLError::UnknownLanguage { lang } => {
                let mut s = String::from_str("Unknown language: ");
                s.append(lang.as_str());
                s
            },
            LivestreamDLError::NoStreams => String::from_str("No streams found"),
            LivestreamDLError::ExternalTool { tool } => {
                let mut s = String::from_str("external tool failed: ");
                s.append(tool.as_str());
                s
            },
        }
    }
}

} // verus!
