//! Identity of a logical media line within a capture session.

use vstd::prelude::*;

verus! {

/// Type of stream: the main rendition, or an alternative video, audio or
/// subtitle rendition named by the master playlist.
#[derive(Clone, PartialEq, Eq, Hash, Debug)]
pub enum Stream {
    Main,
    Video { name: String, lang: Option<String> },
    Audio { name: String, lang: Option<String> },
    Subtitle { name: String, lang: Option<String> },
}

/// Mathematical model of a [`Stream`]: the same shape over character
/// sequences.
pub enum StreamV {
    Main,
    Video { name: Seq<char>, lang: Option<Seq<char>> },
    Audio { name: Seq<char>, lang: Option<Seq<char>> },
    Subtitle { name: Seq<char>, lang: Option<Seq<char>> },
}

impl StreamV {
    /// File extension used before the downloaded format is known.
    pub open spec fn spec_extension(self) -> Seq<char> {
        match self {
            StreamV::Main => "ts"@,
            StreamV::Video { .. } => "ts"@,
            StreamV::Audio { .. } => "m4a"@,
            StreamV::Subtitle { .. } => "vtt"@,
        }
    }

    /// The stream's name, absent for the main rendition.
    pub open spec fn spec_name(self) -> Option<Seq<char>> {
        match self {
            StreamV::Main => None,
            StreamV::Video { name, .. } => Some(name),
            StreamV::Audio { name, .. } => Some(name),
            StreamV::Subtitle { name, .. } => Some(name),
        }
    }

    /// The stream's language tag, if the playlist declared one.
    pub open spec fn spec_lang(self) -> Option<Seq<char>> {
        match self {
            StreamV::Main => None,
            StreamV::Video { lang, .. } => lang,
            StreamV::Audio { lang, .. } => lang,
            StreamV::Subtitle { lang, .. } => lang,
        }
    }

    /// Label embedded in file names: `main`, or the kind joined with the
    /// rendition name.
    pub open spec fn spec_label(self) -> Seq<char> {
        match self {
            StreamV::Main => "main"@,
            StreamV::Video { name, .. } => "video_"@ + name,
            StreamV::Audio { name, .. } => "audio_"@ + name,
            StreamV::Subtitle { name, .. } => "subtitle_"@ + name,
        }
    }
}

impl View for Stream {
    type V = StreamV;

    open spec fn view(&self) -> StreamV {
        match self {
            Stream::Main => StreamV::Main,
            Stream::Video { name, lang } => StreamV::Video {
                name: name@,
                lang: lang.deep_view(),
            },
            Stream::Audio { name, lang } => StreamV::Audio {
                name: name@,
                lang: lang.deep_view(),
            },
            Stream::Subtitle { name, lang } => StreamV::Subtitle {
                name: name@,
                lang: lang.deep_view(),
            },
        }
    }
}

impl Stream {
    /// File extension for the stream, used before a downloaded segment's
    /// format has been detected.
    pub fn extension(&self) -> (r: String)
        ensures
            r@ == self@.spec_extension(),
    {
        match self {
            Stream::Main => String::from_str("ts"),
            Stream::Video { .. } => String::from_str("ts"),
            Stream::Audio { .. } => String::from_str("m4a"),
            Stream::Subtitle { .. } => String::from_str("vtt"),
        }
    }

    /// Name of the stream if available.
    pub fn name(&self) -> (r: Option<String>)
        ensures
            r.deep_view() == self@.spec_name(),
    {
        match self {
            Stream::Main => None,
            Stream::Video { name, .. } => Some(name.clone()),
            Stream::Audio { name, .. } => Some(name.clone()),
            Stream::Subtitle { name, .. } => Some(name.clone()),
        }
    }

    /// Label embedded in file names.
    pub fn label(&self) -> (r: String)
        ensures
            r@ == self@.spec_label(),
    {
        match self {
            Stream::Main => String::from_str("main"),
            Stream::Video { name, .. } => {
                let mut s = String::from_str("video_");
                s.append(name.as_str());
                s
            },
            Stream::Audio { name, .. } => {
                let mut s = String::from_str("audio_");
                s.append(name.as_str());
                s
            },
            Stream::Subtitle { name, .. } => {
                let mut s = String::from_str("subtitle_");
                s.append(name.as_str());
                s
            },
        }
    }

    /// Whether two stream identities are the same, by variant, name and
    /// language.
    pub fn same(&self, other: &Stream) -> (r: bool)
        ensures
            r == (self@ == other@),
    {
        let a = self.label();
        let b = other.label();
        let la = match self.lang_ref() {
            Some(l) => Some(l.clone()),
            None => None,
        };
        let lb = match other.lang_ref() {
            Some(l) => Some(l.clone()),
            None => None,
        };
        let kinds_eq = match (self, other) {
            (Stream::Main, Stream::Main) => true,
            (Stream::Video { .. }, Stream::Video { .. }) => true,
            (Stream::Audio { .. }, Stream::Audio { .. }) => true,
            (Stream::Subtitle { .. }, Stream::Subtitle { .. }) => true,
            _ => false,
        };
        if !kinds_eq {
            proof {
                lemma_label_kinds(self@, other@);
            }
            return false;
        }
        let names_eq = crate::text::str_eq(a.as_str(), b.as_str());
        let langs_eq = match (&la, &lb) {
            (None, None) => true,
            (Some(x), Some(y)) => crate::text::str_eq(x.as_str(), y.as_str()),
            _ => false,
        };
        proof {
            lemma_label_kinds(self@, other@);
        }
        names_eq && langs_eq
    }

    /// The stream's language tag, if any.
    pub fn lang_ref(&self) -> (r: Option<&String>)
        ensures
            r.deep_view() == self@.spec_lang(),
    {
        match self {
            Stream::Main => None,
            Stream::Video { lang, .. } => lang.as_ref(),
            Stream::Audio { lang, .. } => lang.as_ref(),
            Stream::Subtitle { lang, .. } => lang.as_ref(),
        }
    }
}

/// Two streams of the same kind with equal labels have equal names, so a
/// stream is determined by its kind, label and language.
proof fn lemma_label_kinds(a: StreamV, b: StreamV)
    ensures
        a.spec_label() == b.spec_label() && a.spec_lang() == b.spec_lang() && kind_of(a) == kind_of(
            b,
        ) ==> a == b,
{
    reveal_strlit("video_");
    reveal_strlit("audio_");
    reveal_strlit("subtitle_");
    if a.spec_label() == b.spec_label() && kind_of(a) == kind_of(b) {
        match (a, b) {
            (StreamV::Video { name: na, lang: la }, StreamV::Video { name: nb, lang: lb }) => {
                assert(("video_"@ + na).subrange(6, ("video_"@ + na).len() as int) =~= na);
                assert(("video_"@ + nb).subrange(6, ("video_"@ + nb).len() as int) =~= nb);
            },
            (StreamV::Audio { name: na, lang: la }, StreamV::Audio { name: nb, lang: lb }) => {
                assert(("audio_"@ + na).subrange(6, ("audio_"@ + na).len() as int) =~= na);
                assert(("audio_"@ + nb).subrange(6, ("audio_"@ + nb).len() as int) =~= nb);
            },
            (StreamV::Subtitle { name: na, lang: la }, StreamV::Subtitle { name: nb, lang: lb }) => {
                assert(("subtitle_"@ + na).subrange(9, ("subtitle_"@ + na).len() as int) =~= na);
                assert(("subtitle_"@ + nb).subrange(9, ("subtitle_"@ + nb).len() as int) =~= nb);
            },
            _ => {},
        }
    }
}

/// Discriminant of a stream model, for case analysis.
pub open spec fn kind_of(s: StreamV) -> int {
    match s {
        StreamV::Main => 0,
        StreamV::Video { .. } => 1,
        StreamV::Audio { .. } => 2,
        StreamV::Subtitle { .. } => 3,
    }
}

} // verus!
