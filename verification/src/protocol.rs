//! Decoded catalog metadata, as the metadata service delivers it.
//!
//! Every field may be missing or empty: the service is free to omit any of
//! them.

use vstd::prelude::*;
use vstd::utf8::encode_utf8;

verus! {

/// One encoding of an audio file: a codec at a bitrate.
#[allow(non_camel_case_types)]
#[derive(Clone, Copy, Debug, PartialEq, Eq, Hash, Structural)]
pub enum AudioFormat {
    OggVorbis96,
    OggVorbis160,
    OggVorbis320,
    Mp3_96,
    Mp3_160,
    Mp3_256,
    Mp3_320,
    Aac24,
    Aac48,
}

/// One encoded variant of a track.
#[derive(Clone, Debug, PartialEq, Eq, Default)]
pub struct AudioFile {
    /// Raw identifying bytes of the file.
    pub file_id: Option<Vec<u8>>,
    /// How the file is encoded.
    pub format: Option<AudioFormat>,
}

/// One regional rule of a track. Each list is a run of two-letter country
/// codes without separators.
#[derive(Clone, Debug, PartialEq, Eq, Default)]
pub struct Restriction {
    pub countries_allowed: Option<String>,
    pub countries_forbidden: Option<String>,
}

/// Metadata of one track.
#[derive(Debug, PartialEq, Eq, Default)]
pub struct Track {
    /// Raw identifying bytes of the track.
    pub gid: Option<Vec<u8>>,
    /// The encoded variants on offer.
    pub file: Vec<AudioFile>,
    /// The regional rules; any one of them can restrict the track.
    pub restriction: Vec<Restriction>,
    /// Substitutes to try where the track itself is restricted, best first.
    pub alternative: Vec<Track>,
    /// Playing time in milliseconds.
    pub duration: Option<i32>,
}

/// A regional rule as the evaluator reads it: each list as its bytes.
pub struct Rule {
    pub allowed: Option<Seq<u8>>,
    pub forbidden: Option<Seq<u8>>,
}

/// The bytes of a country list.
pub open spec fn list_bytes(list: Option<String>) -> Option<Seq<u8>> {
    match list {
        Some(text) => Some(encode_utf8(text@)),
        None => None,
    }
}

/// The content of an optional byte vector.
pub open spec fn raw_bytes(raw: Option<Vec<u8>>) -> Option<Seq<u8>> {
    match raw {
        Some(bytes) => Some(bytes@),
        None => None,
    }
}

/// One encoded variant as the resolver reads it.
pub struct FileView {
    pub file_id: Option<Seq<u8>>,
    pub format: Option<AudioFormat>,
}

/// A substitute as the evaluator reads it: of a track that stands in for
/// another, only the identifying bytes and the rules are read.
pub struct AlternativeView {
    pub gid: Option<Seq<u8>>,
    pub rules: Seq<Rule>,
}

/// A track as the evaluator and the resolver read it.
pub struct TrackView {
    pub gid: Option<Seq<u8>>,
    pub files: Seq<FileView>,
    pub rules: Seq<Rule>,
    pub alternatives: Seq<AlternativeView>,
    pub duration: Option<i32>,
}

/// The files of a track as the resolver reads them, in listed order.
pub open spec fn file_views(files: Seq<AudioFile>) -> Seq<FileView> {
    files.map_values(|file: AudioFile| file@)
}

/// The rules of a track as the evaluator reads them.
pub open spec fn rule_views(rules: Seq<Restriction>) -> Seq<Rule> {
    rules.map_values(|rule: Restriction| rule@)
}

/// The substitutes of a track as the evaluator reads them, in listed order.
pub open spec fn alternative_views(alternatives: Seq<Track>) -> Seq<AlternativeView> {
    alternatives.map_values(
        |track: Track|
            AlternativeView { gid: raw_bytes(track.gid), rules: rule_views(track.restriction@) },
    )
}

impl View for AudioFile {
    type V = FileView;

    open spec fn view(&self) -> FileView {
        FileView { file_id: raw_bytes(self.file_id), format: self.format }
    }
}

impl View for Track {
    type V = TrackView;

    open spec fn view(&self) -> TrackView {
        TrackView {
            gid: raw_bytes(self.gid),
            files: file_views(self.file@),
            rules: rule_views(self.restriction@),
            alternatives: alternative_views(self.alternative@),
            duration: self.duration,
        }
    }
}

impl View for Restriction {
    type V = Rule;

    open spec fn view(&self) -> Rule {
        Rule {
            allowed: list_bytes(self.countries_allowed),
            forbidden: list_bytes(self.countries_forbidden),
        }
    }
}

/// A list has no bytes exactly when its text has no characters.
pub proof fn lemma_empty_text_has_no_bytes(text: Seq<char>)
    ensures
        encode_utf8(text).len() == 0 <==> text.len() == 0,
{
    if text.len() > 0 {
        assert(vstd::utf8::encode_scalar(text[0] as u32).len() > 0);
    }
}

} // verus!
