//! What is asked of a track: under which address its metadata is requested,
//! whether it may be played in a country, which substitute may be played
//! instead, and which of its files serves a list of preferred formats.

use crate::audio_file::{
    all_among, choose_file, chosen_file, is_chosen, is_first_in_format, is_first_offered,
    lemma_choice_unique, lemma_listing_order_is_irrelevant, one_file_per_format, path_view,
    AudioPath, AudioPathView,
};
use crate::base16::{base16, lemma_base16_injective};
use crate::error::Error;
use crate::item_id::{file_id_of, item_id_of, FileId, ItemId, ItemIdType, ItemIdView};
use crate::protocol::{AlternativeView, AudioFormat, Track, TrackView};
use crate::restriction::{is_restricted_in_region, restricted, rule_restricts};
use vstd::prelude::*;
use vstd::string::*;

verus! {

/// A kind of metadata that can be requested by identifier. Each kind has an
/// address template of its own: the text that precedes the identifier.
pub trait Fetch: Sized {
    /// The text that every address of this kind begins with.
    spec fn template() -> Seq<char>;

    /// The address under which the metadata of `id` is requested: the
    /// template, then the identifier in lowercase hexadecimal.
    fn uri(id: ItemId) -> (uri: String)
        ensures
            uri@ == Self::template() + base16(id@.bytes),
    ;
}

/// What came back for a request that was sent.
pub enum Reply<T> {
    /// The body was decoded as the message asked for.
    Message(T),
    /// A body arrived that is no such message.
    Undecodable,
    /// The transport failed before a body arrived.
    Lost,
}

/// The first step of fetching the metadata of `id`: without an authenticated
/// session nothing is sent and the fetch fails; with one, the request goes to
/// the address of `id`.
pub fn fetch_request<T: Fetch>(authenticated: bool, id: ItemId) -> (step: Result<String, Error>)
    ensures
        match step {
            Ok(uri) => authenticated && uri@ == T::template() + base16(id@.bytes),
            Err(error) => !authenticated && error == Error::ConnectionError,
        },
{
    if authenticated {
        Ok(T::uri(id))
    } else {
        Err(Error::ConnectionError)
    }
}

/// The last step of a fetch: a decoded message is handed on as it is, a body
/// that cannot be decoded is a protocol error, a failed transport a
/// connection error.
pub fn fetch_result<T>(reply: Reply<T>) -> (outcome: Result<T, Error>)
    ensures
        match reply {
            Reply::Message(message) => outcome == Ok::<T, Error>(message),
            Reply::Undecodable => outcome == Err::<T, Error>(Error::ProtocolError),
            Reply::Lost => outcome == Err::<T, Error>(Error::ConnectionError),
        },
{
    match reply {
        Reply::Message(message) => Ok(message),
        Reply::Undecodable => Err(Error::ProtocolError),
        Reply::Lost => Err(Error::ConnectionError),
    }
}

impl Fetch for Track {
    open spec fn template() -> Seq<char> {
        "hm://metadata/3/track/"@
    }

    fn uri(id: ItemId) -> (uri: String) {
        let mut uri = String::from_str("hm://metadata/3/track/");
        let digits = id.to_base16();
        uri.append(digits.as_str());
        uri
    }
}

/// Two addresses of one kind are equal only for equal identifying bytes.
pub proof fn lemma_address_injective<T: Fetch>(a: Seq<u8>, b: Seq<u8>)
    requires
        T::template() + base16(a) == T::template() + base16(b),
    ensures
        a == b,
{
    let prefix = T::template();
    let left = prefix + base16(a);
    let right = prefix + base16(b);
    assert(base16(a) =~= left.subrange(prefix.len() as int, left.len() as int));
    assert(base16(b) =~= right.subrange(prefix.len() as int, right.len() as int));
    lemma_base16_injective(a, b);
}

/// The playing time that a count of milliseconds stands for. A negative count
/// is read as the unsigned value of its 64-bit two's-complement form.
pub open spec fn millis(duration: i32) -> int {
    if duration >= 0 {
        duration as int
    } else {
        duration + 0x1_0000_0000_0000_0000
    }
}

/// Whether `alternatives[i]` is the first substitute that `country` may play.
pub open spec fn is_first_allowed(
    alternatives: Seq<AlternativeView>,
    country: Seq<u8>,
    i: int,
) -> bool {
    &&& 0 <= i < alternatives.len()
    &&& !restricted(alternatives[i].rules, country)
    &&& forall|j: int| 0 <= j < i ==> restricted((#[trigger] alternatives[j]).rules, country)
}

/// The index of the first substitute that `country` may play.
pub open spec fn first_allowed(alternatives: Seq<AlternativeView>, country: Seq<u8>) -> Option<
    int,
> {
    if exists|i: int| is_first_allowed(alternatives, country, i) {
        Some(choose|i: int| is_first_allowed(alternatives, country, i))
    } else {
        None
    }
}

/// The identifier of the substitute to play in `country`: that of the first
/// substitute not restricted there, provided it carries identifying bytes.
pub open spec fn allowed_alternative(track: TrackView, country: Seq<u8>) -> Option<ItemIdView> {
    match first_allowed(track.alternatives, country) {
        Some(i) => item_id_of(track.alternatives[i].gid, ItemIdType::Track),
        None => None,
    }
}

/// The audio path of `track` for the preferences `formats`: the chosen file
/// with its format, the track's identifier and its playing time, or nothing
/// where no file is chosen or any of these is missing.
pub open spec fn audio_path_of(track: TrackView, formats: Seq<AudioFormat>) -> Option<
    AudioPathView,
> {
    match chosen_file(track.files, formats) {
        Some(f) => match (
            item_id_of(track.gid, ItemIdType::Track),
            file_id_of(track.files[f].file_id),
            track.files[f].format,
            track.duration,
        ) {
            (Some(item_id), Some(file_id), Some(file_format), Some(duration)) => Some(
                AudioPathView {
                    item_id,
                    file_id,
                    file_format,
                    duration_millis: millis(duration) as u64,
                },
            ),
            _ => None,
        },
        None => None,
    }
}

/// The content of an identifier that may be absent.
pub open spec fn id_view(id: Option<ItemId>) -> Option<ItemIdView> {
    match id {
        Some(id) => Some(id@),
        None => None,
    }
}

/// Regional availability and file selection for a piece of metadata.
pub trait ToAudioPath {
    /// Whether any rule bars `country`.
    spec fn restricted_in(&self, country: Seq<u8>) -> bool;

    /// The substitute to play in `country`.
    spec fn alternative_for(&self, country: Seq<u8>) -> Option<ItemIdView>;

    /// The audio path for the preferences `formats`.
    spec fn path_for(&self, formats: Seq<AudioFormat>) -> Option<AudioPathView>;

    /// Whether playback is barred in `country`, a two-letter code.
    fn is_restricted_in_region(&self, country: &str) -> (barred: bool)
        ensures
            barred == self.restricted_in(country.spec_bytes()),
    ;

    /// The identifier of the first substitute that `country` may play.
    fn find_allowed_alternative(&self, country: &str) -> (id: Option<ItemId>)
        ensures
            id_view(id) == self.alternative_for(country.spec_bytes()),
    ;

    /// The file to play for the preferences `formats`, most preferred first.
    fn to_audio_path(&self, formats: &[AudioFormat]) -> (path: Option<AudioPath>)
        ensures
            path_view(path) == self.path_for(formats@),
    ;
}

/// The playing time for a count of milliseconds.
fn to_millis(duration: i32) -> (time: u64)
    ensures
        time == millis(duration),
{
    if duration >= 0 {
        duration as u64
    } else {
        let below: u64 = (-(duration + 1)) as u64;
        u64::MAX - below
    }
}

impl ToAudioPath for Track {
    open spec fn restricted_in(&self, country: Seq<u8>) -> bool {
        restricted(self@.rules, country)
    }

    open spec fn alternative_for(&self, country: Seq<u8>) -> Option<ItemIdView> {
        allowed_alternative(self@, country)
    }

    open spec fn path_for(&self, formats: Seq<AudioFormat>) -> Option<AudioPathView> {
        audio_path_of(self@, formats)
    }

    fn is_restricted_in_region(&self, country: &str) -> (barred: bool) {
        let ghost rules = self@.rules;
        let mut i: usize = 0;
        while i < self.restriction.len()
            invariant
                i <= self.restriction@.len(),
                rules == self@.rules,
                forall|j: int|
                    0 <= j < i ==> !rule_restricts(#[trigger] rules[j], country.spec_bytes()),
            decreases self.restriction@.len() - i,
        {
            assert(rules[i as int] == self.restriction@[i as int]@);
            if is_restricted_in_region(&self.restriction[i], country) {
                return true;
            }
            i += 1;
        }
        false
    }

    fn find_allowed_alternative(&self, country: &str) -> (id: Option<ItemId>) {
        let ghost alternatives = self@.alternatives;
        let mut i: usize = 0;
        while i < self.alternative.len()
            invariant
                i <= self.alternative@.len(),
                alternatives == self@.alternatives,
                alternatives.len() == self.alternative@.len(),
                forall|j: int|
                    0 <= j < i ==> restricted(
                        (#[trigger] alternatives[j]).rules,
                        country.spec_bytes(),
                    ),
            decreases self.alternative@.len() - i,
        {
            let alternative = &self.alternative[i];
            assert(alternatives[i as int].rules == alternative@.rules);
            assert(alternatives[i as int].gid == alternative@.gid);
            if !alternative.is_restricted_in_region(country) {
                proof {
                    lemma_first_allowed(alternatives, country.spec_bytes(), i as int);
                }
                return match &alternative.gid {
                    Some(gid) => ItemId::from_raw(gid.as_slice(), ItemIdType::Track),
                    None => None,
                };
            }
            i += 1;
        }
        None
    }

    fn to_audio_path(&self, formats: &[AudioFormat]) -> (path: Option<AudioPath>) {
        let file = &self.file[choose_file(self.file.as_slice(), formats)?];
        let file_format = file.format?;
        let item_id = ItemId::from_raw(self.gid.as_ref()?.as_slice(), ItemIdType::Track)?;
        let file_id = FileId::from_raw(file.file_id.as_ref()?.as_slice())?;
        let duration_millis = to_millis(self.duration?);
        Some(AudioPath { item_id, file_id, file_format, duration_millis })
    }
}

/// The first allowed substitute is unique: where `alternatives[i]` is one,
/// it is the one that is found.
pub proof fn lemma_first_allowed(alternatives: Seq<AlternativeView>, country: Seq<u8>, i: int)
    requires
        is_first_allowed(alternatives, country, i),
    ensures
        first_allowed(alternatives, country) == Some(i),
{
    let j = choose|j: int| is_first_allowed(alternatives, country, j);
    if i < j {
        assert(restricted(alternatives[i].rules, country));
    } else if j < i {
        assert(restricted(alternatives[j].rules, country));
    }
}

/// The substitute offered is the first one, in listed order, that is not
/// restricted in the country: its identifier where it carries identifying
/// bytes, nothing where it carries none.
pub proof fn lemma_alternative_is_first_allowed(track: TrackView, country: Seq<u8>, i: int)
    requires
        is_first_allowed(track.alternatives, country, i),
    ensures
        allowed_alternative(track, country) == item_id_of(
            track.alternatives[i].gid,
            ItemIdType::Track,
        ),
{
    lemma_first_allowed(track.alternatives, country, i);
}

/// A track without substitutes, or whose substitutes are all restricted in
/// the country, offers none.
pub proof fn lemma_no_allowed_alternative(track: TrackView, country: Seq<u8>)
    requires
        forall|i: int|
            0 <= i < track.alternatives.len() ==> restricted(
                (#[trigger] track.alternatives[i]).rules,
                country,
            ),
    ensures
        allowed_alternative(track, country) is None,
{
}

/// Whether `track` holds everything that a path to its file `f` needs: its
/// own identifying bytes, those of the file, the file's format and the
/// playing time.
pub open spec fn is_complete(track: TrackView, f: int) -> bool {
    &&& item_id_of(track.gid, ItemIdType::Track) is Some
    &&& file_id_of(track.files[f].file_id) is Some
    &&& track.files[f].format is Some
    &&& track.duration is Some
}

/// A path is resolved exactly when a file is chosen and nothing is missing.
/// Where the playing time, the track's identifying bytes or the chosen
/// file's identifying bytes are missing or empty there is no path, and so no
/// path that is filled in part.
pub proof fn lemma_path_needs_complete_data(track: TrackView, formats: Seq<AudioFormat>)
    ensures
        audio_path_of(track, formats) is Some <==> (chosen_file(track.files, formats) is Some
            && is_complete(track, chosen_file(track.files, formats)->0)),
        track.duration is None ==> audio_path_of(track, formats) is None,
        (track.gid is None || track.gid->0.len() == 0) ==> audio_path_of(track, formats) is None,
        chosen_file(track.files, formats) is Some ==> {
            let file = track.files[chosen_file(track.files, formats)->0];
            (file.file_id is None || file.file_id->0.len() == 0) ==> audio_path_of(
                track,
                formats,
            ) is None
        },
{
}

/// A resolved path describes the chosen file: it repeats the file's format
/// and identifying bytes, the track's identifying bytes, and the track's
/// playing time.
pub proof fn lemma_path_describes_chosen_file(track: TrackView, formats: Seq<AudioFormat>, f: int)
    requires
        is_chosen(track.files, formats, f),
        is_complete(track, f),
    ensures
        audio_path_of(track, formats) == Some(
            AudioPathView {
                item_id: ItemIdView { bytes: track.gid->0, kind: ItemIdType::Track },
                file_id: track.files[f].file_id->0,
                file_format: track.files[f].format->0,
                duration_millis: millis(track.duration->0) as u64,
            },
        ),
{
    lemma_choice_unique(track.files, formats, f);
}

/// Where every format is offered by at most one file, the path leads to the
/// one file in the first preferred format that the track offers, wherever in
/// the track's list of files it stands.
pub proof fn lemma_one_file_per_format(track: TrackView, formats: Seq<AudioFormat>, p: int, f: int)
    requires
        one_file_per_format(track.files),
        is_first_offered(track.files, formats, p),
        0 <= f < track.files.len(),
        track.files[f].format == Some(formats[p]),
        is_complete(track, f),
    ensures
        chosen_file(track.files, formats) == Some(f),
        audio_path_of(track, formats) == Some(
            AudioPathView {
                item_id: ItemIdView { bytes: track.gid->0, kind: ItemIdType::Track },
                file_id: track.files[f].file_id->0,
                file_format: formats[p],
                duration_millis: millis(track.duration->0) as u64,
            },
        ),
{
    assert(is_first_in_format(track.files, formats[p], f));
    lemma_choice_unique(track.files, formats, f);
}

/// Two tracks with the same identifying bytes and playing time that list the
/// same files, one per format, in whatever order, resolve to the same path.
pub proof fn lemma_path_ignores_listing_order(
    here: TrackView,
    there: TrackView,
    formats: Seq<AudioFormat>,
)
    requires
        here.gid == there.gid,
        here.duration == there.duration,
        all_among(here.files, there.files),
        all_among(there.files, here.files),
        one_file_per_format(here.files),
        one_file_per_format(there.files),
    ensures
        audio_path_of(here, formats) == audio_path_of(there, formats),
{
    lemma_listing_order_is_irrelevant(here.files, there.files, formats);
    lemma_listing_order_is_irrelevant(there.files, here.files, formats);
}

/// Resolution reads the identifying bytes, the files and the playing time of
/// a track, and nothing else: neither its rules nor its substitutes.
pub proof fn lemma_path_ignores_restrictions(
    here: TrackView,
    there: TrackView,
    formats: Seq<AudioFormat>,
)
    requires
        here.gid == there.gid,
        here.files == there.files,
        here.duration == there.duration,
    ensures
        audio_path_of(here, formats) == audio_path_of(there, formats),
{
}

} // verus!
