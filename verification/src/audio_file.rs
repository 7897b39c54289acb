//! The resolved description of playable audio, and the choice of the file
//! behind it.
//!
//! Formats are tried in the caller's order of preference. The first format
//! that any file of the track is encoded in wins, and among the files in that
//! format the one listed first is taken. The order of the files never decides
//! between two formats.

use crate::item_id::{FileId, ItemId, ItemIdView};
use crate::protocol::{file_views, AudioFile, AudioFormat, FileView};
use vstd::prelude::*;

verus! {

/// Everything needed to fetch and play one file of one track.
#[derive(Debug, PartialEq, Eq)]
pub struct AudioPath {
    pub item_id: ItemId,
    pub file_id: FileId,
    pub file_format: AudioFormat,
    /// Playing time in milliseconds.
    pub duration_millis: u64,
}

/// The mathematical content of an [`AudioPath`].
pub struct AudioPathView {
    pub item_id: ItemIdView,
    pub file_id: Seq<u8>,
    pub file_format: AudioFormat,
    pub duration_millis: u64,
}

impl View for AudioPath {
    type V = AudioPathView;

    open spec fn view(&self) -> AudioPathView {
        AudioPathView {
            item_id: self.item_id@,
            file_id: self.file_id@,
            file_format: self.file_format,
            duration_millis: self.duration_millis,
        }
    }
}

/// The content of a path that may be absent.
pub open spec fn path_view(path: Option<AudioPath>) -> Option<AudioPathView> {
    match path {
        Some(path) => Some(path@),
        None => None,
    }
}

/// Whether some file of `files` is encoded in `format`.
pub open spec fn offers(files: Seq<FileView>, format: AudioFormat) -> bool {
    exists|f: int| 0 <= f < files.len() && (#[trigger] files[f]).format == Some(format)
}

/// Whether `files[f]` is the first file encoded in `format`.
pub open spec fn is_first_in_format(files: Seq<FileView>, format: AudioFormat, f: int) -> bool {
    &&& 0 <= f < files.len()
    &&& files[f].format == Some(format)
    &&& forall|g: int| 0 <= g < f ==> (#[trigger] files[g]).format != Some(format)
}

/// Whether `formats[p]` is the first of `formats` that `files` offer.
pub open spec fn is_first_offered(files: Seq<FileView>, formats: Seq<AudioFormat>, p: int) -> bool {
    &&& 0 <= p < formats.len()
    &&& offers(files, formats[p])
    &&& forall|q: int| 0 <= q < p ==> !offers(files, #[trigger] formats[q])
}

/// Whether the choice falls on `files[f]`: the first file in the first
/// offered format.
pub open spec fn is_chosen(files: Seq<FileView>, formats: Seq<AudioFormat>, f: int) -> bool {
    exists|p: int| #[trigger]
        is_first_offered(files, formats, p) && is_first_in_format(files, formats[p], f)
}

/// The index of the chosen file, if `files` offer any of `formats`.
pub open spec fn chosen_file(files: Seq<FileView>, formats: Seq<AudioFormat>) -> Option<int> {
    if exists|f: int| is_chosen(files, formats, f) {
        Some(choose|f: int| is_chosen(files, formats, f))
    } else {
        None
    }
}

/// At most one format is the first offered one.
pub proof fn lemma_first_offered_unique(
    files: Seq<FileView>,
    formats: Seq<AudioFormat>,
    p: int,
    q: int,
)
    requires
        is_first_offered(files, formats, p),
        is_first_offered(files, formats, q),
    ensures
        p == q,
{
    if p < q {
        assert(!offers(files, formats[p]));
    } else if q < p {
        assert(!offers(files, formats[q]));
    }
}

/// The choice is unique: where it can fall on `files[f]`, it falls there.
pub proof fn lemma_choice_unique(files: Seq<FileView>, formats: Seq<AudioFormat>, f: int)
    requires
        is_chosen(files, formats, f),
    ensures
        chosen_file(files, formats) == Some(f),
{
    let g = choose|g: int| is_chosen(files, formats, g);
    let p = choose|p: int| #[trigger]
        is_first_offered(files, formats, p) && is_first_in_format(files, formats[p], f);
    let q = choose|q: int| #[trigger]
        is_first_offered(files, formats, q) && is_first_in_format(files, formats[q], g);
    lemma_first_offered_unique(files, formats, p, q);
    if f < g {
        assert(files[f].format != Some(formats[p]));
    } else if g < f {
        assert(files[g].format != Some(formats[p]));
    }
}

/// Where no preferred format is on offer, nothing is chosen.
pub proof fn lemma_nothing_offered(files: Seq<FileView>, formats: Seq<AudioFormat>)
    requires
        forall|p: int| 0 <= p < formats.len() ==> !offers(files, #[trigger] formats[p]),
    ensures
        chosen_file(files, formats) is None,
{
}

/// Whether no two files of `files` are encoded in the same format.
pub open spec fn one_file_per_format(files: Seq<FileView>) -> bool {
    forall|a: int, b: int|
        0 <= a < b < files.len() && (#[trigger] files[a]).format is Some ==> files[a].format != (
        #[trigger] files[b]).format
}

/// Whether every file of `part` is also a file of `whole`.
pub open spec fn all_among(part: Seq<FileView>, whole: Seq<FileView>) -> bool {
    forall|i: int| 0 <= i < part.len() ==> whole.contains(#[trigger] part[i])
}

/// What one list of files offers, every list that holds the same files offers.
pub proof fn lemma_offers_among(part: Seq<FileView>, whole: Seq<FileView>, format: AudioFormat)
    requires
        all_among(part, whole),
        offers(part, format),
    ensures
        offers(whole, format),
{
    let f = choose|f: int| 0 <= f < part.len() && (#[trigger] part[f]).format == Some(format);
    assert(whole.contains(part[f]));
    let g = choose|g: int| 0 <= g < whole.len() && whole[g] == part[f];
    assert(whole[g].format == Some(format));
}

/// With one file per format, the order in which the files are listed does
/// not matter: two lists of the same files give the same chosen file, or
/// both give none.
pub proof fn lemma_listing_order_is_irrelevant(
    here: Seq<FileView>,
    there: Seq<FileView>,
    formats: Seq<AudioFormat>,
)
    requires
        all_among(here, there),
        all_among(there, here),
        one_file_per_format(there),
    ensures
        chosen_file(here, formats) is Some ==> chosen_file(there, formats) is Some
            && here[chosen_file(here, formats)->0] == there[chosen_file(there, formats)->0],
        chosen_file(here, formats) is None ==> chosen_file(there, formats) is None,
{
    if chosen_file(here, formats) is Some {
        let f = chosen_file(here, formats)->0;
        assert(is_chosen(here, formats, f));
        let p = choose|p: int| #[trigger]
            is_first_offered(here, formats, p) && is_first_in_format(here, formats[p], f);
        assert(there.contains(here[f]));
        let g = choose|g: int| 0 <= g < there.len() && there[g] == here[f];
        assert(offers(there, formats[p]));
        assert forall|q: int| 0 <= q < p implies !offers(there, #[trigger] formats[q]) by {
            if offers(there, formats[q]) {
                lemma_offers_among(there, here, formats[q]);
            }
        }
        assert(is_first_offered(there, formats, p));
        assert(is_first_in_format(there, formats[p], g));
        assert(is_chosen(there, formats, g));
        lemma_choice_unique(there, formats, g);
    } else {
        if chosen_file(there, formats) is Some {
            let g = chosen_file(there, formats)->0;
            assert(is_chosen(there, formats, g));
            let p = choose|p: int| #[trigger]
                is_first_offered(there, formats, p) && is_first_in_format(there, formats[p], g);
            lemma_offers_among(there, here, formats[p]);
            lemma_some_format_offered(here, formats, p);
        }
    }
}

/// Where any preferred format is on offer, a file is chosen.
pub proof fn lemma_some_format_offered(files: Seq<FileView>, formats: Seq<AudioFormat>, p: int)
    requires
        0 <= p < formats.len(),
        offers(files, formats[p]),
    ensures
        chosen_file(files, formats) is Some,
    decreases p,
{
    if exists|q: int| 0 <= q < p && offers(files, #[trigger] formats[q]) {
        let q = choose|q: int| 0 <= q < p && offers(files, #[trigger] formats[q]);
        lemma_some_format_offered(files, formats, q);
    } else {
        assert(is_first_offered(files, formats, p));
        lemma_first_file_exists(files, formats[p], files.len() as int);
        let f = choose|f: int| is_first_in_format(files, formats[p], f);
        assert(is_chosen(files, formats, f));
    }
}

/// Among the first `n` files, where one is encoded in `format`, one is the
/// first to be so.
proof fn lemma_first_file_exists(files: Seq<FileView>, format: AudioFormat, n: int)
    requires
        0 <= n <= files.len(),
        exists|f: int| 0 <= f < n && (#[trigger] files[f]).format == Some(format),
    ensures
        exists|f: int| is_first_in_format(files, format, f),
    decreases n,
{
    let f = choose|f: int| 0 <= f < n && (#[trigger] files[f]).format == Some(format);
    if exists|g: int| 0 <= g < f && (#[trigger] files[g]).format == Some(format) {
        lemma_first_file_exists(files, format, f);
    } else {
        assert(is_first_in_format(files, format, f));
    }
}

/// The first file of `files` encoded in `format`.
fn first_in_format(files: &[AudioFile], format: AudioFormat) -> (found: Option<usize>)
    ensures
        match found {
            Some(f) => is_first_in_format(file_views(files@), format, f as int),
            None => !offers(file_views(files@), format),
        },
{
    let ghost views = file_views(files@);
    let mut f: usize = 0;
    while f < files.len()
        invariant
            f <= files@.len(),
            views == file_views(files@),
            forall|g: int| 0 <= g < f ==> (#[trigger] views[g]).format != Some(format),
        decreases files@.len() - f,
    {
        assert(views[f as int] == files@[f as int]@);
        if let Some(encoding) = files[f].format {
            if encoding == format {
                return Some(f);
            }
        }
        f += 1;
    }
    None
}

/// Chooses among `files` for the preferences `formats`, most preferred
/// first: the index of the first file in the first format on offer.
pub fn choose_file(files: &[AudioFile], formats: &[AudioFormat]) -> (chosen: Option<usize>)
    ensures
        match chosen {
            Some(f) => f < files@.len() && chosen_file(file_views(files@), formats@) == Some(
                f as int,
            ),
            None => chosen_file(file_views(files@), formats@) is None,
        },
{
    let ghost views = file_views(files@);
    let mut p: usize = 0;
    while p < formats.len()
        invariant
            p <= formats@.len(),
            views == file_views(files@),
            forall|q: int| 0 <= q < p ==> !offers(views, #[trigger] formats@[q]),
        decreases formats@.len() - p,
    {
        if let Some(f) = first_in_format(files, formats[p]) {
            proof {
                assert(views[f as int].format == Some(formats@[p as int]));
                assert(offers(views, formats@[p as int]));
                assert(is_first_offered(views, formats@, p as int));
                lemma_choice_unique(views, formats@, f as int);
            }
            return Some(f);
        }
        p += 1;
    }
    proof {
        lemma_nothing_offered(views, formats@);
    }
    None
}

} // verus!
