use psst_core::audio_file::{choose_file, AudioPath};
use psst_core::item_id::{FileId, ItemId, ItemIdType};
use psst_core::metadata::ToAudioPath;
use psst_core::protocol::{AudioFile, AudioFormat, Restriction, Track};

const LOW: AudioFormat = AudioFormat::OggVorbis96;
const NORMAL: AudioFormat = AudioFormat::OggVorbis160;
const HIGH: AudioFormat = AudioFormat::OggVorbis320;

fn file(id: &[u8], format: AudioFormat) -> AudioFile {
    AudioFile { file_id: Some(id.to_vec()), format: Some(format) }
}

fn track(files: Vec<AudioFile>) -> Track {
    Track { gid: Some(vec![0xaa, 0xbb]), file: files, duration: Some(215_000), ..Track::default() }
}

fn path(file_id: &[u8], format: AudioFormat) -> AudioPath {
    AudioPath {
        item_id: ItemId::from_raw(&[0xaa, 0xbb], ItemIdType::Track).unwrap(),
        file_id: FileId::from_raw(file_id).unwrap(),
        file_format: format,
        duration_millis: 215_000,
    }
}

fn alternative(gid: Option<&[u8]>, allowed: Option<&str>, forbidden: Option<&str>) -> Track {
    Track {
        gid: gid.map(|raw| raw.to_vec()),
        restriction: vec![Restriction {
            countries_allowed: allowed.map(|text| text.to_string()),
            countries_forbidden: forbidden.map(|text| text.to_string()),
        }],
        ..Track::default()
    }
}

fn with_alternatives(alternatives: Vec<Track>) -> Track {
    Track { gid: Some(vec![1]), alternative: alternatives, ..Track::default() }
}

fn track_id(raw: &[u8]) -> ItemId {
    ItemId::from_raw(raw, ItemIdType::Track).unwrap()
}

#[test]
fn first_unrestricted_alternative_is_found() {
    let track = with_alternatives(vec![
        alternative(Some(&[1, 1]), Some(""), None),
        alternative(Some(&[2, 2]), None, Some("US")),
        alternative(Some(&[3, 3]), Some("US"), None),
        alternative(Some(&[4, 4]), None, None),
    ]);
    assert_eq!(track.find_allowed_alternative("US"), Some(track_id(&[3, 3])));
    assert_eq!(track.find_allowed_alternative("DE"), Some(track_id(&[2, 2])));
}

#[test]
fn alternative_order_decides_not_quality() {
    let track = with_alternatives(vec![
        alternative(Some(&[9]), None, None),
        alternative(Some(&[8]), Some("US"), None),
    ]);
    assert_eq!(track.find_allowed_alternative("US"), Some(track_id(&[9])));
}

#[test]
fn no_alternatives_means_no_result() {
    assert_eq!(with_alternatives(vec![]).find_allowed_alternative("US"), None);
}

#[test]
fn all_alternatives_restricted_means_no_result() {
    let track = with_alternatives(vec![
        alternative(Some(&[1]), Some(""), None),
        alternative(Some(&[2]), None, Some("USDE")),
    ]);
    assert_eq!(track.find_allowed_alternative("US"), None);
    assert_eq!(track.find_allowed_alternative("DE"), None);
}

#[test]
fn first_allowed_alternative_without_id_means_no_result() {
    let track = with_alternatives(vec![
        alternative(None, None, None),
        alternative(Some(&[2]), None, None),
    ]);
    assert_eq!(track.find_allowed_alternative("US"), None);
}

#[test]
fn first_allowed_alternative_with_empty_id_means_no_result() {
    let track = with_alternatives(vec![
        alternative(Some(&[]), None, None),
        alternative(Some(&[2]), None, None),
    ]);
    assert_eq!(track.find_allowed_alternative("US"), None);
}

#[test]
fn alternative_id_has_kind_track() {
    let track = with_alternatives(vec![alternative(Some(&[5, 6]), None, None)]);
    let id = track.find_allowed_alternative("US").unwrap();
    assert_eq!(id.id_type(), ItemIdType::Track);
    assert_eq!(id.as_bytes(), &[5u8, 6][..]);
}

#[test]
fn high_preference_resolves_to_high_file_in_any_listing_order() {
    let preferences = [HIGH, NORMAL, LOW];
    let orders: [[usize; 3]; 6] =
        [[0, 1, 2], [0, 2, 1], [1, 0, 2], [1, 2, 0], [2, 0, 1], [2, 1, 0]];
    let variants = [(vec![1u8], LOW), (vec![2u8], NORMAL), (vec![3u8], HIGH)];
    for order in orders.iter() {
        let files = order.iter().map(|&i| file(&variants[i].0, variants[i].1)).collect();
        assert_eq!(track(files).to_audio_path(&preferences), Some(path(&[3], HIGH)));
    }
}

#[test]
fn each_preference_list_selects_its_top_format() {
    let files = || vec![file(&[1], LOW), file(&[2], NORMAL), file(&[3], HIGH)];
    assert_eq!(track(files()).to_audio_path(&[LOW, NORMAL, HIGH]), Some(path(&[1], LOW)));
    assert_eq!(track(files()).to_audio_path(&[NORMAL, LOW, HIGH]), Some(path(&[2], NORMAL)));
    assert_eq!(track(files()).to_audio_path(&[HIGH, NORMAL, LOW]), Some(path(&[3], HIGH)));
}

#[test]
fn top_format_that_the_track_has_is_selected() {
    let files = vec![file(&[1], LOW), file(&[7], AudioFormat::Mp3_256)];
    assert_eq!(track(files).to_audio_path(&[HIGH, NORMAL, LOW]), Some(path(&[1], LOW)));
    let files = vec![file(&[2], NORMAL), file(&[1], LOW)];
    assert_eq!(track(files).to_audio_path(&[HIGH, NORMAL, LOW]), Some(path(&[2], NORMAL)));
}

#[test]
fn first_listed_file_of_a_format_is_selected() {
    let files = vec![file(&[1], LOW), file(&[2], HIGH), file(&[3], HIGH)];
    assert_eq!(track(files).to_audio_path(&[HIGH]), Some(path(&[2], HIGH)));
}

#[test]
fn resolution_is_repeatable() {
    let subject = track(vec![file(&[1], LOW), file(&[3], HIGH)]);
    let first = subject.to_audio_path(&[NORMAL, HIGH, LOW]);
    let second = subject.to_audio_path(&[NORMAL, HIGH, LOW]);
    assert_eq!(first, second);
    assert_eq!(first, Some(path(&[3], HIGH)));
}

#[test]
fn no_compatible_file_means_no_path() {
    let files = vec![file(&[7], AudioFormat::Mp3_256), file(&[8], AudioFormat::Aac48)];
    assert_eq!(track(files).to_audio_path(&[HIGH, NORMAL, LOW]), None);
    assert_eq!(track(vec![]).to_audio_path(&[HIGH, NORMAL, LOW]), None);
    assert_eq!(track(vec![file(&[1], LOW)]).to_audio_path(&[]), None);
}

#[test]
fn file_without_format_is_never_selected() {
    let files = vec![AudioFile { file_id: Some(vec![1]), format: None }, file(&[2], LOW)];
    assert_eq!(track(files).to_audio_path(&[HIGH, LOW]), Some(path(&[2], LOW)));
    let files = vec![AudioFile { file_id: Some(vec![1]), format: None }];
    assert_eq!(track(files).to_audio_path(&[HIGH, LOW]), None);
}

#[test]
fn missing_duration_means_no_path() {
    let mut subject = track(vec![file(&[3], HIGH)]);
    subject.duration = None;
    assert_eq!(subject.to_audio_path(&[HIGH]), None);
}

#[test]
fn missing_track_id_means_no_path() {
    let mut subject = track(vec![file(&[3], HIGH)]);
    subject.gid = None;
    assert_eq!(subject.to_audio_path(&[HIGH]), None);
    subject.gid = Some(vec![]);
    assert_eq!(subject.to_audio_path(&[HIGH]), None);
}

#[test]
fn missing_file_id_means_no_path() {
    let files = vec![AudioFile { file_id: None, format: Some(HIGH) }, file(&[2], LOW)];
    assert_eq!(track(files).to_audio_path(&[HIGH, LOW]), None);
    let files = vec![AudioFile { file_id: Some(vec![]), format: Some(HIGH) }, file(&[2], LOW)];
    assert_eq!(track(files).to_audio_path(&[HIGH, LOW]), None);
}

#[test]
fn path_carries_all_four_fields() {
    let subject = Track {
        gid: Some(vec![0x10, 0x20, 0x30]),
        file: vec![file(&[0xf1, 0xf2], NORMAL)],
        duration: Some(1),
        ..Track::default()
    };
    let resolved = subject.to_audio_path(&[NORMAL]).unwrap();
    assert_eq!(resolved.item_id.as_bytes(), &[0x10u8, 0x20, 0x30][..]);
    assert_eq!(resolved.item_id.id_type(), ItemIdType::Track);
    assert_eq!(resolved.file_id.as_bytes(), &[0xf1u8, 0xf2][..]);
    assert_eq!(resolved.file_format, NORMAL);
    assert_eq!(resolved.duration_millis, 1);
}

#[test]
fn duration_is_taken_in_milliseconds() {
    let mut subject = track(vec![file(&[3], HIGH)]);
    subject.duration = Some(0);
    assert_eq!(subject.to_audio_path(&[HIGH]).unwrap().duration_millis, 0);
    subject.duration = Some(i32::MAX);
    assert_eq!(subject.to_audio_path(&[HIGH]).unwrap().duration_millis, 2_147_483_647);
}

#[test]
fn negative_duration_wraps_to_unsigned() {
    let mut subject = track(vec![file(&[3], HIGH)]);
    subject.duration = Some(-1);
    assert_eq!(subject.to_audio_path(&[HIGH]).unwrap().duration_millis, u64::MAX);
    subject.duration = Some(i32::MIN);
    assert_eq!(
        subject.to_audio_path(&[HIGH]).unwrap().duration_millis,
        0xffff_ffff_8000_0000
    );
}

#[test]
fn resolution_does_not_look_at_restrictions() {
    let mut subject = track(vec![file(&[3], HIGH)]);
    subject.restriction =
        vec![Restriction { countries_allowed: Some(String::new()), countries_forbidden: None }];
    assert!(subject.is_restricted_in_region("US"));
    assert_eq!(subject.to_audio_path(&[HIGH]), Some(path(&[3], HIGH)));
}

#[test]
fn choose_file_gives_the_index_of_the_choice() {
    let files = vec![file(&[1], LOW), file(&[2], HIGH), file(&[3], NORMAL), file(&[4], HIGH)];
    assert_eq!(choose_file(&files, &[HIGH, NORMAL, LOW]), Some(1));
    assert_eq!(choose_file(&files, &[NORMAL, HIGH]), Some(2));
    assert_eq!(choose_file(&files, &[AudioFormat::Aac24, LOW]), Some(0));
    assert_eq!(choose_file(&files, &[AudioFormat::Aac24]), None);
    assert_eq!(choose_file(&[], &[HIGH]), None);
}
