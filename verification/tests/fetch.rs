use psst_core::error::Error;
use psst_core::item_id::{ItemId, ItemIdType};
use psst_core::metadata::{fetch_request, fetch_result, Fetch, Reply};
use psst_core::protocol::Track;

fn track_id(raw: &[u8]) -> ItemId {
    ItemId::from_raw(raw, ItemIdType::Track).unwrap()
}

#[test]
fn track_uri_is_template_and_hex() {
    assert_eq!(Track::uri(track_id(&[0x0a, 0x0b])), "hm://metadata/3/track/0a0b");
}

#[test]
fn track_uri_of_sixteen_bytes() {
    let raw = [0xffu8, 0x00, 0x12, 0x34, 0x56, 0x78, 0x9a, 0xbc, 0xde, 0xf0, 0x01, 0x02, 0x03, 0x04, 0x05, 0x06];
    assert_eq!(
        Track::uri(track_id(&raw)),
        "hm://metadata/3/track/ff00123456789abcdef0010203040506"
    );
}

#[test]
fn track_uris_differ_for_different_ids() {
    assert_ne!(Track::uri(track_id(&[1, 2])), Track::uri(track_id(&[1, 3])));
    assert_ne!(Track::uri(track_id(&[1])), Track::uri(track_id(&[0, 1])));
}

#[test]
fn fetch_without_authentication_is_a_connection_error() {
    assert_eq!(fetch_request::<Track>(false, track_id(&[1, 2, 3])), Err(Error::ConnectionError));
}

#[test]
fn fetch_with_authentication_requests_the_uri() {
    assert_eq!(
        fetch_request::<Track>(true, track_id(&[0xab, 0xcd, 0xef])),
        Ok("hm://metadata/3/track/abcdef".to_string())
    );
}

#[test]
fn decoded_message_is_handed_on_unchanged() {
    let track = Track { gid: Some(vec![1, 2]), duration: Some(1000), ..Track::default() };
    let expected = Track { gid: Some(vec![1, 2]), duration: Some(1000), ..Track::default() };
    assert_eq!(fetch_result(Reply::Message(track)), Ok(expected));
}

#[test]
fn undecodable_body_is_a_protocol_error() {
    assert_eq!(fetch_result::<Track>(Reply::Undecodable), Err(Error::ProtocolError));
}

#[test]
fn lost_transport_is_a_connection_error() {
    assert_eq!(fetch_result::<Track>(Reply::Lost), Err(Error::ConnectionError));
}
