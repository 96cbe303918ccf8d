use encosmo::codec::{decode_packet, encode_packet, DecodeError};
use encosmo::ids::ConnectionId;
use encosmo::logs::{LogEvent, LogLevel};
use encosmo::packets::Packet;
use encosmo::server_components::{Position, ServerComponentKind, Translate};

fn round_trip(p: Packet) -> Packet {
    let bytes = encode_packet(&p);
    decode_packet(&bytes).expect("a fresh encoding must decode")
}

#[test]
fn set_name_round_trip() {
    let p = Packet::SetName("zed".to_owned());
    assert_eq!(round_trip(p.clone()), p);
}

#[test]
fn set_name_round_trip_multibyte() {
    // exercises the UTF-8 path with characters of two and three bytes
    let p = Packet::SetName("héllo wörld — ✓".to_owned());
    assert_eq!(round_trip(p.clone()), p);
}

#[test]
fn logout_round_trip() {
    assert_eq!(round_trip(Packet::Logout), Packet::Logout);
}

#[test]
fn update_component_round_trip() {
    let p = Packet::UpdateComponent(7, ServerComponentKind::Translate(Translate { dx: 16, dy: -3 }));
    assert_eq!(round_trip(p.clone()), p);
    let q = Packet::UpdateComponent(
        u32::MAX,
        ServerComponentKind::Position(Position { x: i32::MIN, y: i32::MAX }),
    );
    assert_eq!(round_trip(q.clone()), q);
}

#[test]
fn id_round_trip() {
    let p = Packet::Id(ConnectionId(0x0123_4567_89ab_cdef_0123_4567_89ab_cdef));
    assert_eq!(round_trip(p.clone()), p);
}

#[test]
fn lifecycle_round_trips() {
    let c = ConnectionId(42);
    let p = Packet::PlayerConnected(c);
    assert_eq!(round_trip(p.clone()), p);
    let q = Packet::PlayerDisconnected(c);
    assert_eq!(round_trip(q.clone()), q);
}

#[test]
fn player_entity_id_round_trip() {
    let p = Packet::PlayerEntityId(ConnectionId(u128::MAX), 9001);
    assert_eq!(round_trip(p.clone()), p);
}

#[test]
fn name_round_trip() {
    let p = Packet::Name(ConnectionId(5), "a name with spaces".to_owned());
    assert_eq!(round_trip(p.clone()), p);
}

#[test]
fn name_taken_round_trip() {
    let p = Packet::NameTaken(String::new());
    assert_eq!(round_trip(p.clone()), p);
}

#[test]
fn decode_empty_buffer() {
    assert_eq!(decode_packet(&[]), Err(DecodeError::Empty));
}

#[test]
fn decode_unknown_tag() {
    assert_eq!(decode_packet(&[200]), Err(DecodeError::UnknownTag));
}

#[test]
fn decode_unknown_component_tag() {
    // a 14-byte update-component unit whose component discriminator is bad
    let mut bytes = vec![2u8];
    bytes.extend_from_slice(&7u32.to_le_bytes());
    bytes.push(9); // no such component kind
    bytes.extend_from_slice(&[0; 8]);
    assert_eq!(decode_packet(&bytes), Err(DecodeError::UnknownTag));
}

#[test]
fn decode_bad_length() {
    // a logout unit must be exactly one byte
    assert_eq!(decode_packet(&[1, 0]), Err(DecodeError::BadLength));
    // an id unit must carry sixteen bytes of identity
    assert_eq!(decode_packet(&[3, 1, 2]), Err(DecodeError::BadLength));
}

#[test]
fn decode_bad_text() {
    // 0xff can never appear in UTF-8
    assert_eq!(decode_packet(&[0, 0xff]), Err(DecodeError::BadText));
}

#[test]
fn decode_failure_reports_error_level() {
    let e = LogEvent::DecodeFailed(ConnectionId(1), DecodeError::BadText);
    assert_eq!(e.level(), LogLevel::Error);
}
