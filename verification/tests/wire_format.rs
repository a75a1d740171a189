use kameo::ids::{ActorId, PeerId};
use kameo::wire::{actor_message, decimal_text, peer_actor_id, tell_frame};

#[test]
fn a_tell_frame_has_its_fields_in_place() {
    let frame = tell_frame(ActorId::from_u64(0x0102_0304_0506_0708), 0xa1b2_c3d4, &[9, 8, 7]);
    let expected: Vec<u8> = vec![
        0, 0, 0, 31, // 28 + 3 bytes follow
        3, // a tell
        0, 0, // no correlation id
        0, 0, 0, 0, 0, 0, 0, 0, 0, // reserved
        1, 2, 3, 4, 5, 6, 7, 8, // the actor
        0xa1, 0xb2, 0xc3, 0xd4, // the type hash
        0, 0, 0, 3, // the payload's length
        9, 8, 7,
    ];
    assert_eq!(frame, expected);
}

#[test]
fn the_payload_of_a_tell_starts_at_offset_32() {
    let payload: Vec<u8> = (0..=255u8).cycle().take(70_000).collect();
    let frame = tell_frame(ActorId::from_u64(u64::MAX), u32::MAX, &payload);
    assert_eq!(frame.len(), 70_032);
    assert_eq!(&frame[0..4], &70_028u32.to_be_bytes());
    assert_eq!(&frame[16..24], &[255u8; 8]);
    assert_eq!(&frame[28..32], &70_000u32.to_be_bytes());
    assert_eq!(&frame[32..], &payload[..]);
}

#[test]
fn an_empty_tell_is_a_header() {
    let frame = tell_frame(ActorId::from_u64(0), 0, &[]);
    assert_eq!(frame.len(), 32);
    assert_eq!(frame[3], 28);
    assert_eq!(frame[4], 3);
}

#[test]
fn tells_that_differ_have_frames_that_differ() {
    let base = tell_frame(ActorId::from_u64(1), 2, &[3]);
    assert_ne!(base, tell_frame(ActorId::from_u64(2), 2, &[3]));
    assert_ne!(base, tell_frame(ActorId::from_u64(1), 3, &[3]));
    assert_ne!(base, tell_frame(ActorId::from_u64(1), 2, &[4]));
    assert_ne!(base, tell_frame(ActorId::from_u64(1), 2, &[3, 0]));
}

#[test]
fn numbers_are_written_in_decimal() {
    assert_eq!(decimal_text(0), "0");
    assert_eq!(decimal_text(7), "7");
    assert_eq!(decimal_text(10), "10");
    assert_eq!(decimal_text(1_234_567_890), "1234567890");
    assert_eq!(decimal_text(u64::MAX), u64::MAX.to_string());
}

#[test]
fn an_actor_message_names_the_actor_in_decimal() {
    let message = actor_message(ActorId::from_u64(4071), 5, &[1, 2]);
    assert_eq!(message.actor_id, "4071");
    assert_eq!(message.type_hash, 5);
    assert_eq!(message.payload, vec![1, 2]);
    assert_eq!(message.correlation_id, None);
}

#[test]
fn a_peer_is_known_by_its_first_eight_bytes() {
    let mut bytes = [0xffu8; 32];
    bytes[..8].copy_from_slice(&[8, 7, 6, 5, 4, 3, 2, 1]);
    assert_eq!(peer_actor_id(&PeerId { bytes }).into_u64(), 0x0102_0304_0506_0708);
    assert_eq!(peer_actor_id(&PeerId { bytes: [0xff; 32] }).into_u64(), u64::MAX);
}
