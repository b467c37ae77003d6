use arena_bot::models::GameCommand;
use arena_bot::wire::{decode_command, encode_command};

#[test]
fn rotate_round_trips() {
    let c = GameCommand::Rotate(90_000);
    let bytes = encode_command(&c);
    assert_eq!(decode_command(&bytes), Some(GameCommand::Rotate(90_000)));
}

#[test]
fn throttle_round_trips() {
    let c = GameCommand::Throttle(-50);
    let bytes = encode_command(&c);
    assert_eq!(decode_command(&bytes), Some(GameCommand::Throttle(-50)));
}

#[test]
fn fire_round_trips() {
    let c = GameCommand::Fire;
    let bytes = encode_command(&c);
    assert_eq!(decode_command(&bytes), Some(GameCommand::Fire));
}

#[test]
fn zero_payload_round_trips() {
    let c = GameCommand::Throttle(0);
    let bytes = encode_command(&c);
    assert_eq!(decode_command(&bytes), Some(GameCommand::Throttle(0)));
}

#[test]
fn encoded_frames_are_the_wire_json() {
    assert_eq!(encode_command(&GameCommand::Fire), b"{\"e\":\"fire\"}".to_vec());
    assert_eq!(
        encode_command(&GameCommand::Rotate(90_000)),
        b"{\"e\":\"rotate\",\"data\":90000}".to_vec()
    );
    assert_eq!(
        encode_command(&GameCommand::Throttle(-50)),
        b"{\"e\":\"throttle\",\"data\":-50}".to_vec()
    );
}

#[test]
fn junk_is_rejected() {
    assert_eq!(decode_command(&b"".to_vec()), None);
    assert_eq!(decode_command(&b"{\"e\":\"warp\"}".to_vec()), None);
    assert_eq!(decode_command(&b"{\"e\":\"rotate\",\"data\":}".to_vec()), None);
    assert_eq!(decode_command(&b"{\"e\":\"rotate\",\"data\":12a}".to_vec()), None);
}

#[test]
fn non_canonical_numbers_are_rejected() {
    // Leading zero, bare minus, and negative zero are not canonical.
    assert_eq!(decode_command(&b"{\"e\":\"rotate\",\"data\":007}".to_vec()), None);
    assert_eq!(decode_command(&b"{\"e\":\"throttle\",\"data\":-}".to_vec()), None);
    assert_eq!(decode_command(&b"{\"e\":\"throttle\",\"data\":-0}".to_vec()), None);
}
