// Round trips and boundary values for the primitive wire codec.

use kareki::packet::server::{BlockFace, BlockFaceU8, DiggingStatus, NextState};
use kareki::position::Position;
use kareki::protocol::{DecodeError, ProtocolRead, ProtocolWrite};
use kareki::var::Var;

fn encode<T: ProtocolWrite>(v: &T) -> Vec<u8> {
    let mut out = Vec::new();
    v.proto_encode(&mut out);
    assert_eq!(out.len(), v.proto_len());
    out
}

fn round_trip<T: ProtocolWrite + ProtocolRead + PartialEq + std::fmt::Debug>(v: T) {
    let bytes = encode(&v);
    let (w, end) = T::proto_decode(&bytes, 0).expect("decode");
    assert_eq!(end, bytes.len());
    assert_eq!(w, v);
    // trailing bytes must not disturb the decode
    let mut with_rest = bytes.clone();
    with_rest.extend_from_slice(&[0xaa, 0xbb]);
    let (w2, end2) = T::proto_decode(&with_rest, 0).expect("decode with rest");
    assert_eq!(end2, bytes.len());
    assert_eq!(w2, v);
}

#[test]
fn varint_zero_is_one_zero_byte() {
    assert_eq!(encode(&Var(0i32)), vec![0x00]);
}

#[test]
fn varint_minus_one_is_five_bytes() {
    let bytes = encode(&Var(-1i32));
    assert_eq!(bytes, vec![0xff, 0xff, 0xff, 0xff, 0x0f]);
    for b in &bytes[..4] {
        assert_ne!(b & 0x80, 0);
    }
    assert_eq!(bytes[4] & 0x80, 0);
}

#[test]
fn varint_round_trips() {
    for v in [0i32, 1, 2, 127, 128, 255, 2097151, i32::MAX, -1, i32::MIN, 578, 25565] {
        round_trip(Var(v));
    }
}

#[test]
fn varlong_round_trips() {
    for v in [0i64, 1, 127, 128, i64::MAX, -1, i64::MIN] {
        round_trip(Var(v));
    }
}

#[test]
fn varint_too_big_is_rejected() {
    let bytes = vec![0xffu8, 0xff, 0xff, 0xff, 0xff, 0x7f];
    assert_eq!(
        <Var<i32>>::proto_decode(&bytes, 0),
        Err(DecodeError::VarIntTooBig)
    );
}

#[test]
fn varint_short_read_is_eof() {
    let bytes = vec![0x80u8, 0x80];
    assert_eq!(<Var<i32>>::proto_decode(&bytes, 0), Err(DecodeError::Eof));
}

#[test]
fn fixed_width_round_trips() {
    round_trip(0u8);
    round_trip(255u8);
    round_trip(-128i8);
    round_trip(0xabcdu16);
    round_trip(-12345i16);
    round_trip(0xdeadbeefu32);
    round_trip(i32::MIN);
    round_trip(0xdead_beef_dead_beefu64);
    round_trip(i64::MIN);
    round_trip(true);
    round_trip(false);
}

#[test]
fn u16_is_big_endian() {
    assert_eq!(encode(&0x0102u16), vec![0x01, 0x02]);
    assert_eq!(encode(&0x01020304u32), vec![0x01, 0x02, 0x03, 0x04]);
}

#[test]
fn bool_rejects_other_bytes() {
    assert_eq!(bool::proto_decode(&[2u8], 0), Err(DecodeError::InvalidBool));
    assert_eq!(bool::proto_decode(&[0xffu8], 0), Err(DecodeError::InvalidBool));
}

#[test]
fn string_round_trips() {
    for s in ["", "Steve", "this made by naari3 @naari_", "\u{3042}\u{3044}\u{3046}"] {
        round_trip(s.to_string());
    }
}

#[test]
fn string_rejects_invalid_utf8() {
    // length 2, then an invalid continuation pair
    let bytes = vec![0x02u8, 0xc3, 0x28];
    assert_eq!(
        String::proto_decode(&bytes, 0),
        Err(DecodeError::InvalidUtf8)
    );
}

#[test]
fn byte_array_round_trips() {
    round_trip(Vec::<u8>::new());
    round_trip(vec![1u8, 2, 3, 0xff]);
    round_trip(vec![0u8; 300]);
}

#[test]
fn position_round_trips() {
    for (x, y, z) in [
        (0i32, 0i16, 0i32),
        (1, 64, -1),
        (0x1ffffff, 0xfff, -0x2000000),
        (-42, 255, 1337),
    ] {
        round_trip(Position { x, y, z });
    }
}

#[test]
fn position_matches_packed_layout() {
    let p = Position { x: 1, y: 2, z: 3 };
    let bytes = encode(&p);
    let word = u64::from_be_bytes(bytes.try_into().unwrap());
    assert_eq!(word, (1u64 << 38) | (3u64 << 12) | 2u64);
}

#[test]
fn enum_fields_round_trip() {
    round_trip(NextState::Status);
    round_trip(NextState::Login);
    for f in [
        BlockFace::Bottom,
        BlockFace::Top,
        BlockFace::North,
        BlockFace::South,
        BlockFace::West,
        BlockFace::East,
    ] {
        round_trip(f);
    }
    round_trip(BlockFaceU8::East);
    round_trip(DiggingStatus::StartedDigging);
    round_trip(DiggingStatus::SwapItemInHand);
}

#[test]
fn next_state_rejects_other_ids() {
    assert_eq!(NextState::proto_decode(&[3u8], 0), Err(DecodeError::InvalidEnum));
    assert_eq!(NextState::proto_decode(&[0u8], 0), Err(DecodeError::InvalidEnum));
}
