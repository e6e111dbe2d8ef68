// Packet tables: serverbound decoding, clientbound encoding, and the
// handshake / status / login scenarios.

use kareki::login::{derive_key, offline_login, set_compression};
use kareki::packet::client;
use kareki::packet::server::{
    Handshake, HandshakePacket, LoginPacket, NextState, PlayPacket, StatusPacket,
};
use kareki::packet::{read_handshake_packet, read_login_packet, read_play_packet, read_status_packet};
use kareki::protocol::{DecodeError, ProtocolRead, ProtocolWrite};
use kareki::slot::Slot;
use kareki::slp::{build_status_response, handle_slp_ping, handle_slp_status, status_json};
use kareki::var::Var;

fn encode<T: ProtocolWrite>(v: &T) -> Vec<u8> {
    let mut out = Vec::new();
    v.proto_encode(&mut out);
    out
}

#[test]
fn handshake_round_trips() {
    let h = HandshakePacket::Handshake(Handshake {
        protocol_version: Var(578),
        server_address: "localhost".to_string(),
        server_port: 25565,
        next_state: NextState::Status,
    });
    let bytes = encode(&h);
    let (p, end) = read_handshake_packet(&bytes).expect("decode");
    assert_eq!(end, bytes.len());
    let HandshakePacket::Handshake(h2) = p;
    assert_eq!(h2.protocol_version, Var(578));
    assert_eq!(h2.server_address, "localhost");
    assert_eq!(h2.server_port, 25565);
    assert!(matches!(h2.next_state, NextState::Status));
}

#[test]
fn status_request_then_ping_round_trip() {
    // id 0: empty request
    let (p, _) = read_status_packet(&[0x00]).expect("request");
    assert!(matches!(p, StatusPacket::Request(_)));
    // id 1: ping with payload
    let mut bytes = vec![0x01u8];
    bytes.extend_from_slice(&0x1122334455667788u64.to_be_bytes());
    let (p, _) = read_status_packet(&bytes).expect("ping");
    match p {
        StatusPacket::Ping(ping) => {
            let pong = handle_slp_ping(&ping);
            match pong {
                client::StatusPacket::Pong(q) => assert_eq!(q.payload, 0x1122334455667788),
                _ => panic!("expected pong"),
            }
        }
        _ => panic!("expected ping"),
    }
}

#[test]
fn status_json_reports_protocol_578() {
    // Handshake with next_state=1, then a status request, must yield a
    // document carrying the protocol number.
    let h = HandshakePacket::Handshake(Handshake {
        protocol_version: Var(578),
        server_address: "localhost".to_string(),
        server_port: 25565,
        next_state: NextState::Status,
    });
    let bytes = encode(&h);
    let (p, _) = read_handshake_packet(&bytes).expect("handshake");
    let HandshakePacket::Handshake(h2) = p;
    assert!(matches!(h2.next_state, NextState::Status));
    let (req, _) = read_status_packet(&[0x00]).expect("request");
    assert!(matches!(req, StatusPacket::Request(_)));
    let resp = build_status_response(None);
    let json = status_json(&resp);
    assert!(json.contains("\"version\":{\"protocol\":578"));
    assert!(json.contains("\"online\":126534640"));
    assert!(json.contains("\"max\":12345"));
    assert!(json.contains("\"sample\":[]"));
    let packet = handle_slp_status(&resp);
    match packet {
        client::StatusPacket::SlpResponse(sr) => assert_eq!(sr.json_response, json),
        _ => panic!("expected response"),
    }
}

#[test]
fn offline_login_is_deterministic_for_steve() {
    let s1 = offline_login("Steve".to_string());
    let s2 = offline_login("Steve".to_string());
    assert_eq!(s1.username, "Steve");
    assert_eq!(s1.uuid, "af6c5ee2-8eeb-8099-b8ce-253c50b0d8a8");
    assert_eq!(s2.uuid, s1.uuid);
    assert_eq!(s2.username, s1.username);
}

#[test]
fn login_packets_round_trip() {
    // login start: id 0, then the name
    let mut bytes = vec![0x00u8, 0x05];
    bytes.extend_from_slice(b"Steve");
    let (p, _) = read_login_packet(&bytes).expect("login start");
    match p {
        LoginPacket::LoginStart(ls) => assert_eq!(ls.name, "Steve"),
        _ => panic!("expected login start"),
    }
    // encryption response: id 1, two byte arrays
    let mut bytes = vec![0x01u8, 0x03, 1, 2, 3, 0x02, 9, 8];
    let (p, end) = read_login_packet(&bytes).expect("encryption response");
    assert_eq!(end, bytes.len());
    match p {
        LoginPacket::EncryptionResponse(er) => {
            assert_eq!(er.shared_secret, vec![1, 2, 3]);
            assert_eq!(er.verify_token, vec![9, 8]);
        }
        _ => panic!("expected encryption response"),
    }
    bytes[0] = 0x07;
    assert_eq!(read_login_packet(&bytes).unwrap_err(), DecodeError::InvalidEnum);
}

#[test]
fn derive_key_takes_first_sixteen_bytes() {
    let secret: Vec<u8> = (0u8..32).collect();
    let key = derive_key(&secret).expect("long enough");
    assert_eq!(key, (0u8..16).collect::<Vec<u8>>());
    assert!(derive_key(&vec![1u8; 15]).is_err());
}

#[test]
fn set_compression_disables_with_minus_one() {
    match set_compression(-1) {
        client::LoginPacket::SetCompression(p) => assert_eq!(p.thresshold, Var(-1)),
        _ => panic!("expected set compression"),
    }
}

#[test]
fn play_packets_decode_by_id() {
    // held item change: id 0x23, i16 slot
    let bytes = vec![0x23u8, 0x00, 0x04];
    let (p, _) = read_play_packet(&bytes).expect("held item change");
    match p {
        PlayPacket::HeldItemChange(h) => assert_eq!(h.slot, 4),
        _ => panic!("expected held item change"),
    }
    // keep alive: id 0x0f, i64
    let mut bytes = vec![0x0fu8];
    bytes.extend_from_slice(&77i64.to_be_bytes());
    let (p, _) = read_play_packet(&bytes).expect("keep alive");
    match p {
        PlayPacket::KeepAlive(k) => assert_eq!(k.id, 77),
        _ => panic!("expected keep alive"),
    }
    // an unknown id is refused
    assert_eq!(read_play_packet(&[0x7fu8]).unwrap_err(), DecodeError::InvalidEnum);
}

#[test]
fn creative_inventory_action_round_trips() {
    // slot 36, item present: bool, id varint 5, count 64, empty tag
    let bytes = vec![0x26u8, 0x00, 0x24, 0x01, 0x01, 0x05, 0x40, 0x00];
    let (p, end) = read_play_packet(&bytes).expect("creative inventory action");
    assert_eq!(end, bytes.len());
    match p {
        PlayPacket::CreativeInventoryAction(cia) => {
            assert_eq!(cia.slot, 36);
            let item = cia.clicked_item.expect("present");
            assert!(item.present);
            assert_eq!(item.item_id, Some(Var(5)));
            assert_eq!(item.item_count, Some(64));
            assert!(item.meta.is_none());
        }
        _ => panic!("expected creative inventory action"),
    }
}

#[test]
fn slot_round_trips() {
    let empty = Slot {
        present: false,
        item_id: None,
        item_count: None,
        meta: None,
    };
    let bytes = encode(&empty);
    assert_eq!(bytes, vec![0x00]);
    let full = Slot {
        present: true,
        item_id: Some(Var(9)),
        item_count: Some(3),
        meta: None,
    };
    let bytes = encode(&full);
    assert_eq!(bytes, vec![0x01, 0x09, 0x03, 0x00]);
    let (s, end) = Slot::proto_decode(&bytes, 0).expect("slot");
    assert_eq!(end, bytes.len());
    assert!(s.present);
    assert_eq!(s.item_id, Some(Var(9)));
    assert_eq!(s.item_count, Some(3));
}

#[test]
fn clientbound_packets_carry_their_ids() {
    let body = client::PlayPacket::KeepAlive(client::KeepAlive { keep_alive_id: 1 }).packet_body();
    assert_eq!(body[0], 0x21);
    let body = client::LoginPacket::LoginSuccess(client::LoginSuccess {
        uuid: "u".to_string(),
        username: "n".to_string(),
    })
    .packet_body();
    assert_eq!(body[0], 0x02);
    let body = client::StatusPacket::Pong(client::Pong { payload: 1 }).packet_body();
    assert_eq!(body[0], 0x01);
}
