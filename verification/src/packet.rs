//! Typed packets, one closed enum per protocol phase and direction, with
//! an explicit id table: serverbound packets decode from a frame body,
//! clientbound packets encode into one.

use vstd::prelude::*;

use crate::protocol::DecodeError;
use crate::protocol::ProtocolRead;
use crate::protocol::ProtocolWrite;

pub mod client;
pub mod server;

verus! {

/// Read the handshake-phase packet at the head of `src`.
pub fn read_handshake_packet(src: &[u8]) -> (r: Result<
    (server::HandshakePacket, usize),
    DecodeError,
>)
    ensures
        (match r {
            Ok((p, end)) => end <= src@.len() && p.valid() && server::HandshakePacket::dec(src@)
                == Ok::<(server::HandshakePacketView, int), DecodeError>((p.deep_view(), end as int)),
            Err(e) => server::HandshakePacket::dec(src@) == Err::<
                (server::HandshakePacketView, int),
                DecodeError,
            >(e),
        }),
{
    proof {
        assert(src@.skip(0) =~= src@);
    }
    server::HandshakePacket::proto_decode(src, 0)
}

/// Read the status-phase packet at the head of `src`.
pub fn read_status_packet(src: &[u8]) -> (r: Result<(server::StatusPacket, usize), DecodeError>)
    ensures
        (match r {
            Ok((p, end)) => end <= src@.len() && p.valid() && server::StatusPacket::dec(src@)
                == Ok::<(server::StatusPacket, int), DecodeError>((p.deep_view(), end as int)),
            Err(e) => server::StatusPacket::dec(src@) == Err::<
                (server::StatusPacket, int),
                DecodeError,
            >(e),
        }),
{
    proof {
        assert(src@.skip(0) =~= src@);
    }
    server::StatusPacket::proto_decode(src, 0)
}

/// Read the login-phase packet at the head of `src`.
pub fn read_login_packet(src: &[u8]) -> (r: Result<(server::LoginPacket, usize), DecodeError>)
    ensures
        (match r {
            Ok((p, end)) => end <= src@.len() && p.valid() && server::LoginPacket::dec(src@)
                == Ok::<(server::LoginPacketView, int), DecodeError>((p.deep_view(), end as int)),
            Err(e) => server::LoginPacket::dec(src@) == Err::<
                (server::LoginPacketView, int),
                DecodeError,
            >(e),
        }),
{
    proof {
        assert(src@.skip(0) =~= src@);
    }
    server::LoginPacket::proto_decode(src, 0)
}


/// Read the play-phase packet at the head of `src`.
pub fn read_play_packet(src: &[u8]) -> (r: Result<(server::PlayPacket, usize), DecodeError>)
    ensures
        (match r {
            Ok((p, end)) => end <= src@.len() && p.valid() && server::PlayPacket::dec(src@)
                == Ok::<(server::PlayPacketView, int), DecodeError>((p.deep_view(), end as int)),
            Err(e) => server::PlayPacket::dec(src@) == Err::<
                (server::PlayPacketView, int),
                DecodeError,
            >(e),
        }),
{
    proof {
        assert(src@.skip(0) =~= src@);
    }
    server::PlayPacket::proto_decode(src, 0)
}

} // verus!
