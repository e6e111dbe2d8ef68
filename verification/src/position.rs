//! Block positions, packed into one 64-bit word: 26 bits of x, 26 bits
//! of z, 12 bits of y.

use vstd::prelude::*;

use crate::primitive::be64_val;
use crate::primitive::be64_wire;
use crate::primitive::lemma_be64_round_trip;
use crate::protocol::DecodeError;
use crate::protocol::ProtocolRead;
use crate::protocol::ProtocolWrite;

verus! {

#[derive(Debug, Clone, Copy, PartialEq, Eq, Structural)]
pub struct Position {
    pub x: i32,
    pub y: i16,
    pub z: i32,
}

impl View for Position {
    type V = Position;

    open spec fn view(&self) -> Position {
        *self
    }
}

impl DeepView for Position {
    type V = Position;

    open spec fn deep_view(&self) -> Position {
        *self
    }
}

/// The packed 64-bit form of a position.
pub open spec fn position_pack(x: i32, y: i16, z: i32) -> u64 {
    ((((x as u64) & 0x3ff_ffff) << 38) | (((z as u64) & 0x3ff_ffff) << 12) | ((y as u64)
        & 0xfff)) as u64
}

/// x recovered from the packed form: the top 26 bits, sign-extended.
pub open spec fn position_unpack_x(d: u64) -> i32 {
    (((d as i64) >> 38) as i32)
}

/// z recovered from the packed form: the middle 26 bits, sign-extended.
pub open spec fn position_unpack_z(d: u64) -> i32 {
    ((((d as i64) << 26) >> 38) as i32)
}

/// y recovered from the packed form: the low 12 bits, unsigned.
pub open spec fn position_unpack_y(d: u64) -> i16 {
    ((d & 0xfff) as i16)
}

impl Position {
    /// One step in the named direction; the argument is the face index
    /// (0 bottom, 1 top, 2 north, 3 south, 4 west, 5 east).
    pub fn offset(self, face: crate::packet::server::BlockFace) -> (r: Position)
        requires
            -0x8000_0000 < self.x - 1,
            self.x + 1 < 0x8000_0000,
            -0x8000 < self.y - 1,
            self.y + 1 < 0x8000,
            -0x8000_0000 < self.z - 1,
            self.z + 1 < 0x8000_0000,
        ensures
            (r.x as int, r.y as int, r.z as int) == match face {
                crate::packet::server::BlockFace::Bottom => (
                    self.x as int,
                    self.y - 1,
                    self.z as int,
                ),
                crate::packet::server::BlockFace::Top => (
                    self.x as int,
                    self.y + 1,
                    self.z as int,
                ),
                crate::packet::server::BlockFace::North => (
                    self.x as int,
                    self.y as int,
                    self.z - 1,
                ),
                crate::packet::server::BlockFace::South => (
                    self.x as int,
                    self.y as int,
                    self.z + 1,
                ),
                crate::packet::server::BlockFace::West => (
                    self.x - 1,
                    self.y as int,
                    self.z as int,
                ),
                crate::packet::server::BlockFace::East => (
                    self.x + 1,
                    self.y as int,
                    self.z as int,
                ),
            },
    {
        let Position { x, y, z } = self;
        match face {
            crate::packet::server::BlockFace::Bottom => Position { x, y: y - 1, z },
            crate::packet::server::BlockFace::Top => Position { x, y: y + 1, z },
            crate::packet::server::BlockFace::North => Position { x, y, z: z - 1 },
            crate::packet::server::BlockFace::South => Position { x, y, z: z + 1 },
            crate::packet::server::BlockFace::West => Position { x: x - 1, y, z },
            crate::packet::server::BlockFace::East => Position { x: x + 1, y, z },
        }
    }
}

impl ProtocolWrite for Position {
    /// x and z fit their signed 26-bit fields; y its unsigned 12-bit
    /// field. The decoder reads y unsigned, so only non-negative y
    /// round-trips, and a negative y cannot be encoded here.
    open spec fn valid(&self) -> bool {
        -0x200_0000 <= self.x < 0x200_0000 && -0x200_0000 <= self.z < 0x200_0000 && 0 <= self.y
            < 0x1000
    }

    open spec fn wire(&self) -> Seq<u8> {
        be64_wire(position_pack(self.x, self.y, self.z))
    }


    fn proto_len(&self) -> (n: usize) {
        8
    }

    fn proto_encode(&self, dst: &mut Vec<u8>) {
        let d: u64 = (((self.x as u64) & 0x3ff_ffff) << 38) | (((self.z as u64) & 0x3ff_ffff)
            << 12) | ((self.y as u64) & 0xfff);
        d.proto_encode(dst);
    }
}

impl ProtocolRead for Position {
    open spec fn dec(s: Seq<u8>) -> Result<(Position, int), DecodeError> {
        if s.len() < 8 {
            Err(DecodeError::Eof)
        } else {
            let d = be64_val(s[0], s[1], s[2], s[3], s[4], s[5], s[6], s[7]);
            Ok(
                (
                    Position {
                        x: position_unpack_x(d),
                        y: position_unpack_y(d),
                        z: position_unpack_z(d),
                    },
                    8,
                ),
            )
        }
    }

    proof fn dec_sound(s: Seq<u8>) {
    }

    proof fn dec_complete(v: Self, rest: Seq<u8>) {
        let x = v.x;
        let y = v.y;
        let z = v.z;
        let d = position_pack(x, y, z);
        let s = v.wire() + rest;
        assert(s[0] == (d >> 56) as u8 && s[1] == (d >> 48) as u8 && s[2] == (d >> 40) as u8 && s[3]
            == (d >> 32) as u8 && s[4] == (d >> 24) as u8 && s[5] == (d >> 16) as u8 && s[6] == (d
            >> 8) as u8 && s[7] == d as u8);
        lemma_be64_round_trip(d);
        lemma_position_round_trip(x, y, z);
    }

    fn proto_decode(src: &[u8], pos: usize) -> (r: Result<(Self, usize), DecodeError>) {
        match u64::proto_decode(src, pos) {
            Err(e) => Err(e),
            Ok((d, end)) => {
                let x = ((d as i64) >> 38) as i32;
                let z = (((d as i64) << 26) >> 38) as i32;
                let y = (d & 0xfff) as i16;
                proof {
                    lemma_position_unpack_range(d);
                }
                Ok((Position { x, y, z }, end))
            },
        }
    }
}

/// Unpacking the packed form of a valid position gives back its fields.
pub proof fn lemma_position_round_trip(x: i32, y: i16, z: i32)
    requires
        -0x200_0000 <= x < 0x200_0000,
        -0x200_0000 <= z < 0x200_0000,
        0 <= y < 0x1000,
    ensures
        position_unpack_x(position_pack(x, y, z)) == x,
        position_unpack_y(position_pack(x, y, z)) == y,
        position_unpack_z(position_pack(x, y, z)) == z,
{
    assert({
        let d = ((((x as u64) & 0x3ff_ffff) << 38) | (((z as u64) & 0x3ff_ffff) << 12) | ((y as u64)
            & 0xfff)) as u64;
        ((d as i64) >> 38) as i32 == x && (((d as i64) << 26) >> 38) as i32 == z && (d
            & 0xfff) as i16 == y
    }) by (bit_vector)
        requires
            -0x200_0000 <= x < 0x200_0000,
            -0x200_0000 <= z < 0x200_0000,
            0 <= y < 0x1000,
    ;
}

/// Whatever 64-bit word arrives, the unpacked fields lie in the valid
/// ranges, so a decoded position can be re-encoded.
pub proof fn lemma_position_unpack_range(d: u64)
    ensures
        -0x200_0000 <= position_unpack_x(d) < 0x200_0000,
        -0x200_0000 <= position_unpack_z(d) < 0x200_0000,
        0 <= position_unpack_y(d) < 0x1000,
{
    assert({
        &&& -0x200_0000 <= (((d as i64) >> 38) as i32) < 0x200_0000
        &&& -0x200_0000 <= ((((d as i64) << 26) >> 38) as i32) < 0x200_0000
        &&& 0 <= ((d & 0xfff) as i16) < 0x1000
    }) by (bit_vector);
}

} // verus!
