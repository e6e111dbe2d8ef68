//! Fixed-width wire values: big-endian integers and the single-byte
//! boolean (0 or 1; any other byte is a decode error).

use vstd::prelude::*;

use crate::protocol::DecodeError;
use crate::protocol::ProtocolRead;
use crate::protocol::ProtocolWrite;

verus! {

/// Big-endian bytes of a 16-bit pattern.
pub open spec fn be16_wire(x: u16) -> Seq<u8> {
    seq![(x >> 8) as u8, x as u8]
}

/// The 16-bit pattern read from two big-endian bytes.
pub open spec fn be16_val(b0: u8, b1: u8) -> u16 {
    (((b0 as u16) << 8) | (b1 as u16)) as u16
}

/// Big-endian bytes of a 32-bit pattern.
pub open spec fn be32_wire(x: u32) -> Seq<u8> {
    seq![(x >> 24) as u8, (x >> 16) as u8, (x >> 8) as u8, x as u8]
}

/// The 32-bit pattern read from four big-endian bytes.
pub open spec fn be32_val(b0: u8, b1: u8, b2: u8, b3: u8) -> u32 {
    (((b0 as u32) << 24) | ((b1 as u32) << 16) | ((b2 as u32) << 8) | (b3 as u32)) as u32
}

/// Big-endian bytes of a 64-bit pattern.
pub open spec fn be64_wire(x: u64) -> Seq<u8> {
    seq![
        (x >> 56) as u8,
        (x >> 48) as u8,
        (x >> 40) as u8,
        (x >> 32) as u8,
        (x >> 24) as u8,
        (x >> 16) as u8,
        (x >> 8) as u8,
        x as u8,
    ]
}

/// The 64-bit pattern read from eight big-endian bytes.
pub open spec fn be64_val(b0: u8, b1: u8, b2: u8, b3: u8, b4: u8, b5: u8, b6: u8, b7: u8) -> u64 {
    (((b0 as u64) << 56) | ((b1 as u64) << 48) | ((b2 as u64) << 40) | ((b3 as u64) << 32) | ((
    b4 as u64) << 24) | ((b5 as u64) << 16) | ((b6 as u64) << 8) | (b7 as u64)) as u64
}

pub proof fn lemma_be16_round_trip(x: u16)
    ensures
        be16_val((x >> 8) as u8, x as u8) == x,
{
    assert((((((x >> 8) as u8) as u16) << 8) | ((x as u8) as u16)) as u16 == x) by (bit_vector);
}

pub proof fn lemma_be32_round_trip(x: u32)
    ensures
        be32_val((x >> 24) as u8, (x >> 16) as u8, (x >> 8) as u8, x as u8) == x,
{
    assert((((((x >> 24) as u8) as u32) << 24) | ((((x >> 16) as u8) as u32) << 16) | ((((x
        >> 8) as u8) as u32) << 8) | ((x as u8) as u32)) as u32 == x) by (bit_vector);
}

pub proof fn lemma_be64_round_trip(x: u64)
    ensures
        be64_val(
            (x >> 56) as u8,
            (x >> 48) as u8,
            (x >> 40) as u8,
            (x >> 32) as u8,
            (x >> 24) as u8,
            (x >> 16) as u8,
            (x >> 8) as u8,
            x as u8,
        ) == x,
{
    assert((((((x >> 56) as u8) as u64) << 56) | ((((x >> 48) as u8) as u64) << 48) | ((((x
        >> 40) as u8) as u64) << 40) | ((((x >> 32) as u8) as u64) << 32) | ((((x
        >> 24) as u8) as u64) << 24) | ((((x >> 16) as u8) as u64) << 16) | ((((x
        >> 8) as u8) as u64) << 8) | ((x as u8) as u64)) as u64 == x) by (bit_vector);
}

impl ProtocolWrite for u8 {
    open spec fn valid(&self) -> bool {
        true
    }

    open spec fn wire(&self) -> Seq<u8> {
        seq![*self]
    }


    fn proto_len(&self) -> (n: usize) {
        1
    }

    fn proto_encode(&self, dst: &mut Vec<u8>) {
        dst.push(*self);
        assert(dst@ =~= old(dst)@ + self.wire());
    }
}

impl ProtocolRead for u8 {
    open spec fn dec(s: Seq<u8>) -> Result<(Self, int), DecodeError> {
        if s.len() < 1 {
            Err(DecodeError::Eof)
        } else {
            Ok((s[0], 1))
        }
    }

    proof fn dec_sound(s: Seq<u8>) {
    }

    proof fn dec_complete(v: Self, rest: Seq<u8>) {
        assert((v.wire() + rest)[0] == v);
    }

    fn proto_decode(src: &[u8], pos: usize) -> (r: Result<(Self, usize), DecodeError>) {
        if pos >= src.len() {
            return Err(DecodeError::Eof);
        }
        assert(src@.skip(pos as int)[0] == src@[pos as int]);
        Ok((src[pos], pos + 1))
    }
}

impl ProtocolWrite for i8 {
    open spec fn valid(&self) -> bool {
        true
    }

    open spec fn wire(&self) -> Seq<u8> {
        seq![*self as u8]
    }


    fn proto_len(&self) -> (n: usize) {
        1
    }

    fn proto_encode(&self, dst: &mut Vec<u8>) {
        dst.push(*self as u8);
        assert(dst@ =~= old(dst)@ + self.wire());
    }
}

impl ProtocolRead for i8 {
    open spec fn dec(s: Seq<u8>) -> Result<(Self, int), DecodeError> {
        if s.len() < 1 {
            Err(DecodeError::Eof)
        } else {
            Ok((s[0] as i8, 1))
        }
    }

    proof fn dec_sound(s: Seq<u8>) {
    }

    proof fn dec_complete(v: Self, rest: Seq<u8>) {
        assert((v.wire() + rest)[0] == v as u8);
        let x: i8 = v;
        assert((x as u8) as i8 == x) by (bit_vector);
    }

    fn proto_decode(src: &[u8], pos: usize) -> (r: Result<(Self, usize), DecodeError>) {
        if pos >= src.len() {
            return Err(DecodeError::Eof);
        }
        assert(src@.skip(pos as int)[0] == src@[pos as int]);
        Ok((src[pos] as i8, pos + 1))
    }
}

impl ProtocolWrite for bool {
    open spec fn valid(&self) -> bool {
        true
    }

    open spec fn wire(&self) -> Seq<u8> {
        seq![if *self { 1u8 } else { 0u8 }]
    }


    fn proto_len(&self) -> (n: usize) {
        1
    }

    fn proto_encode(&self, dst: &mut Vec<u8>) {
        dst.push(if *self { 1u8 } else { 0u8 });
        assert(dst@ =~= old(dst)@ + self.wire());
    }
}

impl ProtocolRead for bool {
    open spec fn dec(s: Seq<u8>) -> Result<(Self, int), DecodeError> {
        if s.len() < 1 {
            Err(DecodeError::Eof)
        } else if s[0] == 0 {
            Ok((false, 1))
        } else if s[0] == 1 {
            Ok((true, 1))
        } else {
            Err(DecodeError::InvalidBool)
        }
    }

    proof fn dec_sound(s: Seq<u8>) {
    }

    proof fn dec_complete(v: Self, rest: Seq<u8>) {
        assert((v.wire() + rest)[0] == if v { 1u8 } else { 0u8 });
    }

    fn proto_decode(src: &[u8], pos: usize) -> (r: Result<(Self, usize), DecodeError>) {
        if pos >= src.len() {
            return Err(DecodeError::Eof);
        }
        assert(src@.skip(pos as int)[0] == src@[pos as int]);
        let b = src[pos];
        if b == 0 {
            Ok((false, pos + 1))
        } else if b == 1 {
            Ok((true, pos + 1))
        } else {
            Err(DecodeError::InvalidBool)
        }
    }
}

impl ProtocolWrite for u16 {
    open spec fn valid(&self) -> bool {
        true
    }

    open spec fn wire(&self) -> Seq<u8> {
        be16_wire(*self)
    }


    fn proto_len(&self) -> (n: usize) {
        2
    }

    fn proto_encode(&self, dst: &mut Vec<u8>) {
        let x = *self;
        dst.push((x >> 8) as u8);
        dst.push(x as u8);
        assert(dst@ =~= old(dst)@ + self.wire());
    }
}

impl ProtocolRead for u16 {
    open spec fn dec(s: Seq<u8>) -> Result<(Self, int), DecodeError> {
        if s.len() < 2 {
            Err(DecodeError::Eof)
        } else {
            Ok((be16_val(s[0], s[1]), 2))
        }
    }

    proof fn dec_sound(s: Seq<u8>) {
    }

    proof fn dec_complete(v: Self, rest: Seq<u8>) {
        let s = v.wire() + rest;
        assert(s[0] == (v >> 8) as u8 && s[1] == v as u8);
        lemma_be16_round_trip(v);
    }

    fn proto_decode(src: &[u8], pos: usize) -> (r: Result<(Self, usize), DecodeError>) {
        if src.len() < 2 || pos >= src.len() - 2 + 1 {
            proof {
                if pos < src@.len() {
                    assert(src@.skip(pos as int).len() < 2);
                }
            }
            return Err(DecodeError::Eof);
        }
        let ghost s = src@.skip(pos as int);
        assert(s[0] == src@[pos as int] && s[1] == src@[pos as int + 1]);
        let b0 = src[pos];
        let b1 = src[pos + 1];
        Ok((((b0 as u16) << 8) | (b1 as u16), pos + 2))
    }
}

impl ProtocolWrite for i16 {
    open spec fn valid(&self) -> bool {
        true
    }

    open spec fn wire(&self) -> Seq<u8> {
        be16_wire(*self as u16)
    }


    fn proto_len(&self) -> (n: usize) {
        2
    }

    fn proto_encode(&self, dst: &mut Vec<u8>) {
        let x = *self as u16;
        dst.push((x >> 8) as u8);
        dst.push(x as u8);
        assert(dst@ =~= old(dst)@ + self.wire());
    }
}

impl ProtocolRead for i16 {
    open spec fn dec(s: Seq<u8>) -> Result<(Self, int), DecodeError> {
        if s.len() < 2 {
            Err(DecodeError::Eof)
        } else {
            Ok((be16_val(s[0], s[1]) as i16, 2))
        }
    }

    proof fn dec_sound(s: Seq<u8>) {
    }

    proof fn dec_complete(v: Self, rest: Seq<u8>) {
        let s = v.wire() + rest;
        let x: i16 = v;
        assert(s[0] == ((x as u16) >> 8) as u8 && s[1] == (x as u16) as u8);
        lemma_be16_round_trip(x as u16);
        assert((x as u16) as i16 == x) by (bit_vector);
    }

    fn proto_decode(src: &[u8], pos: usize) -> (r: Result<(Self, usize), DecodeError>) {
        match u16::proto_decode(src, pos) {
            Ok((v, end)) => Ok((v as i16, end)),
            Err(e) => Err(e),
        }
    }
}

impl ProtocolWrite for u32 {
    open spec fn valid(&self) -> bool {
        true
    }

    open spec fn wire(&self) -> Seq<u8> {
        be32_wire(*self)
    }


    fn proto_len(&self) -> (n: usize) {
        4
    }

    fn proto_encode(&self, dst: &mut Vec<u8>) {
        let x = *self;
        dst.push((x >> 24) as u8);
        dst.push((x >> 16) as u8);
        dst.push((x >> 8) as u8);
        dst.push(x as u8);
        assert(dst@ =~= old(dst)@ + self.wire());
    }
}

impl ProtocolRead for u32 {
    open spec fn dec(s: Seq<u8>) -> Result<(Self, int), DecodeError> {
        if s.len() < 4 {
            Err(DecodeError::Eof)
        } else {
            Ok((be32_val(s[0], s[1], s[2], s[3]), 4))
        }
    }

    proof fn dec_sound(s: Seq<u8>) {
    }

    proof fn dec_complete(v: Self, rest: Seq<u8>) {
        let s = v.wire() + rest;
        assert(s[0] == (v >> 24) as u8 && s[1] == (v >> 16) as u8 && s[2] == (v >> 8) as u8 && s[3]
            == v as u8);
        lemma_be32_round_trip(v);
    }

    fn proto_decode(src: &[u8], pos: usize) -> (r: Result<(Self, usize), DecodeError>) {
        if src.len() < 4 || pos >= src.len() - 4 + 1 {
            proof {
                if pos < src@.len() {
                    assert(src@.skip(pos as int).len() < 4);
                }
            }
            return Err(DecodeError::Eof);
        }
        let ghost s = src@.skip(pos as int);
        assert(s[0] == src@[pos as int] && s[1] == src@[pos as int + 1] && s[2] == src@[pos as int
            + 2] && s[3] == src@[pos as int + 3]);
        let b0 = src[pos];
        let b1 = src[pos + 1];
        let b2 = src[pos + 2];
        let b3 = src[pos + 3];
        Ok((((b0 as u32) << 24) | ((b1 as u32) << 16) | ((b2 as u32) << 8) | (b3 as u32), pos + 4))
    }
}

impl ProtocolWrite for i32 {
    open spec fn valid(&self) -> bool {
        true
    }

    open spec fn wire(&self) -> Seq<u8> {
        be32_wire(*self as u32)
    }


    fn proto_len(&self) -> (n: usize) {
        4
    }

    fn proto_encode(&self, dst: &mut Vec<u8>) {
        let x = *self as u32;
        dst.push((x >> 24) as u8);
        dst.push((x >> 16) as u8);
        dst.push((x >> 8) as u8);
        dst.push(x as u8);
        assert(dst@ =~= old(dst)@ + self.wire());
    }
}

impl ProtocolRead for i32 {
    open spec fn dec(s: Seq<u8>) -> Result<(Self, int), DecodeError> {
        if s.len() < 4 {
            Err(DecodeError::Eof)
        } else {
            Ok((be32_val(s[0], s[1], s[2], s[3]) as i32, 4))
        }
    }

    proof fn dec_sound(s: Seq<u8>) {
    }

    proof fn dec_complete(v: Self, rest: Seq<u8>) {
        let s = v.wire() + rest;
        let x: i32 = v;
        assert(s[0] == ((x as u32) >> 24) as u8 && s[1] == ((x as u32) >> 16) as u8 && s[2] == ((
        x as u32) >> 8) as u8 && s[3] == (x as u32) as u8);
        lemma_be32_round_trip(x as u32);
        assert((x as u32) as i32 == x) by (bit_vector);
    }

    fn proto_decode(src: &[u8], pos: usize) -> (r: Result<(Self, usize), DecodeError>) {
        match u32::proto_decode(src, pos) {
            Ok((v, end)) => Ok((v as i32, end)),
            Err(e) => Err(e),
        }
    }
}

impl ProtocolWrite for u64 {
    open spec fn valid(&self) -> bool {
        true
    }

    open spec fn wire(&self) -> Seq<u8> {
        be64_wire(*self)
    }


    fn proto_len(&self) -> (n: usize) {
        8
    }

    fn proto_encode(&self, dst: &mut Vec<u8>) {
        let x = *self;
        dst.push((x >> 56) as u8);
        dst.push((x >> 48) as u8);
        dst.push((x >> 40) as u8);
        dst.push((x >> 32) as u8);
        dst.push((x >> 24) as u8);
        dst.push((x >> 16) as u8);
        dst.push((x >> 8) as u8);
        dst.push(x as u8);
        assert(dst@ =~= old(dst)@ + self.wire());
    }
}

impl ProtocolRead for u64 {
    open spec fn dec(s: Seq<u8>) -> Result<(Self, int), DecodeError> {
        if s.len() < 8 {
            Err(DecodeError::Eof)
        } else {
            Ok((be64_val(s[0], s[1], s[2], s[3], s[4], s[5], s[6], s[7]), 8))
        }
    }

    proof fn dec_sound(s: Seq<u8>) {
    }

    proof fn dec_complete(v: Self, rest: Seq<u8>) {
        let s = v.wire() + rest;
        assert(s[0] == (v >> 56) as u8 && s[1] == (v >> 48) as u8 && s[2] == (v >> 40) as u8 && s[3]
            == (v >> 32) as u8 && s[4] == (v >> 24) as u8 && s[5] == (v >> 16) as u8 && s[6] == (v
            >> 8) as u8 && s[7] == v as u8);
        lemma_be64_round_trip(v);
    }

    fn proto_decode(src: &[u8], pos: usize) -> (r: Result<(Self, usize), DecodeError>) {
        if src.len() < 8 || pos >= src.len() - 8 + 1 {
            proof {
                if pos < src@.len() {
                    assert(src@.skip(pos as int).len() < 8);
                }
            }
            return Err(DecodeError::Eof);
        }
        let ghost s = src@.skip(pos as int);
        assert(s[0] == src@[pos as int] && s[1] == src@[pos as int + 1] && s[2] == src@[pos as int
            + 2] && s[3] == src@[pos as int + 3] && s[4] == src@[pos as int + 4] && s[5]
            == src@[pos as int + 5] && s[6] == src@[pos as int + 6] && s[7] == src@[pos as int
            + 7]);
        let b0 = src[pos];
        let b1 = src[pos + 1];
        let b2 = src[pos + 2];
        let b3 = src[pos + 3];
        let b4 = src[pos + 4];
        let b5 = src[pos + 5];
        let b6 = src[pos + 6];
        let b7 = src[pos + 7];
        Ok((
            ((b0 as u64) << 56) | ((b1 as u64) << 48) | ((b2 as u64) << 40) | ((b3 as u64) << 32)
                | ((b4 as u64) << 24) | ((b5 as u64) << 16) | ((b6 as u64) << 8) | (b7 as u64),
            pos + 8,
        ))
    }
}

impl ProtocolWrite for i64 {
    open spec fn valid(&self) -> bool {
        true
    }

    open spec fn wire(&self) -> Seq<u8> {
        be64_wire(*self as u64)
    }


    fn proto_len(&self) -> (n: usize) {
        8
    }

    fn proto_encode(&self, dst: &mut Vec<u8>) {
        let x = *self as u64;
        dst.push((x >> 56) as u8);
        dst.push((x >> 48) as u8);
        dst.push((x >> 40) as u8);
        dst.push((x >> 32) as u8);
        dst.push((x >> 24) as u8);
        dst.push((x >> 16) as u8);
        dst.push((x >> 8) as u8);
        dst.push(x as u8);
        assert(dst@ =~= old(dst)@ + self.wire());
    }
}

impl ProtocolRead for i64 {
    open spec fn dec(s: Seq<u8>) -> Result<(Self, int), DecodeError> {
        if s.len() < 8 {
            Err(DecodeError::Eof)
        } else {
            Ok((be64_val(s[0], s[1], s[2], s[3], s[4], s[5], s[6], s[7]) as i64, 8))
        }
    }

    proof fn dec_sound(s: Seq<u8>) {
    }

    proof fn dec_complete(v: Self, rest: Seq<u8>) {
        let s = v.wire() + rest;
        let x: i64 = v;
        assert(s[0] == ((x as u64) >> 56) as u8 && s[1] == ((x as u64) >> 48) as u8 && s[2] == ((
        x as u64) >> 40) as u8 && s[3] == ((x as u64) >> 32) as u8 && s[4] == ((x as u64)
            >> 24) as u8 && s[5] == ((x as u64) >> 16) as u8 && s[6] == ((x as u64) >> 8) as u8
            && s[7] == (x as u64) as u8);
        lemma_be64_round_trip(x as u64);
        assert((x as u64) as i64 == x) by (bit_vector);
    }

    fn proto_decode(src: &[u8], pos: usize) -> (r: Result<(Self, usize), DecodeError>) {
        match u64::proto_decode(src, pos) {
            Ok((v, end)) => Ok((v as i64, end)),
            Err(e) => Err(e),
        }
    }
}

} // verus!
