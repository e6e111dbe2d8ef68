//! Variable-length integers: 7 payload bits per byte, little-endian bit
//! order, with a continuation bit. A 32-bit value takes at most 5 bytes,
//! a 64-bit value at most 10; the decoder rejects longer runs.

use vstd::prelude::*;

use crate::protocol::DecodeError;
use crate::protocol::ProtocolRead;
use crate::protocol::ProtocolWrite;

verus! {

/// A value that travels as a variable-length integer.
#[derive(Debug, Clone, Copy, PartialEq, Eq, Structural)]
pub struct Var<T>(pub T);

impl<T: Copy> View for Var<T> {
    type V = Var<T>;

    open spec fn view(&self) -> Var<T> {
        *self
    }
}

impl<T: Copy> DeepView for Var<T> {
    type V = Var<T>;

    open spec fn deep_view(&self) -> Var<T> {
        *self
    }
}

/// The encoding of the unsigned pattern `x`: the low 7 bits of each group,
/// with the continuation bit set when more bytes follow.
pub open spec fn varint_wire(x: nat) -> Seq<u8>
    decreases x,
{
    if x < 0x80 {
        seq![x as u8]
    } else {
        seq![(0x80 + x % 0x80) as u8] + varint_wire(x / 0x80)
    }
}

/// Total decoder for a variable-length integer at the head of `s`, allowed
/// to span at most `depth` bytes: the unsigned pattern (which the caller
/// truncates to its width) and how many bytes it took.
pub open spec fn varint_dec(s: Seq<u8>, depth: nat) -> Result<(nat, int), DecodeError>
    decreases depth,
{
    if s.len() == 0 {
        Err(DecodeError::Eof)
    } else if s[0] < 0x80 {
        Ok((s[0] as nat, 1))
    } else if depth <= 1 {
        Err(DecodeError::VarIntTooBig)
    } else {
        match varint_dec(s.skip(1), (depth - 1) as nat) {
            Ok((v, n)) => Ok((((s[0] - 0x80) + 0x80 * v) as nat, n + 1)),
            Err(e) => Err(e),
        }
    }
}

/// `0x80^k`, the number of patterns that fit in `k` encoded bytes.
pub open spec fn pow128(k: nat) -> nat
    decreases k,
{
    if k == 0 {
        1
    } else {
        0x80 * pow128((k - 1) as nat)
    }
}

pub proof fn lemma_pow128_values()
    ensures
        pow128(5) == 0x8_0000_0000,
        pow128(9) == 0x8000_0000_0000_0000,
        pow128(10) == 0x40_0000_0000_0000_0000,
{
    reveal_with_fuel(pow128, 11);
}

/// `0x80^a <= 0x80^b` when `a <= b`.
pub proof fn lemma_pow128_mono(a: nat, b: nat)
    requires
        a <= b,
    ensures
        pow128(a) <= pow128(b),
    decreases b,
{
    if a < b {
        lemma_pow128_mono(a, (b - 1) as nat);
        assert(pow128(b) == 0x80 * pow128((b - 1) as nat));
    }
}

/// A pattern below `0x80^k` encodes in at most `k` bytes (and at least 1).
pub proof fn lemma_varint_wire_len(x: nat, k: nat)
    requires
        1 <= k,
        x < pow128(k),
    ensures
        1 <= varint_wire(x).len() <= k,
    decreases k,
{
    if x < 0x80 {
    } else {
        assert(pow128(k) == 0x80 * pow128((k - 1) as nat));
        assert(x / 0x80 < pow128((k - 1) as nat));
        lemma_varint_wire_len(x / 0x80, (k - 1) as nat)
    }
}

/// What decodes is bounded by `0x80^depth` and took between 1 and `depth`
/// bytes, all present in `s`.
pub proof fn lemma_varint_dec_bound(s: Seq<u8>, depth: nat)
    requires
        1 <= depth,
    ensures
        varint_dec(s, depth) matches Ok((v, n)) ==> v < pow128(depth) && 1 <= n <= depth && n
            <= s.len(),
    decreases depth,
{
    if s.len() == 0 {
    } else if s[0] < 0x80 {
        reveal_with_fuel(pow128, 2);
        assert(pow128(1) == 0x80);
        lemma_pow128_mono(1, depth);
    } else if depth <= 1 {
    } else {
        lemma_varint_dec_bound(s.skip(1), (depth - 1) as nat);
        match varint_dec(s.skip(1), (depth - 1) as nat) {
            Ok((v, n)) => {
                assert(pow128(depth) == 0x80 * pow128((depth - 1) as nat));
                assert(0x80 * v <= 0x80 * (pow128((depth - 1) as nat) - 1));
                assert((((s[0] - 0x80) + 0x80 * v) as nat) < pow128(depth));
            },
            Err(_) => {},
        }
    }
}

/// The round trip at the level of patterns: a canonical encoding followed
/// by anything decodes to the encoded pattern.
pub proof fn lemma_varint_dec_complete(x: nat, depth: nat, rest: Seq<u8>)
    requires
        varint_wire(x).len() <= depth,
    ensures
        varint_dec(varint_wire(x) + rest, depth) == Ok::<(nat, int), DecodeError>(
            (x, varint_wire(x).len() as int),
        ),
    decreases x,
{
    let s = varint_wire(x) + rest;
    if x < 0x80 {
        assert(s[0] == x as u8);
    } else {
        assert(s[0] == (0x80 + x % 0x80) as u8);
        assert(s.skip(1) =~= varint_wire(x / 0x80) + rest);
        lemma_varint_dec_complete(x / 0x80, (depth - 1) as nat, rest);
        assert((s[0] - 0x80) + 0x80 * (x / 0x80) == x);
    }
}

/// Decode a variable-length pattern from `src` at `pos`, spanning at most
/// `depth` bytes; agrees exactly with `varint_dec`.
pub fn varint_decode_raw(src: &[u8], pos: usize, depth: u8) -> (r: Result<
    (u128, usize),
    DecodeError,
>)
    requires
        pos <= src@.len(),
        1 <= depth <= 10,
    ensures
        (match r {
            Ok((v, n)) => pos + n <= src@.len() && 1 <= n && varint_dec(
                src@.skip(pos as int),
                depth as nat,
            ) == Ok::<(nat, int), DecodeError>((v as nat, n as int)),
            Err(e) => varint_dec(src@.skip(pos as int), depth as nat) == Err::<
                (nat, int),
                DecodeError,
            >(e),
        }),
    decreases depth,
{
    let ghost s = src@.skip(pos as int);
    if pos >= src.len() {
        assert(s.len() == 0);
        return Err(DecodeError::Eof);
    }
    let b = src[pos];
    assert(s[0] == b);
    if b < 0x80 {
        Ok((b as u128, 1))
    } else if depth <= 1 {
        Err(DecodeError::VarIntTooBig)
    } else {
        proof {
            crate::protocol::lemma_skip_skip(src@, pos as int, 1);
        }
        match varint_decode_raw(src, pos + 1, depth - 1) {
            Ok((v, n)) => {
                proof {
                    lemma_varint_dec_bound(s.skip(1), (depth - 1) as nat);
                    lemma_pow128_mono((depth - 1) as nat, 9);
                    lemma_pow128_values();
                }
                Ok(((b - 0x80) as u128 + 0x80 * v, n + 1))
            },
            Err(e) => Err(e),
        }
    }
}

/// Append the canonical encoding of the pattern `x` to `dst`.
pub fn varint_encode_raw(x: u64, dst: &mut Vec<u8>)
    requires
        old(dst)@.len() + varint_wire(x as nat).len() <= usize::MAX,
    ensures
        final(dst)@ == old(dst)@ + varint_wire(x as nat),
    decreases x,
{
    if x < 0x80 {
        dst.push(x as u8);
        assert(dst@ =~= old(dst)@ + varint_wire(x as nat));
    } else {
        let b: u8 = ((x as u8) & 0x7f) | 0x80;
        proof {
            assert(((x as u8) & 0x7f) | 0x80 == ((x % 0x80) + 0x80) as u8) by (bit_vector);
            assert(x >> 7 == x / 0x80) by (bit_vector);
        }
        dst.push(b);
        varint_encode_raw(x >> 7, dst);
        assert(dst@ =~= old(dst)@ + varint_wire(x as nat));
    }
}

/// Byte length of the canonical encoding of the pattern `x`.
pub fn varint_len_raw(x: u64) -> (n: usize)
    ensures
        n == varint_wire(x as nat).len(),
        1 <= n <= 10,
    decreases x,
{
    proof {
        lemma_pow128_values();
        lemma_varint_wire_len(x as nat, 10);
    }
    if x < 0x80 {
        1
    } else {
        proof {
            assert(x >> 7 == x / 0x80) by (bit_vector);
        }
        1 + varint_len_raw(x >> 7)
    }
}

impl ProtocolWrite for Var<i32> {
    open spec fn valid(&self) -> bool {
        true
    }

    open spec fn wire(&self) -> Seq<u8> {
        varint_wire((self.0 as u32) as nat)
    }


    fn proto_len(&self) -> (n: usize) {
        proof {
            lemma_pow128_values();
            lemma_varint_wire_len((self.0 as u32) as nat, 5);
        }
        varint_len_raw((self.0 as u32) as u64)
    }

    fn proto_encode(&self, dst: &mut Vec<u8>) {
        varint_encode_raw((self.0 as u32) as u64, dst);
    }
}

impl ProtocolRead for Var<i32> {
    open spec fn dec(s: Seq<u8>) -> Result<(Self, int), DecodeError> {
        match varint_dec(s, 5) {
            Ok((v, n)) => Ok((Var((v as u32) as i32), n)),
            Err(e) => Err(e),
        }
    }

    proof fn dec_sound(s: Seq<u8>) {
        lemma_varint_dec_bound(s, 5);
    }

    proof fn dec_complete(v: Self, rest: Seq<u8>) {
        lemma_pow128_values();
        lemma_varint_wire_len((v.0 as u32) as nat, 5);
        lemma_varint_dec_complete((v.0 as u32) as nat, 5, rest);
        let x: i32 = v.0;
        assert((x as u32) as i32 == x) by (bit_vector);
    }

    fn proto_decode(src: &[u8], pos: usize) -> (r: Result<(Self, usize), DecodeError>) {
        let slen = src.len();
        match varint_decode_raw(src, pos, 5) {
            Ok((v, n)) => Ok((Var((v as u32) as i32), pos + n)),
            Err(e) => Err(e),
        }
    }
}

impl ProtocolWrite for Var<i64> {
    open spec fn valid(&self) -> bool {
        true
    }

    open spec fn wire(&self) -> Seq<u8> {
        varint_wire((self.0 as u64) as nat)
    }


    fn proto_len(&self) -> (n: usize) {
        varint_len_raw(self.0 as u64)
    }

    fn proto_encode(&self, dst: &mut Vec<u8>) {
        varint_encode_raw(self.0 as u64, dst);
    }
}

impl ProtocolRead for Var<i64> {
    open spec fn dec(s: Seq<u8>) -> Result<(Self, int), DecodeError> {
        match varint_dec(s, 10) {
            Ok((v, n)) => Ok((Var((v as u64) as i64), n)),
            Err(e) => Err(e),
        }
    }

    proof fn dec_sound(s: Seq<u8>) {
        lemma_varint_dec_bound(s, 10);
    }

    proof fn dec_complete(v: Self, rest: Seq<u8>) {
        lemma_pow128_values();
        lemma_varint_wire_len((v.0 as u64) as nat, 10);
        lemma_varint_dec_complete((v.0 as u64) as nat, 10, rest);
        let x: i64 = v.0;
        assert((x as u64) as i64 == x) by (bit_vector);
    }

    fn proto_decode(src: &[u8], pos: usize) -> (r: Result<(Self, usize), DecodeError>) {
        let slen = src.len();
        match varint_decode_raw(src, pos, 10) {
            Ok((v, n)) => Ok((Var((v as u64) as i64), pos + n)),
            Err(e) => Err(e),
        }
    }
}

} // verus!
