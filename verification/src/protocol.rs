//! The core of the wire codec: every type that can stand in a packet body
//! implements `ProtocolWrite` (an exact byte encoding, stated as a spec
//! function) and, when the server also reads it, `ProtocolRead` (a total
//! decode function over byte sequences, proved sound and proved to invert
//! the encoding).

use vstd::prelude::*;

verus! {

/// Why a decode failed. `Eof` means the input ended before the value did:
/// at the framing layer that is "need more data", everywhere else it is
/// a malformed packet.
#[derive(Debug, Clone, Copy, PartialEq, Eq, Structural)]
pub enum DecodeError {
    /// The input ended before the value was complete.
    Eof,
    /// A variable-length integer ran past its maximum encoded length.
    VarIntTooBig,
    /// A boolean byte other than 0 or 1.
    InvalidBool,
    /// String bytes that are not valid UTF-8.
    InvalidUtf8,
    /// A discriminant (packet id, enum tag) outside its table.
    InvalidEnum,
    /// A length prefix that is negative or does not fit in memory.
    BadLength,
    /// A compressed body that does not inflate.
    BadCompression,
}

/// Every encodable wire value: `wire` is the exact byte sequence the value
/// puts on the wire, `valid` says which values may be encoded at all.
pub trait ProtocolWrite: Sized {
    /// Which values can be put on the wire.
    spec fn valid(&self) -> bool;

    /// The exact byte encoding of `self`.
    spec fn wire(&self) -> Seq<u8>;

    /// Byte length of the encoding, used by framing.
    fn proto_len(&self) -> (n: usize)
        requires
            self.valid(),
            self.wire().len() <= usize::MAX,
        ensures
            n == self.wire().len(),
    ;

    /// Append the encoding of `self` to `dst`.
    fn proto_encode(&self, dst: &mut Vec<u8>)
        requires
            self.valid(),
            old(dst)@.len() + self.wire().len() <= usize::MAX,
        ensures
            final(dst)@ == old(dst)@ + self.wire(),
    ;
}

/// The largest frame body the protocol can carry: lengths travel as 31-bit
/// non-negative integers.
pub const WIRE_MAX: usize = 0x7fff_ffff;

/// Every decodable wire value. `dec` is a total spec-level decoder from the
/// head of a byte sequence into the value's mathematical model (its deep
/// view); the two proof obligations tie it to the encoder: whatever decodes
/// took a sensible number of bytes, and every valid value decodes back from
/// its own encoding, whatever follows it.
pub trait ProtocolRead: ProtocolWrite + DeepView {
    /// Decode a value from the head of `s`: its model and how many bytes
    /// of `s` it occupied.
    spec fn dec(s: Seq<u8>) -> Result<(<Self as DeepView>::V, int), DecodeError>;

    /// Whatever decodes consumed between 0 and `s.len()` bytes.
    proof fn dec_sound(s: Seq<u8>)
        ensures
            Self::dec(s) matches Ok((v, n)) ==> 0 <= n <= s.len(),
    ;

    /// The round trip: decoding the encoding of a valid value yields that
    /// value's model, whatever bytes follow it.
    proof fn dec_complete(v: Self, rest: Seq<u8>)
        requires
            v.valid(),
        ensures
            Self::dec(v.wire() + rest) == Ok::<(<Self as DeepView>::V, int), DecodeError>(
                (v.deep_view(), v.wire().len() as int),
            ),
    ;

    /// Decode from `src` starting at `pos`; agrees exactly with `dec`, and
    /// what comes back is valid, so it can be re-encoded.
    fn proto_decode(src: &[u8], pos: usize) -> (r: Result<(Self, usize), DecodeError>)
        requires
            pos <= src@.len(),
        ensures
            (match r {
                Ok((v, end)) => pos <= end <= src@.len() && v.valid() && Self::dec(
                    src@.skip(pos as int),
                ) == Ok::<(<Self as DeepView>::V, int), DecodeError>((v.deep_view(), end - pos)),
                Err(e) => Self::dec(src@.skip(pos as int)) == Err::<
                    (<Self as DeepView>::V, int),
                    DecodeError,
                >(e),
            }),
    ;
}

/// Skipping `a` then `b` bytes is skipping `a + b` at once.
pub proof fn lemma_skip_skip(s: Seq<u8>, a: int, b: int)
    requires
        0 <= a,
        0 <= b,
        a + b <= s.len(),
    ensures
        s.skip(a).skip(b) == s.skip(a + b),
{
    assert(s.skip(a).skip(b) =~= s.skip(a + b));
}

/// The head of a concatenation is the head of the first part, as long as
/// the first part is long enough.
pub proof fn lemma_concat_skip(a: Seq<u8>, b: Seq<u8>, n: int)
    requires
        0 <= n <= a.len(),
    ensures
        (a + b).skip(n) == a.skip(n) + b,
{
    assert((a + b).skip(n) =~= a.skip(n) + b);
}

} // verus!
