//! Length-prefixed UTF-8 strings: a variable-length integer byte count,
//! then that many bytes. Invalid UTF-8 is a decode error.

use vstd::prelude::*;
use vstd::utf8::decode_utf8;
use vstd::utf8::decode_utf8_encode_utf8;
use vstd::utf8::encode_utf8;
use vstd::utf8::encode_utf8_decode_utf8;
use vstd::utf8::encode_utf8_valid_utf8;
use vstd::utf8::valid_utf8;
use vstd::string::StringSliceAdditionalSpecFns;

use crate::protocol::DecodeError;
use crate::protocol::ProtocolRead;
use crate::protocol::ProtocolWrite;
use crate::protocol::WIRE_MAX;
use crate::var::varint_dec;
use crate::var::varint_encode_raw;
use crate::var::varint_len_raw;
use crate::var::varint_wire;
use crate::var::lemma_varint_wire_len;
use crate::var::lemma_varint_dec_complete;
use crate::var::lemma_varint_dec_bound;
use crate::var::lemma_pow128_values;

verus! {

/// Relies on `String::from_utf8`: it succeeds exactly on valid UTF-8, and
/// then decodes those bytes.
#[verifier::external_body]
fn string_from_utf8(bytes: Vec<u8>) -> (r: Option<String>)
    ensures
        r is Some <==> valid_utf8(bytes@),
        r matches Some(s) ==> s@ == decode_utf8(bytes@),
{
    String::from_utf8(bytes).ok()
}

/// Append every byte of `src` to `dst`.
pub fn push_bytes(dst: &mut Vec<u8>, src: &[u8])
    requires
        old(dst)@.len() + src@.len() <= usize::MAX,
    ensures
        final(dst)@ == old(dst)@ + src@,
{
    let n = src.len();
    let mut i: usize = 0;
    while i < n
        invariant
            n == src@.len(),
            0 <= i <= n,
            dst@ == old(dst)@ + src@.take(i as int),
            old(dst)@.len() + src@.len() <= usize::MAX,
        decreases n - i,
    {
        dst.push(src[i]);
        assert(dst@ =~= old(dst)@ + src@.take(i + 1));
        i = i + 1;
    }
    assert(dst@ =~= old(dst)@ + src@);
}

/// Copy `src[from..to]` into a fresh vector.
pub fn copy_range(src: &[u8], from: usize, to: usize) -> (r: Vec<u8>)
    requires
        from <= to <= src@.len(),
    ensures
        r@ == src@.subrange(from as int, to as int),
{
    let mut out: Vec<u8> = Vec::new();
    let mut i: usize = from;
    while i < to
        invariant
            from <= i <= to <= src@.len(),
            out@ == src@.subrange(from as int, i as int),
        decreases to - i,
    {
        out.push(src[i]);
        assert(out@ =~= src@.subrange(from as int, i as int + 1));
        i = i + 1;
    }
    out
}

impl ProtocolWrite for String {
    /// The byte form must fit a frame beside its own length prefix.
    open spec fn valid(&self) -> bool {
        encode_utf8(self@).len() <= WIRE_MAX - 5
    }

    open spec fn wire(&self) -> Seq<u8> {
        varint_wire(encode_utf8(self@).len()) + encode_utf8(self@)
    }


    fn proto_len(&self) -> (n: usize) {
        let bytes = self.as_str().as_bytes();
        proof {
            lemma_pow128_values();
            lemma_varint_wire_len(encode_utf8(self@).len(), 5);
        }
        varint_len_raw(bytes.len() as u64) + bytes.len()
    }

    fn proto_encode(&self, dst: &mut Vec<u8>) {
        let bytes = self.as_str().as_bytes();
        varint_encode_raw(bytes.len() as u64, dst);
        push_bytes(dst, bytes);
        assert(dst@ =~= old(dst)@ + self.wire());
    }
}

impl ProtocolRead for String {
    open spec fn dec(s: Seq<u8>) -> Result<(Seq<char>, int), DecodeError> {
        match varint_dec(s, 5) {
            Err(e) => Err(e),
            Ok((lraw, n)) => {
                let l = (lraw as u32) as i32;
                if l < 0 || l > WIRE_MAX - 5 {
                    Err(DecodeError::BadLength)
                } else if s.len() < n + l {
                    Err(DecodeError::Eof)
                } else if !valid_utf8(s.subrange(n, n + l)) {
                    Err(DecodeError::InvalidUtf8)
                } else {
                    Ok((decode_utf8(s.subrange(n, n + l)), n + l))
                }
            },
        }
    }

    proof fn dec_sound(s: Seq<u8>) {
        lemma_varint_dec_bound(s, 5);
    }

    proof fn dec_complete(v: Self, rest: Seq<u8>) {
        let bytes = encode_utf8(v@);
        let lp = varint_wire(bytes.len());
        lemma_pow128_values();
        lemma_varint_wire_len(bytes.len(), 5);
        assert(v.wire() + rest =~= lp + (bytes + rest));
        lemma_varint_dec_complete(bytes.len(), 5, bytes + rest);
        let s = v.wire() + rest;
        let n = lp.len() as int;
        assert((bytes.len() as u32) as i32 == bytes.len());
        assert(s.subrange(n, n + bytes.len()) =~= bytes);
        encode_utf8_valid_utf8(v@);
        encode_utf8_decode_utf8(v@);
    }

    fn proto_decode(src: &[u8], pos: usize) -> (r: Result<(Self, usize), DecodeError>) {
        let ghost s = src@.skip(pos as int);
        let slen = src.len();
        match crate::var::varint_decode_raw(src, pos, 5) {
            Err(e) => Err(e),
            Ok((lraw, n)) => {
                proof {
                    lemma_varint_dec_bound(s, 5);
                    lemma_pow128_values();
                }
                let l = (lraw as u32) as i32;
                if l < 0 || l > (WIRE_MAX - 5) as i32 {
                    Err(DecodeError::BadLength)
                } else {
                    let llen = l as usize;
                    if slen - (pos + n) < llen {
                        assert(s.len() < (n + l));
                        Err(DecodeError::Eof)
                    } else {
                        let start = pos + n;
                        let end = start + llen;
                        let bytes = copy_range(src, start, end);
                        proof {
                            assert(bytes@ =~= s.subrange(n as int, n + l));
                        }
                        match string_from_utf8(bytes) {
                            Some(st) => {
                                proof {
                                    let sub = s.subrange(n as int, n + l);
                                    decode_utf8_encode_utf8(sub);
                                    assert(encode_utf8(st@) == sub);
                                }
                                Ok((st, end))
                            },
                            None => Err(DecodeError::InvalidUtf8),
                        }
                    }
                }
            },
        }
    }
}

} // verus!
