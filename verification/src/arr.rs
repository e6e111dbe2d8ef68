//! Length-prefixed homogeneous arrays: a variable-length integer element
//! count, then each element's encoding in order.

use vstd::prelude::*;

use crate::protocol::DecodeError;
use crate::protocol::ProtocolRead;
use crate::protocol::ProtocolWrite;
use crate::protocol::WIRE_MAX;
use crate::protocol::lemma_concat_skip;
use crate::var::varint_dec;
use crate::var::varint_encode_raw;
use crate::var::varint_len_raw;
use crate::var::varint_wire;
use crate::var::lemma_varint_wire_len;
use crate::var::lemma_varint_dec_complete;
use crate::var::lemma_varint_dec_bound;
use crate::var::lemma_pow128_values;

verus! {

/// The concatenated encodings of a sequence of wire values.
pub open spec fn elems_wire<T: ProtocolWrite>(s: Seq<T>) -> Seq<u8>
    decreases s.len(),
{
    if s.len() == 0 {
        Seq::empty()
    } else {
        s[0].wire() + elems_wire(s.drop_first())
    }
}

/// Every element of a sequence can go on the wire.
pub open spec fn elems_valid<T: ProtocolWrite>(s: Seq<T>) -> bool {
    forall|i: int| 0 <= i < s.len() ==> (#[trigger] s[i]).valid()
}

/// Concatenation distributes over `elems_wire`.
pub proof fn lemma_elems_wire_cat<T: ProtocolWrite>(a: Seq<T>, b: Seq<T>)
    ensures
        elems_wire(a + b) == elems_wire(a) + elems_wire(b),
    decreases a.len(),
{
    if a.len() == 0 {
        assert(a + b =~= b);
        assert(elems_wire(a) + elems_wire(b) =~= elems_wire(b));
    } else {
        assert((a + b).drop_first() =~= a.drop_first() + b);
        lemma_elems_wire_cat(a.drop_first(), b);
        assert(elems_wire(a + b) =~= elems_wire(a) + elems_wire(b));
    }
}

/// Appending one element appends its encoding.
pub proof fn lemma_elems_wire_snoc<T: ProtocolWrite>(s: Seq<T>, x: T)
    ensures
        elems_wire(s.push(x)) == elems_wire(s) + x.wire(),
{
    assert(s.push(x) =~= s + seq![x]);
    lemma_elems_wire_cat(s, seq![x]);
    assert(seq![x].drop_first() =~= Seq::<T>::empty());
    assert(elems_wire(Seq::<T>::empty()) == Seq::<u8>::empty());
    assert(elems_wire(seq![x]) =~= x.wire());
    assert(elems_wire(s + seq![x]) == elems_wire(s.push(x)));
}

impl<T: ProtocolWrite> ProtocolWrite for Vec<T> {
    /// Every element is valid and the count fits the 31-bit length
    /// prefix beside its own worst-case prefix bytes.
    open spec fn valid(&self) -> bool {
        elems_valid(self@) && self@.len() <= WIRE_MAX - 5
    }

    open spec fn wire(&self) -> Seq<u8> {
        varint_wire(self@.len()) + elems_wire(self@)
    }


    fn proto_len(&self) -> (n: usize) {
        let mut total: usize = varint_len_raw(self.len() as u64);
        let ghost lp = varint_wire(self@.len());
        let mut i: usize = 0;
        proof {
            assert(self@.take(0) =~= Seq::<T>::empty());
        }
        while i < self.len()
            invariant
                0 <= i <= self@.len(),
                self.valid(),
                lp == varint_wire(self@.len()),
                total == lp.len() + elems_wire(self@.take(i as int)).len(),
                self.wire().len() <= usize::MAX,
            decreases self@.len() - i,
        {
            proof {
                assert(self@[i as int].valid());
                // the running total is a prefix of the full encoding
                assert(self@ =~= self@.take(i as int + 1) + self@.skip(i as int + 1));
                lemma_elems_wire_cat(self@.take(i as int + 1), self@.skip(i as int + 1));
                lemma_elems_wire_snoc(self@.take(i as int), self@[i as int]);
                assert(self@.take(i as int + 1) =~= self@.take(i as int).push(self@[i as int]));
            }
            let el = self[i].proto_len();
            total = total + el;
            i = i + 1;
        }
        proof {
            assert(self@.take(self@.len() as int) =~= self@);
        }
        total
    }

    fn proto_encode(&self, dst: &mut Vec<u8>) {
        varint_encode_raw(self.len() as u64, dst);
        let ghost base = old(dst)@;
        let ghost lp = varint_wire(self@.len());
        let mut i: usize = 0;
        proof {
            assert(self@.take(0) =~= Seq::<T>::empty());
            assert(dst@ =~= base + lp + elems_wire(self@.take(0)));
        }
        while i < self.len()
            invariant
                0 <= i <= self@.len(),
                self.valid(),
                lp == varint_wire(self@.len()),
                base == old(dst)@,
                base.len() + self.wire().len() <= usize::MAX,
                dst@ == base + lp + elems_wire(self@.take(i as int)),
            decreases self@.len() - i,
        {
            proof {
                assert(self@[i as int].valid());
                assert(self@ =~= self@.take(i as int + 1) + self@.skip(i as int + 1));
                lemma_elems_wire_cat(self@.take(i as int + 1), self@.skip(i as int + 1));
                lemma_elems_wire_snoc(self@.take(i as int), self@[i as int]);
                assert(self@.take(i as int + 1) =~= self@.take(i as int).push(self@[i as int]));
            }
            self[i].proto_encode(dst);
            proof {
                assert(dst@ =~= base + lp + elems_wire(self@.take(i as int + 1)));
            }
            i = i + 1;
        }
        proof {
            assert(self@.take(self@.len() as int) =~= self@);
            assert(dst@ =~= old(dst)@ + self.wire());
        }
    }
}

/// Each byte is its own one-byte encoding, so a byte array's element
/// encodings are the bytes themselves.
pub proof fn lemma_elems_wire_bytes(s: Seq<u8>)
    ensures
        elems_wire(s) == s,
    decreases s.len(),
{
    if s.len() == 0 {
        assert(elems_wire(s) =~= s);
    } else {
        lemma_elems_wire_bytes(s.drop_first());
        assert(elems_wire(s) =~= s);
    }
}

impl ProtocolRead for Vec<u8> {
    open spec fn dec(s: Seq<u8>) -> Result<(Seq<u8>, int), DecodeError> {
        match varint_dec(s, 5) {
            Err(e) => Err(e),
            Ok((lraw, n)) => {
                let l = (lraw as u32) as i32;
                if l < 0 || l > WIRE_MAX - 5 {
                    Err(DecodeError::BadLength)
                } else if s.len() < n + l {
                    Err(DecodeError::Eof)
                } else {
                    Ok((s.subrange(n, n + l), n + l))
                }
            },
        }
    }

    proof fn dec_sound(s: Seq<u8>) {
        lemma_varint_dec_bound(s, 5);
    }

    proof fn dec_complete(v: Self, rest: Seq<u8>) {
        let lp = varint_wire(v@.len());
        lemma_pow128_values();
        lemma_varint_wire_len(v@.len(), 5);
        lemma_elems_wire_bytes(v@);

        assert(v.wire() + rest =~= lp + (v@ + rest));
        lemma_varint_dec_complete(v@.len(), 5, v@ + rest);
        let s = v.wire() + rest;
        let n = lp.len() as int;
        assert((v@.len() as u32) as i32 == v@.len());
        assert(s.subrange(n, n + v@.len()) =~= v@);
        assert(v.deep_view() =~= v@);
    }

    fn proto_decode(src: &[u8], pos: usize) -> (r: Result<(Self, usize), DecodeError>) {
        let ghost s = src@.skip(pos as int);
        let slen = src.len();
        match crate::var::varint_decode_raw(src, pos, 5) {
            Err(e) => Err(e),
            Ok((lraw, n)) => {
                proof {
                    lemma_varint_dec_bound(s, 5);
                    lemma_pow128_values();
                }
                let l = (lraw as u32) as i32;
                if l < 0 || l > (WIRE_MAX - 5) as i32 {
                    Err(DecodeError::BadLength)
                } else {
                    let llen = l as usize;
                    if slen - (pos + n) < llen {
                        assert(s.len() < (n + l));
                        Err(DecodeError::Eof)
                    } else {
                        let start = pos + n;
                        let end = start + llen;
                        let bytes = crate::string::copy_range(src, start, end);
                        proof {
                            assert(bytes@ =~= s.subrange(n as int, n + l));
                            lemma_elems_wire_bytes(bytes@);
                            lemma_varint_wire_len(bytes@.len(), 5);
                            assert(bytes.deep_view() =~= bytes@);
                        }
                        Ok((bytes, end))
                    }
                }
            },
        }
    }
}

} // verus!
