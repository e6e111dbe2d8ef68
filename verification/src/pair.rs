//! The pair combinator: two wire values in sequence. Structured packet
//! bodies are field chains, so their codecs are built from nested pairs.

use vstd::prelude::*;

use crate::protocol::DecodeError;
use crate::protocol::ProtocolRead;
use crate::protocol::ProtocolWrite;
use crate::protocol::lemma_skip_skip;

verus! {

impl<A: ProtocolWrite, B: ProtocolWrite> ProtocolWrite for (A, B) {
    open spec fn valid(&self) -> bool {
        self.0.valid() && self.1.valid()
    }

    open spec fn wire(&self) -> Seq<u8> {
        self.0.wire() + self.1.wire()
    }

    fn proto_len(&self) -> (n: usize) {
        self.0.proto_len() + self.1.proto_len()
    }

    fn proto_encode(&self, dst: &mut Vec<u8>) {
        self.0.proto_encode(dst);
        self.1.proto_encode(dst);
        assert(dst@ =~= old(dst)@ + self.wire());
    }
}

impl<A: ProtocolRead, B: ProtocolRead> ProtocolRead for (A, B) {
    open spec fn dec(s: Seq<u8>) -> Result<
        ((<A as DeepView>::V, <B as DeepView>::V), int),
        DecodeError,
    > {
        match A::dec(s) {
            Err(e) => Err(e),
            Ok((a, n)) => match B::dec(s.skip(n)) {
                Err(e) => Err(e),
                Ok((b, m)) => Ok(((a, b), n + m)),
            },
        }
    }

    proof fn dec_sound(s: Seq<u8>) {
        A::dec_sound(s);
        match A::dec(s) {
            Err(_) => {},
            Ok((a, n)) => {
                B::dec_sound(s.skip(n));
            },
        }
    }

    proof fn dec_complete(v: Self, rest: Seq<u8>) {
        let wa = v.0.wire();
        let wb = v.1.wire();
        let s = v.wire() + rest;
        assert(s =~= wa + (wb + rest));
        A::dec_complete(v.0, wb + rest);
        assert(s.skip(wa.len() as int) =~= wb + rest);
        B::dec_complete(v.1, rest);
    }

    fn proto_decode(src: &[u8], pos: usize) -> (r: Result<(Self, usize), DecodeError>) {
        let ghost s = src@.skip(pos as int);
        match A::proto_decode(src, pos) {
            Err(e) => Err(e),
            Ok((a, p1)) => {
                proof {
                    lemma_skip_skip(src@, pos as int, p1 - pos);
                }
                match B::proto_decode(src, p1) {
                    Err(e) => Err(e),
                    Ok((b, p2)) => Ok(((a, b), p2)),
                }
            },
        }
    }
}

impl<A: ProtocolWrite, B: ProtocolWrite, C: ProtocolWrite> ProtocolWrite for (A, B, C) {
    open spec fn valid(&self) -> bool {
        self.0.valid() && self.1.valid() && self.2.valid()
    }

    open spec fn wire(&self) -> Seq<u8> {
        self.0.wire() + self.1.wire() + self.2.wire()
    }

    fn proto_len(&self) -> (n: usize) {
        self.0.proto_len() + self.1.proto_len() + self.2.proto_len()
    }

    fn proto_encode(&self, dst: &mut Vec<u8>) {
        self.0.proto_encode(dst);
        self.1.proto_encode(dst);
        self.2.proto_encode(dst);
        assert(dst@ =~= old(dst)@ + self.wire());
    }
}

} // verus!
