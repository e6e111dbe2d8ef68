//! Optional wire values on the encode side: presence is implied by
//! context (a flag the receiver already read, or position at the end of
//! a packet); an absent value writes nothing. No generic decode exists —
//! the protocol gives optional fields no uniform presence marker, so
//! each packet that reads one states its own rule.

use vstd::prelude::*;

use crate::protocol::ProtocolWrite;

verus! {

impl<T: ProtocolWrite> ProtocolWrite for Option<T> {
    open spec fn valid(&self) -> bool {
        match self {
            Some(v) => v.valid(),
            None => true,
        }
    }

    open spec fn wire(&self) -> Seq<u8> {
        match self {
            Some(v) => v.wire(),
            None => Seq::empty(),
        }
    }

    fn proto_len(&self) -> (n: usize) {
        match self {
            Some(v) => v.proto_len(),
            None => 0,
        }
    }

    fn proto_encode(&self, dst: &mut Vec<u8>) {
        match self {
            Some(v) => v.proto_encode(dst),
            None => {
                assert(dst@ =~= old(dst)@ + self.wire());
            },
        }
    }
}

} // verus!
