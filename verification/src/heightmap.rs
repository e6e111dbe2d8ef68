//! The heightmap tag a chunk column carries: 256 column heights packed 9
//! bits each into 36 little-endian 64-bit words (cross-word spans split
//! low-then-high), wrapped in a binary tag compound with one long-array
//! entry named MOTION_BLOCKING.

use vstd::prelude::*;

use crate::arr::elems_wire;
use crate::chunk_section::pack_rec;
use crate::protocol::ProtocolWrite;

verus! {

/// A value wrapped as a binary tag blob; the encoding is the wrapped
/// value's own.
#[derive(Debug, Clone)]
pub struct Nbt<T>(pub T);

impl<T: ProtocolWrite> ProtocolWrite for Nbt<T> {
    open spec fn valid(&self) -> bool {
        self.0.valid()
    }

    open spec fn wire(&self) -> Seq<u8> {
        self.0.wire()
    }

    fn proto_len(&self) -> (n: usize) {
        self.0.proto_len()
    }

    fn proto_encode(&self, dst: &mut Vec<u8>) {
        self.0.proto_encode(dst);
    }
}

/// The tag header: an unnamed compound opening a long array of 36 words
/// named MOTION_BLOCKING.
pub open spec fn heightmap_header() -> Seq<u8> {
    seq![
        0x0au8,
        0x00u8,
        0x00u8,
        0x0cu8,
        0x00u8,
        0x0fu8,
        0x4du8,
        0x4fu8,
        0x54u8,
        0x49u8,
        0x4fu8,
        0x4eu8,
        0x5fu8,
        0x42u8,
        0x4cu8,
        0x4fu8,
        0x43u8,
        0x4bu8,
        0x49u8,
        0x4eu8,
        0x47u8,
        0x00u8,
        0x00u8,
        0x00u8,
        0x24u8,
    ]
}

/// The packed 9-bit heights: each input masked to 9 bits, 36 words.
pub open spec fn heightmap_words(heights: Seq<u16>) -> Seq<u64> {
    pack_rec(
        Seq::new(256, |i: int| (heights[i] & 0x1ff) as u16),
        256,
        9,
        Seq::new(36, |i: int| 0u64),
    )
}

/// The 256 column heights of a chunk, packed for the wire.
#[derive(Debug, Clone)]
pub struct Heightmaps {
    pub motion_blocking: Vec<i64>,
}

impl Heightmaps {
    /// 36 words, exactly.
    pub open spec fn wf(&self) -> bool {
        self.motion_blocking@.len() == 36
    }

    /// Pack 256 column heights, 9 bits each (higher bits dropped), into
    /// the 36-word array.
    pub fn from_array(array: &Vec<u16>) -> (r: Heightmaps)
        requires
            array@.len() == 256,
        ensures
            r.wf(),
            r.motion_blocking@ == Seq::new(36, |i: int| heightmap_words(array@)[i] as i64),
    {
        let ghost hs = Seq::new(256, |i: int| (array@[i] & 0x1ff) as u16);
        let ghost zeros = Seq::new(36, |i: int| 0u64);
        let mut words: Vec<u64> = Vec::new();
        let mut w: usize = 0;
        while w < 36
            invariant
                w <= 36,
                words@.len() == w,
                forall|k: int| 0 <= k < w ==> #[trigger] words@[k] == 0u64,
            decreases 36 - w,
        {
            words.push(0);
            w = w + 1;
        }
        proof {
            assert(words@ =~= zeros);
        }
        let mut i: usize = 0;
        while i < 256
            invariant
                array@.len() == 256,
                i <= 256,
                words@.len() == 36,
                hs == Seq::new(256, |k: int| (array@[k] & 0x1ff) as u16),
                words@ == pack_rec(hs, i as int, 9, Seq::new(36, |k: int| 0u64)),
            decreases 256 - i,
        {
            let v: u64 = (array[i] & 0x1ff) as u64;
            let p = i * 9;
            let wi = p / 64;
            let off = p % 64;
            proof {
                assert(wi < 36) by (nonlinear_arith)
                    requires
                        wi == p / 64 && p == i * 9 && i <= 255,
                ;
            }
            let cur = words[wi];
            words.set(wi, cur | (v << (off as u64)));
            if off + 9 > 64 {
                proof {
                    assert(wi + 1 < 36) by (nonlinear_arith)
                        requires
                            wi == p / 64 && p == i * 9 && p % 64 + 9 > 64 && i <= 255 && off == p
                                % 64,
                    ;
                }
                let cur2 = words[wi + 1];
                words.set(wi + 1, cur2 | (v >> ((64 - off) as u64)));
            }
            proof {
                assert(words@ =~= crate::chunk_section::pack_step(
                    pack_rec(hs, i as int, 9, Seq::new(36, |k: int| 0u64)),
                    i as int,
                    hs[i as int] as u64,
                    9,
                ));
            }
            i = i + 1;
        }
        let mut out: Vec<i64> = Vec::new();
        let mut j: usize = 0;
        while j < 36
            invariant
                j <= 36,
                words@.len() == 36,
                out@.len() == j,
                forall|k: int| 0 <= k < j ==> #[trigger] out@[k] == words@[k] as i64,
            decreases 36 - j,
        {
            out.push(words[j] as i64);
            j = j + 1;
        }
        let r = Heightmaps { motion_blocking: out };
        proof {
            assert(r.motion_blocking@ =~= Seq::new(
                36,
                |i: int| heightmap_words(array@)[i] as i64,
            ));
        }
        r
    }
}

impl ProtocolWrite for Heightmaps {
    open spec fn valid(&self) -> bool {
        self.wf()
    }

    open spec fn wire(&self) -> Seq<u8> {
        heightmap_header() + elems_wire(self.motion_blocking@) + seq![0x00u8]
    }

    fn proto_len(&self) -> (n: usize) {
        proof {
            lemma_longs_len(self.motion_blocking@);
        }
        25 + 8 * self.motion_blocking.len() + 1
    }

    fn proto_encode(&self, dst: &mut Vec<u8>) {
        proof {
            lemma_longs_len(self.motion_blocking@);
        }
        let header: [u8; 25] = [
            0x0a, 0x00, 0x00, 0x0c, 0x00, 0x0f, 0x4d, 0x4f, 0x54, 0x49, 0x4f, 0x4e, 0x5f, 0x42,
            0x4c, 0x4f, 0x43, 0x4b, 0x49, 0x4e, 0x47, 0x00, 0x00, 0x00, 0x24,
        ];
        crate::string::push_bytes(dst, header.as_slice());
        let ghost mid = dst@;
        proof {
            assert(mid =~= old(dst)@ + heightmap_header());
            assert(self.motion_blocking@.take(0) =~= Seq::<i64>::empty());
        }
        let mut i: usize = 0;
        while i < self.motion_blocking.len()
            invariant
                self.wf(),
                i <= 36,
                dst@ == mid + elems_wire(self.motion_blocking@.take(i as int)),
                mid.len() + elems_wire(self.motion_blocking@).len() + 1 <= usize::MAX,
                elems_wire(self.motion_blocking@).len() == 8 * 36,
            decreases 36 - i,
        {
            proof {
                let s = self.motion_blocking@;
                assert(s =~= s.take(i as int + 1) + s.skip(i as int + 1));
                crate::arr::lemma_elems_wire_cat(s.take(i as int + 1), s.skip(i as int + 1));
                crate::arr::lemma_elems_wire_snoc(s.take(i as int), s[i as int]);
                assert(s.take(i as int + 1) =~= s.take(i as int).push(s[i as int]));
                lemma_longs_len(s.take(i as int));
                lemma_longs_len(s.take(i as int + 1));
            }
            self.motion_blocking[i].proto_encode(dst);
            i = i + 1;
        }
        proof {
            assert(self.motion_blocking@.take(36) =~= self.motion_blocking@);
        }
        dst.push(0x00u8);
        assert(dst@ =~= old(dst)@ + self.wire());
    }
}

/// Long-array entries are eight bytes each.
pub proof fn lemma_longs_len(v: Seq<i64>)
    ensures
        elems_wire(v).len() == 8 * v.len(),
    decreases v.len(),
{
    if v.len() > 0 {
        lemma_longs_len(v.drop_first());
    }
}

} // verus!
