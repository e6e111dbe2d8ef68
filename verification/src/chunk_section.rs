//! A chunk section: a 16x16x16 grid of block ids, serialized as a
//! non-air count, a bit width, a sorted palette of the distinct ids, and
//! the palette indices packed into 64-bit little-endian words at that
//! bit width. An index whose bit span crosses a word boundary is split:
//! low bits at the top of one word, the remaining high bits at the bottom
//! of the next.

use vstd::prelude::*;

use crate::arr::elems_wire;
use crate::primitive::be16_wire;
use crate::protocol::DecodeError;
use crate::protocol::ProtocolWrite;
use crate::var::Var;
use crate::var::varint_wire;

verus! {

/// `2^k`.
pub open spec fn pow2(k: nat) -> nat
    decreases k,
{
    if k == 0 {
        1
    } else {
        2 * pow2((k - 1) as nat)
    }
}

/// `b` is the bit width a palette of `n` entries gets: at least 4, and
/// otherwise the smallest width whose range covers `n`.
pub open spec fn is_bits_per_block(n: nat, b: nat) -> bool {
    4 <= b && n <= pow2(b) && (b == 4 || pow2((b - 1) as nat) < n)
}

/// A strictly increasing id sequence (sorted, and so duplicate-free).
pub open spec fn palette_sorted(p: Seq<Var<i32>>) -> bool {
    forall|i: int, j: int| 0 <= i < j < p.len() ==> (#[trigger] p[i]).0 < (#[trigger] p[j]).0
}

/// Every id of the grid appears in the palette.
pub open spec fn palette_covers(p: Seq<Var<i32>>, grid: Seq<u16>) -> bool {
    forall|i: int|
        0 <= i < grid.len() ==> exists|j: int|
            0 <= j < p.len() && (#[trigger] p[j]).0 == (#[trigger] grid[i]) as i32
}

/// Every palette entry is air or appears in the grid.
pub open spec fn palette_tight(p: Seq<Var<i32>>, grid: Seq<u16>) -> bool {
    forall|j: int|
        0 <= j < p.len() ==> (#[trigger] p[j]).0 == 0 || exists|i: int|
            0 <= i < grid.len() && (#[trigger] grid[i]) as i32 == p[j].0
}

/// The position of `id` in the palette.
pub open spec fn palette_index_spec(p: Seq<Var<i32>>, id: u16) -> int {
    choose|j: int| 0 <= j < p.len() && (#[trigger] p[j]).0 == id as i32
}

/// The number of non-air cells in a grid prefix.
pub open spec fn count_nonzero(s: Seq<u16>) -> nat
    decreases s.len(),
{
    if s.len() == 0 {
        0
    } else {
        count_nonzero(s.drop_last()) + if s.last() != 0 {
            1nat
        } else {
            0nat
        }
    }
}

/// Write the `b`-bit value `v` at cell `i` of the packed words: the low
/// bits go into the word holding bit `i*b`; whatever does not fit goes
/// into the low end of the next word.
pub open spec fn pack_step(words: Seq<u64>, i: int, v: u64, b: nat) -> Seq<u64> {
    let p = i * b;
    let w = p / 64;
    let off = p % 64;
    let w1 = words.update(w, words[w] | (v << off));
    if off + b > 64 {
        w1.update(w + 1, w1[w + 1] | (v >> (64 - off)))
    } else {
        w1
    }
}

/// The first `k` cells of `idx` packed at width `b` into initially-zero
/// words.
pub open spec fn pack_rec(idx: Seq<u16>, k: int, b: nat, words: Seq<u64>) -> Seq<u64>
    decreases k,
{
    if k <= 0 {
        words
    } else {
        pack_step(pack_rec(idx, k - 1, b, words), k - 1, idx[k - 1] as u64, b)
    }
}

/// The packed form of a full 4096-cell index grid at width `b`:
/// `64 * b` words.
pub open spec fn packed_words(idx: Seq<u16>, b: nat) -> Seq<u64> {
    pack_rec(idx, 4096, b, Seq::new(64 * b, |i: int| 0u64))
}

/// The `b`-bit value at cell `i` of the packed words, reading the split
/// the same way the packer wrote it.
pub open spec fn unpack_get(words: Seq<u64>, i: int, b: nat) -> u64 {
    let p = i * b;
    let w = p / 64;
    let off = p % 64;
    let mask = ((1u64 << b) - 1) as u64;
    if off + b > 64 {
        ((words[w] >> off) | (words[w + 1] << (64 - off))) & mask
    } else {
        (words[w] >> off) & mask
    }
}

/// A 16x16x16 grid of 16-bit block ids, id 0 meaning air.
#[derive(Debug, Clone)]
pub struct ChunkSection {
    data: Vec<u16>,
}

impl View for ChunkSection {
    type V = Seq<u16>;

    closed spec fn view(&self) -> Seq<u16> {
        self.data@
    }
}

impl ChunkSection {
    /// The grid always holds exactly 4096 cells.
    pub open spec fn wf(&self) -> bool {
        self@.len() == 4096
    }

    /// The cell a coordinate triple addresses.
    pub open spec fn index_spec(x: int, y: int, z: int) -> int {
        y * 256 + z * 16 + x
    }

    /// An all-air section.
    pub fn empty() -> (r: ChunkSection)
        ensures
            r.wf(),
            forall|i: int| 0 <= i < 4096 ==> #[trigger] r@[i] == 0,
    {
        let mut data: Vec<u16> = Vec::new();
        let mut i: usize = 0;
        while i < 4096
            invariant
                i <= 4096,
                data@.len() == i,
                forall|j: int| 0 <= j < i ==> #[trigger] data@[j] == 0,
            decreases 4096 - i,
        {
            data.push(0);
            i = i + 1;
        }
        ChunkSection { data }
    }

    /// The id at a coordinate, or nothing outside the grid.
    pub fn get_block(&self, x: usize, y: usize, z: usize) -> (r: Option<u16>)
        requires
            self.wf(),
        ensures
            (match r {
                Some(id) => x < 16 && y < 16 && z < 16 && id == self@[Self::index_spec(
                    x as int,
                    y as int,
                    z as int,
                )],
                None => x >= 16 || y >= 16 || z >= 16,
            }),
    {
        if x >= 16 || y >= 16 || z >= 16 {
            None
        } else {
            Some(self.data[y * 256 + z * 16 + x])
        }
    }

    /// Set the id at a coordinate; outside the grid nothing changes and
    /// an error comes back.
    pub fn set_block(&mut self, x: usize, y: usize, z: usize, block_id: u16) -> (r: Result<
        (),
        DecodeError,
    >)
        requires
            old(self).wf(),
        ensures
            final(self).wf(),
            (match r {
                Ok(()) => x < 16 && y < 16 && z < 16 && final(self)@ == old(self)@.update(
                    Self::index_spec(x as int, y as int, z as int),
                    block_id,
                ),
                Err(_) => (x >= 16 || y >= 16 || z >= 16) && final(self)@ == old(self)@,
            }),
    {
        if x >= 16 || y >= 16 || z >= 16 {
            Err(DecodeError::BadLength)
        } else {
            self.data.set(y * 256 + z * 16 + x, block_id);
            Ok(())
        }
    }

    /// The palette of this grid: all distinct ids present, sorted
    /// ascending, with air always included.
    #[verifier::rlimit(100)]
    #[verifier::spinoff_prover]
    pub fn make_palette(&self) -> (p: Vec<Var<i32>>)
        requires
            self.wf(),
        ensures
            palette_sorted(p@),
            palette_covers(p@, self@),
            palette_tight(p@, self@),
            exists|j: int| 0 <= j < p@.len() && (#[trigger] p@[j]).0 == 0,
            1 <= p@.len() <= 4097,
    {
        let mut p: Vec<Var<i32>> = Vec::new();
        p.push(Var(0i32));
        let mut i: usize = 0;
        while i < 4096
            invariant
                self.wf(),
                i <= 4096,
                1 <= p@.len() <= 1 + i,
                palette_sorted(p@),
                p@[0].0 == 0,
                palette_covers(p@, self@.take(i as int)),
                palette_tight(p@, self@),
            decreases 4096 - i,
        {
            let id = self.data[i];
            let idv: i32 = id as i32;
            let mut j: usize = 0;
            let n = p.len();
            let ghost p0 = p@;
            // find the insertion point, or the id itself
            while j < n && p[j].0 < idv
                invariant
                    n == p@.len(),
                    j <= n,
                    p@ == p0,
                    forall|k: int| 0 <= k < j ==> (#[trigger] p@[k]).0 < idv,
                decreases n - j,
            {
                j = j + 1;
            }
            if j == n || p[j].0 != idv {
                proof {
                    if j < n {
                        assert(p0[j as int].0 > idv);
                    }
                }
                p.insert(j, Var(idv));
                proof {
                    assert(forall|k: int| 0 <= k < j ==> p@[k] == p0[k]);
                    assert(p@[j as int] == Var(idv));
                    assert(forall|k: int| j < k < p@.len() ==> p@[k] == p0[k - 1]);
                    assert forall|a: int, b2: int| 0 <= a < b2 < p@.len() implies (
                    #[trigger] p@[a]).0 < (#[trigger] p@[b2]).0 by {
                        if a < j && b2 < j {
                        } else if a == j {
                            assert(p@[b2] == p0[b2 - 1]);
                        } else if b2 == j {
                            assert(p@[a] == p0[a]);
                        } else if a > j {
                            assert(p@[a] == p0[a - 1] && p@[b2] == p0[b2 - 1]);
                        } else {
                            assert(p@[a] == p0[a] && p@[b2] == p0[b2 - 1]);
                            if b2 - 1 == j as int - 1 + 1 {
                            }
                            if b2 - 1 >= j {
                                assert(p0[b2 - 1].0 >= p0[j as int].0 || b2 - 1 == j);
                            }
                        }
                    }
                    // idv > 0 here, since the old palette already held 0
                    assert(idv > 0) by {
                        if idv == 0 {
                            assert(p0[0].0 == 0);
                        }
                    }
                    assert(p@[0] == p0[0]);
                    // everything that was covered stays covered
                    assert forall|k: int| 0 <= k < p0.len() implies exists|m: int|
                        0 <= m < p@.len() && p@[m] == #[trigger] p0[k] by {
                        if k < j {
                            assert(p@[k] == p0[k]);
                        } else {
                            assert(p@[k + 1] == p0[k]);
                        }
                    }
                    assert forall|c: int| 0 <= c < i + 1 implies exists|m: int|
                        0 <= m < p@.len() && (#[trigger] p@[m]).0 == (#[trigger] self@.take(i + 1)[c]) as i32 by {
                        if c < i {
                            assert(self@.take(i + 1)[c] == self@.take(i as int)[c]);
                            let m0 = choose|m0: int|
                                0 <= m0 < p0.len() && (#[trigger] p0[m0]).0 == (self@.take(
                                    i as int,
                                )[c]) as i32;
                            assert(0 <= m0 < p0.len() && p0[m0].0 == (self@.take(i + 1)[c]) as i32);
                            if m0 < j {
                                assert(p@[m0].0 == (self@.take(i + 1)[c]) as i32);
                            } else {
                                assert(p@[m0 + 1].0 == (self@.take(i + 1)[c]) as i32);
                            }
                        } else {
                            assert(self@.take(i + 1)[c] == self@[i as int]);
                            assert(p@[j as int].0 == (self@.take(i + 1)[c]) as i32);
                        }
                    }
                    // the one new entry is present in the grid
                    assert forall|m: int| 0 <= m < p@.len() implies (#[trigger] p@[m]).0 == 0
                        || exists|c: int| 0 <= c < self@.len() && (#[trigger] self@[c]) as i32
                        == p@[m].0 by {
                        if m == j {
                            assert(self@[i as int] as i32 == p@[m].0);
                        } else {
                            let mo = if m < j { m } else { m - 1 };
                            assert(p@[m] == p0[mo]);
                        }
                    }
                }
            } else {
                proof {
                    assert(p@[j as int].0 == idv);
                    assert forall|c: int| 0 <= c < i + 1 implies exists|m: int|
                        0 <= m < p@.len() && (#[trigger] p@[m]).0 == (#[trigger] self@.take(i + 1)[c]) as i32 by {
                        if c < i {
                            assert(self@.take(i + 1)[c] == self@.take(i as int)[c]);
                        } else {
                            assert(self@.take(i + 1)[c] == self@[i as int]);
                            assert(p@[j as int].0 == (self@.take(i + 1)[c]) as i32);
                        }
                    }
                }
            }
            i = i + 1;
        }
        proof {
            assert(self@.take(4096) =~= self@);
            assert(p@[0].0 == 0);
        }
        p
    }

    /// The non-air count, bit width, palette and packed cell data of this
    /// grid, ready for the wire. A palette for a 4096-cell grid never
    /// exceeds 4097 entries (the distinct ids plus air), and the bound
    /// keeps every palette index inside the packed field width.
    pub fn from_array_and_palette(array: &Vec<u16>, palette: Vec<Var<i32>>) -> (r: (
        i16,
        u8,
        Option<Vec<Var<i32>>>,
        Vec<u64>,
    ))
        requires
            array@.len() == 4096,
            palette_sorted(palette@),
            palette_covers(palette@, array@),
            1 <= palette@.len() <= 4097,
        ensures
            r.0 == count_nonzero(array@),
            is_bits_per_block(palette@.len(), r.1 as nat),
            4 <= r.1 <= 13,
            r.2 == Some(palette),
            r.3@ == packed_words(
                Seq::new(4096, |i: int| palette_index_spec(palette@, array@[i]) as u16),
                r.1 as nat,
            ),
    {
        let ghost idx_spec = Seq::new(
            4096,
            |i: int| palette_index_spec(palette@, array@[i]) as u16,
        );
        // remap each cell to its palette index
        let mut idx: Vec<u16> = Vec::new();
        let mut i: usize = 0;
        while i < 4096
            invariant
                array@.len() == 4096,
                palette_sorted(palette@),
                palette_covers(palette@, array@),
                palette@.len() <= 4097,
                i <= 4096,
                idx@.len() == i,
                forall|k: int| 0 <= k < i ==> #[trigger] idx@[k] == idx_spec[k],
                forall|k: int| 0 <= k < i ==> #[trigger] idx@[k] < palette@.len(),
                idx_spec == Seq::new(
                    4096,
                    |k: int| palette_index_spec(palette@, array@[k]) as u16,
                ),
            decreases 4096 - i,
        {
            let pi = palette_lookup(&palette, array[i]);
            idx.push(pi);
            i = i + 1;
        }
        proof {
            assert(idx@ =~= idx_spec);
        }
        // non-air count
        let mut count: i16 = 0;
        let mut i2: usize = 0;
        while i2 < 4096
            invariant
                array@.len() == 4096,
                i2 <= 4096,
                count == count_nonzero(array@.take(i2 as int)),
                0 <= count <= i2,
            decreases 4096 - i2,
        {
            proof {
                assert(array@.take(i2 + 1).drop_last() =~= array@.take(i2 as int));
            }
            if array[i2] != 0 {
                count = count + 1;
            }
            i2 = i2 + 1;
        }
        proof {
            assert(array@.take(4096) =~= array@);
        }
        // minimum bit width, floored at 4
        let bpb = bits_for(palette.len());
        // pack the indices, splitting across word boundaries
        let words = pack_indices(&idx, bpb);
        (count, bpb, Some(palette), words)
    }
}

/// The position of `id` in a sorted palette that contains it.
fn palette_lookup(palette: &Vec<Var<i32>>, id: u16) -> (r: u16)
    requires
        palette_sorted(palette@),
        palette@.len() <= 4097,
        exists|j: int| 0 <= j < palette@.len() && (#[trigger] palette@[j]).0 == id as i32,
    ensures
        r == palette_index_spec(palette@, id),
        r < palette@.len(),
{
    let n = palette.len();
    let mut j: usize = 0;
    while j < n
        invariant
            n == palette@.len() <= 4097,
            j <= n,
            palette_sorted(palette@),
            exists|k: int| 0 <= k < palette@.len() && (#[trigger] palette@[k]).0 == id as i32,
            forall|k: int| 0 <= k < j ==> (#[trigger] palette@[k]).0 != id as i32,
        decreases n - j,
    {
        if palette[j].0 == id as i32 {
            proof {
                let w = palette_index_spec(palette@, id);
                assert(0 <= w < palette@.len() && palette@[w].0 == id as i32);
                // sortedness makes the position unique
                if w != j {
                    assert(palette@[w].0 != palette@[j as int].0);
                }
            }
            return j as u16;
        }
        j = j + 1;
    }
    proof {
        let k = choose|k: int|
            0 <= k < palette@.len() && (#[trigger] palette@[k]).0 == id as i32;
        assert(false);
    }
    0
}

/// The smallest width of at least 4 bits whose range covers a palette of
/// `n` entries.
fn bits_for(n: usize) -> (b: u8)
    requires
        1 <= n <= 4097,
    ensures
        is_bits_per_block(n as nat, b as nat),
        4 <= b <= 13,
{
    proof {
        reveal_with_fuel(pow2, 5);
    }
    let mut b: u8 = 4;
    let mut p: usize = 16;
    while p < n
        invariant
            4 <= b <= 13,
            p == pow2(b as nat),
            b == 4 || pow2((b - 1) as nat) < n,
            n <= 4097,
            p <= 8192,
        decreases 2 * n - p,
    {
        proof {
            assert(pow2((b + 1) as nat) == 2 * pow2(b as nat));
        }
        p = p * 2;
        b = b + 1;
        proof {
            if b > 13 {
                reveal_with_fuel(pow2, 15);
                assert(pow2(13) == 8192);
                assert(false);
            }
        }
    }
    b
}

/// Pack 4096 palette indices, each below `2^b`, into `64 * b` 64-bit
/// words, `b` bits per cell, cross-word spans split low-then-high.
fn pack_indices(idx: &Vec<u16>, b: u8) -> (r: Vec<u64>)
    requires
        idx@.len() == 4096,
        4 <= b <= 13,
    ensures
        r@ == packed_words(idx@, b as nat),
        r@.len() == 64 * b,
{
    let bu = b as usize;
    let total = 64 * bu;
    let mut words: Vec<u64> = Vec::new();
    let mut w: usize = 0;
    while w < total
        invariant
            total == 64 * b,
            w <= total,
            words@.len() == w,
            forall|k: int| 0 <= k < w ==> #[trigger] words@[k] == 0u64,
        decreases total - w,
    {
        words.push(0);
        w = w + 1;
    }
    proof {
        assert(words@ =~= Seq::new(64 * b as nat, |i: int| 0u64));
    }
    let mut i: usize = 0;
    while i < 4096
        invariant
            idx@.len() == 4096,
            4 <= b <= 13,
            bu == b,
            total == 64 * bu,
            i <= 4096,
            words@.len() == total,
            words@ == pack_rec(idx@, i as int, b as nat, Seq::new(64 * b as nat, |k: int| 0u64)),
        decreases 4096 - i,
    {
        let v = idx[i] as u64;
        proof {
            assert(i * bu <= 4095 * 13) by (nonlinear_arith)
                requires
                    i <= 4095 && bu <= 13,
            ;
        }
        let p = i * bu;
        let wi = p / 64;
        let off = p % 64;
        proof {
            assert(wi < total) by (nonlinear_arith)
                requires
                    wi == p / 64 && p == i * bu && i <= 4095 && 4 <= bu <= 13 && total == 64 * bu,
            ;
        }
        let cur = words[wi];
        words.set(wi, cur | (v << (off as u64)));
        if off + bu > 64 {
            proof {
                assert(wi + 1 < total) by (nonlinear_arith)
                    requires
                        wi == p / 64 && p == i * bu && p % 64 + bu > 64 && i <= 4095 && 4 <= bu
                            <= 13 && total == 64 * bu && off == p % 64,
                ;
            }
            let cur2 = words[wi + 1];
            words.set(wi + 1, cur2 | (v >> ((64 - off) as u64)));
        }
        proof {
            assert(words@ =~= pack_step(
                pack_rec(idx@, i as int, b as nat, Seq::new(64 * b as nat, |k: int| 0u64)),
                i as int,
                idx@[i as int] as u64,
                b as nat,
            ));
        }
        i = i + 1;
    }
    words
}

/// Read 4096 `b`-bit cells back out of packed words, joining cross-word
/// splits the way the packer made them.
pub fn unpack_indices(words: &Vec<u64>, b: u8) -> (r: Vec<u16>)
    requires
        4 <= b <= 13,
        words@.len() == 64 * b,
    ensures
        r@.len() == 4096,
        forall|i: int| 0 <= i < 4096 ==> #[trigger] r@[i] == unpack_get(words@, i, b as nat) as u16,
{
    let bu = b as usize;
    let total = 64 * bu;
    let mut out: Vec<u16> = Vec::new();
    let mut i: usize = 0;
    proof {
        let bb = b as u64;
        assert(1u64 << bb >= 1) by (bit_vector)
            requires
                bb <= 13,
        ;
    }
    let mask: u64 = (1u64 << (b as u64)) - 1;
    while i < 4096
        invariant
            4 <= b <= 13,
            bu == b,
            total == 64 * bu,
            words@.len() == total,
            mask == ((1u64 << (b as u64)) - 1) as u64,
            i <= 4096,
            out@.len() == i,
            forall|k: int|
                0 <= k < i ==> #[trigger] out@[k] == unpack_get(words@, k, b as nat) as u16,
        decreases 4096 - i,
    {
        proof {
            assert(i * bu <= 4095 * 13) by (nonlinear_arith)
                requires
                    i <= 4095 && bu <= 13,
            ;
        }
        let p = i * bu;
        let wi = p / 64;
        let off = p % 64;
        proof {
            assert(wi < total) by (nonlinear_arith)
                requires
                    wi == p / 64 && p == i * bu && i <= 4095 && 4 <= bu <= 13 && total == 64 * bu,
            ;
            if off + bu > 64 {
                assert(wi + 1 < total) by (nonlinear_arith)
                    requires
                        wi == p / 64 && p == i * bu && p % 64 + bu > 64 && i <= 4095 && 4 <= bu
                            <= 13 && total == 64 * bu && off == p % 64,
                ;
            }
        }
        let lo = words[wi];
        let raw: u64 = if off + bu > 64 {
            let hi = words[wi + 1];
            (lo >> (off as u64)) | (hi << ((64 - off) as u64))
        } else {
            lo >> (off as u64)
        };
        let v: u64 = raw & mask;
        proof {
            let bb = b as u64;
            assert(raw & (((1u64 << bb) - 1) as u64) < 0x1_0000) by (bit_vector)
                requires
                    bb <= 13,
            ;
        }
        out.push(v as u16);
        i = i + 1;
    }
    out
}


/// Variable-length-integer elements take at most five bytes each.
pub proof fn lemma_varint_elems_len(s: Seq<Var<i32>>)
    ensures
        elems_wire(s).len() <= 5 * s.len(),
    decreases s.len(),
{
    if s.len() > 0 {
        crate::var::lemma_pow128_values();
        crate::var::lemma_varint_wire_len(((s[0].0) as u32) as nat, 5);
        lemma_varint_elems_len(s.drop_first());
    }
}

/// 64-bit words take exactly eight bytes each.
pub proof fn lemma_word_elems_len(s: Seq<u64>)
    ensures
        elems_wire(s).len() == 8 * s.len(),
    decreases s.len(),
{
    if s.len() > 0 {
        lemma_word_elems_len(s.drop_first());
    }
}

/// Packing never changes how many words there are, as long as every
/// cell's bits land inside them.
pub proof fn lemma_pack_rec_len(idx: Seq<u16>, k: int, b: nat, words: Seq<u64>)
    requires
        0 <= k,
        1 <= b,
        k * b <= 64 * words.len(),
    ensures
        pack_rec(idx, k, b, words).len() == words.len(),
    decreases k,
{
    if k > 0 {
        assert((k - 1) * b <= 64 * words.len()) by (nonlinear_arith)
            requires
                k * b <= 64 * words.len() && b >= 1 && k > 0,
        ;
        lemma_pack_rec_len(idx, k - 1, b, words);
        let prev = pack_rec(idx, k - 1, b, words);
        let p = (k - 1) * b;
        let w = p / 64;
        let off = p % 64;
        assert(w < words.len()) by (nonlinear_arith)
            requires
                w == p / 64 && p == (k - 1) * b && k * b <= 64 * words.len() && b >= 1 && k > 0,
        ;
        if off + b > 64 {
            assert(w + 1 < words.len()) by (nonlinear_arith)
                requires
                    w == p / 64 && off == p % 64 && off + b > 64 && p == (k - 1) * b && k * b <= 64
                        * words.len() && b >= 1 && k > 0,
            ;
        }
    }
}

/// A well-formed palette for a grid: sorted, duplicate-free, covering
/// every id present, holding nothing absent but air.
pub open spec fn section_palette_ok(grid: Seq<u16>, p: Seq<Var<i32>>) -> bool {
    palette_sorted(p) && palette_covers(p, grid) && palette_tight(p, grid) && (exists|j: int|
        0 <= j < p.len() && (#[trigger] p[j]).0 == 0) && 1 <= p.len() <= 4097
}

/// `bytes` is the serialized body of a section holding `grid`: non-air
/// count, bit width, palette, packed cells.
#[verifier::opaque]
pub open spec fn section_body_ok(grid: Seq<u16>, bytes: Seq<u8>) -> bool {
    exists|p: Seq<Var<i32>>, b: nat|
        {
            &&& #[trigger] section_palette_ok(grid, p)
            &&& #[trigger] is_bits_per_block(p.len(), b)
            &&& bytes == be16_wire(count_nonzero(grid) as u16) + seq![b as u8] + (varint_wire(
                p.len(),
            ) + elems_wire(p)) + (varint_wire((64 * b) as nat) + elems_wire(
                packed_words(Seq::new(4096, |i: int| palette_index_spec(p, grid[i]) as u16), b),
            ))
        }
}

impl ChunkSection {
    /// A copy of this grid.
    pub fn clone_section(&self) -> (r: ChunkSection)
        ensures
            r@ == self@,
    {
        let mut data: Vec<u16> = Vec::new();
        let mut i: usize = 0;
        let n = self.data.len();
        while i < n
            invariant
                i <= n,
                n == self@.len(),
                data@ == self@.take(i as int),
            decreases n - i,
        {
            data.push(self.data[i]);
            assert(data@ =~= self@.take(i + 1));
            i = i + 1;
        }
        assert(data@ =~= self@);
        ChunkSection { data }
    }

    /// Serialize this grid: palette it, pack it, and append the wire body.
    #[verifier::rlimit(100)]
    #[verifier::spinoff_prover]
    pub fn proto_encode_body(&self, dst: &mut Vec<u8>)
        requires
            self.wf(),
            old(dst)@.len() + 100000 <= usize::MAX,
        ensures
            old(dst)@.len() <= final(dst)@.len() <= old(dst)@.len() + 30000,
            exists|body: Seq<u8>|
                final(dst)@ == old(dst)@ + body && #[trigger] section_body_ok(self@, body),
    {
        let palette = self.make_palette();
        let ghost pv = palette@;
        let parts = Self::from_array_and_palette(&self.data, palette);
        let (count, bpb, palette_opt, words) = parts;
        let ghost b = bpb as nat;
        let ghost start = dst@;
        let ghost idx = Seq::new(4096, |i: int| palette_index_spec(pv, self@[i]) as u16);
        proof {
            lemma_varint_elems_len(pv);
            crate::var::lemma_pow128_values();
            crate::var::lemma_varint_wire_len(pv.len(), 5);
            lemma_pack_rec_len(idx, 4096, b, Seq::new((64 * b) as nat, |i: int| 0u64));
            assert(words@.len() == 64 * b);
            crate::var::lemma_varint_wire_len(words@.len(), 5);
            lemma_word_elems_len(words@);
        }
        count.proto_encode(dst);
        let ghost w1 = count.wire();
        bpb.proto_encode(dst);
        let ghost w2 = bpb.wire();
        let palette2 = match palette_opt {
            Some(p) => p,
            None => Vec::new(),
        };
        palette2.proto_encode(dst);
        let ghost w3 = palette2.wire();
        words.proto_encode(dst);
        let ghost w4 = words.wire();
        proof {
            let body = w1 + w2 + w3 + w4;
            assert(dst@ =~= start + body);
            assert(w1 == be16_wire(count_nonzero(self@) as u16));
            assert(w2 == seq![bpb as u8]);
            assert(w3 == varint_wire(pv.len()) + elems_wire(pv));
            assert(w4 == varint_wire((64 * b) as nat) + elems_wire(packed_words(idx, b)));
            assert(section_palette_ok(self@, pv));
            reveal(section_body_ok);
            assert(section_body_ok(self@, body));
        }
    }
}


/// Every bit of `word` at position `from` or above is clear (nothing is
/// claimed once `from` reaches the word width).
pub open spec fn clear_above(word: u64, from: int) -> bool {
    if from <= 0 {
        word == 0
    } else if from < 64 {
        word >> (from as u64) == 0
    } else {
        true
    }
}

/// After `k` cells are packed, every word is clear above the packed
/// region.
pub open spec fn packed_clear(words: Seq<u64>, k: int, b: nat) -> bool {
    forall|w: int| 0 <= w < words.len() ==> clear_above(#[trigger] words[w], k * b - 64 * w)
}

/// `2^b` as a shifted one, for widths inside a word.
pub proof fn lemma_pow2_shift(b: nat)
    requires
        b <= 63,
    ensures
        pow2(b) == (1u64 << (b as u64)) as nat,
    decreases b,
{
    if b == 0 {
        assert(1u64 << 0u64 == 1) by (bit_vector);
    } else {
        lemma_pow2_shift((b - 1) as nat);
        let bb = b as u64;
        assert(1u64 << bb == 2 * (1u64 << ((bb - 1) as u64)) && 1u64 << ((bb - 1) as u64)
            < 0x8000_0000_0000_0000) by (bit_vector)
            requires
                1 <= bb <= 63,
        ;
    }
}

/// Packing one more cell keeps every already-packed cell readable and
/// keeps the region above the new cell clear.
proof fn lemma_pack_step_props(prev: Seq<u64>, idx: Seq<u16>, k: int, b: nat)
    requires
        4 <= b <= 13,
        idx.len() == 4096,
        1 <= k <= 4096,
        prev.len() == 64 * b,
        prev == pack_rec(idx, k - 1, b, Seq::new((64 * b) as nat, |i: int| 0u64)),
        packed_clear(prev, k - 1, b),
        (idx[k - 1] as nat) < pow2(b),
        forall|j: int| 0 <= j < k - 1 ==> #[trigger] unpack_get(prev, j, b) == idx[j] as u64,
    ensures
        packed_clear(pack_step(prev, k - 1, idx[k - 1] as u64, b), k, b),
        forall|j: int|
            0 <= j < k ==> #[trigger] unpack_get(pack_step(prev, k - 1, idx[k - 1] as u64, b), j, b)
                == idx[j] as u64,
{
    let v = idx[k - 1] as u64;
    let p = (k - 1) * b;
    let w = p / 64;
    let off = p % 64;
    let next = pack_step(prev, k - 1, v, b);
    let bu = b as u64;
    let offu = off as u64;
    lemma_pow2_shift(b);
    assert(0 <= off < 64);
    assert(p == 64 * w + off);
    assert(0 <= p <= 4095 * 13) by (nonlinear_arith)
        requires
            p == (k - 1) * b && 0 <= k - 1 <= 4095 && 4 <= b <= 13,
    ;
    assert(w < prev.len()) by (nonlinear_arith)
        requires
            w == p / 64 && p == (k - 1) * b && 0 <= k - 1 <= 4095 && 4 <= b <= 13 && prev.len()
                == 64 * b,
    ;
    let old_w = prev[w];
    assert(clear_above(old_w, (k - 1) * b - 64 * w));
    assert((k - 1) * b - 64 * w == off);
    assert(off > 0 ==> old_w >> offu == 0);
    assert(off == 0 ==> old_w == 0);
    // with off == 0 the shift fact holds trivially of the zero word
    assert(old_w >> offu == 0) by {
        if off == 0 {
            assert(old_w == 0);
            assert(0u64 >> 0u64 == 0) by (bit_vector);
        }
    }
    if off + b > 64 {
        assert(w + 1 < prev.len()) by (nonlinear_arith)
            requires
                w == p / 64 && off == p % 64 && off + b > 64 && p == (k - 1) * b && 0 <= k - 1
                    <= 4095 && 4 <= b <= 13 && prev.len() == 64 * b,
        ;
        let old_w1 = prev[w + 1];
        assert(clear_above(old_w1, (k - 1) * b - 64 * (w + 1)));
        assert((k - 1) * b - 64 * (w + 1) == off - 64 < 0);
        assert(old_w1 == 0);
        assert(next =~= prev.update(w, old_w | (v << offu)).update(
            w + 1,
            (old_w | (v << offu)) >> 0,
        ).update(w + 1, old_w1 | (v >> ((64 - off) as u64))));
        assert(next[w] == old_w | (v << offu));
        assert(next[w + 1] == old_w1 | (v >> ((64 - offu))));
    } else {
        assert(next =~= prev.update(w, old_w | (v << offu)));
    }
    let new_w = old_w | (v << offu);
    // reading back the cell just written
    assert(unpack_get(next, k - 1, b) == idx[k - 1] as u64) by {
        assert(v < (1u64 << bu));
        if off + b > 64 {
            assert(next[w + 1] == 0u64 | (v >> ((64 - offu) as u64)));
            assert((((old_w | (v << offu)) >> offu) | ((0u64 | (v >> ((64 - offu) as u64))) << ((64 - offu) as u64)))
                & (((1u64 << bu) - 1) as u64) == v) by (bit_vector)
                requires
                    old_w >> offu == 0 && v < (1u64 << bu) && offu < 64 && offu + bu > 64 && bu
                        <= 13,
            ;
        } else {
            assert(((old_w | (v << offu)) >> offu) & (((1u64 << bu) - 1) as u64) == v) by (bit_vector)
                requires
                    old_w >> offu == 0 && v < (1u64 << bu) && offu + bu <= 64 && bu <= 13 && 4
                        <= bu,
            ;
        }
    }
    // the region above the new cell stays clear
    assert(packed_clear(next, k, b)) by {
        assert forall|ww: int| 0 <= ww < next.len() implies clear_above(
            #[trigger] next[ww],
            k * b - 64 * ww,
        ) by {
            assert(k * b == p + b) by (nonlinear_arith)
                requires
                    p == (k - 1) * b,
            ;
            if ww == w {
                if off + b < 64 {
                    assert((old_w | (v << offu)) >> (offu + bu) == 0) by (bit_vector)
                        requires
                            old_w >> offu == 0 && v < (1u64 << bu) && offu + bu < 64 && bu <= 13,
                    ;
                }
            } else if ww == w + 1 && off + b > 64 {
                assert((0u64 | (v >> ((64 - offu) as u64))) >> ((offu + bu - 64) as u64) == 0) by (bit_vector)
                    requires
                        v < (1u64 << bu) && offu < 64 && offu + bu > 64 && bu <= 13,
                ;
                assert(next[ww] == 0u64 | (v >> ((64 - offu) as u64)));
            } else {
                assert(next[ww] == prev[ww]);
                assert(clear_above(prev[ww], (k - 1) * b - 64 * ww));
                // a clear region only grows
                if (k - 1) * b - 64 * ww >= 64 {
                } else if (k - 1) * b - 64 * ww <= 0 {
                    if k * b - 64 * ww > 0 && k * b - 64 * ww < 64 {
                        let f = (k * b - 64 * ww) as u64;
                        let word = prev[ww];
                        assert(word >> f == 0) by (bit_vector)
                            requires
                                word == 0,
                        ;
                    }
                } else {
                    let f0 = ((k - 1) * b - 64 * ww) as u64;
                    let word = prev[ww];
                    if k * b - 64 * ww < 64 {
                        let f1 = (k * b - 64 * ww) as u64;
                        assert(word >> f1 == 0) by (bit_vector)
                            requires
                                word >> f0 == 0 && f0 <= f1 < 64,
                        ;
                    }
                }
            }
        }
    }
    // every earlier cell reads as before
    assert forall|j: int| 0 <= j < k - 1 implies unpack_get(next, j, b) == idx[j] as u64 by {
        let pj = j * b;
        let wj = pj / 64;
        let offj = pj % 64;
        assert(pj + b <= p) by (nonlinear_arith)
            requires
                pj == j * b && p == (k - 1) * b && 0 <= j < k - 1 && b >= 4,
        ;
        assert(64 * wj + offj == pj);
        assert(wj <= w) by (nonlinear_arith)
            requires
                wj == pj / 64 && w == p / 64 && 0 <= pj <= p,
        ;
        let offju = offj as u64;
        if offj + b > 64 {
            // the field crosses from word wj into wj + 1
            assert(64 * (wj + 1) < pj + b);
            assert(wj + 1 <= w) by (nonlinear_arith)
                requires
                    64 * (wj + 1) < pj + b && pj + b <= p && w == p / 64 && p == 64 * w + (p % 64),
            ;
            if wj + 1 < w {
                assert(next[wj] == prev[wj] && next[wj + 1] == prev[wj + 1]);
                assert(unpack_get(next, j, b) == unpack_get(prev, j, b));
            } else {
                // the upper part sits in word w, wholly below `off`
                assert(next[wj] == prev[wj]);
                assert(pj + b - 64 * w <= off);
                let aw = prev[wj];
                let ow = prev[w];
                let nw = new_w;
                assert(((aw >> offju) | (nw << ((64 - offju) as u64))) & (((1u64 << bu) - 1) as u64) == ((aw
                    >> offju) | (ow << ((64 - offju) as u64))) & (((1u64 << bu) - 1) as u64)) by (bit_vector)
                    requires
                        nw == ow | (v << offu) && offju + bu > 64 && offju < 64 && bu <= 13 && 4
                            <= bu && offju + bu - 64 <= offu && offu < 64,
                ;
                assert(unpack_get(next, j, b) == unpack_get(prev, j, b));
            }
        } else {
            // the field sits inside word wj
            if wj < w {
                assert(next[wj] == prev[wj]);
                assert(unpack_get(next, j, b) == unpack_get(prev, j, b));
            } else {
                assert(wj == w);
                assert(offj + b <= off) by {
                    assert(pj + b - 64 * w <= off);
                    assert(offj == pj - 64 * wj);
                }
                let ow = prev[w];
                let nw = new_w;
                assert((nw >> offju) & (((1u64 << bu) - 1) as u64) == (ow >> offju) & (((1u64 << bu) - 1) as u64))
                    by (bit_vector)
                    requires
                        nw == ow | (v << offu) && offju + bu <= offu && offu < 64 && bu <= 13 && 4
                            <= bu,
                ;
                assert(unpack_get(next, j, b) == unpack_get(prev, j, b));
            }
        }
        assert(unpack_get(next, j, b) == unpack_get(prev, j, b));
        assert(unpack_get(prev, j, b) == idx[j] as u64);
    }
}

/// Reading the packed words gives back every cell: the pack/unpack
/// round trip, for any cell values inside the field width.
pub proof fn lemma_pack_unpack(idx: Seq<u16>, k: int, b: nat)
    requires
        idx.len() == 4096,
        4 <= b <= 13,
        0 <= k <= 4096,
        forall|i: int| 0 <= i < 4096 ==> ((#[trigger] idx[i]) as nat) < pow2(b),
    ensures
        pack_rec(idx, k, b, Seq::new((64 * b) as nat, |i: int| 0u64)).len() == 64 * b,
        packed_clear(pack_rec(idx, k, b, Seq::new((64 * b) as nat, |i: int| 0u64)), k, b),
        forall|j: int|
            0 <= j < k ==> unpack_get(
                pack_rec(idx, k, b, Seq::new((64 * b) as nat, |i: int| 0u64)),
                j,
                b,
            ) == (#[trigger] idx[j]) as u64,
    decreases k,
{
    let zeros = Seq::new((64 * b) as nat, |i: int| 0u64);
    if k == 0 {
        assert(forall|w: int|
            0 <= w < zeros.len() ==> clear_above(#[trigger] zeros[w], 0 * b - 64 * w));
    } else {
        lemma_pack_unpack(idx, k - 1, b);
        assert(k * b <= 64 * zeros.len()) by (nonlinear_arith)
            requires
                0 <= k <= 4096 && 4 <= b <= 13 && zeros.len() == 64 * b,
        ;
        lemma_pack_rec_len(idx, k, b, zeros);
        lemma_pack_step_props(pack_rec(idx, k - 1, b, zeros), idx, k, b);
    }
}

/// The round trip for a whole grid: unpacking `packed_words` reproduces
/// every palette index.
pub proof fn lemma_packed_words_round_trip(idx: Seq<u16>, b: nat)
    requires
        idx.len() == 4096,
        4 <= b <= 13,
        forall|i: int| 0 <= i < 4096 ==> ((#[trigger] idx[i]) as nat) < pow2(b),
    ensures
        forall|j: int|
            0 <= j < 4096 ==> unpack_get(packed_words(idx, b), j, b) == (#[trigger] idx[j]) as u64,
{
    lemma_pack_unpack(idx, 4096, b);
}

/// The pack/unpack round trip for a whole section: reading each packed
/// field back out of the words and mapping it through the palette
/// reproduces the grid, cell for cell.
pub proof fn lemma_section_round_trip(grid: Seq<u16>, p: Seq<Var<i32>>, b: nat)
    requires
        grid.len() == 4096,
        section_palette_ok(grid, p),
        is_bits_per_block(p.len(), b),
        4 <= b <= 13,
    ensures
        forall|i: int|
            0 <= i < 4096 ==> {
                let idx = Seq::new(4096, |c: int| palette_index_spec(p, grid[c]) as u16);
                p[unpack_get(packed_words(idx, b), i, b) as int].0 == (#[trigger] grid[i]) as i32
            },
{
    let idx = Seq::new(4096, |c: int| palette_index_spec(p, grid[c]) as u16);
    assert forall|c: int| 0 <= c < 4096 implies (((#[trigger] idx[c]) as nat) < pow2(b)) by {
        assert(exists|w: int| 0 <= w < p.len() && (#[trigger] p[w]).0 == (grid[c]) as i32);
        let w = palette_index_spec(p, grid[c]);
        assert(0 <= w < p.len() && p[w].0 == grid[c] as i32);
    }
    lemma_packed_words_round_trip(idx, b);
    assert forall|i: int| 0 <= i < 4096 implies p[unpack_get(packed_words(idx, b), i, b) as int].0
        == (#[trigger] grid[i]) as i32 by {
        let w = palette_index_spec(p, grid[i]);
        assert(exists|w0: int| 0 <= w0 < p.len() && (#[trigger] p[w0]).0 == (grid[i]) as i32);
        assert(0 <= w < p.len() && p[w].0 == grid[i] as i32);
        assert(unpack_get(packed_words(idx, b), i, b) == idx[i] as u64);
        assert(idx[i] == w as u16);
    }
}

} // verus!
