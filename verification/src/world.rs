//! The in-memory world: chunk columns keyed by their chunk coordinates.
//! Terrain content itself is placeholder material; the bookkeeping —
//! which chunk holds which block, fetch-or-generate — is what matters
//! here.

use vstd::prelude::*;

use crate::chunk::Chunk;
use crate::chunk_section::ChunkSection;
use crate::chunk::chunk_get_spec;
use crate::chunk::section_grid;
use crate::chunk::sections_same;
use crate::chunk::slot_same;
use crate::protocol::DecodeError;

verus! {

/// All loaded chunk columns, each under its coordinate key.
pub struct World {
    chunks: Vec<((i32, i32), Chunk)>,
}

impl Chunk {
    /// A copy of this column: the same sections, slot for slot.
    pub fn clone_chunk(&self) -> (r: Chunk)
        requires
            self.wf(),
        ensures
            r.wf(),
            sections_same(r.sections@, self.sections@),
    {
        let mut sections: Vec<Option<ChunkSection>> = Vec::new();
        let mut i: usize = 0;
        while i < 16
            invariant
                self.wf(),
                i <= 16,
                sections@.len() == i,
                forall|s: int|
                    0 <= s < i ==> (match #[trigger] sections@[s] {
                        Some(sec) => self.sections@[s] matches Some(sec0) && sec@ == sec0@
                            && sec.wf(),
                        None => self.sections@[s] is None,
                    }),
            decreases 16 - i,
        {
            match &self.sections[i] {
                Some(sec) => {
                    sections.push(Some(sec.clone_section()));
                },
                None => {
                    sections.push(None);
                },
            }
            i = i + 1;
        }
        let r = Chunk { sections };
        proof {
            assert(forall|s: int| 0 <= s < 16 ==> #[trigger] slot_same(
                r.sections@[s],
                self.sections@[s],
            ));
        }
        r
    }
}

impl World {
    /// Every stored column is well formed, and no key repeats.
    pub open spec fn wf(&self) -> bool {
        (forall|i: int| 0 <= i < self.entries().len() ==> (#[trigger] self.entries()[i]).1.wf())
            && (forall|i: int, j: int|
            0 <= i < j < self.entries().len() ==> (#[trigger] self.entries()[i]).0 != (
            #[trigger] self.entries()[j]).0)
    }

    /// The loaded columns, in insertion order.
    pub closed spec fn entries(&self) -> Seq<((i32, i32), Chunk)> {
        self.chunks@
    }

    /// Whether a column is loaded at the given chunk coordinates.
    pub open spec fn has_chunk(&self, x: i32, z: i32) -> bool {
        exists|i: int| 0 <= i < self.entries().len() && (#[trigger] self.entries()[i]).0 == (x, z)
    }

    /// An empty world.
    pub fn new() -> (r: World)
        ensures
            r.wf(),
            r.entries().len() == 0,
    {
        World { chunks: Vec::new() }
    }

    /// The index of the column at the given coordinates, if loaded.
    fn find(&self, x: i32, z: i32) -> (r: Option<usize>)
        ensures
            (match r {
                Some(i) => i < self.entries().len() && self.entries()[i as int].0 == (x, z),
                None => !self.has_chunk(x, z),
            }),
    {
        let n = self.chunks.len();
        let mut i: usize = 0;
        while i < n
            invariant
                n == self.entries().len(),
                i <= n,
                forall|k: int| 0 <= k < i ==> (#[trigger] self.entries()[k]).0 != (x, z),
            decreases n - i,
        {
            let (cx, cz) = self.chunks[i].0;
            if cx == x && cz == z {
                return Some(i);
            }
            i = i + 1;
        }
        None
    }

    /// The loaded column at the given coordinates.
    pub fn get_chunk(&self, chunk_x: i32, chunk_z: i32) -> (r: Result<Option<&Chunk>, DecodeError>)
        requires
            self.wf(),
        ensures
            (match r {
                Ok(Some(c)) => self.has_chunk(chunk_x, chunk_z) && c.wf() && exists|i: int|
                    0 <= i < self.entries().len() && (#[trigger] self.entries()[i]) == (
                    (chunk_x, chunk_z),
                    *c,
                ),
                Ok(None) => !self.has_chunk(chunk_x, chunk_z),
                Err(_) => false,
            }),
    {
        match self.find(chunk_x, chunk_z) {
            Some(i) => Ok(Some(&self.chunks[i].1)),
            None => Ok(None),
        }
    }

    /// The column at the given coordinates, generating and storing a
    /// fresh one when none is loaded yet. A loaded column comes back
    /// with its contents as stored and the store untouched; a miss adds
    /// exactly one entry at the end. Terrain content for a fresh column
    /// is placeholder material (spec `generate_chunk`).
    pub fn fetch_chunk(&mut self, chunk_x: i32, chunk_z: i32) -> (r: Result<Chunk, DecodeError>)
        requires
            old(self).wf(),
        ensures
            final(self).wf(),
            final(self).has_chunk(chunk_x, chunk_z),
            old(self).has_chunk(chunk_x, chunk_z) ==> final(self).entries() == old(self).entries(),
            !old(self).has_chunk(chunk_x, chunk_z) ==> final(self).entries().len() == old(
                self,
            ).entries().len() + 1 && final(self).entries().take(old(self).entries().len() as int)
                == old(self).entries() && final(self).entries().last().0 == (chunk_x, chunk_z),
            (match r {
                Ok(c) => c.wf() && exists|i: int|
                    0 <= i < final(self).entries().len() && (#[trigger] final(self).entries()[i]).0
                        == (chunk_x, chunk_z) && sections_same(
                        c.sections@,
                        final(self).entries()[i].1.sections@,
                    ),
                Err(_) => false,
            }),
    {
        match self.find(chunk_x, chunk_z) {
            Some(i) => {
                let c = self.chunks[i].1.clone_chunk();
                proof {
                    assert(self.entries()[i as int].0 == (chunk_x, chunk_z));
                }
                Ok(c)
            },
            None => {
                let c = Self::generate_chunk(chunk_x, chunk_z);
                let c2 = c.clone_chunk();
                let ghost before = self.chunks@;
                self.chunks.push(((chunk_x, chunk_z), c));
                proof {
                    let n = self.entries().len() - 1;
                    assert(self.entries()[n].0 == (chunk_x, chunk_z));
                    assert(forall|k: int|
                        0 <= k < n ==> (#[trigger] self.entries()[k]) == before[k]);
                    assert(self.entries().take(n) =~= before);
                    assert(before == old(self).entries());
                    assert forall|k: int| 0 <= k < n implies ((#[trigger] self.entries()[k]).0 != (
                    chunk_x,
                    chunk_z,
                    ) && self.entries()[k].1.wf()) by {
                        assert(self.entries()[k] == old(self).entries()[k]);
                        assert((old(self).entries()[k]).1.wf());
                        if self.entries()[k].0 == (chunk_x, chunk_z) {
                            assert((old(self).entries()[k]).0 == (chunk_x, chunk_z));
                            assert(old(self).has_chunk(chunk_x, chunk_z));
                        }
                    }
                }
                Ok(c2)
            },
        }
    }

    /// The block at world coordinates: nothing when the chunk is not
    /// loaded or its section slot is empty, the stored id otherwise.
    /// The store is not touched.
    pub fn get_block(&self, x: usize, y: usize, z: usize) -> (r: Result<Option<u16>, DecodeError>)
        requires
            self.wf(),
            x < 0x8000_0000,
            z < 0x8000_0000,
        ensures
            (match r {
                Ok(opt) => {
                    let kx = (x >> 4) as i32;
                    let kz = (z >> 4) as i32;
                    if !self.has_chunk(kx, kz) {
                        opt is None
                    } else {
                        exists|i: int|
                            0 <= i < self.entries().len() && (#[trigger] self.entries()[i]).0 == (
                            kx,
                            kz,
                            ) && opt == chunk_get_spec(
                                self.entries()[i].1.sections@,
                                (x & 0b1111) as int,
                                y as int,
                                (z & 0b1111) as int,
                            )
                    }
                },
                Err(_) => false,
            }),
    {
        let chunk_x = (x >> 4) as i32;
        let chunk_z = (z >> 4) as i32;
        match self.find(chunk_x, chunk_z) {
            None => Ok(None),
            Some(i) => {
                let r = self.chunks[i].1.get_block(x & 0b1111, y, z & 0b1111);
                Ok(r)
            },
        }
    }

    /// Set the block at world coordinates. A miss on an unloaded chunk
    /// changes nothing, as the reference behaviour has it; a hit
    /// rewrites exactly the addressed cell of the addressed chunk and
    /// nothing else.
    pub fn set_block(&mut self, x: usize, y: usize, z: usize, block_id: u16) -> (r: Result<
        (),
        DecodeError,
    >)
        requires
            old(self).wf(),
            x < 0x8000_0000,
            z < 0x8000_0000,
            y < 256,
        ensures
            final(self).wf(),
            r is Ok,
            ({
                let kx = (x >> 4) as i32;
                let kz = (z >> 4) as i32;
                &&& (!old(self).has_chunk(kx, kz) ==> final(self).entries() == old(self).entries())
                &&& (old(self).has_chunk(kx, kz) ==> exists|i: int|
                    {
                        &&& 0 <= i < old(self).entries().len()
                        &&& (#[trigger] old(self).entries()[i]).0 == (kx, kz)
                        &&& final(self).entries().len() == old(self).entries().len()
                        &&& final(self).entries()[i].0 == (kx, kz)
                        &&& (forall|k: int|
                            0 <= k < old(self).entries().len() && k != i
                                ==> #[trigger] final(self).entries()[k] == old(
                                self,
                            ).entries()[k])
                        &&& {
                            let s = y as int / 16;
                            let cell = ChunkSection::index_spec(
                                (x & 0b1111) as int,
                                y as int % 16,
                                (z & 0b1111) as int,
                            );
                            &&& final(self).entries()[i].1.sections@[s] is Some
                            &&& section_grid(final(self).entries()[i].1.sections@[s])
                                == section_grid(old(self).entries()[i].1.sections@[s]).update(
                                cell,
                                block_id,
                            )
                            &&& (forall|k: int|
                                0 <= k < 16 && k != s ==> #[trigger] slot_same(
                                    final(self).entries()[i].1.sections@[k],
                                    old(self).entries()[i].1.sections@[k],
                                ))
                        }
                    })
            }),
    {
        let chunk_x = (x >> 4) as i32;
        let chunk_z = (z >> 4) as i32;
        proof {
            let xu = x as u64;
            let zu = z as u64;
            assert(xu & 0b1111 < 16 && zu & 0b1111 < 16) by (bit_vector);
        }
        match self.find(chunk_x, chunk_z) {
            None => Ok(()),
            Some(i) => {
                let ghost stored = self.chunks@[i as int].1;
                let mut c = self.chunks[i].1.clone_chunk();
                let ghost c0 = c;
                let res = c.set_block(x & 0b1111, y, z & 0b1111, block_id);
                proof {
                    assert(res is Ok);
                    let s = y as int / 16;
                    assert(slot_same(c0.sections@[s], stored.sections@[s]));
                    assert(section_grid(c0.sections@[s]) == section_grid(stored.sections@[s]))
                        by {
                        match c0.sections@[s] {
                            Some(sa) => {
                                assert(stored.sections@[s] matches Some(sb) && sa@ == sb@);
                            },
                            None => {
                                assert(stored.sections@[s] is None);
                            },
                        }
                    }
                    assert(forall|k: int|
                        0 <= k < 16 && k != s ==> #[trigger] slot_same(
                            c.sections@[k],
                            stored.sections@[k],
                        ));
                }
                let ghost before = self.chunks@;
                self.chunks.set(i, ((chunk_x, chunk_z), c));
                proof {
                    assert(forall|k: int|
                        0 <= k < self.entries().len() && k != i ==> #[trigger] self.entries()[k]
                            == before[k]);
                    assert(self.entries()[i as int].0 == before[i as int].0);
                }
                Ok(())
            },
        }
    }

    /// Placeholder terrain for an unvisited chunk; the block table that
    /// names these ids is the caller's collaborator, not this crate's.
    fn generate_chunk(_chunk_x: i32, _chunk_z: i32) -> (r: Chunk)
        ensures
            r.wf(),
    {
        let mut chunk = Chunk::empty();
        let mut x: usize = 0;
        while x < 16
            invariant
                chunk.wf(),
            decreases 16 - x,
        {
            let mut z: usize = 0;
            while z < 16
                invariant
                    chunk.wf(),
                    x < 16,
                decreases 16 - z,
            {
                let mut y: usize = 0;
                while y < 16
                    invariant
                        chunk.wf(),
                        x < 16,
                        z < 16,
                    decreases 16 - y,
                {
                    if (x + y + z) / 4 % 3 != 0 {
                        let id: u16 = (((x + y + z) % 13) + 1) as u16;
                        let res = chunk.set_block(x, y, z, id);
                        proof {
                            assert(res is Ok);
                        }
                    }
                    y = y + 1;
                }
                z = z + 1;
            }
            x = x + 1;
        }
        chunk
    }
}

} // verus!
