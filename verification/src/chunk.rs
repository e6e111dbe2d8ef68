//! A chunk column: 16 vertical sections of 16x16x16 block ids, with the
//! serialization into a full chunk-data packet — present sections
//! bit-masked and concatenated, column heights packed into the
//! heightmap tag.

use vstd::prelude::*;

use crate::chunk_section::ChunkSection;
use crate::chunk_section::section_body_ok;
use crate::heightmap::Heightmaps;
use crate::heightmap::Nbt;
use crate::heightmap::heightmap_words;
use crate::packet::client::ChunkData;
use crate::packet::client::PlayPacket;
use crate::protocol::DecodeError;
use crate::var::Var;

verus! {

/// The id of one cell of one column, air where the section is missing.
pub open spec fn col_cell(ss: Seq<Option<ChunkSection>>, x: int, z: int, s: int, y: int) -> u16 {
    match ss[s] {
        Some(sec) => sec@[ChunkSection::index_spec(x, y, z)],
        None => 0,
    }
}

/// Two section slots hold the same thing: both empty, or both present
/// with equal grids.
pub open spec fn slot_same(a: Option<ChunkSection>, b: Option<ChunkSection>) -> bool {
    match a {
        Some(sa) => b matches Some(sb) && sa@ == sb@,
        None => b is None,
    }
}

/// Two columns hold the same sections, slot for slot.
pub open spec fn sections_same(a: Seq<Option<ChunkSection>>, b: Seq<Option<ChunkSection>>) -> bool {
    a.len() == b.len() && (forall|s: int| 0 <= s < a.len() ==> #[trigger] slot_same(a[s], b[s]))
}

/// The grid a section slot holds: the section's cells, or all air when
/// the slot is empty.
pub open spec fn section_grid(slot: Option<ChunkSection>) -> Seq<u16> {
    match slot {
        Some(sec) => sec@,
        None => Seq::new(4096, |i: int| 0u16),
    }
}

/// What a column read returns: nothing outside the column or where the
/// section slot is empty, otherwise the stored id.
pub open spec fn chunk_get_spec(ss: Seq<Option<ChunkSection>>, x: int, y: int, z: int) -> Option<
    u16,
> {
    if !(0 <= x < 16 && 0 <= y < 256 && 0 <= z < 16) {
        None
    } else {
        match ss[y / 16] {
            None => None,
            Some(sec) => Some(sec@[ChunkSection::index_spec(x, y % 16, z)]),
        }
    }
}

/// `h` is the highest block id of the column (zero when the column is
/// all air).
pub open spec fn is_col_max(ss: Seq<Option<ChunkSection>>, x: int, z: int, h: u16) -> bool {
    &&& (h == 0 || exists|s: int, y: int|
        0 <= s < 16 && 0 <= y < 16 && #[trigger] col_cell(ss, x, z, s, y) == h)
    &&& forall|s: int, y: int| 0 <= s < 16 && 0 <= y < 16 ==> #[trigger] col_cell(ss, x, z, s, y)
        <= h
}

/// The bit mask of the first `i` sections: bit `s` set when section `s`
/// is present.
pub open spec fn mask_spec(ss: Seq<Option<ChunkSection>>, i: int) -> i32
    decreases i,
{
    if i <= 0 {
        0
    } else {
        mask_spec(ss, i - 1) | (match ss[i - 1] {
            Some(_) => (1i32 << ((i - 1) as u32)),
            None => 0i32,
        })
    }
}

/// All the byte runs of a list, in order.
pub open spec fn concat_all(bs: Seq<Seq<u8>>) -> Seq<u8>
    decreases bs.len(),
{
    if bs.len() == 0 {
        Seq::empty()
    } else {
        bs[0] + concat_all(bs.drop_first())
    }
}

/// Appending one run appends its bytes.
pub proof fn lemma_concat_all_snoc(bs: Seq<Seq<u8>>, x: Seq<u8>)
    ensures
        concat_all(bs.push(x)) == concat_all(bs) + x,
    decreases bs.len(),
{
    if bs.len() == 0 {
        assert(bs.push(x).drop_first() =~~= Seq::<Seq<u8>>::empty());
        assert(bs.push(x)[0] == x);
        assert(concat_all(bs.push(x)) == x + concat_all(bs.push(x).drop_first()));
        assert(concat_all(bs.push(x)) =~= concat_all(bs) + x);
    } else {
        assert(bs.push(x).drop_first() =~~= bs.drop_first().push(x));
        assert(bs.push(x)[0] == bs[0]);
        lemma_concat_all_snoc(bs.drop_first(), x);
        assert(concat_all(bs.push(x)) == bs.push(x)[0] + concat_all(bs.push(x).drop_first()));
        assert(concat_all(bs.push(x).drop_first()) == concat_all(bs.drop_first().push(x)));
        assert(concat_all(bs.drop_first().push(x)) == concat_all(bs.drop_first()) + x);
        assert(concat_all(bs.push(x)) =~= concat_all(bs) + x);
    }
}

/// `bytes` is the concatenation of the serialized bodies of the present
/// sections, in order, absent sections contributing nothing.
pub open spec fn sections_data_ok(ss: Seq<Option<ChunkSection>>, bytes: Seq<u8>) -> bool {
    exists|bodies: Seq<Seq<u8>>|
        bodies.len() == ss.len() && bytes == #[trigger] concat_all(bodies) && (forall|s: int|
            0 <= s < ss.len() ==> (match ss[s] {
                Some(sec) => section_body_ok(sec@, #[trigger] bodies[s]),
                None => bodies[s] == Seq::<u8>::empty(),
            }))
}

/// A chunk column: 16 sections bottom to top, absent sections all air.
#[derive(Debug, Clone)]
pub struct Chunk {
    pub sections: Vec<Option<ChunkSection>>,
}

impl Chunk {
    /// Sixteen slots, and whatever section is present is a full grid.
    pub open spec fn wf(&self) -> bool {
        self.sections@.len() == 16 && forall|s: int|
            0 <= s < 16 ==> (match #[trigger] self.sections@[s] {
                Some(sec) => sec.wf(),
                None => true,
            })
    }

    /// An all-air column.
    pub fn empty() -> (r: Chunk)
        ensures
            r.wf(),
            forall|s: int| 0 <= s < 16 ==> #[trigger] r.sections@[s] is None,
    {
        let mut sections: Vec<Option<ChunkSection>> = Vec::new();
        let mut i: usize = 0;
        while i < 16
            invariant
                i <= 16,
                sections@.len() == i,
                forall|s: int| 0 <= s < i ==> #[trigger] sections@[s] is None,
            decreases 16 - i,
        {
            sections.push(None);
            i = i + 1;
        }
        Chunk { sections }
    }

    /// The id at a coordinate of the column: nothing outside it or
    /// where no section has been created yet, the stored id otherwise.
    pub fn get_block(&self, x: usize, y: usize, z: usize) -> (r: Option<u16>)
        requires
            self.wf(),
        ensures
            r == chunk_get_spec(self.sections@, x as int, y as int, z as int),
    {
        if x >= 16 || y >= 256 || z >= 16 {
            return None;
        }
        let s = y / 16;
        match &self.sections[s] {
            Some(sec) => {
                let r = sec.get_block(x, y % 16, z);
                r
            },
            None => None,
        }
    }

    /// Set the id at a coordinate, creating the section (as all air)
    /// if absent; every other cell and every other section is as it
    /// was.
    pub fn set_block_raw(&mut self, x: usize, y: usize, z: usize, block_id: u16) -> (r: Result<
        (),
        DecodeError,
    >)
        requires
            old(self).wf(),
        ensures
            final(self).wf(),
            r is Ok <==> x < 16 && y < 256 && z < 16,
            r is Ok ==> {
                let s = y as int / 16;
                &&& final(self).sections@[s] is Some
                &&& section_grid(final(self).sections@[s]) == section_grid(
                    old(self).sections@[s],
                ).update(ChunkSection::index_spec(x as int, y as int % 16, z as int), block_id)
                &&& forall|k: int|
                    0 <= k < 16 && k != s ==> final(self).sections@[k] == old(self).sections@[k]
            },
            r is Err ==> final(self).sections@ == old(self).sections@,
    {
        if x >= 16 || y >= 256 || z >= 16 {
            return Err(DecodeError::BadLength);
        }
        let s = y / 16;
        let mut sec = match &self.sections[s] {
            Some(sec) => sec.clone_section(),
            None => ChunkSection::empty(),
        };
        proof {
            assert(sec@ =~= section_grid(old(self).sections@[s as int]));
        }
        let res = sec.set_block(x, y % 16, z, block_id);
        proof {
            assert(res is Ok);
        }
        self.sections.set(s, Some(sec));
        Ok(())
    }

    /// Set the id at a coordinate, as `set_block_raw` does; the id is the
    /// block's state id, resolved by the caller's block table.
    pub fn set_block(&mut self, x: usize, y: usize, z: usize, block_id: u16) -> (r: Result<
        (),
        DecodeError,
    >)
        requires
            old(self).wf(),
        ensures
            final(self).wf(),
            r is Ok <==> x < 16 && y < 256 && z < 16,
            r is Ok ==> {
                let s = y as int / 16;
                &&& final(self).sections@[s] is Some
                &&& section_grid(final(self).sections@[s]) == section_grid(
                    old(self).sections@[s],
                ).update(ChunkSection::index_spec(x as int, y as int % 16, z as int), block_id)
                &&& forall|k: int|
                    0 <= k < 16 && k != s ==> final(self).sections@[k] == old(self).sections@[k]
            },
            r is Err ==> final(self).sections@ == old(self).sections@,
    {
        self.set_block_raw(x, y, z, block_id)
    }

    /// The highest block id found in a column.
    pub fn get_heighest_position(&self, x: usize, z: usize) -> (r: Result<u16, DecodeError>)
        requires
            self.wf(),
            x < 16,
            z < 16,
        ensures
            (match r {
                Ok(h) => is_col_max(self.sections@, x as int, z as int, h),
                Err(_) => false,
            }),
    {
        let mut heighest: u16 = 0;
        let mut s: usize = 0;
        while s < 16
            invariant
                self.wf(),
                x < 16,
                z < 16,
                s <= 16,
                heighest == 0 || exists|s0: int, y0: int|
                    0 <= s0 < 16 && 0 <= y0 < 16 && #[trigger] col_cell(
                        self.sections@,
                        x as int,
                        z as int,
                        s0,
                        y0,
                    ) == heighest,
                forall|s0: int, y0: int|
                    0 <= s0 < s && 0 <= y0 < 16 ==> #[trigger] col_cell(
                        self.sections@,
                        x as int,
                        z as int,
                        s0,
                        y0,
                    ) <= heighest,
            decreases 16 - s,
        {
            let mut y: usize = 0;
            while y < 16
                invariant
                    self.wf(),
                    x < 16,
                    z < 16,
                    s < 16,
                    y <= 16,
                    heighest == 0 || exists|s0: int, y0: int|
                        0 <= s0 < 16 && 0 <= y0 < 16 && #[trigger] col_cell(
                            self.sections@,
                            x as int,
                            z as int,
                            s0,
                            y0,
                        ) == heighest,
                    forall|s0: int, y0: int|
                        0 <= s0 < s && 0 <= y0 < 16 ==> #[trigger] col_cell(
                            self.sections@,
                            x as int,
                            z as int,
                            s0,
                            y0,
                        ) <= heighest,
                    forall|y0: int|
                        0 <= y0 < y ==> #[trigger] col_cell(
                            self.sections@,
                            x as int,
                            z as int,
                            s as int,
                            y0,
                        ) <= heighest,
                decreases 16 - y,
            {
                let cell: u16 = match &self.sections[s] {
                    Some(sec) => match sec.get_block(x, y, z) {
                        Some(id) => id,
                        None => 0,
                    },
                    None => 0,
                };
                assert(cell == col_cell(self.sections@, x as int, z as int, s as int, y as int));
                if heighest < cell {
                    heighest = cell;
                }
                y = y + 1;
            }
            s = s + 1;
        }
        Ok(heighest)
    }

    /// Serialize the column into a full chunk-data packet: the present
    /// sections' bit mask and concatenated bodies, the packed column
    /// heights, the flat biome table.
    pub fn to_packet(&self, chunk_x: i32, chunk_z: i32) -> (r: Result<PlayPacket, DecodeError>)
        requires
            self.wf(),
        ensures
            (match r {
                Ok(p) => p matches PlayPacket::ChunkData(cd) && {
                    &&& cd.chunk_x == chunk_x
                    &&& cd.chunk_z == chunk_z
                    &&& cd.full_chunk
                    &&& cd.primary_bit_mask == Var(mask_spec(self.sections@, 16))
                    &&& cd.biomes matches Some(bs) && bs@ == Seq::new(1024, |i: int| 127i32)
                    &&& cd.block_entities@.len() == 0
                    &&& sections_data_ok(self.sections@, cd.data@)
                    &&& exists|h: Seq<u16>|
                        h.len() == 256 && (forall|x: int, z: int|
                            0 <= x < 16 && 0 <= z < 16 ==> #[trigger] is_col_max(
                                self.sections@,
                                x,
                                z,
                                h[x * 16 + z],
                            )) && cd.heightmaps.0.motion_blocking@ == Seq::new(
                            36,
                            |i: int| heightmap_words(h)[i] as i64,
                        )
                },
                Err(_) => false,
            }),
    {
        let mut data: Vec<u8> = Vec::new();
        let mut primary_bit_mask: i32 = 0;
        let mut s: usize = 0;
        let ghost mut bodies: Seq<Seq<u8>> = Seq::empty();
        while s < 16
            invariant
                self.wf(),
                s <= 16,
                primary_bit_mask == mask_spec(self.sections@, s as int),
                bodies.len() == s,
                data@ == concat_all(bodies),
                forall|k: int|
                    0 <= k < s ==> (match self.sections@[k] {
                        Some(sec) => section_body_ok(sec@, #[trigger] bodies[k]),
                        None => bodies[k] == Seq::<u8>::empty(),
                    }),
                data@.len() <= s * 30000,
            decreases 16 - s,
        {
            match &self.sections[s] {
                Some(sec) => {
                    let sbit: i32 = 1i32 << (s as u32);
                    primary_bit_mask = primary_bit_mask | sbit;
                    let ghost before = data@;
                    sec.proto_encode_body(&mut data);
                    proof {
                        let body = choose|body: Seq<u8>|
                            data@ == before + body && #[trigger] section_body_ok(sec@, body);
                        lemma_concat_all_snoc(bodies, body);
                        bodies = bodies.push(body);
                    }
                },
                None => {
                    proof {
                        lemma_concat_all_snoc(bodies, Seq::empty());
                        bodies = bodies.push(Seq::empty());
                        assert(data@ =~= concat_all(bodies));
                        let m = primary_bit_mask;
                        assert(m | 0i32 == m) by (bit_vector);
                    }
                },
            }
            s = s + 1;
        }
        proof {
            assert(bodies.len() == self.sections@.len());
            assert(sections_data_ok(self.sections@, data@));
        }
        // the column heights, highest block id per column
        let mut height_map: Vec<u16> = Vec::new();
        let mut x: usize = 0;
        while x < 16
            invariant
                self.wf(),
                x <= 16,
                height_map@.len() == x * 16,
                forall|x0: int, z0: int|
                    0 <= x0 < x && 0 <= z0 < 16 ==> #[trigger] is_col_max(
                        self.sections@,
                        x0,
                        z0,
                        height_map@[x0 * 16 + z0],
                    ),
            decreases 16 - x,
        {
            let mut z: usize = 0;
            while z < 16
                invariant
                    self.wf(),
                    x < 16,
                    z <= 16,
                    height_map@.len() == x * 16 + z,
                    forall|x0: int, z0: int|
                        0 <= x0 < x && 0 <= z0 < 16 ==> #[trigger] is_col_max(
                            self.sections@,
                            x0,
                            z0,
                            height_map@[x0 * 16 + z0],
                        ),
                    forall|z0: int|
                        0 <= z0 < z ==> #[trigger] is_col_max(
                            self.sections@,
                            x as int,
                            z0,
                            height_map@[x as int * 16 + z0],
                        ),
                decreases 16 - z,
            {
                let h = match self.get_heighest_position(x, z) {
                    Ok(h) => h,
                    Err(e) => {
                        return Err(e);
                    },
                };
                height_map.push(h);
                z = z + 1;
            }
            x = x + 1;
        }
        let heightmaps = Heightmaps::from_array(&height_map);
        // the flat biome table
        let mut biomes: Vec<i32> = Vec::new();
        let mut i: usize = 0;
        while i < 1024
            invariant
                i <= 1024,
                biomes@.len() == i,
                forall|k: int| 0 <= k < i ==> #[trigger] biomes@[k] == 127i32,
            decreases 1024 - i,
        {
            biomes.push(127);
            i = i + 1;
        }
        proof {
            assert(biomes@ =~= Seq::new(1024, |i: int| 127i32));
        }
        let packet = PlayPacket::ChunkData(
            ChunkData {
                chunk_x,
                chunk_z,
                full_chunk: true,
                primary_bit_mask: Var(primary_bit_mask),
                heightmaps: Nbt(heightmaps),
                biomes: Some(biomes),
                data,
                block_entities: Vec::new(),
            },
        );
        Ok(packet)
    }
}

} // verus!
