// The transport pipeline: framing, the compression threshold, the
// stream cipher, and the chunk-section bit packing.

use kareki::chunk::Chunk;
use kareki::chunk_section::{unpack_indices, ChunkSection};
use kareki::cipher::StreamCipher;
use kareki::frame::{Reader, Writer};
use kareki::heightmap::Heightmaps;
use kareki::packet::client::PlayPacket;
use kareki::protocol::{ProtocolRead, ProtocolWrite};
use kareki::var::Var;
use kareki::world::World;

fn read_varint(bytes: &[u8], pos: usize) -> (i32, usize) {
    let (v, end) = <Var<i32>>::proto_decode(bytes, pos).expect("varint");
    (v.0, end)
}

#[test]
fn plain_frame_declares_its_body_length() {
    let mut w = Writer::new();
    let body: Vec<u8> = (0u8..50).collect();
    let out = w.write_frame(&body).expect("frame");
    let (len, pos) = read_varint(&out, 0);
    assert_eq!(len as usize, out.len() - pos);
    assert_eq!(&out[pos..], &body[..]);
}

#[test]
fn reader_reassembles_plain_frames() {
    let mut w = Writer::new();
    let body: Vec<u8> = (0u8..50).collect();
    let out = w.write_frame(&body).expect("frame");
    let mut r = Reader::new();
    // a partial feed is not yet a frame
    r.feed(out[..10].to_vec());
    assert_eq!(r.try_next().expect("need more"), None);
    r.feed(out[10..].to_vec());
    let got = r.try_next().expect("frame").expect("whole");
    assert_eq!(got, body);
    assert_eq!(r.try_next().expect("empty"), None);
}

#[test]
fn body_below_threshold_is_never_compressed() {
    let mut w = Writer::new();
    w.set_compress(64);
    let body: Vec<u8> = (0u8..63).collect();  // threshold - 1
    let out = w.write_frame(&body).expect("frame");
    let (_outer, pos) = read_varint(&out, 0);
    let (inner, pos2) = read_varint(&out, pos);
    assert_eq!(inner, 0);
    assert_eq!(&out[pos2..], &body[..]);
}

#[test]
fn body_at_threshold_is_always_compressed() {
    let mut w = Writer::new();
    w.set_compress(64);
    let body: Vec<u8> = std::iter::repeat(7u8).take(64).collect();  // exactly threshold
    let out = w.write_frame(&body).expect("frame");
    let (_outer, pos) = read_varint(&out, 0);
    let (inner, pos2) = read_varint(&out, pos);
    assert_eq!(inner, 64);
    assert_ne!(&out[pos2..], &body[..]);
}

#[test]
fn compressed_eighty_byte_packet_inflates_to_eighty() {
    let mut w = Writer::new();
    w.set_compress(64);
    let body: Vec<u8> = (0u8..80).collect();
    let out = w.write_frame(&body).expect("frame");
    let (outer, pos) = read_varint(&out, 0);
    assert_eq!(outer as usize, out.len() - pos);
    let (inner, pos2) = read_varint(&out, pos);
    assert_eq!(inner, 80);
    let mut dec = flate2::bufread::ZlibDecoder::new(&out[pos2..]);
    let mut inflated = Vec::new();
    std::io::Read::read_to_end(&mut dec, &mut inflated).expect("inflate");
    assert_eq!(inflated.len(), 80);
    assert_eq!(inflated, body);
    // the verified reader agrees
    let mut r = Reader::new();
    r.set_compress(64);
    r.feed(out);
    assert_eq!(r.try_next().expect("frame").expect("whole"), body);
}

#[test]
fn cipher_round_trips_with_two_instances() {
    let key = [7u8; 16];
    let mut enc = StreamCipher::new_encryptor(&key);
    let mut dec = StreamCipher::new_decryptor(&key);
    let plain: Vec<u8> = (0u8..100).collect();
    let mut data = plain.clone();
    enc.encrypt(&mut data);
    assert_ne!(data, plain);
    dec.decrypt(&mut data);
    assert_eq!(data, plain);
}

#[test]
fn encrypted_frames_survive_the_pipeline() {
    let key = [42u8; 16];
    let mut w = Writer::new();
    w.set_encryptor(StreamCipher::new_encryptor(&key));
    w.set_compress(32);
    let mut r = Reader::new();
    r.set_decryptor(StreamCipher::new_decryptor(&key));
    r.set_compress(32);
    for i in 0..3u8 {
        let body: Vec<u8> = (0u8..60).map(|b| b.wrapping_add(i)).collect();
        let out = w.write_frame(&body).expect("frame");
        r.feed(out);
        assert_eq!(r.try_next().expect("frame").expect("whole"), body);
    }
}

fn palette_and_words(grid: &ChunkSection) -> (i16, u8, Vec<Var<i32>>, Vec<u64>) {
    let palette = grid.make_palette();
    let data = grid_data(grid);
    let (count, bpb, palette, words) = ChunkSection::from_array_and_palette(&data, palette);
    (count, bpb, palette.expect("palette"), words)
}

fn grid_data(grid: &ChunkSection) -> Vec<u16> {
    let mut out = Vec::new();
    for y in 0..16 {
        for z in 0..16 {
            for x in 0..16 {
                out.push(grid.get_block(x, y, z).expect("in range"));
            }
        }
    }
    out
}

fn check_unpack_equivalence(section: &ChunkSection) {
    let data = grid_data(section);
    let (count, bpb, palette, words) = palette_and_words(section);
    // the palette is sorted, duplicate-free, and holds air
    assert!(palette.windows(2).all(|w| w[0].0 < w[1].0));
    assert!(palette.iter().any(|v| v.0 == 0));
    assert!((4..=13).contains(&bpb));
    let n = palette.len();
    assert!(n <= 1 << bpb);
    assert!(bpb == 4 || n > 1 << (bpb - 1));
    assert_eq!(count as usize, data.iter().filter(|&&c| c != 0).count());
    // unpack and map back through the palette: the original grid
    let indices = unpack_indices(&words, bpb);
    assert_eq!(indices.len(), 4096);
    let rebuilt: Vec<u16> = indices
        .iter()
        .map(|&i| palette[i as usize].0 as u16)
        .collect();
    assert_eq!(rebuilt, data);
}

#[test]
fn chunk_pack_unpack_all_air() {
    let section = ChunkSection::empty();
    let (_, bpb, palette, _) = palette_and_words(&section);
    assert_eq!(palette.len(), 1);
    assert_eq!(palette[0], Var(0));
    assert_eq!(bpb, 4);
    check_unpack_equivalence(&section);
}

#[test]
fn chunk_pack_unpack_one_value() {
    let mut section = ChunkSection::empty();
    for y in 0..16 {
        for z in 0..16 {
            for x in 0..16 {
                section.set_block(x, y, z, 9).expect("in range");
            }
        }
    }
    check_unpack_equivalence(&section);
}

#[test]
fn chunk_pack_unpack_all_distinct() {
    let mut section = ChunkSection::empty();
    let mut id = 0u16;
    for y in 0..16 {
        for z in 0..16 {
            for x in 0..16 {
                section.set_block(x, y, z, id).expect("in range");
                id += 1;
            }
        }
    }
    check_unpack_equivalence(&section);
}

#[test]
fn chunk_packet_has_mask_and_heightmap() {
    let mut chunk = Chunk::empty();
    for x in 0..16 {
        for z in 0..16 {
            chunk.set_block(x, 5, z, 2).expect("in range");
        }
    }
    let packet = chunk.to_packet(3, -4).expect("packet");
    match packet {
        PlayPacket::ChunkData(cd) => {
            assert_eq!(cd.chunk_x, 3);
            assert_eq!(cd.chunk_z, -4);
            assert!(cd.full_chunk);
            assert_eq!(cd.primary_bit_mask, Var(1));  // only section 0 present
            assert_eq!(cd.biomes.as_ref().map(|b| b.len()), Some(1024));
            assert_eq!(cd.heightmaps.0.motion_blocking.len(), 36);
            assert!(!cd.data.is_empty());
        }
        _ => panic!("expected chunk data"),
    }
}

#[test]
fn heightmap_packs_nine_bit_values() {
    let mut heights = vec![0u16; 256];
    heights[0] = 0x1ff;
    heights[1] = 1;
    let h = Heightmaps::from_array(&heights);
    assert_eq!(h.motion_blocking.len(), 36);
    // cell 0 occupies bits 0..9, cell 1 bits 9..18 of the first word
    let w0 = h.motion_blocking[0] as u64;
    assert_eq!(w0 & 0x1ff, 0x1ff);
    assert_eq!((w0 >> 9) & 0x1ff, 1);
}

#[test]
fn heightmap_wire_is_a_named_long_array_tag() {
    let heights = vec![0u16; 256];
    let h = Heightmaps::from_array(&heights);
    let mut out = Vec::new();
    h.proto_encode(&mut out);
    // compound, empty name, long array tag, name length 15
    assert_eq!(&out[..6], &[0x0a, 0x00, 0x00, 0x0c, 0x00, 0x0f]);
    assert_eq!(&out[6..21], b"MOTION_BLOCKING");
    // 36 entries, then the payload and the closing end tag
    assert_eq!(&out[21..25], &[0x00, 0x00, 0x00, 0x24]);
    assert_eq!(out.len(), 25 + 36 * 8 + 1);
    assert_eq!(*out.last().unwrap(), 0x00);
}

#[test]
fn world_fetches_and_sets_blocks() {
    let mut world = World::new();
    let chunk = world.fetch_chunk(0, 0).expect("generated");
    assert_eq!(chunk.sections.len(), 16);
    world.set_block(3, 5, 4, 77).expect("set");
    let got = world.get_block(3, 5, 4).expect("get");
    assert_eq!(got, Some(77));
    // a miss outside loaded chunks is a quiet no-op
    world.set_block(1000, 5, 1000, 1).expect("no-op");
    assert_eq!(world.get_block(1000, 5, 1000).expect("get"), None);
}

#[test]
fn missing_sections_read_as_nothing() {
    // a column with no sections answers None, as an unloaded slot is
    // not the same as stored air
    let chunk = Chunk::empty();
    assert_eq!(chunk.get_block(0, 0, 0), None);
    assert_eq!(chunk.get_block(3, 200, 7), None);
    // out of range is also None
    assert_eq!(chunk.get_block(16, 0, 0), None);
    let mut chunk = Chunk::empty();
    chunk.set_block(1, 2, 3, 0).expect("set air");
    // now the section exists, and stored air reads back as such
    assert_eq!(chunk.get_block(1, 2, 3), Some(0));
}

#[test]
fn fetch_chunk_returns_the_stored_contents() {
    let mut world = World::new();
    world.fetch_chunk(2, 2).expect("generate");
    world.set_block(2 * 16 + 1, 9, 2 * 16 + 5, 321).expect("set");
    let before = world.get_block(2 * 16 + 1, 9, 2 * 16 + 5).expect("get");
    assert_eq!(before, Some(321));
    // fetching again regenerates nothing and hands back the same cells
    let again = world.fetch_chunk(2, 2).expect("cached");
    assert_eq!(again.get_block(1, 9, 5), Some(321));
}

#[test]
fn uuid_formats_hyphenated() {
    let u = kareki::uuid::Uuid {
        msb: 0xaf6c5ee28eeb8099,
        lsb: 0xb8ce253c50b0d8a8,
    };
    assert_eq!(u.to_hyphenated_string(), "af6c5ee2-8eeb-8099-b8ce-253c50b0d8a8");
}
