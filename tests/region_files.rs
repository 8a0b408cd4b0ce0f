use fastnbt::Value;
use std::collections::HashMap;
use voxel_world::block_definitions::Block;
use voxel_world::chunk_nbt::encode_chunk;
use voxel_world::region::{build_region, region_coords, RegionChunk, RegionError};
use voxel_world::world_editor::WorldEditor;

fn be32(b: &[u8]) -> u32 {
    u32::from_be_bytes([b[0], b[1], b[2], b[3]])
}

fn compound(v: &Value) -> &HashMap<String, Value> {
    match v {
        Value::Compound(m) => m,
        _ => panic!("not a compound"),
    }
}

/// Reads every chunk of a region file back into (chunk x, chunk z, root).
fn read_region(bytes: &[u8]) -> Vec<(i32, i32, Value)> {
    assert!(bytes.len() >= 8192);
    assert_eq!(bytes.len() % 4096, 0);
    let mut out = Vec::new();
    for slot in 0..1024 {
        let entry = be32(&bytes[slot * 4..slot * 4 + 4]);
        if entry == 0 {
            continue;
        }
        let offset = (entry >> 8) as usize * 4096;
        let sectors = (entry & 0xff) as usize;
        let len = be32(&bytes[offset..offset + 4]) as usize;
        assert!(len + 4 <= sectors * 4096);
        assert_eq!(bytes[offset + 4], 2);
        let data = miniz_oxide::inflate::decompress_to_vec_zlib(&bytes[offset + 5..offset + 4 + len]).unwrap();
        let root: Value = fastnbt::from_bytes(&data).unwrap();
        let m = compound(&root);
        let cx = match m["xPos"] {
            Value::Int(v) => v,
            _ => panic!(),
        };
        let cz = match m["zPos"] {
            Value::Int(v) => v,
            _ => panic!(),
        };
        assert_eq!(slot, (cx.rem_euclid(32) + 32 * cz.rem_euclid(32)) as usize);
        out.push((cx, cz, root));
    }
    out
}

/// The block name that an encoded chunk gives to a position, air where no
/// section was written.
fn block_at(root: &Value, x: i32, y: i32, z: i32) -> String {
    let m = compound(root);
    let sections = match &m["sections"] {
        Value::List(l) => l,
        _ => panic!(),
    };
    for s in sections {
        let sm = compound(s);
        let sy = match sm["Y"] {
            Value::Byte(b) => b as i32,
            _ => panic!(),
        };
        if sy != y.div_euclid(16) {
            continue;
        }
        let states = compound(&sm["block_states"]);
        let palette = match &states["palette"] {
            Value::List(l) => l,
            _ => panic!(),
        };
        let index = if palette.len() == 1 {
            0
        } else {
            let words = match &states["data"] {
                Value::LongArray(a) => a.to_vec(),
                _ => panic!(),
            };
            let mut bits = 4;
            while (1usize << bits) < palette.len() {
                bits += 1;
            }
            let per = 64 / bits;
            let i = (y.rem_euclid(16) * 256 + z.rem_euclid(16) * 16 + x.rem_euclid(16)) as usize;
            let word = words[i / per] as u64;
            ((word >> ((i % per) * bits)) & ((1u64 << bits) - 1)) as usize
        };
        return match &compound(&palette[index])["Name"] {
            Value::String(n) => n.clone(),
            _ => panic!(),
        };
    }
    "minecraft:air".to_string()
}

#[test]
fn region_round_trip() {
    let mut w = WorldEditor::new();
    let written = vec![
        ((0, 0, 0), Block::Stone),
        ((15, 319, 15), Block::Glass),
        ((3, -64, 7), Block::Bedrock),
        ((-1, 5, -1), Block::Carrots),
        ((40, 70, -300), Block::OakLog),
        ((1000, 64, 1000), Block::Water),
    ];
    for &((x, y, z), b) in &written {
        w.set_block(b, x, y, z, None, None);
    }
    for i in 0..40 {
        w.set_block(if i % 2 == 0 { Block::Dirt } else { Block::Sand }, i, 10, 1, None, None);
    }
    let mut chunks: HashMap<(i32, i32), Value> = HashMap::new();
    let regions = w.regions();
    assert_eq!(regions, vec![(0, 0), (-1, -1), (0, -1), (1, 1)]);
    for (rx, rz) in regions {
        let bytes = w.region_file(rx, rz).unwrap();
        for (cx, cz, root) in read_region(&bytes) {
            assert_eq!(region_coords(cx, cz), (rx, rz));
            chunks.insert((cx, cz), root);
        }
    }
    assert_eq!(chunks.len(), w.chunk_list().len());
    for &((x, y, z), b) in &written {
        let root = &chunks[&(x.div_euclid(16), z.div_euclid(16))];
        assert_eq!(block_at(root, x, y, z), format!("minecraft:{}", b.name()));
    }
    let root = &chunks[&(0, 0)];
    for i in 0..16 {
        let expected = if i % 2 == 0 { "minecraft:dirt" } else { "minecraft:sand" };
        assert_eq!(block_at(root, i, 10, 1), expected);
    }
    assert_eq!(block_at(root, 1, 0, 0), "minecraft:air");
    assert_eq!(block_at(root, 0, 200, 0), "minecraft:air");
}

#[test]
fn chunk_encoding_fields() {
    let mut w = WorldEditor::new();
    w.set_block(Block::Sign, -20, -10, 33, None, None);
    let bytes = encode_chunk(&w, -2, 2);
    let root: Value = fastnbt::from_bytes(&bytes).unwrap();
    let m = compound(&root);
    assert_eq!(m["xPos"], Value::Int(-2));
    assert_eq!(m["zPos"], Value::Int(2));
    assert_eq!(m["yPos"], Value::Int(-4));
    assert_eq!(m["DataVersion"], Value::Int(3465));
    assert_eq!(m["Status"], Value::String("minecraft:full".to_string()));
    let sections = match &m["sections"] {
        Value::List(l) => l,
        _ => panic!(),
    };
    assert_eq!(sections.len(), 1);
    let sm = compound(&sections[0]);
    assert_eq!(sm["Y"], Value::Byte(-1));
    let states = compound(&sm["block_states"]);
    let palette = match &states["palette"] {
        Value::List(l) => l,
        _ => panic!(),
    };
    assert_eq!(palette.len(), 2);
    let sign = compound(&palette[1]);
    assert_eq!(sign["Name"], Value::String("minecraft:oak_sign".to_string()));
    let props = compound(&sign["Properties"]);
    assert_eq!(props["rotation"], Value::String("6".to_string()));
    assert_eq!(props["waterlogged"], Value::String("false".to_string()));
    assert_eq!(block_at(&root, -20, -10, 33), "minecraft:oak_sign");
}

#[test]
fn explicit_air_section_has_no_data() {
    let mut w = WorldEditor::new();
    w.set_block(Block::Air, 0, 0, 0, None, None);
    let bytes = encode_chunk(&w, 0, 0);
    let root: Value = fastnbt::from_bytes(&bytes).unwrap();
    let sections = match &compound(&root)["sections"] {
        Value::List(l) => l.clone(),
        _ => panic!(),
    };
    let states = compound(&compound(&sections[0])["block_states"]).clone();
    assert!(!states.contains_key("data"));
    assert_eq!(block_at(&root, 0, 0, 0), "minecraft:air");
}

#[test]
fn oversized_chunk_is_refused() {
    let chunks = vec![
        RegionChunk { cx: 0, cz: 0, payload: vec![1, 2, 3] },
        RegionChunk { cx: 5, cz: 1, payload: vec![0; 255 * 4096] },
    ];
    assert_eq!(build_region(&chunks), Err(RegionError::ChunkTooLarge { cx: 5, cz: 1 }));
}

#[test]
fn region_layout_by_hand() {
    let chunks = vec![RegionChunk { cx: 33, cz: -1, payload: vec![9; 10] }];
    let bytes = build_region(&chunks).unwrap();
    assert_eq!(bytes.len(), 3 * 4096);
    let slot = 1 + 32 * 31;
    assert_eq!(be32(&bytes[slot * 4..slot * 4 + 4]), (2 << 8) | 1);
    assert_eq!(be32(&bytes[8192..8196]), 11);
    assert_eq!(bytes[8196], 2);
    assert_eq!(&bytes[8197..8207], &[9u8; 10][..]);
    assert!(bytes[8207..].iter().all(|&b| b == 0));
    assert!(bytes[4096..8192].iter().all(|&b| b == 0));
}

#[test]
fn region_coordinates_round_down() {
    assert_eq!(region_coords(0, 31), (0, 0));
    assert_eq!(region_coords(-1, 32), (-1, 1));
    assert_eq!(region_coords(-33, -32), (-2, -1));
}
