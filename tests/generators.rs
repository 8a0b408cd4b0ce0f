use voxel_world::block_definitions::Block;
use voxel_world::elements::{tag_is_negative, Args, ProcessedElement, ProcessedNode, ProcessedWay, Tags};
use voxel_world::highways::{generate_aeroway, generate_highways, generate_siding};
use voxel_world::landuse::{generate_landuse, landuse_block};
use voxel_world::leisure::{generate_leisure, leisure_block};
use voxel_world::random::is_multiple;
use voxel_world::tree::create_tree;
use voxel_world::world_editor::WorldEditor;

fn tags(pairs: &[(&str, &str)]) -> Tags {
    let mut t = Tags::new();
    for (k, v) in pairs {
        t.insert(k.to_string(), v.to_string());
    }
    t
}

fn node(x: i32, z: i32) -> ProcessedNode {
    ProcessedNode { id: 0, tags: Tags::new(), x, z }
}

fn way(points: &[(i32, i32)], pairs: &[(&str, &str)]) -> ProcessedWay {
    ProcessedWay { id: 1, nodes: points.iter().map(|&(x, z)| node(x, z)).collect(), tags: tags(pairs) }
}

fn summer() -> Args {
    Args { winter: false, timeout: None }
}

fn count_blocks(w: &WorldEditor, lo: (i32, i32, i32), hi: (i32, i32, i32)) -> usize {
    let mut n = 0;
    for x in lo.0..=hi.0 {
        for y in lo.1..=hi.1 {
            for z in lo.2..=hi.2 {
                if w.get_block(x, y, z).is_some() {
                    n += 1;
                }
            }
        }
    }
    n
}

#[test]
fn tags_insert_replaces() {
    let mut t = tags(&[("highway", "path"), ("lanes", "2")]);
    assert_eq!(t.get("lanes").map(|s| s.as_str()), Some("2"));
    t.insert("lanes".to_string(), "4".to_string());
    assert_eq!(t.get("lanes").map(|s| s.as_str()), Some("4"));
    assert!(t.has("highway", "path"));
    assert!(!t.has("highway", "road"));
    assert_eq!(t.get("surface"), None);
}

#[test]
fn negative_layer_detection() {
    assert!(tag_is_negative(&tags(&[("layer", "-1")]), "layer"));
    assert!(!tag_is_negative(&tags(&[("layer", "2")]), "layer"));
    assert!(!tag_is_negative(&tags(&[("layer", "x")]), "layer"));
    assert!(!tag_is_negative(&tags(&[]), "layer"));
    assert!(tag_is_negative(&tags(&[("level", "-12")]), "level"));
}

#[test]
fn multiples_follow_rust_remainder() {
    assert!(is_multiple(-9, 3));
    assert!(is_multiple(0, 15));
    assert!(!is_multiple(-7, 3));
    assert!(is_multiple(30, 15));
}

#[test]
fn tree_on_grass_grows() {
    let mut w = WorldEditor::new();
    w.set_block(Block::GrassBlock, 0, 0, 0, None, None);
    create_tree(&mut w, 0, 1, 0, 1, false);
    assert_eq!(w.get_block(0, 1, 0), Some(Block::OakLog));
    assert_eq!(w.get_block(0, 9, 0), Some(Block::OakLog));
    assert_eq!(w.get_block(0, 10, 0), Some(Block::OakLeaves));
    assert_eq!(w.get_block(0, 12, 0), None);
}

#[test]
fn tree_on_water_does_not_grow() {
    let mut w = WorldEditor::new();
    w.set_block(Block::Water, 0, 0, 0, None, None);
    create_tree(&mut w, 0, 1, 0, 2, true);
    assert_eq!(count_blocks(&w, (-4, 0, -4), (4, 14, 4)), 1);
}

#[test]
fn tree_of_unknown_kind_does_nothing() {
    let mut w = WorldEditor::new();
    create_tree(&mut w, 0, 1, 0, 9, false);
    assert_eq!(count_blocks(&w, (-4, 0, -4), (4, 14, 4)), 0);
}

#[test]
fn winter_birch_has_snow() {
    let mut w = WorldEditor::new();
    create_tree(&mut w, 0, 1, 0, 3, true);
    assert_eq!(w.get_block(0, 10, 0), Some(Block::SnowLayer));
    assert_eq!(w.get_block(0, 1, 0), Some(Block::BirchLog));
}

#[test]
fn street_lamp_node() {
    let mut w = WorldEditor::new();
    let mut n = node(3, 4);
    n.tags = tags(&[("highway", "street_lamp")]);
    generate_highways(&mut w, &ProcessedElement::Node(n), 10, &summer());
    for y in 11..=14 {
        assert_eq!(w.get_block(3, y, 4), Some(Block::OakFence));
    }
    assert_eq!(w.get_block(3, 15, 4), Some(Block::Glowstone));
}

#[test]
fn element_without_highway_tag_changes_nothing() {
    let mut w = WorldEditor::new();
    let e = ProcessedElement::Way(way(&[(0, 0), (10, 0)], &[("name", "x")]));
    generate_highways(&mut w, &e, 0, &summer());
    assert!(w.chunk_list().is_empty());
}

#[test]
fn footway_is_three_wide() {
    let mut w = WorldEditor::new();
    let e = ProcessedElement::Way(way(&[(0, 0), (10, 0)], &[("highway", "footway")]));
    generate_highways(&mut w, &e, 0, &summer());
    assert_eq!(w.get_block(5, 0, 1), Some(Block::GrayConcrete));
    assert_eq!(w.get_block(5, 0, -1), Some(Block::GrayConcrete));
    assert_eq!(w.get_block(5, 0, 2), None);
}

#[test]
fn motorway_has_stripe() {
    let mut w = WorldEditor::new();
    let e = ProcessedElement::Way(way(&[(0, 0), (20, 0)], &[("highway", "motorway")]));
    generate_highways(&mut w, &e, 0, &summer());
    assert_eq!(w.get_block(2, 0, 0), Some(Block::WhiteConcrete));
    assert_eq!(w.get_block(7, 0, 0), Some(Block::BlackConcrete));
    assert_eq!(w.get_block(12, 0, 0), Some(Block::WhiteConcrete));
    assert_eq!(w.get_block(3, 0, 5), Some(Block::BlackConcrete));
}

#[test]
fn negative_layer_road_skipped() {
    let mut w = WorldEditor::new();
    let e = ProcessedElement::Way(way(&[(0, 0), (10, 0)], &[("highway", "primary"), ("layer", "-1")]));
    generate_highways(&mut w, &e, 0, &summer());
    assert!(w.chunk_list().is_empty());
}

#[test]
fn pedestrian_area_paved() {
    let mut w = WorldEditor::new();
    let e = ProcessedElement::Way(way(
        &[(0, 0), (6, 0), (6, 6), (0, 6), (0, 0)],
        &[("highway", "pedestrian"), ("area", "yes"), ("surface", "wood")],
    ));
    generate_highways(&mut w, &e, 2, &summer());
    assert_eq!(w.get_block(3, 2, 3), Some(Block::OakPlanks));
}

#[test]
fn siding_avoids_road_paint() {
    let mut w = WorldEditor::new();
    w.set_block(Block::WhiteConcrete, 2, 0, 0, None, None);
    generate_siding(&mut w, &way(&[(0, 0), (4, 0)], &[]), 0);
    assert_eq!(w.get_block(1, 1, 0), Some(Block::StoneBrickSlab));
    assert_eq!(w.get_block(2, 1, 0), None);
}

#[test]
fn aeroway_strip() {
    let mut w = WorldEditor::new();
    generate_aeroway(&mut w, &way(&[(0, 0), (0, 0)], &[]), 0);
    assert_eq!(count_blocks(&w, (-20, 0, -20), (20, 0, 20)), 14 * 14);
    assert_eq!(w.get_block(-12, 0, 1), Some(Block::LightGrayConcrete));
}

#[test]
fn landuse_blocks() {
    assert_eq!(landuse_block("farmland", false), Block::Farmland);
    assert_eq!(landuse_block("forest", true), Block::SnowBlock);
    assert_eq!(landuse_block("unknown", false), Block::GrassBlock);
    assert_eq!(landuse_block("railway", false), Block::Gravel);
}

#[test]
fn residential_landuse_floor() {
    let mut w = WorldEditor::new();
    let wy = way(&[(0, 0), (8, 0), (8, 8), (0, 8), (0, 0)], &[("landuse", "residential")]);
    generate_landuse(&mut w, &wy, 0, &summer());
    assert_eq!(w.get_block(4, 0, 4), Some(Block::StoneBricks));
    assert_eq!(w.get_block(0, 0, 4), Some(Block::GrassBlock));
}

#[test]
fn leisure_blocks() {
    let sand = "sand".to_string();
    assert_eq!(leisure_block("pitch", Some(&sand), false), Block::Sand);
    assert_eq!(leisure_block("pitch", None, false), Block::GreenStainedHardenedClay);
    assert_eq!(leisure_block("swimming_pool", None, true), Block::Water);
    assert_eq!(leisure_block("park", None, true), Block::SnowBlock);
}

#[test]
fn pool_fills_over_grass() {
    let mut w = WorldEditor::new();
    w.fill_blocks(Block::GrassBlock, -2, 0, -2, 10, 0, 10, None, None);
    let wy = way(&[(0, 0), (8, 0), (8, 8), (0, 8), (0, 0)], &[("leisure", "swimming_pool")]);
    generate_leisure(&mut w, &wy, 0, &summer());
    assert_eq!(w.get_block(4, 0, 4), Some(Block::Water));
    assert_eq!(w.get_block(0, 0, 0), Some(Block::Water));
    assert_eq!(w.get_block(-1, 0, -1), Some(Block::GrassBlock));
}

#[test]
fn leisure_without_tag_changes_nothing() {
    let mut w = WorldEditor::new();
    generate_leisure(&mut w, &way(&[(0, 0), (8, 0), (8, 8)], &[]), 0, &summer());
    assert!(w.chunk_list().is_empty());
}

fn all_blocks(w: &WorldEditor, lo: (i32, i32, i32), hi: (i32, i32, i32)) -> Vec<((i32, i32, i32), Block)> {
    let mut out = Vec::new();
    for x in lo.0..=hi.0 {
        for y in lo.1..=hi.1 {
            for z in lo.2..=hi.2 {
                if let Some(b) = w.get_block(x, y, z) {
                    out.push(((x, y, z), b));
                }
            }
        }
    }
    out
}

#[test]
fn siding_exact_slabs() {
    let mut w = WorldEditor::new();
    generate_siding(&mut w, &way(&[(0, 0), (4, 3)], &[]), -1);
    let got = all_blocks(&w, (-2, -3, -2), (6, 3, 6));
    let expected: Vec<((i32, i32, i32), Block)> = vec![(0, 0), (1, 1), (2, 2), (3, 2), (4, 3)]
        .into_iter()
        .map(|(x, z)| ((x, 0, z), Block::StoneBrickSlab))
        .collect();
    assert_eq!(got, expected);
}

#[test]
fn siding_single_node_changes_nothing() {
    let mut w = WorldEditor::new();
    generate_siding(&mut w, &way(&[(3, 3)], &[]), 0);
    assert!(w.chunk_list().is_empty());
}

#[test]
fn street_lamp_exact() {
    let mut w = WorldEditor::new();
    let mut n = node(5, 7);
    n.tags = tags(&[("highway", "street_lamp")]);
    generate_highways(&mut w, &ProcessedElement::Node(n), 10, &summer());
    let got = all_blocks(&w, (0, 0, 0), (10, 20, 10));
    assert_eq!(
        got,
        vec![
            ((5, 11, 7), Block::OakFence),
            ((5, 12, 7), Block::OakFence),
            ((5, 13, 7), Block::OakFence),
            ((5, 14, 7), Block::OakFence),
            ((5, 15, 7), Block::Glowstone),
        ]
    );
}

#[test]
fn traffic_signals_in_winter() {
    let mut w = WorldEditor::new();
    let mut n = node(0, 0);
    n.tags = tags(&[("highway", "crossing"), ("crossing", "traffic_signals")]);
    generate_highways(&mut w, &ProcessedElement::Node(n), 0, &Args { winter: true, timeout: None });
    assert_eq!(w.get_block(0, 3, 0), Some(Block::CobblestoneWall));
    assert_eq!(w.get_block(0, 4, 0), Some(Block::GreenWool));
    assert_eq!(w.get_block(0, 5, 0), Some(Block::YellowWool));
    assert_eq!(w.get_block(0, 6, 0), Some(Block::RedWool));
    assert_eq!(w.get_block(0, 7, 0), Some(Block::SnowLayer));
    assert_eq!(count_blocks(&w, (-2, -2, -2), (2, 10, 2)), 7);
}

#[test]
fn crossing_without_signals_changes_nothing() {
    let mut w = WorldEditor::new();
    let mut n = node(0, 0);
    n.tags = tags(&[("highway", "crossing"), ("crossing", "zebra")]);
    generate_highways(&mut w, &ProcessedElement::Node(n), 0, &summer());
    assert!(w.chunk_list().is_empty());
}

#[test]
fn bus_stop_exact() {
    let mut w = WorldEditor::new();
    let mut n = node(2, 2);
    n.tags = tags(&[("highway", "bus_stop")]);
    generate_highways(&mut w, &ProcessedElement::Node(n), 0, &summer());
    assert_eq!(w.get_block(2, 4, 2), Some(Block::WhiteWool));
    assert_eq!(w.get_block(3, 4, 2), Some(Block::WhiteWool));
    assert_eq!(count_blocks(&w, (0, 0, 0), (5, 6, 5)), 5);
}

#[test]
fn service_road_width() {
    let mut w = WorldEditor::new();
    let e = ProcessedElement::Way(way(&[(0, 0), (10, 0)], &[("highway", "service")]));
    generate_highways(&mut w, &e, 0, &summer());
    assert_eq!(w.get_block(5, 0, 2), Some(Block::GrayConcrete));
    assert_eq!(w.get_block(5, 0, 3), None);
}

#[test]
fn oak_tree_entry_count() {
    let mut w = WorldEditor::new();
    create_tree(&mut w, 0, 10, 0, 1, false);
    assert_eq!(count_blocks(&w, (-5, 0, -5), (5, 25, 5)), 159);
}
