use voxel_world::block_definitions::Block;
use voxel_world::world_editor::{list_contains, WorldEditor, MAX_Y, MIN_Y};

#[test]
fn set_and_get() {
    let mut w = WorldEditor::new();
    assert_eq!(w.get_block(1, 2, 3), None);
    w.set_block(Block::Stone, 1, 2, 3, None, None);
    assert_eq!(w.get_block(1, 2, 3), Some(Block::Stone));
    w.set_block(Block::Dirt, 1, 2, 3, None, None);
    assert_eq!(w.get_block(1, 2, 3), Some(Block::Dirt));
}

#[test]
fn out_of_height_is_dropped() {
    let mut w = WorldEditor::new();
    w.set_block(Block::Stone, 0, MAX_Y + 1, 0, None, None);
    w.set_block(Block::Stone, 0, MIN_Y - 1, 0, None, None);
    assert_eq!(w.get_block(0, MAX_Y + 1, 0), None);
    assert_eq!(w.get_block(0, MIN_Y - 1, 0), None);
    assert!(w.chunk_list().is_empty());
    w.set_block(Block::Stone, 0, MAX_Y, 0, None, None);
    w.set_block(Block::Stone, 0, MIN_Y, 0, None, None);
    assert_eq!(w.get_block(0, MAX_Y, 0), Some(Block::Stone));
    assert_eq!(w.get_block(0, MIN_Y, 0), Some(Block::Stone));
}

#[test]
fn blacklist_skips_listed_occupant() {
    let mut w = WorldEditor::new();
    w.set_block(Block::Water, 0, 0, 0, None, None);
    w.set_block(Block::Sand, 0, 0, 0, None, Some(&[Block::Water]));
    assert_eq!(w.get_block(0, 0, 0), Some(Block::Water));
    w.set_block(Block::Dirt, 1, 0, 0, None, None);
    w.set_block(Block::Sand, 1, 0, 0, None, Some(&[Block::Water]));
    assert_eq!(w.get_block(1, 0, 0), Some(Block::Sand));
    w.set_block(Block::Sand, 2, 0, 0, None, Some(&[Block::Water]));
    assert_eq!(w.get_block(2, 0, 0), Some(Block::Sand));
}

#[test]
fn blacklist_air_blocks_empty_positions() {
    let mut w = WorldEditor::new();
    w.set_block(Block::Sand, 0, 0, 0, None, Some(&[Block::Air]));
    assert_eq!(w.get_block(0, 0, 0), None);
}

#[test]
fn whitelist_guards_occupied_positions_only() {
    let mut w = WorldEditor::new();
    w.set_block(Block::Stone, 0, 0, 0, Some(&[Block::Dirt]), None);
    assert_eq!(w.get_block(0, 0, 0), Some(Block::Stone));
    w.set_block(Block::Sand, 0, 0, 0, Some(&[Block::Dirt]), None);
    assert_eq!(w.get_block(0, 0, 0), Some(Block::Stone));
    w.set_block(Block::Sand, 0, 0, 0, Some(&[Block::Stone]), None);
    assert_eq!(w.get_block(0, 0, 0), Some(Block::Sand));
}

#[test]
fn blacklist_checked_before_whitelist() {
    let mut w = WorldEditor::new();
    w.set_block(Block::Dirt, 0, 0, 0, None, None);
    w.set_block(Block::Sand, 0, 0, 0, Some(&[Block::Dirt]), Some(&[Block::Dirt]));
    assert_eq!(w.get_block(0, 0, 0), Some(Block::Dirt));
}

#[test]
fn fill_box_with_whitelist_keeps_water() {
    let mut w = WorldEditor::new();
    w.fill_blocks(Block::Dirt, 0, 0, 0, 2, 0, 2, None, None);
    w.set_block(Block::Water, 1, 0, 1, None, None);
    w.fill_blocks(Block::Stone, 0, 0, 0, 2, 0, 2, Some(&[Block::Dirt]), None);
    for x in 0..=2 {
        for z in 0..=2 {
            let expected = if x == 1 && z == 1 { Block::Water } else { Block::Stone };
            assert_eq!(w.get_block(x, 0, z), Some(expected));
        }
    }
}

#[test]
fn fill_box_corners_in_any_order() {
    let mut w = WorldEditor::new();
    w.fill_blocks(Block::Glass, 3, 2, 1, 1, 0, 3, None, None);
    let mut count = 0;
    for x in 0..=4 {
        for y in -1..=3 {
            for z in 0..=4 {
                if w.get_block(x, y, z).is_some() {
                    count += 1;
                    assert!((1..=3).contains(&x) && (0..=2).contains(&y) && (1..=3).contains(&z));
                }
            }
        }
    }
    assert_eq!(count, 27);
}

#[test]
fn check_for_block_matches_lists() {
    let mut w = WorldEditor::new();
    w.set_block(Block::Water, 0, 0, 0, None, None);
    assert!(w.check_for_block(0, 0, 0, None, Some(&[Block::Water])));
    assert!(w.check_for_block(0, 0, 0, Some(&[Block::Water]), None));
    assert!(!w.check_for_block(0, 0, 0, Some(&[Block::Stone]), Some(&[Block::Dirt])));
    assert!(!w.check_for_block(0, 0, 0, None, None));
    assert!(w.check_for_block(5, 5, 5, Some(&[Block::Air]), None));
    assert!(!w.check_for_block(5, 5, 5, Some(&[Block::Stone]), None));
}

#[test]
fn chunks_listed_once_in_first_touch_order() {
    let mut w = WorldEditor::new();
    w.set_block(Block::Stone, 20, 0, 0, None, None);
    w.set_block(Block::Stone, -1, 0, -17, None, None);
    w.set_block(Block::Stone, 21, 5, 3, None, None);
    assert_eq!(w.chunk_list().clone(), vec![(1, 0), (-1, -2)]);
}

#[test]
fn list_contains_finds_members() {
    assert!(list_contains(&[Block::Dirt, Block::Stone], Block::Stone));
    assert!(!list_contains(&[Block::Dirt], Block::Stone));
    assert!(!list_contains(&[], Block::Air));
}
