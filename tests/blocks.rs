use voxel_world::block_definitions::{
    building_corner_variations, building_floor_color_map, building_floor_variations,
    building_wall_color_map, building_wall_variations, Block,
};

#[test]
fn block_names() {
    assert_eq!(Block::Stone.name(), "stone");
    assert_eq!(Block::Glass.name(), "glass_pane");
    assert_eq!(Block::RedFlower.name(), "poppy");
    assert_eq!(Block::DarkOakDoorLower.name(), "dark_oak_door");
    assert_eq!(Block::SnowLayer.name(), "snow");
    assert_eq!(Block::Air.namespace(), "minecraft");
}

#[test]
fn block_properties() {
    assert_eq!(Block::Stone.properties(), None);
    assert_eq!(Block::Carrots.properties(), Some(vec![("age", "7")]));
    assert_eq!(Block::Wheat.properties(), None);
    assert_eq!(Block::DarkOakDoorUpper.properties(), Some(vec![("half", "upper")]));
    assert_eq!(Block::Sign.properties(), Some(vec![("rotation", "6"), ("waterlogged", "false")]));
}

#[test]
fn building_palettes() {
    let corners = building_corner_variations();
    assert_eq!(corners.len(), 19);
    assert_eq!(corners[0], Block::StoneBricks);
    let walls = building_wall_color_map();
    assert_eq!(walls.len(), 21);
    assert_eq!(walls[0], ((233, 107, 57), Block::Brick));
    let wall_blocks = building_wall_variations();
    assert_eq!(wall_blocks, walls.iter().map(|e| e.1).collect::<Vec<_>>());
    assert_eq!(building_floor_variations(), wall_blocks);
    let floors = building_floor_color_map();
    assert_eq!(floors.len(), 20);
    assert_eq!(floors[19], ((35, 86, 85), Block::WarpedPlanks));
}
