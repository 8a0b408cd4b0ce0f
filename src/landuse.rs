//! Land use areas: their ground cover, outline and scattered decorations.

use crate::block_definitions::Block;
use crate::bresenham::Point;
use crate::elements::{coord_ok, lookup, str_eq, way_in_range, Args, ProcessedWay};
use crate::floodfill::{complete_fill, flood_fill_area, partial_fill};
use crate::highways::{draw_outline, lemma_fill_cell_in_range, node_cells, outline_segments, way_cells};
use crate::random::{is_multiple, new_rng, random_in};
use crate::tree::{create_tree, grown_tree, put};
use crate::world_editor::{matches_at, set_result, WorldEditor};
use rand::rngs::ThreadRng;
use vstd::prelude::*;

verus! {

/// The ground block of a land use kind: grass (snow in winter) unless the
/// kind has a cover of its own.
pub open spec fn landuse_cover(tag: Seq<char>, winter: bool) -> Block {
    let grass = if winter { Block::SnowBlock } else { Block::GrassBlock };
    if tag == "greenfield"@ || tag == "meadow"@ || tag == "grass"@ {
        grass
    } else if tag == "farmland"@ {
        Block::Farmland
    } else if tag == "forest"@ {
        grass
    } else if tag == "cemetery"@ {
        Block::Podzol
    } else if tag == "beach"@ {
        Block::Sand
    } else if tag == "construction"@ {
        Block::Dirt
    } else if tag == "traffic_island"@ {
        Block::StoneBlockSlab
    } else if tag == "residential"@ {
        Block::StoneBricks
    } else if tag == "commercial"@ {
        Block::SmoothStone
    } else if tag == "education"@ {
        Block::LightGrayConcrete
    } else if tag == "industrial"@ {
        Block::Cobblestone
    } else if tag == "military"@ {
        Block::GrayConcrete
    } else if tag == "railway"@ {
        Block::Gravel
    } else {
        grass
    }
}

/// The ground block of a land use kind.
pub fn landuse_block(landuse_tag: &str, winter: bool) -> (r: Block)
    ensures
        r == landuse_cover(landuse_tag@, winter),
{
    let grass = if winter { Block::SnowBlock } else { Block::GrassBlock };
    if str_eq(landuse_tag, "greenfield") || str_eq(landuse_tag, "meadow") || str_eq(landuse_tag, "grass") {
        grass
    } else if str_eq(landuse_tag, "farmland") {
        Block::Farmland
    } else if str_eq(landuse_tag, "forest") {
        grass
    } else if str_eq(landuse_tag, "cemetery") {
        Block::Podzol
    } else if str_eq(landuse_tag, "beach") {
        Block::Sand
    } else if str_eq(landuse_tag, "construction") {
        Block::Dirt
    } else if str_eq(landuse_tag, "traffic_island") {
        Block::StoneBlockSlab
    } else if str_eq(landuse_tag, "residential") {
        Block::StoneBricks
    } else if str_eq(landuse_tag, "commercial") {
        Block::SmoothStone
    } else if str_eq(landuse_tag, "education") {
        Block::LightGrayConcrete
    } else if str_eq(landuse_tag, "industrial") {
        Block::Cobblestone
    } else if str_eq(landuse_tag, "military") {
        Block::GrayConcrete
    } else if str_eq(landuse_tag, "railway") {
        Block::Gravel
    } else {
        grass
    }
}

/// Random values drawn for one cell of a land use area.
pub type Draws = (i32, i32, i32, i32);

/// The decoration kind of a land use tag: 1 cemetery, 2 forest, 3 farmland,
/// 4 construction, 5 grass, 6 meadow, 0 none.
pub open spec fn decoration_kind(tag: Seq<char>) -> u8 {
    if tag == "cemetery"@ {
        1
    } else if tag == "forest"@ {
        2
    } else if tag == "farmland"@ {
        3
    } else if tag == "construction"@ {
        4
    } else if tag == "grass"@ {
        5
    } else if tag == "meadow"@ {
        6
    } else {
        0
    }
}

/// The ranges that the values drawn for a cell fall in, by decoration kind.
pub open spec fn draws_ok(kind: u8, d: Draws) -> bool {
    if kind == 1 {
        0 <= d.0 < 100 && 0 <= d.1 < 2 && 1 <= d.2 < 4
    } else if kind == 2 {
        0 <= d.0 < 21 && 1 <= d.1 < 5 && 1 <= d.2 < 4
    } else if kind == 3 {
        0 <= d.0 < 76 && 1 <= d.1 < 11 && 1 <= d.2 < 4 && 0 <= d.3 < 3
    } else if kind == 4 {
        0 <= d.0 < 1501 && 0 <= d.1 < 11
    } else if kind == 5 {
        1 <= d.0 < 8
    } else if kind == 6 {
        0 <= d.0 < 1001 && 1 <= d.2 < 4
    } else {
        true
    }
}

/// A grave (one of two orientations) or a poppy on every third cell of a
/// cemetery's podzol, or now and then a tree.
pub open spec fn cemetery_decor(m: Map<Point, Block>, x: int, z: int, g: int, winter: bool, d: Draws) -> Map<Point, Block> {
    let podzol = matches_at(m, (x, g, z), Some(seq![Block::Podzol]), None);
    if !(x % 3 == 0 && z % 3 == 0) {
        m
    } else if d.0 < 15 {
        if !podzol {
            m
        } else if d.1 == 0 {
            let m1 = put(m, (x - 1, g + 1, z), Block::Cobblestone);
            let m2 = put(m1, (x - 1, g + 2, z), Block::StoneBrickSlab);
            let m3 = put(m2, (x, g + 1, z), Block::StoneBrickSlab);
            put(m3, (x + 1, g + 1, z), Block::StoneBrickSlab)
        } else {
            let m1 = put(m, (x, g + 1, z - 1), Block::Cobblestone);
            let m2 = put(m1, (x, g + 2, z - 1), Block::StoneBrickSlab);
            let m3 = put(m2, (x, g + 1, z), Block::StoneBrickSlab);
            put(m3, (x, g + 1, z + 1), Block::StoneBrickSlab)
        }
    } else if d.0 < 30 {
        if podzol {
            put(m, (x, g + 1, z), Block::RedFlower)
        } else {
            m
        }
    } else if d.0 < 33 {
        grown_tree(m, x, g + 1, z, d.2 as u8, winter)
    } else {
        m
    }
}

/// The flower of a forest or park draw.
pub open spec fn forest_flower(v: i32) -> Block {
    if v == 1 {
        Block::RedFlower
    } else if v == 2 {
        Block::BlueFlower
    } else if v == 3 {
        Block::YellowFlower
    } else {
        Block::WhiteFlower
    }
}

/// A tree, a flower or tall grass on a forest cell that is not water.
pub open spec fn forest_decor(m: Map<Point, Block>, x: int, z: int, g: int, winter: bool, d: Draws) -> Map<Point, Block> {
    if matches_at(m, (x, g, z), None, Some(seq![Block::Water])) {
        m
    } else if d.0 == 20 {
        grown_tree(m, x, g + 1, z, d.2 as u8, winter)
    } else if d.0 == 2 {
        put(m, (x, g + 1, z), forest_flower(d.1))
    } else if d.0 <= 1 {
        put(m, (x, g + 1, z), Block::Grass)
    } else {
        m
    }
}

/// The crop of a farmland draw.
pub open spec fn crop_of(v: i32) -> Block {
    if v == 0 {
        Block::Wheat
    } else if v == 1 {
        Block::Carrots
    } else {
        Block::Potatoes
    }
}

/// Farmland: water lines on every fifteenth row and column (replacing
/// farmland, clearing the crops above), farmland elsewhere with a crop, or
/// now and then a tree, a hay bale or a bush.
pub open spec fn farmland_decor(m: Map<Point, Block>, x: int, z: int, g: int, winter: bool, d: Draws) -> Map<Point, Block> {
    if matches_at(m, (x, g, z), None, Some(seq![Block::Water])) {
        m
    } else if x % 15 == 0 || z % 15 == 0 {
        let m1 = set_result(m, (x, g, z), Block::Water, Some(seq![Block::Farmland]), None);
        set_result(
            m1,
            (x, g + 1, z),
            Block::Air,
            Some(seq![Block::Grass, Block::Wheat, Block::Carrots, Block::Potatoes]),
            None,
        )
    } else {
        let m1 = put(m, (x, g, z), Block::Farmland);
        if d.0 == 0 {
            if d.1 <= 2 {
                grown_tree(m1, x, g + 1, z, d.2 as u8, winter)
            } else if d.1 <= 6 {
                put(m1, (x, g + 1, z), Block::HayBale)
            } else {
                put(m1, (x, g + 1, z), Block::OakLeaves)
            }
        } else if matches_at(m1, (x, g, z), Some(seq![Block::Farmland]), None) {
            put(m1, (x, g + 1, z), crop_of(d.3))
        } else {
            m1
        }
    }
}

/// The building material of a construction draw.
pub open spec fn construction_item(v: i32) -> Block {
    if v == 0 {
        Block::OakLog
    } else if v == 1 {
        Block::Cobblestone
    } else if v == 2 {
        Block::Gravel
    } else if v == 3 {
        Block::Glowstone
    } else if v == 4 {
        Block::Stone
    } else if v == 5 {
        Block::CobblestoneWall
    } else if v == 6 {
        Block::BlackConcrete
    } else if v == 7 {
        Block::Sand
    } else if v == 8 {
        Block::OakPlanks
    } else if v == 9 {
        Block::Dirt
    } else {
        Block::Brick
    }
}

/// A construction site cell: scaffolding of three shapes, a piece of
/// material, a heap of dirt, a dug-out hole, or nothing.
pub open spec fn construction_decor(m: Map<Point, Block>, x: int, z: int, g: int, d: Draws) -> Map<Point, Block> {
    let c = d.0;
    if c < 6 {
        let m1 = put(m, (x, g + 1, z), Block::Scaffolding);
        if c < 2 {
            put(put(m1, (x, g + 2, z), Block::Scaffolding), (x, g + 3, z), Block::Scaffolding)
        } else if c < 4 {
            let m2 = put(put(m1, (x, g + 2, z), Block::Scaffolding), (x, g + 3, z), Block::Scaffolding);
            put(put(m2, (x, g + 4, z), Block::Scaffolding), (x, g + 1, z + 1), Block::Scaffolding)
        } else {
            let m2 = put(put(m1, (x, g + 2, z), Block::Scaffolding), (x, g + 3, z), Block::Scaffolding);
            let m3 = put(put(m2, (x, g + 4, z), Block::Scaffolding), (x, g + 5, z), Block::Scaffolding);
            put(put(m3, (x - 1, g + 1, z), Block::Scaffolding), (x + 1, g + 1, z - 1), Block::Scaffolding)
        }
    } else if c < 30 {
        put(m, (x, g + 1, z), construction_item(d.1))
    } else if c < 35 {
        let m1 = put(put(m, (x, g + 1, z), Block::Dirt), (x, g + 2, z), Block::Dirt);
        put(put(m1, (x - 1, g + 1, z), Block::Dirt), (x, g + 1, z - 1), Block::Dirt)
    } else if c < 150 {
        set_result(m, (x, g, z), Block::Air, None, Some(seq![Block::Sponge]))
    } else {
        m
    }
}

/// Tall grass on six of seven grass cells that are not water.
pub open spec fn grass_decor(m: Map<Point, Block>, x: int, z: int, g: int, d: Draws) -> Map<Point, Block> {
    if d.0 != 1 && !matches_at(m, (x, g, z), None, Some(seq![Block::Water])) {
        put(m, (x, g + 1, z), Block::Grass)
    } else {
        m
    }
}

/// A meadow cell that is not water: now and then a tree, mostly tall grass.
pub open spec fn meadow_decor(m: Map<Point, Block>, x: int, z: int, g: int, winter: bool, d: Draws) -> Map<Point, Block> {
    if matches_at(m, (x, g, z), None, Some(seq![Block::Water])) {
        m
    } else if d.0 < 5 {
        grown_tree(m, x, g + 1, z, d.2 as u8, winter)
    } else if d.0 < 800 {
        put(m, (x, g + 1, z), Block::Grass)
    } else {
        m
    }
}

/// The ground cover of one filled cell: one block up on traffic islands,
/// kept off sponge on construction sites and railways.
pub open spec fn cover_cell(m: Map<Point, Block>, x: int, z: int, g: int, tag: Seq<char>, winter: bool) -> Map<Point, Block> {
    let b = landuse_cover(tag, winter);
    if tag == "traffic_island"@ {
        put(m, (x, g + 1, z), b)
    } else if tag == "construction"@ || tag == "railway"@ {
        set_result(m, (x, g, z), b, None, Some(seq![Block::Sponge]))
    } else {
        put(m, (x, g, z), b)
    }
}

/// One filled cell: its ground cover, then its decoration.
#[verifier::opaque]
pub open spec fn landuse_cell(m: Map<Point, Block>, c: (i32, i32), g: int, tag: Seq<char>, winter: bool, d: Draws) -> Map<Point, Block> {
    let (x, z) = (c.0 as int, c.1 as int);
    let m1 = cover_cell(m, x, z, g, tag, winter);
    let kind = decoration_kind(tag);
    if kind == 1 {
        cemetery_decor(m1, x, z, g, winter, d)
    } else if kind == 2 {
        forest_decor(m1, x, z, g, winter, d)
    } else if kind == 3 {
        farmland_decor(m1, x, z, g, winter, d)
    } else if kind == 4 {
        construction_decor(m1, x, z, g, d)
    } else if kind == 5 {
        grass_decor(m1, x, z, g, d)
    } else if kind == 6 {
        meadow_decor(m1, x, z, g, winter, d)
    } else {
        m1
    }
}

/// The first `k` filled cells, each with the values drawn for it.
pub open spec fn landuse_cells(
    m: Map<Point, Block>,
    cells: Seq<(i32, i32)>,
    draws: Seq<Draws>,
    k: int,
    g: int,
    tag: Seq<char>,
    winter: bool,
) -> Map<Point, Block>
    decreases k,
{
    if k <= 0 {
        m
    } else {
        landuse_cell(landuse_cells(m, cells, draws, k - 1, g, tag, winter), cells[k - 1], g, tag, winter, draws[k - 1])
    }
}

/// The outline block of a land use area.
pub open spec fn outline_block(winter: bool) -> Block {
    if winter {
        Block::SnowBlock
    } else {
        Block::GrassBlock
    }
}

/// The store `r` is what the outline and the fill cells `cells`, with the
/// values `draws` drawn for them, make of the store `m`.
pub open spec fn landuse_from(
    m: Map<Point, Block>,
    r: Map<Point, Block>,
    w: &ProcessedWay,
    g: int,
    winter: bool,
    timeout: Option<u64>,
    cells: Seq<(i32, i32)>,
    draws: Seq<Draws>,
) -> bool {
    let tag = match lookup(w.tags@, "landuse"@) {
        Some(t) => t,
        None => ""@,
    };
    let outlined = outline_segments(m, w, g, outline_block(winter), None, w.nodes@.len() as int);
    &&& partial_fill(way_cells(w), cells)
    &&& timeout is None ==> complete_fill(way_cells(w), cells)
    &&& draws.len() == cells.len()
    &&& forall|k: int| 0 <= k < draws.len() ==> draws_ok(decoration_kind(tag), #[trigger] draws[k])
    &&& r == landuse_cells(outlined, cells, draws, cells.len() as int, g, tag, winter)
}

/// What `generate_landuse` makes of the store `m` as the store `r`: the
/// outline, then over the cells of a fill of the footprint (all of them
/// without a deadline) the ground cover and the decoration of each cell
/// for the values drawn for it, whatever those values are.
pub open spec fn landuse_done(
    m: Map<Point, Block>,
    r: Map<Point, Block>,
    w: &ProcessedWay,
    g: int,
    winter: bool,
    timeout: Option<u64>,
) -> bool {
    if w.nodes@.len() < 2 {
        r == m
    } else {
        exists|cells: Seq<(i32, i32)>, draws: Seq<Draws>| #[trigger] landuse_from(m, r, w, g, winter, timeout, cells, draws)
    }
}

/// Decorates a cemetery cell with the values drawn for it.
fn decorate_cemetery(editor: &mut WorldEditor, x: i32, z: i32, ground_level: i32, winter: bool, d: Draws)
    requires
        old(editor).wf(),
        coord_ok(x as int),
        coord_ok(z as int),
        coord_ok(ground_level as int),
        draws_ok(1, d),
    ensures
        final(editor).wf(),
        final(editor)@ == cemetery_decor(old(editor)@, x as int, z as int, ground_level as int, winter, d),
{
    if !(is_multiple(x, 3) && is_multiple(z, 3)) {
        return;
    }
    let podzol = [Block::Podzol];
    assert(podzol@ == seq![Block::Podzol]);
    if d.0 < 15 {
        // Graves.
        if editor.check_for_block(x, ground_level, z, Some(&podzol), None) {
            if d.1 == 0 {
                editor.set_block(Block::Cobblestone, x - 1, ground_level + 1, z, None, None);
                editor.set_block(Block::StoneBrickSlab, x - 1, ground_level + 2, z, None, None);
                editor.set_block(Block::StoneBrickSlab, x, ground_level + 1, z, None, None);
                editor.set_block(Block::StoneBrickSlab, x + 1, ground_level + 1, z, None, None);
            } else {
                editor.set_block(Block::Cobblestone, x, ground_level + 1, z - 1, None, None);
                editor.set_block(Block::StoneBrickSlab, x, ground_level + 2, z - 1, None, None);
                editor.set_block(Block::StoneBrickSlab, x, ground_level + 1, z, None, None);
                editor.set_block(Block::StoneBrickSlab, x, ground_level + 1, z + 1, None, None);
            }
        }
    } else if d.0 < 30 {
        if editor.check_for_block(x, ground_level, z, Some(&podzol), None) {
            editor.set_block(Block::RedFlower, x, ground_level + 1, z, None, None);
        }
    } else if d.0 < 33 {
        create_tree(editor, x, ground_level + 1, z, d.2 as u8, winter);
    }
}

/// Decorates a forest cell with the values drawn for it.
fn decorate_forest(editor: &mut WorldEditor, x: i32, z: i32, ground_level: i32, winter: bool, d: Draws)
    requires
        old(editor).wf(),
        coord_ok(x as int),
        coord_ok(z as int),
        coord_ok(ground_level as int),
        draws_ok(2, d),
    ensures
        final(editor).wf(),
        final(editor)@ == forest_decor(old(editor)@, x as int, z as int, ground_level as int, winter, d),
{
    let water = [Block::Water];
    assert(water@ == seq![Block::Water]);
    if editor.check_for_block(x, ground_level, z, None, Some(&water)) {
        return;
    }
    if d.0 == 20 {
        create_tree(editor, x, ground_level + 1, z, d.2 as u8, winter);
    } else if d.0 == 2 {
        let flower_block = if d.1 == 1 {
            Block::RedFlower
        } else if d.1 == 2 {
            Block::BlueFlower
        } else if d.1 == 3 {
            Block::YellowFlower
        } else {
            Block::WhiteFlower
        };
        editor.set_block(flower_block, x, ground_level + 1, z, None, None);
    } else if d.0 <= 1 {
        editor.set_block(Block::Grass, x, ground_level + 1, z, None, None);
    }
}

/// Decorates a farmland cell with the values drawn for it.
fn decorate_farmland(editor: &mut WorldEditor, x: i32, z: i32, ground_level: i32, winter: bool, d: Draws)
    requires
        old(editor).wf(),
        coord_ok(x as int),
        coord_ok(z as int),
        coord_ok(ground_level as int),
        draws_ok(3, d),
    ensures
        final(editor).wf(),
        final(editor)@ == farmland_decor(old(editor)@, x as int, z as int, ground_level as int, winter, d),
{
    let water = [Block::Water];
    let farmland = [Block::Farmland];
    let crops = [Block::Grass, Block::Wheat, Block::Carrots, Block::Potatoes];
    assert(water@ == seq![Block::Water]);
    assert(farmland@ == seq![Block::Farmland]);
    assert(crops@ == seq![Block::Grass, Block::Wheat, Block::Carrots, Block::Potatoes]);
    if editor.check_for_block(x, ground_level, z, None, Some(&water)) {
        return;
    }
    if is_multiple(x, 15) || is_multiple(z, 15) {
        // Water on the edges.
        editor.set_block(Block::Water, x, ground_level, z, Some(&farmland), None);
        editor.set_block(Block::Air, x, ground_level + 1, z, Some(&crops), None);
    } else {
        editor.set_block(Block::Farmland, x, ground_level, z, None, None);
        if d.0 == 0 {
            if d.1 <= 2 {
                create_tree(editor, x, ground_level + 1, z, d.2 as u8, winter);
            } else if d.1 <= 6 {
                editor.set_block(Block::HayBale, x, ground_level + 1, z, None, None);
            } else {
                editor.set_block(Block::OakLeaves, x, ground_level + 1, z, None, None);
            }
        } else if editor.check_for_block(x, ground_level, z, Some(&farmland), None) {
            // Crops, only on farmland.
            let crop_choice = if d.3 == 0 {
                Block::Wheat
            } else if d.3 == 1 {
                Block::Carrots
            } else {
                Block::Potatoes
            };
            editor.set_block(crop_choice, x, ground_level + 1, z, None, None);
        }
    }
}

/// Decorates a construction cell with the values drawn for it.
fn decorate_construction(editor: &mut WorldEditor, x: i32, z: i32, ground_level: i32, d: Draws)
    requires
        old(editor).wf(),
        coord_ok(x as int),
        coord_ok(z as int),
        coord_ok(ground_level as int),
        draws_ok(4, d),
    ensures
        final(editor).wf(),
        final(editor)@ == construction_decor(old(editor)@, x as int, z as int, ground_level as int, d),
{
    let random_choice: i32 = d.0;
    if random_choice < 6 {
        editor.set_block(Block::Scaffolding, x, ground_level + 1, z, None, None);
        if random_choice < 2 {
            editor.set_block(Block::Scaffolding, x, ground_level + 2, z, None, None);
            editor.set_block(Block::Scaffolding, x, ground_level + 3, z, None, None);
        } else if random_choice < 4 {
            editor.set_block(Block::Scaffolding, x, ground_level + 2, z, None, None);
            editor.set_block(Block::Scaffolding, x, ground_level + 3, z, None, None);
            editor.set_block(Block::Scaffolding, x, ground_level + 4, z, None, None);
            editor.set_block(Block::Scaffolding, x, ground_level + 1, z + 1, None, None);
        } else {
            editor.set_block(Block::Scaffolding, x, ground_level + 2, z, None, None);
            editor.set_block(Block::Scaffolding, x, ground_level + 3, z, None, None);
            editor.set_block(Block::Scaffolding, x, ground_level + 4, z, None, None);
            editor.set_block(Block::Scaffolding, x, ground_level + 5, z, None, None);
            editor.set_block(Block::Scaffolding, x - 1, ground_level + 1, z, None, None);
            editor.set_block(Block::Scaffolding, x + 1, ground_level + 1, z - 1, None, None);
        }
    } else if random_choice < 30 {
        let v = d.1;
        let item = if v == 0 {
            Block::OakLog
        } else if v == 1 {
            Block::Cobblestone
        } else if v == 2 {
            Block::Gravel
        } else if v == 3 {
            Block::Glowstone
        } else if v == 4 {
            Block::Stone
        } else if v == 5 {
            Block::CobblestoneWall
        } else if v == 6 {
            Block::BlackConcrete
        } else if v == 7 {
            Block::Sand
        } else if v == 8 {
            Block::OakPlanks
        } else if v == 9 {
            Block::Dirt
        } else {
            Block::Brick
        };
        editor.set_block(item, x, ground_level + 1, z, None, None);
    } else if random_choice < 35 {
        editor.set_block(Block::Dirt, x, ground_level + 1, z, None, None);
        editor.set_block(Block::Dirt, x, ground_level + 2, z, None, None);
        editor.set_block(Block::Dirt, x - 1, ground_level + 1, z, None, None);
        editor.set_block(Block::Dirt, x, ground_level + 1, z - 1, None, None);
    } else if random_choice < 150 {
        let sponge = [Block::Sponge];
        assert(sponge@ == seq![Block::Sponge]);
        editor.set_block(Block::Air, x, ground_level, z, None, Some(&sponge));
    }
}

/// The decoration kind of a land use tag.
fn decoration_kind_of(tag: &str) -> (r: u8)
    ensures
        r == decoration_kind(tag@),
{
    if str_eq(tag, "cemetery") {
        1
    } else if str_eq(tag, "forest") {
        2
    } else if str_eq(tag, "farmland") {
        3
    } else if str_eq(tag, "construction") {
        4
    } else if str_eq(tag, "grass") {
        5
    } else if str_eq(tag, "meadow") {
        6
    } else {
        0
    }
}

/// Draws the random values for one cell of a land use area of decoration
/// kind `kind`.
fn draw_for(rng: &mut ThreadRng, kind: u8) -> (d: Draws)
    ensures
        draws_ok(kind, d),
{
    if kind == 1 {
        (random_in(rng, 0, 100), random_in(rng, 0, 2), random_in(rng, 1, 4), 0)
    } else if kind == 2 {
        (random_in(rng, 0, 21), random_in(rng, 1, 5), random_in(rng, 1, 4), 0)
    } else if kind == 3 {
        (random_in(rng, 0, 76), random_in(rng, 1, 11), random_in(rng, 1, 4), random_in(rng, 0, 3))
    } else if kind == 4 {
        (random_in(rng, 0, 1501), random_in(rng, 0, 11), 0, 0)
    } else if kind == 5 {
        (random_in(rng, 1, 8), 0, 0, 0)
    } else if kind == 6 {
        (random_in(rng, 0, 1001), 0, random_in(rng, 1, 4), 0)
    } else {
        (0, 0, 0, 0)
    }
}

/// Covers and decorates one filled cell with the values drawn for it.
pub fn landuse_cell_exec(
    editor: &mut WorldEditor,
    x: i32,
    z: i32,
    ground_level: i32,
    landuse_tag: &str,
    winter: bool,
    d: Draws,
)
    requires
        old(editor).wf(),
        coord_ok(x as int),
        coord_ok(z as int),
        coord_ok(ground_level as int),
        draws_ok(decoration_kind(landuse_tag@), d),
    ensures
        final(editor).wf(),
        final(editor)@ == landuse_cell(old(editor)@, (x, z), ground_level as int, landuse_tag@, winter, d),
{
    let ghost m0 = editor@;
    let block_type = landuse_block(landuse_tag, winter);
    let sponge = [Block::Sponge];
    assert(sponge@ == seq![Block::Sponge]);
    if str_eq(landuse_tag, "traffic_island") {
        editor.set_block(block_type, x, ground_level + 1, z, None, None);
    } else if str_eq(landuse_tag, "construction") || str_eq(landuse_tag, "railway") {
        editor.set_block(block_type, x, ground_level, z, None, Some(&sponge));
    } else {
        editor.set_block(block_type, x, ground_level, z, None, None);
    }
    let kind = decoration_kind_of(landuse_tag);
    if kind == 1 {
        decorate_cemetery(editor, x, z, ground_level, winter, d);
    } else if kind == 2 {
        decorate_forest(editor, x, z, ground_level, winter, d);
    } else if kind == 3 {
        decorate_farmland(editor, x, z, ground_level, winter, d);
    } else if kind == 4 {
        decorate_construction(editor, x, z, ground_level, d);
    } else if kind == 5 {
        let water = [Block::Water];
        assert(water@ == seq![Block::Water]);
        if d.0 != 1 && !editor.check_for_block(x, ground_level, z, None, Some(&water)) {
            editor.set_block(Block::Grass, x, ground_level + 1, z, None, None);
        }
    } else if kind == 6 {
        let water = [Block::Water];
        assert(water@ == seq![Block::Water]);
        if !editor.check_for_block(x, ground_level, z, None, Some(&water)) {
            if d.0 < 5 {
                create_tree(editor, x, ground_level + 1, z, d.2 as u8, winter);
            } else if d.0 < 800 {
                editor.set_block(Block::Grass, x, ground_level + 1, z, None, None);
            }
        }
    }
    assert(editor@ == landuse_cell(m0, (x, z), ground_level as int, landuse_tag@, winter, d)) by {
        reveal(landuse_cell);
    }
}

/// Generates a land use area: its outline in grass (snow in winter), its
/// ground cover after the `landuse` tag, and the decorations of cemeteries,
/// forests, farmland, construction sites, grass and meadows, chosen by
/// random draws. A way with fewer than two nodes leaves the world as it is.
pub fn generate_landuse(editor: &mut WorldEditor, element: &ProcessedWay, ground_level: i32, args: &Args)
    requires
        old(editor).wf(),
        way_in_range(element),
        coord_ok(ground_level as int),
    ensures
        final(editor).wf(),
        landuse_done(old(editor)@, final(editor)@, element, ground_level as int, args.winter, args.timeout),
{
    if element.nodes.len() < 2 {
        return;
    }
    let landuse_tag: &str = match element.tags.get("landuse") {
        Some(t) => t.as_str(),
        None => "",
    };
    let ghost tag = landuse_tag@;
    let ghost g = ground_level as int;
    proof {
        reveal_strlit("");
    }
    let bresenham_block: Block = if args.winter { Block::SnowBlock } else { Block::GrassBlock };
    draw_outline(editor, element, ground_level, bresenham_block, None);
    let ghost outlined = editor@;
    let polygon_coords = node_cells(element);
    assert(polygon_coords@ =~= way_cells(element));
    let floor_area = flood_fill_area(&polygon_coords, args.timeout);
    let mut rng = new_rng();
    let kind = decoration_kind_of(landuse_tag);
    let ghost mut draws: Seq<Draws> = Seq::empty();
    let mut k: usize = 0;
    while k < floor_area.len()
        invariant
            editor.wf(),
            k <= floor_area@.len(),
            way_in_range(element),
            partial_fill(polygon_coords@, floor_area@),
            polygon_coords@.len() == element.nodes@.len(),
            forall|j: int|
                0 <= j < polygon_coords@.len() ==> #[trigger] polygon_coords@[j] == (
                    element.nodes@[j].x,
                    element.nodes@[j].z,
                ),
            coord_ok(ground_level as int),
            g == ground_level as int,
            tag == landuse_tag@,
            kind == decoration_kind(tag),
            draws.len() == k,
            forall|j: int| 0 <= j < draws.len() ==> draws_ok(kind, #[trigger] draws[j]),
            editor@ == landuse_cells(outlined, floor_area@, draws, k as int, g, tag, args.winter),
        decreases floor_area@.len() - k,
    {
        let (x, z) = floor_area[k];
        proof {
            lemma_fill_cell_in_range(element, polygon_coords@, floor_area@[k as int]);
        }
        let d = draw_for(&mut rng, kind);
        landuse_cell_exec(editor, x, z, ground_level, landuse_tag, args.winter, d);
        proof {
            let before = draws;
            draws = draws.push(d);
            assert(landuse_cells(outlined, floor_area@, draws, k as int, g, tag, args.winter) == landuse_cells(
                outlined,
                floor_area@,
                before,
                k as int,
                g,
                tag,
                args.winter,
            )) by {
                lemma_cells_prefix(outlined, floor_area@, before, draws, k as int, g, tag, args.winter);
            }
        }
        k = k + 1;
    }
    proof {
        let tg = match lookup(element.tags@, "landuse"@) {
            Some(t) => t,
            None => ""@,
        };
        assert(tg == tag);
        assert(bresenham_block == outline_block(args.winter));
        assert(outlined == outline_segments(old(editor)@, element, g, outline_block(args.winter), None, element.nodes@.len() as int));
        assert(partial_fill(way_cells(element), floor_area@));
        assert(args.timeout is None ==> complete_fill(way_cells(element), floor_area@));
        assert(forall|j: int| 0 <= j < draws.len() ==> draws_ok(decoration_kind(tg), #[trigger] draws[j]));
        assert(editor@ == landuse_cells(outlined, floor_area@, draws, floor_area@.len() as int, g, tg, args.winter));
        assert(landuse_from(old(editor)@, editor@, element, g, args.winter, args.timeout, floor_area@, draws));
    }
}

/// The cells fold reads only the first `k` draws.
proof fn lemma_cells_prefix(
    m: Map<Point, Block>,
    cells: Seq<(i32, i32)>,
    a: Seq<Draws>,
    b: Seq<Draws>,
    k: int,
    g: int,
    tag: Seq<char>,
    winter: bool,
)
    requires
        0 <= k <= a.len(),
        k <= b.len(),
        forall|j: int| 0 <= j < k ==> a[j] == b[j],
    ensures
        landuse_cells(m, cells, b, k, g, tag, winter) == landuse_cells(m, cells, a, k, g, tag, winter),
    decreases k,
{
    if k > 0 {
        lemma_cells_prefix(m, cells, a, b, k - 1, g, tag, winter);
    }
}

} // verus!
