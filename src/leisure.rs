//! Leisure areas: parks, gardens, pitches, playgrounds and pools, with
//! their ground, outline and furniture.

use crate::block_definitions::Block;
use crate::bresenham::Point;
use crate::elements::{coord_ok, lookup, str_eq, way_in_range, Args, ProcessedWay};
use crate::floodfill::{complete_fill, flood_fill_area, partial_fill};
use crate::highways::{draw_outline, lemma_fill_cell_in_range, node_cells, outline_segments, way_cells};
use crate::landuse::Draws;
use crate::random::{new_rng, random_in};
use crate::tree::{create_tree, grown_tree, put};
use crate::world_editor::{fill_result, matches_at, set_result, WorldEditor};
use rand::rngs::ThreadRng;
use vstd::prelude::*;

verus! {

/// The ground block of a leisure kind: grass (snow in winter) unless the
/// kind has a cover of its own; pitches and playgrounds after their
/// surface.
pub open spec fn leisure_cover(kind: Seq<char>, surface: Option<Seq<char>>, winter: bool) -> Block {
    let grass = if winter { Block::SnowBlock } else { Block::GrassBlock };
    if kind == "park"@ {
        grass
    } else if kind == "playground"@ || kind == "recreation_ground"@ || kind == "pitch"@ {
        match surface {
            Some(s) => if s == "clay"@ {
                Block::Terracotta
            } else if s == "sand"@ {
                Block::Sand
            } else if s == "tartan"@ {
                Block::RedTerracotta
            } else {
                Block::GreenStainedHardenedClay
            },
            None => Block::GreenStainedHardenedClay,
        }
    } else if kind == "garden"@ {
        grass
    } else if kind == "swimming_pool"@ {
        Block::Water
    } else {
        grass
    }
}

/// The ground block of a leisure kind.
pub fn leisure_block(kind: &str, surface: Option<&String>, winter: bool) -> (r: Block)
    ensures
        r == leisure_cover(
            kind@,
            match surface {
                Some(s) => Some(s@),
                None => None,
            },
            winter,
        ),
{
    let grass = if winter { Block::SnowBlock } else { Block::GrassBlock };
    if str_eq(kind, "park") {
        grass
    } else if str_eq(kind, "playground") || str_eq(kind, "recreation_ground") || str_eq(kind, "pitch") {
        match surface {
            Some(s) => {
                let s = s.as_str();
                if str_eq(s, "clay") {
                    Block::Terracotta
                } else if str_eq(s, "sand") {
                    Block::Sand
                } else if str_eq(s, "tartan") {
                    Block::RedTerracotta
                } else {
                    Block::GreenStainedHardenedClay
                }
            },
            None => Block::GreenStainedHardenedClay,
        }
    } else if str_eq(kind, "garden") {
        grass
    } else if str_eq(kind, "swimming_pool") {
        Block::Water
    } else {
        grass
    }
}

/// The furniture kind of a leisure kind: 1 park or garden, 2 playground or
/// recreation ground, 0 none.
pub open spec fn furniture_kind(kind: Seq<char>) -> u8 {
    if kind == "park"@ || kind == "garden"@ {
        1
    } else if kind == "playground"@ || kind == "recreation_ground"@ {
        2
    } else {
        0
    }
}

/// The ranges that the values drawn for a leisure cell fall in.
pub open spec fn leisure_draws_ok(d: Draws) -> bool {
    0 <= d.0 < 1000 && 0 <= d.1 < 4 && 1 <= d.2 < 4 && 0 <= d.3 < 5000
}

/// The flower of a park draw.
pub open spec fn park_flower(v: i32) -> Block {
    if v == 0 {
        Block::RedFlower
    } else if v == 1 {
        Block::YellowFlower
    } else if v == 2 {
        Block::BlueFlower
    } else {
        Block::WhiteFlower
    }
}

/// A bench, a flower, tall grass or a tree on a park cell, after the draw.
pub open spec fn park_decor(m: Map<Point, Block>, x: int, z: int, g: int, winter: bool, d: Draws) -> Map<Point, Block> {
    let c = d.0;
    if c == 0 {
        put(put(put(m, (x, g + 1, z), Block::OakLog), (x + 1, g + 1, z), Block::OakLog), (x - 1, g + 1, z), Block::OakLog)
    } else if c <= 30 {
        put(m, (x, g + 1, z), park_flower(d.1))
    } else if c <= 70 {
        put(m, (x, g + 1, z), Block::Grass)
    } else if c <= 80 {
        grown_tree(m, x, g + 1, z, d.2 as u8, winter)
    } else {
        m
    }
}

/// The first `k` levels of a swing's two posts.
pub open spec fn swing_posts(m: Map<Point, Block>, x: int, z: int, g: int, k: int) -> Map<Point, Block>
    decreases k,
{
    if k <= 0 {
        m
    } else {
        let m1 = swing_posts(m, x, z, g, k - 1);
        put(put(m1, (x - 1, g + k, z), Block::OakFence), (x + 1, g + k, z), Block::OakFence)
    }
}

/// A swing, a slide or a sandpit (over the pitch's clay) on a playground
/// cell, after the draw.
pub open spec fn playground_decor(m: Map<Point, Block>, x: int, z: int, g: int, d: Draws) -> Map<Point, Block> {
    let c = d.3;
    if c <= 10 {
        let m1 = swing_posts(m, x, z, g, 4);
        put(put(m1, (x, g + 4, z), Block::OakFence), (x, g + 2, z), Block::StoneBlockSlab)
    } else if c <= 20 {
        let m1 = put(m, (x, g + 1, z), Block::OakSlab);
        let m2 = put(m1, (x + 1, g + 2, z), Block::OakSlab);
        let m3 = put(m2, (x + 2, g + 3, z), Block::OakSlab);
        let m4 = put(m3, (x + 2, g + 2, z), Block::OakPlanks);
        let m5 = put(m4, (x + 2, g + 1, z), Block::OakPlanks);
        let m6 = put(m5, (x + 2, g + 2, z - 1), Block::Ladder);
        put(m6, (x + 2, g + 1, z - 1), Block::Ladder)
    } else if c <= 30 {
        fill_result(m, Block::Sand, (x - 3, g, z - 3), (x + 3, g, z + 3), Some(seq![Block::GreenStainedHardenedClay]), None)
    } else {
        m
    }
}

/// One filled cell: the ground block over grass, then park furniture where
/// the ground is grass, or playground furniture.
#[verifier::opaque]
pub open spec fn leisure_cell(
    m: Map<Point, Block>,
    c: (i32, i32),
    g: int,
    block: Block,
    furniture: u8,
    winter: bool,
    d: Draws,
) -> Map<Point, Block> {
    let (x, z) = (c.0 as int, c.1 as int);
    let m1 = set_result(m, (x, g, z), block, Some(seq![Block::GrassBlock]), None);
    if furniture == 1 {
        if matches_at(m1, (x, g, z), Some(seq![Block::GrassBlock]), None) {
            park_decor(m1, x, z, g, winter, d)
        } else {
            m1
        }
    } else if furniture == 2 {
        playground_decor(m1, x, z, g, d)
    } else {
        m1
    }
}

/// The first `k` filled cells, each with the values drawn for it.
pub open spec fn leisure_cells(
    m: Map<Point, Block>,
    cells: Seq<(i32, i32)>,
    draws: Seq<Draws>,
    k: int,
    g: int,
    block: Block,
    furniture: u8,
    winter: bool,
) -> Map<Point, Block>
    decreases k,
{
    if k <= 0 {
        m
    } else {
        leisure_cell(
            leisure_cells(m, cells, draws, k - 1, g, block, furniture, winter),
            cells[k - 1],
            g,
            block,
            furniture,
            winter,
            draws[k - 1],
        )
    }
}

/// The ground that a leisure outline may replace.
pub open spec fn outline_ground() -> Seq<Block> {
    seq![
        Block::GrassBlock,
        Block::StoneBricks,
        Block::SmoothStone,
        Block::LightGrayConcrete,
        Block::Cobblestone,
        Block::GrayConcrete,
    ]
}

/// The store `r` is what the outline and the fill cells `cells`, with the
/// values `draws` drawn for them, make of the store `m`.
pub open spec fn leisure_from(
    m: Map<Point, Block>,
    r: Map<Point, Block>,
    w: &ProcessedWay,
    g: int,
    winter: bool,
    timeout: Option<u64>,
    cells: Seq<(i32, i32)>,
    draws: Seq<Draws>,
) -> bool {
    let kind = match lookup(w.tags@, "leisure"@) {
        Some(k) => k,
        None => Seq::empty(),
    };
    let block = leisure_cover(kind, lookup(w.tags@, "surface"@), winter);
    let outlined = outline_segments(m, w, g, block, Some(outline_ground()), w.nodes@.len() as int);
    &&& partial_fill(way_cells(w), cells)
    &&& timeout is None ==> complete_fill(way_cells(w), cells)
    &&& draws.len() == cells.len()
    &&& forall|k: int| 0 <= k < draws.len() ==> leisure_draws_ok(#[trigger] draws[k])
    &&& r == leisure_cells(outlined, cells, draws, cells.len() as int, g, block, furniture_kind(kind), winter)
}

/// What `generate_leisure` makes of the store `m` as the store `r`.
pub open spec fn leisure_done(
    m: Map<Point, Block>,
    r: Map<Point, Block>,
    w: &ProcessedWay,
    g: int,
    winter: bool,
    timeout: Option<u64>,
) -> bool {
    match lookup(w.tags@, "leisure"@) {
        None => r == m,
        Some(_) => if w.nodes@.len() < 2 {
            r == m
        } else {
            exists|cells: Seq<(i32, i32)>, draws: Seq<Draws>|
                #[trigger] leisure_from(m, r, w, g, winter, timeout, cells, draws)
        },
    }
}

/// Benches, flowers, grass and trees on a park or garden cell.
fn decorate_park(editor: &mut WorldEditor, x: i32, z: i32, ground_level: i32, winter: bool, d: Draws)
    requires
        old(editor).wf(),
        coord_ok(x as int),
        coord_ok(z as int),
        coord_ok(ground_level as int),
        leisure_draws_ok(d),
    ensures
        final(editor).wf(),
        final(editor)@ == park_decor(old(editor)@, x as int, z as int, ground_level as int, winter, d),
{
    let random_choice: i32 = d.0;
    if random_choice == 0 {
        // Benches.
        editor.set_block(Block::OakLog, x, ground_level + 1, z, None, None);
        editor.set_block(Block::OakLog, x + 1, ground_level + 1, z, None, None);
        editor.set_block(Block::OakLog, x - 1, ground_level + 1, z, None, None);
    } else if random_choice <= 30 {
        let flower_choice = if d.1 == 0 {
            Block::RedFlower
        } else if d.1 == 1 {
            Block::YellowFlower
        } else if d.1 == 2 {
            Block::BlueFlower
        } else {
            Block::WhiteFlower
        };
        editor.set_block(flower_choice, x, ground_level + 1, z, None, None);
    } else if random_choice <= 70 {
        editor.set_block(Block::Grass, x, ground_level + 1, z, None, None);
    } else if random_choice <= 80 {
        create_tree(editor, x, ground_level + 1, z, d.2 as u8, winter);
    }
}

/// Swings, slides and sandpits on a playground cell.
fn decorate_playground(editor: &mut WorldEditor, x: i32, z: i32, ground_level: i32, d: Draws)
    requires
        old(editor).wf(),
        coord_ok(x as int),
        coord_ok(z as int),
        coord_ok(ground_level as int),
        leisure_draws_ok(d),
    ensures
        final(editor).wf(),
        final(editor)@ == playground_decor(old(editor)@, x as int, z as int, ground_level as int, d),
{
    let random_choice: i32 = d.3;
    if random_choice <= 10 {
        // Swing set.
        let mut y: i32 = 1;
        while y <= 4
            invariant
                editor.wf(),
                1 <= y <= 5,
                coord_ok(x as int),
                coord_ok(ground_level as int),
                editor@ == swing_posts(old(editor)@, x as int, z as int, ground_level as int, y - 1),
            decreases 5 - y,
        {
            editor.set_block(Block::OakFence, x - 1, ground_level + y, z, None, None);
            editor.set_block(Block::OakFence, x + 1, ground_level + y, z, None, None);
            y = y + 1;
        }
        editor.set_block(Block::OakFence, x, ground_level + 4, z, None, None);
        editor.set_block(Block::StoneBlockSlab, x, ground_level + 2, z, None, None);
    } else if random_choice <= 20 {
        // Slide.
        editor.set_block(Block::OakSlab, x, ground_level + 1, z, None, None);
        editor.set_block(Block::OakSlab, x + 1, ground_level + 2, z, None, None);
        editor.set_block(Block::OakSlab, x + 2, ground_level + 3, z, None, None);
        editor.set_block(Block::OakPlanks, x + 2, ground_level + 2, z, None, None);
        editor.set_block(Block::OakPlanks, x + 2, ground_level + 1, z, None, None);
        editor.set_block(Block::Ladder, x + 2, ground_level + 2, z - 1, None, None);
        editor.set_block(Block::Ladder, x + 2, ground_level + 1, z - 1, None, None);
    } else if random_choice <= 30 {
        // Sandpit.
        let clay = [Block::GreenStainedHardenedClay];
        assert(clay@ == seq![Block::GreenStainedHardenedClay]);
        editor.fill_blocks(Block::Sand, x - 3, ground_level, z - 3, x + 3, ground_level, z + 3, Some(&clay), None);
    }
}

/// The furniture kind of a leisure kind.
fn furniture_kind_of(kind: &str) -> (r: u8)
    ensures
        r == furniture_kind(kind@),
{
    if str_eq(kind, "park") || str_eq(kind, "garden") {
        1
    } else if str_eq(kind, "playground") || str_eq(kind, "recreation_ground") {
        2
    } else {
        0
    }
}

/// Covers and furnishes one filled cell with the values drawn for it.
pub fn leisure_cell_exec(
    editor: &mut WorldEditor,
    x: i32,
    z: i32,
    ground_level: i32,
    block_type: Block,
    furniture: u8,
    winter: bool,
    d: Draws,
)
    requires
        old(editor).wf(),
        coord_ok(x as int),
        coord_ok(z as int),
        coord_ok(ground_level as int),
        leisure_draws_ok(d),
    ensures
        final(editor).wf(),
        final(editor)@ == leisure_cell(old(editor)@, (x, z), ground_level as int, block_type, furniture, winter, d),
{
    let ghost m0 = editor@;
    let grass = [Block::GrassBlock];
    assert(grass@ == seq![Block::GrassBlock]);
    editor.set_block(block_type, x, ground_level, z, Some(&grass), None);
    if furniture == 1 {
        if editor.check_for_block(x, ground_level, z, Some(&grass), None) {
            decorate_park(editor, x, z, ground_level, winter, d);
        }
    } else if furniture == 2 {
        decorate_playground(editor, x, z, ground_level, d);
    }
    assert(editor@ == leisure_cell(m0, (x, z), ground_level as int, block_type, furniture, winter, d)) by {
        reveal(leisure_cell);
    }
}

/// Generates a leisure area: its outline and ground after the `leisure`
/// tag (over grass and paved ground only), and the furniture of parks,
/// gardens, playgrounds and recreation grounds, chosen by random draws. A
/// way without a `leisure` tag, or with fewer than two nodes, leaves the
/// world as it is.
pub fn generate_leisure(editor: &mut WorldEditor, element: &ProcessedWay, ground_level: i32, args: &Args)
    requires
        old(editor).wf(),
        way_in_range(element),
        coord_ok(ground_level as int),
    ensures
        final(editor).wf(),
        leisure_done(old(editor)@, final(editor)@, element, ground_level as int, args.winter, args.timeout),
{
    let leisure_type = match element.tags.get("leisure") {
        Some(t) => t.as_str(),
        None => {
            return;
        },
    };
    if element.nodes.len() < 2 {
        return;
    }
    let ghost g = ground_level as int;
    let block_type = leisure_block(leisure_type, element.tags.get("surface"), args.winter);
    let ground = [
        Block::GrassBlock,
        Block::StoneBricks,
        Block::SmoothStone,
        Block::LightGrayConcrete,
        Block::Cobblestone,
        Block::GrayConcrete,
    ];
    assert(ground@ == outline_ground());
    draw_outline(editor, element, ground_level, block_type, Some(&ground));
    let ghost outlined = editor@;
    let polygon_coords = node_cells(element);
    assert(polygon_coords@ =~= way_cells(element));
    let filled_area = flood_fill_area(&polygon_coords, args.timeout);
    let mut rng = new_rng();
    let furniture = furniture_kind_of(leisure_type);
    let ghost mut draws: Seq<Draws> = Seq::empty();
    let mut k: usize = 0;
    while k < filled_area.len()
        invariant
            editor.wf(),
            k <= filled_area@.len(),
            way_in_range(element),
            partial_fill(polygon_coords@, filled_area@),
            polygon_coords@.len() == element.nodes@.len(),
            forall|j: int|
                0 <= j < polygon_coords@.len() ==> #[trigger] polygon_coords@[j] == (
                    element.nodes@[j].x,
                    element.nodes@[j].z,
                ),
            coord_ok(ground_level as int),
            g == ground_level as int,
            draws.len() == k,
            element.nodes@.len() >= 2,
            forall|j: int| 0 <= j < draws.len() ==> leisure_draws_ok(#[trigger] draws[j]),
            editor@ == leisure_cells(outlined, filled_area@, draws, k as int, g, block_type, furniture, args.winter),
        decreases filled_area@.len() - k,
    {
        let (x, z) = filled_area[k];
        proof {
            lemma_fill_cell_in_range(element, polygon_coords@, filled_area@[k as int]);
        }
        let d: Draws = (random_in(&mut rng, 0, 1000), random_in(&mut rng, 0, 4), random_in(&mut rng, 1, 4), random_in(&mut rng, 0, 5000));
        leisure_cell_exec(editor, x, z, ground_level, block_type, furniture, args.winter, d);
        proof {
            let before = draws;
            draws = draws.push(d);
            lemma_leisure_prefix(outlined, filled_area@, before, draws, k as int, g, block_type, furniture, args.winter);
        }
        k = k + 1;
    }
    proof {
        let kind = leisure_type@;
        assert(lookup(element.tags@, "leisure"@) == Some(kind));
        assert(partial_fill(way_cells(element), filled_area@));
        assert(leisure_from(old(editor)@, editor@, element, g, args.winter, args.timeout, filled_area@, draws));
        assert(element.nodes@.len() >= 2);
        assert(leisure_done(old(editor)@, editor@, element, g, args.winter, args.timeout));
    }
}

/// The cells fold reads only the first `k` draws.
proof fn lemma_leisure_prefix(
    m: Map<Point, Block>,
    cells: Seq<(i32, i32)>,
    a: Seq<Draws>,
    b: Seq<Draws>,
    k: int,
    g: int,
    block: Block,
    furniture: u8,
    winter: bool,
)
    requires
        0 <= k <= a.len(),
        k <= b.len(),
        forall|j: int| 0 <= j < k ==> a[j] == b[j],
    ensures
        leisure_cells(m, cells, b, k, g, block, furniture, winter) == leisure_cells(m, cells, a, k, g, block, furniture, winter),
    decreases k,
{
    if k > 0 {
        lemma_leisure_prefix(m, cells, a, b, k - 1, g, block, furniture, winter);
    }
}

} // verus!
