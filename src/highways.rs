//! Roads, paths, plazas, street furniture, sidings and runways.

use crate::block_definitions::Block;
use crate::bresenham::{bresenham_line, digital_line, view_point, view_points, Point};
use crate::elements::{
    coord_ok, element_in_range, lookup, parsed_i32, str_eq, tag_is_negative, way_in_range, Args,
    ProcessedElement, ProcessedWay,
};
use crate::floodfill::{complete_fill, fillable, flood_fill_area, in_bbox, partial_fill};
use crate::tree::put;
use vstd::arithmetic::div_mod::lemma_fundamental_div_mod_converse;
use crate::world_editor::{fill_result, in_height, list_view, matches_at, occupant, set_result, WorldEditor};
use vstd::prelude::*;

verus! {

/// The cells of the way's nodes, in order.
pub(crate) fn node_cells(way: &ProcessedWay) -> (r: Vec<(i32, i32)>)
    ensures
        r@.len() == way.nodes@.len(),
        forall|i: int| 0 <= i < r@.len() ==> #[trigger] r@[i] == (way.nodes@[i].x, way.nodes@[i].z),
{
    let mut r: Vec<(i32, i32)> = Vec::new();
    let mut i: usize = 0;
    while i < way.nodes.len()
        invariant
            i <= way.nodes@.len(),
            r@.len() == i,
            forall|j: int| 0 <= j < i ==> #[trigger] r@[j] == (way.nodes@[j].x, way.nodes@[j].z),
        decreases way.nodes@.len() - i,
    {
        r.push((way.nodes[i].x, way.nodes[i].z));
        i = i + 1;
    }
    r
}

/// A filled cell of a way's footprint lies within the accepted range.
pub(crate) proof fn lemma_fill_cell_in_range(way: &ProcessedWay, cells: Seq<(i32, i32)>, c: (i32, i32))
    requires
        way_in_range(way),
        cells.len() == way.nodes@.len(),
        forall|i: int| 0 <= i < cells.len() ==> #[trigger] cells[i] == (way.nodes@[i].x, way.nodes@[i].z),
        fillable(cells, c),
    ensures
        coord_ok(c.0 as int),
        coord_ok(c.1 as int),
{
    assert(in_bbox(cells, c));
    let i0 = choose|i: int| 0 <= i < cells.len() && #[trigger] cells[i].0 <= c.0;
    let i1 = choose|i: int| 0 <= i < cells.len() && c.0 <= #[trigger] cells[i].0;
    let i2 = choose|i: int| 0 <= i < cells.len() && #[trigger] cells[i].1 <= c.1;
    let i3 = choose|i: int| 0 <= i < cells.len() && c.1 <= #[trigger] cells[i].1;
    assert(coord_ok(way.nodes@[i0].x as int));
    assert(coord_ok(way.nodes@[i1].x as int));
    assert(coord_ok(way.nodes@[i2].z as int));
    assert(coord_ok(way.nodes@[i3].z as int));
}

/// The surface of a pedestrian area for its `surface` tag.
pub open spec fn area_surface_of(surface: Option<Seq<char>>, winter: bool) -> Block {
    match surface {
        None => Block::Stone,
        Some(s) => if s == "paving_stones"@ || s == "sett"@ {
            Block::StoneBricks
        } else if s == "bricks"@ {
            Block::Brick
        } else if s == "wood"@ {
            Block::OakPlanks
        } else if s == "asphalt"@ {
            Block::BlackConcrete
        } else if s == "gravel"@ || s == "fine_gravel"@ {
            Block::Gravel
        } else if s == "grass"@ {
            if winter {
                Block::SnowBlock
            } else {
                Block::GrassBlock
            }
        } else if s == "dirt"@ {
            Block::Dirt
        } else if s == "sand"@ {
            Block::Sand
        } else if s == "concrete"@ {
            Block::LightGrayConcrete
        } else {
            Block::Stone
        },
    }
}

/// The surface of a pedestrian area for its `surface` tag.
fn area_surface(surface: Option<&String>, winter: bool) -> (r: Block)
    ensures
        r == area_surface_of(
            match surface {
                Some(s) => Some(s@),
                None => None,
            },
            winter,
        ),
{
    match surface {
        None => Block::Stone,
        Some(s) => {
            let s = s.as_str();
            if str_eq(s, "paving_stones") || str_eq(s, "sett") {
                Block::StoneBricks
            } else if str_eq(s, "bricks") {
                Block::Brick
            } else if str_eq(s, "wood") {
                Block::OakPlanks
            } else if str_eq(s, "asphalt") {
                Block::BlackConcrete
            } else if str_eq(s, "gravel") || str_eq(s, "fine_gravel") {
                Block::Gravel
            } else if str_eq(s, "grass") {
                if winter {
                    Block::SnowBlock
                } else {
                    Block::GrassBlock
                }
            } else if str_eq(s, "dirt") {
                Block::Dirt
            } else if str_eq(s, "sand") {
                Block::Sand
            } else if str_eq(s, "concrete") {
                Block::LightGrayConcrete
            } else {
                Block::Stone
            }
        },
    }
}

/// Whether `v % 2 < 1` in Rust's truncating remainder: every value but the
/// positive odd ones.
fn rem2_below_one(v: i32) -> (r: bool)
    ensures
        r == white_stripe_at(v as int),
{
    if v > 0 {
        (v as u32) % 2 == 0
    } else {
        true
    }
}

/// A zebra crossing paints white where `v % 2 < 1` under Rust's truncating
/// remainder: at every value but the positive odd ones.
pub open spec fn white_stripe_at(v: int) -> bool {
    !(v > 0 && v % 2 == 1)
}

/// The blocks that a road keeps: its paint.
pub open spec fn paint_list() -> Seq<Block> {
    seq![Block::BlackConcrete, Block::WhiteConcrete]
}

/// One cell `(sx, g, sz)` of a road's surface: on a zebra crossing white
/// (over black only) or black in stripes across the road's main direction;
/// elsewhere the road's block, except over paint.
pub open spec fn road_cell(
    m: Map<Point, Block>,
    sx: int,
    sz: int,
    g: int,
    block_type: Block,
    zebra: bool,
    horizontal: bool,
) -> Map<Point, Block> {
    let p = (sx, g, sz);
    if zebra {
        if white_stripe_at(if horizontal { sx } else { sz }) {
            set_result(m, p, Block::WhiteConcrete, Some(seq![Block::BlackConcrete]), None)
        } else {
            put(m, p, Block::BlackConcrete)
        }
    } else {
        set_result(m, p, block_type, None, Some(paint_list()))
    }
}

/// The first `k` cells of the column `x + dx` of the square of half-width
/// `r` around `(x, z)`, in increasing z.
pub open spec fn road_row(
    m: Map<Point, Block>,
    x: int,
    z: int,
    dx: int,
    r: int,
    k: int,
    g: int,
    block_type: Block,
    zebra: bool,
    horizontal: bool,
) -> Map<Point, Block>
    decreases k,
{
    if k <= 0 {
        m
    } else {
        road_cell(
            road_row(m, x, z, dx, r, k - 1, g, block_type, zebra, horizontal),
            x + dx,
            z - r + k - 1,
            g,
            block_type,
            zebra,
            horizontal,
        )
    }
}

/// The first `j` columns of the square of half-width `r` around `(x, z)`,
/// in increasing x.
pub open spec fn road_square(
    m: Map<Point, Block>,
    x: int,
    z: int,
    r: int,
    j: int,
    g: int,
    block_type: Block,
    zebra: bool,
    horizontal: bool,
) -> Map<Point, Block>
    decreases j,
{
    if j <= 0 {
        m
    } else {
        road_row(
            road_square(m, x, z, r, j - 1, g, block_type, zebra, horizontal),
            x,
            z,
            j - 1 - r,
            r,
            2 * r + 1,
            g,
            block_type,
            zebra,
            horizontal,
        )
    }
}

/// The road at traced cell number `k` of a segment: the surface square,
/// then, on striped roads, white paint over black at the cell itself for
/// the first five of every ten cells.
pub open spec fn road_point(
    m: Map<Point, Block>,
    p: Point,
    k: int,
    block_type: Block,
    r: int,
    stripe: bool,
    zebra: bool,
    horizontal: bool,
) -> Map<Point, Block> {
    let sq = road_square(m, p.0, p.2, r, 2 * r + 1, p.1, block_type, zebra, horizontal);
    if stripe && k % 10 < 5 {
        set_result(sq, p, Block::WhiteConcrete, Some(seq![Block::BlackConcrete]), None)
    } else {
        sq
    }
}

/// The road over the first `k` traced cells of `line`.
pub open spec fn road_line(
    m: Map<Point, Block>,
    line: Seq<Point>,
    k: int,
    block_type: Block,
    r: int,
    stripe: bool,
    zebra: bool,
    horizontal: bool,
) -> Map<Point, Block>
    decreases k,
{
    if k <= 0 {
        m
    } else {
        road_point(
            road_line(m, line, k - 1, block_type, r, stripe, zebra, horizontal),
            line[k - 1],
            k - 1,
            block_type,
            r,
            stripe,
            zebra,
            horizontal,
        )
    }
}

/// A segment runs mainly along x.
pub open spec fn mostly_along_x(x1: int, z1: int, x2: int, z2: int) -> bool {
    crate::bresenham::abs(x2 - x1) >= crate::bresenham::abs(z2 - z1)
}

/// The road over the segments of `w` that end before node `i`.
pub open spec fn road_segments(
    m: Map<Point, Block>,
    w: &ProcessedWay,
    g: int,
    block_type: Block,
    r: int,
    stripe: bool,
    zebra: bool,
    i: int,
) -> Map<Point, Block>
    decreases i,
{
    if i <= 1 {
        m
    } else {
        let line = segment_line(w, i - 1, g);
        let horizontal = mostly_along_x(
            w.nodes@[i - 2].x as int,
            w.nodes@[i - 2].z as int,
            w.nodes@[i - 1].x as int,
            w.nodes@[i - 1].z as int,
        );
        road_line(
            road_segments(m, w, g, block_type, r, stripe, zebra, i - 1),
            line,
            line.len() as int,
            block_type,
            r,
            stripe,
            zebra,
            horizontal,
        )
    }
}

/// A road's surface block, half-width and centre stripe, after its
/// `highway` and `lanes` tags.
pub open spec fn road_style(h: Seq<char>, lanes: Option<Seq<char>>) -> (Block, int, bool) {
    if h == "footway"@ || h == "pedestrian"@ {
        (Block::GrayConcrete, 1, false)
    } else if h == "path"@ {
        (Block::LightGrayConcrete, 1, false)
    } else if h == "motorway"@ || h == "primary"@ {
        (Block::BlackConcrete, 5, true)
    } else if h == "track"@ {
        (Block::BlackConcrete, 1, false)
    } else if h == "service"@ {
        (Block::GrayConcrete, 2, false)
    } else {
        match lanes {
            Some(l) => if l == "2"@ {
                (Block::BlackConcrete, 3, true)
            } else if l != "1"@ {
                (Block::BlackConcrete, 4, true)
            } else {
                (Block::BlackConcrete, 2, false)
            },
            None => (Block::BlackConcrete, 2, false),
        }
    }
}

/// Draws one segment of a road: the surface `block_range` blocks to either
/// side of each cell of the line from `(x1, z1)` to `(x2, z2)`, the zebra
/// pattern on crossings, and the dashed centre stripe.
fn draw_road_segment(
    editor: &mut WorldEditor,
    x1: i32,
    z1: i32,
    x2: i32,
    z2: i32,
    ground_level: i32,
    block_type: Block,
    block_range: i32,
    add_stripe: bool,
    zebra: bool,
)
    requires
        old(editor).wf(),
        coord_ok(x1 as int),
        coord_ok(z1 as int),
        coord_ok(x2 as int),
        coord_ok(z2 as int),
        coord_ok(ground_level as int),
        1 <= block_range <= 5,
    ensures
        final(editor).wf(),
        ({
            let line = digital_line(
                (x1 as int, ground_level as int, z1 as int),
                (x2 as int, ground_level as int, z2 as int),
            );
            final(editor)@ == road_line(
                old(editor)@,
                line,
                line.len() as int,
                block_type,
                block_range as int,
                add_stripe,
                zebra,
                mostly_along_x(x1 as int, z1 as int, x2 as int, z2 as int),
            )
        }),
{
    let points = bresenham_line(x1, ground_level, z1, x2, ground_level, z2);
    let ghost line = digital_line(
        (x1 as int, ground_level as int, z1 as int),
        (x2 as int, ground_level as int, z2 as int),
    );
    let ghost r = block_range as int;
    // Length of the solid part of the stripe and of the gap after it.
    let dash_length: i32 = 5;
    let gap_length: i32 = 5;
    let mut stripe_length: i32 = 0;
    let is_horizontal: bool = {
        let adx: i64 = if x2 >= x1 { x2 as i64 - x1 as i64 } else { x1 as i64 - x2 as i64 };
        let adz: i64 = if z2 >= z1 { z2 as i64 - z1 as i64 } else { z1 as i64 - z2 as i64 };
        adx >= adz
    };
    assert(is_horizontal == mostly_along_x(x1 as int, z1 as int, x2 as int, z2 as int));
    let black = [Block::BlackConcrete];
    let paint = [Block::BlackConcrete, Block::WhiteConcrete];
    assert(black@ == seq![Block::BlackConcrete]);
    assert(paint@ == paint_list());
    let mut k: usize = 0;
    while k < points.len()
        invariant
            editor.wf(),
            k <= points@.len(),
            1 <= block_range <= 5,
            r == block_range as int,
            add_stripe ==> stripe_length == (k as int) % 10,
            0 <= stripe_length < 10,
            dash_length == 5,
            gap_length == 5,
            black@ == seq![Block::BlackConcrete],
            paint@ == paint_list(),
            view_points(points@) == line,
            is_horizontal == mostly_along_x(x1 as int, z1 as int, x2 as int, z2 as int),
            editor@ == road_line(old(editor)@, line, k as int, block_type, r, add_stripe, zebra, is_horizontal),
            forall|i: int|
                0 <= i < points@.len() ==> crate::bresenham::between(
                    x1 as int,
                    #[trigger] points@[i].0 as int,
                    x2 as int,
                ) && crate::bresenham::between(ground_level as int, points@[i].1 as int, ground_level as int)
                    && crate::bresenham::between(z1 as int, points@[i].2 as int, z2 as int),
            coord_ok(x1 as int),
            coord_ok(z1 as int),
            coord_ok(x2 as int),
            coord_ok(z2 as int),
            coord_ok(ground_level as int),
        decreases points@.len() - k,
    {
        let (x, y, z) = points[k];
        assert(crate::bresenham::between(x1 as int, points@[k as int].0 as int, x2 as int));
        assert(line[k as int] == view_point(points@[k as int]));
        assert(y == ground_level);
        let ghost m_point = editor@;
        // The road surface over its whole width.
        let mut dx: i32 = -block_range;
        while dx <= block_range
            invariant
                editor.wf(),
                1 <= block_range <= 5,
                r == block_range as int,
                -block_range <= dx <= block_range + 1,
                black@ == seq![Block::BlackConcrete],
                paint@ == paint_list(),
                editor@ == road_square(
                    m_point,
                    x as int,
                    z as int,
                    r,
                    dx + r,
                    ground_level as int,
                    block_type,
                    zebra,
                    is_horizontal,
                ),
                coord_ok(x as int),
                coord_ok(z as int),
                coord_ok(ground_level as int),
            decreases block_range + 1 - dx,
        {
            let ghost m_row = editor@;
            let mut dz: i32 = -block_range;
            while dz <= block_range
                invariant
                    editor.wf(),
                    1 <= block_range <= 5,
                    r == block_range as int,
                    -block_range <= dx <= block_range,
                    -block_range <= dz <= block_range + 1,
                    black@ == seq![Block::BlackConcrete],
                    paint@ == paint_list(),
                    editor@ == road_row(
                        m_row,
                        x as int,
                        z as int,
                        dx as int,
                        r,
                        dz + r,
                        ground_level as int,
                        block_type,
                        zebra,
                        is_horizontal,
                    ),
                    coord_ok(x as int),
                    coord_ok(z as int),
                    coord_ok(ground_level as int),
                decreases block_range + 1 - dz,
            {
                let set_x: i32 = x + dx;
                let set_z: i32 = z + dz;
                if zebra {
                    let white = if is_horizontal {
                        rem2_below_one(set_x)
                    } else {
                        rem2_below_one(set_z)
                    };
                    if white {
                        editor.set_block(Block::WhiteConcrete, set_x, ground_level, set_z, Some(&black), None);
                    } else {
                        editor.set_block(Block::BlackConcrete, set_x, ground_level, set_z, None, None);
                    }
                } else {
                    editor.set_block(block_type, set_x, ground_level, set_z, None, Some(&paint));
                }
                dz = dz + 1;
            }
            dx = dx + 1;
        }
        // A dashed white line in the middle of larger roads.
        if add_stripe {
            if stripe_length < dash_length {
                editor.set_block(Block::WhiteConcrete, x, ground_level, z, Some(&black), None);
            }
            stripe_length = stripe_length + 1;
            if stripe_length >= dash_length + gap_length {
                stripe_length = 0;
            }
        }
        proof {
            if add_stripe {
                assert(stripe_length == ((k + 1) as int) % 10) by {
                    vstd::arithmetic::div_mod::lemma_fundamental_div_mod(k as int, 10);
                    vstd::arithmetic::div_mod::lemma_mod_bound(k as int, 10);
                    if (k as int) % 10 == 9 {
                        lemma_fundamental_div_mod_converse((k + 1) as int, 10, (k as int) / 10 + 1, 0);
                    } else {
                        lemma_fundamental_div_mod_converse((k + 1) as int, 10, (k as int) / 10, (k as int) % 10 + 1);
                    }
                }
            }
            assert(road_line(old(editor)@, line, k + 1, block_type, r, add_stripe, zebra, is_horizontal)
                == road_point(m_point, line[k as int], k as int, block_type, r, add_stripe, zebra, is_horizontal));
        }
        k = k + 1;
    }
}

/// A street lamp: four fence posts and a light on top.
pub open spec fn street_lamp(m: Map<Point, Block>, x: int, z: int, g: int) -> Map<Point, Block> {
    put(column(m, Block::OakFence, x, z, g + 1, 4), (x, g + 5, z), Block::Glowstone)
}

/// Traffic signals: a three-block wall post, green, yellow and red lights,
/// and in winter snow on top.
pub open spec fn traffic_signals(m: Map<Point, Block>, x: int, z: int, g: int, winter: bool) -> Map<Point, Block> {
    let m1 = column(m, Block::CobblestoneWall, x, z, g + 1, 3);
    let m2 = put(m1, (x, g + 4, z), Block::GreenWool);
    let m3 = put(m2, (x, g + 5, z), Block::YellowWool);
    let m4 = put(m3, (x, g + 6, z), Block::RedWool);
    if winter {
        put(m4, (x, g + 7, z), Block::SnowLayer)
    } else {
        m4
    }
}

/// A bus stop: a three-block wall post under a two-block white roof.
pub open spec fn bus_stop(m: Map<Point, Block>, x: int, z: int, g: int) -> Map<Point, Block> {
    let m1 = column(m, Block::CobblestoneWall, x, z, g + 1, 3);
    put(put(m1, (x, g + 4, z), Block::WhiteWool), (x + 1, g + 4, z), Block::WhiteWool)
}

/// `k` blocks `b` stacked at `(x, z)` from height `y0` up.
pub open spec fn column(m: Map<Point, Block>, b: Block, x: int, z: int, y0: int, k: int) -> Map<Point, Block>
    decreases k,
{
    if k <= 0 {
        m
    } else {
        put(column(m, b, x, z, y0, k - 1), (x, y0 + k - 1, z), b)
    }
}

/// `b` written unconditionally at height `g` over the cells of `cells`, in
/// order.
pub open spec fn paved(m: Map<Point, Block>, cells: Seq<(i32, i32)>, g: int, b: Block) -> Map<Point, Block>
    decreases cells.len(),
{
    if cells.len() == 0 {
        m
    } else {
        put(paved(m, cells.drop_last(), g, b), (cells.last().0 as int, g, cells.last().1 as int), b)
    }
}

/// The footprint of a way: its nodes' cells.
pub open spec fn way_cells(w: &ProcessedWay) -> Seq<(i32, i32)> {
    Seq::new(w.nodes@.len(), |i: int| (w.nodes@[i].x, w.nodes@[i].z))
}

/// Tag `key` holds a negative integer.
pub open spec fn negative_tag(tags: Seq<(Seq<char>, Seq<char>)>, key: Seq<char>) -> bool {
    match lookup(tags, key) {
        Some(v) => match parsed_i32(v) {
            Some(n) => n < 0,
            None => false,
        },
        None => false,
    }
}

/// What `generate_highways` makes of the store `m`, as the store `r`.
/// Street lamps, traffic signals and bus stops are built on nodes; paved
/// areas cover the cells of a fill of the footprint (all of them without a
/// deadline); roads are drawn along the ways. Every other element, and a
/// road on a negative layer or level, leaves the store as it is.
pub open spec fn highway_done(
    m: Map<Point, Block>,
    r: Map<Point, Block>,
    e: &ProcessedElement,
    g: int,
    winter: bool,
    timeout: Option<u64>,
) -> bool {
    let tags = e.spec_tags()@;
    match lookup(tags, "highway"@) {
        None => r == m,
        Some(h) => if h == "street_lamp"@ {
            match e {
                ProcessedElement::Node(n) => r == street_lamp(m, n.x as int, n.z as int, g),
                ProcessedElement::Way(_) => r == m,
            }
        } else if h == "crossing"@ {
            match e {
                ProcessedElement::Node(n) => if lookup(tags, "crossing"@) == Some("traffic_signals"@) {
                    r == traffic_signals(m, n.x as int, n.z as int, g, winter)
                } else {
                    r == m
                },
                ProcessedElement::Way(_) => r == m,
            }
        } else if h == "bus_stop"@ {
            match e {
                ProcessedElement::Node(n) => r == bus_stop(m, n.x as int, n.z as int, g),
                ProcessedElement::Way(_) => r == m,
            }
        } else if lookup(tags, "area"@) == Some("yes"@) {
            match e {
                ProcessedElement::Way(w) => exists|cells: Seq<(i32, i32)>|
                    partial_fill(way_cells(w), cells) && (timeout is None ==> complete_fill(way_cells(w), cells))
                        && r == paved(m, cells, g, area_surface_of(lookup(tags, "surface"@), winter)),
                ProcessedElement::Node(_) => r == m,
            }
        } else if negative_tag(tags, "layer"@) || negative_tag(tags, "level"@) {
            r == m
        } else {
            match e {
                ProcessedElement::Node(_) => r == m,
                ProcessedElement::Way(w) => {
                    let style = road_style(h, lookup(tags, "lanes"@));
                    let zebra = h == "footway"@ && lookup(tags, "footway"@) == Some("crossing"@);
                    r == road_segments(m, w, g, style.0, style.1, style.2, zebra, w.nodes@.len() as int)
                },
            }
        },
    }
}

/// Generates what a `highway` element stands for: street lamps, traffic
/// signals and bus stops on nodes; paved areas; and roads and paths along
/// ways, with their width, surface, centre stripe and zebra crossings.
/// An element without a `highway` tag leaves the world as it is.
pub fn generate_highways(
    editor: &mut WorldEditor,
    element: &ProcessedElement,
    ground_level: i32,
    args: &Args,
)
    requires
        old(editor).wf(),
        element_in_range(element),
        coord_ok(ground_level as int),
    ensures
        final(editor).wf(),
        highway_done(old(editor)@, final(editor)@, element, ground_level as int, args.winter, args.timeout),
{
    let ghost m0 = editor@;
    let ghost g = ground_level as int;
    let tags = element.tags();
    let highway_type = match tags.get("highway") {
        Some(h) => h.as_str(),
        None => {
            return;
        },
    };
    if str_eq(highway_type, "street_lamp") {
        if let ProcessedElement::Node(first_node) = element {
            let x: i32 = first_node.x;
            let z: i32 = first_node.z;
            place_column(editor, Block::OakFence, x, z, ground_level + 1, 4);
            editor.set_block(Block::Glowstone, x, ground_level + 5, z, None, None);
        }
    } else if str_eq(highway_type, "crossing") {
        // Traffic signals at crossings.
        if tags.has("crossing", "traffic_signals") {
            if let ProcessedElement::Node(node) = element {
                let x: i32 = node.x;
                let z: i32 = node.z;
                place_column(editor, Block::CobblestoneWall, x, z, ground_level + 1, 3);
                editor.set_block(Block::GreenWool, x, ground_level + 4, z, None, None);
                editor.set_block(Block::YellowWool, x, ground_level + 5, z, None, None);
                editor.set_block(Block::RedWool, x, ground_level + 6, z, None, None);
                if args.winter {
                    editor.set_block(Block::SnowLayer, x, ground_level + 7, z, None, None);
                }
            }
        }
    } else if str_eq(highway_type, "bus_stop") {
        if let ProcessedElement::Node(node) = element {
            let x: i32 = node.x;
            let z: i32 = node.z;
            place_column(editor, Block::CobblestoneWall, x, z, ground_level + 1, 3);
            editor.set_block(Block::WhiteWool, x, ground_level + 4, z, None, None);
            editor.set_block(Block::WhiteWool, x + 1, ground_level + 4, z, None, None);
        }
    } else if tags.has("area", "yes") {
        // Areas such as pedestrian plazas, paved after their surface tag.
        let way = match element {
            ProcessedElement::Way(w) => w,
            _ => {
                return;
            },
        };
        let surface_block = area_surface(tags.get("surface"), args.winter);
        pave_area(editor, way, ground_level, surface_block, args.timeout);
    } else {
        // Ways on a negative layer or level are left out.
        if tag_is_negative(tags, "layer") || tag_is_negative(tags, "level") {
            return;
        }
        let mut block_type = Block::BlackConcrete;
        let mut block_range: i32 = 2;
        let mut add_stripe = false;
        if str_eq(highway_type, "footway") || str_eq(highway_type, "pedestrian") {
            block_type = Block::GrayConcrete;
            block_range = 1;
        } else if str_eq(highway_type, "path") {
            block_type = Block::LightGrayConcrete;
            block_range = 1;
        } else if str_eq(highway_type, "motorway") || str_eq(highway_type, "primary") {
            block_range = 5;
            add_stripe = true;
        } else if str_eq(highway_type, "track") {
            block_range = 1;
        } else if str_eq(highway_type, "service") {
            block_type = Block::GrayConcrete;
            block_range = 2;
        } else {
            if let Some(lanes) = tags.get("lanes") {
                if str_eq(lanes.as_str(), "2") {
                    block_range = 3;
                    add_stripe = true;
                } else if !str_eq(lanes.as_str(), "1") {
                    block_range = 4;
                    add_stripe = true;
                }
            }
        }
        let ghost style = road_style(highway_type@, lookup(tags@, "lanes"@));
        assert(style == (block_type, block_range as int, add_stripe));
        let way = match element {
            ProcessedElement::Way(w) => w,
            _ => {
                return;
            },
        };
        let zebra = str_eq(highway_type, "footway") && tags.has("footway", "crossing");
        draw_road(editor, way, ground_level, block_type, block_range, add_stripe, zebra);
    }
}

/// Paves the cells of a fill of the way's footprint with `surface_block`
/// at the ground.
fn pave_area(editor: &mut WorldEditor, way: &ProcessedWay, ground_level: i32, surface_block: Block, timeout: Option<u64>)
    requires
        old(editor).wf(),
        way_in_range(way),
        coord_ok(ground_level as int),
    ensures
        final(editor).wf(),
        exists|cells: Seq<(i32, i32)>|
            partial_fill(way_cells(way), cells) && (timeout is None ==> complete_fill(way_cells(way), cells))
                && final(editor)@ == paved(old(editor)@, cells, ground_level as int, surface_block),
{
    let ghost m0 = editor@;
    let ghost g = ground_level as int;
    let polygon_coords = node_cells(way);
    assert(polygon_coords@ =~= way_cells(way));
    let filled_area = flood_fill_area(&polygon_coords, timeout);
    let mut k: usize = 0;
    while k < filled_area.len()
        invariant
            editor.wf(),
            k <= filled_area@.len(),
            way_in_range(way),
            crate::floodfill::partial_fill(polygon_coords@, filled_area@),
            polygon_coords@.len() == way.nodes@.len(),
            forall|i: int|
                0 <= i < polygon_coords@.len() ==> #[trigger] polygon_coords@[i] == (
                    way.nodes@[i].x,
                    way.nodes@[i].z,
                ),
            coord_ok(ground_level as int),
            g == ground_level as int,
            editor@ == paved(m0, filled_area@.subrange(0, k as int), g, surface_block),
        decreases filled_area@.len() - k,
    {
        let (x, z) = filled_area[k];
        proof {
            lemma_fill_cell_in_range(way, polygon_coords@, filled_area@[k as int]);
        }
        editor.set_block(surface_block, x, ground_level, z, None, None);
        proof {
            let sub = filled_area@.subrange(0, k + 1);
            assert(sub.drop_last() =~= filled_area@.subrange(0, k as int));
        }
        k = k + 1;
    }
    assert(filled_area@.subrange(0, filled_area@.len() as int) =~= filled_area@);
}

/// Draws a road along the way, segment by segment.
fn draw_road(
    editor: &mut WorldEditor,
    way: &ProcessedWay,
    ground_level: i32,
    block_type: Block,
    block_range: i32,
    add_stripe: bool,
    zebra: bool,
)
    requires
        old(editor).wf(),
        way_in_range(way),
        coord_ok(ground_level as int),
        1 <= block_range <= 5,
    ensures
        final(editor).wf(),
        final(editor)@ == road_segments(
            old(editor)@,
            way,
            ground_level as int,
            block_type,
            block_range as int,
            add_stripe,
            zebra,
            way.nodes@.len() as int,
        ),
{
    let ghost m0 = editor@;
    let ghost g = ground_level as int;
    let mut i: usize = 1;
    while i < way.nodes.len()
        invariant
            editor.wf(),
            1 <= i,
            i <= way.nodes@.len() || i == 1,
            way_in_range(way),
            coord_ok(ground_level as int),
            g == ground_level as int,
            1 <= block_range <= 5,
            editor@ == road_segments(m0, way, g, block_type, block_range as int, add_stripe, zebra, i as int),
        decreases way.nodes@.len() - i,
    {
        let prev = &way.nodes[i - 1];
        let node = &way.nodes[i];
        assert(coord_ok(way.nodes@[i - 1].x as int));
        assert(coord_ok(way.nodes@[i as int].x as int));
        draw_road_segment(
            editor,
            prev.x,
            prev.z,
            node.x,
            node.z,
            ground_level,
            block_type,
            block_range,
            add_stripe,
            zebra,
        );
        i = i + 1;
    }
    proof {
        let n = way.nodes@.len() as int;
        assert(road_segments(m0, way, g, block_type, block_range as int, add_stripe, zebra, 0) == m0);
        assert(road_segments(m0, way, g, block_type, block_range as int, add_stripe, zebra, 1) == m0);
        if n != 0 {
            assert(i as int == n);
        }
    }
}

/// `b` written at height `g` over the first `k` cells of `line`, under the
/// given whitelist.
pub open spec fn outline_line(
    m: Map<Point, Block>,
    line: Seq<Point>,
    k: int,
    g: int,
    b: Block,
    whitelist: Option<Seq<Block>>,
) -> Map<Point, Block>
    decreases k,
{
    if k <= 0 {
        m
    } else {
        let p = line[k - 1];
        set_result(outline_line(m, line, k - 1, g, b, whitelist), (p.0, g, p.2), b, whitelist, None)
    }
}

/// `b` written at height `g` along the segments of `w` that end before node
/// `i`, under the given whitelist.
pub open spec fn outline_segments(
    m: Map<Point, Block>,
    w: &ProcessedWay,
    g: int,
    b: Block,
    whitelist: Option<Seq<Block>>,
    i: int,
) -> Map<Point, Block>
    decreases i,
{
    if i <= 1 {
        m
    } else {
        let line = segment_line(w, i - 1, g);
        outline_line(outline_segments(m, w, g, b, whitelist, i - 1), line, line.len() as int, g, b, whitelist)
    }
}

/// Writes `b` at the ground along the way's segments, under the given
/// whitelist.
pub(crate) fn draw_outline(
    editor: &mut WorldEditor,
    way: &ProcessedWay,
    ground_level: i32,
    b: Block,
    whitelist: Option<&[Block]>,
)
    requires
        old(editor).wf(),
        way_in_range(way),
        coord_ok(ground_level as int),
    ensures
        final(editor).wf(),
        final(editor)@ == outline_segments(
            old(editor)@,
            way,
            ground_level as int,
            b,
            list_view(whitelist),
            way.nodes@.len() as int,
        ),
{
    let ghost m0 = editor@;
    let ghost g = ground_level as int;
    let ghost wl = list_view(whitelist);
    let mut i: usize = 1;
    while i < way.nodes.len()
        invariant
            editor.wf(),
            1 <= i,
            i <= way.nodes@.len() || i == 1,
            way_in_range(way),
            coord_ok(ground_level as int),
            g == ground_level as int,
            wl == list_view(whitelist),
            editor@ == outline_segments(m0, way, g, b, wl, i as int),
        decreases way.nodes@.len() - i,
    {
        let (x1, z1) = (way.nodes[i - 1].x, way.nodes[i - 1].z);
        let (x2, z2) = (way.nodes[i].x, way.nodes[i].z);
        let points = bresenham_line(x1, ground_level, z1, x2, ground_level, z2);
        let ghost before = editor@;
        let ghost line = segment_line(way, i as int, g);
        assert(view_points(points@) == line);
        let mut k: usize = 0;
        while k < points.len()
            invariant
                editor.wf(),
                k <= points@.len(),
                g == ground_level as int,
                wl == list_view(whitelist),
                view_points(points@) == line,
                editor@ == outline_line(before, line, k as int, g, b, wl),
            decreases points@.len() - k,
        {
            let (bx, _, bz) = points[k];
            assert(line[k as int] == view_point(points@[k as int]));
            editor.set_block(b, bx, ground_level, bz, whitelist, None);
            k = k + 1;
        }
        i = i + 1;
    }
    proof {
        let n = way.nodes@.len() as int;
        assert(outline_segments(m0, way, g, b, wl, 0) == m0);
        assert(outline_segments(m0, way, g, b, wl, 1) == m0);
        if n != 0 {
            assert(i as int == n);
        }
    }
}

/// Stacks `k` blocks `b` at `(x, z)` from height `y0` up.
fn place_column(editor: &mut WorldEditor, b: Block, x: i32, z: i32, y0: i32, k: i32)
    requires
        old(editor).wf(),
        0 <= k <= 8,
        -0x4000_0010 <= y0 <= 0x4000_0010,
    ensures
        final(editor).wf(),
        final(editor)@ == column(old(editor)@, b, x as int, z as int, y0 as int, k as int),
{
    let mut j: i32 = 0;
    while j < k
        invariant
            editor.wf(),
            0 <= j <= k <= 8,
            -0x4000_0010 <= y0 <= 0x4000_0010,
            editor@ == column(old(editor)@, b, x as int, z as int, y0 as int, j as int),
        decreases k - j,
    {
        editor.set_block(b, x, y0 + j, z, None, None);
        j = j + 1;
    }
}

/// Position `p` holds block `b`.
pub open spec fn holds_at(m: Map<Point, Block>, p: Point, b: Block) -> bool {
    m.contains_key(p) && m[p] == b
}

/// The traced cells, at height `y`, of the segment of way `w` from node
/// `i - 1` to node `i`.
pub open spec fn segment_line(w: &ProcessedWay, i: int, y: int) -> Seq<Point> {
    digital_line(
        (w.nodes@[i - 1].x as int, y, w.nodes@[i - 1].z as int),
        (w.nodes@[i].x as int, y, w.nodes@[i].z as int),
    )
}

/// A siding slab at `p`, unless the ground below it is road paint.
pub open spec fn siding_step(m: Map<Point, Block>, p: Point) -> Map<Point, Block> {
    if matches_at(m, (p.0, p.1 - 1, p.2), None, Some(road_paint())) {
        m
    } else {
        put(m, p, Block::StoneBrickSlab)
    }
}

/// The siding steps over the first `k` cells of `line`, in order.
pub open spec fn siding_line(m: Map<Point, Block>, line: Seq<Point>, k: int) -> Map<Point, Block>
    decreases k,
{
    if k <= 0 {
        m
    } else {
        siding_step(siding_line(m, line, k - 1), line[k - 1])
    }
}

/// The siding over the segments of `w` that end before node `i`, one block
/// above `g`.
pub open spec fn siding_segments(m: Map<Point, Block>, w: &ProcessedWay, g: int, i: int) -> Map<Point, Block>
    decreases i,
{
    if i <= 1 {
        m
    } else {
        let line = segment_line(w, i - 1, g + 1);
        siding_line(siding_segments(m, w, g, i - 1), line, line.len() as int)
    }
}

/// The aeroway strip around traced cell `p`: x and z from 12 below to 1
/// above it, written unconditionally.
pub open spec fn strip_step(m: Map<Point, Block>, p: Point) -> Map<Point, Block> {
    fill_result(m, Block::LightGrayConcrete, (p.0 - 12, p.1, p.2 - 12), (p.0 + 1, p.1, p.2 + 1), None, None)
}

/// The strip steps over the first `k` cells of `line`, in order.
pub open spec fn strip_line(m: Map<Point, Block>, line: Seq<Point>, k: int) -> Map<Point, Block>
    decreases k,
{
    if k <= 0 {
        m
    } else {
        strip_step(strip_line(m, line, k - 1), line[k - 1])
    }
}

/// The aeroway over the segments of `w` that end before node `i`, at
/// height `g`.
pub open spec fn strip_segments(m: Map<Point, Block>, w: &ProcessedWay, g: int, i: int) -> Map<Point, Block>
    decreases i,
{
    if i <= 1 {
        m
    } else {
        let line = segment_line(w, i - 1, g);
        strip_line(strip_segments(m, w, g, i - 1), line, line.len() as int)
    }
}

/// The road paint that a siding keeps clear of.
pub open spec fn road_paint() -> Seq<Block> {
    seq![Block::BlackConcrete, Block::WhiteConcrete]
}

/// Generates a siding: stone brick slabs one block above the ground along
/// the way, except where the ground is road paint. Every node of a way of
/// two or more nodes whose ground is not road paint gets its slab.
pub fn generate_siding(editor: &mut WorldEditor, element: &ProcessedWay, ground_level: i32)
    requires
        old(editor).wf(),
        way_in_range(element),
        coord_ok(ground_level as int),
    ensures
        final(editor).wf(),
        element.nodes@.len() >= 2 && in_height(ground_level + 1) ==> forall|j: int|
            0 <= j < element.nodes@.len() && !matches_at(
                old(editor)@,
                (element.nodes@[j].x as int, ground_level as int, element.nodes@[j].z as int),
                None,
                Some(road_paint()),
            ) ==> #[trigger] holds_at(
                final(editor)@,
                (element.nodes@[j].x as int, ground_level + 1, element.nodes@[j].z as int),
                Block::StoneBrickSlab,
            ),
        final(editor)@ == siding_segments(old(editor)@, element, ground_level as int, element.nodes@.len() as int),
{
    let siding_block: Block = Block::StoneBrickSlab;
    let ghost g = ground_level as int;
    let ghost m0 = editor@;
    let ghost paint = road_paint();
    let mut i: usize = 1;
    while i < element.nodes.len()
        invariant
            editor.wf(),
            1 <= i,
            way_in_range(element),
            coord_ok(ground_level as int),
            g == ground_level as int,
            m0 == old(editor)@,
            paint == road_paint(),
            siding_block == Block::StoneBrickSlab,
            editor@ == siding_segments(m0, element, g, i as int),
            i <= element.nodes@.len() || i == 1,
            forall|p: Point| p.1 != g + 1 ==> #[trigger] occupant(editor@, p) == occupant(m0, p),
            in_height(g + 1) && i >= 2 ==> forall|j: int|
                0 <= j < i && !matches_at(
                    m0,
                    (element.nodes@[j].x as int, g, element.nodes@[j].z as int),
                    None,
                    Some(paint),
                ) ==> #[trigger] holds_at(
                    editor@,
                    (element.nodes@[j].x as int, g + 1, element.nodes@[j].z as int),
                    Block::StoneBrickSlab,
                ),
        decreases element.nodes@.len() - i,
    {
        let (x1, z1) = (element.nodes[i - 1].x, element.nodes[i - 1].z);
        let (x2, z2) = (element.nodes[i].x, element.nodes[i].z);
        let y: i32 = ground_level + 1;
        let points = bresenham_line(x1, y, z1, x2, y, z2);
        let ghost before = editor@;
        let ghost line = segment_line(element, i as int, g + 1);
        assert(view_points(points@) == line);
        let mut k: usize = 0;
        while k < points.len()
            invariant
                editor.wf(),
                k <= points@.len(),
                points@.len() >= 1,
                points@[0] == (x1, y, z1),
                points@.last() == (x2, y, z2),
                forall|j: int|
                    0 <= j < points@.len() ==> crate::bresenham::between(
                        x1 as int,
                        #[trigger] points@[j].0 as int,
                        x2 as int,
                    ) && crate::bresenham::between(y as int, points@[j].1 as int, y as int)
                        && crate::bresenham::between(z1 as int, points@[j].2 as int, z2 as int),
                y == ground_level + 1,
                g == ground_level as int,
                coord_ok(ground_level as int),
                paint == road_paint(),
                siding_block == Block::StoneBrickSlab,
                view_points(points@) == line,
                editor@ == siding_line(before, line, k as int),
                forall|p: Point| p.1 != g + 1 ==> #[trigger] occupant(editor@, p) == occupant(m0, p),
                forall|p: Point| #[trigger] holds_at(before, p, Block::StoneBrickSlab) ==> holds_at(
                    editor@,
                    p,
                    Block::StoneBrickSlab,
                ),
                in_height(g + 1) && k >= 1 && !matches_at(m0, (x1 as int, g, z1 as int), None, Some(paint))
                    ==> holds_at(editor@, (x1 as int, g + 1, z1 as int), Block::StoneBrickSlab),
                in_height(g + 1) && k == points@.len() && !matches_at(m0, (x2 as int, g, z2 as int), None, Some(paint))
                    ==> holds_at(editor@, (x2 as int, g + 1, z2 as int), Block::StoneBrickSlab),
            decreases points@.len() - k,
        {
            let (bx, by, bz) = points[k];
            assert(crate::bresenham::between(x1 as int, points@[k as int].0 as int, x2 as int));
            let ghost m = editor@;
            let ghost below: Point = (bx as int, g, bz as int);
            assert(occupant(m, below) == occupant(m0, below));
            let listed = [Block::BlackConcrete, Block::WhiteConcrete];
            assert(listed@ == paint);
            assert(line[k as int] == view_point(points@[k as int]));
            if !editor.check_for_block(bx, by - 1, bz, None, Some(&listed)) {
                editor.set_block(siding_block, bx, by, bz, None, None);
            }
            assert(editor@ == siding_step(m, line[k as int]));
            proof {
                assert forall|p: Point| p.1 != g + 1 implies #[trigger] occupant(editor@, p) == occupant(m0, p) by {
                    assert(occupant(editor@, p) == occupant(m, p));
                }
                assert forall|p: Point| #[trigger] holds_at(m, p, Block::StoneBrickSlab) implies holds_at(
                    editor@,
                    p,
                    Block::StoneBrickSlab,
                ) by {
                }
            }
            k = k + 1;
        }
        proof {
            if in_height(g + 1) {
                assert forall|j: int|
                    0 <= j < i + 1 && !matches_at(
                        m0,
                        (element.nodes@[j].x as int, g, element.nodes@[j].z as int),
                        None,
                        Some(paint),
                    ) implies #[trigger] holds_at(
                    editor@,
                    (element.nodes@[j].x as int, g + 1, element.nodes@[j].z as int),
                    Block::StoneBrickSlab,
                ) by {
                    if j < i - 1 {
                        assert(holds_at(
                            before,
                            (element.nodes@[j].x as int, g + 1, element.nodes@[j].z as int),
                            Block::StoneBrickSlab,
                        ));
                    }
                }
            }
        }
        i = i + 1;
    }
    assert(siding_segments(m0, element, g, 0) == m0 && siding_segments(m0, element, g, 1) == m0);
    proof {
        let n = element.nodes@.len() as int;
        if n != 0 {
            assert(i as int == n);
            assert(editor@ == siding_segments(m0, element, g, n));
        } else {
            assert(editor@ == siding_segments(m0, element, g, n));
        }
        assert(editor@ == siding_segments(old(editor)@, element, ground_level as int, element.nodes@.len() as int));
    }
}

/// Generates an aeroway: a light grey concrete strip fourteen blocks wide
/// along the way, so that every node of a way of two or more nodes stands
/// on it.
pub fn generate_aeroway(editor: &mut WorldEditor, way: &ProcessedWay, ground_level: i32)
    requires
        old(editor).wf(),
        way_in_range(way),
        coord_ok(ground_level as int),
    ensures
        final(editor).wf(),
        way.nodes@.len() >= 2 && in_height(ground_level as int) ==> forall|j: int|
            0 <= j < way.nodes@.len() ==> #[trigger] holds_at(
                final(editor)@,
                (way.nodes@[j].x as int, ground_level as int, way.nodes@[j].z as int),
                Block::LightGrayConcrete,
            ),
        final(editor)@ == strip_segments(old(editor)@, way, ground_level as int, way.nodes@.len() as int),
{
    let surface_block = Block::LightGrayConcrete;
    let ghost g = ground_level as int;
    let mut i: usize = 1;
    while i < way.nodes.len()
        invariant
            editor.wf(),
            1 <= i,
            way_in_range(way),
            coord_ok(ground_level as int),
            g == ground_level as int,
            surface_block == Block::LightGrayConcrete,
            editor@ == strip_segments(old(editor)@, way, g, i as int),
            i <= way.nodes@.len() || i == 1,
            in_height(g) && i >= 2 ==> forall|j: int|
                0 <= j < i ==> #[trigger] holds_at(
                    editor@,
                    (way.nodes@[j].x as int, g, way.nodes@[j].z as int),
                    Block::LightGrayConcrete,
                ),
        decreases way.nodes@.len() - i,
    {
        let (x1, z1) = (way.nodes[i - 1].x, way.nodes[i - 1].z);
        let (x2, z2) = (way.nodes[i].x, way.nodes[i].z);
        assert(coord_ok(way.nodes@[i - 1].x as int));
        assert(coord_ok(way.nodes@[i as int].x as int));
        let points = bresenham_line(x1, ground_level, z1, x2, ground_level, z2);
        assert forall|j: int| 0 <= j < points@.len() implies crate::bresenham::between(
            x1 as int,
            #[trigger] points@[j].0 as int,
            x2 as int,
        ) && crate::bresenham::between(ground_level as int, points@[j].1 as int, ground_level as int)
            && crate::bresenham::between(z1 as int, points@[j].2 as int, z2 as int) by {
            assert(crate::bresenham::between(x1 as int, points@[j].0 as int, x2 as int));
        }
        let ghost before = editor@;
        let ghost line = segment_line(way, i as int, g);
        assert(view_points(points@) == line);
        let mut k: usize = 0;
        while k < points.len()
            invariant
                editor.wf(),
                k <= points@.len(),
                points@.len() >= 1,
                points@[0] == (x1, ground_level, z1),
                points@.last() == (x2, ground_level, z2),
                surface_block == Block::LightGrayConcrete,
                view_points(points@) == line,
                editor@ == strip_line(before, line, k as int),
                forall|j: int|
                    0 <= j < points@.len() ==> crate::bresenham::between(
                        x1 as int,
                        #[trigger] points@[j].0 as int,
                        x2 as int,
                    ) && crate::bresenham::between(ground_level as int, points@[j].1 as int, ground_level as int)
                        && crate::bresenham::between(z1 as int, points@[j].2 as int, z2 as int),
                coord_ok(x1 as int),
                coord_ok(z1 as int),
                coord_ok(x2 as int),
                coord_ok(z2 as int),
                forall|p: Point| #[trigger] holds_at(before, p, Block::LightGrayConcrete) ==> holds_at(
                    editor@,
                    p,
                    Block::LightGrayConcrete,
                ),
                in_height(ground_level as int) && k >= 1 ==> holds_at(
                    editor@,
                    (x1 as int, ground_level as int, z1 as int),
                    Block::LightGrayConcrete,
                ),
                in_height(ground_level as int) && k == points@.len() ==> holds_at(
                    editor@,
                    (x2 as int, ground_level as int, z2 as int),
                    Block::LightGrayConcrete,
                ),
            decreases points@.len() - k,
        {
            let (x, y, z) = points[k];
            assert(crate::bresenham::between(x1 as int, points@[k as int].0 as int, x2 as int));
            let ghost m = editor@;
            assert(line[k as int] == view_point(points@[k as int]));
            editor.fill_blocks(surface_block, x - 12, y, z - 12, x + 1, y, z + 1, None, None);
            assert(editor@ == strip_step(m, line[k as int]));
            proof {
                assert forall|p: Point| #[trigger] holds_at(m, p, Block::LightGrayConcrete) implies holds_at(
                    editor@,
                    p,
                    Block::LightGrayConcrete,
                ) by {
                }
                if in_height(ground_level as int) {
                    assert(holds_at(editor@, (x as int, y as int, z as int), Block::LightGrayConcrete));
                }
            }
            k = k + 1;
        }
        proof {
            if in_height(g) {
                assert forall|j: int| 0 <= j < i + 1 implies #[trigger] holds_at(
                    editor@,
                    (way.nodes@[j].x as int, g, way.nodes@[j].z as int),
                    Block::LightGrayConcrete,
                ) by {
                    if j < i - 1 {
                        assert(holds_at(before, (way.nodes@[j].x as int, g, way.nodes@[j].z as int), Block::LightGrayConcrete));
                    }
                }
            }
        }
        i = i + 1;
    }
    assert(strip_segments(old(editor)@, way, g, 0) == old(editor)@ && strip_segments(old(editor)@, way, g, 1) == old(editor)@);
    proof {
        let n = way.nodes@.len() as int;
        if n != 0 {
            assert(i as int == n);
        }
    }
}

} // verus!
