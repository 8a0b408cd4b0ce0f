//! Trees: trunk, leaf crown and, in winter, a layer of snow.

use crate::block_definitions::{
    blocks_of, building_corner_variations, building_floor_variations, building_wall_variations,
    corner_blocks, wall_colors, Block,
};
use crate::elements::coord_ok;
use crate::bresenham::Point;
use crate::world_editor::{fill_result, matches_at, occupant, set_result, storable, WorldEditor};
use vstd::prelude::*;

verus! {

/// The blocks on which no tree grows: building materials and water.
pub open spec fn tree_base_blacklist() -> Seq<Block> {
    corner_blocks() + blocks_of(wall_colors()) + blocks_of(wall_colors()) + seq![Block::Water]
}

fn tree_base_blacklist_vec() -> (r: Vec<Block>)
    ensures
        r@ == tree_base_blacklist(),
{
    let mut blacklist: Vec<Block> = building_corner_variations();
    let mut walls = building_wall_variations();
    let mut floors = building_floor_variations();
    blacklist.append(&mut walls);
    blacklist.append(&mut floors);
    blacklist.push(Block::Water);
    blacklist
}

/// An unconditional write of `b` at `p`.
pub open spec fn put(m: Map<Point, Block>, p: Point, b: Block) -> Map<Point, Block> {
    set_result(m, p, b, None, None)
}

/// The trunk of each kind of tree.
pub open spec fn tree_log(typetree: u8) -> Block {
    if typetree == 1 {
        Block::OakLog
    } else if typetree == 2 {
        Block::SpruceLog
    } else {
        Block::BirchLog
    }
}

/// The height of the top trunk block above the tree's base, by kind.
pub open spec fn trunk_top(typetree: u8) -> int {
    if typetree == 1 {
        8
    } else if typetree == 2 {
        9
    } else {
        6
    }
}

/// A tree planted at `(x, y, z)`: nothing when the block below is a
/// building material or water, else the tree of its kind.
pub open spec fn grown_tree(m: Map<Point, Block>, x: int, y: int, z: int, typetree: u8, snow: bool) -> Map<Point, Block> {
    if matches_at(m, (x, y - 1, z), None, Some(tree_base_blacklist())) {
        m
    } else {
        tree_shape(m, x, y, z, typetree, snow)
    }
}

/// The tree of kind `typetree` (oak, spruce, birch) grown at `(x, y, z)`;
/// any other kind grows nothing.
pub open spec fn tree_shape(m: Map<Point, Block>, x: int, y: int, z: int, typetree: u8, snow: bool) -> Map<Point, Block> {
    if typetree == 1 {
        oak_tree(m, x, y, z, snow)
    } else if typetree == 2 {
        spruce_tree(m, x, y, z, snow)
    } else if typetree == 3 {
        birch_tree(m, x, y, z, snow)
    } else {
        m
    }
}

/// An oak: a trunk nine blocks high under a crown of leaves. With `snow`, a layer of snow covers it.
pub open spec fn oak_tree(m0: Map<Point, Block>, x: int, y: int, z: int, snow: bool) -> Map<Point, Block> {
    let m1 = fill_result(m0, Block::OakLog, (x, y, z), (x, y + 8, z), None, None);
    let m2 = fill_result(m1, Block::OakLeaves, (x - 1, y + 3, z), (x - 1, y + 9, z), None, None);
    let m3 = fill_result(m2, Block::OakLeaves, (x + 1, y + 3, z), (x + 1, y + 9, z), None, None);
    let m4 = fill_result(m3, Block::OakLeaves, (x, y + 3, z - 1), (x, y + 9, z - 1), None, None);
    let m5 = fill_result(m4, Block::OakLeaves, (x, y + 3, z + 1), (x, y + 9, z + 1), None, None);
    let m6 = fill_result(m5, Block::OakLeaves, (x, y + 9, z), (x, y + 10, z), None, None);
    let m7 = round1_ring(m6, Block::OakLeaves, x, y + 8, z);
    let m8 = round1_ring(m7, Block::OakLeaves, x, y + 7, z);
    let m9 = round1_ring(m8, Block::OakLeaves, x, y + 6, z);
    let m10 = round1_ring(m9, Block::OakLeaves, x, y + 5, z);
    let m11 = round1_ring(m10, Block::OakLeaves, x, y + 4, z);
    let m12 = round1_ring(m11, Block::OakLeaves, x, y + 3, z);
    let m13 = round2_ring(m12, Block::OakLeaves, x, y + 7, z);
    let m14 = round2_ring(m13, Block::OakLeaves, x, y + 6, z);
    let m15 = round2_ring(m14, Block::OakLeaves, x, y + 5, z);
    let m16 = round2_ring(m15, Block::OakLeaves, x, y + 4, z);
    let m17 = round3_ring(m16, Block::OakLeaves, x, y + 6, z);
    let m18 = round3_ring(m17, Block::OakLeaves, x, y + 5, z);
    let m34 = if snow {
        let m19 = put(m18, (x, y + 11, z), Block::SnowLayer);
        let m20 = put(m19, (x + 1, y + 10, z), Block::SnowLayer);
        let m21 = put(m20, (x - 1, y + 10, z), Block::SnowLayer);
        let m22 = put(m21, (x, y + 10, z - 1), Block::SnowLayer);
        let m23 = put(m22, (x, y + 10, z + 1), Block::SnowLayer);
        let m24 = round1_ring(m23, Block::SnowLayer, x, y + 9, z);
        let m25 = round1_ring(m24, Block::SnowLayer, x, y + 8, z);
        let m26 = round1_ring(m25, Block::SnowLayer, x, y + 7, z);
        let m27 = round1_ring(m26, Block::SnowLayer, x, y + 6, z);
        let m28 = round2_ring(m27, Block::SnowLayer, x, y + 8, z);
        let m29 = round2_ring(m28, Block::SnowLayer, x, y + 7, z);
        let m30 = round2_ring(m29, Block::SnowLayer, x, y + 6, z);
        let m31 = round2_ring(m30, Block::SnowLayer, x, y + 5, z);
        let m32 = round3_ring(m31, Block::SnowLayer, x, y + 7, z);
        let m33 = round3_ring(m32, Block::SnowLayer, x, y + 6, z);
        m33
    } else {
        m18
    };
    m34
}

/// A spruce: a trunk ten blocks high under a narrow crown. With `snow`, a layer of snow covers it.
pub open spec fn spruce_tree(m0: Map<Point, Block>, x: int, y: int, z: int, snow: bool) -> Map<Point, Block> {
    let m1 = fill_result(m0, Block::SpruceLog, (x, y, z), (x, y + 9, z), None, None);
    let m2 = fill_result(m1, Block::BirchLeaves, (x - 1, y + 3, z), (x - 1, y + 10, z), None, None);
    let m3 = fill_result(m2, Block::BirchLeaves, (x + 1, y + 3, z), (x + 1, y + 10, z), None, None);
    let m4 = fill_result(m3, Block::BirchLeaves, (x, y + 3, z - 1), (x, y + 10, z - 1), None, None);
    let m5 = fill_result(m4, Block::BirchLeaves, (x, y + 3, z + 1), (x, y + 10, z + 1), None, None);
    let m6 = put(m5, (x, y + 10, z), Block::BirchLeaves);
    let m7 = round1_ring(m6, Block::BirchLeaves, x, y + 9, z);
    let m8 = round1_ring(m7, Block::BirchLeaves, x, y + 7, z);
    let m9 = round1_ring(m8, Block::BirchLeaves, x, y + 6, z);
    let m10 = round1_ring(m9, Block::BirchLeaves, x, y + 4, z);
    let m11 = round1_ring(m10, Block::BirchLeaves, x, y + 3, z);
    let m12 = round2_ring(m11, Block::BirchLeaves, x, y + 6, z);
    let m13 = round2_ring(m12, Block::BirchLeaves, x, y + 3, z);
    let m26 = if snow {
        let m14 = put(m13, (x, y + 11, z), Block::SnowLayer);
        let m15 = put(m14, (x + 1, y + 11, z), Block::SnowLayer);
        let m16 = put(m15, (x - 1, y + 11, z), Block::SnowLayer);
        let m17 = put(m16, (x, y + 11, z - 1), Block::SnowLayer);
        let m18 = put(m17, (x, y + 11, z + 1), Block::SnowLayer);
        let m19 = round1_ring(m18, Block::SnowLayer, x, y + 10, z);
        let m20 = round1_ring(m19, Block::SnowLayer, x, y + 8, z);
        let m21 = round1_ring(m20, Block::SnowLayer, x, y + 7, z);
        let m22 = round1_ring(m21, Block::SnowLayer, x, y + 5, z);
        let m23 = round1_ring(m22, Block::SnowLayer, x, y + 4, z);
        let m24 = round2_ring(m23, Block::SnowLayer, x, y + 7, z);
        let m25 = round2_ring(m24, Block::SnowLayer, x, y + 4, z);
        m25
    } else {
        m13
    };
    m26
}

/// A birch: a trunk seven blocks high under a crown of leaves. With `snow`, a layer of snow covers it.
pub open spec fn birch_tree(m0: Map<Point, Block>, x: int, y: int, z: int, snow: bool) -> Map<Point, Block> {
    let m1 = fill_result(m0, Block::BirchLog, (x, y, z), (x, y + 6, z), None, None);
    let m2 = fill_result(m1, Block::BirchLeaves, (x - 1, y + 2, z), (x - 1, y + 7, z), None, None);
    let m3 = fill_result(m2, Block::BirchLeaves, (x + 1, y + 2, z), (x + 1, y + 7, z), None, None);
    let m4 = fill_result(m3, Block::BirchLeaves, (x, y + 2, z - 1), (x, y + 7, z - 1), None, None);
    let m5 = fill_result(m4, Block::BirchLeaves, (x, y + 2, z + 1), (x, y + 7, z + 1), None, None);
    let m6 = fill_result(m5, Block::BirchLeaves, (x, y + 7, z), (x, y + 8, z), None, None);
    let m7 = round1_ring(m6, Block::BirchLeaves, x, y + 6, z);
    let m8 = round1_ring(m7, Block::BirchLeaves, x, y + 5, z);
    let m9 = round1_ring(m8, Block::BirchLeaves, x, y + 4, z);
    let m10 = round1_ring(m9, Block::BirchLeaves, x, y + 3, z);
    let m11 = round1_ring(m10, Block::BirchLeaves, x, y + 2, z);
    let m12 = round2_ring(m11, Block::BirchLeaves, x, y + 2, z);
    let m13 = round2_ring(m12, Block::BirchLeaves, x, y + 3, z);
    let m14 = round2_ring(m13, Block::BirchLeaves, x, y + 4, z);
    let m28 = if snow {
        let m15 = put(m14, (x, y + 9, z), Block::SnowLayer);
        let m16 = put(m15, (x + 1, y + 8, z), Block::SnowLayer);
        let m17 = put(m16, (x - 1, y + 8, z), Block::SnowLayer);
        let m18 = put(m17, (x, y + 8, z - 1), Block::SnowLayer);
        let m19 = put(m18, (x, y + 8, z + 1), Block::SnowLayer);
        let m20 = round1_ring(m19, Block::SnowLayer, x, y + 7, z);
        let m21 = round1_ring(m20, Block::SnowLayer, x, y + 6, z);
        let m22 = round1_ring(m21, Block::SnowLayer, x, y + 5, z);
        let m23 = round1_ring(m22, Block::SnowLayer, x, y + 4, z);
        let m24 = round1_ring(m23, Block::SnowLayer, x, y + 3, z);
        let m25 = round2_ring(m24, Block::SnowLayer, x, y + 3, z);
        let m26 = round2_ring(m25, Block::SnowLayer, x, y + 4, z);
        let m27 = round2_ring(m26, Block::SnowLayer, x, y + 5, z);
        m27
    } else {
        m14
    };
    m28
}

/// The ring of cells that `round1` writes, around `(x, y, z)`.
#[verifier::opaque]
pub open spec fn round1_ring(m0: Map<Point, Block>, material: Block, x: int, y: int, z: int) -> Map<Point, Block> {
    let m1 = put(m0, (x - 2, y, z), material);
    let m2 = put(m1, (x + 2, y, z), material);
    let m3 = put(m2, (x, y, z - 2), material);
    let m4 = put(m3, (x, y, z + 2), material);
    let m5 = put(m4, (x - 1, y, z - 1), material);
    let m6 = put(m5, (x + 1, y, z + 1), material);
    let m7 = put(m6, (x + 1, y, z - 1), material);
    let m8 = put(m7, (x - 1, y, z + 1), material);
    m8
}

/// The ring of cells that `round2` writes, around `(x, y, z)`.
#[verifier::opaque]
pub open spec fn round2_ring(m0: Map<Point, Block>, material: Block, x: int, y: int, z: int) -> Map<Point, Block> {
    let m1 = put(m0, (x + 3, y, z), material);
    let m2 = put(m1, (x + 2, y, z - 1), material);
    let m3 = put(m2, (x + 2, y, z + 1), material);
    let m4 = put(m3, (x + 1, y, z - 2), material);
    let m5 = put(m4, (x + 1, y, z + 2), material);
    let m6 = put(m5, (x - 3, y, z), material);
    let m7 = put(m6, (x - 2, y, z - 1), material);
    let m8 = put(m7, (x - 2, y, z + 1), material);
    let m9 = put(m8, (x - 1, y, z + 2), material);
    let m10 = put(m9, (x - 1, y, z - 2), material);
    let m11 = put(m10, (x, y, z - 3), material);
    let m12 = put(m11, (x, y, z + 3), material);
    m12
}

/// The ring of cells that `round3` writes, around `(x, y, z)`.
#[verifier::opaque]
pub open spec fn round3_ring(m0: Map<Point, Block>, material: Block, x: int, y: int, z: int) -> Map<Point, Block> {
    let m1 = put(m0, (x + 3, y, z - 1), material);
    let m2 = put(m1, (x + 3, y, z + 1), material);
    let m3 = put(m2, (x + 2, y, z - 2), material);
    let m4 = put(m3, (x + 2, y, z + 2), material);
    let m5 = put(m4, (x + 1, y, z - 3), material);
    let m6 = put(m5, (x + 1, y, z + 3), material);
    let m7 = put(m6, (x - 3, y, z - 1), material);
    let m8 = put(m7, (x - 3, y, z + 1), material);
    let m9 = put(m8, (x - 2, y, z - 2), material);
    let m10 = put(m9, (x - 2, y, z + 2), material);
    let m11 = put(m10, (x - 1, y, z + 3), material);
    let m12 = put(m11, (x - 1, y, z - 3), material);
    m12
}
/// Helper function to set blocks in a circular pattern around a central point.
fn round1(editor: &mut WorldEditor, material: Block, x: i32, y: i32, z: i32)
    requires
        old(editor).wf(),
        coord_ok(x as int),
        coord_ok(z as int),
        -0x4000_0010 <= y <= 0x4000_0010,
    ensures
        final(editor).wf(),
        final(editor)@ == round1_ring(old(editor)@, material, x as int, y as int, z as int),
{
    let ghost m0 = editor@;
    editor.set_block(material, x - 2, y, z, None, None);
    editor.set_block(material, x + 2, y, z, None, None);
    editor.set_block(material, x, y, z - 2, None, None);
    editor.set_block(material, x, y, z + 2, None, None);
    editor.set_block(material, x - 1, y, z - 1, None, None);
    editor.set_block(material, x + 1, y, z + 1, None, None);
    editor.set_block(material, x + 1, y, z - 1, None, None);
    editor.set_block(material, x - 1, y, z + 1, None, None);
    assert(editor@ == round1_ring(m0, material, x as int, y as int, z as int)) by {
        reveal(round1_ring);
    }
}

/// Helper function to set blocks in a wider circular pattern.
fn round2(editor: &mut WorldEditor, material: Block, x: i32, y: i32, z: i32)
    requires
        old(editor).wf(),
        coord_ok(x as int),
        coord_ok(z as int),
        -0x4000_0010 <= y <= 0x4000_0010,
    ensures
        final(editor).wf(),
        final(editor)@ == round2_ring(old(editor)@, material, x as int, y as int, z as int),
{
    let ghost m0 = editor@;
    editor.set_block(material, x + 3, y, z, None, None);
    editor.set_block(material, x + 2, y, z - 1, None, None);
    editor.set_block(material, x + 2, y, z + 1, None, None);
    editor.set_block(material, x + 1, y, z - 2, None, None);
    editor.set_block(material, x + 1, y, z + 2, None, None);
    editor.set_block(material, x - 3, y, z, None, None);
    editor.set_block(material, x - 2, y, z - 1, None, None);
    editor.set_block(material, x - 2, y, z + 1, None, None);
    editor.set_block(material, x - 1, y, z + 2, None, None);
    editor.set_block(material, x - 1, y, z - 2, None, None);
    editor.set_block(material, x, y, z - 3, None, None);
    editor.set_block(material, x, y, z + 3, None, None);
    assert(editor@ == round2_ring(m0, material, x as int, y as int, z as int)) by {
        reveal(round2_ring);
    }
}

/// Helper function to set blocks in a more scattered circular pattern.
fn round3(editor: &mut WorldEditor, material: Block, x: i32, y: i32, z: i32)
    requires
        old(editor).wf(),
        coord_ok(x as int),
        coord_ok(z as int),
        -0x4000_0010 <= y <= 0x4000_0010,
    ensures
        final(editor).wf(),
        final(editor)@ == round3_ring(old(editor)@, material, x as int, y as int, z as int),
{
    let ghost m0 = editor@;
    editor.set_block(material, x + 3, y, z - 1, None, None);
    editor.set_block(material, x + 3, y, z + 1, None, None);
    editor.set_block(material, x + 2, y, z - 2, None, None);
    editor.set_block(material, x + 2, y, z + 2, None, None);
    editor.set_block(material, x + 1, y, z - 3, None, None);
    editor.set_block(material, x + 1, y, z + 3, None, None);
    editor.set_block(material, x - 3, y, z - 1, None, None);
    editor.set_block(material, x - 3, y, z + 1, None, None);
    editor.set_block(material, x - 2, y, z - 2, None, None);
    editor.set_block(material, x - 2, y, z + 2, None, None);
    editor.set_block(material, x - 1, y, z + 3, None, None);
    editor.set_block(material, x - 1, y, z - 3, None, None);
    assert(editor@ == round3_ring(m0, material, x as int, y as int, z as int)) by {
        reveal(round3_ring);
    }
}

/// Function to create different types of trees.
pub fn create_tree(editor: &mut WorldEditor, x: i32, y: i32, z: i32, typetree: u8, snow: bool)
    requires
        old(editor).wf(),
        coord_ok(x as int),
        coord_ok(y - 1),
        coord_ok(z as int),
    ensures
        final(editor).wf(),
        matches_at(old(editor)@, (x as int, y - 1, z as int), None, Some(tree_base_blacklist()))
            ==> final(editor)@ == old(editor)@,
        !(1 <= typetree <= 3) ==> final(editor)@ == old(editor)@,
        final(editor)@ == grown_tree(old(editor)@, x as int, y as int, z as int, typetree, snow),
        1 <= typetree <= 3 && !matches_at(old(editor)@, (x as int, y - 1, z as int), None, Some(tree_base_blacklist()))
            && storable((x as int, y as int, z as int)) && storable((x as int, y + 11, z as int)) ==> forall|j: int|
            0 <= j <= trunk_top(typetree) ==> #[trigger] occupant(final(editor)@, (x as int, y + j, z as int))
                == tree_log(typetree),
{
    let ghost m0 = editor@;
    proof {
        if 1 <= typetree <= 3 && storable((x as int, y as int, z as int)) && storable((x as int, y + 11, z as int)) {
            assert forall|j: int| 0 <= j <= trunk_top(typetree) implies #[trigger] occupant(tree_shape(m0, x as int, y as int, z as int, typetree, snow), (x as int, y + j, z as int)) == tree_log(typetree) by {
                if typetree == 1 {
                    lemma_oak_column(m0, x as int, y as int, z as int, snow, j);
                } else if typetree == 2 {
                    lemma_spruce_column(m0, x as int, y as int, z as int, snow, j);
                } else {
                    lemma_birch_column(m0, x as int, y as int, z as int, snow, j);
                }
            }
        }
    }
    let blacklist = tree_base_blacklist_vec();

    if editor.check_for_block(x, y - 1, z, None, Some(blacklist.as_slice())) {
        return;
    }

    match typetree {
        1 => {
            // Oak tree
            editor.fill_blocks(Block::OakLog, x, y, z, x, y + 8, z, None, None);
            editor.fill_blocks(
                Block::OakLeaves,
                x - 1,
                y + 3,
                z,
                x - 1,
                y + 9,
                z,
                None,
                None,
            );
            editor.fill_blocks(
                Block::OakLeaves,
                x + 1,
                y + 3,
                z,
                x + 1,
                y + 9,
                z,
                None,
                None,
            );
            editor.fill_blocks(
                Block::OakLeaves,
                x,
                y + 3,
                z - 1,
                x,
                y + 9,
                z - 1,
                None,
                None,
            );
            editor.fill_blocks(
                Block::OakLeaves,
                x,
                y + 3,
                z + 1,
                x,
                y + 9,
                z + 1,
                None,
                None,
            );
            editor.fill_blocks(Block::OakLeaves, x, y + 9, z, x, y + 10, z, None, None);
            round1(editor, Block::OakLeaves, x, y + 8, z);
            round1(editor, Block::OakLeaves, x, y + 7, z);
            round1(editor, Block::OakLeaves, x, y + 6, z);
            round1(editor, Block::OakLeaves, x, y + 5, z);
            round1(editor, Block::OakLeaves, x, y + 4, z);
            round1(editor, Block::OakLeaves, x, y + 3, z);
            round2(editor, Block::OakLeaves, x, y + 7, z);
            round2(editor, Block::OakLeaves, x, y + 6, z);
            round2(editor, Block::OakLeaves, x, y + 5, z);
            round2(editor, Block::OakLeaves, x, y + 4, z);
            round3(editor, Block::OakLeaves, x, y + 6, z);
            round3(editor, Block::OakLeaves, x, y + 5, z);

            if snow {
                editor.set_block(Block::SnowLayer, x, y + 11, z, None, None);
                editor.set_block(Block::SnowLayer, x + 1, y + 10, z, None, None);
                editor.set_block(Block::SnowLayer, x - 1, y + 10, z, None, None);
                editor.set_block(Block::SnowLayer, x, y + 10, z - 1, None, None);
                editor.set_block(Block::SnowLayer, x, y + 10, z + 1, None, None);
                round1(editor, Block::SnowLayer, x, y + 9, z);
                round1(editor, Block::SnowLayer, x, y + 8, z);
                round1(editor, Block::SnowLayer, x, y + 7, z);
                round1(editor, Block::SnowLayer, x, y + 6, z);
                round2(editor, Block::SnowLayer, x, y + 8, z);
                round2(editor, Block::SnowLayer, x, y + 7, z);
                round2(editor, Block::SnowLayer, x, y + 6, z);
                round2(editor, Block::SnowLayer, x, y + 5, z);
                round3(editor, Block::SnowLayer, x, y + 7, z);
                round3(editor, Block::SnowLayer, x, y + 6, z);
            }
        }
        2 => {
            // Spruce tree
            editor.fill_blocks(Block::SpruceLog, x, y, z, x, y + 9, z, None, None);
            editor.fill_blocks(
                Block::BirchLeaves,
                x - 1,
                y + 3,
                z,
                x - 1,
                y + 10,
                z,
                None,
                None,
            );
            editor.fill_blocks(
                Block::BirchLeaves,
                x + 1,
                y + 3,
                z,
                x + 1,
                y + 10,
                z,
                None,
                None,
            );
            editor.fill_blocks(
                Block::BirchLeaves,
                x,
                y + 3,
                z - 1,
                x,
                y + 10,
                z - 1,
                None,
                None,
            );
            editor.fill_blocks(
                Block::BirchLeaves,
                x,
                y + 3,
                z + 1,
                x,
                y + 10,
                z + 1,
                None,
                None,
            );
            editor.set_block(Block::BirchLeaves, x, y + 10, z, None, None);
            round1(editor, Block::BirchLeaves, x, y + 9, z);
            round1(editor, Block::BirchLeaves, x, y + 7, z);
            round1(editor, Block::BirchLeaves, x, y + 6, z);
            round1(editor, Block::BirchLeaves, x, y + 4, z);
            round1(editor, Block::BirchLeaves, x, y + 3, z);
            round2(editor, Block::BirchLeaves, x, y + 6, z);
            round2(editor, Block::BirchLeaves, x, y + 3, z);

            if snow {
                editor.set_block(Block::SnowLayer, x, y + 11, z, None, None);
                editor.set_block(Block::SnowLayer, x + 1, y + 11, z, None, None);
                editor.set_block(Block::SnowLayer, x - 1, y + 11, z, None, None);
                editor.set_block(Block::SnowLayer, x, y + 11, z - 1, None, None);
                editor.set_block(Block::SnowLayer, x, y + 11, z + 1, None, None);
                round1(editor, Block::SnowLayer, x, y + 10, z);
                round1(editor, Block::SnowLayer, x, y + 8, z);
                round1(editor, Block::SnowLayer, x, y + 7, z);
                round1(editor, Block::SnowLayer, x, y + 5, z);
                round1(editor, Block::SnowLayer, x, y + 4, z);
                round2(editor, Block::SnowLayer, x, y + 7, z);
                round2(editor, Block::SnowLayer, x, y + 4, z);
            }
        }
        3 => {
            // Birch tree
            editor.fill_blocks(Block::BirchLog, x, y, z, x, y + 6, z, None, None);
            editor.fill_blocks(
                Block::BirchLeaves,
                x - 1,
                y + 2,
                z,
                x - 1,
                y + 7,
                z,
                None,
                None,
            );
            editor.fill_blocks(
                Block::BirchLeaves,
                x + 1,
                y + 2,
                z,
                x + 1,
                y + 7,
                z,
                None,
                None,
            );
            editor.fill_blocks(
                Block::BirchLeaves,
                x,
                y + 2,
                z - 1,
                x,
                y + 7,
                z - 1,
                None,
                None,
            );
            editor.fill_blocks(
                Block::BirchLeaves,
                x,
                y + 2,
                z + 1,
                x,
                y + 7,
                z + 1,
                None,
                None,
            );
            editor.fill_blocks(Block::BirchLeaves, x, y + 7, z, x, y + 8, z, None, None);
            round1(editor, Block::BirchLeaves, x, y + 6, z);
            round1(editor, Block::BirchLeaves, x, y + 5, z);
            round1(editor, Block::BirchLeaves, x, y + 4, z);
            round1(editor, Block::BirchLeaves, x, y + 3, z);
            round1(editor, Block::BirchLeaves, x, y + 2, z);
            round2(editor, Block::BirchLeaves, x, y + 2, z);
            round2(editor, Block::BirchLeaves, x, y + 3, z);
            round2(editor, Block::BirchLeaves, x, y + 4, z);

            if snow {
                editor.set_block(Block::SnowLayer, x, y + 9, z, None, None);
                editor.set_block(Block::SnowLayer, x + 1, y + 8, z, None, None);
                editor.set_block(Block::SnowLayer, x - 1, y + 8, z, None, None);
                editor.set_block(Block::SnowLayer, x, y + 8, z - 1, None, None);
                editor.set_block(Block::SnowLayer, x, y + 8, z + 1, None, None);
                round1(editor, Block::SnowLayer, x, y + 7, z);
                round1(editor, Block::SnowLayer, x, y + 6, z);
                round1(editor, Block::SnowLayer, x, y + 5, z);
                round1(editor, Block::SnowLayer, x, y + 4, z);
                round1(editor, Block::SnowLayer, x, y + 3, z);
                round2(editor, Block::SnowLayer, x, y + 3, z);
                round2(editor, Block::SnowLayer, x, y + 4, z);
                round2(editor, Block::SnowLayer, x, y + 5, z);
            }
        }
        _ => {} // Do nothing if typetree is not recognized
    }
}

/// A ring leaves the cells of its centre column as they are.
proof fn lemma_round1_center(m: Map<Point, Block>, material: Block, x: int, y: int, z: int, q: Point)
    requires
        q.0 == x && q.2 == z,
    ensures
        occupant(round1_ring(m, material, x, y, z), q) == occupant(m, q),
{
    reveal(round1_ring);
}

/// A ring leaves the cells of its centre column as they are.
proof fn lemma_round2_center(m: Map<Point, Block>, material: Block, x: int, y: int, z: int, q: Point)
    requires
        q.0 == x && q.2 == z,
    ensures
        occupant(round2_ring(m, material, x, y, z), q) == occupant(m, q),
{
    reveal(round2_ring);
}

/// A ring leaves the cells of its centre column as they are.
proof fn lemma_round3_center(m: Map<Point, Block>, material: Block, x: int, y: int, z: int, q: Point)
    requires
        q.0 == x && q.2 == z,
    ensures
        occupant(round3_ring(m, material, x, y, z), q) == occupant(m, q),
{
    reveal(round3_ring);
}

/// The centre column of oak tree: trunk from `y` to `y + 8`, leaves
/// above it up to `y + 10`, and snow on top at `y + 11` exactly when it
/// snows.
pub proof fn lemma_oak_column(m0: Map<Point, Block>, x: int, y: int, z: int, snow: bool, j: int)
    requires
        0 <= j <= 11,
        storable((x, y, z)),
        storable((x, y + 11, z)),
    ensures
        j <= 8 ==> occupant(oak_tree(m0, x, y, z, snow), (x, y + j, z)) == Block::OakLog,
        8 < j <= 10 ==> occupant(oak_tree(m0, x, y, z, snow), (x, y + j, z)) == Block::OakLeaves,
        j == 11 ==> occupant(oak_tree(m0, x, y, z, snow), (x, y + j, z)) == if snow {
            Block::SnowLayer
        } else {
            occupant(m0, (x, y + j, z))
        },
{
    let p: Point = (x, y + j, z);
    let m1 = fill_result(m0, Block::OakLog, (x, y, z), (x, y + 8, z), None, None);
    let m2 = fill_result(m1, Block::OakLeaves, (x - 1, y + 3, z), (x - 1, y + 9, z), None, None);
    let m3 = fill_result(m2, Block::OakLeaves, (x + 1, y + 3, z), (x + 1, y + 9, z), None, None);
    let m4 = fill_result(m3, Block::OakLeaves, (x, y + 3, z - 1), (x, y + 9, z - 1), None, None);
    let m5 = fill_result(m4, Block::OakLeaves, (x, y + 3, z + 1), (x, y + 9, z + 1), None, None);
    let m6 = fill_result(m5, Block::OakLeaves, (x, y + 9, z), (x, y + 10, z), None, None);
    let m7 = round1_ring(m6, Block::OakLeaves, x, y + 8, z);
    lemma_round1_center(m6, Block::OakLeaves, x, y + 8, z, p);
    let m8 = round1_ring(m7, Block::OakLeaves, x, y + 7, z);
    lemma_round1_center(m7, Block::OakLeaves, x, y + 7, z, p);
    let m9 = round1_ring(m8, Block::OakLeaves, x, y + 6, z);
    lemma_round1_center(m8, Block::OakLeaves, x, y + 6, z, p);
    let m10 = round1_ring(m9, Block::OakLeaves, x, y + 5, z);
    lemma_round1_center(m9, Block::OakLeaves, x, y + 5, z, p);
    let m11 = round1_ring(m10, Block::OakLeaves, x, y + 4, z);
    lemma_round1_center(m10, Block::OakLeaves, x, y + 4, z, p);
    let m12 = round1_ring(m11, Block::OakLeaves, x, y + 3, z);
    lemma_round1_center(m11, Block::OakLeaves, x, y + 3, z, p);
    let m13 = round2_ring(m12, Block::OakLeaves, x, y + 7, z);
    lemma_round2_center(m12, Block::OakLeaves, x, y + 7, z, p);
    let m14 = round2_ring(m13, Block::OakLeaves, x, y + 6, z);
    lemma_round2_center(m13, Block::OakLeaves, x, y + 6, z, p);
    let m15 = round2_ring(m14, Block::OakLeaves, x, y + 5, z);
    lemma_round2_center(m14, Block::OakLeaves, x, y + 5, z, p);
    let m16 = round2_ring(m15, Block::OakLeaves, x, y + 4, z);
    lemma_round2_center(m15, Block::OakLeaves, x, y + 4, z, p);
    let m17 = round3_ring(m16, Block::OakLeaves, x, y + 6, z);
    lemma_round3_center(m16, Block::OakLeaves, x, y + 6, z, p);
    let m18 = round3_ring(m17, Block::OakLeaves, x, y + 5, z);
    lemma_round3_center(m17, Block::OakLeaves, x, y + 5, z, p);
    let m34 = if snow {
        let m19 = put(m18, (x, y + 11, z), Block::SnowLayer);
        let m20 = put(m19, (x + 1, y + 10, z), Block::SnowLayer);
        let m21 = put(m20, (x - 1, y + 10, z), Block::SnowLayer);
        let m22 = put(m21, (x, y + 10, z - 1), Block::SnowLayer);
        let m23 = put(m22, (x, y + 10, z + 1), Block::SnowLayer);
        let m24 = round1_ring(m23, Block::SnowLayer, x, y + 9, z);
        lemma_round1_center(m23, Block::SnowLayer, x, y + 9, z, p);
        let m25 = round1_ring(m24, Block::SnowLayer, x, y + 8, z);
        lemma_round1_center(m24, Block::SnowLayer, x, y + 8, z, p);
        let m26 = round1_ring(m25, Block::SnowLayer, x, y + 7, z);
        lemma_round1_center(m25, Block::SnowLayer, x, y + 7, z, p);
        let m27 = round1_ring(m26, Block::SnowLayer, x, y + 6, z);
        lemma_round1_center(m26, Block::SnowLayer, x, y + 6, z, p);
        let m28 = round2_ring(m27, Block::SnowLayer, x, y + 8, z);
        lemma_round2_center(m27, Block::SnowLayer, x, y + 8, z, p);
        let m29 = round2_ring(m28, Block::SnowLayer, x, y + 7, z);
        lemma_round2_center(m28, Block::SnowLayer, x, y + 7, z, p);
        let m30 = round2_ring(m29, Block::SnowLayer, x, y + 6, z);
        lemma_round2_center(m29, Block::SnowLayer, x, y + 6, z, p);
        let m31 = round2_ring(m30, Block::SnowLayer, x, y + 5, z);
        lemma_round2_center(m30, Block::SnowLayer, x, y + 5, z, p);
        let m32 = round3_ring(m31, Block::SnowLayer, x, y + 7, z);
        lemma_round3_center(m31, Block::SnowLayer, x, y + 7, z, p);
        let m33 = round3_ring(m32, Block::SnowLayer, x, y + 6, z);
        lemma_round3_center(m32, Block::SnowLayer, x, y + 6, z, p);
        m33
    } else {
        m18
    };
}

/// The centre column of spruce tree: trunk from `y` to `y + 9`, leaves
/// above it up to `y + 10`, and snow on top at `y + 11` exactly when it
/// snows.
pub proof fn lemma_spruce_column(m0: Map<Point, Block>, x: int, y: int, z: int, snow: bool, j: int)
    requires
        0 <= j <= 11,
        storable((x, y, z)),
        storable((x, y + 11, z)),
    ensures
        j <= 9 ==> occupant(spruce_tree(m0, x, y, z, snow), (x, y + j, z)) == Block::SpruceLog,
        9 < j <= 10 ==> occupant(spruce_tree(m0, x, y, z, snow), (x, y + j, z)) == Block::BirchLeaves,
        j == 11 ==> occupant(spruce_tree(m0, x, y, z, snow), (x, y + j, z)) == if snow {
            Block::SnowLayer
        } else {
            occupant(m0, (x, y + j, z))
        },
{
    let p: Point = (x, y + j, z);
    let m1 = fill_result(m0, Block::SpruceLog, (x, y, z), (x, y + 9, z), None, None);
    let m2 = fill_result(m1, Block::BirchLeaves, (x - 1, y + 3, z), (x - 1, y + 10, z), None, None);
    let m3 = fill_result(m2, Block::BirchLeaves, (x + 1, y + 3, z), (x + 1, y + 10, z), None, None);
    let m4 = fill_result(m3, Block::BirchLeaves, (x, y + 3, z - 1), (x, y + 10, z - 1), None, None);
    let m5 = fill_result(m4, Block::BirchLeaves, (x, y + 3, z + 1), (x, y + 10, z + 1), None, None);
    let m6 = put(m5, (x, y + 10, z), Block::BirchLeaves);
    let m7 = round1_ring(m6, Block::BirchLeaves, x, y + 9, z);
    lemma_round1_center(m6, Block::BirchLeaves, x, y + 9, z, p);
    let m8 = round1_ring(m7, Block::BirchLeaves, x, y + 7, z);
    lemma_round1_center(m7, Block::BirchLeaves, x, y + 7, z, p);
    let m9 = round1_ring(m8, Block::BirchLeaves, x, y + 6, z);
    lemma_round1_center(m8, Block::BirchLeaves, x, y + 6, z, p);
    let m10 = round1_ring(m9, Block::BirchLeaves, x, y + 4, z);
    lemma_round1_center(m9, Block::BirchLeaves, x, y + 4, z, p);
    let m11 = round1_ring(m10, Block::BirchLeaves, x, y + 3, z);
    lemma_round1_center(m10, Block::BirchLeaves, x, y + 3, z, p);
    let m12 = round2_ring(m11, Block::BirchLeaves, x, y + 6, z);
    lemma_round2_center(m11, Block::BirchLeaves, x, y + 6, z, p);
    let m13 = round2_ring(m12, Block::BirchLeaves, x, y + 3, z);
    lemma_round2_center(m12, Block::BirchLeaves, x, y + 3, z, p);
    let m26 = if snow {
        let m14 = put(m13, (x, y + 11, z), Block::SnowLayer);
        let m15 = put(m14, (x + 1, y + 11, z), Block::SnowLayer);
        let m16 = put(m15, (x - 1, y + 11, z), Block::SnowLayer);
        let m17 = put(m16, (x, y + 11, z - 1), Block::SnowLayer);
        let m18 = put(m17, (x, y + 11, z + 1), Block::SnowLayer);
        let m19 = round1_ring(m18, Block::SnowLayer, x, y + 10, z);
        lemma_round1_center(m18, Block::SnowLayer, x, y + 10, z, p);
        let m20 = round1_ring(m19, Block::SnowLayer, x, y + 8, z);
        lemma_round1_center(m19, Block::SnowLayer, x, y + 8, z, p);
        let m21 = round1_ring(m20, Block::SnowLayer, x, y + 7, z);
        lemma_round1_center(m20, Block::SnowLayer, x, y + 7, z, p);
        let m22 = round1_ring(m21, Block::SnowLayer, x, y + 5, z);
        lemma_round1_center(m21, Block::SnowLayer, x, y + 5, z, p);
        let m23 = round1_ring(m22, Block::SnowLayer, x, y + 4, z);
        lemma_round1_center(m22, Block::SnowLayer, x, y + 4, z, p);
        let m24 = round2_ring(m23, Block::SnowLayer, x, y + 7, z);
        lemma_round2_center(m23, Block::SnowLayer, x, y + 7, z, p);
        let m25 = round2_ring(m24, Block::SnowLayer, x, y + 4, z);
        lemma_round2_center(m24, Block::SnowLayer, x, y + 4, z, p);
        m25
    } else {
        m13
    };
}

/// The centre column of birch tree: trunk from `y` to `y + 6`, leaves
/// above it up to `y + 8`, and snow on top at `y + 9` exactly when it
/// snows.
pub proof fn lemma_birch_column(m0: Map<Point, Block>, x: int, y: int, z: int, snow: bool, j: int)
    requires
        0 <= j <= 9,
        storable((x, y, z)),
        storable((x, y + 9, z)),
    ensures
        j <= 6 ==> occupant(birch_tree(m0, x, y, z, snow), (x, y + j, z)) == Block::BirchLog,
        6 < j <= 8 ==> occupant(birch_tree(m0, x, y, z, snow), (x, y + j, z)) == Block::BirchLeaves,
        j == 9 ==> occupant(birch_tree(m0, x, y, z, snow), (x, y + j, z)) == if snow {
            Block::SnowLayer
        } else {
            occupant(m0, (x, y + j, z))
        },
{
    let p: Point = (x, y + j, z);
    let m1 = fill_result(m0, Block::BirchLog, (x, y, z), (x, y + 6, z), None, None);
    let m2 = fill_result(m1, Block::BirchLeaves, (x - 1, y + 2, z), (x - 1, y + 7, z), None, None);
    let m3 = fill_result(m2, Block::BirchLeaves, (x + 1, y + 2, z), (x + 1, y + 7, z), None, None);
    let m4 = fill_result(m3, Block::BirchLeaves, (x, y + 2, z - 1), (x, y + 7, z - 1), None, None);
    let m5 = fill_result(m4, Block::BirchLeaves, (x, y + 2, z + 1), (x, y + 7, z + 1), None, None);
    let m6 = fill_result(m5, Block::BirchLeaves, (x, y + 7, z), (x, y + 8, z), None, None);
    let m7 = round1_ring(m6, Block::BirchLeaves, x, y + 6, z);
    lemma_round1_center(m6, Block::BirchLeaves, x, y + 6, z, p);
    let m8 = round1_ring(m7, Block::BirchLeaves, x, y + 5, z);
    lemma_round1_center(m7, Block::BirchLeaves, x, y + 5, z, p);
    let m9 = round1_ring(m8, Block::BirchLeaves, x, y + 4, z);
    lemma_round1_center(m8, Block::BirchLeaves, x, y + 4, z, p);
    let m10 = round1_ring(m9, Block::BirchLeaves, x, y + 3, z);
    lemma_round1_center(m9, Block::BirchLeaves, x, y + 3, z, p);
    let m11 = round1_ring(m10, Block::BirchLeaves, x, y + 2, z);
    lemma_round1_center(m10, Block::BirchLeaves, x, y + 2, z, p);
    let m12 = round2_ring(m11, Block::BirchLeaves, x, y + 2, z);
    lemma_round2_center(m11, Block::BirchLeaves, x, y + 2, z, p);
    let m13 = round2_ring(m12, Block::BirchLeaves, x, y + 3, z);
    lemma_round2_center(m12, Block::BirchLeaves, x, y + 3, z, p);
    let m14 = round2_ring(m13, Block::BirchLeaves, x, y + 4, z);
    lemma_round2_center(m13, Block::BirchLeaves, x, y + 4, z, p);
    let m28 = if snow {
        let m15 = put(m14, (x, y + 9, z), Block::SnowLayer);
        let m16 = put(m15, (x + 1, y + 8, z), Block::SnowLayer);
        let m17 = put(m16, (x - 1, y + 8, z), Block::SnowLayer);
        let m18 = put(m17, (x, y + 8, z - 1), Block::SnowLayer);
        let m19 = put(m18, (x, y + 8, z + 1), Block::SnowLayer);
        let m20 = round1_ring(m19, Block::SnowLayer, x, y + 7, z);
        lemma_round1_center(m19, Block::SnowLayer, x, y + 7, z, p);
        let m21 = round1_ring(m20, Block::SnowLayer, x, y + 6, z);
        lemma_round1_center(m20, Block::SnowLayer, x, y + 6, z, p);
        let m22 = round1_ring(m21, Block::SnowLayer, x, y + 5, z);
        lemma_round1_center(m21, Block::SnowLayer, x, y + 5, z, p);
        let m23 = round1_ring(m22, Block::SnowLayer, x, y + 4, z);
        lemma_round1_center(m22, Block::SnowLayer, x, y + 4, z, p);
        let m24 = round1_ring(m23, Block::SnowLayer, x, y + 3, z);
        lemma_round1_center(m23, Block::SnowLayer, x, y + 3, z, p);
        let m25 = round2_ring(m24, Block::SnowLayer, x, y + 3, z);
        lemma_round2_center(m24, Block::SnowLayer, x, y + 3, z, p);
        let m26 = round2_ring(m25, Block::SnowLayer, x, y + 4, z);
        lemma_round2_center(m25, Block::SnowLayer, x, y + 4, z, p);
        let m27 = round2_ring(m26, Block::SnowLayer, x, y + 5, z);
        lemma_round2_center(m26, Block::SnowLayer, x, y + 5, z, p);
        m27
    } else {
        m14
    };
}

} // verus!
