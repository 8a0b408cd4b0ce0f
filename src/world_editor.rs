//! The voxel store: a map from lattice position to block, written through a
//! conditional-write protocol, and the bookkeeping of which chunks hold
//! blocks.

use crate::block_definitions::Block;
use crate::bresenham::Point;
use std::collections::HashMap;
use std::collections::HashSet;
use vstd::arithmetic::div_mod::lemma_fundamental_div_mod_converse;
use vstd::prelude::*;

verus! {

broadcast use vstd::std_specs::hash::group_hash_axioms;

/// Lowest y that the world stores.
pub const MIN_Y: i32 = -64;

/// Highest y that the world stores.
pub const MAX_Y: i32 = 319;

/// `y` lies within the world's build height.
pub open spec fn in_height(y: int) -> bool {
    MIN_Y <= y <= MAX_Y
}

/// `v` fits in an `i32`.
pub open spec fn in_i32(v: int) -> bool {
    i32::MIN <= v <= i32::MAX
}

/// A position that the store can hold: x and z fit in `i32`, y lies within
/// the build height.
pub open spec fn storable(p: Point) -> bool {
    in_i32(p.0) && in_height(p.1) && in_i32(p.2)
}

/// The chunk column that holds `p`: x and z divided by the chunk size,
/// rounded down.
pub open spec fn chunk_of(p: Point) -> (int, int) {
    (p.0 / 16, p.2 / 16)
}

/// The block that stands at `p` in `m`: the recorded one, or air.
pub open spec fn occupant(m: Map<Point, Block>, p: Point) -> Block {
    if m.contains_key(p) {
        m[p]
    } else {
        Block::Air
    }
}

/// Whether a write is let through, given the current entry at the position
/// and the two optional lists. The blacklist is consulted first, against
/// the occupant (air when nothing is recorded); then the whitelist, which
/// only guards positions that hold a block.
pub open spec fn admits(
    m: Map<Point, Block>,
    p: Point,
    whitelist: Option<Seq<Block>>,
    blacklist: Option<Seq<Block>>,
) -> bool {
    if blacklist is Some && blacklist->Some_0.contains(occupant(m, p)) {
        false
    } else if whitelist is Some && m.contains_key(p) && !whitelist->Some_0.contains(m[p]) {
        false
    } else {
        true
    }
}

/// The store after a conditional write of `b` at `p`.
pub open spec fn set_result(
    m: Map<Point, Block>,
    p: Point,
    b: Block,
    whitelist: Option<Seq<Block>>,
    blacklist: Option<Seq<Block>>,
) -> Map<Point, Block> {
    if storable(p) && admits(m, p, whitelist, blacklist) {
        m.insert(p, b)
    } else {
        m
    }
}

/// Whether the block at `p` (air when nothing is recorded) is in the
/// whitelist or in the blacklist.
pub open spec fn matches_at(
    m: Map<Point, Block>,
    p: Point,
    whitelist: Option<Seq<Block>>,
    blacklist: Option<Seq<Block>>,
) -> bool {
    (whitelist is Some && whitelist->Some_0.contains(occupant(m, p))) || (blacklist is Some
        && blacklist->Some_0.contains(occupant(m, p)))
}

/// `p` lies in the box spanned by corners `a` and `b`, both included.
pub open spec fn in_box(p: Point, a: Point, b: Point) -> bool {
    crate::bresenham::between(a.0, p.0, b.0) && crate::bresenham::between(a.1, p.1, b.1)
        && crate::bresenham::between(a.2, p.2, b.2)
}

/// The store after a conditional write of `b` at every position where
/// `region` holds. Each position is written at most once and its outcome
/// depends only on its own previous occupant, so the order of the writes
/// does not show in the result.
pub open spec fn fill_where(
    m: Map<Point, Block>,
    b: Block,
    region: spec_fn(Point) -> bool,
    whitelist: Option<Seq<Block>>,
    blacklist: Option<Seq<Block>>,
) -> Map<Point, Block> {
    Map::new(
        |p: Point| m.contains_key(p) || (region(p) && storable(p) && admits(m, p, whitelist, blacklist)),
        |p: Point|
            if region(p) && storable(p) && admits(m, p, whitelist, blacklist) {
                b
            } else {
                m[p]
            },
    )
}

/// The store after a conditional write of `b` at every position of the box
/// spanned by corners `a` and `c`, both included.
pub open spec fn fill_result(
    m: Map<Point, Block>,
    b: Block,
    a: Point,
    c: Point,
    whitelist: Option<Seq<Block>>,
    blacklist: Option<Seq<Block>>,
) -> Map<Point, Block> {
    fill_where(m, b, |p: Point| in_box(p, a, c), whitelist, blacklist)
}

/// Filling two disjoint regions one after the other is filling their union.
proof fn lemma_fill_compose(
    m: Map<Point, Block>,
    b: Block,
    r1: spec_fn(Point) -> bool,
    r2: spec_fn(Point) -> bool,
    r: spec_fn(Point) -> bool,
    whitelist: Option<Seq<Block>>,
    blacklist: Option<Seq<Block>>,
)
    requires
        forall|p: Point| !(#[trigger] r1(p) && r2(p)),
        forall|p: Point| #[trigger] r(p) == (r1(p) || r2(p)),
    ensures
        fill_where(fill_where(m, b, r1, whitelist, blacklist), b, r2, whitelist, blacklist)
            == fill_where(m, b, r, whitelist, blacklist),
{
    let m1 = fill_where(m, b, r1, whitelist, blacklist);
    assert forall|p: Point| r2(p) implies admits(m1, p, whitelist, blacklist) == admits(
        m,
        p,
        whitelist,
        blacklist,
    ) by {
        assert(!r1(p));
        assert(m1.contains_key(p) == m.contains_key(p));
        if m.contains_key(p) {
            assert(m1[p] == m[p]);
        }
        assert(occupant(m1, p) == occupant(m, p));
    }
    assert(fill_where(m1, b, r2, whitelist, blacklist) =~= fill_where(m, b, r, whitelist, blacklist));
}

/// Filling a single position is a conditional write there.
proof fn lemma_fill_single(
    m: Map<Point, Block>,
    b: Block,
    p: Point,
    r: spec_fn(Point) -> bool,
    whitelist: Option<Seq<Block>>,
    blacklist: Option<Seq<Block>>,
)
    requires
        forall|q: Point| #[trigger] r(q) == (q == p),
    ensures
        set_result(m, p, b, whitelist, blacklist) == fill_where(m, b, r, whitelist, blacklist),
{
    assert(set_result(m, p, b, whitelist, blacklist) =~= fill_where(m, b, r, whitelist, blacklist));
}

/// Filling an empty region changes nothing.
proof fn lemma_fill_empty(
    m: Map<Point, Block>,
    b: Block,
    r: spec_fn(Point) -> bool,
    whitelist: Option<Seq<Block>>,
    blacklist: Option<Seq<Block>>,
)
    requires
        forall|q: Point| !#[trigger] r(q),
    ensures
        fill_where(m, b, r, whitelist, blacklist) == m,
{
    assert(fill_where(m, b, r, whitelist, blacklist) =~= m);
}

/// Filling over two regions that hold at the same positions gives the same
/// store.
proof fn lemma_fill_same_region(
    m: Map<Point, Block>,
    b: Block,
    r1: spec_fn(Point) -> bool,
    r2: spec_fn(Point) -> bool,
    whitelist: Option<Seq<Block>>,
    blacklist: Option<Seq<Block>>,
)
    requires
        forall|q: Point| #[trigger] r1(q) == r2(q),
    ensures
        fill_where(m, b, r1, whitelist, blacklist) == fill_where(m, b, r2, whitelist, blacklist),
{
    assert(fill_where(m, b, r1, whitelist, blacklist) =~= fill_where(m, b, r2, whitelist, blacklist));
}

/// A write with a one-block blacklist leaves the store as it is when that
/// block stands at the position, and otherwise is an unconditional write.
pub proof fn lemma_blacklist_write(m: Map<Point, Block>, p: Point, b: Block, x: Block)
    ensures
        occupant(m, p) == x ==> set_result(m, p, b, None, Some(seq![x])) == m,
        occupant(m, p) != x ==> set_result(m, p, b, None, Some(seq![x])) == set_result(
            m,
            p,
            b,
            None,
            None,
        ),
{
    if occupant(m, p) == x {
        assert(seq![x].contains(x)) by {
            assert(seq![x][0] == x);
        }
    } else {
        assert(!seq![x].contains(occupant(m, p)));
    }
}

/// A box fill under a whitelist overwrites exactly the positions of the box
/// that are empty or hold a whitelisted block, and leaves every other
/// position as it was.
pub proof fn lemma_fill_whitelist(
    m: Map<Point, Block>,
    b: Block,
    a: Point,
    c: Point,
    whitelist: Seq<Block>,
)
    ensures
        forall|p: Point|
            #![trigger fill_result(m, b, a, c, Some(whitelist), None).contains_key(p)]
            m.contains_key(p) && !whitelist.contains(m[p]) ==> fill_result(
                m,
                b,
                a,
                c,
                Some(whitelist),
                None,
            ).contains_key(p) && fill_result(m, b, a, c, Some(whitelist), None)[p] == m[p],
        forall|p: Point|
            #![trigger fill_result(m, b, a, c, Some(whitelist), None).contains_key(p)]
            in_box(p, a, c) && storable(p) && (m.contains_key(p) ==> whitelist.contains(m[p]))
                ==> fill_result(m, b, a, c, Some(whitelist), None).contains_key(p) && fill_result(
                m,
                b,
                a,
                c,
                Some(whitelist),
                None,
            )[p] == b,
        forall|p: Point|
            #![trigger fill_result(m, b, a, c, Some(whitelist), None).contains_key(p)]
            !in_box(p, a, c) ==> (fill_result(m, b, a, c, Some(whitelist), None).contains_key(p)
                == m.contains_key(p)) && (m.contains_key(p) ==> fill_result(
                m,
                b,
                a,
                c,
                Some(whitelist),
                None,
            )[p] == m[p]),
{
}

/// An optional block list in spec form.
pub open spec fn list_view(l: Option<&[Block]>) -> Option<Seq<Block>> {
    match l {
        Some(s) => Some(s@),
        None => None,
    }
}

/// The key under which the store records position `p`.
pub open spec fn pos_key(p: Point) -> int {
    ((p.0 + 0x8000_0000) * 0x1_0000_0000 + (p.2 + 0x8000_0000)) * 512 + (p.1 - MIN_Y)
}

/// The key under which the chunk set records chunk `c`.
pub open spec fn chunk_key(c: (int, int)) -> int {
    (c.0 + 0x800_0000) * 0x1000_0000 + (c.1 + 0x800_0000)
}

/// A chunk whose columns have x and z in `i32`.
pub open spec fn chunk_in_range(c: (int, int)) -> bool {
    -0x800_0000 <= c.0 < 0x800_0000 && -0x800_0000 <= c.1 < 0x800_0000
}

proof fn lemma_pos_key_bounds(p: Point)
    requires
        storable(p),
    ensures
        0 <= pos_key(p) < 0x2_0000_0000_0000_0000_00,
{
}

proof fn lemma_pos_key_injective(p: Point, q: Point)
    requires
        storable(p),
        storable(q),
        pos_key(p) == pos_key(q),
    ensures
        p == q,
{
    let k = pos_key(p);
    let hp = (p.0 + 0x8000_0000) * 0x1_0000_0000 + (p.2 + 0x8000_0000);
    let hq = (q.0 + 0x8000_0000) * 0x1_0000_0000 + (q.2 + 0x8000_0000);
    lemma_fundamental_div_mod_converse(k, 512, hp, p.1 - MIN_Y);
    lemma_fundamental_div_mod_converse(k, 512, hq, q.1 - MIN_Y);
    lemma_fundamental_div_mod_converse(hp, 0x1_0000_0000, p.0 + 0x8000_0000, p.2 + 0x8000_0000);
    lemma_fundamental_div_mod_converse(hq, 0x1_0000_0000, q.0 + 0x8000_0000, q.2 + 0x8000_0000);
}

proof fn lemma_chunk_key_injective(c: (int, int), d: (int, int))
    requires
        chunk_in_range(c),
        chunk_in_range(d),
        chunk_key(c) == chunk_key(d),
    ensures
        c == d,
{
    lemma_fundamental_div_mod_converse(chunk_key(c), 0x1000_0000, c.0 + 0x800_0000, c.1 + 0x800_0000);
    lemma_fundamental_div_mod_converse(chunk_key(d), 0x1000_0000, d.0 + 0x800_0000, d.1 + 0x800_0000);
}

/// Floor division by the chunk size, through a shift into the non-negative
/// range.
proof fn lemma_chunk_div(v: int)
    requires
        in_i32(v),
    ensures
        (v + 0x8000_0000) / 16 == v / 16 + 0x800_0000,
        (v + 0x8000_0000) % 16 == v % 16,
        -0x800_0000 <= v / 16 < 0x800_0000,
        0 <= v % 16 < 16,
{
    vstd::arithmetic::div_mod::lemma_fundamental_div_mod(v, 16);
    vstd::arithmetic::div_mod::lemma_mod_bound(v, 16);
    lemma_fundamental_div_mod_converse(v + 0x8000_0000, 16, v / 16 + 0x800_0000, v % 16);
}

proof fn lemma_chunk_in_range(p: Point)
    requires
        storable(p),
    ensures
        chunk_in_range(chunk_of(p)),
{
    lemma_chunk_div(p.0);
    lemma_chunk_div(p.2);
}

/// The chunk of the world's lattice that holds `(x, z)`, and its key.
pub(crate) fn chunk_coords(x: i32, z: i32) -> (r: (i32, i32, u64))
    ensures
        (r.0 as int, r.1 as int) == chunk_of((x as int, 0, z as int)),
        r.2 == chunk_key((r.0 as int, r.1 as int)),
        chunk_in_range((r.0 as int, r.1 as int)),
{
    proof {
        lemma_chunk_div(x as int);
        lemma_chunk_div(z as int);
    }
    let ux: i64 = x as i64 + 0x8000_0000;
    let uz: i64 = z as i64 + 0x8000_0000;
    let cx: i64 = ux / 16 - 0x800_0000;
    let cz: i64 = uz / 16 - 0x800_0000;
    let key: u64 = ((cx + 0x800_0000) as u64) * 0x1000_0000 + ((cz + 0x800_0000) as u64);
    (cx as i32, cz as i32, key)
}

fn key_of(x: i32, y: i32, z: i32) -> (k: u128)
    requires
        in_height(y as int),
    ensures
        k == pos_key((x as int, y as int, z as int)),
{
    let ux: u128 = (x as i64 + 0x8000_0000) as u128;
    let uz: u128 = (z as i64 + 0x8000_0000) as u128;
    let uy: u128 = (y as i64 - MIN_Y as i64) as u128;
    (ux * 0x1_0000_0000 + uz) * 512 + uy
}

/// Whether `b` occurs in `list`.
pub fn list_contains(list: &[Block], b: Block) -> (r: bool)
    ensures
        r == list@.contains(b),
{
    let mut i: usize = 0;
    while i < list.len()
        invariant
            i <= list@.len(),
            forall|j: int| 0 <= j < i ==> list@[j] != b,
        decreases list@.len() - i,
    {
        if list[i] == b {
            return true;
        }
        i = i + 1;
    }
    false
}

/// The store of blocks written so far, with the chunks that hold them.
pub struct WorldEditor {
    blocks: HashMap<u128, Block>,
    chunk_list: Vec<(i32, i32)>,
    chunk_set: HashSet<u64>,
}

impl View for WorldEditor {
    type V = Map<Point, Block>;

    /// The recorded blocks, by position. Untouched positions are absent.
    closed spec fn view(&self) -> Map<Point, Block> {
        Map::new(
            |p: Point| storable(p) && self.blocks@.contains_key(pos_key(p) as u128),
            |p: Point| self.blocks@[pos_key(p) as u128],
        )
    }
}

impl WorldEditor {
    /// The chunks that hold at least one recorded block, in the order in
    /// which they received their first one.
    pub closed spec fn chunks(&self) -> Seq<(int, int)> {
        self.chunk_list@.map_values(|c: (i32, i32)| (c.0 as int, c.1 as int))
    }

    /// Well-formedness: the chunk list holds each chunk once, exactly the
    /// chunks of the recorded positions.
    pub closed spec fn wf(&self) -> bool {
        &&& self.chunks().no_duplicates()
        &&& forall|i: int|
            0 <= i < self.chunks().len() ==> chunk_in_range(#[trigger] self.chunks()[i])
        &&& forall|k: u64|
            #[trigger] self.chunk_set@.contains(k) <==> exists|i: int|
                0 <= i < self.chunks().len() && chunk_key(#[trigger] self.chunks()[i]) == k
        &&& forall|p: Point| #[trigger]
            self@.contains_key(p) ==> self.chunks().contains(chunk_of(p))
        &&& forall|i: int|
            0 <= i < self.chunks().len() ==> self.holds_in(#[trigger] self.chunks()[i])
    }

    /// Some recorded position lies in chunk `c`.
    pub open spec fn holds_in(&self, c: (int, int)) -> bool {
        exists|p: Point| #[trigger] self@.contains_key(p) && chunk_of(p) == c
    }

    /// The store is well-formed, and what it records is exactly its view;
    /// the chunk list is exactly the chunks of the recorded positions.
    pub proof fn lemma_chunks(&self)
        requires
            self.wf(),
        ensures
            self.chunks().no_duplicates(),
            forall|i: int| 0 <= i < self.chunks().len() ==> chunk_in_range(#[trigger] self.chunks()[i]),
            forall|p: Point| #[trigger] self@.contains_key(p) ==> storable(p),
            forall|p: Point| #[trigger]
                self@.contains_key(p) ==> self.chunks().contains(chunk_of(p)),
            forall|i: int| 0 <= i < self.chunks().len() ==> self.holds_in(#[trigger] self.chunks()[i]),
    {
    }

    /// An empty world.
    pub fn new() -> (r: WorldEditor)
        ensures
            r.wf(),
            r@ == Map::<Point, Block>::empty(),
            r.chunks().len() == 0,
    {
        let r = WorldEditor { blocks: HashMap::new(), chunk_list: Vec::new(), chunk_set: HashSet::new() };
        assert(r@ =~= Map::<Point, Block>::empty());
        r
    }

    /// The chunks that hold at least one recorded block, in the order in
    /// which they received their first one.
    pub fn chunk_list(&self) -> (r: &Vec<(i32, i32)>)
        ensures
            r@.map_values(|c: (i32, i32)| (c.0 as int, c.1 as int)) == self.chunks(),
    {
        &self.chunk_list
    }

    /// The recorded block at `(x, y, z)`, if any.
    pub fn get_block(&self, x: i32, y: i32, z: i32) -> (r: Option<Block>)
        ensures
            r == (if self@.contains_key((x as int, y as int, z as int)) {
                Some(self@[(x as int, y as int, z as int)])
            } else {
                None
            }),
    {
        let p: Ghost<Point> = Ghost((x as int, y as int, z as int));
        if y < MIN_Y || y > MAX_Y {
            return None;
        }
        let k = key_of(x, y, z);
        assert(pos_key(p@) as u128 == k);
        match self.blocks.get(&k) {
            Some(b) => Some(*b),
            None => None,
        }
    }

    /// Records that chunk `(cx, cz)` is about to receive a block.
    fn note_chunk(&mut self, cx: i32, cz: i32, key: u64, Ghost(p): Ghost<Point>)
        requires
            old(self).wf(),
            storable(p),
            chunk_of(p) == (cx as int, cz as int),
            key == chunk_key((cx as int, cz as int)),
        ensures
            final(self).blocks == old(self).blocks,
            final(self).chunks().contains(chunk_of(p)),
            forall|c: (int, int)| old(self).chunks().contains(c) ==> final(self).chunks().contains(c),
            forall|c: (int, int)|
                final(self).chunks().contains(c) ==> old(self).chunks().contains(c) || c == chunk_of(p),
            final(self).chunks().no_duplicates(),
            forall|i: int|
                0 <= i < final(self).chunks().len() ==> chunk_in_range(#[trigger] final(self).chunks()[i]),
            forall|k: u64|
                #[trigger] final(self).chunk_set@.contains(k) <==> exists|i: int|
                    0 <= i < final(self).chunks().len() && chunk_key(#[trigger] final(self).chunks()[i])
                        == k,
    {
        proof {
            lemma_chunk_in_range(p);
        }
        if !self.chunk_set.contains(&key) {
            let ghost before = self.chunks();
            proof {
                assert forall|i: int| 0 <= i < before.len() implies before[i] != chunk_of(p) by {
                    if before[i] == chunk_of(p) {
                        assert(self.chunk_set@.contains(key));
                    }
                }
            }
            self.chunk_set.insert(key);
            self.chunk_list.push((cx, cz));
            assert(self.chunks() =~= before.push(chunk_of(p)));
            proof {
                assert forall|k: u64| #[trigger] self.chunk_set@.contains(k) <==> exists|i: int|
                    0 <= i < self.chunks().len() && chunk_key(#[trigger] self.chunks()[i]) == k by {
                    if k == key {
                        assert(chunk_key(self.chunks()[before.len() as int]) == k);
                    } else if self.chunk_set@.contains(k) {
                        let i = choose|i: int| 0 <= i < before.len() && chunk_key(#[trigger] before[i]) == k;
                        assert(chunk_key(self.chunks()[i]) == k);
                    } else {
                        if exists|i: int| 0 <= i < self.chunks().len() && chunk_key(#[trigger] self.chunks()[i]) == k {
                            let i = choose|i: int| 0 <= i < self.chunks().len() && chunk_key(#[trigger] self.chunks()[i]) == k;
                            if i < before.len() {
                                assert(chunk_key(before[i]) == k);
                            }
                        }
                    }
                }
                assert(self.chunks()[before.len() as int] == chunk_of(p));
                assert forall|c: (int, int)| before.contains(c) implies self.chunks().contains(c) by {
                    let i = choose|i: int| 0 <= i < before.len() && before[i] == c;
                    assert(self.chunks()[i] == c);
                }
            }
        } else {
            proof {
                let i = choose|i: int| 0 <= i < self.chunks().len() && chunk_key(#[trigger] self.chunks()[i]) == key;
                lemma_chunk_key_injective(self.chunks()[i], chunk_of(p));
            }
        }
    }

    /// Writes `block` at `(x, y, z)` unless the lists reject it: the write is
    /// skipped when a blacklist holds the block there (air when nothing is
    /// recorded), or when a whitelist is given, a block is recorded there,
    /// and the whitelist does not hold it. A y outside the build height is
    /// dropped.
    pub fn set_block(
        &mut self,
        block: Block,
        x: i32,
        y: i32,
        z: i32,
        override_whitelist: Option<&[Block]>,
        override_blacklist: Option<&[Block]>,
    )
        requires
            old(self).wf(),
        ensures
            final(self).wf(),
            final(self)@ == set_result(
                old(self)@,
                (x as int, y as int, z as int),
                block,
                list_view(override_whitelist),
                list_view(override_blacklist),
            ),
    {
        let ghost p: Point = (x as int, y as int, z as int);
        let ghost m = self@;
        if y < MIN_Y || y > MAX_Y {
            return;
        }
        let k = key_of(x, y, z);
        let existing: Option<Block> = match self.blocks.get(&k) {
            Some(b) => Some(*b),
            None => None,
        };
        assert(existing == (if m.contains_key(p) { Some(m[p]) } else { None }));
        let current = match existing {
            Some(b) => b,
            None => Block::Air,
        };
        if let Some(blacklist) = override_blacklist {
            if list_contains(blacklist, current) {
                return;
            }
        }
        if let Some(whitelist) = override_whitelist {
            if let Some(b) = existing {
                if !list_contains(whitelist, b) {
                    return;
                }
            }
        }
        let (cx, cz, ckey) = chunk_coords(x, z);
        self.note_chunk(cx, cz, ckey, Ghost(p));
        self.blocks.insert(k, block);
        proof {
            lemma_pos_key_bounds(p);
            assert forall|q: Point| storable(q) && q != p implies pos_key(q) as u128 != k by {
                lemma_pos_key_bounds(q);
                if pos_key(q) == pos_key(p) {
                    lemma_pos_key_injective(p, q);
                }
            }
            assert(self@ =~= m.insert(p, block));
            assert forall|i: int| 0 <= i < self.chunks().len() implies self.holds_in(
                #[trigger] self.chunks()[i],
            ) by {
                let c = self.chunks()[i];
                if c != chunk_of(p) {
                    assert(old(self).chunks().contains(c));
                    let j = choose|j: int| 0 <= j < old(self).chunks().len() && old(self).chunks()[j] == c;
                    assert(old(self).holds_in(old(self).chunks()[j]));
                    let q = choose|q: Point| #[trigger] m.contains_key(q) && chunk_of(q) == c;
                    assert(self@.contains_key(q));
                } else {
                    assert(self@.contains_key(p));
                }
            }
        }
    }

    /// Fills positions `(x, y, z)` for z from `z0` to `z1`, in increasing z.
    fn fill_row(
        &mut self,
        block: Block,
        x: i32,
        y: i32,
        z0: i32,
        z1: i32,
        whitelist: Option<&[Block]>,
        blacklist: Option<&[Block]>,
    )
        requires
            old(self).wf(),
            z0 <= z1,
        ensures
            final(self).wf(),
            final(self)@ == fill_where(
                old(self)@,
                block,
                |q: Point| q.0 == x && q.1 == y && z0 <= q.2 <= z1,
                list_view(whitelist),
                list_view(blacklist),
            ),
    {
        let ghost m = self@;
        let ghost wl = list_view(whitelist);
        let ghost bl = list_view(blacklist);
        let mut z: i64 = z0 as i64;
        proof {
            lemma_fill_empty(m, block, |q: Point| q.0 == x && q.1 == y && z0 <= q.2 < z0, wl, bl);
        }
        while z <= z1 as i64
            invariant
                self.wf(),
                z0 <= z <= z1 + 1,
                self@ == fill_where(m, block, |q: Point| q.0 == x && q.1 == y && z0 <= q.2 < z, wl, bl),
                wl == list_view(whitelist),
                bl == list_view(blacklist),
            decreases z1 + 1 - z,
        {
            let ghost before = self@;
            self.set_block(block, x, y, z as i32, whitelist, blacklist);
            proof {
                let p: Point = (x as int, y as int, z as int);
                lemma_fill_single(before, block, p, |q: Point| q == p, wl, bl);
                lemma_fill_compose(
                    m,
                    block,
                    |q: Point| q.0 == x && q.1 == y && z0 <= q.2 < z,
                    |q: Point| q == p,
                    |q: Point| q.0 == x && q.1 == y && z0 <= q.2 < z + 1,
                    wl,
                    bl,
                );
            }
            z = z + 1;
        }
    }

    /// Fills positions `(x, y, z)` for y from `y0` to `y1` and z from `z0`
    /// to `z1`, in increasing y, then z.
    fn fill_plane(
        &mut self,
        block: Block,
        x: i32,
        y0: i32,
        y1: i32,
        z0: i32,
        z1: i32,
        whitelist: Option<&[Block]>,
        blacklist: Option<&[Block]>,
    )
        requires
            old(self).wf(),
            y0 <= y1,
            z0 <= z1,
        ensures
            final(self).wf(),
            final(self)@ == fill_where(
                old(self)@,
                block,
                |q: Point| q.0 == x && y0 <= q.1 <= y1 && z0 <= q.2 <= z1,
                list_view(whitelist),
                list_view(blacklist),
            ),
    {
        let ghost m = self@;
        let ghost wl = list_view(whitelist);
        let ghost bl = list_view(blacklist);
        let mut y: i64 = y0 as i64;
        proof {
            lemma_fill_empty(m, block, |q: Point| q.0 == x && y0 <= q.1 < y0 && z0 <= q.2 <= z1, wl, bl);
        }
        while y <= y1 as i64
            invariant
                self.wf(),
                y0 <= y <= y1 + 1,
                z0 <= z1,
                self@ == fill_where(
                    m,
                    block,
                    |q: Point| q.0 == x && y0 <= q.1 < y && z0 <= q.2 <= z1,
                    wl,
                    bl,
                ),
                wl == list_view(whitelist),
                bl == list_view(blacklist),
            decreases y1 + 1 - y,
        {
            self.fill_row(block, x, y as i32, z0, z1, whitelist, blacklist);
            proof {
                lemma_fill_compose(
                    m,
                    block,
                    |q: Point| q.0 == x && y0 <= q.1 < y && z0 <= q.2 <= z1,
                    |q: Point| q.0 == x && q.1 == y && z0 <= q.2 <= z1,
                    |q: Point| q.0 == x && y0 <= q.1 < y + 1 && z0 <= q.2 <= z1,
                    wl,
                    bl,
                );
            }
            y = y + 1;
        }
    }

    /// Applies `set_block` with the same block and lists to every position of
    /// the box spanned by the two corners, both included, in increasing x,
    /// then y, then z.
    pub fn fill_blocks(
        &mut self,
        block: Block,
        x1: i32,
        y1: i32,
        z1: i32,
        x2: i32,
        y2: i32,
        z2: i32,
        override_whitelist: Option<&[Block]>,
        override_blacklist: Option<&[Block]>,
    )
        requires
            old(self).wf(),
        ensures
            final(self).wf(),
            final(self)@ == fill_result(
                old(self)@,
                block,
                (x1 as int, y1 as int, z1 as int),
                (x2 as int, y2 as int, z2 as int),
                list_view(override_whitelist),
                list_view(override_blacklist),
            ),
    {
        let ghost m = self@;
        let ghost wl = list_view(override_whitelist);
        let ghost bl = list_view(override_blacklist);
        let (min_x, max_x) = if x1 < x2 { (x1, x2) } else { (x2, x1) };
        let (min_y, max_y) = if y1 < y2 { (y1, y2) } else { (y2, y1) };
        let (min_z, max_z) = if z1 < z2 { (z1, z2) } else { (z2, z1) };
        let mut x: i64 = min_x as i64;
        proof {
            lemma_fill_empty(
                m,
                block,
                |q: Point| min_x <= q.0 < min_x && min_y <= q.1 <= max_y && min_z <= q.2 <= max_z,
                wl,
                bl,
            );
        }
        while x <= max_x as i64
            invariant
                self.wf(),
                min_x <= x <= max_x + 1,
                min_y <= max_y,
                min_z <= max_z,
                self@ == fill_where(
                    m,
                    block,
                    |q: Point| min_x <= q.0 < x && min_y <= q.1 <= max_y && min_z <= q.2 <= max_z,
                    wl,
                    bl,
                ),
                wl == list_view(override_whitelist),
                bl == list_view(override_blacklist),
            decreases max_x + 1 - x,
        {
            self.fill_plane(block, x as i32, min_y, max_y, min_z, max_z, override_whitelist, override_blacklist);
            proof {
                lemma_fill_compose(
                    m,
                    block,
                    |q: Point| min_x <= q.0 < x && min_y <= q.1 <= max_y && min_z <= q.2 <= max_z,
                    |q: Point| q.0 == x && min_y <= q.1 <= max_y && min_z <= q.2 <= max_z,
                    |q: Point| min_x <= q.0 < x + 1 && min_y <= q.1 <= max_y && min_z <= q.2 <= max_z,
                    wl,
                    bl,
                );
            }
            x = x + 1;
        }
        proof {
            lemma_fill_same_region(
                m,
                block,
                |q: Point| min_x <= q.0 < x && min_y <= q.1 <= max_y && min_z <= q.2 <= max_z,
                |p: Point| in_box(p, (x1 as int, y1 as int, z1 as int), (x2 as int, y2 as int, z2 as int)),
                wl,
                bl,
            );
        }
    }

    /// Whether the block at `(x, y, z)` (air when nothing is recorded) is
    /// in the whitelist or in the blacklist.
    pub fn check_for_block(
        &self,
        x: i32,
        y: i32,
        z: i32,
        whitelist: Option<&[Block]>,
        blacklist: Option<&[Block]>,
    ) -> (r: bool)
        ensures
            r == matches_at(self@, (x as int, y as int, z as int), list_view(whitelist), list_view(blacklist)),
    {
        let current = match self.get_block(x, y, z) {
            Some(b) => b,
            None => Block::Air,
        };
        if let Some(w) = whitelist {
            if list_contains(w, current) {
                return true;
            }
        }
        if let Some(b) = blacklist {
            if list_contains(b, current) {
                return true;
            }
        }
        false
    }
}

} // verus!
