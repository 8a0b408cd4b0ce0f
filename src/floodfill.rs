//! Polygon fill rasterizer: the lattice cells enclosed by a closed
//! footprint, found by a flood fill from the cells next to its traced
//! outline, under a cooperative time budget.

use crate::bresenham::{bresenham_line, digital_line, view_point, view_points};
use std::collections::HashSet;
use std::time::Instant;
use vstd::arithmetic::div_mod::lemma_fundamental_div_mod_converse;
use vstd::prelude::*;

verus! {

broadcast use vstd::std_specs::hash::group_hash_axioms;

#[verifier::external_type_specification]
#[verifier::external_body]
pub struct ExInstant(std::time::Instant);

/// Relies on `Instant::now`: a reading of the monotonic clock.
#[verifier::external_body]
fn clock_start() -> Instant {
    Instant::now()
}

/// Relies on `Instant::elapsed`: the time since `start`, in whole
/// milliseconds.
#[verifier::external_body]
fn millis_since(start: &Instant) -> u128 {
    start.elapsed().as_millis()
}

/// Whether the fill must stop: a budget is given and that many milliseconds
/// have passed since `start`. A budget of zero has always passed.
fn deadline_passed(start: &Instant, timeout: Option<u64>) -> (r: bool)
    ensures
        timeout is None ==> !r,
        timeout == Some(0u64) ==> r,
{
    match timeout {
        None => false,
        Some(t) => millis_since(start) >= t as u128,
    }
}

/// Edge `i` of the closed polygon: from vertex `i` to the next one, the last
/// vertex joining the first.
pub open spec fn edge(poly: Seq<(i32, i32)>, i: int) -> ((i32, i32), (i32, i32)) {
    (poly[i], poly[(i + 1) % (poly.len() as int)])
}

/// The traced cells of edge `i`: its digital line in the x/z plane.
pub open spec fn edge_line(poly: Seq<(i32, i32)>, i: int) -> Seq<(int, int, int)> {
    let (a, b) = edge(poly, i);
    digital_line((a.0 as int, 0, a.1 as int), (b.0 as int, 0, b.1 as int))
}

/// Cell `c` is traced by edge `i`.
pub open spec fn on_edge(poly: Seq<(i32, i32)>, i: int, c: (i32, i32)) -> bool {
    exists|j: int|
        0 <= j < edge_line(poly, i).len() && #[trigger] edge_line(poly, i)[j] == (
            c.0 as int,
            0int,
            c.1 as int,
        )
}

/// Cell `c` lies on the traced outline.
pub open spec fn on_boundary(poly: Seq<(i32, i32)>, c: (i32, i32)) -> bool {
    exists|i: int| 0 <= i < poly.len() && #[trigger] on_edge(poly, i, c)
}

/// Cell `c` lies in the bounding box of the vertices.
pub open spec fn in_bbox(poly: Seq<(i32, i32)>, c: (i32, i32)) -> bool {
    &&& exists|i: int| 0 <= i < poly.len() && #[trigger] poly[i].0 <= c.0
    &&& exists|i: int| 0 <= i < poly.len() && c.0 <= #[trigger] poly[i].0
    &&& exists|i: int| 0 <= i < poly.len() && #[trigger] poly[i].1 <= c.1
    &&& exists|i: int| 0 <= i < poly.len() && c.1 <= #[trigger] poly[i].1
}

/// The fill may enter cell `c`: the polygon has at least three vertices,
/// and `c` lies in its bounding box and off its outline.
pub open spec fn fillable(poly: Seq<(i32, i32)>, c: (i32, i32)) -> bool {
    poly.len() >= 3 && in_bbox(poly, c) && !on_boundary(poly, c)
}

/// The cells are 4-neighbours.
pub open spec fn adjacent4(a: (i32, i32), b: (i32, i32)) -> bool {
    (a.0 == b.0 && (a.1 - b.1 == 1 || b.1 - a.1 == 1)) || (a.1 == b.1 && (a.0 - b.0 == 1 || b.0
        - a.0 == 1))
}

/// The horizontal ray from `c` towards +x crosses the segment `a`-`b`.
pub open spec fn crosses(a: (i32, i32), b: (i32, i32), c: (i32, i32)) -> bool {
    let (ax, az, bx, bz, cx, cz) = (a.0 as int, a.1 as int, b.0 as int, b.1 as int, c.0 as int, c.1 as int);
    ((az > cz) != (bz > cz)) && (if bz > az {
        (cx - ax) * (bz - az) < (cz - az) * (bx - ax)
    } else {
        (cx - ax) * (bz - az) > (cz - az) * (bx - ax)
    })
}

/// How many of the first `k` edges the ray from `c` crosses.
pub open spec fn crossings(poly: Seq<(i32, i32)>, c: (i32, i32), k: int) -> nat
    decreases k,
{
    if k <= 0 {
        0
    } else {
        crossings(poly, c, k - 1) + if crosses(edge(poly, k - 1).0, edge(poly, k - 1).1, c) {
            1nat
        } else {
            0nat
        }
    }
}

/// Cell `c` lies inside the polygon by the even-odd rule.
pub open spec fn inside(poly: Seq<(i32, i32)>, c: (i32, i32)) -> bool {
    crossings(poly, c, poly.len() as int) % 2 == 1
}

/// A seed of the fill: a fillable cell inside the polygon, next to a traced
/// cell.
pub open spec fn is_seed(poly: Seq<(i32, i32)>, c: (i32, i32)) -> bool {
    fillable(poly, c) && inside(poly, c) && exists|b: (i32, i32)|
        on_boundary(poly, b) && #[trigger] adjacent4(b, c)
}

/// Each cell of `r` is a seed or a neighbour of an earlier cell.
pub open spec fn grown(poly: Seq<(i32, i32)>, r: Seq<(i32, i32)>) -> bool {
    forall|i: int|
        0 <= i < r.len() ==> is_seed(poly, #[trigger] r[i]) || exists|j: int|
            0 <= j < i && #[trigger] adjacent4(r[j], r[i])
}

/// What every result of the fill is, complete or cut short: distinct
/// fillable cells, each a seed or a neighbour of an earlier one.
pub open spec fn partial_fill(poly: Seq<(i32, i32)>, r: Seq<(i32, i32)>) -> bool {
    &&& r.no_duplicates()
    &&& forall|i: int| 0 <= i < r.len() ==> fillable(poly, #[trigger] r[i])
    &&& grown(poly, r)
}

/// A complete fill: a partial fill that holds every seed and every fillable
/// neighbour of its cells.
pub open spec fn complete_fill(poly: Seq<(i32, i32)>, r: Seq<(i32, i32)>) -> bool {
    &&& partial_fill(poly, r)
    &&& forall|c: (i32, i32)| is_seed(poly, c) ==> r.contains(c)
    &&& forall|i: int, c: (i32, i32)|
        0 <= i < r.len() && #[trigger] adjacent4(r[i], c) && fillable(poly, c) ==> r.contains(c)
}

/// Two complete fills of the same polygon hold the same cells: the fill's
/// result, as a set, is a function of the polygon alone.
pub proof fn lemma_complete_fill_unique(poly: Seq<(i32, i32)>, r1: Seq<(i32, i32)>, r2: Seq<(i32, i32)>)
    requires
        complete_fill(poly, r1),
        complete_fill(poly, r2),
    ensures
        r1.to_set() == r2.to_set(),
{
    lemma_fill_within(poly, r1, r2, r1.len() as int);
    lemma_fill_within(poly, r2, r1, r2.len() as int);
    assert(r1.to_set() =~= r2.to_set());
}

/// The first `k` cells of a grown partial fill `r1` lie in every complete
/// fill `r2`.
proof fn lemma_fill_within(poly: Seq<(i32, i32)>, r1: Seq<(i32, i32)>, r2: Seq<(i32, i32)>, k: int)
    requires
        partial_fill(poly, r1),
        complete_fill(poly, r2),
        0 <= k <= r1.len(),
    ensures
        forall|i: int| 0 <= i < k ==> r2.contains(#[trigger] r1[i]),
    decreases k,
{
    if k > 0 {
        lemma_fill_within(poly, r1, r2, k - 1);
        let c = r1[k - 1];
        if !is_seed(poly, c) {
            let j = choose|j: int| 0 <= j < k - 1 && #[trigger] adjacent4(r1[j], r1[k - 1]);
            assert(r2.contains(r1[j]));
            let i2 = choose|i2: int| 0 <= i2 < r2.len() && r2[i2] == r1[j];
            assert(adjacent4(r2[i2], c));
            assert(fillable(poly, c));
        }
    }
}

/// The key under which the fill records cell `c`.
pub open spec fn cell_key(c: (i32, i32)) -> int {
    (c.0 + 0x8000_0000) * 0x1_0000_0000 + (c.1 + 0x8000_0000)
}

proof fn lemma_cell_key_injective(c: (i32, i32), d: (i32, i32))
    requires
        cell_key(c) == cell_key(d),
    ensures
        c == d,
{
    lemma_fundamental_div_mod_converse(cell_key(c), 0x1_0000_0000, c.0 + 0x8000_0000, c.1 + 0x8000_0000);
    lemma_fundamental_div_mod_converse(cell_key(d), 0x1_0000_0000, d.0 + 0x8000_0000, d.1 + 0x8000_0000);
}

fn key_of_cell(x: i32, z: i32) -> (k: u64)
    ensures
        k == cell_key((x, z)),
{
    ((x as i64 + 0x8000_0000) as u64) * 0x1_0000_0000 + ((z as i64 + 0x8000_0000) as u64)
}

/// Whether the ray from `(cx, cz)` crosses the segment `a`-`b`.
fn ray_crosses(a: (i32, i32), b: (i32, i32), cx: i32, cz: i32) -> (r: bool)
    ensures
        r == crosses(a, b, (cx, cz)),
{
    if (a.1 > cz) == (b.1 > cz) {
        return false;
    }
    let d1: i128 = cx as i128 - a.0 as i128;
    let d2: i128 = b.1 as i128 - a.1 as i128;
    let d3: i128 = cz as i128 - a.1 as i128;
    let d4: i128 = b.0 as i128 - a.0 as i128;
    assert(-0x1_0000_0000 * 0x1_0000_0000 <= d1 * d2 <= 0x1_0000_0000 * 0x1_0000_0000) by (nonlinear_arith)
        requires
            -0x1_0000_0000 <= d1 <= 0x1_0000_0000,
            -0x1_0000_0000 <= d2 <= 0x1_0000_0000,
    ;
    assert(-0x1_0000_0000 * 0x1_0000_0000 <= d3 * d4 <= 0x1_0000_0000 * 0x1_0000_0000) by (nonlinear_arith)
        requires
            -0x1_0000_0000 <= d3 <= 0x1_0000_0000,
            -0x1_0000_0000 <= d4 <= 0x1_0000_0000,
    ;
    let lhs: i128 = d1 * d2;
    let rhs: i128 = d3 * d4;
    if b.1 > a.1 {
        lhs < rhs
    } else {
        lhs > rhs
    }
}

/// Whether cell `(x, z)` lies inside the polygon by the even-odd rule.
pub fn point_in_polygon(poly: &Vec<(i32, i32)>, x: i32, z: i32) -> (r: bool)
    ensures
        r == inside(poly@, (x, z)),
{
    let n = poly.len();
    if n == 0 {
        return false;
    }
    let mut odd = false;
    let mut i: usize = 0;
    while i < n
        invariant
            n == poly@.len(),
            n >= 1,
            i <= n,
            odd == (crossings(poly@, (x, z), i as int) % 2 == 1),
        decreases n - i,
    {
        let next = if i + 1 == n { 0 } else { i + 1 };
        proof {
            if i + 1 == n {
                lemma_fundamental_div_mod_converse((i + 1) as int, n as int, 1, 0);
            } else {
                lemma_fundamental_div_mod_converse((i + 1) as int, n as int, 0, (i + 1) as int);
            }
        }
        assert(edge(poly@, i as int) == (poly@[i as int], poly@[next as int]));
        if ray_crosses(poly[i], poly[next], x, z) {
            odd = !odd;
        }
        i = i + 1;
    }
    odd
}

/// The x and z extent of the vertices.
fn bounding_box(poly: &Vec<(i32, i32)>) -> (r: (i32, i32, i32, i32))
    requires
        poly@.len() >= 1,
    ensures
        forall|c: (i32, i32)|
            in_bbox(poly@, c) <==> (r.0 <= c.0 <= r.1 && r.2 <= c.1 <= r.3),
{
    let mut min_x = poly[0].0;
    let mut max_x = poly[0].0;
    let mut min_z = poly[0].1;
    let mut max_z = poly[0].1;
    let mut i: usize = 1;
    while i < poly.len()
        invariant
            1 <= i <= poly@.len(),
            exists|j: int| 0 <= j < i && poly@[j].0 == min_x,
            exists|j: int| 0 <= j < i && poly@[j].0 == max_x,
            exists|j: int| 0 <= j < i && poly@[j].1 == min_z,
            exists|j: int| 0 <= j < i && poly@[j].1 == max_z,
            forall|j: int| 0 <= j < i ==> min_x <= #[trigger] poly@[j].0 <= max_x,
            forall|j: int| 0 <= j < i ==> min_z <= #[trigger] poly@[j].1 <= max_z,
        decreases poly@.len() - i,
    {
        let (x, z) = poly[i];
        if x < min_x {
            min_x = x;
        }
        if x > max_x {
            max_x = x;
        }
        if z < min_z {
            min_z = z;
        }
        if z > max_z {
            max_z = z;
        }
        i = i + 1;
    }
    (min_x, max_x, min_z, max_z)
}

/// The polygon's facts that the fill reads, computed once.
struct Outline {
    min_x: i32,
    max_x: i32,
    min_z: i32,
    max_z: i32,
    traced: HashSet<u64>,
}

impl Outline {
    spec fn matches(&self, poly: Seq<(i32, i32)>) -> bool {
        &&& forall|c: (i32, i32)|
            in_bbox(poly, c) <==> (self.min_x <= c.0 <= self.max_x && self.min_z <= c.1 <= self.max_z)
        &&& forall|c: (i32, i32)| #[trigger] self.traced@.contains(cell_key(c) as u64) <==> on_boundary(poly, c)
    }

    /// Whether the fill may enter `(x, z)`, for coordinates that may have
    /// stepped out of `i32`.
    fn may_enter(&self, x: i64, z: i64, Ghost(poly): Ghost<Seq<(i32, i32)>>) -> (r: bool)
        requires
            self.matches(poly),
            poly.len() >= 3,
        ensures
            r ==> i32::MIN <= x <= i32::MAX && i32::MIN <= z <= i32::MAX,
            r <==> (i32::MIN <= x <= i32::MAX && i32::MIN <= z <= i32::MAX && fillable(
                poly,
                (x as i32, z as i32),
            )),
    {
        if x < self.min_x as i64 || x > self.max_x as i64 || z < self.min_z as i64 || z > self.max_z as i64 {
            return false;
        }
        let k = key_of_cell(x as i32, z as i32);
        assert(self.traced@.contains(cell_key((x as i32, z as i32)) as u64) == self.traced@.contains(k));
        !self.traced.contains(&k)
    }
}

/// Traces the outline: the digital lines of all edges, as a set of cell
/// keys.
fn trace_outline(poly: &Vec<(i32, i32)>) -> (r: HashSet<u64>)
    requires
        poly@.len() >= 3,
    ensures
        forall|c: (i32, i32)| #[trigger] r@.contains(cell_key(c) as u64) <==> on_boundary(poly@, c),
{
    let n = poly.len();
    let mut traced: HashSet<u64> = HashSet::new();
    let mut i: usize = 0;
    while i < n
        invariant
            n == poly@.len(),
            n >= 3,
            i <= n,
            forall|k: u64| #[trigger] traced@.contains(k) ==> exists|c: (i32, i32)| cell_key(c) == k,
            forall|c: (i32, i32)|
                #[trigger] traced@.contains(cell_key(c) as u64) <==> exists|e: int|
                    0 <= e < i && #[trigger] on_edge(poly@, e, c),
        decreases n - i,
    {
        let next = if i + 1 == n { 0 } else { i + 1 };
        proof {
            if i + 1 == n {
                lemma_fundamental_div_mod_converse((i + 1) as int, n as int, 1, 0);
            } else {
                lemma_fundamental_div_mod_converse((i + 1) as int, n as int, 0, (i + 1) as int);
            }
        }
        let (ax, az) = poly[i];
        let (bx, bz) = poly[next];
        let line = bresenham_line(ax, 0, az, bx, 0, bz);
        assert(view_points(line@) == edge_line(poly@, i as int));
        let ghost before = traced@;
        let mut j: usize = 0;
        while j < line.len()
            invariant
                n == poly@.len(),
                i < n,
                j <= line@.len(),
                view_points(line@) == edge_line(poly@, i as int),
                forall|k: u64| #[trigger] traced@.contains(k) ==> exists|c: (i32, i32)| cell_key(c) == k,
                forall|c: (i32, i32)|
                    #[trigger] traced@.contains(cell_key(c) as u64) <==> (before.contains(
                        cell_key(c) as u64,
                    ) || exists|jj: int|
                        0 <= jj < j && #[trigger] edge_line(poly@, i as int)[jj] == (
                            c.0 as int,
                            0int,
                            c.1 as int,
                        )),
            decreases line@.len() - j,
        {
            let (px, py, pz) = line[j];
            assert(edge_line(poly@, i as int)[j as int] == view_point(line@[j as int]));
            assert(py == 0) by {
                crate::bresenham::lemma_digital_line_shape(
                    (poly@[i as int].0 as int, 0, poly@[i as int].1 as int),
                    (edge(poly@, i as int).1.0 as int, 0, edge(poly@, i as int).1.1 as int),
                );
                assert(crate::bresenham::between(0, edge_line(poly@, i as int)[j as int].1, 0));
            }
            let k = key_of_cell(px, pz);
            traced.insert(k);
            proof {
                assert forall|c: (i32, i32)| #[trigger] traced@.contains(cell_key(c) as u64) <==> (
                before.contains(cell_key(c) as u64) || exists|jj: int|
                    0 <= jj < j + 1 && #[trigger] edge_line(poly@, i as int)[jj] == (
                        c.0 as int,
                        0int,
                        c.1 as int,
                    )) by {
                    if cell_key(c) as u64 == k {
                        lemma_cell_key_injective(c, (px, pz));
                        assert(edge_line(poly@, i as int)[j as int] == (c.0 as int, 0int, c.1 as int));
                    } else {
                        if exists|jj: int|
                            0 <= jj < j + 1 && #[trigger] edge_line(poly@, i as int)[jj] == (
                                c.0 as int,
                                0int,
                                c.1 as int,
                            ) {
                            let jj = choose|jj: int|
                                0 <= jj < j + 1 && #[trigger] edge_line(poly@, i as int)[jj] == (
                                    c.0 as int,
                                    0int,
                                    c.1 as int,
                                );
                            if jj == j {
                                assert((c.0, c.1) == (px, pz));
                            }
                        }
                    }
                }
            }
            j = j + 1;
        }
        proof {
            assert forall|c: (i32, i32)| #[trigger] traced@.contains(cell_key(c) as u64) <==> exists|e: int|
                0 <= e < i + 1 && #[trigger] on_edge(poly@, e, c) by {
                if on_edge(poly@, i as int, c) {
                    let jj = choose|jj: int|
                        0 <= jj < edge_line(poly@, i as int).len() && #[trigger] edge_line(poly@, i as int)[jj]
                            == (c.0 as int, 0int, c.1 as int);
                    assert(traced@.contains(cell_key(c) as u64));
                }
            }
        }
        i = i + 1;
    }
    proof {
        assert forall|c: (i32, i32)| #[trigger] traced@.contains(cell_key(c) as u64) <==> on_boundary(poly@, c) by {
            if traced@.contains(cell_key(c) as u64) {
                let e = choose|e: int| 0 <= e < n && #[trigger] on_edge(poly@, e, c);
                assert(on_edge(poly@, e, c));
            }
        }
    }
    traced
}

/// Some traced cell of edge `e` is a 4-neighbour of `c`.
pub open spec fn near_edge(poly: Seq<(i32, i32)>, e: int, c: (i32, i32)) -> bool {
    exists|b: (i32, i32)| #[trigger] on_edge(poly, e, b) && adjacent4(b, c)
}

/// The cell set of `filled` and the keys in `visited` agree.
spec fn tracks(visited: Set<u64>, filled: Seq<(i32, i32)>) -> bool {
    forall|c: (i32, i32)| #[trigger] visited.contains(cell_key(c) as u64) <==> filled.contains(c)
}

/// Adds cell `(x, z)` to the fill if the fill may enter it, has not reached
/// it yet and, when `seed` is set, it lies inside the polygon.
fn try_add(
    poly: &Vec<(i32, i32)>,
    outline: &Outline,
    filled: &mut Vec<(i32, i32)>,
    visited: &mut HashSet<u64>,
    x: i64,
    z: i64,
    seed: bool,
)
    requires
        poly@.len() >= 3,
        outline.matches(poly@),
        partial_fill(poly@, old(filled)@),
        tracks(old(visited)@, old(filled)@),
        i32::MIN <= x <= i32::MAX && i32::MIN <= z <= i32::MAX ==> {
            let c = (x as i32, z as i32);
            &&& seed ==> exists|b: (i32, i32)| on_boundary(poly@, b) && #[trigger] adjacent4(b, c)
            &&& !seed ==> exists|j: int| 0 <= j < old(filled)@.len() && #[trigger] adjacent4(old(filled)@[j], c)
        },
    ensures
        partial_fill(poly@, final(filled)@),
        tracks(final(visited)@, final(filled)@),
        final(filled)@ == old(filled)@ || (i32::MIN <= x <= i32::MAX && i32::MIN <= z <= i32::MAX
            && final(filled)@ == old(filled)@.push((x as i32, z as i32))),
        i32::MIN <= x <= i32::MAX && i32::MIN <= z <= i32::MAX && fillable(poly@, (x as i32, z as i32))
            && (seed ==> inside(poly@, (x as i32, z as i32))) ==> final(filled)@.contains(
            (x as i32, z as i32),
        ),
{
    if !outline.may_enter(x, z, Ghost(poly@)) {
        return;
    }
    let c = (x as i32, z as i32);
    let k = key_of_cell(c.0, c.1);
    assert(visited@.contains(cell_key(c) as u64) == visited@.contains(k));
    if visited.contains(&k) {
        return;
    }
    if seed && !point_in_polygon(poly, c.0, c.1) {
        return;
    }
    let ghost before = filled@;
    visited.insert(k);
    filled.push(c);
    proof {
        assert forall|d: (i32, i32)| #[trigger] visited@.contains(cell_key(d) as u64) <==> filled@.contains(d) by {
            if cell_key(d) as u64 == k {
                lemma_cell_key_injective(c, d);
                assert(filled@[before.len() as int] == c);
            } else {
                if filled@.contains(d) {
                    let i = choose|i: int| 0 <= i < filled@.len() && filled@[i] == d;
                    if i < before.len() {
                        assert(before[i] == d);
                    }
                }
                assert(before.contains(d) ==> filled@.contains(d)) by {
                    if before.contains(d) {
                        let i = choose|i: int| 0 <= i < before.len() && before[i] == d;
                        assert(filled@[i] == d);
                    }
                }
            }
        }
        assert(!before.contains(c));
        assert forall|i: int| 0 <= i < filled@.len() implies is_seed(poly@, #[trigger] filled@[i]) || exists|j: int|
            0 <= j < i && #[trigger] adjacent4(filled@[j], filled@[i]) by {
            if i < before.len() {
                assert(filled@[i] == before[i]);
                if !is_seed(poly@, before[i]) {
                    let j = choose|j: int| 0 <= j < i && #[trigger] adjacent4(before[j], before[i]);
                    assert(filled@[j] == before[j]);
                }
            } else if !seed {
                let j = choose|j: int| 0 <= j < before.len() && #[trigger] adjacent4(before[j], c);
                assert(filled@[j] == before[j]);
            }
        }
        assert(filled@[before.len() as int] == c);
    }
}

/// A sequence that stayed the same or grew by one keeps its earlier cells.
proof fn lemma_grows(s: Seq<(i32, i32)>, t: Seq<(i32, i32)>)
    requires
        t == s || exists|d: (i32, i32)| t == s.push(d),
    ensures
        s.len() <= t.len(),
        forall|k: int| 0 <= k < s.len() ==> t[k] == s[k],
        forall|c: (i32, i32)| s.contains(c) ==> t.contains(c),
{
    if t != s {
        let d = choose|d: (i32, i32)| t == s.push(d);
        assert forall|c: (i32, i32)| s.contains(c) implies t.contains(c) by {
            let k = choose|k: int| 0 <= k < s.len() && s[k] == c;
            assert(t[k] == c);
        }
    }
}

/// Adds the fillable 4-neighbours of cell `head` of the fill.
fn expand_cell(
    poly: &Vec<(i32, i32)>,
    outline: &Outline,
    filled: &mut Vec<(i32, i32)>,
    visited: &mut HashSet<u64>,
    head: usize,
)
    requires
        poly@.len() >= 3,
        outline.matches(poly@),
        partial_fill(poly@, old(filled)@),
        tracks(old(visited)@, old(filled)@),
        head < old(filled)@.len(),
    ensures
        partial_fill(poly@, final(filled)@),
        tracks(final(visited)@, final(filled)@),
        old(filled)@.len() <= final(filled)@.len(),
        forall|k: int| 0 <= k < old(filled)@.len() ==> final(filled)@[k] == old(filled)@[k],
        forall|c: (i32, i32)| old(filled)@.contains(c) ==> final(filled)@.contains(c),
        forall|c: (i32, i32)|
            #[trigger] adjacent4(old(filled)@[head as int], c) && fillable(poly@, c) ==> final(filled)@.contains(c),
{
    let (x, z) = filled[head];
    let ghost f0 = filled@;
    proof {
        if i32::MIN <= x as int - 1 <= i32::MAX {
            assert(filled@[head as int] == (x, z));
            assert(adjacent4(filled@[head as int], ((x as int - 1) as i32, z)));
        }
    }
    try_add(poly, outline, filled, visited, x as i64 - 1, z as i64, false);
    let ghost f1 = filled@;
    proof {
        lemma_grows(f0, f1);
    }
    proof {
        if i32::MIN <= x as int + 1 <= i32::MAX {
            assert(filled@[head as int] == (x, z));
            assert(adjacent4(filled@[head as int], ((x as int + 1) as i32, z)));
        }
    }
    try_add(poly, outline, filled, visited, x as i64 + 1, z as i64, false);
    let ghost f2 = filled@;
    proof {
        lemma_grows(f1, f2);
    }
    proof {
        if i32::MIN <= z as int - 1 <= i32::MAX {
            assert(filled@[head as int] == (x, z));
            assert(adjacent4(filled@[head as int], (x, (z as int - 1) as i32)));
        }
    }
    try_add(poly, outline, filled, visited, x as i64, z as i64 - 1, false);
    let ghost f3 = filled@;
    proof {
        lemma_grows(f2, f3);
    }
    proof {
        if i32::MIN <= z as int + 1 <= i32::MAX {
            assert(filled@[head as int] == (x, z));
            assert(adjacent4(filled@[head as int], (x, (z as int + 1) as i32)));
        }
    }
    try_add(poly, outline, filled, visited, x as i64, z as i64 + 1, false);
    proof {
        let f4 = filled@;
        lemma_grows(f3, f4);
        lemma_grows_chain(f0, f1, f2, f3, f4);
        assert forall|c: (i32, i32)| #[trigger] adjacent4(f0[head as int], c) && fillable(poly@, c) implies f4.contains(c) by {
            if c.0 == x - 1 && c.1 == z {
                assert(f1.contains(c));
            } else if c.0 == x + 1 && c.1 == z {
                assert(f2.contains(c));
            } else if c.0 == x && c.1 == z - 1 {
                assert(f3.contains(c));
            }
        }
    }
}

/// Growth by steps of at most one cell keeps earlier cells.
proof fn lemma_grows_chain(
    f0: Seq<(i32, i32)>,
    f1: Seq<(i32, i32)>,
    f2: Seq<(i32, i32)>,
    f3: Seq<(i32, i32)>,
    f4: Seq<(i32, i32)>,
)
    requires
        f0.len() <= f1.len() && forall|k: int| 0 <= k < f0.len() ==> f1[k] == f0[k],
        f1.len() <= f2.len() && forall|k: int| 0 <= k < f1.len() ==> f2[k] == f1[k],
        f2.len() <= f3.len() && forall|k: int| 0 <= k < f2.len() ==> f3[k] == f2[k],
        f3.len() <= f4.len() && forall|k: int| 0 <= k < f3.len() ==> f4[k] == f3[k],
        forall|c: (i32, i32)| f0.contains(c) ==> f1.contains(c),
        forall|c: (i32, i32)| f1.contains(c) ==> f2.contains(c),
        forall|c: (i32, i32)| f2.contains(c) ==> f3.contains(c),
        forall|c: (i32, i32)| f3.contains(c) ==> f4.contains(c),
    ensures
        f0.len() <= f4.len(),
        forall|k: int| 0 <= k < f0.len() ==> f4[k] == f0[k],
        forall|c: (i32, i32)| f0.contains(c) ==> f4.contains(c),
{
}

/// Under `partial_fill`, the fill holds at most as many cells as its
/// bounding box.
proof fn lemma_fill_bounded(poly: Seq<(i32, i32)>, outline: &Outline, r: Seq<(i32, i32)>)
    requires
        partial_fill(poly, r),
        outline.matches(poly),
        outline.min_x <= outline.max_x,
        outline.min_z <= outline.max_z,
    ensures
        r.len() <= (outline.max_x - outline.min_x + 1) * (outline.max_z - outline.min_z + 1),
{
    let h = outline.max_z - outline.min_z + 1;
    let w = outline.max_x - outline.min_x + 1;
    let f = |c: (i32, i32)| (c.0 - outline.min_x) * h + (c.1 - outline.min_z);
    let s = r.map_values(f);
    assert forall|i: int, j: int| 0 <= i < s.len() && 0 <= j < s.len() && i != j implies s[i] != s[j] by {
        let a = r[i];
        let b = r[j];
        assert(fillable(poly, a) && fillable(poly, b));
        assert(a != b);
        let (ai, ak) = (a.0 - outline.min_x, a.1 - outline.min_z);
        let (bi, bk) = (b.0 - outline.min_x, b.1 - outline.min_z);
        if s[i] == s[j] {
            lemma_fundamental_div_mod_converse(s[i], h, ai, ak);
            lemma_fundamental_div_mod_converse(s[i], h, bi, bk);
        }
    }
    assert(s.no_duplicates());
    let range = vstd::set_lib::set_int_range(0, w * h);
    assert forall|v: int| s.to_set().contains(v) implies range.contains(v) by {
        let i = choose|i: int| 0 <= i < s.len() && s[i] == v;
        let a = r[i];
        assert(fillable(poly, a));
        let (ai, ak) = (a.0 - outline.min_x, a.1 - outline.min_z);
        assert(0 <= ai < w && 0 <= ak < h);
        assert(0 <= ai * h + ak < w * h) by (nonlinear_arith)
            requires
                0 <= ai < w,
                0 <= ak < h,
        ;
    }
    vstd::set_lib::lemma_int_range(0, w * h);
    s.unique_seq_to_set();
    vstd::set_lib::lemma_len_subset(s.to_set(), range);
}

/// The cells enclosed by the closed polygon `polygon_coords` (the last vertex
/// joins the first): a flood fill over 4-neighbours, seeded by the cells
/// inside the polygon next to its traced outline, that stays within the
/// bounding box and never enters a traced cell. With a budget of `timeout`
/// milliseconds the fill stops once the budget is spent and returns the
/// cells found so far; a budget of zero returns no cell.
pub fn flood_fill_area(polygon_coords: &Vec<(i32, i32)>, timeout: Option<u64>) -> (r: Vec<(i32, i32)>)
    ensures
        partial_fill(polygon_coords@, r@),
        timeout is None ==> complete_fill(polygon_coords@, r@),
        timeout == Some(0u64) ==> r@.len() == 0,
{
    let ghost poly = polygon_coords@;
    let mut filled: Vec<(i32, i32)> = Vec::new();
    let n = polygon_coords.len();
    if n < 3 {
        return filled;
    }
    let start = clock_start();
    let (min_x, max_x, min_z, max_z) = bounding_box(polygon_coords);
    let traced = trace_outline(polygon_coords);
    let outline = Outline { min_x, max_x, min_z, max_z, traced };
    let mut visited: HashSet<u64> = HashSet::new();
    proof {
        let v = poly[0];
        assert(poly.len() >= 3);
        assert(poly[0].0 <= v.0 && v.0 <= poly[0].0 && poly[0].1 <= v.1 && v.1 <= poly[0].1);
        assert(in_bbox(poly, v));
        assert(min_x <= max_x && min_z <= max_z);
    }
    let mut i: usize = 0;
    while i < n
        invariant
            n == poly.len(),
            poly == polygon_coords@,
            n >= 3,
            i <= n,
            outline.matches(poly),
            partial_fill(poly, filled@),
            tracks(visited@, filled@),
            timeout == Some(0u64) ==> filled@.len() == 0 && i == 0,
            forall|c: (i32, i32)|
                is_seed(poly, c) && (exists|e: int| 0 <= e < i && #[trigger] near_edge(poly, e, c))
                    ==> filled@.contains(c),
        decreases n - i,
    {
        if deadline_passed(&start, timeout) {
            return filled;
        }
        let next = if i + 1 == n { 0 } else { i + 1 };
        proof {
            if i + 1 == n {
                lemma_fundamental_div_mod_converse((i + 1) as int, n as int, 1, 0);
            } else {
                lemma_fundamental_div_mod_converse((i + 1) as int, n as int, 0, (i + 1) as int);
            }
        }
        let (ax, az) = polygon_coords[i];
        let (bx, bz) = polygon_coords[next];
        let line = bresenham_line(ax, 0, az, bx, 0, bz);
        assert(view_points(line@) == edge_line(poly, i as int));
        let mut j: usize = 0;
        while j < line.len()
            invariant
                n == poly.len(),
                poly == polygon_coords@,
                n >= 3,
                i < n,
                j <= line@.len(),
                view_points(line@) == edge_line(poly, i as int),
                outline.matches(poly),
                partial_fill(poly, filled@),
                tracks(visited@, filled@),
                timeout != Some(0u64),
                forall|c: (i32, i32)|
                    is_seed(poly, c) && (exists|e: int| 0 <= e < i && #[trigger] near_edge(poly, e, c))
                        ==> filled@.contains(c),
                forall|jj: int, c: (i32, i32)|
                    0 <= jj < j && is_seed(poly, c) && #[trigger] adjacent4(
                        (line@[jj].0, line@[jj].2),
                        c,
                    ) ==> filled@.contains(c),
            decreases line@.len() - j,
        {
            let (px, py, pz) = line[j];
            let ghost b = (px, pz);
            proof {
                assert(edge_line(poly, i as int)[j as int] == view_point(line@[j as int]));
                crate::bresenham::lemma_digital_line_shape(
                    (poly[i as int].0 as int, 0, poly[i as int].1 as int),
                    (edge(poly, i as int).1.0 as int, 0, edge(poly, i as int).1.1 as int),
                );
                assert(crate::bresenham::between(0, edge_line(poly, i as int)[j as int].1, 0));
                assert(on_edge(poly, i as int, b));
                assert(on_boundary(poly, b));
            }
            let ghost f0 = filled@;
            proof {
                if i32::MIN <= px as int - 1 <= i32::MAX {
                    assert(adjacent4(b, ((px as int - 1) as i32, pz)));
                }
            }
            try_add(polygon_coords, &outline, &mut filled, &mut visited, px as i64 - 1, pz as i64, true);
            let ghost f1 = filled@;
            proof {
                if i32::MIN <= px as int + 1 <= i32::MAX {
                    assert(adjacent4(b, ((px as int + 1) as i32, pz)));
                }
            }
            try_add(polygon_coords, &outline, &mut filled, &mut visited, px as i64 + 1, pz as i64, true);
            let ghost f2 = filled@;
            proof {
                if i32::MIN <= pz as int - 1 <= i32::MAX {
                    assert(adjacent4(b, (px, (pz as int - 1) as i32)));
                }
            }
            try_add(polygon_coords, &outline, &mut filled, &mut visited, px as i64, pz as i64 - 1, true);
            let ghost f3 = filled@;
            proof {
                if i32::MIN <= pz as int + 1 <= i32::MAX {
                    assert(adjacent4(b, (px, (pz as int + 1) as i32)));
                }
            }
            try_add(polygon_coords, &outline, &mut filled, &mut visited, px as i64, pz as i64 + 1, true);
            proof {
                let f4 = filled@;
                lemma_grows(f0, f1);
                lemma_grows(f1, f2);
                lemma_grows(f2, f3);
                lemma_grows(f3, f4);
                assert forall|jj: int, c: (i32, i32)|
                    0 <= jj < j + 1 && is_seed(poly, c) && #[trigger] adjacent4(
                        (line@[jj].0, line@[jj].2),
                        c,
                    ) implies filled@.contains(c) by {
                    if jj == j {
                        assert(adjacent4(b, c));
                    }
                }
            }
            j = j + 1;
        }
        proof {
            assert forall|c: (i32, i32)|
                is_seed(poly, c) && (exists|e: int| 0 <= e < i + 1 && #[trigger] near_edge(poly, e, c))
                    implies filled@.contains(c) by {
                let e = choose|e: int| 0 <= e < i + 1 && #[trigger] near_edge(poly, e, c);
                if e == i {
                    let b = choose|b: (i32, i32)| #[trigger] on_edge(poly, e, b) && adjacent4(b, c);
                    let jj = choose|jj: int|
                        0 <= jj < edge_line(poly, e).len() && #[trigger] edge_line(poly, e)[jj] == (
                            b.0 as int,
                            0int,
                            b.1 as int,
                        );
                    assert(view_point(line@[jj]) == edge_line(poly, e)[jj]);
                    assert((line@[jj].0, line@[jj].2) == b);
                }
            }
        }
        i = i + 1;
    }
    proof {
        assert forall|c: (i32, i32)| is_seed(poly, c) implies filled@.contains(c) by {
            let b = choose|b: (i32, i32)| on_boundary(poly, b) && #[trigger] adjacent4(b, c);
            let e = choose|e: int| 0 <= e < poly.len() && #[trigger] on_edge(poly, e, b);
            assert(near_edge(poly, e, c));
        }
        assert(min_x <= max_x && min_z <= max_z);
    }
    let ghost area = (max_x - min_x + 1) * (max_z - min_z + 1);
    let mut head: usize = 0;
    while head < filled.len()
        invariant
            poly == polygon_coords@,
            poly.len() >= 3,
            outline.matches(poly),
            outline.min_x <= outline.max_x,
            outline.min_z <= outline.max_z,
            area == (outline.max_x - outline.min_x + 1) * (outline.max_z - outline.min_z + 1),
            partial_fill(poly, filled@),
            tracks(visited@, filled@),
            head <= filled@.len(),
            timeout != Some(0u64),
            forall|c: (i32, i32)| is_seed(poly, c) ==> filled@.contains(c),
            forall|k: int, c: (i32, i32)|
                0 <= k < head && #[trigger] adjacent4(filled@[k], c) && fillable(poly, c) ==> filled@.contains(c),
        decreases area - head,
    {
        proof {
            lemma_fill_bounded(poly, &outline, filled@);
        }
        if head % 256 == 0 && deadline_passed(&start, timeout) {
            return filled;
        }
        let ghost f0 = filled@;
        expand_cell(polygon_coords, &outline, &mut filled, &mut visited, head);
        proof {
            let f4 = filled@;
            assert forall|k: int, c: (i32, i32)|
                0 <= k < head + 1 && #[trigger] adjacent4(f4[k], c) && fillable(poly, c) implies f4.contains(c) by {
                assert(f0[k] == f4[k]);
                if k < head {
                    assert(f0.contains(c));
                }
            }
        }
        head = head + 1;
    }
    filled
}

} // verus!
