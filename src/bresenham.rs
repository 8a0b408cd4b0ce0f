//! Line rasterizer: the integer digital line between two lattice points,
//! generalized to three dimensions.

use vstd::arithmetic::div_mod::lemma_fundamental_div_mod_converse;
use vstd::prelude::*;

verus! {

/// A lattice position in spec code.
pub type Point = (int, int, int);

/// The absolute value of `v`.
pub open spec fn abs(v: int) -> int {
    if v < 0 {
        -v
    } else {
        v
    }
}

/// The sign of `v`: 1, 0 or -1.
pub open spec fn sgn(v: int) -> int {
    if v > 0 {
        1
    } else if v < 0 {
        -1
    } else {
        0
    }
}

/// The number of steps of the line between `p` and `q`: the greatest
/// absolute delta over the three axes.
pub open spec fn line_steps(p: Point, q: Point) -> int {
    let ax = abs(q.0 - p.0);
    let ay = abs(q.1 - p.1);
    let az = abs(q.2 - p.2);
    if ax >= ay && ax >= az {
        ax
    } else if ay >= az {
        ay
    } else {
        az
    }
}

/// How far an axis with absolute delta `a` has moved after `i` of `m` steps:
/// `i * a / m` rounded to the nearest integer, halves rounded up. On the
/// dominant axis (`a == m`) this is `i` itself.
pub open spec fn axis_offset(i: int, a: int, m: int) -> int {
    if m == 0 {
        0
    } else {
        (2 * i * a + m) / (2 * m)
    }
}

/// Point `i` of the digital line from `p` to `q`.
pub open spec fn line_point(p: Point, q: Point, i: int) -> Point {
    let m = line_steps(p, q);
    (
        p.0 + sgn(q.0 - p.0) * axis_offset(i, abs(q.0 - p.0), m),
        p.1 + sgn(q.1 - p.1) * axis_offset(i, abs(q.1 - p.1), m),
        p.2 + sgn(q.2 - p.2) * axis_offset(i, abs(q.2 - p.2), m),
    )
}

/// The whole digital line from `p` to `q`, both ends included.
pub open spec fn digital_line(p: Point, q: Point) -> Seq<Point> {
    Seq::new((line_steps(p, q) + 1) as nat, |i: int| line_point(p, q, i))
}

/// Two points are neighbours (or equal): no axis differs by more than one.
pub open spec fn touching(a: Point, b: Point) -> bool {
    abs(a.0 - b.0) <= 1 && abs(a.1 - b.1) <= 1 && abs(a.2 - b.2) <= 1
}

/// `v` lies between `lo` and `hi`, in either order.
pub open spec fn between(lo: int, v: int, hi: int) -> bool {
    (lo <= v && v <= hi) || (hi <= v && v <= lo)
}

/// A lattice point of `i32` coordinates in spec form.
pub open spec fn view_point(t: (i32, i32, i32)) -> Point {
    (t.0 as int, t.1 as int, t.2 as int)
}

/// A sequence of lattice points in spec form.
pub open spec fn view_points(s: Seq<(i32, i32, i32)>) -> Seq<Point> {
    s.map_values(|t: (i32, i32, i32)| view_point(t))
}

/// The offset of an axis is the rounded value it is meant to be.
proof fn lemma_offset_bounds(i: int, a: int, m: int)
    requires
        0 <= a <= m,
        0 < m,
        0 <= i,
    ensures
        2 * m * axis_offset(i, a, m) <= 2 * i * a + m < 2 * m * axis_offset(i, a, m) + 2 * m,
        0 <= axis_offset(i, a, m),
        i <= m ==> axis_offset(i, a, m) <= a,
        axis_offset(i, a, m) <= axis_offset(i + 1, a, m) <= axis_offset(i, a, m) + 1,
        axis_offset(0, a, m) == 0,
        axis_offset(m, a, m) == a,
{
    let n = 2 * i * a + m;
    let d = 2 * m;
    let s = n / d;
    assert(n == d * s + n % d) by {
        vstd::arithmetic::div_mod::lemma_fundamental_div_mod(n, d);
    }
    assert(0 <= n % d < d) by {
        vstd::arithmetic::div_mod::lemma_mod_bound(n, d);
    }
    assert(0 <= 2 * i * a) by (nonlinear_arith)
        requires
            0 <= i,
            0 <= a,
    ;
    assert(0 <= s) by (nonlinear_arith)
        requires
            n == d * s + n % d,
            n % d < d,
            0 <= n,
            0 < d,
    ;
    let n1 = 2 * (i + 1) * a + m;
    let s1 = n1 / d;
    assert(n1 == d * s1 + n1 % d) by {
        vstd::arithmetic::div_mod::lemma_fundamental_div_mod(n1, d);
    }
    assert(0 <= n1 % d < d) by {
        vstd::arithmetic::div_mod::lemma_mod_bound(n1, d);
    }
    assert(n1 == n + 2 * a) by (nonlinear_arith)
        requires
            n1 == 2 * (i + 1) * a + m,
            n == 2 * i * a + m,
    ;
    assert(s <= s1 <= s + 1) by (nonlinear_arith)
        requires
            n == d * s + n % d,
            0 <= n % d < d,
            n1 == d * s1 + n1 % d,
            0 <= n1 % d < d,
            n1 == n + 2 * a,
            0 <= 2 * a <= d,
    ;
    if i <= m {
        assert(s <= a) by (nonlinear_arith)
            requires
                n == d * s + n % d,
                0 <= n % d,
                n == 2 * i * a + m,
                i <= m,
                0 <= a,
                d == 2 * m,
                0 < m,
        ;
    }
    assert(d * s == 2 * m * s) by (nonlinear_arith)
        requires
            d == 2 * m,
    ;
    lemma_fundamental_div_mod_converse(m, 2 * m, 0, m);
    assert(2 * 0 * a + m == m) by (nonlinear_arith);
    assert(2 * m * a + m == a * (2 * m) + m) by (nonlinear_arith);
    lemma_fundamental_div_mod_converse(2 * m * a + m, 2 * m, a, m);
}

/// A step of at most one, scaled by a sign, is still a step of at most one.
proof fn lemma_signed_step(g: int, o0: int, o1: int)
    requires
        g == 1 || g == 0 || g == -1,
        o0 <= o1 <= o0 + 1,
    ensures
        abs(g * o1 - g * o0) <= 1,
{
    if g == 1 {
    } else if g == 0 {
    } else {
        assert(g * o1 - g * o0 == o0 - o1);
    }
}

/// Moving from `s` by `o` towards `t`, no further than `t`, stays between them.
proof fn lemma_signed_between(s: int, t: int, o: int)
    requires
        0 <= o <= abs(t - s),
    ensures
        between(s, s + sgn(t - s) * o, t),
{
    if t - s < 0 {
        assert(sgn(t - s) * o == -o);
    } else if t - s == 0 {
        assert(sgn(t - s) * o == 0);
    }
}

/// The digital line starts at `p`, ends at `q`, and each step moves every
/// axis by at most one, towards `q`.
pub proof fn lemma_digital_line_shape(p: Point, q: Point)
    ensures
        digital_line(p, q).len() == line_steps(p, q) + 1,
        digital_line(p, q)[0] == p,
        digital_line(p, q).last() == q,
        forall|i: int|
            0 <= i < line_steps(p, q) ==> #[trigger] touching(
                digital_line(p, q)[i],
                digital_line(p, q)[i + 1],
            ),
        forall|i: int|
            0 <= i <= line_steps(p, q) ==> between(p.0, #[trigger] digital_line(p, q)[i].0, q.0)
                && between(p.1, digital_line(p, q)[i].1, q.1) && between(
                p.2,
                digital_line(p, q)[i].2,
                q.2,
            ),
{
    let m = line_steps(p, q);
    let l = digital_line(p, q);
    if m == 0 {
        assert(q == p);
    } else {
        lemma_offset_bounds(0, abs(q.0 - p.0), m);
        lemma_offset_bounds(0, abs(q.1 - p.1), m);
        lemma_offset_bounds(0, abs(q.2 - p.2), m);
        lemma_offset_bounds(m, abs(q.0 - p.0), m);
        lemma_offset_bounds(m, abs(q.1 - p.1), m);
        lemma_offset_bounds(m, abs(q.2 - p.2), m);
        assert(l[0] == p);
        assert(l.last() == l[m]);
        assert forall|i: int| 0 <= i < m implies #[trigger] touching(l[i], l[i + 1]) by {
            lemma_offset_bounds(i, abs(q.0 - p.0), m);
            lemma_offset_bounds(i, abs(q.1 - p.1), m);
            lemma_offset_bounds(i, abs(q.2 - p.2), m);
            lemma_signed_step(
                sgn(q.0 - p.0),
                axis_offset(i, abs(q.0 - p.0), m),
                axis_offset(i + 1, abs(q.0 - p.0), m),
            );
            lemma_signed_step(
                sgn(q.1 - p.1),
                axis_offset(i, abs(q.1 - p.1), m),
                axis_offset(i + 1, abs(q.1 - p.1), m),
            );
            lemma_signed_step(
                sgn(q.2 - p.2),
                axis_offset(i, abs(q.2 - p.2), m),
                axis_offset(i + 1, abs(q.2 - p.2), m),
            );
        }
        assert forall|i: int| 0 <= i <= m implies between(p.0, #[trigger] l[i].0, q.0) && between(
            p.1,
            l[i].1,
            q.1,
        ) && between(p.2, l[i].2, q.2) by {
            lemma_offset_bounds(i, abs(q.0 - p.0), m);
            lemma_offset_bounds(i, abs(q.1 - p.1), m);
            lemma_offset_bounds(i, abs(q.2 - p.2), m);
            lemma_signed_between(p.0, q.0, axis_offset(i, abs(q.0 - p.0), m));
            lemma_signed_between(p.1, q.1, axis_offset(i, abs(q.1 - p.1), m));
            lemma_signed_between(p.2, q.2, axis_offset(i, abs(q.2 - p.2), m));
        }
    }
}

/// Advances one axis by one step of the line: `steps` is the axis offset
/// after `i` steps and `err` its accumulated error.
fn advance_axis(a: i64, m: i64, steps: i64, err: i64, Ghost(i): Ghost<int>) -> (r: (i64, i64))
    requires
        0 <= a <= m,
        0 < m <= 0x1_0000_0000,
        0 <= i < m,
        steps == axis_offset(i, a as int, m as int),
        err == 2 * (i + 1) * a - m - 2 * m * steps,
    ensures
        r.0 == axis_offset(i + 1, a as int, m as int),
        r.1 == 2 * (i + 2) * a - m - 2 * m * r.0,
{
    proof {
        lemma_offset_bounds(i, a as int, m as int);
        lemma_offset_bounds(i + 1, a as int, m as int);
        let n1 = 2 * (i + 1) * a + m;
        let s1 = axis_offset(i + 1, a as int, m as int);
        assert(err == n1 - 2 * m - 2 * m * steps);
        assert(s1 == steps || s1 == steps + 1);
        if s1 == steps + 1 {
            assert(2 * m * s1 == 2 * m * steps + 2 * m) by (nonlinear_arith)
                requires
                    s1 == steps + 1,
            ;
        }
        assert(2 * (i + 2) * a == 2 * (i + 1) * a + 2 * a) by (nonlinear_arith);
    }
    if err >= 0 {
        (steps + 1, err - 2 * m + 2 * a)
    } else {
        (steps, err + 2 * a)
    }
}

fn abs_delta(from: i32, to: i32) -> (r: (i64, i64))
    ensures
        r.0 == abs(to - from),
        r.1 == sgn(to - from),
{
    let d = to as i64 - from as i64;
    if d < 0 {
        (-d, -1)
    } else if d > 0 {
        (d, 1)
    } else {
        (0, 0)
    }
}

/// The digital line from `(x1, y1, z1)` to `(x2, y2, z2)`: every lattice
/// point of the line in order, both endpoints included. The dominant axis
/// advances at every step; each other axis advances when its accumulated
/// error passes half the dominant delta.
pub fn bresenham_line(x1: i32, y1: i32, z1: i32, x2: i32, y2: i32, z2: i32) -> (r: Vec<
    (i32, i32, i32),
>)
    ensures
        view_points(r@) == digital_line((x1 as int, y1 as int, z1 as int), (x2 as int, y2 as int, z2 as int)),
        r@.len() == line_steps((x1 as int, y1 as int, z1 as int), (x2 as int, y2 as int, z2 as int)) + 1,
        r@[0] == (x1, y1, z1),
        r@.last() == (x2, y2, z2),
        forall|i: int| 0 <= i < r@.len() - 1 ==> #[trigger] touching(view_point(r@[i]), view_point(r@[i + 1])),
        forall|i: int|
            0 <= i < r@.len() ==> between(x1 as int, #[trigger] r@[i].0 as int, x2 as int) && between(
                y1 as int,
                r@[i].1 as int,
                y2 as int,
            ) && between(z1 as int, r@[i].2 as int, z2 as int),
{
    let ghost p: Point = (x1 as int, y1 as int, z1 as int);
    let ghost q: Point = (x2 as int, y2 as int, z2 as int);
    let (ax, gx) = abs_delta(x1, x2);
    let (ay, gy) = abs_delta(y1, y2);
    let (az, gz) = abs_delta(z1, z2);
    let m: i64 = if ax >= ay && ax >= az {
        ax
    } else if ay >= az {
        ay
    } else {
        az
    };
    assert(m == line_steps(p, q));
    proof {
        lemma_digital_line_shape(p, q);
    }
    let mut points: Vec<(i32, i32, i32)> = Vec::new();
    points.push((x1, y1, z1));
    if m == 0 {
        assert(view_points(points@) =~= digital_line(p, q));
        return points;
    }
    let mut sx: i64 = 0;
    let mut sy: i64 = 0;
    let mut sz: i64 = 0;
    let mut ex: i64 = 2 * ax - m;
    let mut ey: i64 = 2 * ay - m;
    let mut ez: i64 = 2 * az - m;
    let mut i: i64 = 0;
    proof {
        lemma_offset_bounds(0, ax as int, m as int);
        lemma_offset_bounds(0, ay as int, m as int);
        lemma_offset_bounds(0, az as int, m as int);
    }
    while i < m
        invariant
            0 < m <= 0x1_0000_0000,
            m == line_steps(p, q),
            p == (x1 as int, y1 as int, z1 as int),
            q == (x2 as int, y2 as int, z2 as int),
            ax == abs(q.0 - p.0),
            ay == abs(q.1 - p.1),
            az == abs(q.2 - p.2),
            gx == sgn(q.0 - p.0),
            gy == sgn(q.1 - p.1),
            gz == sgn(q.2 - p.2),
            0 <= i <= m,
            sx == axis_offset(i as int, ax as int, m as int),
            sy == axis_offset(i as int, ay as int, m as int),
            sz == axis_offset(i as int, az as int, m as int),
            ex == 2 * (i + 1) * ax - m - 2 * m * sx,
            ey == 2 * (i + 1) * ay - m - 2 * m * sy,
            ez == 2 * (i + 1) * az - m - 2 * m * sz,
            points@.len() == i + 1,
            forall|j: int| 0 <= j <= i ==> view_point(#[trigger] points@[j]) == digital_line(p, q)[j],
            digital_line(p, q).len() == m + 1,
            forall|j: int|
                0 <= j <= m ==> between(p.0, #[trigger] digital_line(p, q)[j].0, q.0) && between(
                    p.1,
                    digital_line(p, q)[j].1,
                    q.1,
                ) && between(p.2, digital_line(p, q)[j].2, q.2),
        decreases m - i,
    {
        let (nsx, nex) = advance_axis(ax, m, sx, ex, Ghost(i as int));
        let (nsy, ney) = advance_axis(ay, m, sy, ey, Ghost(i as int));
        let (nsz, nez) = advance_axis(az, m, sz, ez, Ghost(i as int));
        sx = nsx;
        sy = nsy;
        sz = nsz;
        ex = nex;
        ey = ney;
        ez = nez;
        i = i + 1;
        let ghost pt = digital_line(p, q)[i as int];
        assert(pt == line_point(p, q, i as int));
        assert(between(p.0, digital_line(p, q)[i as int].0, q.0));
        assert(between(p.0, pt.0, q.0) && between(p.1, pt.1, q.1) && between(p.2, pt.2, q.2));
        assert(x1 + gx * sx == pt.0);
        assert(y1 + gy * sy == pt.1);
        assert(z1 + gz * sz == pt.2);
        let nx = (x1 as i64 + gx * sx) as i32;
        let ny = (y1 as i64 + gy * sy) as i32;
        let nz = (z1 as i64 + gz * sz) as i32;
        assert(view_point((nx, ny, nz)) == pt);
        points.push((nx, ny, nz));
    }
    proof {
        assert(view_points(points@) =~= digital_line(p, q));
        assert(points@.last() == points@[m as int]);
        assert(view_point(points@[0]) == p);
        assert(view_point(points@[m as int]) == q);
        assert forall|j: int| 0 <= j < points@.len() - 1 implies #[trigger] touching(
            view_point(points@[j]),
            view_point(points@[j + 1]),
        ) by {
            assert(touching(digital_line(p, q)[j], digital_line(p, q)[j + 1]));
        }
        assert forall|j: int| 0 <= j < points@.len() implies between(
            x1 as int,
            #[trigger] points@[j].0 as int,
            x2 as int,
        ) && between(y1 as int, points@[j].1 as int, y2 as int) && between(
            z1 as int,
            points@[j].2 as int,
            z2 as int,
        ) by {
            assert(view_point(points@[j]) == digital_line(p, q)[j]);
            assert(between(p.0, digital_line(p, q)[j].0, q.0));
        }
    }
    points
}

} // verus!
