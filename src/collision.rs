use vstd::prelude::*;
use itertools::Itertools;

verus! {

/// Coordinates, radii and thicknesses stay within this bound, in absolute value.
pub const COORD_LIMIT: i64 = 0x4000_0000;

/// A point of the ground plane, in integer world units.
#[derive(Clone, Copy, Debug, PartialEq, Eq, Structural)]
pub struct Point {
    pub x: i64,
    pub y: i64,
}

/// A collision footprint.
#[derive(Clone, Copy, Debug, PartialEq, Eq, Structural)]
pub enum Collider {
    Circle { center: Point, radius: i64 },
    LineSegment(Point, Point),
    LineRay { anchor: Point, direction: Point },
    ThickLineSegment { point1: Point, point2: Point, thickness: i64 },
}

pub open spec fn coord_ok(v: int) -> bool {
    -COORD_LIMIT <= v <= COORD_LIMIT
}

pub open spec fn point_ok(p: Point) -> bool {
    coord_ok(p.x as int) && coord_ok(p.y as int)
}

impl Collider {
    /// Every coordinate and length of the footprint is within the bound, and
    /// radii and thicknesses are not negative.
    pub open spec fn wf(self) -> bool {
        match self {
            Collider::Circle { center, radius } => point_ok(center) && 0 <= radius <= COORD_LIMIT,
            Collider::LineSegment(start, stop) => point_ok(start) && point_ok(stop),
            Collider::LineRay { anchor, direction } => point_ok(anchor) && point_ok(direction),
            Collider::ThickLineSegment { point1, point2, thickness } => point_ok(point1) && point_ok(
                point2,
            ) && 0 <= thickness <= COORD_LIMIT,
        }
    }
}

pub open spec fn dot(ax: int, ay: int, bx: int, by: int) -> int {
    ax * bx + ay * by
}

pub open spec fn cross(ax: int, ay: int, bx: int, by: int) -> int {
    ax * by - ay * bx
}

/// Squared distance between two points.
pub open spec fn dist2(a: Point, b: Point) -> int {
    dot(a.x - b.x, a.y - b.y, a.x - b.x, a.y - b.y)
}

/// The circle touches the segment: an end lies inside it, or its centre
/// projects onto the segment no farther than the radius from it. Squared
/// distances from a line are compared multiplied through by the squared
/// length, so that they stay integers.
pub open spec fn circle_touches_segment(c: Point, r: int, start: Point, stop: Point) -> bool {
    let (rx, ry) = (c.x - start.x, c.y - start.y);
    let (lx, ly) = (stop.x - start.x, stop.y - start.y);
    let len2 = dot(lx, ly, lx, ly);
    let cr = cross(rx, ry, lx, ly);
    let d = dot(rx, ry, lx, ly);
    dist2(start, c) <= r * r || dist2(stop, c) <= r * r || (len2 != 0 && cr * cr <= r * r * len2 && 0
        <= d <= len2)
}

/// The circle touches the ray: its anchor lies inside it, or its centre
/// lies ahead of the anchor no farther than the radius from the ray's line.
pub open spec fn circle_touches_ray(c: Point, r: int, anchor: Point, dir: Point) -> bool {
    let (rx, ry) = (c.x - anchor.x, c.y - anchor.y);
    let len2 = dot(dir.x as int, dir.y as int, dir.x as int, dir.y as int);
    let cr = cross(rx, ry, dir.x as int, dir.y as int);
    let d = dot(rx, ry, dir.x as int, dir.y as int);
    dist2(anchor, c) <= r * r || (len2 != 0 && cr * cr <= r * r * len2 && d >= 0)
}

/// The circle comes within `thickness` of the segment, by projection only:
/// its centre projects onto the segment within `r + thickness` of it.
pub open spec fn circle_touches_thick(c: Point, r: int, start: Point, stop: Point, t: int) -> bool {
    let (rx, ry) = (c.x - start.x, c.y - start.y);
    let (lx, ly) = (stop.x - start.x, stop.y - start.y);
    let len2 = dot(lx, ly, lx, ly);
    let cr = cross(rx, ry, lx, ly);
    let d = dot(rx, ry, lx, ly);
    let m = r + t;
    if len2 != 0 {
        cr * cr <= m * m * len2 && 0 <= d <= len2
    } else {
        dist2(start, c) <= m * m
    }
}

/// The circle of centre `c` and radius `r` touches the footprint `other`.
pub open spec fn circle_touches(c: Point, r: int, other: Collider) -> bool {
    match other {
        Collider::Circle { center, radius } => dist2(c, center) <= (r + radius) * (r + radius),
        Collider::LineSegment(start, stop) => circle_touches_segment(c, r, start, stop),
        Collider::LineRay { anchor, direction } => circle_touches_ray(c, r, anchor, direction),
        Collider::ThickLineSegment { point1, point2, thickness } => circle_touches_thick(
            c,
            r,
            point1,
            point2,
            thickness as int,
        ),
    }
}

/// Two footprints, at least one of them a circle, overlap.
pub open spec fn overlaps(a: Collider, b: Collider) -> bool {
    match a {
        Collider::Circle { center, radius } => circle_touches(center, radius as int, b),
        _ => match b {
            Collider::Circle { center, radius } => circle_touches(center, radius as int, a),
            _ => false,
        },
    }
}

pub open spec fn has_circle(a: Collider, b: Collider) -> bool {
    a is Circle || b is Circle
}

proof fn lemma_product_bound(a: int, b: int, ka: int, kb: int)
    requires
        -ka <= a <= ka,
        -kb <= b <= kb,
    ensures
        -(ka * kb) <= a * b <= ka * kb,
{
    assert(-(ka * kb) <= a * b <= ka * kb) by (nonlinear_arith)
        requires
            -ka <= a <= ka,
            -kb <= b <= kb,
    ;
}

/// `dot` and `cross` of two vectors whose coordinates are at most twice the bound.
fn dot_cross(ax: i128, ay: i128, bx: i128, by: i128) -> (r: (i128, i128))
    requires
        -0x8000_0000 <= ax <= 0x8000_0000,
        -0x8000_0000 <= ay <= 0x8000_0000,
        -0x8000_0000 <= bx <= 0x8000_0000,
        -0x8000_0000 <= by <= 0x8000_0000,
    ensures
        r.0 == dot(ax as int, ay as int, bx as int, by as int),
        r.1 == cross(ax as int, ay as int, bx as int, by as int),
        -0x8000_0000_0000_0000 <= r.0 <= 0x8000_0000_0000_0000,
        -0x8000_0000_0000_0000 <= r.1 <= 0x8000_0000_0000_0000,
{
    proof {
        lemma_product_bound(ax as int, bx as int, 0x8000_0000, 0x8000_0000);
        lemma_product_bound(ay as int, by as int, 0x8000_0000, 0x8000_0000);
        lemma_product_bound(ax as int, by as int, 0x8000_0000, 0x8000_0000);
        lemma_product_bound(ay as int, bx as int, 0x8000_0000, 0x8000_0000);
    }
    (ax * bx + ay * by, ax * by - ay * bx)
}

/// `a * a <= m * m * len2`, for the bounded quantities of a line test.
fn within_line(a: i128, m: i128, len2: i128) -> (r: bool)
    requires
        -0x8000_0000_0000_0000 <= a <= 0x8000_0000_0000_0000,
        0 <= m <= 0x8000_0000,
        0 <= len2 <= 0x8000_0000_0000_0000,
    ensures
        r == (a * a <= m * m * len2),
{
    proof {
        lemma_product_bound(a as int, a as int, 0x8000_0000_0000_0000, 0x8000_0000_0000_0000);
        lemma_product_bound(m as int, m as int, 0x8000_0000, 0x8000_0000);
        lemma_product_bound(m * m, len2 as int, 0x4000_0000_0000_0000, 0x8000_0000_0000_0000);
    }
    a * a <= m * m * len2
}

fn square(v: i128) -> (r: i128)
    requires
        -0x1_0000_0000 <= v <= 0x1_0000_0000,
    ensures
        r == v * v,
        0 <= r <= 0x1_0000_0000_0000_0000,
{
    proof {
        lemma_product_bound(v as int, v as int, 0x1_0000_0000, 0x1_0000_0000);
        assert(v * v >= 0) by (nonlinear_arith);
    }
    v * v
}

fn dist2_of(a: Point, b: Point) -> (r: i128)
    requires
        point_ok(a),
        point_ok(b),
    ensures
        r == dist2(a, b),
        0 <= r <= 0x8000_0000_0000_0000,
{
    let dx = a.x as i128 - b.x as i128;
    let dy = a.y as i128 - b.y as i128;
    proof {
        lemma_product_bound(dx as int, dx as int, 0x8000_0000, 0x8000_0000);
        lemma_product_bound(dy as int, dy as int, 0x8000_0000, 0x8000_0000);
        assert(dx * dx >= 0 && dy * dy >= 0) by (nonlinear_arith);
    }
    dx * dx + dy * dy
}

fn circle_touches_segment_exec(c: Point, r: i64, start: Point, stop: Point) -> (b: bool)
    requires
        point_ok(c),
        point_ok(start),
        point_ok(stop),
        0 <= r <= COORD_LIMIT,
    ensures
        b == circle_touches_segment(c, r as int, start, stop),
{
    let rr = square(r as i128);
    if dist2_of(start, c) <= rr || dist2_of(stop, c) <= rr {
        return true;
    }
    let (rx, ry) = (c.x as i128 - start.x as i128, c.y as i128 - start.y as i128);
    let (lx, ly) = (stop.x as i128 - start.x as i128, stop.y as i128 - start.y as i128);
    let len2 = dist2_of(stop, start);
    let (d, cr) = dot_cross(rx, ry, lx, ly);
    len2 != 0 && within_line(cr, r as i128, len2) && 0 <= d && d <= len2
}

fn circle_touches_ray_exec(c: Point, r: i64, anchor: Point, dir: Point) -> (b: bool)
    requires
        point_ok(c),
        point_ok(anchor),
        point_ok(dir),
        0 <= r <= COORD_LIMIT,
    ensures
        b == circle_touches_ray(c, r as int, anchor, dir),
{
    let rr = square(r as i128);
    if dist2_of(anchor, c) <= rr {
        return true;
    }
    let (rx, ry) = (c.x as i128 - anchor.x as i128, c.y as i128 - anchor.y as i128);
    let (dx, dy) = (dir.x as i128, dir.y as i128);
    proof {
        lemma_product_bound(dx as int, dx as int, 0x4000_0000, 0x4000_0000);
        lemma_product_bound(dy as int, dy as int, 0x4000_0000, 0x4000_0000);
    }
    let len2 = square(dx) + square(dy);
    let (d, cr) = dot_cross(rx, ry, dx, dy);
    len2 != 0 && within_line(cr, r as i128, len2) && d >= 0
}

fn circle_touches_thick_exec(c: Point, r: i64, start: Point, stop: Point, t: i64) -> (b: bool)
    requires
        point_ok(c),
        point_ok(start),
        point_ok(stop),
        0 <= r <= COORD_LIMIT,
        0 <= t <= COORD_LIMIT,
    ensures
        b == circle_touches_thick(c, r as int, start, stop, t as int),
{
    let m = r as i128 + t as i128;
    let (rx, ry) = (c.x as i128 - start.x as i128, c.y as i128 - start.y as i128);
    let (lx, ly) = (stop.x as i128 - start.x as i128, stop.y as i128 - start.y as i128);
    let len2 = dist2_of(stop, start);
    let (d, cr) = dot_cross(rx, ry, lx, ly);
    if len2 != 0 {
        within_line(cr, m, len2) && 0 <= d && d <= len2
    } else {
        dist2_of(start, c) <= square(m)
    }
}

fn circle_touches_exec(c: Point, r: i64, other: &Collider) -> (b: bool)
    requires
        point_ok(c),
        0 <= r <= COORD_LIMIT,
        other.wf(),
    ensures
        b == circle_touches(c, r as int, *other),
{
    match other {
        Collider::Circle { center, radius } => {
            let s = r as i128 + *radius as i128;
            dist2_of(c, *center) <= square(s)
        },
        Collider::LineSegment(start, stop) => circle_touches_segment_exec(c, r, *start, *stop),
        Collider::LineRay { anchor, direction } => circle_touches_ray_exec(c, r, *anchor, *direction),
        Collider::ThickLineSegment { point1, point2, thickness } => circle_touches_thick_exec(
            c,
            r,
            *point1,
            *point2,
            *thickness,
        ),
    }
}

impl Collider {
    /// Whether two footprints overlap. One of them must be a circle.
    pub fn intersects(&self, other: &Collider) -> (b: bool)
        requires
            self.wf(),
            other.wf(),
            has_circle(*self, *other),
        ensures
            b == overlaps(*self, *other),
    {
        match self {
            Collider::Circle { center, radius } => circle_touches_exec(*center, *radius, other),
            _ => match other {
                Collider::Circle { center, radius } => circle_touches_exec(*center, *radius, self),
                _ => false,
            },
        }
    }
}

/// The overlaps of source `i` with recipients `0..m`, in recipient order.
pub open spec fn source_overlaps(src: Collider, i: usize, recipients: Seq<Collider>, m: int) -> Seq<
    (usize, usize),
>
    decreases m,
{
    if m <= 0 {
        Seq::empty()
    } else {
        let prev = source_overlaps(src, i, recipients, m - 1);
        if overlaps(src, recipients[m - 1]) {
            prev.push((i, (m - 1) as usize))
        } else {
            prev
        }
    }
}

/// The directed overlaps of sources `0..n` with every recipient, source by
/// source, as (source, recipient) index pairs.
pub open spec fn directed_overlaps(sources: Seq<Collider>, recipients: Seq<Collider>, n: int) -> Seq<
    (usize, usize),
>
    decreases n,
{
    if n <= 0 {
        Seq::empty()
    } else {
        directed_overlaps(sources, recipients, n - 1) + source_overlaps(
            sources[n - 1],
            (n - 1) as usize,
            recipients,
            recipients.len() as int,
        )
    }
}

/// Every footprint is well formed.
pub open spec fn all_wf(cs: Seq<Collider>) -> bool {
    forall|i: int| 0 <= i < cs.len() ==> (#[trigger] cs[i]).wf()
}

/// Finds, for one collision category, every source that overlaps a
/// recipient. Every pair must hold a circle.
pub fn resolve_collisions(sources: &Vec<Collider>, recipients: &Vec<Collider>) -> (r: Vec<(usize, usize)>)
    requires
        all_wf(sources@),
        all_wf(recipients@),
        forall|i: int, j: int|
            0 <= i < sources@.len() && 0 <= j < recipients@.len() ==> has_circle(
                #[trigger] sources@[i],
                #[trigger] recipients@[j],
            ),
    ensures
        r@ == directed_overlaps(sources@, recipients@, sources@.len() as int),
{
    let mut out: Vec<(usize, usize)> = Vec::new();
    let mut i: usize = 0;
    while i < sources.len()
        invariant
            i <= sources@.len(),
            out@ == directed_overlaps(sources@, recipients@, i as int),
            all_wf(sources@),
            all_wf(recipients@),
            forall|i: int, j: int|
                0 <= i < sources@.len() && 0 <= j < recipients@.len() ==> has_circle(
                    #[trigger] sources@[i],
                    #[trigger] recipients@[j],
                ),
        decreases sources.len() - i,
    {
        let ghost before = out@;
        let mut j: usize = 0;
        while j < recipients.len()
            invariant
                i < sources@.len(),
                j <= recipients@.len(),
                out@ == before + source_overlaps(sources@[i as int], i, recipients@, j as int),
                all_wf(sources@),
                all_wf(recipients@),
                forall|i: int, j: int|
                    0 <= i < sources@.len() && 0 <= j < recipients@.len() ==> has_circle(
                        #[trigger] sources@[i],
                        #[trigger] recipients@[j],
                    ),
            decreases recipients.len() - j,
        {
            assert(sources@[i as int].wf() && recipients@[j as int].wf());
            assert(has_circle(sources@[i as int], recipients@[j as int]));
            if sources[i].intersects(&recipients[j]) {
                out.push((i, j));
            }
            proof {
                let prev = source_overlaps(sources@[i as int], i, recipients@, j as int);
                assert((before + prev).push((i, j)) =~= before + prev.push((i, j)));
            }
            j = j + 1;
        }
        i = i + 1;
    }
    out
}

/// The index pairs `(i, j)` with `i < j` from `i0` on, below `n`, in
/// lexicographic order.
pub open spec fn pairs_from(i0: nat, n: nat) -> Seq<(usize, usize)>
    decreases n - i0,
{
    if i0 >= n {
        Seq::empty()
    } else {
        Seq::new((n - i0 - 1) as nat, |k: int| (i0 as usize, (i0 + 1 + k) as usize)) + pairs_from(
            i0 + 1,
            n,
        )
    }
}

/// Relies on itertools' `Itertools::combinations`: for `k = 2` over `0..n` it
/// yields each pair `i < j` once, in lexicographic order of the indices.
#[verifier::external_body]
fn index_pairs(n: usize) -> (r: Vec<(usize, usize)>)
    ensures
        r@ == pairs_from(0, n as nat),
{
    (0..n).combinations(2).map(|v| (v[0], v[1])).collect()
}

/// The overlapping pairs among `pairs`, in order.
pub open spec fn overlapping_pairs(cs: Seq<Collider>, pairs: Seq<(usize, usize)>) -> Seq<(usize, usize)>
    decreases pairs.len(),
{
    if pairs.len() == 0 {
        Seq::empty()
    } else {
        let prev = overlapping_pairs(cs, pairs.drop_last());
        let (a, b) = pairs.last();
        if overlaps(cs[a as int], cs[b as int]) {
            prev.push((a, b))
        } else {
            prev
        }
    }
}

proof fn lemma_pairs_in_range(i0: nat, n: nat)
    requires
        n <= usize::MAX,
    ensures
        forall|k: int|
            0 <= k < pairs_from(i0, n).len() ==> (#[trigger] pairs_from(i0, n)[k]).0
                < pairs_from(i0, n)[k].1 < n,
    decreases n - i0,
{
    if i0 < n {
        lemma_pairs_in_range(i0 + 1, n);
        let row = Seq::new((n - i0 - 1) as nat, |k: int| (i0 as usize, (i0 + 1 + k) as usize));
        let rest = pairs_from(i0 + 1, n);
        assert(pairs_from(i0, n) == row + rest);
        assert forall|k: int| 0 <= k < pairs_from(i0, n).len() implies (#[trigger] pairs_from(
            i0,
            n,
        )[k]).0 < pairs_from(i0, n)[k].1 < n by {
            if k < row.len() {
                assert(pairs_from(i0, n)[k] == row[k]);
                assert(row[k] == (i0 as usize, (i0 + 1 + k) as usize));
            } else {
                assert(pairs_from(i0, n)[k] == rest[k - row.len()]);
                assert(rest[k - row.len()].0 < rest[k - row.len()].1 < n);
            }
        }
    }
}

/// Finds, for a symmetric collision category, every unordered pair of
/// overlapping footprints, as index pairs `(i, j)` with `i < j` in
/// lexicographic order. Every pair must hold a circle.
pub fn resolve_collisions_symmetric(sources: &Vec<Collider>) -> (r: Vec<(usize, usize)>)
    requires
        all_wf(sources@),
        forall|i: int, j: int|
            0 <= i < j < sources@.len() ==> has_circle(#[trigger] sources@[i], #[trigger] sources@[j]),
    ensures
        r@ == overlapping_pairs(sources@, pairs_from(0, sources@.len())),
{
    let pairs = index_pairs(sources.len());
    proof {
        lemma_pairs_in_range(0, sources@.len());
    }
    let mut out: Vec<(usize, usize)> = Vec::new();
    let mut k: usize = 0;
    while k < pairs.len()
        invariant
            k <= pairs@.len(),
            pairs@ == pairs_from(0, sources@.len()),
            forall|q: int|
                0 <= q < pairs@.len() ==> (#[trigger] pairs@[q]).0 < pairs@[q].1 < sources@.len(),
            out@ == overlapping_pairs(sources@, pairs@.subrange(0, k as int)),
            all_wf(sources@),
            forall|i: int, j: int|
                0 <= i < j < sources@.len() ==> has_circle(#[trigger] sources@[i], #[trigger] sources@[j]),
        decreases pairs.len() - k,
    {
        let (a, b) = pairs[k];
        proof {
            let sub = pairs@.subrange(0, k as int + 1);
            assert(sub.drop_last() =~= pairs@.subrange(0, k as int));
            assert(sub.last() == (a, b));
            assert(sources@[a as int].wf() && sources@[b as int].wf());
        }
        assert(has_circle(sources@[a as int], sources@[b as int]));
        if sources[a].intersects(&sources[b]) {
            out.push((a, b));
        }
        k = k + 1;
    }
    proof {
        assert(pairs@.subrange(0, pairs@.len() as int) =~= pairs@);
    }
    out
}

} // verus!
