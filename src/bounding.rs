use vstd::prelude::*;

use crate::geometry::{lemma_mul_bound, point_ok, Ray3d, Vec3, MAX_COORD};
use crate::mesh::{apply, coord_ok, lin_coord, Transform};

verus! {

/// A sphere in an object's local space that encloses all of its vertices.
#[derive(Clone, Copy, Debug, PartialEq, Eq, Structural)]
pub struct BoundingSphere {
    pub origin: Vec3,
    pub radius: i64,
}

pub open spec fn max3(a: int, b: int, c: int) -> int {
    if a >= b && a >= c {
        a
    } else if b >= c {
        b
    } else {
        c
    }
}

pub open spec fn abs(a: int) -> int {
    if a < 0 {
        -a
    } else {
        a
    }
}

pub open spec fn abs_sum(a: i64, b: i64, c: i64) -> int {
    abs(a as int) + abs(b as int) + abs(c as int)
}

/// The largest absolute column sum of the linear part.
pub open spec fn norm_one(xf: Transform) -> int {
    max3(
        abs_sum(xf.x_axis.x, xf.x_axis.y, xf.x_axis.z),
        abs_sum(xf.y_axis.x, xf.y_axis.y, xf.y_axis.z),
        abs_sum(xf.z_axis.x, xf.z_axis.y, xf.z_axis.z),
    )
}

/// The largest absolute row sum of the linear part.
pub open spec fn norm_inf(xf: Transform) -> int {
    max3(
        abs_sum(xf.x_axis.x, xf.y_axis.x, xf.z_axis.x),
        abs_sum(xf.x_axis.y, xf.y_axis.y, xf.z_axis.y),
        abs_sum(xf.x_axis.z, xf.y_axis.z, xf.z_axis.z),
    )
}

/// The sphere's centre in world space.
pub open spec fn world_center(s: BoundingSphere, xf: Transform) -> (int, int, int) {
    apply(xf, s.origin)
}

/// A bound on the square of the sphere's world radius. The linear part
/// stretches no vector by more than the square root of the product of its
/// largest column and row sums, so the world sphere of this squared radius
/// holds the image of the local one.
pub open spec fn world_radius_sq(s: BoundingSphere, xf: Transform) -> int {
    (s.radius * s.radius) * (norm_one(xf) * norm_inf(xf))
}

/// A local radius the exact test can take.
pub open spec fn radius_ok(s: BoundingSphere) -> bool {
    0 <= s.radius <= 8 * MAX_COORD
}

/// A world sphere small enough for the exact test.
pub open spec fn sphere_fits(c: (int, int, int), r2: int) -> bool {
    coord_ok(c.0) && coord_ok(c.1) && coord_ok(c.2) && 0 <= r2 <= MAX_COORD * MAX_COORD
}

/// Whether the line of the ray meets the sphere of centre `c` and squared
/// radius `r2`: the discriminant `(d.w)^2 - |d|^2 (|w|^2 - r2)` is not
/// negative, where `d` is the direction and `w` the offset from the centre to
/// the origin.
pub open spec fn sphere_hit(ray: Ray3d, c: (int, int, int), r2: int) -> bool {
    let (w1, w2, w3) = (ray.origin.x - c.0, ray.origin.y - c.1, ray.origin.z - c.2);
    let (d1, d2, d3) = (ray.direction.x as int, ray.direction.y as int, ray.direction.z as int);
    let b = d1 * w1 + d2 * w2 + d3 * w3;
    let dd = d1 * d1 + d2 * d2 + d3 * d3;
    let ww = w1 * w1 + w2 * w2 + w3 * w3;
    b * b - dd * (ww - r2) >= 0
}

/// Whether an object stays a candidate: it is visible and its bounding
/// sphere, if it has one that fits the exact test, is met by the ray.
pub open spec fn cull_keeps(
    ray: Ray3d,
    visible: bool,
    bound: Option<BoundingSphere>,
    xf: Transform,
) -> bool {
    visible && match bound {
        None => true,
        Some(s) => {
            let (c, r2) = (world_center(s, xf), world_radius_sq(s, xf));
            !radius_ok(s) || !sphere_fits(c, r2) || sphere_hit(ray, c, r2)
        },
    }
}

fn abs_i64(a: i64) -> (r: i128)
    requires
        -2 * MAX_COORD <= a <= 2 * MAX_COORD,
    ensures
        r == abs(a as int),
{
    if a < 0 {
        -(a as i128)
    } else {
        a as i128
    }
}

fn max3_exec(a: i128, b: i128, c: i128) -> (r: i128)
    ensures
        r == max3(a as int, b as int, c as int),
{
    if a >= b && a >= c {
        a
    } else if b >= c {
        b
    } else {
        c
    }
}

fn mul_bounded(a: i128, b: i128, Ghost(ba): Ghost<int>, Ghost(bb): Ghost<int>) -> (r: i128)
    requires
        -ba <= a <= ba,
        -bb <= b <= bb,
        0 <= ba,
        0 <= bb,
        ba * bb <= 0x4000_0000_0000_0000_0000_0000_0000_0000,
    ensures
        r == a * b,
        -(ba * bb) <= r <= ba * bb,
{
    proof {
        lemma_mul_bound(a as int, b as int, ba, bb);
    }
    a * b
}

fn norms_of(xf: &Transform) -> (r: (i128, i128))
    requires
        xf.wf(),
    ensures
        r.0 == norm_one(*xf),
        r.1 == norm_inf(*xf),
        0 <= r.0 <= 0x4_0000,
        0 <= r.1 <= 0x4_0000,
{
    let (xa, ya, za) = (xf.x_axis, xf.y_axis, xf.z_axis);
    let n1 = max3_exec(
        abs_i64(xa.x) + abs_i64(xa.y) + abs_i64(xa.z),
        abs_i64(ya.x) + abs_i64(ya.y) + abs_i64(ya.z),
        abs_i64(za.x) + abs_i64(za.y) + abs_i64(za.z),
    );
    let ninf = max3_exec(
        abs_i64(xa.x) + abs_i64(ya.x) + abs_i64(za.x),
        abs_i64(xa.y) + abs_i64(ya.y) + abs_i64(za.y),
        abs_i64(xa.z) + abs_i64(ya.z) + abs_i64(za.z),
    );
    (n1, ninf)
}

fn world_sphere(s: &BoundingSphere, xf: &Transform) -> (r: (i128, i128, i128, i128))
    requires
        radius_ok(*s),
        xf.wf(),
    ensures
        (r.0 as int, r.1 as int, r.2 as int) == world_center(*s, *xf),
        r.3 == world_radius_sq(*s, *xf),
{
    let (xa, ya, za) = (xf.x_axis, xf.y_axis, xf.z_axis);
    let (n1, ninf) = norms_of(xf);
    let cx = lin_coord(s.origin, xa.x, ya.x, za.x, xf.translation.x);
    let cy = lin_coord(s.origin, xa.y, ya.y, za.y, xf.translation.y);
    let cz = lin_coord(s.origin, xa.z, ya.z, za.z, xf.translation.z);
    let rad = s.radius as i128;
    let g19 = Ghost(0x8_0000int);
    let g18 = Ghost(0x4_0000int);
    let norms = mul_bounded(n1, ninf, g18, g18);
    let rr = mul_bounded(rad, rad, g19, g19);
    let r2 = mul_bounded(rr, norms, Ghost(0x40_0000_0000int), Ghost(0x10_0000_0000int));
    (cx, cy, cz, r2)
}

fn sphere_test(ray: &Ray3d, cx: i128, cy: i128, cz: i128, r2: i128) -> (r: bool)
    requires
        ray.wf(),
        sphere_fits((cx as int, cy as int, cz as int), r2 as int),
    ensures
        r == sphere_hit(*ray, (cx as int, cy as int, cz as int), r2 as int),
{
    let w1 = ray.origin.x as i128 - cx;
    let w2 = ray.origin.y as i128 - cy;
    let w3 = ray.origin.z as i128 - cz;
    let d1 = ray.direction.x as i128;
    let d2 = ray.direction.y as i128;
    let d3 = ray.direction.z as i128;
    let gw = Ghost(0x2_0000int);
    let gd = Ghost(0x8_0000int);
    let b = mul_bounded(d1, w1, gd, gw) + mul_bounded(d2, w2, gd, gw) + mul_bounded(d3, w3, gd, gw);
    let dd = mul_bounded(d1, d1, gd, gd) + mul_bounded(d2, d2, gd, gd) + mul_bounded(d3, d3, gd, gd);
    let ww = mul_bounded(w1, w1, gw, gw) + mul_bounded(w2, w2, gw, gw) + mul_bounded(w3, w3, gw, gw);
    let bb = mul_bounded(b, b, Ghost(0x40_0000_0000int), Ghost(0x40_0000_0000int));
    let prod = mul_bounded(dd, ww - r2, Ghost(0x100_0000_0000int), Ghost(0x10_0000_0000int));
    bb - prod >= 0
}

/// Decides whether an object survives the culling pass for `ray`.
pub fn survives_culling(
    ray: &Ray3d,
    visible: bool,
    bound: &Option<BoundingSphere>,
    xf: &Transform,
) -> (r: bool)
    requires
        ray.wf(),
        xf.wf(),
    ensures
        r == cull_keeps(*ray, visible, *bound, *xf),
{
    if !visible {
        return false;
    }
    let s = match bound {
        None => {
            return true;
        },
        Some(s) => *s,
    };
    if !(0 <= s.radius && s.radius <= 8 * MAX_COORD) {
        return true;
    }
    let (cx, cy, cz, r2) = world_sphere(&s, xf);
    let lim = MAX_COORD as i128;
    if !(-lim <= cx && cx <= lim && -lim <= cy && cy <= lim && -lim <= cz && cz <= lim && 0 <= r2
        && r2 <= lim * lim) {
        return true;
    }
    sphere_test(ray, cx, cy, cz, r2)
}

/// Culling depends on the bounding sphere only through its world centre and
/// the bound on its world radius: two placements that give the same world sphere cull alike.
pub proof fn lemma_cull_depends_on_world_sphere(
    ray: Ray3d,
    visible: bool,
    s1: BoundingSphere,
    x1: Transform,
    s2: BoundingSphere,
    x2: Transform,
)
    requires
        world_center(s1, x1) == world_center(s2, x2),
        world_radius_sq(s1, x1) == world_radius_sq(s2, x2),
        radius_ok(s1) == radius_ok(s2),
    ensures
        cull_keeps(ray, visible, Some(s1), x1) == cull_keeps(ray, visible, Some(s2), x2),
{
}

/// A visible object without a bounding sphere always stays a candidate.
pub proof fn lemma_cull_keeps_unbounded(ray: Ray3d, xf: Transform)
    ensures
        cull_keeps(ray, true, None, xf),
{
}

/// Squared distance between two points.
pub open spec fn dist_sq(a: Vec3, b: Vec3) -> int {
    let (dx, dy, dz) = (a.x - b.x, a.y - b.y, a.z - b.z);
    dx * dx + dy * dy + dz * dz
}

/// Sum of the absolute coordinate differences of two points.
pub open spec fn dist_l1(a: Vec3, b: Vec3) -> int {
    abs(a.x - b.x) + abs(a.y - b.y) + abs(a.z - b.z)
}

proof fn lemma_l1_covers(a: Vec3, b: Vec3)
    ensures
        dist_sq(a, b) <= dist_l1(a, b) * dist_l1(a, b),
{
    let (x, y, z) = (abs(a.x - b.x), abs(a.y - b.y), abs(a.z - b.z));
    assert(x * x == (a.x - b.x) * (a.x - b.x)) by (nonlinear_arith)
        requires
            x == abs(a.x - b.x),
    ;
    assert(y * y == (a.y - b.y) * (a.y - b.y)) by (nonlinear_arith)
        requires
            y == abs(a.y - b.y),
    ;
    assert(z * z == (a.z - b.z) * (a.z - b.z)) by (nonlinear_arith)
        requires
            z == abs(a.z - b.z),
    ;
    assert(x * x + y * y + z * z <= (x + y + z) * (x + y + z)) by (nonlinear_arith)
        requires
            x >= 0,
            y >= 0,
            z >= 0,
    ;
}

/// A sphere around local vertices: centred on the first vertex, with the
/// largest coordinate-wise distance to any vertex as radius. None for no
/// vertices, or for a vertex outside the representable range.
pub fn bounding_sphere(p: &Vec<Vec3>) -> (r: Option<BoundingSphere>)
    ensures
        r is None <==> (p.len() == 0 || exists|i: int| 0 <= i < p.len() && !point_ok(p@[i])),
        r is Some ==> ({
            let s = r.unwrap();
            &&& s.origin == p@[0]
            &&& forall|i: int|
                0 <= i < p.len() ==> dist_sq(#[trigger] p@[i], s.origin) <= s.radius * s.radius
        }),
{
    if p.len() == 0 {
        return None;
    }
    let c = p[0];
    let mut radius: i64 = 0;
    let mut i: usize = 0;
    while i < p.len()
        invariant
            0 < p.len(),
            c == p@[0],
            i <= p.len(),
            0 <= radius <= 6 * MAX_COORD,
            forall|k: int| 0 <= k < i ==> point_ok(#[trigger] p@[k]),
            forall|k: int| 0 <= k < i ==> dist_l1(#[trigger] p@[k], c) <= radius,
        decreases p.len() - i,
    {
        let q = p[i];
        if !(-MAX_COORD <= q.x && q.x <= MAX_COORD && -MAX_COORD <= q.y && q.y <= MAX_COORD
            && -MAX_COORD <= q.z && q.z <= MAX_COORD) {
            return None;
        }
        if i == 0 {
            assert(point_ok(c));
        }
        let d = abs_i64(q.x - c.x) + abs_i64(q.y - c.y) + abs_i64(q.z - c.z);
        if d > radius as i128 {
            radius = d as i64;
        }
        i = i + 1;
    }
    proof {
        assert forall|k: int| 0 <= k < p.len() implies dist_sq(#[trigger] p@[k], c) <= radius
            * radius by {
            lemma_l1_covers(p@[k], c);
            let l = dist_l1(p@[k], c);
            assert(l * l <= radius * radius) by (nonlinear_arith)
                requires
                    0 <= l <= radius,
            ;
        }
    }
    Some(BoundingSphere { origin: c, radius })
}

} // verus!
