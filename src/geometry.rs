use vstd::prelude::*;

verus! {

/// Largest magnitude of a point coordinate.
pub const MAX_COORD: i64 = 65536;

/// Largest magnitude of a direction coordinate.
pub const MAX_DIR: i64 = 524288;

/// A point or a vector with integer coordinates.
#[derive(Clone, Copy, Debug, PartialEq, Eq, Structural)]
pub struct Vec3 {
    pub x: i64,
    pub y: i64,
    pub z: i64,
}

/// Coordinates, each of magnitude at most `b`.
pub open spec fn bounded(v: Vec3, b: int) -> bool {
    -b <= v.x <= b && -b <= v.y <= b && -b <= v.z <= b
}

pub open spec fn point_ok(v: Vec3) -> bool {
    bounded(v, MAX_COORD as int)
}

/// A vector over the integers.
pub struct V3 {
    pub x: int,
    pub y: int,
    pub z: int,
}

pub open spec fn v3(v: Vec3) -> V3 {
    V3 { x: v.x as int, y: v.y as int, z: v.z as int }
}

pub open spec fn minus(a: V3, b: V3) -> V3 {
    V3 { x: a.x - b.x, y: a.y - b.y, z: a.z - b.z }
}

pub open spec fn dot(a: V3, b: V3) -> int {
    a.x * b.x + a.y * b.y + a.z * b.z
}

pub open spec fn cross(a: V3, b: V3) -> V3 {
    V3 { x: a.y * b.z - a.z * b.y, y: a.z * b.x - a.x * b.z, z: a.x * b.y - a.y * b.x }
}

/// A half-line: `origin + s * direction` for every `s >= 0`.
#[derive(Clone, Copy, Debug, PartialEq, Eq, Structural)]
pub struct Ray3d {
    pub origin: Vec3,
    pub direction: Vec3,
}

impl Ray3d {
    pub open spec fn wf(&self) -> bool {
        point_ok(self.origin) && bounded(self.direction, MAX_DIR as int)
    }

    pub fn new(origin: Vec3, direction: Vec3) -> (r: Ray3d)
        ensures
            r.origin == origin,
            r.direction == direction,
    {
        Ray3d { origin, direction }
    }
}

/// Three vertices in world space.
#[derive(Clone, Copy, Debug, PartialEq, Eq, Structural)]
pub struct Triangle {
    pub v0: Vec3,
    pub v1: Vec3,
    pub v2: Vec3,
}

impl Triangle {
    pub open spec fn wf(&self) -> bool {
        point_ok(self.v0) && point_ok(self.v1) && point_ok(self.v2)
    }
}

/// Where a ray meets a triangle, in exact rational form.
///
/// The hit lies at `origin + (t_num / den) * direction`; its barycentric
/// coordinates are `((den - u_num - v_num) / den, u_num / den, v_num / den)`
/// with respect to `(v0, v1, v2)`.
#[derive(Clone, Copy, Debug, PartialEq, Eq, Structural)]
pub struct Intersection {
    pub t_num: i64,
    pub u_num: i64,
    pub v_num: i64,
    pub den: i64,
    pub triangle: Triangle,
}

impl Intersection {
    /// A hit in front of the origin with valid barycentric coordinates.
    pub open spec fn wf(&self) -> bool {
        &&& self.den > 0
        &&& self.t_num >= 0
        &&& self.u_num >= 0
        &&& self.v_num >= 0
        &&& self.u_num + self.v_num <= self.den
    }
}

/// Whether hit `a` lies strictly nearer the origin than hit `b` on the same
/// ray: `a.t_num / a.den < b.t_num / b.den`.
pub open spec fn closer(a: Intersection, b: Intersection) -> bool {
    a.t_num * b.den < b.t_num * a.den
}

/// Compares two hits on the same ray by distance.
pub fn is_closer(a: &Intersection, b: &Intersection) -> (r: bool)
    ensures
        r == closer(*a, *b),
{
    proof {
        lemma_mul_bound(a.t_num as int, b.den as int, 0x8000_0000_0000_0000, 0x8000_0000_0000_0000);
        lemma_mul_bound(b.t_num as int, a.den as int, 0x8000_0000_0000_0000, 0x8000_0000_0000_0000);
    }
    (a.t_num as i128) * (b.den as i128) < (b.t_num as i128) * (a.den as i128)
}

/// The unnormalised Moller-Trumbore quantities of a ray and a triangle:
/// `(det, u, v, t)`, before the sign of `det` is made positive.
pub open spec fn mt_raw(ray: Ray3d, tri: Triangle) -> (int, int, int, int) {
    let dir = v3(ray.direction);
    let e1 = minus(v3(tri.v1), v3(tri.v0));
    let e2 = minus(v3(tri.v2), v3(tri.v0));
    let s = minus(v3(ray.origin), v3(tri.v0));
    let p = cross(dir, e2);
    let q = cross(s, e1);
    (dot(e1, p), dot(s, p), dot(dir, q), dot(e2, q))
}

/// The exact ray-triangle test. No hit for a ray parallel to the triangle's
/// plane, nor for a hit behind the origin; either face counts.
pub open spec fn spec_ray_triangle(ray: Ray3d, tri: Triangle) -> Option<Intersection> {
    let (det, u, v, t) = mt_raw(ray, tri);
    let (d, u, v, t) = if det < 0 {
        (-det, -u, -v, -t)
    } else {
        (det, u, v, t)
    };
    if det == 0 || u < 0 || v < 0 || u + v > d || t < 0 {
        None
    } else {
        Some(
            Intersection {
                t_num: t as i64,
                u_num: u as i64,
                v_num: v as i64,
                den: d as i64,
                triangle: tri,
            },
        )
    }
}

pub proof fn lemma_mul_bound(x: int, y: int, bx: int, by: int)
    requires
        -bx <= x <= bx,
        -by <= y <= by,
    ensures
        -(bx * by) <= x * y <= bx * by,
{
    assert(-(bx * by) <= x * y <= bx * by) by (nonlinear_arith)
        requires
            -bx <= x <= bx,
            -by <= y <= by,
    ;
}

fn vsub(a: Vec3, b: Vec3, Ghost(ba): Ghost<int>) -> (r: Vec3)
    requires
        0 <= ba <= 0x1000_0000,
        bounded(a, ba),
        bounded(b, ba),
    ensures
        v3(r) == minus(v3(a), v3(b)),
        bounded(r, 2 * ba),
{
    Vec3 { x: a.x - b.x, y: a.y - b.y, z: a.z - b.z }
}

fn vcross(a: Vec3, b: Vec3, Ghost(ba): Ghost<int>, Ghost(bb): Ghost<int>) -> (r: Vec3)
    requires
        0 <= ba,
        0 <= bb,
        ba * bb <= 0x1000_0000_0000,
        bounded(a, ba),
        bounded(b, bb),
    ensures
        v3(r) == cross(v3(a), v3(b)),
        bounded(r, 2 * (ba * bb)),
{
    proof {
        lemma_mul_bound(a.y as int, b.z as int, ba, bb);
        lemma_mul_bound(a.z as int, b.y as int, ba, bb);
        lemma_mul_bound(a.z as int, b.x as int, ba, bb);
        lemma_mul_bound(a.x as int, b.z as int, ba, bb);
        lemma_mul_bound(a.x as int, b.y as int, ba, bb);
        lemma_mul_bound(a.y as int, b.x as int, ba, bb);
    }
    Vec3 { x: a.y * b.z - a.z * b.y, y: a.z * b.x - a.x * b.z, z: a.x * b.y - a.y * b.x }
}

fn vdot(a: Vec3, b: Vec3, Ghost(ba): Ghost<int>, Ghost(bb): Ghost<int>) -> (r: i64)
    requires
        0 <= ba,
        0 <= bb,
        ba * bb <= 0x0100_0000_0000_0000,
        bounded(a, ba),
        bounded(b, bb),
    ensures
        r == dot(v3(a), v3(b)),
        -(ba * bb + ba * bb + ba * bb) <= r <= ba * bb + ba * bb + ba * bb,
{
    proof {
        lemma_mul_bound(a.x as int, b.x as int, ba, bb);
        lemma_mul_bound(a.y as int, b.y as int, ba, bb);
        lemma_mul_bound(a.z as int, b.z as int, ba, bb);
        let m = ba * bb;
        let (p1, p2, p3) = (a.x * b.x, a.y * b.y, a.z * b.z);
        assert(-m <= p1 <= m);
        assert(-m <= p2 <= m);
        assert(-m <= p3 <= m);
        assert(p1 + p2 + p3 <= m + m + m);
        assert(-m - m - m <= p1 + p2 + p3);
    }
    a.x * b.x + a.y * b.y + a.z * b.z
}

/// Runs the exact ray-triangle test.
pub fn ray_triangle_intersection(ray: &Ray3d, tri: &Triangle) -> (r: Option<Intersection>)
    requires
        ray.wf(),
        tri.wf(),
    ensures
        r == spec_ray_triangle(*ray, *tri),
        r matches Some(h) ==> h.wf(),
{
    let gb = Ghost(MAX_COORD as int);
    let e1 = vsub(tri.v1, tri.v0, gb);
    let e2 = vsub(tri.v2, tri.v0, gb);
    let s = vsub(ray.origin, tri.v0, gb);
    let g2 = Ghost(2 * MAX_COORD as int);
    let gd = Ghost(MAX_DIR as int);
    let p = vcross(ray.direction, e2, gd, g2);
    let q = vcross(s, e1, g2, g2);
    let gp = Ghost(2 * (MAX_DIR as int * (2 * MAX_COORD as int)));
    let gq = Ghost(2 * ((2 * MAX_COORD as int) * (2 * MAX_COORD as int)));
    let det = vdot(e1, p, g2, gp);
    let u = vdot(s, p, g2, gp);
    let v = vdot(ray.direction, q, gd, gq);
    let t = vdot(e2, q, g2, gq);
    assert(mt_raw(*ray, *tri) == (det as int, u as int, v as int, t as int));
    if det == 0 {
        return None;
    }
    let (d, u, v, t) = if det < 0 {
        (-det, -u, -v, -t)
    } else {
        (det, u, v, t)
    };
    if u < 0 || v < 0 || u + v > d || t < 0 {
        None
    } else {
        Some(Intersection { t_num: t, u_num: u, v_num: v, den: d, triangle: *tri })
    }
}

/// Being nearer is transitive among hits with positive denominators.
pub proof fn lemma_closer_transitive(a: Intersection, b: Intersection, c: Intersection)
    requires
        a.den > 0,
        b.den > 0,
        c.den > 0,
        closer(a, b),
        closer(b, c),
    ensures
        closer(a, c),
{
    let (at, ad, bt, bd, ct, cd) = (
        a.t_num as int,
        a.den as int,
        b.t_num as int,
        b.den as int,
        c.t_num as int,
        c.den as int,
    );
    assert(at * bd * cd < bt * ad * cd) by (nonlinear_arith)
        requires
            at * bd < bt * ad,
            cd > 0,
    ;
    assert(bt * cd * ad < ct * bd * ad) by (nonlinear_arith)
        requires
            bt * cd < ct * bd,
            ad > 0,
    ;
    assert((at * cd) * bd < (ct * ad) * bd) by (nonlinear_arith)
        requires
            at * bd * cd < bt * ad * cd,
            bt * cd * ad < ct * bd * ad,
    ;
    assert(at * cd < ct * ad) by (nonlinear_arith)
        requires
            (at * cd) * bd < (ct * ad) * bd,
            bd > 0,
    ;
}

} // verus!
