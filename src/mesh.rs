use vstd::prelude::*;

use crate::geometry::{
    closer, is_closer, lemma_closer_transitive, point_ok, ray_triangle_intersection, spec_ray_triangle, Intersection,
    Ray3d, Triangle, Vec3, MAX_COORD,
};

verus! {

/// An object's placement in the world: a linear map, given by the images of
/// the three local axes, then a translation.
#[derive(Clone, Copy, Debug, PartialEq, Eq, Structural)]
pub struct Transform {
    pub x_axis: Vec3,
    pub y_axis: Vec3,
    pub z_axis: Vec3,
    pub translation: Vec3,
}

impl Transform {
    pub open spec fn wf(&self) -> bool {
        &&& point_ok(self.translation)
        &&& point_ok(self.x_axis)
        &&& point_ok(self.y_axis)
        &&& point_ok(self.z_axis)
    }

    /// The transform that scales each axis, then translates.
    pub fn from_scale_translation(scale: Vec3, translation: Vec3) -> (r: Transform)
        ensures
            r.x_axis == (Vec3 { x: scale.x, y: 0, z: 0 }),
            r.y_axis == (Vec3 { x: 0, y: scale.y, z: 0 }),
            r.z_axis == (Vec3 { x: 0, y: 0, z: scale.z }),
            r.translation == translation,
    {
        Transform {
            x_axis: Vec3 { x: scale.x, y: 0, z: 0 },
            y_axis: Vec3 { x: 0, y: scale.y, z: 0 },
            z_axis: Vec3 { x: 0, y: 0, z: scale.z },
            translation,
        }
    }
}

/// One world coordinate of `p`: `p.x * a + p.y * b + p.z * c + t`, where
/// `a`, `b`, `c` are that coordinate of the three axis images.
pub open spec fn lin(p: Vec3, a: i64, b: i64, c: i64, t: i64) -> int {
    p.x * a + p.y * b + p.z * c + t
}

/// The world position of a local point, as integers.
pub open spec fn apply(xf: Transform, p: Vec3) -> (int, int, int) {
    (
        lin(p, xf.x_axis.x, xf.y_axis.x, xf.z_axis.x, xf.translation.x),
        lin(p, xf.x_axis.y, xf.y_axis.y, xf.z_axis.y, xf.translation.y),
        lin(p, xf.x_axis.z, xf.y_axis.z, xf.z_axis.z, xf.translation.z),
    )
}

pub open spec fn coord_ok(c: int) -> bool {
    -MAX_COORD <= c <= MAX_COORD
}

/// The world-space image of a local point, or `None` where it leaves the
/// representable range.
pub open spec fn spec_transform_point(xf: Transform, p: Vec3) -> Option<Vec3> {
    let (x, y, z) = apply(xf, p);
    if coord_ok(x) && coord_ok(y) && coord_ok(z) {
        Some(Vec3 { x: x as i64, y: y as i64, z: z as i64 })
    } else {
        None
    }
}

proof fn lemma_term_fits(p: i64, a: i64)
    requires
        coord_ok(a as int),
    ensures
        -0x8000_0000_0000_0000_0000 <= p * a <= 0x8000_0000_0000_0000_0000,
{
    assert(-0x8000_0000_0000_0000_0000 <= p * a <= 0x8000_0000_0000_0000_0000) by (nonlinear_arith)
        requires
            -65536 <= a <= 65536,
            -0x8000_0000_0000_0000 <= p <= 0x8000_0000_0000_0000,
    ;
}

pub(crate) fn lin_coord(p: Vec3, a: i64, b: i64, c: i64, t: i64) -> (r: i128)
    requires
        coord_ok(a as int),
        coord_ok(b as int),
        coord_ok(c as int),
        coord_ok(t as int),
    ensures
        r == lin(p, a, b, c, t),
        -0x2_0000_0000_0000_0000_0000 <= r <= 0x2_0000_0000_0000_0000_0000,
{
    proof {
        lemma_term_fits(p.x, a);
        lemma_term_fits(p.y, b);
        lemma_term_fits(p.z, c);
    }
    (p.x as i128) * (a as i128) + (p.y as i128) * (b as i128) + (p.z as i128) * (c as i128) + (
    t as i128)
}

fn in_range(c: i128) -> (r: bool)
    ensures
        r == coord_ok(c as int),
{
    -(MAX_COORD as i128) <= c && c <= MAX_COORD as i128
}

/// Maps a local point into world space; `None` where a coordinate leaves
/// the representable range.
pub fn transform_point(xf: &Transform, p: Vec3) -> (r: Option<Vec3>)
    requires
        xf.wf(),
    ensures
        r == spec_transform_point(*xf, p),
        r matches Some(w) ==> point_ok(w),
{
    let x = lin_coord(p, xf.x_axis.x, xf.y_axis.x, xf.z_axis.x, xf.translation.x);
    let y = lin_coord(p, xf.x_axis.y, xf.y_axis.y, xf.z_axis.y, xf.translation.y);
    let z = lin_coord(p, xf.x_axis.z, xf.y_axis.z, xf.z_axis.z, xf.translation.z);
    if in_range(x) && in_range(y) && in_range(z) {
        Some(Vec3 { x: x as i64, y: y as i64, z: z as i64 })
    } else {
        None
    }
}

/// How a mesh's vertices are assembled into primitives.
#[derive(Clone, Copy, Debug, PartialEq, Eq, Structural)]
pub enum PrimitiveTopology {
    PointList,
    LineList,
    LineStrip,
    TriangleList,
    TriangleStrip,
}

/// A mesh's index list, in either width.
#[derive(Clone, Debug)]
pub enum Indices {
    U16(Vec<u16>),
    U32(Vec<u32>),
}

impl Indices {
    /// The indices, widened to 32 bits.
    pub open spec fn wide(&self) -> Seq<u32> {
        match self {
            Indices::U16(v) => v@.map_values(|x: u16| x as u32),
            Indices::U32(v) => v@,
        }
    }

    /// Copies the indices into one 32-bit list.
    pub fn to_u32(&self) -> (r: Vec<u32>)
        ensures
            r@ == self.wide(),
    {
        match self {
            Indices::U16(v) => {
                let mut r: Vec<u32> = Vec::new();
                let mut i: usize = 0;
                while i < v.len()
                    invariant
                        i <= v.len(),
                        r@ == v@.subrange(0, i as int).map_values(|x: u16| x as u32),
                    decreases v.len() - i,
                {
                    r.push(v[i] as u32);
                    i = i + 1;
                    assert(r@ =~= v@.subrange(0, i as int).map_values(|x: u16| x as u32));
                }
                assert(v@.subrange(0, v.len() as int) =~= v@);
                r
            },
            Indices::U32(v) => v.clone(),
        }
    }
}

/// Triangle geometry as an application hands it over.
#[derive(Clone, Debug)]
pub struct Mesh {
    pub topology: PrimitiveTopology,
    pub positions: Option<Vec<Vec3>>,
    pub indices: Option<Indices>,
}

/// A mesh that cannot be tested against a ray.
#[derive(Clone, Copy, Debug, PartialEq, Eq, Structural)]
pub enum MeshError {
    /// The topology is not a list of independent triangles.
    NotTriangleList,
    /// The mesh has no vertex positions.
    MissingPositions,
    /// The mesh has no index list.
    MissingIndices,
    /// An index names no vertex.
    IndexOutOfBounds,
    /// A vertex leaves the representable range once placed in the world.
    CoordinateOverflow,
}

/// The world-space triangle number `k` of an index list.
pub open spec fn spec_triangle_at(xf: Transform, pos: Seq<Vec3>, idx: Seq<u32>, k: int) -> Result<
    Triangle,
    MeshError,
> {
    let (i0, i1, i2) = (idx[3 * k] as int, idx[3 * k + 1] as int, idx[3 * k + 2] as int);
    if i0 >= pos.len() || i1 >= pos.len() || i2 >= pos.len() {
        Err(MeshError::IndexOutOfBounds)
    } else {
        match (
            spec_transform_point(xf, pos[i0]),
            spec_transform_point(xf, pos[i1]),
            spec_transform_point(xf, pos[i2]),
        ) {
            (Some(a), Some(b), Some(c)) => Ok(Triangle { v0: a, v1: b, v2: c }),
            _ => Err(MeshError::CoordinateOverflow),
        }
    }
}

/// Keeps the nearer of a best hit so far and a new one; the earlier wins a tie.
pub open spec fn nearer(best: Option<Intersection>, h: Option<Intersection>) -> Option<
    Intersection,
> {
    match h {
        None => best,
        Some(x) => match best {
            None => Some(x),
            Some(b) => if closer(x, b) {
                Some(x)
            } else {
                Some(b)
            },
        },
    }
}

/// The nearest hit over the first `k` triangles, or the first error met.
pub open spec fn spec_scan(xf: Transform, ray: Ray3d, pos: Seq<Vec3>, idx: Seq<u32>, k: int) -> Result<
    Option<Intersection>,
    MeshError,
>
    decreases k,
{
    if k <= 0 {
        Ok(None)
    } else {
        match spec_scan(xf, ray, pos, idx, k - 1) {
            Err(e) => Err(e),
            Ok(b) => match spec_triangle_at(xf, pos, idx, k - 1) {
                Err(e) => Err(e),
                Ok(t) => Ok(nearer(b, spec_ray_triangle(ray, t))),
            },
        }
    }
}

/// The nearest hit of a ray on an indexed triangle list. An index list whose
/// length is not a multiple of three yields no hit.
pub open spec fn spec_ray_mesh(xf: Transform, ray: Ray3d, pos: Seq<Vec3>, idx: Seq<u32>) -> Result<
    Option<Intersection>,
    MeshError,
> {
    if idx.len() % 3 != 0 {
        Ok(None)
    } else {
        spec_scan(xf, ray, pos, idx, (idx.len() / 3) as int)
    }
}

/// The hit of `ray` on triangle number `j`, if that triangle can be built.
pub open spec fn tri_hit(xf: Transform, ray: Ray3d, pos: Seq<Vec3>, idx: Seq<u32>, j: int) -> Option<
    Intersection,
> {
    match spec_triangle_at(xf, pos, idx, j) {
        Ok(t) => spec_ray_triangle(ray, t),
        Err(_) => None,
    }
}

proof fn lemma_scan_err_stays(
    xf: Transform,
    ray: Ray3d,
    pos: Seq<Vec3>,
    idx: Seq<u32>,
    k: int,
    m: int,
)
    requires
        0 <= k <= m,
        spec_scan(xf, ray, pos, idx, k) is Err,
    ensures
        spec_scan(xf, ray, pos, idx, m) == spec_scan(xf, ray, pos, idx, k),
    decreases m - k,
{
    if k < m {
        lemma_scan_err_stays(xf, ray, pos, idx, k, m - 1);
    }
}

/// The nearest hit of `ray` on the triangles that `indices` picks out of
/// `vertex_positions`, each placed in the world by `mesh_to_world`.
pub fn ray_mesh_intersection(
    mesh_to_world: &Transform,
    vertex_positions: &Vec<Vec3>,
    pick_ray: &Ray3d,
    indices: &Vec<u32>,
) -> (r: Result<Option<Intersection>, MeshError>)
    requires
        mesh_to_world.wf(),
        pick_ray.wf(),
    ensures
        r == spec_ray_mesh(*mesh_to_world, *pick_ray, vertex_positions@, indices@),
        r matches Ok(Some(h)) ==> h.wf(),
        r matches Ok(Some(h)) ==> exists|j: int|
            0 <= j < indices.len() / 3 && tri_hit(
                *mesh_to_world,
                *pick_ray,
                vertex_positions@,
                indices@,
                j,
            ) == Some(h),
        r matches Ok(Some(h)) ==> forall|j: int|
            0 <= j < indices.len() / 3 ==> (#[trigger] tri_hit(
                *mesh_to_world,
                *pick_ray,
                vertex_positions@,
                indices@,
                j,
            ) matches Some(g) ==> !closer(g, h)),
        r matches Ok(None) && indices.len() % 3 == 0 ==> forall|j: int|
            0 <= j < indices.len() / 3 ==> #[trigger] tri_hit(
                *mesh_to_world,
                *pick_ray,
                vertex_positions@,
                indices@,
                j,
            ) is None,
{
    if indices.len() % 3 != 0 {
        return Ok(None);
    }
    let n = indices.len() / 3;
    let ghost xf = *mesh_to_world;
    let ghost pos = vertex_positions@;
    let ghost idx = indices@;
    let mut best: Option<Intersection> = None;
    let mut k: usize = 0;
    while k < n
        invariant
            n == indices.len() / 3,
            indices.len() % 3 == 0,
            k <= n,
            xf == *mesh_to_world,
            pos == vertex_positions@,
            idx == indices@,
            xf.wf(),
            pick_ray.wf(),
            spec_scan(xf, *pick_ray, pos, idx, k as int) == Ok::<Option<Intersection>, MeshError>(
                best,
            ),
            best matches Some(h) ==> h.wf(),
            best matches Some(h) ==> exists|j: int|
                0 <= j < k && tri_hit(xf, *pick_ray, pos, idx, j) == Some(h),
            forall|j: int|
                0 <= j < k ==> (#[trigger] tri_hit(xf, *pick_ray, pos, idx, j) matches Some(g)
                    ==> g.wf() && best is Some && !closer(g, best.unwrap())),
        decreases n - k,
    {
        let i0 = indices[3 * k] as usize;
        let i1 = indices[3 * k + 1] as usize;
        let i2 = indices[3 * k + 2] as usize;
        let np = vertex_positions.len();
        if i0 >= np || i1 >= np || i2 >= np {
            proof {
                assert(spec_triangle_at(xf, pos, idx, k as int) == Err::<Triangle, MeshError>(
                    MeshError::IndexOutOfBounds,
                ));
                assert(spec_scan(xf, *pick_ray, pos, idx, k + 1) == Err::<
                    Option<Intersection>,
                    MeshError,
                >(MeshError::IndexOutOfBounds));
                lemma_scan_err_stays(xf, *pick_ray, pos, idx, k + 1, n as int);
            }
            return Err(MeshError::IndexOutOfBounds);
        }
        let a = transform_point(mesh_to_world, vertex_positions[i0]);
        let b = transform_point(mesh_to_world, vertex_positions[i1]);
        let c = transform_point(mesh_to_world, vertex_positions[i2]);
        match (a, b, c) {
            (Some(a), Some(b), Some(c)) => {
                let tri = Triangle { v0: a, v1: b, v2: c };
                assert(spec_triangle_at(xf, pos, idx, k as int) == Ok::<Triangle, MeshError>(tri));
                let hit = ray_triangle_intersection(pick_ray, &tri);
                let ghost old_best = best;
                assert(tri_hit(xf, *pick_ray, pos, idx, k as int) == hit);
                match hit {
                    None => {},
                    Some(x) => {
                        match best {
                            None => {
                                best = Some(x);
                            },
                            Some(cur) => {
                                if is_closer(&x, &cur) {
                                    best = Some(x);
                                    assert forall|j: int|
                                        0 <= j < k implies (#[trigger] tri_hit(
                                        xf,
                                        *pick_ray,
                                        pos,
                                        idx,
                                        j,
                                    ) matches Some(g) ==> !closer(g, x)) by {
                                        if let Some(g) = tri_hit(xf, *pick_ray, pos, idx, j) {
                                            if closer(g, x) {
                                                lemma_closer_transitive(g, x, cur);
                                            }
                                        }
                                    }
                                }
                            },
                        }
                    },
                }
            },
            _ => {
                proof {
                    assert(spec_triangle_at(xf, pos, idx, k as int) == Err::<Triangle, MeshError>(
                        MeshError::CoordinateOverflow,
                    ));
                    assert(spec_scan(xf, *pick_ray, pos, idx, k + 1) == Err::<
                        Option<Intersection>,
                        MeshError,
                    >(MeshError::CoordinateOverflow));
                    lemma_scan_err_stays(xf, *pick_ray, pos, idx, k + 1, n as int);
                }
                return Err(MeshError::CoordinateOverflow);
            },
        }
        k = k + 1;
    }
    Ok(best)
}

/// The nearest hit of a ray on a mesh, or why the mesh cannot be tested.
pub open spec fn spec_mesh_hit(m: Mesh, xf: Transform, ray: Ray3d) -> Result<
    Option<Intersection>,
    MeshError,
> {
    if m.topology != PrimitiveTopology::TriangleList {
        Err(MeshError::NotTriangleList)
    } else {
        match m.positions {
            None => Err(MeshError::MissingPositions),
            Some(p) => match m.indices {
                None => Err(MeshError::MissingIndices),
                Some(i) => spec_ray_mesh(xf, ray, p@, i.wide()),
            },
        }
    }
}

/// Checks that a mesh is a triangle list with positions and indices, then
/// finds the nearest hit of the ray on it.
pub fn mesh_intersection(mesh: &Mesh, mesh_to_world: &Transform, ray: &Ray3d) -> (r: Result<
    Option<Intersection>,
    MeshError,
>)
    requires
        mesh_to_world.wf(),
        ray.wf(),
    ensures
        r == spec_mesh_hit(*mesh, *mesh_to_world, *ray),
        r matches Ok(Some(h)) ==> h.wf(),
{
    match mesh.topology {
        PrimitiveTopology::TriangleList => {},
        _ => {
            return Err(MeshError::NotTriangleList);
        },
    }
    match &mesh.positions {
        None => Err(MeshError::MissingPositions),
        Some(p) => match &mesh.indices {
            None => Err(MeshError::MissingIndices),
            Some(i) => {
                let wide = i.to_u32();
                ray_mesh_intersection(mesh_to_world, p, ray, &wide)
            },
        },
    }
}

} // verus!
