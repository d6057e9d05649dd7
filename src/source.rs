use vstd::prelude::*;

use crate::bounding::{cull_keeps, survives_culling, BoundingSphere};
use crate::geometry::{closer, is_closer, Intersection, Ray3d};
use crate::mesh::{mesh_intersection, spec_mesh_hit, Mesh, MeshError, Transform};

verus! {

broadcast use vstd::seq_lib::group_to_multiset_ensures;

/// A position on screen.
#[derive(Clone, Copy, Debug, PartialEq, Eq, Structural)]
pub struct ScreenPos {
    pub x: i64,
    pub y: i64,
}

/// When a cursor-driven source casts a new ray.
#[derive(Clone, Copy, Debug, PartialEq, Eq, Structural)]
pub enum UpdateOn {
    /// Every update, from the last cursor position seen (kept here).
    EveryFrame(ScreenPos),
    /// Only in updates where the cursor moved over the camera's window.
    OnMouseEvent,
}

/// How a source makes its ray.
#[derive(Clone, Copy, Debug, PartialEq, Eq, Structural)]
pub enum RayCastMethod {
    /// From the cursor, through a camera.
    CameraCursor(UpdateOn),
    /// From given screen coordinates, through a camera.
    CameraScreenSpace(ScreenPos),
    /// Along the forward axis of the source's own transform.
    Transform,
}

/// The latest cursor movement, with the window it happened in.
#[derive(Clone, Copy, Debug, PartialEq, Eq, Structural)]
pub struct CursorMoved {
    pub window: u64,
    pub position: ScreenPos,
}

/// The cursor position of an event in `window`, if the event happened there.
pub open spec fn event_in(latest: Option<CursorMoved>, window: u64) -> Option<ScreenPos> {
    match latest {
        Some(e) => if e.window == window {
            Some(e.position)
        } else {
            None
        },
        None => None,
    }
}

/// The position to cast from (none: skip this update) and the policy to keep.
pub open spec fn spec_cursor_position(
    update: UpdateOn,
    latest: Option<CursorMoved>,
    window: u64,
) -> (Option<ScreenPos>, UpdateOn) {
    match update {
        UpdateOn::EveryFrame(cached) => {
            let p = match event_in(latest, window) {
                Some(p) => p,
                None => cached,
            };
            (Some(p), UpdateOn::EveryFrame(p))
        },
        UpdateOn::OnMouseEvent => (event_in(latest, window), UpdateOn::OnMouseEvent),
    }
}

/// Chooses the screen position a cursor-driven source casts from.
pub fn cursor_position(update: UpdateOn, latest: Option<CursorMoved>, window: u64) -> (r: (
    Option<ScreenPos>,
    UpdateOn,
))
    ensures
        r == spec_cursor_position(update, latest, window),
{
    let ev = match latest {
        Some(e) => if e.window == window {
            Some(e.position)
        } else {
            None
        },
        None => None,
    };
    match update {
        UpdateOn::EveryFrame(cached) => {
            let p = match ev {
                Some(p) => p,
                None => cached,
            };
            (Some(p), UpdateOn::EveryFrame(p))
        },
        UpdateOn::OnMouseEvent => (ev, UpdateOn::OnMouseEvent),
    }
}

/// The ray of a transform-driven source: from the translation, along the
/// image of the local forward axis `(0, 0, 1)`.
pub open spec fn spec_transform_ray(xf: Transform) -> Ray3d {
    Ray3d { origin: xf.translation, direction: xf.z_axis }
}

/// Makes the ray of a transform-driven source.
pub fn ray_from_transform(xf: &Transform) -> (r: Ray3d)
    requires
        xf.wf(),
    ensures
        r.wf(),
        r == spec_transform_ray(*xf),
{
    Ray3d { origin: xf.translation, direction: xf.z_axis }
}

/// Marks a pickable object, and holds its nearest hit of the last update.
#[derive(Clone, Copy, Debug)]
pub struct RayCastMesh {
    intersection: Option<Intersection>,
}

impl RayCastMesh {
    pub closed spec fn spec_intersection(&self) -> Option<Intersection> {
        self.intersection
    }

    pub fn intersection(&self) -> (r: Option<Intersection>)
        ensures
            r == self.spec_intersection(),
    {
        self.intersection
    }
}

impl Default for RayCastMesh {
    fn default() -> (r: RayCastMesh)
        ensures
            r.spec_intersection() is None,
    {
        RayCastMesh { intersection: None }
    }
}

/// What the update step reads of one pickable object.
#[derive(Clone, Debug)]
pub struct PickTarget {
    pub entity: u64,
    pub visible: bool,
    pub bound: Option<BoundingSphere>,
    pub transform: Transform,
    pub mesh: Option<Mesh>,
}

/// An object's nearest hit: none if culled or its mesh is not loaded.
pub open spec fn object_result(ray: Ray3d, o: PickTarget) -> Result<Option<Intersection>, MeshError> {
    if !cull_keeps(ray, o.visible, o.bound, o.transform) {
        Ok(None)
    } else {
        match o.mesh {
            None => Ok(None),
            Some(m) => spec_mesh_hit(m, o.transform, ray),
        }
    }
}

/// The hits of the first `k` objects, in their order, or the first error.
pub open spec fn spec_collect(ray: Ray3d, objs: Seq<PickTarget>, k: int) -> Result<
    Seq<(u64, Intersection)>,
    MeshError,
>
    decreases k,
{
    if k <= 0 {
        Ok(Seq::empty())
    } else {
        match spec_collect(ray, objs, k - 1) {
            Err(e) => Err(e),
            Ok(s) => match object_result(ray, objs[k - 1]) {
                Err(e) => Err(e),
                Ok(None) => Ok(s),
                Ok(Some(h)) => Ok(s.push((objs[k - 1].entity, h))),
            },
        }
    }
}

proof fn lemma_collect_err_stays(ray: Ray3d, objs: Seq<PickTarget>, k: int, m: int)
    requires
        0 <= k <= m,
        spec_collect(ray, objs, k) is Err,
    ensures
        spec_collect(ray, objs, m) == spec_collect(ray, objs, k),
    decreases m - k,
{
    if k < m {
        lemma_collect_err_stays(ray, objs, k, m - 1);
    }
}

/// Hits in order of distance: no hit is strictly nearer than the one before it.
pub open spec fn sorted_by_distance(s: Seq<(u64, Intersection)>) -> bool {
    forall|i: int| 0 <= i < s.len() - 1 ==> !closer(#[trigger] s[i + 1].1, s[i].1)
}

/// Places `x` after every hit that is not strictly farther than it.
pub open spec fn insert_by_distance(s: Seq<(u64, Intersection)>, x: (u64, Intersection)) -> Seq<
    (u64, Intersection),
>
    decreases s.len(),
{
    if s.len() == 0 {
        seq![x]
    } else if closer(x.1, s[0].1) {
        seq![x] + s
    } else {
        seq![s[0]] + insert_by_distance(s.drop_first(), x)
    }
}

/// Hits ordered by distance, ties in their first order: each hit in turn is
/// placed after every hit already placed that is not strictly farther.
pub open spec fn spec_sort(s: Seq<(u64, Intersection)>) -> Seq<(u64, Intersection)>
    decreases s.len(),
{
    if s.len() == 0 {
        s
    } else {
        insert_by_distance(spec_sort(s.drop_last()), s.last())
    }
}

proof fn lemma_insert_at(s: Seq<(u64, Intersection)>, x: (u64, Intersection), j: int)
    requires
        0 <= j <= s.len(),
        forall|m: int| 0 <= m < j ==> !closer(x.1, #[trigger] s[m].1),
        j < s.len() ==> closer(x.1, s[j].1),
    ensures
        insert_by_distance(s, x) == s.insert(j, x),
    decreases s.len(),
{
    if s.len() == 0 {
        assert(s.insert(j, x) =~= seq![x]);
    } else if j == 0 {
        assert(s.insert(j, x) =~= seq![x] + s);
    } else {
        let t = s.drop_first();
        assert forall|m: int| 0 <= m < j - 1 implies !closer(x.1, #[trigger] t[m].1) by {
            assert(t[m] == s[m + 1]);
        }
        lemma_insert_at(t, x, j - 1);
        assert(s.insert(j, x) =~= seq![s[0]] + t.insert(j - 1, x));
    }
}

/// Orders hits by distance; hits at equal distance keep their order.
pub fn sort_by_distance(v: &Vec<(u64, Intersection)>) -> (r: Vec<(u64, Intersection)>)
    ensures
        r@ == spec_sort(v@),
        r@.to_multiset() == v@.to_multiset(),
        sorted_by_distance(r@),
{
    let mut r: Vec<(u64, Intersection)> = Vec::new();
    let mut i: usize = 0;
    while i < v.len()
        invariant
            i <= v.len(),
            r@.to_multiset() == v@.subrange(0, i as int).to_multiset(),
            r@ == spec_sort(v@.subrange(0, i as int)),
            sorted_by_distance(r@),
        decreases v.len() - i,
    {
        let x = v[i];
        let mut j: usize = 0;
        while j < r.len() && !is_closer(&x.1, &r[j].1)
            invariant
                j <= r.len(),
                forall|m: int| 0 <= m < j ==> !closer(x.1, #[trigger] r@[m].1),
            decreases r.len() - j,
        {
            j = j + 1;
        }
        let ghost old_r = r@;
        assert(j < old_r.len() ==> closer(x.1, old_r[j as int].1));
        r.insert(j, x);
        assert(r@ == old_r.insert(j as int, x));
        proof {
            vstd::seq_lib::to_multiset_insert(old_r, j as int, x);
            assert(v@.subrange(0, i + 1) =~= v@.subrange(0, i as int).push(x));
            lemma_insert_at(old_r, x, j as int);
            assert(v@.subrange(0, i + 1).drop_last() =~= v@.subrange(0, i as int));
            assert forall|k: int| 0 <= k < r@.len() - 1 implies !closer(
                #[trigger] r@[k + 1].1,
                r@[k].1,
            ) by {
                if k + 1 < j {
                    assert(r@[k + 1] == old_r[k + 1] && r@[k] == old_r[k]);
                } else if k + 1 == j {
                } else if k == j {
                    assert(r@[k] == x && r@[k + 1] == old_r[k]);
                } else {
                    assert(r@[k + 1] == old_r[k] && r@[k] == old_r[k - 1]);
                    assert(!closer(old_r[(k - 1) + 1].1, old_r[k - 1].1));
                }
            }
        }
        i = i + 1;
    }
    assert(v@.subrange(0, v.len() as int) =~= v@);
    r
}

/// A picking origin: how it makes its ray, the last ray, and the hits of the
/// last update in order of distance.
#[derive(Clone, Debug)]
pub struct RayCastSource {
    pub cast_method: RayCastMethod,
    ray: Option<Ray3d>,
    intersections: Vec<(u64, Intersection)>,
}

impl RayCastSource {
    pub closed spec fn spec_method(&self) -> RayCastMethod {
        self.cast_method
    }

    /// This source with another method.
    pub closed spec fn with_method(&self, m: RayCastMethod) -> RayCastSource {
        RayCastSource { cast_method: m, ..*self }
    }

    pub fn method(&self) -> (r: RayCastMethod)
        ensures
            r == self.spec_method(),
    {
        self.cast_method
    }

    pub closed spec fn spec_ray(&self) -> Option<Ray3d> {
        self.ray
    }

    pub closed spec fn hits(&self) -> Seq<(u64, Intersection)> {
        self.intersections@
    }

    pub fn new(pick_method: RayCastMethod) -> (r: RayCastSource)
        ensures
            r.spec_method() == pick_method,
            r.spec_ray() is None,
            r.hits().len() == 0,
    {
        RayCastSource { cast_method: pick_method, ray: None, intersections: Vec::new() }
    }

    /// The ray of the last update, if one was cast.
    pub fn ray(&self) -> (r: Option<Ray3d>)
        ensures
            r == self.spec_ray(),
    {
        self.ray
    }

    /// All hits of the last update, nearest first; none if there were none.
    pub fn intersect_list(&self) -> (r: Option<&Vec<(u64, Intersection)>>)
        ensures
            r is None <==> self.hits().len() == 0,
            r matches Some(l) ==> l@ == self.hits(),
    {
        if self.intersections.len() == 0 {
            None
        } else {
            Some(&self.intersections)
        }
    }

    /// The first hit of the last update; none if there were none.
    pub fn intersect_top(&self) -> (r: Option<(u64, Intersection)>)
        ensures
            r == (if self.hits().len() == 0 {
                None
            } else {
                Some(self.hits()[0])
            }),
    {
        if self.intersections.len() == 0 {
            None
        } else {
            Some(self.intersections[0])
        }
    }
}

impl Default for RayCastSource {
    fn default() -> (r: RayCastSource)
        ensures
            r.spec_method() == RayCastMethod::CameraCursor(
                UpdateOn::EveryFrame(ScreenPos { x: 0, y: 0 }),
            ),
            r.spec_ray() is None,
            r.hits().len() == 0,
    {
        RayCastSource::new(RayCastMethod::CameraCursor(UpdateOn::EveryFrame(ScreenPos { x: 0, y: 0 })))
    }
}

/// What an update with `ray` over `objs` leaves: on success, the ray and all
/// hits nearest first, and each object's own nearest hit in `r`; on a
/// malformed candidate mesh, the error and no ray or hits at all.
pub open spec fn update_done(
    before: RayCastSource,
    after: RayCastSource,
    ray: Ray3d,
    objs: Seq<PickTarget>,
    r: Result<Vec<RayCastMesh>, MeshError>,
) -> bool {
    &&& after.spec_method() == before.spec_method()
    &&& match spec_collect(ray, objs, objs.len() as int) {
        Ok(hits) => {
            &&& r is Ok
            &&& after.spec_ray() == Some(ray)
            &&& after.hits() == spec_sort(hits)
            &&& after.hits().to_multiset() == hits.to_multiset()
            &&& sorted_by_distance(after.hits())
            &&& r.unwrap()@.len() == objs.len()
            &&& forall|i: int|
                0 <= i < objs.len() ==> object_result(ray, objs[i]) == Ok::<
                    Option<Intersection>,
                    MeshError,
                >((#[trigger] r.unwrap()@[i]).spec_intersection())
        },
        Err(e) => {
            &&& r == Err::<Vec<RayCastMesh>, MeshError>(e)
            &&& after.spec_ray() is None
            &&& after.hits().len() == 0
        },
    }
}

/// Casts `ray` from `source` against `objects`: culls them, finds each
/// candidate's nearest hit, and stores all hits on the source, nearest first.
/// Returns each object's own nearest hit, in the order of `objects`. A
/// malformed candidate mesh is reported, and no stale ray or hit is kept.
pub fn update_raycast(source: &mut RayCastSource, ray: Ray3d, objects: &Vec<PickTarget>) -> (r:
    Result<Vec<RayCastMesh>, MeshError>)
    requires
        ray.wf(),
        forall|i: int| 0 <= i < objects.len() ==> (#[trigger] objects@[i]).transform.wf(),
    ensures
        update_done(*old(source), *final(source), ray, objects@, r),
{
    let mut hits: Vec<(u64, Intersection)> = Vec::new();
    let mut per_object: Vec<RayCastMesh> = Vec::new();
    let mut k: usize = 0;
    while k < objects.len()
        invariant
            k <= objects.len(),
            ray.wf(),
            forall|i: int| 0 <= i < objects.len() ==> (#[trigger] objects@[i]).transform.wf(),
            spec_collect(ray, objects@, k as int) == Ok::<Seq<(u64, Intersection)>, MeshError>(
                hits@,
            ),
            per_object@.len() == k,
            *source == *old(source),
            forall|i: int|
                0 <= i < k ==> object_result(ray, objects@[i]) == Ok::<
                    Option<Intersection>,
                    MeshError,
                >((#[trigger] per_object@[i]).spec_intersection()),
        decreases objects.len() - k,
    {
        let o = &objects[k];
        assert(o.transform.wf());
        let res = if !survives_culling(&ray, o.visible, &o.bound, &o.transform) {
            Ok(None)
        } else {
            match &o.mesh {
                None => Ok(None),
                Some(m) => mesh_intersection(m, &o.transform, &ray),
            }
        };
        assert(res == object_result(ray, objects@[k as int]));
        match res {
            Err(e) => {
                proof {
                    lemma_collect_err_stays(ray, objects@, k + 1, objects.len() as int);
                }
                source.ray = None;
                source.intersections = Vec::new();
                return Err(e);
            },
            Ok(h) => {
                if let Some(x) = h {
                    hits.push((o.entity, x));
                }
                per_object.push(RayCastMesh { intersection: h });
            },
        }
        k = k + 1;
    }
    source.ray = Some(ray);
    source.intersections = sort_by_distance(&hits);
    Ok(per_object)
}

/// Casting is deterministic: two sources updated with the same ray over the
/// same objects hold the same hits in the same order.
pub proof fn lemma_update_deterministic(
    ray: Ray3d,
    objs: Seq<PickTarget>,
    a: RayCastSource,
    b: RayCastSource,
)
    requires
        spec_collect(ray, objs, objs.len() as int) matches Ok(h) && a.hits() == spec_sort(h)
            && b.hits() == spec_sort(h),
    ensures
        a.hits() == b.hits(),
{
}

/// A ray that hits no object leaves no hit to collect, so the source's
/// list of all hits is empty and it has no nearest hit.
pub proof fn lemma_no_hits_when_all_miss(ray: Ray3d, objs: Seq<PickTarget>, src: RayCastSource)
    requires
        forall|i: int|
            0 <= i < objs.len() ==> object_result(ray, #[trigger] objs[i]) == Ok::<
                Option<Intersection>,
                MeshError,
            >(None),
        spec_collect(ray, objs, objs.len() as int) matches Ok(h) && src.hits().to_multiset()
            == h.to_multiset(),
    ensures
        spec_collect(ray, objs, objs.len() as int) == Ok::<Seq<(u64, Intersection)>, MeshError>(
            Seq::empty(),
        ),
        src.hits().len() == 0,
{
    lemma_collect_all_miss(ray, objs, objs.len() as int);
    src.hits().to_multiset_ensures();
    Seq::<(u64, Intersection)>::empty().to_multiset_ensures();
}

proof fn lemma_collect_all_miss(ray: Ray3d, objs: Seq<PickTarget>, k: int)
    requires
        0 <= k <= objs.len(),
        forall|i: int|
            0 <= i < objs.len() ==> object_result(ray, #[trigger] objs[i]) == Ok::<
                Option<Intersection>,
                MeshError,
            >(None),
    ensures
        spec_collect(ray, objs, k) == Ok::<Seq<(u64, Intersection)>, MeshError>(Seq::empty()),
    decreases k,
{
    if k > 0 {
        lemma_collect_all_miss(ray, objs, k - 1);
        assert(object_result(ray, objs[k - 1]) == Ok::<Option<Intersection>, MeshError>(None));
    }
}

/// Why a source could not cast this update.
#[derive(Clone, Copy, Debug, PartialEq, Eq, Structural)]
pub enum CastError {
    /// A camera-driven source has no camera.
    MissingCamera,
    /// The source has no world transform.
    MissingTransform,
    /// A candidate's mesh cannot be tested.
    Mesh(MeshError),
}

/// The ray a source casts this update and the method it keeps, `None` to
/// skip the update, or why it cannot cast. `camera_ray` is the ray through
/// the camera at the position the method picks; `xf` is the source's world
/// transform.
pub open spec fn spec_due_ray(
    method: RayCastMethod,
    latest: Option<CursorMoved>,
    window: u64,
    xf: Option<Transform>,
    camera_ray: Option<Ray3d>,
) -> Result<Option<(Ray3d, RayCastMethod)>, CastError> {
    match method {
        RayCastMethod::CameraCursor(u) => match camera_ray {
            None => Err(CastError::MissingCamera),
            Some(cr) => {
                let (p, next) = spec_cursor_position(u, latest, window);
                if p is None {
                    Ok(None)
                } else if xf is None {
                    Err(CastError::MissingTransform)
                } else {
                    Ok(Some((cr, RayCastMethod::CameraCursor(next))))
                }
            },
        },
        RayCastMethod::CameraScreenSpace(_) => match camera_ray {
            None => Err(CastError::MissingCamera),
            Some(cr) => if xf is None {
                Err(CastError::MissingTransform)
            } else {
                Ok(Some((cr, method)))
            },
        },
        RayCastMethod::Transform => match xf {
            None => Err(CastError::MissingTransform),
            Some(x) => Ok(Some((spec_transform_ray(x), method))),
        },
    }
}

/// One update of a source: picks the ray by the source's method, keeps the
/// method's new cursor state, and casts the ray against `objects`. Returns
/// `Ok(None)` when the method skips this update, which leaves the source as
/// it was; otherwise each object's own nearest hit.
pub fn cast(
    source: &mut RayCastSource,
    latest: Option<CursorMoved>,
    window: u64,
    xf: Option<Transform>,
    camera_ray: Option<Ray3d>,
    objects: &Vec<PickTarget>,
) -> (r: Result<Option<Vec<RayCastMesh>>, CastError>)
    requires
        xf matches Some(x) ==> x.wf(),
        camera_ray matches Some(c) ==> c.wf(),
        forall|i: int| 0 <= i < objects.len() ==> (#[trigger] objects@[i]).transform.wf(),
    ensures
        match spec_due_ray(old(source).spec_method(), latest, window, xf, camera_ray) {
            Err(e) => r == Err::<Option<Vec<RayCastMesh>>, CastError>(e) && *final(source) == *old(
                source,
            ),
            Ok(None) => r == Ok::<Option<Vec<RayCastMesh>>, CastError>(None) && *final(source)
                == *old(source),
            Ok(Some((ray, m))) => match r {
                Ok(Some(v)) => update_done(
                    old(source).with_method(m),
                    *final(source),
                    ray,
                    objects@,
                    Ok(v),
                ),
                Err(CastError::Mesh(e)) => update_done(
                    old(source).with_method(m),
                    *final(source),
                    ray,
                    objects@,
                    Err(e),
                ),
                _ => false,
            },
        },
{
    let (ray, next) = match source.cast_method {
        RayCastMethod::CameraCursor(u) => match camera_ray {
            None => {
                return Err(CastError::MissingCamera);
            },
            Some(cr) => {
                let (p, next) = cursor_position(u, latest, window);
                if p.is_none() {
                    return Ok(None);
                }
                if xf.is_none() {
                    return Err(CastError::MissingTransform);
                }
                (cr, RayCastMethod::CameraCursor(next))
            },
        },
        RayCastMethod::CameraScreenSpace(c) => match camera_ray {
            None => {
                return Err(CastError::MissingCamera);
            },
            Some(cr) => {
                if xf.is_none() {
                    return Err(CastError::MissingTransform);
                }
                (cr, RayCastMethod::CameraScreenSpace(c))
            },
        },
        RayCastMethod::Transform => match xf {
            None => {
                return Err(CastError::MissingTransform);
            },
            Some(x) => (ray_from_transform(&x), RayCastMethod::Transform),
        },
    };
    source.cast_method = next;
    assert(*source == old(source).with_method(next));
    match update_raycast(source, ray, objects) {
        Ok(v) => Ok(Some(v)),
        Err(e) => Err(CastError::Mesh(e)),
    }
}

/// An on-event source with no cursor movement in its camera's window skips
/// the update.
pub proof fn lemma_on_event_without_event_skips(
    latest: Option<CursorMoved>,
    window: u64,
    xf: Option<Transform>,
    camera_ray: Ray3d,
)
    requires
        event_in(latest, window) is None,
    ensures
        spec_due_ray(
            RayCastMethod::CameraCursor(UpdateOn::OnMouseEvent),
            latest,
            window,
            xf,
            Some(camera_ray),
        ) == Ok::<Option<(Ray3d, RayCastMethod)>, CastError>(None),
{
}

/// A transform-driven source casts from its translation along the image of
/// its forward axis.
pub proof fn lemma_transform_source_casts_forward(
    latest: Option<CursorMoved>,
    window: u64,
    xf: Transform,
    camera_ray: Option<Ray3d>,
)
    ensures
        spec_due_ray(RayCastMethod::Transform, latest, window, Some(xf), camera_ray) == Ok::<
            Option<(Ray3d, RayCastMethod)>,
            CastError,
        >(Some((Ray3d { origin: xf.translation, direction: xf.z_axis }, RayCastMethod::Transform))),
{
}

} // verus!
