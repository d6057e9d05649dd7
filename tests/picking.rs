use raycast::bounding::{bounding_sphere, survives_culling, BoundingSphere};
use raycast::geometry::{ray_triangle_intersection, Intersection, Ray3d, Triangle, Vec3};
use raycast::mesh::{
    mesh_intersection, ray_mesh_intersection, transform_point, Indices, Mesh, MeshError,
    PrimitiveTopology, Transform,
};
use raycast::source::{
    cast, cursor_position, ray_from_transform, sort_by_distance, update_raycast, CastError,
    CursorMoved, PickTarget, RayCastMesh, RayCastMethod, RayCastSource, ScreenPos, UpdateOn,
};

fn v(x: i64, y: i64, z: i64) -> Vec3 {
    Vec3 { x, y, z }
}

fn placed_at(x: i64, y: i64, z: i64) -> Transform {
    Transform::from_scale_translation(v(1, 1, 1), v(x, y, z))
}

// A cube of side 2 centred at the local origin (coordinates are in half units).
fn cube_positions() -> Vec<Vec3> {
    vec![
        v(-1, -1, -1),
        v(1, -1, -1),
        v(1, 1, -1),
        v(-1, 1, -1),
        v(-1, -1, 1),
        v(1, -1, 1),
        v(1, 1, 1),
        v(-1, 1, 1),
    ]
}

fn cube_indices() -> Vec<u32> {
    vec![
        4, 5, 6, 4, 6, 7, // +z
        0, 2, 1, 0, 3, 2, // -z
        0, 4, 7, 0, 7, 3, // -x
        1, 2, 6, 1, 6, 5, // +x
        0, 1, 5, 0, 5, 4, // -y
        3, 7, 6, 3, 6, 2, // +y
    ]
}

fn cube_mesh() -> Mesh {
    Mesh {
        topology: PrimitiveTopology::TriangleList,
        positions: Some(cube_positions()),
        indices: Some(Indices::U32(cube_indices())),
    }
}

fn cube_target(entity: u64, at: Transform) -> PickTarget {
    PickTarget { entity, visible: true, bound: None, transform: at, mesh: Some(cube_mesh()) }
}

fn down_z_ray() -> Ray3d {
    Ray3d::new(v(0, 0, 10), v(0, 0, -1))
}

fn param_is(h: &Intersection, num: i64, den: i64) -> bool {
    (h.t_num as i128) * (den as i128) == (num as i128) * (h.den as i128)
}

#[test]
fn cube_nearest_hit_on_front_face() {
    let hit = ray_mesh_intersection(&placed_at(0, 0, 0), &cube_positions(), &down_z_ray(), &cube_indices())
        .unwrap()
        .unwrap();
    // The hit lies at (0, 0, 1), nine units from the origin along a unit direction.
    assert!(param_is(&hit, 9, 1));
    assert_eq!(hit.triangle.v0.z, 1);
    assert_eq!(hit.triangle.v1.z, 1);
    assert_eq!(hit.triangle.v2.z, 1);
}

#[test]
fn cube_parallel_ray_misses() {
    let ray = Ray3d::new(v(0, 0, 10), v(1, 0, 0));
    let r = ray_mesh_intersection(&placed_at(0, 0, 0), &cube_positions(), &ray, &cube_indices());
    assert_eq!(r, Ok(None));
}

#[test]
fn two_cubes_ordered_nearest_first() {
    let mut src = RayCastSource::new(RayCastMethod::Transform);
    let objects = vec![cube_target(1, placed_at(0, 0, 0)), cube_target(2, placed_at(0, 0, 5))];
    let per_object = update_raycast(&mut src, down_z_ray(), &objects).unwrap();
    let list = src.intersect_list().unwrap();
    assert_eq!(list.len(), 2);
    assert_eq!(list[0].0, 2);
    assert_eq!(list[1].0, 1);
    assert!(param_is(&list[0].1, 4, 1));
    assert!(param_is(&list[1].1, 9, 1));
    assert_eq!(src.intersect_top().unwrap().0, 2);
    assert_eq!(src.ray(), Some(down_z_ray()));
    assert!(param_is(&per_object[0].intersection().unwrap(), 9, 1));
    assert!(param_is(&per_object[1].intersection().unwrap(), 4, 1));
}

#[test]
fn all_misses_give_no_hits() {
    let mut src = RayCastSource::new(RayCastMethod::Transform);
    let objects = vec![cube_target(1, placed_at(50, 0, 0)), cube_target(2, placed_at(0, 50, 0))];
    let per_object = update_raycast(&mut src, down_z_ray(), &objects).unwrap();
    assert!(src.intersect_list().is_none());
    assert!(src.intersect_top().is_none());
    assert!(per_object.iter().all(|p| p.intersection().is_none()));
}

#[test]
fn old_hits_are_replaced() {
    let mut src = RayCastSource::new(RayCastMethod::Transform);
    let objects = vec![cube_target(1, placed_at(0, 0, 0))];
    update_raycast(&mut src, down_z_ray(), &objects).unwrap();
    assert!(src.intersect_top().is_some());
    let away = Ray3d::new(v(0, 0, 10), v(0, 0, 1));
    update_raycast(&mut src, away, &objects).unwrap();
    assert!(src.intersect_list().is_none());
}

#[test]
fn insertion_order_does_not_change_the_order() {
    let forward: Vec<PickTarget> =
        (0..5).map(|i| cube_target(i as u64, placed_at(0, 0, -3 * i))).collect();
    let mut scrambled = forward.clone();
    scrambled.swap(0, 3);
    scrambled.swap(1, 4);
    let mut a = RayCastSource::new(RayCastMethod::Transform);
    let mut b = RayCastSource::new(RayCastMethod::Transform);
    update_raycast(&mut a, down_z_ray(), &forward).unwrap();
    update_raycast(&mut b, down_z_ray(), &scrambled).unwrap();
    let ids: Vec<u64> = a.intersect_list().unwrap().iter().map(|h| h.0).collect();
    assert_eq!(ids, vec![0, 1, 2, 3, 4]);
    assert_eq!(a.intersect_list(), b.intersect_list());
}

#[test]
fn rerunning_gives_identical_results() {
    let objects = vec![cube_target(7, placed_at(0, 0, 0)), cube_target(8, placed_at(1, 0, 4))];
    let mut a = RayCastSource::new(RayCastMethod::Transform);
    let first = update_raycast(&mut a, down_z_ray(), &objects).unwrap();
    let list_first = a.intersect_list().unwrap().clone();
    let second = update_raycast(&mut a, down_z_ray(), &objects).unwrap();
    assert_eq!(&list_first, a.intersect_list().unwrap());
    let f: Vec<_> = first.iter().map(|p| p.intersection()).collect();
    let s: Vec<_> = second.iter().map(|p| p.intersection()).collect();
    assert_eq!(f, s);
}

#[test]
fn sort_orders_scrambled_distances() {
    let tri = Triangle { v0: v(0, 0, 0), v1: v(1, 0, 0), v2: v(0, 1, 0) };
    let h = |t: i64, d: i64| Intersection { t_num: t, u_num: 0, v_num: 0, den: d, triangle: tri };
    let input = vec![(3, h(3, 1)), (1, h(1, 2)), (4, h(8, 2)), (2, h(2, 2))];
    let out = sort_by_distance(&input);
    let ids: Vec<u64> = out.iter().map(|x| x.0).collect();
    assert_eq!(ids, vec![1, 2, 3, 4]);
}

#[test]
fn sort_keeps_ties_in_order() {
    let tri = Triangle { v0: v(0, 0, 0), v1: v(1, 0, 0), v2: v(0, 1, 0) };
    let h = |t: i64, d: i64| Intersection { t_num: t, u_num: 0, v_num: 0, den: d, triangle: tri };
    let input = vec![(5, h(2, 1)), (6, h(4, 2)), (7, h(1, 1))];
    let ids: Vec<u64> = sort_by_distance(&input).iter().map(|x| x.0).collect();
    assert_eq!(ids, vec![7, 5, 6]);
}

#[test]
fn centroid_ray_hits_with_thirds() {
    let tri = Triangle { v0: v(0, 0, 0), v1: v(6, 0, 0), v2: v(0, 6, 0) };
    let o = v(1, 1, 9);
    let dir = v(0 + 6 + 0 - 3 * o.x, 0 + 0 + 6 - 3 * o.y, -3 * o.z);
    let h = ray_triangle_intersection(&Ray3d::new(o, dir), &tri).unwrap();
    assert!(h.den > 0);
    assert_eq!(3 * h.u_num, h.den);
    assert_eq!(3 * h.v_num, h.den);
    assert_eq!(3 * (h.den - h.u_num - h.v_num), h.den);
    assert_eq!(3 * h.t_num, h.den);
}

#[test]
fn back_face_counts() {
    let tri = Triangle { v0: v(0, 0, 0), v1: v(0, 4, 0), v2: v(4, 0, 0) };
    let h = ray_triangle_intersection(&Ray3d::new(v(1, 1, 5), v(0, 0, -1)), &tri).unwrap();
    assert!(param_is(&h, 5, 1));
    let h2 = ray_triangle_intersection(&Ray3d::new(v(1, 1, -5), v(0, 0, 1)), &tri).unwrap();
    assert!(param_is(&h2, 5, 1));
}

#[test]
fn hit_behind_origin_is_rejected() {
    let tri = Triangle { v0: v(0, 0, 0), v1: v(4, 0, 0), v2: v(0, 4, 0) };
    assert!(ray_triangle_intersection(&Ray3d::new(v(1, 1, 5), v(0, 0, 1)), &tri).is_none());
}

#[test]
fn ray_in_plane_is_rejected() {
    let tri = Triangle { v0: v(0, 0, 0), v1: v(4, 0, 0), v2: v(0, 4, 0) };
    assert!(ray_triangle_intersection(&Ray3d::new(v(-5, 1, 0), v(1, 0, 0)), &tri).is_none());
}

#[test]
fn culling_by_sphere() {
    let ray = down_z_ray();
    let sphere = Some(BoundingSphere { origin: v(0, 0, 0), radius: 2 });
    assert!(survives_culling(&ray, true, &sphere, &placed_at(0, 0, 0)));
    assert!(survives_culling(&ray, true, &sphere, &placed_at(1, 1, -4)));
    assert!(!survives_culling(&ray, true, &sphere, &placed_at(3, 0, 0)));
    assert!(!survives_culling(&ray, false, &sphere, &placed_at(0, 0, 0)));
}

#[test]
fn culling_scaled_sphere() {
    let ray = down_z_ray();
    let sphere = Some(BoundingSphere { origin: v(1, 0, 0), radius: 1 });
    // World centre (3, 0, 0), world radius 3: reaches the ray at x = 0.
    let xf = Transform::from_scale_translation(v(3, 1, 1), v(0, 0, 0));
    assert!(survives_culling(&ray, true, &sphere, &xf));
    // The same world sphere from another placement culls alike.
    let sphere2 = Some(BoundingSphere { origin: v(1, 0, 0), radius: 3 });
    assert!(survives_culling(&ray, true, &sphere2, &placed_at(2, 0, 0)));
    let small = Transform::from_scale_translation(v(3, 2, 2), v(0, 0, 0));
    assert!(survives_culling(&ray, true, &sphere, &small));
    let far = Transform::from_scale_translation(v(3, 2, 2), v(1, 0, 0));
    assert!(!survives_culling(&ray, true, &sphere, &far));
}

#[test]
fn unbounded_objects_are_kept() {
    assert!(survives_culling(&down_z_ray(), true, &None, &placed_at(100, 100, 100)));
}

#[test]
fn culled_object_is_not_tested() {
    let mut src = RayCastSource::new(RayCastMethod::Transform);
    let mut t = cube_target(1, placed_at(0, 0, 0));
    t.visible = false;
    let per_object = update_raycast(&mut src, down_z_ray(), &vec![t]).unwrap();
    assert!(per_object[0].intersection().is_none());
    assert!(src.intersect_top().is_none());
}

#[test]
fn u16_indices_match_u32() {
    let wide: Vec<u16> = cube_indices().iter().map(|i| *i as u16).collect();
    let mesh = Mesh {
        topology: PrimitiveTopology::TriangleList,
        positions: Some(cube_positions()),
        indices: Some(Indices::U16(wide)),
    };
    let a = mesh_intersection(&mesh, &placed_at(0, 0, 0), &down_z_ray());
    let b = mesh_intersection(&cube_mesh(), &placed_at(0, 0, 0), &down_z_ray());
    assert_eq!(a, b);
    assert!(a.unwrap().is_some());
}

#[test]
fn mesh_errors() {
    let xf = placed_at(0, 0, 0);
    let ray = down_z_ray();
    let mut m = cube_mesh();
    m.topology = PrimitiveTopology::TriangleStrip;
    assert_eq!(mesh_intersection(&m, &xf, &ray), Err(MeshError::NotTriangleList));
    let mut m = cube_mesh();
    m.positions = None;
    assert_eq!(mesh_intersection(&m, &xf, &ray), Err(MeshError::MissingPositions));
    let mut m = cube_mesh();
    m.indices = None;
    assert_eq!(mesh_intersection(&m, &xf, &ray), Err(MeshError::MissingIndices));
    let mut m = cube_mesh();
    m.indices = Some(Indices::U32(vec![0, 1, 8]));
    assert_eq!(mesh_intersection(&m, &xf, &ray), Err(MeshError::IndexOutOfBounds));
    let huge = Transform::from_scale_translation(v(65536, 65536, 65536), v(0, 0, 0));
    let mut m = cube_mesh();
    m.positions = Some(vec![v(0, 0, 0), v(1, 0, 0), v(0, 2, 0)]);
    m.indices = Some(Indices::U32(vec![0, 1, 2]));
    assert_eq!(mesh_intersection(&m, &huge, &ray), Err(MeshError::CoordinateOverflow));
}

#[test]
fn ragged_index_list_has_no_hit() {
    let mut idx = cube_indices();
    idx.push(0);
    let r = ray_mesh_intersection(&placed_at(0, 0, 0), &cube_positions(), &down_z_ray(), &idx);
    assert_eq!(r, Ok(None));
}

#[test]
fn malformed_mesh_clears_source() {
    let mut src = RayCastSource::new(RayCastMethod::Transform);
    let good = vec![cube_target(1, placed_at(0, 0, 0))];
    update_raycast(&mut src, down_z_ray(), &good).unwrap();
    let mut bad = cube_target(2, placed_at(0, 0, 0));
    bad.mesh.as_mut().unwrap().indices = None;
    let r = update_raycast(&mut src, Ray3d::new(v(0, 0, 9), v(0, 0, -1)), &vec![bad]);
    assert_eq!(r.err(), Some(MeshError::MissingIndices));
    assert_eq!(src.ray(), None);
    assert!(src.intersect_top().is_none());
    assert!(src.intersect_list().is_none());
}

#[test]
fn transform_point_scales_then_translates() {
    let xf = Transform::from_scale_translation(v(2, 3, 4), v(1, 2, 3));
    assert_eq!(transform_point(&xf, v(1, 1, 1)), Some(v(3, 5, 7)));
    assert_eq!(transform_point(&xf, v(40000, 0, 0)), None);
}

#[test]
fn cursor_every_frame_uses_event_then_cache() {
    let ev = CursorMoved { window: 3, position: ScreenPos { x: 10, y: 20 } };
    let (p, keep) = cursor_position(UpdateOn::EveryFrame(ScreenPos { x: 1, y: 1 }), Some(ev), 3);
    assert_eq!(p, Some(ScreenPos { x: 10, y: 20 }));
    assert_eq!(keep, UpdateOn::EveryFrame(ScreenPos { x: 10, y: 20 }));
    let (p, keep) = cursor_position(keep, None, 3);
    assert_eq!(p, Some(ScreenPos { x: 10, y: 20 }));
    assert_eq!(keep, UpdateOn::EveryFrame(ScreenPos { x: 10, y: 20 }));
    let (p, _) = cursor_position(UpdateOn::EveryFrame(ScreenPos { x: 1, y: 1 }), Some(ev), 4);
    assert_eq!(p, Some(ScreenPos { x: 1, y: 1 }));
}

#[test]
fn cursor_on_event_skips_without_event() {
    let ev = CursorMoved { window: 3, position: ScreenPos { x: 10, y: 20 } };
    assert_eq!(cursor_position(UpdateOn::OnMouseEvent, None, 3), (None, UpdateOn::OnMouseEvent));
    assert_eq!(cursor_position(UpdateOn::OnMouseEvent, Some(ev), 5), (None, UpdateOn::OnMouseEvent));
    assert_eq!(
        cursor_position(UpdateOn::OnMouseEvent, Some(ev), 3),
        (Some(ScreenPos { x: 10, y: 20 }), UpdateOn::OnMouseEvent)
    );
}

#[test]
fn transform_ray_points_forward() {
    let xf = Transform::from_scale_translation(v(2, 2, 5), v(1, 2, 3));
    let r = ray_from_transform(&xf);
    assert_eq!(r.origin, v(1, 2, 3));
    assert_eq!(r.direction, v(0, 0, 5));
}

#[test]
fn new_and_default_sources_are_empty() {
    let s = RayCastSource::new(RayCastMethod::CameraScreenSpace(ScreenPos { x: 0, y: 0 }));
    assert!(s.intersect_list().is_none());
    assert!(s.intersect_top().is_none());
    assert!(s.ray().is_none());
    let d = RayCastSource::default();
    assert_eq!(d.cast_method, RayCastMethod::CameraCursor(UpdateOn::EveryFrame(ScreenPos { x: 0, y: 0 })));
    assert!(d.intersect_list().is_none());
    assert!(RayCastMesh::default().intersection().is_none());
}

// A quarter turn about z: local x goes to world y, local y to world -x.
fn quarter_turn_at(t: Vec3) -> Transform {
    Transform { x_axis: v(0, 1, 0), y_axis: v(-1, 0, 0), z_axis: v(0, 0, 1), translation: t }
}

#[test]
fn rotated_points_and_objects() {
    let xf = quarter_turn_at(v(10, 0, 0));
    assert_eq!(transform_point(&xf, v(1, 2, 3)), Some(v(8, 1, 3)));
    // A long bar along local x, turned to lie along world y.
    let bar = Mesh {
        topology: PrimitiveTopology::TriangleList,
        positions: Some(vec![v(-20, -1, 0), v(20, -1, 0), v(20, 1, 0), v(-20, 1, 0)]),
        indices: Some(Indices::U16(vec![0, 1, 2, 0, 2, 3])),
    };
    let ray = Ray3d::new(v(0, 15, 10), v(0, 0, -1));
    let turned = mesh_intersection(&bar, &quarter_turn_at(v(0, 0, 0)), &ray).unwrap().unwrap();
    assert!(param_is(&turned, 10, 1));
    let plain = mesh_intersection(&bar, &placed_at(0, 0, 0), &ray).unwrap();
    assert!(plain.is_none());
}

#[test]
fn rotated_sphere_culls_by_world_centre() {
    let sphere = Some(BoundingSphere { origin: v(5, 0, 0), radius: 1 });
    let ray = Ray3d::new(v(0, 5, 10), v(0, 0, -1));
    assert!(survives_culling(&ray, true, &sphere, &quarter_turn_at(v(0, 0, 0))));
    assert!(!survives_culling(&ray, true, &sphere, &placed_at(0, 0, 0)));
}

#[test]
fn transform_ray_follows_rotation() {
    let xf = Transform { x_axis: v(1, 0, 0), y_axis: v(0, 0, 1), z_axis: v(0, -1, 0), translation: v(4, 5, 6) };
    let r = ray_from_transform(&xf);
    assert_eq!(r.origin, v(4, 5, 6));
    assert_eq!(r.direction, v(0, -1, 0));
}

#[test]
fn cast_transform_source() {
    let mut src = RayCastSource::new(RayCastMethod::Transform);
    let xf = Transform { x_axis: v(1, 0, 0), y_axis: v(0, 1, 0), z_axis: v(0, 0, -1), translation: v(0, 0, 10) };
    let objects = vec![cube_target(3, placed_at(0, 0, 0))];
    let per_object = cast(&mut src, None, 0, Some(xf), None, &objects).unwrap().unwrap();
    assert_eq!(src.ray(), Some(down_z_ray()));
    assert_eq!(src.intersect_top().unwrap().0, 3);
    assert!(per_object[0].intersection().is_some());
    assert_eq!(cast(&mut src, None, 0, None, None, &objects).err(), Some(CastError::MissingTransform));
}

#[test]
fn cast_on_event_skips_without_event() {
    let mut src = RayCastSource::new(RayCastMethod::CameraCursor(UpdateOn::OnMouseEvent));
    let objects = vec![cube_target(3, placed_at(0, 0, 0))];
    let xf = placed_at(0, 0, 10);
    let other_window = CursorMoved { window: 2, position: ScreenPos { x: 5, y: 5 } };
    let r = cast(&mut src, Some(other_window), 1, Some(xf), Some(down_z_ray()), &objects);
    assert_eq!(r.unwrap().map(|v| v.len()), None);
    assert!(src.ray().is_none());
    assert!(src.intersect_list().is_none());
    let here = CursorMoved { window: 1, position: ScreenPos { x: 5, y: 5 } };
    let r = cast(&mut src, Some(here), 1, Some(xf), Some(down_z_ray()), &objects);
    assert_eq!(r.unwrap().unwrap().len(), 1);
    assert_eq!(src.intersect_top().unwrap().0, 3);
}

#[test]
fn cast_every_frame_keeps_cursor() {
    let mut src = RayCastSource::default();
    let objects = vec![cube_target(3, placed_at(0, 0, 0))];
    let xf = placed_at(0, 0, 10);
    let here = CursorMoved { window: 0, position: ScreenPos { x: 7, y: 8 } };
    cast(&mut src, Some(here), 0, Some(xf), Some(down_z_ray()), &objects).unwrap();
    assert_eq!(src.method(), RayCastMethod::CameraCursor(UpdateOn::EveryFrame(ScreenPos { x: 7, y: 8 })));
    assert_eq!(src.cast_method, src.method());
    let r = cast(&mut src, None, 0, Some(xf), Some(down_z_ray()), &objects);
    assert!(r.unwrap().is_some());
}

#[test]
fn cast_camera_errors() {
    let objects = vec![cube_target(3, placed_at(0, 0, 0))];
    let mut src = RayCastSource::new(RayCastMethod::CameraScreenSpace(ScreenPos { x: 0, y: 0 }));
    assert_eq!(cast(&mut src, None, 0, Some(placed_at(0, 0, 0)), None, &objects).err(), Some(CastError::MissingCamera));
    assert_eq!(cast(&mut src, None, 0, None, Some(down_z_ray()), &objects).err(), Some(CastError::MissingTransform));
    let mut bad = cube_target(4, placed_at(0, 0, 0));
    bad.mesh.as_mut().unwrap().positions = None;
    let r = cast(&mut src, None, 0, Some(placed_at(0, 0, 0)), Some(down_z_ray()), &vec![bad]);
    assert_eq!(r.err(), Some(CastError::Mesh(MeshError::MissingPositions)));
}

#[test]
fn bounding_sphere_holds_every_vertex() {
    let pts = cube_positions();
    let s = bounding_sphere(&pts).unwrap();
    assert_eq!(s.origin, v(-1, -1, -1));
    assert_eq!(s.radius, 6);
    for p in &pts {
        let (dx, dy, dz) = (p.x - s.origin.x, p.y - s.origin.y, p.z - s.origin.z);
        assert!(dx * dx + dy * dy + dz * dz <= s.radius * s.radius);
    }
    assert!(bounding_sphere(&vec![]).is_none());
    assert!(bounding_sphere(&vec![v(0, 0, 0), v(70000, 0, 0)]).is_none());
    let mut t = cube_target(1, placed_at(0, 0, 0));
    t.bound = Some(s);
    let mut src = RayCastSource::new(RayCastMethod::Transform);
    update_raycast(&mut src, down_z_ray(), &vec![t]).unwrap();
    assert_eq!(src.intersect_top().unwrap().0, 1);
}
