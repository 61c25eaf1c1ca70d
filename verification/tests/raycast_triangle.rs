use mod_raycast::primitives::{Ray3d, Triangle, Vec3};
use mod_raycast::raycast::{
    ray_triangle_intersection, raycast_geometric, raycast_moller_trumbore, Backfaces,
    GeometricTerms, MollerTrumboreTerms, RayTriangleTerms, RaycastAlgorithm,
};
use mod_raycast::scalar::Scalar;

// Triangle vertices to be used in a left-hand coordinate system
const V0: [f32; 3] = [1.0, -1.0, 2.0];
const V1: [f32; 3] = [1.0, 2.0, -1.0];
const V2: [f32; 3] = [1.0, -1.0, -1.0];

fn s(x: f32) -> Scalar {
    Scalar::from_bits(x.to_bits())
}

fn v(p: [f32; 3]) -> Vec3 {
    Vec3::new(s(p[0]), s(p[1]), s(p[2]))
}

fn floats(p: Vec3) -> [f32; 3] {
    [
        f32::from_bits(p.x.to_bits()),
        f32::from_bits(p.y.to_bits()),
        f32::from_bits(p.z.to_bits()),
    ]
}

fn sub(a: [f32; 3], b: [f32; 3]) -> [f32; 3] {
    [a[0] - b[0], a[1] - b[1], a[2] - b[2]]
}

fn along(o: [f32; 3], d: [f32; 3], t: f32) -> [f32; 3] {
    [o[0] + d[0] * t, o[1] + d[1] * t, o[2] + d[2] * t]
}

fn dot(a: [f32; 3], b: [f32; 3]) -> f32 {
    a[0] * b[0] + a[1] * b[1] + a[2] * b[2]
}

fn cross(a: [f32; 3], b: [f32; 3]) -> [f32; 3] {
    [
        a[1] * b[2] - a[2] * b[1],
        a[2] * b[0] - a[0] * b[2],
        a[0] * b[1] - a[1] * b[0],
    ]
}

fn unit(a: [f32; 3]) -> [f32; 3] {
    let len = dot(a, a).sqrt();
    [a[0] / len, a[1] / len, a[2] / len]
}

fn vertices(triangle: &Triangle) -> [[f32; 3]; 3] {
    [floats(triangle.v0), floats(triangle.v1), floats(triangle.v2)]
}

/// The arithmetic of both tests, as a host carries it out.
fn terms(origin: [f32; 3], direction: [f32; 3], triangle: &Triangle) -> RayTriangleTerms {
    let [v0, v1, v2] = vertices(triangle);
    let e1 = sub(v1, v0);
    let e2 = sub(v2, v0);
    let normal = cross(e1, e2);

    let p_vec = cross(direction, e2);
    let determinant = dot(e1, p_vec);
    let inverse = 1.0 / determinant;
    let t_vec = sub(origin, v0);
    let u = dot(t_vec, p_vec) * inverse;
    let q_vec = cross(t_vec, e1);
    let v_coord = dot(direction, q_vec) * inverse;
    let t = dot(e2, q_vec) * inverse;
    let moller_trumbore = MollerTrumboreTerms {
        determinant: s(determinant),
        u: s(u),
        v: s(v_coord),
        u_plus_v: s(u + v_coord),
        point: v(along(origin, direction, t)),
        normal: v(normal),
    };

    let normal_dot_direction = dot(normal, direction);
    let t_plane = (dot(normal, v0) - dot(normal, origin)) / normal_dot_direction;
    let point = along(origin, direction, t_plane);
    let geometric = GeometricTerms {
        normal_dot_direction: s(normal_dot_direction),
        t: s(t_plane),
        edge0: s(dot(normal, cross(sub(v1, v0), sub(point, v0)))),
        edge1: s(dot(normal, cross(sub(v2, v1), sub(point, v1)))),
        edge2: s(dot(normal, cross(sub(v0, v2), sub(point, v2)))),
        point: v(point),
        normal: v(normal),
    };
    RayTriangleTerms { moller_trumbore, geometric }
}

/// A hit with its normal brought to unit length.
fn normalized(hit: Option<Ray3d>) -> Option<([f32; 3], [f32; 3])> {
    hit.map(|ray| (floats(ray.origin()), unit(floats(ray.direction()))))
}

#[test]
fn raycast_triangle_mt() {
    let triangle = Triangle::from([v(V0), v(V1), v(V2)]);
    let algorithm = RaycastAlgorithm::MollerTrumbore(Backfaces::Include);
    let result = ray_triangle_intersection(
        &terms([0.0, 0.0, 0.0], [1.0, 0.0, 0.0], &triangle),
        algorithm,
    );
    assert_eq!(normalized(result), Some(([1.0, 0.0, 0.0], [-1.0, 0.0, 0.0])));
}

#[test]
fn raycast_triangle_mt_culling() {
    let triangle = Triangle::from([v(V2), v(V1), v(V0)]);
    let algorithm = RaycastAlgorithm::MollerTrumbore(Backfaces::Cull);
    let result = ray_triangle_intersection(
        &terms([0.0, 0.0, 0.0], [1.0, 0.0, 0.0], &triangle),
        algorithm,
    );
    assert_eq!(result, None);
}

#[test]
fn raycast_triangle_geometric() {
    let triangle = Triangle::from([v(V0), v(V1), v(V2)]);
    let algorithm = RaycastAlgorithm::Geometric;
    let result = ray_triangle_intersection(
        &terms([0.0, 0.0, 0.0], [1.0, 0.0, 0.0], &triangle),
        algorithm,
    );
    assert_eq!(normalized(result), Some(([1.0, 0.0, 0.0], [-1.0, 0.0, 0.0])));
}

#[test]
fn hit_carries_the_raw_normal() {
    let triangle = Triangle::from([v(V0), v(V1), v(V2)]);
    let all = terms([0.0, 0.0, 0.0], [1.0, 0.0, 0.0], &triangle);
    let hit = raycast_moller_trumbore(&all.moller_trumbore, Backfaces::Include).unwrap();
    assert_eq!(floats(hit.origin()), [1.0, 0.0, 0.0]);
    assert_eq!(floats(hit.direction()), [-9.0, 0.0, 0.0]);
    assert_eq!(hit, Ray3d::new(all.moller_trumbore.point, all.moller_trumbore.normal));
}

#[test]
fn triangle_from_keeps_the_vertex_order() {
    let triangle = Triangle::from([v(V0), v(V1), v(V2)]);
    assert_eq!(triangle, Triangle::new(v(V0), v(V1), v(V2)));
    assert_eq!(triangle.v1, v(V1));
}

#[test]
fn default_algorithm_culls_back_faces() {
    assert_eq!(
        RaycastAlgorithm::default(),
        RaycastAlgorithm::MollerTrumbore(Backfaces::Cull)
    );
}

#[test]
fn front_face_is_hit_with_culling() {
    let triangle = Triangle::from([v(V0), v(V1), v(V2)]);
    let all = terms([0.0, 0.0, 0.0], [1.0, 0.0, 0.0], &triangle);
    let hit = raycast_moller_trumbore(&all.moller_trumbore, Backfaces::Cull);
    assert_eq!(normalized(hit), Some(([1.0, 0.0, 0.0], [-1.0, 0.0, 0.0])));

    // From the other side it is the reversed winding that faces the ray.
    let all = terms([2.0, 0.0, 0.0], [-1.0, 0.0, 0.0], &triangle);
    assert_eq!(raycast_moller_trumbore(&all.moller_trumbore, Backfaces::Cull), None);
    let reversed = Triangle::from([v(V2), v(V1), v(V0)]);
    let all = terms([2.0, 0.0, 0.0], [-1.0, 0.0, 0.0], &reversed);
    let hit = raycast_moller_trumbore(&all.moller_trumbore, Backfaces::Cull);
    assert_eq!(normalized(hit), Some(([1.0, 0.0, 0.0], [1.0, 0.0, 0.0])));
}

fn accepted_terms() -> MollerTrumboreTerms {
    MollerTrumboreTerms {
        determinant: s(9.0),
        u: s(0.25),
        v: s(0.25),
        u_plus_v: s(0.5),
        point: v([1.0, 0.0, 0.0]),
        normal: v([-9.0, 0.0, 0.0]),
    }
}

#[test]
fn determinant_thresholds() {
    let mut t = accepted_terms();
    assert!(raycast_moller_trumbore(&t, Backfaces::Cull).is_some());
    assert!(raycast_moller_trumbore(&t, Backfaces::Include).is_some());

    // Exactly the machine epsilon is still accepted; the next value below is not.
    t.determinant = s(f32::EPSILON);
    assert!(raycast_moller_trumbore(&t, Backfaces::Cull).is_some());
    assert!(raycast_moller_trumbore(&t, Backfaces::Include).is_some());
    t.determinant = Scalar::from_bits(f32::EPSILON.to_bits() - 1);
    assert!(raycast_moller_trumbore(&t, Backfaces::Cull).is_none());
    assert!(raycast_moller_trumbore(&t, Backfaces::Include).is_none());

    t.determinant = s(0.0);
    assert!(raycast_moller_trumbore(&t, Backfaces::Cull).is_none());
    assert!(raycast_moller_trumbore(&t, Backfaces::Include).is_none());

    t.determinant = s(-f32::EPSILON);
    assert!(raycast_moller_trumbore(&t, Backfaces::Cull).is_none());
    assert!(raycast_moller_trumbore(&t, Backfaces::Include).is_some());

    t.determinant = s(-9.0);
    assert!(raycast_moller_trumbore(&t, Backfaces::Cull).is_none());
    assert!(raycast_moller_trumbore(&t, Backfaces::Include).is_some());
}

#[test]
fn barycentric_bounds() {
    for backfaces in [Backfaces::Cull, Backfaces::Include] {
        let mut t = accepted_terms();
        t.u = s(0.0);
        t.v = s(0.0);
        t.u_plus_v = s(0.0);
        assert!(raycast_moller_trumbore(&t, backfaces).is_some());
        t.u = s(1.0);
        t.u_plus_v = s(1.0);
        assert!(raycast_moller_trumbore(&t, backfaces).is_some());

        let mut t = accepted_terms();
        t.u = s(-0.001);
        assert!(raycast_moller_trumbore(&t, backfaces).is_none());
        t.u = s(1.001);
        assert!(raycast_moller_trumbore(&t, backfaces).is_none());
        t.u = s(f32::NAN);
        assert!(raycast_moller_trumbore(&t, backfaces).is_none());

        let mut t = accepted_terms();
        t.v = s(-0.001);
        assert!(raycast_moller_trumbore(&t, backfaces).is_none());
        t.v = s(f32::NAN);
        assert!(raycast_moller_trumbore(&t, backfaces).is_none());

        let mut t = accepted_terms();
        t.u_plus_v = s(1.001);
        assert!(raycast_moller_trumbore(&t, backfaces).is_none());
        t.u_plus_v = s(f32::NAN);
        assert!(raycast_moller_trumbore(&t, backfaces).is_none());
    }
}

fn accepted_geometric_terms() -> GeometricTerms {
    GeometricTerms {
        normal_dot_direction: s(-9.0),
        t: s(1.0),
        edge0: s(27.0),
        edge1: s(27.0),
        edge2: s(27.0),
        point: v([1.0, 0.0, 0.0]),
        normal: v([-9.0, 0.0, 0.0]),
    }
}

#[test]
fn geometric_rejections() {
    let t = accepted_geometric_terms();
    assert_eq!(
        raycast_geometric(&t),
        Some(Ray3d::new(v([1.0, 0.0, 0.0]), v([-9.0, 0.0, 0.0])))
    );

    let mut t = accepted_geometric_terms();
    t.normal_dot_direction = s(0.0);
    assert_eq!(raycast_geometric(&t), None);
    t.normal_dot_direction = s(-f32::EPSILON / 2.0);
    assert_eq!(raycast_geometric(&t), None);
    t.normal_dot_direction = s(-f32::EPSILON);
    assert!(raycast_geometric(&t).is_some());
    t.normal_dot_direction = s(9.0);
    assert!(raycast_geometric(&t).is_some());

    let mut t = accepted_geometric_terms();
    t.t = s(-0.5);
    assert_eq!(raycast_geometric(&t), None);
    t.t = s(0.0);
    assert!(raycast_geometric(&t).is_some());

    let mut t = accepted_geometric_terms();
    t.edge0 = s(-1.0);
    assert_eq!(raycast_geometric(&t), None);
    let mut t = accepted_geometric_terms();
    t.edge1 = s(-1.0);
    assert_eq!(raycast_geometric(&t), None);
    let mut t = accepted_geometric_terms();
    t.edge2 = s(-1.0);
    assert_eq!(raycast_geometric(&t), None);
    t.edge2 = s(0.0);
    assert!(raycast_geometric(&t).is_some());
}

#[test]
fn dispatch_follows_the_algorithm() {
    let mut all = RayTriangleTerms {
        moller_trumbore: accepted_terms(),
        geometric: accepted_geometric_terms(),
    };
    all.moller_trumbore.point = v([5.0, 5.0, 5.0]);
    all.geometric.t = s(-1.0);
    assert_eq!(ray_triangle_intersection(&all, RaycastAlgorithm::Geometric), None);
    assert_eq!(
        ray_triangle_intersection(&all, RaycastAlgorithm::MollerTrumbore(Backfaces::Cull)),
        Some(Ray3d::new(v([5.0, 5.0, 5.0]), v([-9.0, 0.0, 0.0])))
    );
}

/// A few rays and triangles in general position.
fn samples() -> Vec<([f32; 3], [f32; 3], Triangle)> {
    let triangles = [
        Triangle::from([v(V0), v(V1), v(V2)]),
        Triangle::from([v(V2), v(V1), v(V0)]),
        Triangle::from([v([0.0, 0.0, 3.0]), v([4.0, 0.0, 3.0]), v([0.0, 4.0, 3.0])]),
        Triangle::from([v([0.0, 4.0, 3.0]), v([4.0, 0.0, 3.0]), v([0.0, 0.0, 3.0])]),
        Triangle::from([v([-1.0, -1.0, 1.0]), v([2.0, 0.5, 2.0]), v([0.0, 3.0, 4.0])]),
    ];
    let rays = [
        ([0.0, 0.0, 0.0], [1.0, 0.0, 0.0]),
        ([0.0, 0.0, 0.0], [0.0, 0.0, 1.0]),
        ([1.0, 1.0, 0.0], [0.0, 0.0, 1.0]),
        ([0.5, 0.5, 0.0], unit([0.1, 0.2, 1.0])),
        ([3.0, 3.0, 0.0], [0.0, 0.0, 1.0]),
        ([0.0, 0.0, 0.0], unit([1.0, 1.0, 1.0])),
        ([0.0, 0.0, 0.0], [0.0, 1.0, 0.0]),
    ];
    let mut all = Vec::new();
    for triangle in triangles {
        for (origin, direction) in rays {
            all.push((origin, direction, triangle));
        }
    }
    all
}

#[test]
fn include_never_hits_less_than_cull() {
    let mut culled_hits = 0;
    let mut included_hits = 0;
    for (origin, direction, triangle) in samples() {
        let all = terms(origin, direction, &triangle);
        let culled = raycast_moller_trumbore(&all.moller_trumbore, Backfaces::Cull);
        let included = raycast_moller_trumbore(&all.moller_trumbore, Backfaces::Include);
        if culled.is_some() {
            culled_hits += 1;
            assert_eq!(included, culled);
        }
        if included.is_some() {
            included_hits += 1;
        }
    }
    assert!(culled_hits > 0);
    assert!(included_hits > culled_hits);
}

#[test]
fn both_algorithms_agree_in_front_of_the_ray() {
    let mut hits = 0;
    for (origin, direction, triangle) in samples() {
        let all = terms(origin, direction, &triangle);
        let by_edges = raycast_geometric(&all.geometric);
        let by_barycentric = raycast_moller_trumbore(&all.moller_trumbore, Backfaces::Include);
        assert_eq!(by_edges.is_some(), by_barycentric.is_some());
        if let (Some(a), Some(b)) = (by_edges, by_barycentric) {
            hits += 1;
            let (pa, pb) = (floats(a.origin()), floats(b.origin()));
            for i in 0..3 {
                assert!((pa[i] - pb[i]).abs() <= 1e-5);
            }
            assert_eq!(floats(a.direction()), floats(b.direction()));
        }
    }
    assert!(hits > 0);
}
