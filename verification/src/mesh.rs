//! The narrow phase for one target: its triangles, and the nearest of the
//! hits on them.

use crate::primitives::{Intersection, Triangle, Vec3};
use crate::raycast::{
    ray_triangle_intersection, ray_triangle_spec, RayTriangleTerms, RaycastAlgorithm,
};
use crate::scalar::{Scalar, INFINITY_BITS, MAX_BITS};
use vstd::prelude::*;

verus! {

/// Every index of the list names a vertex.
pub open spec fn indices_in_range(vertex_count: nat, indices: Seq<u32>) -> bool {
    forall|i: int| 0 <= i < indices.len() ==> (#[trigger] indices[i]) < vertex_count
}

/// The triangle that the `k`-th group of three indices names.
pub open spec fn triangle_at(vertex_positions: Seq<Vec3>, indices: Seq<u32>, k: int) -> Triangle {
    Triangle {
        v0: vertex_positions[indices[3 * k] as int],
        v1: vertex_positions[indices[3 * k + 1] as int],
        v2: vertex_positions[indices[3 * k + 2] as int],
    }
}

/// The triangles of a triangle list, one for every three indices.
pub open spec fn triangle_list(vertex_positions: Seq<Vec3>, indices: Seq<u32>) -> Seq<Triangle> {
    Seq::new(indices.len() / 3, |k: int| triangle_at(vertex_positions, indices, k))
}

/// Widens 16-bit indices, so that every index list has one width.
pub fn widen_indices(indices: &Vec<u16>) -> (r: Vec<u32>)
    ensures
        r@.len() == indices@.len(),
        forall|i: int| 0 <= i < indices@.len() ==> (#[trigger] r@[i]) == indices@[i],
{
    let mut wide: Vec<u32> = Vec::new();
    let mut i: usize = 0;
    while i < indices.len()
        invariant
            i <= indices.len(),
            wide@.len() == i,
            forall|k: int| 0 <= k < i ==> (#[trigger] wide@[k]) == indices@[k],
        decreases indices.len() - i,
    {
        wide.push(indices[i] as u32);
        i = i + 1;
    }
    wide
}

/// Whether every index names a vertex.
pub fn indices_are_in_range(vertex_count: usize, indices: &Vec<u32>) -> (r: bool)
    ensures
        r == indices_in_range(vertex_count as nat, indices@),
{
    let mut i: usize = 0;
    while i < indices.len()
        invariant
            i <= indices.len(),
            forall|k: int| 0 <= k < i ==> (#[trigger] indices@[k]) < vertex_count,
        decreases indices.len() - i,
    {
        if indices[i] as usize >= vertex_count {
            return false;
        }
        i = i + 1;
    }
    true
}

/// Takes a mesh apart into its triangles, in the space of the mesh.
///
/// An index list whose length is not a multiple of three describes no
/// triangle list, and there is no result for it. Otherwise every three
/// indices in turn give one triangle.
pub fn mesh_triangles(vertex_positions: &Vec<Vec3>, indices: &Vec<u32>) -> (r: Option<
    Vec<Triangle>,
>)
    requires
        indices.len() % 3 == 0 ==> indices_in_range(vertex_positions.len() as nat, indices@),
    ensures
        indices.len() % 3 != 0 ==> r is None,
        indices.len() % 3 == 0 ==> (r matches Some(triangles) && triangles@ == triangle_list(
            vertex_positions@,
            indices@,
        )),
{
    if indices.len() % 3 != 0 {
        return None;
    }
    let count: usize = indices.len() / 3;
    let mut triangles: Vec<Triangle> = Vec::new();
    let mut k: usize = 0;
    while k < count
        invariant
            k <= count,
            count == indices.len() / 3,
            indices.len() % 3 == 0,
            indices_in_range(vertex_positions.len() as nat, indices@),
            triangles@.len() == k,
            forall|j: int|
                0 <= j < k ==> (#[trigger] triangles@[j]) == triangle_at(
                    vertex_positions@,
                    indices@,
                    j,
                ),
        decreases count - k,
    {
        let i0: usize = indices[3 * k] as usize;
        let i1: usize = indices[3 * k + 1] as usize;
        let i2: usize = indices[3 * k + 2] as usize;
        triangles.push(
            Triangle { v0: vertex_positions[i0], v1: vertex_positions[i1], v2: vertex_positions[i2] },
        );
        k = k + 1;
    }
    assert(triangles@ =~= triangle_list(vertex_positions@, indices@));
    Some(triangles)
}

/// What the host evaluated for one triangle of a target, in world space.
#[derive(Clone, Copy, Debug)]
pub struct TriangleProbe {
    /// The triangle.
    pub triangle: Triangle,
    /// The squared distance of each vertex from the origin of the ray.
    pub vertex_distances: [Scalar; 3],
    /// The quantities of the tests of the ray against the triangle.
    pub terms: RayTriangleTerms,
    /// The squared distance from the origin of the ray to the point of the
    /// Möller-Trumbore terms.
    pub moller_trumbore_distance: Scalar,
    /// The squared distance from the origin of the ray to the point of the
    /// geometric terms.
    pub geometric_distance: Scalar,
}

/// The nearest hit so far.
pub struct Nearest {
    /// The squared distance that a hit must stay under to replace it.
    pub distance: Scalar,
    pub hit: Option<Intersection>,
}

/// The smaller of a distance that is no NaN and another that may be one.
pub open spec fn nearer_of(so_far: Scalar, distance: Scalar) -> Scalar {
    if distance.lt_spec(so_far) {
        distance
    } else {
        so_far
    }
}

/// The squared distance of the vertex nearest to the origin of the ray.
pub open spec fn nearest_vertex(probe: TriangleProbe) -> Scalar {
    nearer_of(
        nearer_of(
            nearer_of(Scalar { bits: INFINITY_BITS }, probe.vertex_distances[0].abs_spec()),
            probe.vertex_distances[1].abs_spec(),
        ),
        probe.vertex_distances[2].abs_spec(),
    )
}

/// The triangle is passed over without a test: each of its vertices is
/// farther from the origin of the ray than the nearest hit so far.
pub open spec fn is_skipped(nearest: Nearest, probe: TriangleProbe) -> bool {
    nearest_vertex(probe).gt_spec(nearest.distance)
}

/// The squared distance from the origin of the ray to the point that the
/// test reports, with its sign dropped.
pub open spec fn hit_distance(probe: TriangleProbe, algorithm: RaycastAlgorithm) -> Scalar {
    match algorithm {
        RaycastAlgorithm::Geometric => probe.geometric_distance.abs_spec(),
        RaycastAlgorithm::MollerTrumbore(_) => probe.moller_trumbore_distance.abs_spec(),
    }
}

/// The hit on the triangle, if the triangle is tested and struck.
pub open spec fn tested_hit(nearest: Nearest, probe: TriangleProbe, algorithm: RaycastAlgorithm)
    -> Option<Intersection> {
    if is_skipped(nearest, probe) {
        None
    } else {
        match ray_triangle_spec(probe.terms, algorithm) {
            Some(hit) => Some(
                Intersection {
                    hit,
                    distance: hit_distance(probe, algorithm),
                    triangle: Some(probe.triangle),
                },
            ),
            None => None,
        }
    }
}

/// The nearest hit once one more triangle is taken into account. A hit
/// replaces the nearest only if it is strictly nearer.
pub open spec fn with_probe(nearest: Nearest, probe: TriangleProbe, algorithm: RaycastAlgorithm)
    -> Nearest {
    match tested_hit(nearest, probe, algorithm) {
        Some(found) => if found.distance.lt_spec(nearest.distance) {
            Nearest { distance: found.distance, hit: Some(found) }
        } else {
            nearest
        },
        None => nearest,
    }
}

/// The nearest hit among the first `n` triangles. Before any triangle, there
/// is none, and a hit must stay under the largest finite distance.
pub open spec fn nearest_among(probes: Seq<TriangleProbe>, n: nat, algorithm: RaycastAlgorithm)
    -> Nearest
    decreases n,
{
    if n == 0 {
        Nearest { distance: Scalar { bits: MAX_BITS }, hit: None }
    } else {
        with_probe(nearest_among(probes, (n - 1) as nat, algorithm), probes[n - 1], algorithm)
    }
}

/// The nearest hit on a target, if any.
pub open spec fn mesh_hit(probes: Seq<TriangleProbe>, algorithm: RaycastAlgorithm) -> Option<
    Intersection,
> {
    nearest_among(probes, probes.len(), algorithm).hit
}

/// The bound of the search and the hit go together, and the bound never
/// rises: it is the largest finite distance as long as nothing is hit, and
/// the distance of the hit afterwards, which is no NaN.
pub proof fn lemma_nearest_is_consistent(
    probes: Seq<TriangleProbe>,
    n: nat,
    algorithm: RaycastAlgorithm,
)
    ensures
        !nearest_among(probes, n, algorithm).distance.is_nan_spec(),
        match nearest_among(probes, n, algorithm).hit {
            Some(found) => found.distance == nearest_among(probes, n, algorithm).distance,
            None => nearest_among(probes, n, algorithm).distance == (Scalar { bits: MAX_BITS }),
        },
        n > 0 ==> nearest_among(probes, n, algorithm).distance.le_spec(
            nearest_among(probes, (n - 1) as nat, algorithm).distance,
        ),
    decreases n,
{
    if n > 0 {
        lemma_nearest_is_consistent(probes, (n - 1) as nat, algorithm);
    }
}

/// The bound after `n` triangles is no larger than after `m <= n`.
pub proof fn lemma_bound_never_rises(
    probes: Seq<TriangleProbe>,
    m: nat,
    n: nat,
    algorithm: RaycastAlgorithm,
)
    requires
        m <= n,
    ensures
        nearest_among(probes, n, algorithm).distance.le_spec(
            nearest_among(probes, m, algorithm).distance,
        ),
    decreases n - m,
{
    lemma_nearest_is_consistent(probes, n, algorithm);
    lemma_nearest_is_consistent(probes, m, algorithm);
    if m < n {
        lemma_bound_never_rises(probes, m, (n - 1) as nat, algorithm);
    }
}

/// The hit that is reported is the hit on one of the triangles, as the test
/// found it, and it lies under the largest finite distance.
pub proof fn lemma_hit_comes_from_a_triangle(
    probes: Seq<TriangleProbe>,
    n: nat,
    algorithm: RaycastAlgorithm,
)
    requires
        n <= probes.len(),
    ensures
        nearest_among(probes, n, algorithm).hit matches Some(found) ==> found.distance.lt_spec(
            Scalar { bits: MAX_BITS },
        ) && exists|k: int|
            0 <= k < n && tested_hit(
                nearest_among(probes, k as nat, algorithm),
                #[trigger] probes[k],
                algorithm,
            ) == Some(found),
    decreases n,
{
    if n > 0 {
        let before = nearest_among(probes, (n - 1) as nat, algorithm);
        let after = nearest_among(probes, n, algorithm);
        lemma_hit_comes_from_a_triangle(probes, (n - 1) as nat, algorithm);
        lemma_nearest_is_consistent(probes, (n - 1) as nat, algorithm);
        lemma_nearest_is_consistent(probes, n, algorithm);
        if after.hit is Some {
            let found = after.hit->Some_0;
            if after.hit == before.hit {
                let k = choose|k: int|
                    0 <= k < n - 1 && tested_hit(
                        nearest_among(probes, k as nat, algorithm),
                        #[trigger] probes[k],
                        algorithm,
                    ) == Some(found);
                assert(0 <= k < n);
            } else {
                assert(tested_hit(before, probes[n - 1], algorithm) == Some(found));
            }
        }
    }
}

/// No triangle that was tested has a hit strictly nearer than the one that is
/// reported. For each of the first `n` triangles: if it was tested and
/// struck, something is reported, and at a distance that is not larger,
/// unless the hit's own distance is a NaN or beyond the largest finite
/// distance.
pub proof fn lemma_no_tested_hit_is_nearer(
    probes: Seq<TriangleProbe>,
    n: nat,
    k: int,
    algorithm: RaycastAlgorithm,
)
    requires
        0 <= k < n <= probes.len(),
    ensures
        tested_hit(nearest_among(probes, k as nat, algorithm), probes[k], algorithm) matches Some(
            found,
        ) ==> (found.distance.lt_spec(Scalar { bits: MAX_BITS }) ==> nearest_among(
            probes,
            n,
            algorithm,
        ).hit is Some) && (!found.distance.is_nan_spec() ==> nearest_among(
            probes,
            n,
            algorithm,
        ).distance.le_spec(found.distance)),
{
    lemma_bound_never_rises(probes, (k + 1) as nat, n, algorithm);
    lemma_nearest_is_consistent(probes, (k + 1) as nat, algorithm);
    lemma_nearest_is_consistent(probes, k as nat, algorithm);
    lemma_nearest_is_consistent(probes, n, algorithm);
}

/// A target none of whose triangles is struck has no hit.
pub proof fn lemma_no_hit_without_a_struck_triangle(
    probes: Seq<TriangleProbe>,
    n: nat,
    algorithm: RaycastAlgorithm,
)
    requires
        n <= probes.len(),
        forall|k: int| 0 <= k < n ==> ray_triangle_spec((#[trigger] probes[k]).terms, algorithm) is None,
    ensures
        nearest_among(probes, n, algorithm).hit is None,
    decreases n,
{
    if n > 0 {
        lemma_no_hit_without_a_struck_triangle(probes, (n - 1) as nat, algorithm);
        assert(ray_triangle_spec(probes[n - 1].terms, algorithm) is None);
    }
}

/// The squared distance of the vertex nearest to the origin of the ray.
fn nearest_vertex_distance(probe: &TriangleProbe) -> (r: Scalar)
    ensures
        r == nearest_vertex(*probe),
{
    let mut nearest = Scalar::from_bits(INFINITY_BITS);
    let d0 = probe.vertex_distances[0].abs();
    if d0.lt(&nearest) {
        nearest = d0;
    }
    let d1 = probe.vertex_distances[1].abs();
    if d1.lt(&nearest) {
        nearest = d1;
    }
    let d2 = probe.vertex_distances[2].abs();
    if d2.lt(&nearest) {
        nearest = d2;
    }
    nearest
}

/// Finds the nearest hit of a ray on a target, given what the host evaluated
/// for each triangle of the target, in the order of the index list.
///
/// A triangle is passed over when all its vertices are farther away than the
/// nearest hit so far. The others are tested with `algorithm`, and a hit
/// replaces the nearest so far only if it is strictly nearer. The hit that is
/// reported carries its triangle and its squared distance.
pub fn ray_mesh_intersection(probes: &Vec<TriangleProbe>, algorithm: RaycastAlgorithm) -> (r:
    Option<Intersection>)
    ensures
        r == mesh_hit(probes@, algorithm),
        (forall|k: int|
            0 <= k < probes.len() ==> ray_triangle_spec((#[trigger] probes@[k]).terms, algorithm)
                is None) ==> r is None,
{
    let mut nearest = Nearest { distance: Scalar::from_bits(MAX_BITS), hit: None };
    let mut i: usize = 0;
    while i < probes.len()
        invariant
            i <= probes.len(),
            nearest == nearest_among(probes@, i as nat, algorithm),
        decreases probes.len() - i,
    {
        let probe = &probes[i];
        if !nearest_vertex_distance(probe).gt(&nearest.distance) {
            match ray_triangle_intersection(&probe.terms, algorithm) {
                Some(hit) => {
                    let distance = match algorithm {
                        RaycastAlgorithm::Geometric => probe.geometric_distance.abs(),
                        RaycastAlgorithm::MollerTrumbore(_) => probe.moller_trumbore_distance.abs(),
                    };
                    if distance.lt(&nearest.distance) {
                        nearest = Nearest {
                            distance,
                            hit: Some(Intersection::new(hit, distance, Some(probe.triangle))),
                        };
                    }
                },
                None => {},
            }
        }
        i = i + 1;
    }
    proof {
        if forall|k: int|
            0 <= k < probes.len() ==> ray_triangle_spec((#[trigger] probes@[k]).terms, algorithm)
                is None {
            lemma_no_hit_without_a_struck_triangle(probes@, probes@.len(), algorithm);
        }
    }
    nearest.hit
}

} // verus!
