//! The two tests of a ray against a triangle.
//!
//! The host evaluates the products and quotients of a test and hands them
//! over; which values make a hit is decided here.

use crate::primitives::{Ray3d, Vec3};
use crate::scalar::{Scalar, EPSILON_BITS, ONE_BITS, ZERO_BITS};
use vstd::prelude::*;

verus! {

/// What to do with a triangle that is struck from behind.
#[derive(Clone, Copy, Debug, PartialEq, Eq, Structural)]
pub enum Backfaces {
    /// A triangle struck from behind is not hit.
    Cull,
    /// A triangle is hit from either side.
    Include,
}

/// The test to use.
#[derive(Clone, Copy, Debug, PartialEq, Eq, Structural)]
#[non_exhaustive]
pub enum RaycastAlgorithm {
    Geometric,
    MollerTrumbore(Backfaces),
}

impl Default for RaycastAlgorithm {
    /// Möller-Trumbore, with triangles struck from behind left out.
    fn default() -> (r: Self)
        ensures
            r == RaycastAlgorithm::MollerTrumbore(Backfaces::Cull),
    {
        RaycastAlgorithm::MollerTrumbore(Backfaces::Cull)
    }
}

/// The quantities of the Möller-Trumbore test of a ray, with origin `o` and
/// direction `d`, against a triangle `v0 v1 v2`, with edges `e1 = v1 - v0`
/// and `e2 = v2 - v0`.
#[derive(Clone, Copy, Debug, PartialEq, Eq, Structural)]
pub struct MollerTrumboreTerms {
    /// `e1 . (d x e2)`. It is positive where the ray meets the front of the
    /// triangle.
    pub determinant: Scalar,
    /// First barycentric coordinate of the point:
    /// `((o - v0) . (d x e2)) / determinant`.
    pub u: Scalar,
    /// Second barycentric coordinate: `(d . ((o - v0) x e1)) / determinant`.
    pub v: Scalar,
    /// The sum `u + v`, as the host rounded it.
    pub u_plus_v: Scalar,
    /// Where the ray meets the triangle's plane: `o + t * d`, with
    /// `t = (e2 . ((o - v0) x e1)) / determinant`.
    pub point: Vec3,
    /// `e1 x e2`, neither normalized nor turned towards the ray.
    pub normal: Vec3,
}

/// The quantities of the geometric test of a ray, with origin `o` and
/// direction `d`, against a triangle `v0 v1 v2` with plane normal
/// `n = (v1 - v0) x (v2 - v0)`.
#[derive(Clone, Copy, Debug, PartialEq, Eq, Structural)]
pub struct GeometricTerms {
    /// `n . d`.
    pub normal_dot_direction: Scalar,
    /// The ray parameter at which the plane is met:
    /// `(n . v0 - n . o) / (n . d)`.
    pub t: Scalar,
    /// `n . ((v1 - v0) x (p - v0))`, with `p` the point below. It is negative
    /// where the point lies on the outer side of the edge from `v0` to `v1`.
    pub edge0: Scalar,
    /// `n . ((v2 - v1) x (p - v1))`.
    pub edge1: Scalar,
    /// `n . ((v0 - v2) x (p - v2))`.
    pub edge2: Scalar,
    /// Where the ray meets the triangle's plane: `o + t * d`.
    pub point: Vec3,
    /// The plane normal `n`, not normalized.
    pub normal: Vec3,
}

/// The quantities of both tests for one ray and one triangle.
#[derive(Clone, Copy, Debug, PartialEq, Eq, Structural)]
pub struct RayTriangleTerms {
    pub moller_trumbore: MollerTrumboreTerms,
    pub geometric: GeometricTerms,
}

/// The machine epsilon.
pub open spec fn epsilon() -> Scalar {
    Scalar { bits: EPSILON_BITS }
}

/// Positive zero.
pub open spec fn zero() -> Scalar {
    Scalar { bits: ZERO_BITS }
}

/// The number one.
pub open spec fn one() -> Scalar {
    Scalar { bits: ONE_BITS }
}

/// The determinant lets the test go on. With `Cull` a determinant below the
/// machine epsilon is refused, which takes the negative ones with it; with
/// `Include` only one whose absolute value is below the epsilon.
pub open spec fn determinant_passes(determinant: Scalar, backface_culling: Backfaces) -> bool {
    match backface_culling {
        Backfaces::Cull => !determinant.lt_spec(epsilon()),
        Backfaces::Include => !determinant.abs_spec().lt_spec(epsilon()),
    }
}

/// The point lies in the triangle: `0 <= u <= 1`, `v >= 0` and `u + v <= 1`.
pub open spec fn barycentric_inside(u: Scalar, v: Scalar, u_plus_v: Scalar) -> bool {
    &&& zero().le_spec(u)
    &&& u.le_spec(one())
    &&& v.ge_spec(zero())
    &&& u_plus_v.le_spec(one())
}

/// The outcome of the Möller-Trumbore test.
pub open spec fn moller_trumbore_spec(
    terms: MollerTrumboreTerms,
    backface_culling: Backfaces,
) -> Option<Ray3d> {
    if determinant_passes(terms.determinant, backface_culling) && barycentric_inside(
        terms.u,
        terms.v,
        terms.u_plus_v,
    ) {
        Some(Ray3d { origin: terms.point, direction: terms.normal })
    } else {
        None
    }
}

/// The outcome of the geometric test: a miss when the ray runs parallel to
/// the plane, when the plane lies behind the ray, or when the point is on the
/// outer side of an edge.
pub open spec fn geometric_spec(terms: GeometricTerms) -> Option<Ray3d> {
    if terms.normal_dot_direction.abs_spec().lt_spec(epsilon()) || terms.t.lt_spec(zero())
        || terms.edge0.lt_spec(zero()) || terms.edge1.lt_spec(zero()) || terms.edge2.lt_spec(
        zero(),
    ) {
        None
    } else {
        Some(Ray3d { origin: terms.point, direction: terms.normal })
    }
}

/// The outcome of the chosen test.
pub open spec fn ray_triangle_spec(terms: RayTriangleTerms, algorithm: RaycastAlgorithm) -> Option<
    Ray3d,
> {
    match algorithm {
        RaycastAlgorithm::Geometric => geometric_spec(terms.geometric),
        RaycastAlgorithm::MollerTrumbore(backface_culling) => moller_trumbore_spec(
            terms.moller_trumbore,
            backface_culling,
        ),
    }
}

/// Whatever Möller-Trumbore reports with `Cull`, it reports with `Include`
/// too: taking back faces in never loses a hit.
pub proof fn lemma_include_keeps_every_culled_hit(terms: MollerTrumboreTerms)
    ensures
        moller_trumbore_spec(terms, Backfaces::Cull) is Some ==> moller_trumbore_spec(
            terms,
            Backfaces::Include,
        ) == moller_trumbore_spec(terms, Backfaces::Cull),
{
}

/// The ties between the terms of the two tests. In exact arithmetic they hold
/// for every ray and triangle: both tests have the same point and normal,
/// `n . d` is the determinant with its sign turned, and the three edge
/// products are `v`, `1 - u - v` and `u`, each multiplied by the squared
/// length of the normal. Rounding can break them.
pub open spec fn terms_correspond(terms: RayTriangleTerms) -> bool {
    let barycentric = terms.moller_trumbore;
    let geometric = terms.geometric;
    &&& barycentric.point == geometric.point
    &&& barycentric.normal == geometric.normal
    &&& geometric.normal_dot_direction.abs_spec().lt_spec(epsilon())
        == barycentric.determinant.abs_spec().lt_spec(epsilon())
    &&& geometric.edge0.lt_spec(zero()) == !barycentric.v.ge_spec(zero())
    &&& geometric.edge1.lt_spec(zero()) == !barycentric.u_plus_v.le_spec(one())
    &&& geometric.edge2.lt_spec(zero()) == !zero().le_spec(barycentric.u)
    &&& barycentric.v.ge_spec(zero()) && barycentric.u_plus_v.le_spec(one())
        ==> barycentric.u.le_spec(one())
}

/// Where the terms of the two tests are tied as exact arithmetic ties them,
/// and the triangle's plane is not behind the ray, the geometric test and
/// Möller-Trumbore with back faces included agree: both miss, or both report
/// the same point and normal.
pub proof fn lemma_tests_agree_on_corresponding_terms(terms: RayTriangleTerms)
    requires
        terms_correspond(terms),
        !terms.geometric.t.lt_spec(zero()),
    ensures
        geometric_spec(terms.geometric) == moller_trumbore_spec(
            terms.moller_trumbore,
            Backfaces::Include,
        ),
{
}

/// A hit of either test is the point and the normal that came with the terms.
pub proof fn lemma_hit_is_point_and_normal(terms: RayTriangleTerms, algorithm: RaycastAlgorithm)
    ensures
        ray_triangle_spec(terms, algorithm) matches Some(hit) ==> match algorithm {
            RaycastAlgorithm::Geometric => hit.origin == terms.geometric.point && hit.direction
                == terms.geometric.normal,
            RaycastAlgorithm::MollerTrumbore(_) => hit.origin == terms.moller_trumbore.point
                && hit.direction == terms.moller_trumbore.normal,
        },
{
}

/// Tests a ray against a triangle with the chosen algorithm. A hit is the
/// point that was struck, with the triangle's normal as direction.
pub fn ray_triangle_intersection(terms: &RayTriangleTerms, algorithm: RaycastAlgorithm) -> (r:
    Option<Ray3d>)
    ensures
        r == ray_triangle_spec(*terms, algorithm),
{
    match algorithm {
        RaycastAlgorithm::Geometric => raycast_geometric(&terms.geometric),
        RaycastAlgorithm::MollerTrumbore(backface_culling) => raycast_moller_trumbore(
            &terms.moller_trumbore,
            backface_culling,
        ),
    }
}

/// The Möller-Trumbore test.
pub fn raycast_moller_trumbore(terms: &MollerTrumboreTerms, backface_culling: Backfaces) -> (r:
    Option<Ray3d>)
    ensures
        r == moller_trumbore_spec(*terms, backface_culling),
{
    let epsilon = Scalar::from_bits(EPSILON_BITS);
    let zero = Scalar::from_bits(ZERO_BITS);
    let one = Scalar::from_bits(ONE_BITS);
    match backface_culling {
        Backfaces::Cull => {
            if terms.determinant.lt(&epsilon) {
                return None;
            }
        },
        Backfaces::Include => {
            if terms.determinant.abs().lt(&epsilon) {
                return None;
            }
        },
    }
    if !(zero.le(&terms.u) && terms.u.le(&one)) {
        return None;
    }
    if !(terms.v.ge(&zero) && terms.u_plus_v.le(&one)) {
        return None;
    }
    Some(Ray3d::new(terms.point, terms.normal))
}

/// The geometric test.
pub fn raycast_geometric(terms: &GeometricTerms) -> (r: Option<Ray3d>)
    ensures
        r == geometric_spec(*terms),
{
    let epsilon = Scalar::from_bits(EPSILON_BITS);
    let zero = Scalar::from_bits(ZERO_BITS);
    if terms.normal_dot_direction.abs().lt(&epsilon) {
        return None;
    }
    if terms.t.lt(&zero) {
        return None;
    }
    if terms.edge0.lt(&zero) {
        return None;
    }
    if terms.edge1.lt(&zero) {
        return None;
    }
    if terms.edge2.lt(&zero) {
        return None;
    }
    Some(Ray3d::new(terms.point, terms.normal))
}

} // verus!
