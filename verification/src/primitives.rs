//! The geometric records that pass between the host and the engine.
//!
//! Coordinates are single-precision bit patterns. Nothing here computes with
//! them; the records are built, carried and compared.

use crate::scalar::Scalar;
use vstd::prelude::*;

verus! {

/// A point or vector in the plane of the screen.
#[derive(Clone, Copy, Debug, PartialEq, Eq, Structural)]
pub struct Vec2 {
    pub x: Scalar,
    pub y: Scalar,
}

impl Vec2 {
    pub fn new(x: Scalar, y: Scalar) -> (r: Vec2)
        ensures
            r == (Vec2 { x, y }),
    {
        Vec2 { x, y }
    }

    /// The vector with both components at positive zero.
    pub fn zero() -> (r: Vec2)
        ensures
            r == (Vec2 { x: Scalar { bits: 0 }, y: Scalar { bits: 0 } }),
    {
        Vec2 { x: Scalar { bits: 0 }, y: Scalar { bits: 0 } }
    }
}

/// A point or vector in space.
#[derive(Clone, Copy, Debug, PartialEq, Eq, Structural)]
pub struct Vec3 {
    pub x: Scalar,
    pub y: Scalar,
    pub z: Scalar,
}

impl Vec3 {
    /// No component is a NaN or an infinity.
    pub open spec fn is_finite_spec(self) -> bool {
        self.x.is_finite_spec() && self.y.is_finite_spec() && self.z.is_finite_spec()
    }

    /// Every component is a zero of either sign.
    pub open spec fn is_zero_spec(self) -> bool {
        self.x.is_zero_spec() && self.y.is_zero_spec() && self.z.is_zero_spec()
    }

    pub fn new(x: Scalar, y: Scalar, z: Scalar) -> (r: Vec3)
        ensures
            r == (Vec3 { x, y, z }),
    {
        Vec3 { x, y, z }
    }

    pub fn is_finite(&self) -> (r: bool)
        ensures
            r == self.is_finite_spec(),
    {
        self.x.is_finite() && self.y.is_finite() && self.z.is_finite()
    }

    pub fn is_zero(&self) -> (r: bool)
        ensures
            r == self.is_zero_spec(),
    {
        self.x.is_zero() && self.y.is_zero() && self.z.is_zero()
    }
}

/// An origin and a direction. It describes a ray that is cast, and also a hit:
/// the point that was struck and the surface normal there.
#[derive(Clone, Copy, Debug, PartialEq, Eq, Structural)]
pub struct Ray3d {
    pub origin: Vec3,
    pub direction: Vec3,
}

impl Ray3d {
    /// A ray that can be cast: every coordinate is finite and the direction
    /// is not the zero vector.
    pub open spec fn is_castable_spec(self) -> bool {
        self.origin.is_finite_spec() && self.direction.is_finite_spec()
            && !self.direction.is_zero_spec()
    }

    /// A viewport without extent: its width or its height is zero.
    pub open spec fn viewport_is_degenerate(viewport_size: Vec2) -> bool {
        viewport_size.x.is_zero_spec() || viewport_size.y.is_zero_spec()
    }

    /// A projection that cannot be inverted: its determinant is zero, or not
    /// a number at all.
    pub open spec fn projection_is_singular(determinant: Scalar) -> bool {
        determinant.is_zero_spec() || determinant.is_nan_spec()
    }

    /// The ray through a cursor position, given what the unprojection of that
    /// position produced. There is none when the viewport has no extent, when
    /// the projection is singular, or when the unprojection did not yield a
    /// castable ray.
    pub open spec fn screenspace_spec(
        viewport_size: Vec2,
        projection_determinant: Scalar,
        near: Vec3,
        direction: Vec3,
    ) -> Option<Ray3d> {
        let ray = Ray3d { origin: near, direction };
        if Self::viewport_is_degenerate(viewport_size) || Self::projection_is_singular(
            projection_determinant,
        ) || !ray.is_castable_spec() {
            None
        } else {
            Some(ray)
        }
    }

    pub fn new(origin: Vec3, direction: Vec3) -> (r: Ray3d)
        ensures
            r == (Ray3d { origin, direction }),
    {
        Ray3d { origin, direction }
    }

    pub fn origin(&self) -> (r: Vec3)
        ensures
            r == self.origin,
    {
        self.origin
    }

    pub fn direction(&self) -> (r: Vec3)
        ensures
            r == self.direction,
    {
        self.direction
    }

    pub fn is_castable(&self) -> (r: bool)
        ensures
            r == self.is_castable_spec(),
    {
        self.origin.is_finite() && self.direction.is_finite() && !self.direction.is_zero()
    }

    /// Accepts or refuses the ray that the host unprojected from a cursor
    /// position: `projection_determinant` is the determinant of the camera's
    /// projection, `near` the cursor on the near plane in world space,
    /// `direction` the normalized direction towards the far plane.
    ///
    /// A viewport of zero width or height never yields a ray, nor does a
    /// singular projection, and a ray that is returned has only finite
    /// coordinates.
    pub fn from_screenspace(
        viewport_size: Vec2,
        projection_determinant: Scalar,
        near: Vec3,
        direction: Vec3,
    ) -> (r: Option<Ray3d>)
        ensures
            r == Self::screenspace_spec(viewport_size, projection_determinant, near, direction),
            Self::viewport_is_degenerate(viewport_size) ==> r is None,
            Self::projection_is_singular(projection_determinant) ==> r is None,
            r matches Some(ray) ==> ray.is_castable_spec(),
    {
        let ray = Ray3d { origin: near, direction };
        if viewport_size.x.is_zero() || viewport_size.y.is_zero() {
            return None;
        }
        if projection_determinant.is_zero() || projection_determinant.is_nan() {
            return None;
        }
        if !ray.is_castable() {
            return None;
        }
        Some(ray)
    }
}

/// Three vertices, in the order that winds the triangle. The normal
/// `(v1 - v0) x (v2 - v0)` points out of its front side.
#[derive(Clone, Copy, Debug, PartialEq, Eq, Structural)]
pub struct Triangle {
    pub v0: Vec3,
    pub v1: Vec3,
    pub v2: Vec3,
}

impl Triangle {
    pub fn new(v0: Vec3, v1: Vec3, v2: Vec3) -> (r: Triangle)
        ensures
            r == (Triangle { v0, v1, v2 }),
    {
        Triangle { v0, v1, v2 }
    }
}

impl From<[Vec3; 3]> for Triangle {
    /// The triangle with the three vertices, in their order.
    fn from(vertices: [Vec3; 3]) -> (r: Triangle) {
        Triangle { v0: vertices[0], v1: vertices[1], v2: vertices[2] }
    }
}

impl vstd::std_specs::convert::FromSpecImpl<[Vec3; 3]> for Triangle {
    open spec fn obeys_from_spec() -> bool {
        true
    }

    open spec fn from_spec(vertices: [Vec3; 3]) -> Triangle {
        Triangle { v0: vertices[0], v1: vertices[1], v2: vertices[2] }
    }
}

/// Where a ray struck a target.
#[derive(Clone, Copy, Debug, PartialEq, Eq, Structural)]
pub struct Intersection {
    /// The point that was struck, with the surface normal as direction.
    pub hit: Ray3d,
    /// How far the point is from the origin of the ray. Hits are ranked by it.
    pub distance: Scalar,
    /// The triangle that was struck, where the target is a mesh.
    pub triangle: Option<Triangle>,
}

impl Intersection {
    pub fn new(hit: Ray3d, distance: Scalar, triangle: Option<Triangle>) -> (r: Intersection)
        ensures
            r == (Intersection { hit, distance, triangle }),
    {
        Intersection { hit, distance, triangle }
    }

    /// The point that was struck.
    pub fn position(&self) -> (r: Vec3)
        ensures
            r == self.hit.origin,
    {
        self.hit.origin
    }

    /// The surface normal at the point that was struck.
    pub fn normal(&self) -> (r: Vec3)
        ensures
            r == self.hit.direction,
    {
        self.hit.direction
    }

    pub fn distance(&self) -> (r: Scalar)
        ensures
            r == self.distance,
    {
        self.distance
    }

    pub fn world_triangle(&self) -> (r: Option<Triangle>)
        ensures
            r == self.triangle,
    {
        self.triangle
    }
}

/// A shape that is tested analytically, without a mesh.
#[derive(Clone, Copy, Debug, PartialEq, Eq, Structural)]
pub enum Primitive3d {
    Plane { point: Vec3, normal: Vec3 },
}

} // verus!
