//! Decision core of a ray casting engine for triangle meshes.
//!
//! The host evaluates the floating-point geometry and hands the results over as
//! IEEE 754 single-precision bit patterns. Every decision taken on those
//! values (which hits count, which targets are culled, which hit is nearest,
//! in what order hits are reported) is made here and proved against its
//! specification.

pub mod culling;
pub mod mesh;
pub mod primitives;
pub mod ranking;
pub mod raycast;
pub mod scalar;
pub mod source;

pub use crate::primitives::{Intersection, Primitive3d, Ray3d, Triangle};
pub use crate::raycast::{
    ray_triangle_intersection, raycast_geometric, raycast_moller_trumbore, Backfaces,
    RaycastAlgorithm,
};
pub use crate::source::{
    build_rays, update_raycast, PluginState, RayCastMesh, RayCastMethod, RayCastSource,
};
