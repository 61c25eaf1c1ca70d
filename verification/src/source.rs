//! Ray sources and their update, once per frame.
//!
//! A source owns a ray and the hits of that ray, nearest first. The host
//! supplies what it found in the scene; what becomes of the source is decided
//! here. Sources, targets and the switch that enables them are tagged with a
//! type `T`, so that independent sets of them can live side by side.

use crate::culling::{
    broad_phase, collect_picks, culled, lemma_candidates_ignore_target_order,
    lemma_picks_depend_on_membership, lemma_picks_ignore_target_order, picks, CullTarget,
    MeshTarget,
};
use crate::primitives::{Intersection, Primitive3d, Ray3d, Vec2, Vec3};
use crate::ranking::{
    distance_rank, distances_are_numbers, is_ordered, is_sorted,
    lemma_ordered_numbers_are_sorted, lemma_ranked_is_ordered,
    lemma_ranking_ignores_input_order, ranked, sort_by_distance, Pick,
};
use crate::raycast::epsilon;
use crate::scalar::{Scalar, EPSILON_BITS};
use std::marker::PhantomData;
use vstd::prelude::*;

verus! {

/// The switch for all ray casting with the tag `T`.
pub struct PluginState<T> {
    pub enabled: bool,
    pub debug: bool,
    pub marker: PhantomData<T>,
}

impl<T> PluginState<T> {
    pub fn new(enabled: bool, debug: bool) -> (r: Self)
        ensures
            r.enabled == enabled,
            r.debug == debug,
    {
        PluginState { enabled, debug, marker: PhantomData }
    }
}

impl<T> Default for PluginState<T> {
    /// Ray casting is enabled, and so is its debug display.
    fn default() -> (r: Self)
        ensures
            r.enabled,
            r.debug,
    {
        PluginState { enabled: true, debug: true, marker: PhantomData }
    }
}

/// Marks an object as a target of the rays with the tag `T`. It holds nothing.
pub struct RayCastMesh<T> {
    _marker: PhantomData<T>,
}

impl<T> Default for RayCastMesh<T> {
    fn default() -> Self {
        RayCastMesh { _marker: PhantomData }
    }
}

/// How a source gets its ray.
#[derive(Clone, Copy, Debug, PartialEq, Eq, Structural)]
pub enum RayCastMethod {
    /// Through a cursor position on the screen of the source's camera.
    Screenspace(Vec2),
    /// Along the up axis of the source's transform.
    Transform,
}

/// The ray that the host is to build for a source.
#[derive(Clone, Copy, Debug, PartialEq, Eq, Structural)]
pub enum RayRequest {
    /// None: the source lacks what its method needs.
    Unavailable,
    /// The ray through this cursor position.
    Screenspace(Vec2),
    /// The ray along the up axis of the source's transform.
    Transform,
}

/// What the host evaluated for a ray and a plane.
#[derive(Clone, Copy, Debug, PartialEq, Eq, Structural)]
pub struct PlaneProbe {
    /// The ray's direction times the plane's normal.
    pub denominator: Scalar,
    /// The signed distance along the ray at which the plane is met.
    pub distance: Scalar,
    /// The point at that distance.
    pub position: Vec3,
}

/// A source of rays with the tag `T`.
///
/// Its hits are in order at all times: no hit is strictly farther than the
/// one that follows it.
pub struct RayCastSource<T> {
    cast_method: RayCastMethod,
    ray: Option<Ray3d>,
    intersections: Vec<Pick>,
    _marker: PhantomData<T>,
}

/// What a source holds.
pub struct SourceView {
    pub cast_method: RayCastMethod,
    pub ray: Option<Ray3d>,
    pub intersections: Seq<Pick>,
}

impl<T> View for RayCastSource<T> {
    type V = SourceView;

    closed spec fn view(&self) -> SourceView {
        SourceView {
            cast_method: self.cast_method,
            ray: self.ray,
            intersections: self.intersections@,
        }
    }
}

/// The ray to build for a source. A screen-space source needs a camera and a
/// transform, a transform source its transform.
pub open spec fn ray_request_spec(method: RayCastMethod, has_transform: bool, has_camera: bool)
    -> RayRequest {
    match method {
        RayCastMethod::Screenspace(cursor_pos_screen) => if has_camera && has_transform {
            RayRequest::Screenspace(cursor_pos_screen)
        } else {
            RayRequest::Unavailable
        },
        RayCastMethod::Transform => if has_transform {
            RayRequest::Transform
        } else {
            RayRequest::Unavailable
        },
    }
}

/// The ray of a source after ray building: none where none could be asked
/// for, else what the host built.
pub open spec fn built_ray(
    method: RayCastMethod,
    has_transform: bool,
    has_camera: bool,
    built: Option<Ray3d>,
) -> Option<Ray3d> {
    if ray_request_spec(method, has_transform, has_camera) is Unavailable {
        None
    } else {
        built
    }
}

/// The hits of a source after a frame's ray cast: those of the targets that
/// passed the broad phase, nearest first.
pub open spec fn frame_hits(cull_targets: Seq<CullTarget>, mesh_targets: Seq<MeshTarget>) -> Seq<
    Pick,
> {
    ranked(picks(culled(cull_targets), mesh_targets))
}

/// A source after a frame's ray cast. Where ray casting is disabled, or the
/// source has no ray, nothing changes. Otherwise the hits are replaced.
pub open spec fn updated(
    enabled: bool,
    source: SourceView,
    cull_targets: Seq<CullTarget>,
    mesh_targets: Seq<MeshTarget>,
) -> SourceView {
    if enabled && source.ray is Some {
        SourceView {
            cast_method: source.cast_method,
            ray: source.ray,
            intersections: frame_hits(cull_targets, mesh_targets),
        }
    } else {
        source
    }
}

/// Where a ray meets a plane: nowhere if there is no ray or the ray runs
/// parallel to the plane. The hit carries the plane's normal and no triangle.
pub open spec fn plane_hit(ray: Option<Ray3d>, shape: Primitive3d, probe: PlaneProbe) -> Option<
    Intersection,
> {
    if ray is Some && probe.denominator.abs_spec().gt_spec(epsilon()) {
        match shape {
            Primitive3d::Plane { point, normal } => Some(
                Intersection {
                    hit: Ray3d { origin: probe.position, direction: normal },
                    distance: probe.distance,
                    triangle: None,
                },
            ),
        }
    } else {
        None
    }
}

/// The hits of a frame are in order, and sorted outright where no distance is
/// a NaN.
pub proof fn lemma_frame_hits_are_ordered(
    cull_targets: Seq<CullTarget>,
    mesh_targets: Seq<MeshTarget>,
)
    ensures
        is_ordered(frame_hits(cull_targets, mesh_targets)),
        distances_are_numbers(picks(culled(cull_targets), mesh_targets)) ==> is_sorted(
            frame_hits(cull_targets, mesh_targets),
        ),
{
    lemma_ranked_is_ordered(picks(culled(cull_targets), mesh_targets));
}

/// The hits of a frame do not depend on the order in which the targets are
/// presented. Present the same targets to both phases in another order, no
/// hit among the picks with a NaN for a distance: the same hits are listed,
/// and position by position the distances are the same. Only hits at exactly
/// the same distance can have changed places.
pub proof fn lemma_frame_hits_ignore_target_order(
    cull_a: Seq<CullTarget>,
    cull_b: Seq<CullTarget>,
    mesh_a: Seq<MeshTarget>,
    mesh_b: Seq<MeshTarget>,
)
    requires
        cull_a.to_multiset() == cull_b.to_multiset(),
        mesh_a.to_multiset() == mesh_b.to_multiset(),
        distances_are_numbers(picks(culled(cull_a), mesh_a)),
    ensures
        frame_hits(cull_a, mesh_a).to_multiset() == frame_hits(cull_b, mesh_b).to_multiset(),
        frame_hits(cull_a, mesh_a).len() == frame_hits(cull_b, mesh_b).len(),
        forall|i: int|
            0 <= i < frame_hits(cull_a, mesh_a).len() ==> distance_rank(
                #[trigger] frame_hits(cull_a, mesh_a)[i],
            ) == distance_rank(frame_hits(cull_b, mesh_b)[i]),
{
    assert forall|entity: u64| culled(cull_a).contains(entity) == culled(cull_b).contains(
        entity,
    ) by {
        lemma_candidates_ignore_target_order(cull_a, cull_b, entity);
    }
    lemma_picks_depend_on_membership(culled(cull_a), culled(cull_b), mesh_b);
    lemma_picks_ignore_target_order(culled(cull_a), mesh_a, mesh_b);
    lemma_ranking_ignores_input_order(
        picks(culled(cull_a), mesh_a),
        picks(culled(cull_b), mesh_b),
    );
}

fn copy_picks(list: &Vec<Pick>) -> (r: Vec<Pick>)
    ensures
        r@ == list@,
{
    let mut copy: Vec<Pick> = Vec::new();
    let mut i: usize = 0;
    while i < list.len()
        invariant
            i <= list.len(),
            copy@ == list@.take(i as int),
        decreases list.len() - i,
    {
        copy.push(list[i]);
        assert(list@.take(i + 1) =~= list@.take(i as int).push(list@[i as int]));
        i = i + 1;
    }
    assert(list@.take(i as int) =~= list@);
    copy
}

impl<T> Default for RayCastSource<T> {
    /// A screen-space source with the cursor at the origin, without a ray and
    /// without hits.
    fn default() -> (r: Self)
        ensures
            r@.cast_method == RayCastMethod::Screenspace(
                Vec2 { x: Scalar { bits: 0 }, y: Scalar { bits: 0 } },
            ),
            r@.ray is None,
            r@.intersections == Seq::<Pick>::empty(),
    {
        RayCastSource {
            cast_method: RayCastMethod::Screenspace(Vec2::zero()),
            ray: None,
            intersections: Vec::new(),
            _marker: PhantomData,
        }
    }
}

impl<T> RayCastSource<T> {
    #[verifier::type_invariant]
    spec fn hits_are_in_order(self) -> bool {
        is_ordered(self.intersections@)
    }

    /// A source as `default` makes it. It gets its ray from `build_rays` or
    /// from one of the `with_ray` functions.
    pub fn new() -> (r: Self)
        ensures
            r@.cast_method == RayCastMethod::Screenspace(
                Vec2 { x: Scalar { bits: 0 }, y: Scalar { bits: 0 } },
            ),
            r@.ray is None,
            r@.intersections == Seq::<Pick>::empty(),
    {
        RayCastSource {
            cast_method: RayCastMethod::Screenspace(Vec2::zero()),
            ray: None,
            intersections: Vec::new(),
            _marker: PhantomData,
        }
    }

    /// A copy of the source that casts through `cursor_pos_screen`, with the
    /// ray that the host unprojected for that position, if there is one. The
    /// hits are kept.
    pub fn with_ray_screenspace(&self, cursor_pos_screen: Vec2, ray: Option<Ray3d>) -> (r: Self)
        ensures
            r@.cast_method == RayCastMethod::Screenspace(cursor_pos_screen),
            r@.ray == ray,
            r@.intersections == self@.intersections,
    {
        proof {
            use_type_invariant(self);
        }
        RayCastSource {
            cast_method: RayCastMethod::Screenspace(cursor_pos_screen),
            ray,
            intersections: copy_picks(&self.intersections),
            _marker: PhantomData,
        }
    }

    /// A copy of the source that casts along a transform, with the ray that
    /// the host derived from that transform. The hits are kept.
    pub fn with_ray_transform(&self, ray: Ray3d) -> (r: Self)
        ensures
            r@.cast_method == RayCastMethod::Transform,
            r@.ray == Some(ray),
            r@.intersections == self@.intersections,
    {
        proof {
            use_type_invariant(self);
        }
        RayCastSource {
            cast_method: RayCastMethod::Transform,
            ray: Some(ray),
            intersections: copy_picks(&self.intersections),
            _marker: PhantomData,
        }
    }

    /// A new source that casts through `cursor_pos_screen`, with its ray.
    pub fn new_screenspace(cursor_pos_screen: Vec2, ray: Option<Ray3d>) -> (r: Self)
        ensures
            r@.cast_method == RayCastMethod::Screenspace(cursor_pos_screen),
            r@.ray == ray,
            r@.intersections == Seq::<Pick>::empty(),
    {
        RayCastSource::new().with_ray_screenspace(cursor_pos_screen, ray)
    }

    /// A new source that casts along a transform, with its ray.
    pub fn new_transform(ray: Ray3d) -> (r: Self)
        ensures
            r@.cast_method == RayCastMethod::Transform,
            r@.ray == Some(ray),
            r@.intersections == Seq::<Pick>::empty(),
    {
        RayCastSource::new().with_ray_transform(ray)
    }

    /// A new source that casts along a transform and has no ray yet. It gets
    /// one from `build_rays`, provided its object has a transform by then.
    pub fn new_transform_empty() -> (r: Self)
        ensures
            r@.cast_method == RayCastMethod::Transform,
            r@.ray is None,
            r@.intersections == Seq::<Pick>::empty(),
    {
        RayCastSource {
            cast_method: RayCastMethod::Transform,
            ray: None,
            intersections: Vec::new(),
            _marker: PhantomData,
        }
    }

    /// All hits, nearest first, or nothing if there is no hit. The list is in
    /// order.
    pub fn intersect_list(&self) -> (r: Option<&Vec<Pick>>)
        ensures
            self@.intersections.len() == 0 ==> r is None,
            self@.intersections.len() > 0 ==> (r matches Some(list) && list@
                == self@.intersections),
            is_ordered(self@.intersections),
    {
        proof {
            use_type_invariant(self);
        }
        if self.intersections.len() == 0 {
            None
        } else {
            Some(&self.intersections)
        }
    }

    /// The nearest hit, or nothing if there is no hit. Where no distance in
    /// the list is a NaN, no other hit is nearer.
    pub fn intersect_top(&self) -> (r: Option<Pick>)
        ensures
            r == if self@.intersections.len() == 0 {
                None
            } else {
                Some(self@.intersections[0])
            },
            is_ordered(self@.intersections),
            distances_are_numbers(self@.intersections) ==> is_sorted(self@.intersections),
    {
        proof {
            use_type_invariant(self);
            lemma_ordered_numbers_are_sorted(self.intersections@);
        }
        if self.intersections.len() == 0 {
            None
        } else {
            Some(self.intersections[0])
        }
    }

    /// Where the source's ray meets `shape`, given what the host evaluated
    /// for the two.
    pub fn intersect_primitive(&self, shape: Primitive3d, probe: PlaneProbe) -> (r: Option<
        Intersection,
    >)
        ensures
            r == plane_hit(self@.ray, shape, probe),
    {
        if self.ray.is_none() {
            return None;
        }
        match shape {
            Primitive3d::Plane { point: _, normal } => {
                if probe.denominator.abs().gt(&Scalar::from_bits(EPSILON_BITS)) {
                    Some(Intersection::new(Ray3d::new(probe.position, normal), probe.distance, None))
                } else {
                    None
                }
            },
        }
    }

    /// The ray of the source, if it has one.
    pub fn ray(&self) -> (r: Option<Ray3d>)
        ensures
            r == self@.ray,
    {
        self.ray
    }

    /// How the source gets its ray.
    pub fn cast_method(&self) -> (r: RayCastMethod)
        ensures
            r == self@.cast_method,
    {
        self.cast_method
    }

    /// Changes how the source gets its ray. Ray and hits stay as they are
    /// until the next frame.
    pub fn set_cast_method(&mut self, cast_method: RayCastMethod)
        ensures
            final(self)@.cast_method == cast_method,
            final(self)@.ray == old(self)@.ray,
            final(self)@.intersections == old(self)@.intersections,
    {
        proof {
            use_type_invariant(&*self);
        }
        self.cast_method = cast_method;
    }

    /// The ray that the host is to build for this source, given whether the
    /// source's object has a transform and a camera.
    pub fn ray_request(&self, has_transform: bool, has_camera: bool) -> (r: RayRequest)
        ensures
            r == ray_request_spec(self@.cast_method, has_transform, has_camera),
    {
        match self.cast_method {
            RayCastMethod::Screenspace(cursor_pos_screen) => {
                if has_camera && has_transform {
                    RayRequest::Screenspace(cursor_pos_screen)
                } else {
                    RayRequest::Unavailable
                }
            },
            RayCastMethod::Transform => {
                if has_transform {
                    RayRequest::Transform
                } else {
                    RayRequest::Unavailable
                }
            },
        }
    }
}

/// Gives a source its ray for the frame. `built` is what the host built on
/// the source's request. A source that lacks what its method needs is left
/// without a ray. Method and hits are untouched.
pub fn build_rays<T>(
    source: &mut RayCastSource<T>,
    has_transform: bool,
    has_camera: bool,
    built: Option<Ray3d>,
)
    ensures
        final(source)@.cast_method == old(source)@.cast_method,
        final(source)@.intersections == old(source)@.intersections,
        final(source)@.ray == built_ray(old(source)@.cast_method, has_transform, has_camera, built),
{
    proof {
        use_type_invariant(&*source);
    }
    match source.ray_request(has_transform, has_camera) {
        RayRequest::Unavailable => {
            source.ray = None;
        },
        _ => {
            source.ray = built;
        },
    }
}

/// Casts the ray of a source for one frame.
///
/// Nothing happens where ray casting is disabled or the source has no ray.
/// Otherwise the hits of the source are replaced: `cull_targets` go through
/// the broad phase, and of `mesh_targets` those that passed it and were
/// struck are ranked, nearest first and, at the same distance, in the order of
/// `mesh_targets`.
pub fn update_raycast<T>(
    state: &PluginState<T>,
    source: &mut RayCastSource<T>,
    cull_targets: &Vec<CullTarget>,
    mesh_targets: &Vec<MeshTarget>,
)
    ensures
        final(source)@ == updated(state.enabled, old(source)@, cull_targets@, mesh_targets@),
        is_ordered(final(source)@.intersections),
        state.enabled && old(source)@.ray is Some && distances_are_numbers(
            picks(culled(cull_targets@), mesh_targets@),
        ) ==> is_sorted(final(source)@.intersections),
{
    proof {
        use_type_invariant(&*source);
    }
    if !state.enabled {
        return ;
    }
    if source.ray.is_some() {
        let candidates = broad_phase(cull_targets);
        let found = collect_picks(&candidates, mesh_targets);
        source.intersections = sort_by_distance(found);
    }
}

} // verus!
