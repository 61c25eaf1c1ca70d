//! The broad phase: which targets are worth an exact test.
//!
//! A target is left out when it is invisible, or when it has a bounding
//! sphere that the ray provably misses. A target without a sphere is never
//! left out on that account.

use crate::primitives::Intersection;
use crate::ranking::Pick;
use crate::scalar::{Scalar, ZERO_BITS};
use vstd::prelude::*;
use vstd::seq_lib::{to_multiset_build, to_multiset_contains, to_multiset_len, to_multiset_remove};

verus! {

/// What is known of a target's bounding sphere.
#[derive(Clone, Copy, Debug, PartialEq, Eq, Structural)]
pub enum BoundingTest {
    /// The target has no bounding volume.
    NoVolume,
    /// The target has a bounding volume whose sphere is not computed yet.
    NoSphere,
    /// The target has a sphere. With `o` the ray's origin, `d` its direction,
    /// `c` the sphere's center in world space and `r` its radius, scaled and
    /// widened by the safety margin, the discriminant is
    /// `(d . (o - c))^2 - (|o - c|^2 - r^2)`.
    Sphere { discriminant: Scalar },
}

/// A candidate of the broad phase.
#[derive(Clone, Copy, Debug, PartialEq, Eq, Structural)]
pub struct CullTarget {
    pub entity: u64,
    pub visible: bool,
    pub bound: BoundingTest,
}

/// A target as the narrow phase left it: its hit, if its mesh could be
/// resolved and the ray struck it.
#[derive(Clone, Copy, Debug, PartialEq, Eq, Structural)]
pub struct MeshTarget {
    pub entity: u64,
    pub hit: Option<Intersection>,
}

/// The ray may meet the target: there is no sphere to tell otherwise, or the
/// discriminant is not negative.
pub open spec fn ray_meets_bound(bound: BoundingTest) -> bool {
    match bound {
        BoundingTest::Sphere { discriminant } => discriminant.ge_spec(Scalar { bits: ZERO_BITS }),
        _ => true,
    }
}

/// The target passes the broad phase.
pub open spec fn survives(target: CullTarget) -> bool {
    target.visible && ray_meets_bound(target.bound)
}

/// The identifiers of the targets that pass, in the order of the targets.
pub open spec fn culled(targets: Seq<CullTarget>) -> Seq<u64>
    decreases targets.len(),
{
    if targets.len() == 0 {
        Seq::empty()
    } else if survives(targets.last()) {
        culled(targets.drop_last()).push(targets.last().entity)
    } else {
        culled(targets.drop_last())
    }
}

/// The target's hit counts: the target passed the broad phase and was struck.
pub open spec fn is_picked(candidates: Seq<u64>, target: MeshTarget) -> bool {
    candidates.contains(target.entity) && target.hit is Some
}

/// The hits of the targets that passed the broad phase, in the order of the
/// targets.
pub open spec fn picks(candidates: Seq<u64>, targets: Seq<MeshTarget>) -> Seq<Pick>
    decreases targets.len(),
{
    if targets.len() == 0 {
        Seq::empty()
    } else if is_picked(candidates, targets.last()) {
        picks(candidates, targets.drop_last()).push(
            (targets.last().entity, targets.last().hit->Some_0),
        )
    } else {
        picks(candidates, targets.drop_last())
    }
}

/// A target that passes is among the candidates.
pub proof fn lemma_survivor_is_kept(targets: Seq<CullTarget>, i: int)
    requires
        0 <= i < targets.len(),
        survives(targets[i]),
    ensures
        culled(targets).contains(targets[i].entity),
    decreases targets.len(),
{
    if i == targets.len() - 1 {
        let kept = culled(targets.drop_last()).push(targets.last().entity);
        assert(kept[kept.len() - 1] == targets[i].entity);
    } else {
        lemma_survivor_is_kept(targets.drop_last(), i);
        let rest = culled(targets.drop_last());
        let at = choose|k: int| 0 <= k < rest.len() && rest[k] == targets[i].entity;
        if survives(targets.last()) {
            assert(rest.push(targets.last().entity)[at] == targets[i].entity);
        }
    }
}

/// Every candidate is a target that passes.
pub proof fn lemma_kept_is_survivor(targets: Seq<CullTarget>, entity: u64)
    requires
        culled(targets).contains(entity),
    ensures
        exists|i: int| 0 <= i < targets.len() && survives(#[trigger] targets[i]) && targets[i].entity == entity,
    decreases targets.len(),
{
    if targets.len() > 0 {
        let rest = culled(targets.drop_last());
        if survives(targets.last()) && targets.last().entity == entity {
            assert(survives(targets[targets.len() - 1]));
        } else {
            let at = choose|k: int| 0 <= k < culled(targets).len() && culled(targets)[k] == entity;
            assert(rest[at] == entity);
            lemma_kept_is_survivor(targets.drop_last(), entity);
            let i = choose|i: int|
                0 <= i < targets.drop_last().len() && survives(#[trigger] targets.drop_last()[i])
                    && targets.drop_last()[i].entity == entity;
            assert(targets[i] == targets.drop_last()[i]);
        }
    }
}

/// Culling gives no false negatives. A visible target that has no bounding
/// volume, or none with a sphere, is always a candidate.
pub proof fn lemma_unbounded_target_is_kept(targets: Seq<CullTarget>, i: int)
    requires
        0 <= i < targets.len(),
        targets[i].visible,
        targets[i].bound is NoVolume || targets[i].bound is NoSphere,
    ensures
        culled(targets).contains(targets[i].entity),
{
    lemma_survivor_is_kept(targets, i);
}

/// Culling leaves a visible target out only on the evidence of its sphere: if
/// an identifier is not among the candidates, every visible target that bears
/// it has a sphere whose discriminant is negative or a NaN.
pub proof fn lemma_only_missed_spheres_are_left_out(targets: Seq<CullTarget>, i: int)
    requires
        0 <= i < targets.len(),
        targets[i].visible,
        !culled(targets).contains(targets[i].entity),
    ensures
        targets[i].bound matches BoundingTest::Sphere { discriminant } && !discriminant.ge_spec(
            Scalar { bits: ZERO_BITS },
        ),
{
    if survives(targets[i]) {
        lemma_survivor_is_kept(targets, i);
    }
}

/// Which identifiers are candidates does not depend on the order of the
/// targets.
pub proof fn lemma_candidates_ignore_target_order(
    a: Seq<CullTarget>,
    b: Seq<CullTarget>,
    entity: u64,
)
    requires
        a.to_multiset() == b.to_multiset(),
    ensures
        culled(a).contains(entity) == culled(b).contains(entity),
{
    if culled(a).contains(entity) {
        lemma_kept_is_survivor(a, entity);
        let i = choose|i: int| 0 <= i < a.len() && survives(#[trigger] a[i]) && a[i].entity == entity;
        to_multiset_contains(a, a[i]);
        to_multiset_contains(b, a[i]);
        assert(a.contains(a[i]));
        let j = choose|j: int| 0 <= j < b.len() && b[j] == a[i];
        lemma_survivor_is_kept(b, j);
    }
    if culled(b).contains(entity) {
        lemma_kept_is_survivor(b, entity);
        let i = choose|i: int| 0 <= i < b.len() && survives(#[trigger] b[i]) && b[i].entity == entity;
        to_multiset_contains(b, b[i]);
        to_multiset_contains(a, b[i]);
        assert(b.contains(b[i]));
        let j = choose|j: int| 0 <= j < a.len() && a[j] == b[i];
        lemma_survivor_is_kept(a, j);
    }
}

/// Of the candidates only the membership counts, not their order or number.
pub proof fn lemma_picks_depend_on_membership(
    first: Seq<u64>,
    second: Seq<u64>,
    targets: Seq<MeshTarget>,
)
    requires
        forall|entity: u64| first.contains(entity) == second.contains(entity),
    ensures
        picks(first, targets) == picks(second, targets),
    decreases targets.len(),
{
    if targets.len() > 0 {
        lemma_picks_depend_on_membership(first, second, targets.drop_last());
    }
}

/// What one target contributes to the picks, whatever its place in the list.
proof fn lemma_picks_without(candidates: Seq<u64>, targets: Seq<MeshTarget>, i: int)
    requires
        0 <= i < targets.len(),
    ensures
        picks(candidates, targets).to_multiset() == if is_picked(candidates, targets[i]) {
            picks(candidates, targets.remove(i)).to_multiset().insert(
                (targets[i].entity, targets[i].hit->Some_0),
            )
        } else {
            picks(candidates, targets.remove(i)).to_multiset()
        },
    decreases targets.len(),
{
    let last = targets.last();
    let front = targets.drop_last();
    if i == targets.len() - 1 {
        assert(targets.remove(i) =~= front);
        if is_picked(candidates, last) {
            to_multiset_build(picks(candidates, front), (last.entity, last.hit->Some_0));
        }
    } else {
        lemma_picks_without(candidates, front, i);
        assert(targets.remove(i).drop_last() =~= front.remove(i));
        assert(targets.remove(i).last() == last);
        assert(front[i] == targets[i]);
        if is_picked(candidates, last) {
            let pick = (last.entity, last.hit->Some_0);
            to_multiset_build(picks(candidates, front), pick);
            to_multiset_build(picks(candidates, front.remove(i)), pick);
            if is_picked(candidates, targets[i]) {
                let other = (targets[i].entity, targets[i].hit->Some_0);
                assert(picks(candidates, front.remove(i)).to_multiset().insert(other).insert(pick)
                    =~= picks(candidates, front.remove(i)).to_multiset().insert(pick).insert(
                    other,
                ));
            }
        }
    }
}

/// Which hits are picked does not depend on the order of the targets.
pub proof fn lemma_picks_ignore_target_order(
    candidates: Seq<u64>,
    a: Seq<MeshTarget>,
    b: Seq<MeshTarget>,
)
    requires
        a.to_multiset() == b.to_multiset(),
    ensures
        picks(candidates, a).to_multiset() == picks(candidates, b).to_multiset(),
    decreases a.len(),
{
    to_multiset_len(a);
    to_multiset_len(b);
    if a.len() > 0 {
        let last = a.last();
        let front = a.drop_last();
        assert(front.push(last) =~= a);
        to_multiset_build(front, last);
        to_multiset_contains(b, last);
        assert(a.to_multiset().count(last) > 0);
        assert(b.contains(last));
        let i = choose|i: int| 0 <= i < b.len() && b[i] == last;
        to_multiset_remove(b, i);
        assert(front.to_multiset() =~= b.remove(i).to_multiset());
        lemma_picks_ignore_target_order(candidates, front, b.remove(i));
        lemma_picks_without(candidates, b, i);
        if is_picked(candidates, last) {
            to_multiset_build(picks(candidates, front), (last.entity, last.hit->Some_0));
        }
    } else {
        assert(b.len() == 0);
    }
}

/// The broad phase: the identifiers of the targets that are visible and
/// that the ray may meet, in the order of the targets.
pub fn broad_phase(targets: &Vec<CullTarget>) -> (r: Vec<u64>)
    ensures
        r@ == culled(targets@),
{
    let zero = Scalar::from_bits(ZERO_BITS);
    let mut kept: Vec<u64> = Vec::new();
    let mut i: usize = 0;
    while i < targets.len()
        invariant
            i <= targets.len(),
            zero == (Scalar { bits: ZERO_BITS }),
            kept@ == culled(targets@.take(i as int)),
        decreases targets.len() - i,
    {
        let target = targets[i];
        let bound_hit = match target.bound {
            BoundingTest::Sphere { discriminant } => discriminant.ge(&zero),
            _ => true,
        };
        proof {
            assert(targets@.take(i + 1).drop_last() =~= targets@.take(i as int));
            assert(targets@.take(i + 1).last() == target);
        }
        if target.visible && bound_hit {
            kept.push(target.entity);
        }
        i = i + 1;
    }
    proof {
        assert(targets@.take(i as int) =~= targets@);
    }
    kept
}

/// Whether `entity` passed the broad phase.
pub fn is_candidate(candidates: &Vec<u64>, entity: u64) -> (r: bool)
    ensures
        r == candidates@.contains(entity),
{
    let mut i: usize = 0;
    while i < candidates.len()
        invariant
            i <= candidates.len(),
            forall|k: int| 0 <= k < i ==> candidates@[k] != entity,
        decreases candidates.len() - i,
    {
        if candidates[i] == entity {
            return true;
        }
        i = i + 1;
    }
    false
}

/// The hits to rank: those of the targets that passed the broad phase, in
/// the order of the targets. A target that passed and has no hit, because its
/// mesh could not be resolved or the ray missed it, contributes nothing.
pub fn collect_picks(candidates: &Vec<u64>, targets: &Vec<MeshTarget>) -> (r: Vec<Pick>)
    ensures
        r@ == picks(candidates@, targets@),
{
    let mut found: Vec<Pick> = Vec::new();
    let mut i: usize = 0;
    while i < targets.len()
        invariant
            i <= targets.len(),
            found@ == picks(candidates@, targets@.take(i as int)),
        decreases targets.len() - i,
    {
        let target = targets[i];
        proof {
            assert(targets@.take(i + 1).drop_last() =~= targets@.take(i as int));
            assert(targets@.take(i + 1).last() == target);
        }
        if is_candidate(candidates, target.entity) {
            match target.hit {
                Some(hit) => {
                    found.push((target.entity, hit));
                },
                None => {},
            }
        }
        i = i + 1;
    }
    proof {
        assert(targets@.take(i as int) =~= targets@);
    }
    found
}

} // verus!
