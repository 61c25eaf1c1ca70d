//! The order in which the hits of one ray are reported: nearest first.
//!
//! Hits are ranked by insertion. Each hit in turn is placed behind every hit
//! that is not strictly farther than it. Two hits therefore change places only
//! when the later one is strictly nearer: hits at the same distance, and hits
//! whose distance is a NaN, stay in the order in which they were found.

use crate::primitives::Intersection;
use vstd::prelude::*;
use vstd::relations::{sorted_by, total_ordering};
use vstd::seq_lib::{
    lemma_sorted_unique, to_multiset_build, to_multiset_contains, to_multiset_insert,
    to_multiset_len, to_multiset_remove,
};

verus! {

/// A target, by its identifier, and where the ray struck it.
pub type Pick = (u64, Intersection);

/// `a` is strictly farther from the origin of the ray than `b`.
pub open spec fn farther(a: Pick, b: Pick) -> bool {
    a.1.distance.gt_spec(b.1.distance)
}

/// The place of a pick's distance in the numeric order.
pub open spec fn distance_rank(pick: Pick) -> int {
    pick.1.distance.rank()
}

/// No distance in the list is a NaN.
pub open spec fn distances_are_numbers(picks: Seq<Pick>) -> bool {
    forall|i: int| 0 <= i < picks.len() ==> !(#[trigger] picks[i]).1.distance.is_nan_spec()
}

/// No pick is strictly farther than the one that follows it.
pub open spec fn is_ordered(picks: Seq<Pick>) -> bool {
    forall|i: int| 0 <= i < picks.len() - 1 ==> !farther(#[trigger] picks[i], picks[i + 1])
}

/// Distances never decrease along the list.
pub open spec fn is_sorted(picks: Seq<Pick>) -> bool {
    forall|i: int, j: int|
        0 <= i < j < picks.len() ==> (#[trigger] picks[i]).1.distance.le_spec(
            (#[trigger] picks[j]).1.distance,
        )
}

/// Among numbers, a list in order is a sorted list.
pub proof fn lemma_ordered_numbers_are_sorted(picks: Seq<Pick>)
    requires
        is_ordered(picks),
    ensures
        distances_are_numbers(picks) ==> is_sorted(picks),
{
    if distances_are_numbers(picks) {
        assert forall|i: int, j: int| 0 <= i < j < picks.len() implies (
        #[trigger] picks[i]).1.distance.le_spec((#[trigger] picks[j]).1.distance) by {
            lemma_order_carries(picks, i, j);
        }
    }
}

proof fn lemma_order_carries(picks: Seq<Pick>, i: int, j: int)
    requires
        is_ordered(picks),
        distances_are_numbers(picks),
        0 <= i < j < picks.len(),
    ensures
        picks[i].1.distance.le_spec(picks[j].1.distance),
    decreases j - i,
{
    if i + 1 < j {
        lemma_order_carries(picks, i, j - 1);
        assert(!farther(picks[j - 1], picks[j - 1 + 1]));
    } else {
        assert(!farther(picks[i], picks[i + 1]));
    }
}

/// Where `pick` goes in a ranked list: in front of the run of strictly
/// farther picks at its end.
pub open spec fn insertion_point(ranked: Seq<Pick>, pick: Pick) -> int
    decreases ranked.len(),
{
    if ranked.len() > 0 && farther(ranked.last(), pick) {
        insertion_point(ranked.drop_last(), pick)
    } else {
        ranked.len() as int
    }
}

/// The picks in the order in which they are reported.
pub open spec fn ranked(picks: Seq<Pick>) -> Seq<Pick>
    decreases picks.len(),
{
    if picks.len() == 0 {
        Seq::empty()
    } else {
        let front = ranked(picks.drop_last());
        front.insert(insertion_point(front, picks.last()), picks.last())
    }
}

/// The insertion point is the one position that has only strictly farther
/// picks behind it and a pick that is not strictly farther, or nothing, in
/// front of it.
pub proof fn lemma_insertion_point(ranked: Seq<Pick>, pick: Pick, p: int)
    requires
        0 <= p <= ranked.len(),
        forall|j: int| p <= j < ranked.len() ==> farther(#[trigger] ranked[j], pick),
        p == 0 || !farther(ranked[p - 1], pick),
    ensures
        insertion_point(ranked, pick) == p,
    decreases ranked.len(),
{
    if p < ranked.len() {
        assert(farther(ranked[ranked.len() - 1], pick));
        lemma_insertion_point(ranked.drop_last(), pick, p);
    }
}

/// What the insertion point has around it.
pub proof fn lemma_insertion_point_bounds(ranked: Seq<Pick>, pick: Pick)
    ensures
        0 <= insertion_point(ranked, pick) <= ranked.len(),
        forall|j: int|
            insertion_point(ranked, pick) <= j < ranked.len() ==> farther(
                #[trigger] ranked[j],
                pick,
            ),
        insertion_point(ranked, pick) == 0 || !farther(
            ranked[insertion_point(ranked, pick) - 1],
            pick,
        ),
    decreases ranked.len(),
{
    if ranked.len() > 0 && farther(ranked.last(), pick) {
        let rest = ranked.drop_last();
        lemma_insertion_point_bounds(rest, pick);
        assert forall|j: int| insertion_point(ranked, pick) <= j < ranked.len() implies farther(
            #[trigger] ranked[j],
            pick,
        ) by {
            if j < rest.len() {
                assert(ranked[j] == rest[j]);
            }
        }
    }
}

/// Ranking keeps the length.
pub proof fn lemma_ranked_len(picks: Seq<Pick>)
    ensures
        ranked(picks).len() == picks.len(),
    decreases picks.len(),
{
    if picks.len() > 0 {
        lemma_ranked_len(picks.drop_last());
        lemma_insertion_point_bounds(ranked(picks.drop_last()), picks.last());
    }
}

/// Ranking rearranges: every pick is reported as often as it was found.
pub proof fn lemma_ranked_is_permutation(picks: Seq<Pick>)
    ensures
        ranked(picks).to_multiset() == picks.to_multiset(),
    decreases picks.len(),
{
    if picks.len() == 0 {
        assert(ranked(picks) =~= picks);
    } else {
        let front = ranked(picks.drop_last());
        let last = picks.last();
        lemma_ranked_is_permutation(picks.drop_last());
        lemma_insertion_point_bounds(front, last);
        to_multiset_insert(front, insertion_point(front, last), last);
        to_multiset_build(picks.drop_last(), last);
        assert(picks.drop_last().push(last) =~= picks);
    }
}

/// The ranked list is ordered: no pick is strictly farther than its
/// successor. Where no distance is a NaN it is sorted outright.
pub proof fn lemma_ranked_is_ordered(picks: Seq<Pick>)
    ensures
        is_ordered(ranked(picks)),
        distances_are_numbers(picks) ==> distances_are_numbers(ranked(picks)) && is_sorted(
            ranked(picks),
        ),
    decreases picks.len(),
{
    if picks.len() > 0 {
        let front = ranked(picks.drop_last());
        let last = picks.last();
        let p = insertion_point(front, last);
        let out = ranked(picks);
        lemma_ranked_is_ordered(picks.drop_last());
        lemma_ranked_len(picks.drop_last());
        lemma_insertion_point_bounds(front, last);
        assert forall|i: int| 0 <= i < out.len() - 1 implies !farther(
            #[trigger] out[i],
            out[i + 1],
        ) by {
            if i + 1 < p {
                assert(out[i] == front[i] && out[i + 1] == front[i + 1]);
            } else if i + 1 == p {
                assert(out[i] == front[p - 1] && out[i + 1] == last);
            } else if i == p {
                assert(out[i] == last && out[i + 1] == front[p]);
            } else {
                assert(out[i] == front[i - 1] && out[i + 1] == front[i]);
            }
        }
        if distances_are_numbers(picks) {
            assert(distances_are_numbers(picks.drop_last())) by {
                assert forall|i: int| 0 <= i < picks.drop_last().len() implies !(
                #[trigger] picks.drop_last()[i]).1.distance.is_nan_spec() by {
                    assert(picks.drop_last()[i] == picks[i]);
                }
            }
            assert(!picks[picks.len() - 1].1.distance.is_nan_spec());
            assert forall|i: int| 0 <= i < out.len() implies !(
            #[trigger] out[i]).1.distance.is_nan_spec() by {
                if i < p {
                    assert(out[i] == front[i]);
                } else if i > p {
                    assert(out[i] == front[i - 1]);
                }
            }
            assert forall|i: int, j: int| 0 <= i < j < out.len() implies (
            #[trigger] out[i]).1.distance.le_spec((#[trigger] out[j]).1.distance) by {
                if j < p {
                    assert(out[i] == front[i] && out[j] == front[j]);
                } else if j == p {
                    assert(out[i] == front[i] && out[j] == last);
                    assert(!farther(front[p - 1], last));
                    if i < p - 1 {
                        assert(front[i].1.distance.le_spec(front[p - 1].1.distance));
                    }
                } else if i < p {
                    assert(out[i] == front[i] && out[j] == front[j - 1]);
                } else if i == p {
                    assert(out[i] == last && out[j] == front[j - 1]);
                    assert(farther(front[j - 1], last));
                } else {
                    assert(out[i] == front[i - 1] && out[j] == front[j - 1]);
                }
            }
        }
    }
}

/// Ranking is stable. Take any class of picks of which none is strictly
/// farther than another, such as the picks at one distance: those picks are
/// reported in the order in which they were found.
pub proof fn lemma_ranked_is_stable(picks: Seq<Pick>, class: spec_fn(Pick) -> bool)
    requires
        forall|a: Pick, b: Pick| class(a) && class(b) ==> !farther(a, b),
    ensures
        ranked(picks).filter(class) == picks.filter(class),
    decreases picks.len(),
{
    if picks.len() == 0 {
        assert(ranked(picks) =~= picks);
    } else {
        let front = ranked(picks.drop_last());
        let last = picks.last();
        lemma_ranked_is_stable(picks.drop_last(), class);
        lemma_insert_keeps_class_order(front, last, class);
        front.lemma_filter_push(last, class);
        picks.drop_last().lemma_filter_push(last, class);
        assert(picks.drop_last().push(last) =~= picks);
    }
}

/// Placing a pick at its insertion point leaves the members of such a class in
/// the order that placing it last would give.
proof fn lemma_insert_keeps_class_order(front: Seq<Pick>, pick: Pick, class: spec_fn(Pick) -> bool)
    requires
        forall|a: Pick, b: Pick| class(a) && class(b) ==> !farther(a, b),
    ensures
        front.insert(insertion_point(front, pick), pick).filter(class) == front.push(pick).filter(
            class,
        ),
    decreases front.len(),
{
    lemma_insertion_point_bounds(front, pick);
    let p = insertion_point(front, pick);
    if front.len() > 0 && farther(front.last(), pick) {
        let rest = front.drop_last();
        let tail = front.last();
        lemma_insert_keeps_class_order(rest, pick, class);
        assert(front.insert(p, pick) =~= rest.insert(p, pick).push(tail));
        assert(front =~= rest.push(tail));
        assert(!(class(tail) && class(pick)));
        rest.insert(p, pick).lemma_filter_push(tail, class);
        rest.lemma_filter_push(pick, class);
        rest.lemma_filter_push(tail, class);
        front.lemma_filter_push(pick, class);
    } else {
        assert(front.insert(p, pick) =~= front.push(pick));
    }
}

/// Two lists with the same members have, under any function, images with the
/// same members.
proof fn lemma_images_have_same_members<A, B>(s: Seq<A>, t: Seq<A>, f: spec_fn(A) -> B)
    requires
        s.to_multiset() == t.to_multiset(),
    ensures
        s.map_values(f).to_multiset() == t.map_values(f).to_multiset(),
    decreases s.len(),
{
    to_multiset_len(s);
    to_multiset_len(t);
    if s.len() == 0 {
        assert(s.map_values(f) =~= t.map_values(f));
    } else {
        let x = s.last();
        let s1 = s.drop_last();
        assert(s1.push(x) =~= s);
        to_multiset_build(s1, x);
        to_multiset_contains(t, x);
        assert(s.to_multiset().count(x) > 0);
        assert(t.contains(x));
        let i = choose|i: int| 0 <= i < t.len() && t[i] == x;
        let t1 = t.remove(i);
        to_multiset_remove(t, i);
        assert(s1.to_multiset() =~= t1.to_multiset());
        lemma_images_have_same_members(s1, t1, f);
        assert(s.map_values(f) =~= s1.map_values(f).push(f(x)));
        assert(t.map_values(f) =~= t1.map_values(f).insert(i, f(x)));
        to_multiset_build(s1.map_values(f), f(x));
        to_multiset_insert(t1.map_values(f), i, f(x));
    }
}

/// The order in which the targets are presented does not matter to what is
/// reported. Present the same picks in another order, none with a NaN for a
/// distance: the same picks are reported, and position by position the
/// distances are the same. Only picks at exactly the same distance can have
/// changed places.
pub proof fn lemma_ranking_ignores_input_order(a: Seq<Pick>, b: Seq<Pick>)
    requires
        a.to_multiset() == b.to_multiset(),
        distances_are_numbers(a),
    ensures
        ranked(a).to_multiset() == ranked(b).to_multiset(),
        ranked(a).len() == ranked(b).len(),
        forall|i: int|
            0 <= i < ranked(a).len() ==> distance_rank(#[trigger] ranked(a)[i]) == distance_rank(
                ranked(b)[i],
            ),
{
    let rank_of = |pick: Pick| distance_rank(pick);
    let leq = |x: int, y: int| x <= y;
    let ra = ranked(a);
    let rb = ranked(b);
    lemma_ranked_is_permutation(a);
    lemma_ranked_is_permutation(b);
    lemma_ranked_len(a);
    lemma_ranked_len(b);
    to_multiset_len(a);
    to_multiset_len(b);
    assert(distances_are_numbers(b)) by {
        assert forall|i: int| 0 <= i < b.len() implies !(#[trigger] b[i]).1.distance.is_nan_spec() by {
            to_multiset_contains(b, b[i]);
            to_multiset_contains(a, b[i]);
            assert(b.contains(b[i]));
            assert(a.contains(b[i]));
        }
    }
    lemma_ranked_is_ordered(a);
    lemma_ranked_is_ordered(b);
    lemma_images_have_same_members(ra, rb, rank_of);
    let xa = ra.map_values(rank_of);
    let xb = rb.map_values(rank_of);
    assert(sorted_by(xa, leq)) by {
        assert forall|i: int, j: int| 0 <= i < j < xa.len() implies #[trigger] leq(xa[i], xa[j]) by {
            assert(ra[i].1.distance.le_spec(ra[j].1.distance));
        }
    }
    assert(sorted_by(xb, leq)) by {
        assert forall|i: int, j: int| 0 <= i < j < xb.len() implies #[trigger] leq(xb[i], xb[j]) by {
            assert(rb[i].1.distance.le_spec(rb[j].1.distance));
        }
    }
    assert(total_ordering(leq));
    lemma_sorted_unique(xa, xb, leq);
    assert forall|i: int| 0 <= i < ra.len() implies distance_rank(#[trigger] ra[i])
        == distance_rank(rb[i]) by {
        assert(xa[i] == rank_of(ra[i]));
        assert(xb[i] == rank_of(rb[i]));
    }
}

/// Ranks the hits of one ray, nearest first.
///
/// The result holds the same picks. No pick in it is strictly farther than
/// its successor, and picks that are not strictly nearer than one another
/// keep their order.
pub fn sort_by_distance(picks: Vec<Pick>) -> (r: Vec<Pick>)
    ensures
        r@ == ranked(picks@),
        r@.to_multiset() == picks@.to_multiset(),
        is_ordered(r@),
        distances_are_numbers(picks@) ==> is_sorted(r@),
{
    let mut out: Vec<Pick> = Vec::new();
    let mut k: usize = 0;
    while k < picks.len()
        invariant
            k <= picks.len(),
            out@ == ranked(picks@.take(k as int)),
            out@.len() == k,
        decreases picks.len() - k,
    {
        let pick = picks[k];
        let mut p: usize = out.len();
        while p > 0 && out[p - 1].1.distance.gt(&pick.1.distance)
            invariant
                p <= out@.len(),
                forall|j: int| p <= j < out@.len() ==> farther(#[trigger] out@[j], pick),
            decreases p,
        {
            p = p - 1;
        }
        proof {
            lemma_insertion_point(out@, pick, p as int);
            assert(picks@.take(k + 1).drop_last() =~= picks@.take(k as int));
            assert(picks@.take(k + 1).last() == pick);
        }
        out.insert(p, pick);
        k = k + 1;
    }
    proof {
        assert(picks@.take(k as int) =~= picks@);
        lemma_ranked_is_permutation(picks@);
        lemma_ranked_is_ordered(picks@);
    }
    out
}

} // verus!
