//! Choosing among intersections: the root of the sphere quadratic that a
//! query accepts, and the nearest hit of a scene.
//!
//! Ray parameters are scalars, compared through their order keys.

use vstd::prelude::*;

use crate::scalar::{is_less, is_number, key_of, less, order_key, ZERO};

verus! {

/// Whether `t` lies strictly inside the open interval from `t_min` to `t_max`.
pub open spec fn within(t: u32, t_min: u32, t_max: u32) -> bool {
    is_less(t_min, t) && is_less(t, t_max)
}

/// The root that a query accepts: none unless the discriminant is positive;
/// else the smaller of the roots that lie in range, the first of two equal
/// ones, and none where neither does.
pub open spec fn accepted_root(discriminant: u32, t1: u32, t2: u32, t_min: u32, t_max: u32)
    -> Option<u32> {
    if !is_less(ZERO, discriminant) {
        None
    } else if within(t1, t_min, t_max) && within(t2, t_min, t_max) {
        if is_less(t2, t1) {
            Some(t2)
        } else {
            Some(t1)
        }
    } else if within(t1, t_min, t_max) {
        Some(t1)
    } else if within(t2, t_min, t_max) {
        Some(t2)
    } else {
        None
    }
}

/// Picks the root of the ray-sphere quadratic at which the ray is taken to
/// hit. All five arguments are scalars: the discriminant, the two roots in
/// either order, and the bounds of the query. A root that is not a number
/// lies in no range.
pub fn select_root(discriminant: u32, t1: u32, t2: u32, t_min: u32, t_max: u32) -> (t: Option<u32>)
    ensures
        t == accepted_root(discriminant, t1, t2, t_min, t_max),
{
    if !less(ZERO, discriminant) {
        return None;
    }
    let first = less(t_min, t1) && less(t1, t_max);
    let second = less(t_min, t2) && less(t2, t_max);
    if first && second {
        if less(t2, t1) {
            Some(t2)
        } else {
            Some(t1)
        }
    } else if first {
        Some(t1)
    } else if second {
        Some(t2)
    } else {
        None
    }
}

/// An accepted root is one of the two roots, lies in range, and no root in
/// range is less; a query without one has no positive discriminant or no
/// root in range.
pub proof fn lemma_accepted_root_is_least(
    discriminant: u32,
    t1: u32,
    t2: u32,
    t_min: u32,
    t_max: u32,
)
    ensures
        accepted_root(discriminant, t1, t2, t_min, t_max) matches Some(t) ==> {
            &&& is_less(ZERO, discriminant)
            &&& t == t1 || t == t2
            &&& within(t, t_min, t_max)
            &&& within(t1, t_min, t_max) ==> !is_less(t1, t)
            &&& within(t2, t_min, t_max) ==> !is_less(t2, t)
        },
        accepted_root(discriminant, t1, t2, t_min, t_max) is None <==> !is_less(ZERO, discriminant)
            || (!within(t1, t_min, t_max) && !within(t2, t_min, t_max)),
{
}

/// Whether entry `i` is the nearest hit: it is a hit, no hit has a smaller
/// key, and every hit before it has a larger one.
pub open spec fn is_nearest(hits: Seq<Option<int>>, i: int) -> bool {
    &&& 0 <= i < hits.len()
    &&& hits[i] is Some
    &&& forall|j: int|
        0 <= j < hits.len() && hits[j] is Some ==> hits[i].unwrap() <= (#[trigger] hits[j]).unwrap()
    &&& forall|j: int| 0 <= j < i && hits[j] is Some ==> hits[i].unwrap() < (#[trigger] hits[j]).unwrap()
}

/// The order key of an outcome: of the ray parameter of a hit. A miss has
/// none, and a hit whose parameter is not a number counts as a miss.
pub open spec fn key_of_outcome<H>(outcome: Option<(u32, H)>) -> Option<int> {
    match outcome {
        Some(o) => if is_number(o.0) {
            Some(key_of(o.0))
        } else {
            None
        },
        None => None,
    }
}

/// The keys of the outcomes of a scan.
pub open spec fn keys_of<H>(outcomes: Seq<Option<(u32, H)>>) -> Seq<Option<int>> {
    Seq::new(outcomes.len(), |i: int| key_of_outcome(outcomes[i]))
}

/// Whether `best` resolves a scan with these outcomes: nothing where every
/// shape was missed, else the index of the nearest hit with what the shape
/// at that index reported.
pub open spec fn resolves<H>(outcomes: Seq<Option<(u32, H)>>, best: Option<(usize, H)>) -> bool {
    match best {
        None => forall|j: int|
            0 <= j < outcomes.len() ==> key_of_outcome(#[trigger] outcomes[j]) is None,
        Some(b) => {
            &&& is_nearest(keys_of(outcomes), b.0 as int)
            &&& outcomes[b.0 as int] matches Some(o) && o.1 == b.1
        },
    }
}

/// Whether `outcomes` is what `probe` may report for the shapes, one by one.
pub open spec fn scanned<S, H, F: Fn(&S) -> Option<(u32, H)>>(
    shapes: Seq<S>,
    probe: F,
    outcomes: Seq<Option<(u32, H)>>,
) -> bool {
    &&& outcomes.len() == shapes.len()
    &&& forall|i: int|
        0 <= i < shapes.len() ==> call_ensures(probe, (&shapes[i],), #[trigger] outcomes[i])
}

/// Resolves a scene query by a linear scan. `probe` intersects one shape
/// with the ray and reports, for a hit, the ray parameter and the hit
/// itself. Every shape is probed once, in order; the result is the index of
/// the shape that is hit nearest, the first one among equals, with its hit,
/// or `None` where every shape is missed.
pub fn nearest_hit<S, H, F: Fn(&S) -> Option<(u32, H)>>(shapes: &Vec<S>, probe: &F) -> (best: Option<
    (usize, H),
>)
    requires
        forall|i: int| 0 <= i < shapes.len() ==> call_requires(*probe, (&#[trigger] shapes[i],)),
    ensures
        exists|outcomes: Seq<Option<(u32, H)>>|
            scanned(shapes@, *probe, outcomes) && #[trigger] resolves(outcomes, best),
{
    let ghost mut outcomes: Seq<Option<(u32, H)>> = Seq::empty();
    let mut best: Option<(usize, H)> = None;
    let mut best_key: i32 = 0;
    let mut i: usize = 0;
    while i < shapes.len()
        invariant
            i <= shapes.len(),
            forall|j: int| 0 <= j < shapes.len() ==> call_requires(*probe, (&#[trigger] shapes[j],)),
            scanned(shapes@.take(i as int), *probe, outcomes),
            resolves(outcomes, best),
            best matches Some(b) ==> keys_of(outcomes)[b.0 as int] == Some(best_key as int),
        decreases shapes.len() - i,
    {
        let outcome = probe(&shapes[i]);
        let ghost before = outcomes;
        proof {
            outcomes = outcomes.push(outcome);
            assert(forall|j: int| 0 <= j < i ==> keys_of(outcomes)[j] == keys_of(before)[j]);
            assert(shapes@.take(i + 1)[i as int] == shapes@[i as int]);
        }
        match outcome {
            Some((t, hit)) => {
                match order_key(t) {
                    Some(key) => {
                        if best.is_none() || key < best_key {
                            best = Some((i, hit));
                            best_key = key;
                        }
                    },
                    None => {},
                }
            },
            None => {},
        }
        i += 1;
    }
    proof {
        assert(shapes@.take(i as int) == shapes@);
    }
    best
}

/// A query has at most one nearest hit.
pub proof fn lemma_nearest_unique(hits: Seq<Option<int>>, i: int, j: int)
    requires
        is_nearest(hits, i),
        is_nearest(hits, j),
    ensures
        i == j,
{
    if i < j {
        assert(hits[j].unwrap() < hits[i].unwrap());
        assert(hits[i].unwrap() <= hits[j].unwrap());
    } else if j < i {
        assert(hits[i].unwrap() < hits[j].unwrap());
        assert(hits[j].unwrap() <= hits[i].unwrap());
    }
}

} // verus!
