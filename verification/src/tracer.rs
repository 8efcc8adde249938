//! The rule that drives one light path: what a scene query leads to, and how
//! the bounce budget bounds the number of scatterings along a path.

use vstd::prelude::*;

verus! {

/// What follows a scene query.
#[derive(Clone, Copy, Debug, PartialEq, Eq, Structural)]
pub enum Verdict {
    /// Nothing was hit: the path ends in the sky gradient.
    Sky,
    /// Something was hit with the budget used up: the path ends in black.
    Black,
    /// Something was hit within the budget: the material is asked to scatter.
    Scatter,
}

/// What follows the answer of a material.
#[derive(Clone, Copy, Debug, PartialEq, Eq, Structural)]
pub enum Bounce {
    /// The material absorbed the ray: the path ends in black.
    Absorbed,
    /// The path goes on with the scattered ray at the given depth, and what
    /// it finds there is attenuated by the material.
    Follow { depth: u32 },
}

/// The verdict on a query made at `depth` under the budget `max_depth`.
pub open spec fn verdict_of(hit: bool, depth: u32, max_depth: u32) -> Verdict {
    if !hit {
        Verdict::Sky
    } else if depth >= max_depth {
        Verdict::Black
    } else {
        Verdict::Scatter
    }
}

/// Decides what a scene query leads to.
pub fn judge(hit: bool, depth: u32, max_depth: u32) -> (verdict: Verdict)
    ensures
        verdict == verdict_of(hit, depth, max_depth),
{
    if !hit {
        Verdict::Sky
    } else if depth >= max_depth {
        Verdict::Black
    } else {
        Verdict::Scatter
    }
}

/// Decides how a path goes on after its material was asked to scatter at
/// `depth`, which is only done within the budget.
pub fn bounce(scattered: bool, depth: u32, max_depth: u32) -> (next: Bounce)
    requires
        depth < max_depth,
    ensures
        next == if scattered {
            (Bounce::Follow { depth: (depth + 1) as u32 })
        } else {
            Bounce::Absorbed
        },
        next matches Bounce::Follow { depth: d } ==> d == depth + 1 && d <= max_depth,
{
    if scattered {
        Bounce::Follow { depth: depth + 1 }
    } else {
        Bounce::Absorbed
    }
}

/// How a path ends.
#[derive(Debug, PartialEq, Eq)]
pub enum End<R> {
    /// The ray escaped the scene: the path ends in the sky gradient along it.
    Sky(R),
    /// The path ends in black: a material absorbed the ray, or something was
    /// hit with the budget used up.
    Black,
}

/// A finished path: the attenuations of the materials that scattered it,
/// the last bounce first, and how it ends. Its colour is the colour of its
/// end, multiplied by each attenuation in turn.
#[derive(Debug)]
pub struct Path<A, R> {
    pub tints: Vec<A>,
    pub end: End<R>,
}

/// Whether a path from `ray` at `depth` may collect `tints` and end in
/// `end`, where `query` finds what a ray hits and `scatter` asks the
/// material hit for an attenuation and a new ray.
pub open spec fn walks<R, H, A, Q: Fn(&R) -> Option<H>, M: Fn(&R, &H) -> Option<(A, R)>>(
    ray: R,
    depth: u32,
    max_depth: u32,
    query: Q,
    scatter: M,
    tints: Seq<A>,
    end: End<R>,
) -> bool
    decreases max_depth - depth, 2int,
{
    exists|found: Option<H>| #[trigger]
        call_ensures(query, (&ray,), found) && walks_on(
            found,
            ray,
            depth,
            max_depth,
            query,
            scatter,
            tints,
            end,
        )
}

/// The same, once the query for `ray` has found `found`.
pub open spec fn walks_on<R, H, A, Q: Fn(&R) -> Option<H>, M: Fn(&R, &H) -> Option<(A, R)>>(
    found: Option<H>,
    ray: R,
    depth: u32,
    max_depth: u32,
    query: Q,
    scatter: M,
    tints: Seq<A>,
    end: End<R>,
) -> bool
    decreases max_depth - depth, 1int,
{
    match verdict_of(found is Some, depth, max_depth) {
        Verdict::Sky => tints.len() == 0 && end == End::Sky(ray),
        Verdict::Black => tints.len() == 0 && end == End::<R>::Black,
        Verdict::Scatter => exists|answer: Option<(A, R)>| #[trigger]
            call_ensures(scatter, (&ray, &found.unwrap()), answer) && walks_past(
                answer,
                depth,
                max_depth,
                query,
                scatter,
                tints,
                end,
            ),
    }
}

/// The same, once the material that was hit within the budget at `depth`
/// has given `answer`.
pub open spec fn walks_past<R, H, A, Q: Fn(&R) -> Option<H>, M: Fn(&R, &H) -> Option<(A, R)>>(
    answer: Option<(A, R)>,
    depth: u32,
    max_depth: u32,
    query: Q,
    scatter: M,
    tints: Seq<A>,
    end: End<R>,
) -> bool
    decreases max_depth - depth, 0int,
{
    match answer {
        None => tints.len() == 0 && end == End::<R>::Black,
        Some(s) => {
            &&& depth < max_depth
            &&& tints.len() > 0
            &&& tints.last() == s.0
            &&& walks(s.1, (depth + 1) as u32, max_depth, query, scatter, tints.drop_last(), end)
        },
    }
}

/// Follows one path to its end. The scene is queried for the ray; on a hit
/// within the budget the material is asked to scatter, and the path goes on
/// with the scattered ray one level deeper. The material is only ever asked
/// within the budget, so with a budget of zero `scatter` need not even be
/// callable.
pub fn follow<R, H, A, Q: Fn(&R) -> Option<H>, M: Fn(&R, &H) -> Option<(A, R)>>(
    ray: R,
    depth: u32,
    max_depth: u32,
    query: &Q,
    scatter: &M,
) -> (path: Path<A, R>)
    requires
        forall|r: R| call_requires(*query, (&r,)),
        depth < max_depth ==> forall|r: R, h: H| call_requires(*scatter, (&r, &h)),
    ensures
        walks(ray, depth, max_depth, *query, *scatter, path.tints@, path.end),
    decreases max_depth - depth,
{
    let found = query(&ray);
    match judge(found.is_some(), depth, max_depth) {
        Verdict::Sky => Path { tints: Vec::new(), end: End::Sky(ray) },
        Verdict::Black => Path { tints: Vec::new(), end: End::Black },
        Verdict::Scatter => {
            let hit = found.unwrap();
            let answer = scatter(&ray, &hit);
            match bounce(answer.is_some(), depth, max_depth) {
                Bounce::Absorbed => Path { tints: Vec::new(), end: End::Black },
                Bounce::Follow { depth: deeper } => {
                    let (tint, next) = answer.unwrap();
                    let mut path = follow(next, deeper, max_depth, query, scatter);
                    let ghost inner = path.tints@;
                    path.tints.push(tint);
                    proof {
                        assert(path.tints@.drop_last() == inner);
                    }
                    path
                },
            }
        },
    }
}

/// With the budget used up no material is asked to scatter: a hit ends the
/// path in black and a miss in the sky gradient. This holds in particular
/// of every path that starts with a budget of zero.
pub proof fn lemma_exhausted_never_scatters(hit: bool, depth: u32, max_depth: u32)
    requires
        depth >= max_depth,
    ensures
        verdict_of(hit, depth, max_depth) != Verdict::Scatter,
        hit ==> verdict_of(hit, depth, max_depth) == Verdict::Black,
        !hit ==> verdict_of(hit, depth, max_depth) == Verdict::Sky,
{
}

/// A path that starts with the budget used up collects no attenuation,
/// whatever `scatter` would answer: it ends in black where the query may
/// hit, or in the sky along the very ray it started with where the query
/// may miss.
pub proof fn lemma_exhausted_path_is_bare<
    R,
    H,
    A,
    Q: Fn(&R) -> Option<H>,
    M: Fn(&R, &H) -> Option<(A, R)>,
>(ray: R, depth: u32, max_depth: u32, query: Q, scatter: M, tints: Seq<A>, end: End<R>)
    requires
        depth >= max_depth,
        walks(ray, depth, max_depth, query, scatter, tints, end),
    ensures
        tints.len() == 0,
        end == End::<R>::Black || end == End::Sky(ray),
        end == End::<R>::Black ==> exists|found: Option<H>| #[trigger]
            call_ensures(query, (&ray,), found) && found is Some,
        end == End::Sky(ray) ==> exists|found: Option<H>| #[trigger]
            call_ensures(query, (&ray,), found) && found is None,
{
}

/// Every path ends within its budget: whatever is hit and however the
/// materials answer, a path that starts at `depth` is scattered at most
/// `max_depth - depth` times.
pub proof fn lemma_path_is_bounded<
    R,
    H,
    A,
    Q: Fn(&R) -> Option<H>,
    M: Fn(&R, &H) -> Option<(A, R)>,
>(ray: R, depth: u32, max_depth: u32, query: Q, scatter: M, tints: Seq<A>, end: End<R>)
    requires
        depth <= max_depth,
        walks(ray, depth, max_depth, query, scatter, tints, end),
    ensures
        tints.len() <= max_depth - depth,
    decreases max_depth - depth,
{
    if tints.len() > 0 {
        let found = choose|found: Option<H>| #[trigger]
            call_ensures(query, (&ray,), found) && walks_on(
                found,
                ray,
                depth,
                max_depth,
                query,
                scatter,
                tints,
                end,
            );
        let answer = choose|answer: Option<(A, R)>| #[trigger]
            call_ensures(scatter, (&ray, &found.unwrap()), answer) && walks_past(
                answer,
                depth,
                max_depth,
                query,
                scatter,
                tints,
                end,
            );
        lemma_path_is_bounded(
            answer.unwrap().1,
            (depth + 1) as u32,
            max_depth,
            query,
            scatter,
            tints.drop_last(),
            end,
        );
    }
}

} // verus!
