use crate::solver_vel::SolverVel;
use crate::two_body_constraint::SIMD_WIDTH;
use vstd::prelude::*;

verus! {

/// `vs` after `vals[ii]` is stored at `ids[ii]` for each lane `ii` of `0 .. lanes`,
/// in lane order.
pub open spec fn scattered<R>(
    vs: Seq<SolverVel<R>>,
    ids: [usize; SIMD_WIDTH],
    vals: [SolverVel<R>; SIMD_WIDTH],
    lanes: int,
) -> Seq<SolverVel<R>>
    decreases lanes,
{
    if lanes <= 0 {
        vs
    } else {
        scattered(vs, ids, vals, lanes - 1).update(ids[lanes - 1] as int, vals[lanes - 1])
    }
}

/// Every lane designates one of `len` bodies.
pub open spec fn lanes_below(ids: [usize; SIMD_WIDTH], len: int) -> bool {
    forall|ii: int| 0 <= ii < SIMD_WIDTH ==> #[trigger] ids[ii] < len
}

pub(crate) proof fn lemma_scattered_len<R>(
    vs: Seq<SolverVel<R>>,
    ids: [usize; SIMD_WIDTH],
    vals: [SolverVel<R>; SIMD_WIDTH],
    lanes: int,
)
    requires
        lanes_below(ids, vs.len() as int),
        lanes <= SIMD_WIDTH,
    ensures
        scattered(vs, ids, vals, lanes).len() == vs.len(),
    decreases lanes,
{
    if lanes > 0 {
        lemma_scattered_len(vs, ids, vals, lanes - 1);
    }
}

/// No two lanes designate the same body.
pub open spec fn lanes_distinct(ids: [usize; SIMD_WIDTH]) -> bool {
    forall|ii: int, jj: int|
        0 <= ii < SIMD_WIDTH && 0 <= jj < SIMD_WIDTH && ii != jj ==> #[trigger] ids[ii] != #[trigger] ids[jj]
}

/// No lane designates body `j`.
pub open spec fn lanes_avoid(ids: [usize; SIMD_WIDTH], j: int) -> bool {
    forall|ii: int| 0 <= ii < SIMD_WIDTH ==> #[trigger] ids[ii] != j
}

proof fn lemma_scattered_prefix<R>(
    vs: Seq<SolverVel<R>>,
    ids: [usize; SIMD_WIDTH],
    vals: [SolverVel<R>; SIMD_WIDTH],
    lanes: int,
)
    requires
        lanes_below(ids, vs.len() as int),
        lanes_distinct(ids),
        0 <= lanes <= SIMD_WIDTH,
    ensures
        scattered(vs, ids, vals, lanes).len() == vs.len(),
        forall|ii: int|
            0 <= ii < lanes ==> #[trigger] scattered(vs, ids, vals, lanes)[ids[ii] as int] == vals[ii],
        forall|j: int|
            0 <= j < vs.len() && (forall|ii: int| 0 <= ii < lanes ==> #[trigger] ids[ii] != j)
                ==> #[trigger] scattered(vs, ids, vals, lanes)[j] == vs[j],
    decreases lanes,
{
    lemma_scattered_len(vs, ids, vals, lanes);
    if lanes > 0 {
        lemma_scattered_prefix(vs, ids, vals, lanes - 1);
        assert forall|ii: int| 0 <= ii < lanes implies #[trigger] scattered(vs, ids, vals, lanes)[ids[
            ii
        ] as int] == vals[ii] by {
            if ii < lanes - 1 {
                assert(ids[ii] != ids[lanes - 1]);
            }
        }
    }
}

/// Storing one velocity per lane, with no body in two lanes: the body of each
/// lane ends with that lane's velocity, and every other body keeps its own.
pub proof fn lemma_scattered_distinct<R>(
    vs: Seq<SolverVel<R>>,
    ids: [usize; SIMD_WIDTH],
    vals: [SolverVel<R>; SIMD_WIDTH],
)
    requires
        lanes_below(ids, vs.len() as int),
        lanes_distinct(ids),
    ensures
        scattered(vs, ids, vals, SIMD_WIDTH as int).len() == vs.len(),
        forall|ii: int|
            0 <= ii < SIMD_WIDTH ==> #[trigger] scattered(vs, ids, vals, SIMD_WIDTH as int)[ids[ii] as int]
                == vals[ii],
        forall|j: int|
            0 <= j < vs.len() && lanes_avoid(ids, j) ==> #[trigger] scattered(
                vs,
                ids,
                vals,
                SIMD_WIDTH as int,
            )[j] == vs[j],
{
    lemma_scattered_prefix(vs, ids, vals, SIMD_WIDTH as int);
    assert forall|j: int| 0 <= j < vs.len() && lanes_avoid(ids, j) implies #[trigger] scattered(
        vs,
        ids,
        vals,
        SIMD_WIDTH as int,
    )[j] == vs[j] by {
        assert(forall|ii: int| 0 <= ii < SIMD_WIDTH ==> #[trigger] ids[ii] != j);
    }
}

/// Storing back, lane by lane, the very velocities that were read from the same
/// bodies changes nothing, even where two lanes share a body.
pub proof fn lemma_scatter_gathered<R>(
    vs: Seq<SolverVel<R>>,
    ids: [usize; SIMD_WIDTH],
    vals: [SolverVel<R>; SIMD_WIDTH],
    lanes: int,
)
    requires
        lanes_below(ids, vs.len() as int),
        forall|ii: int| 0 <= ii < SIMD_WIDTH ==> #[trigger] vals[ii] == vs[ids[ii] as int],
        lanes <= SIMD_WIDTH,
    ensures
        scattered(vs, ids, vals, lanes) == vs,
    decreases lanes,
{
    if lanes > 0 {
        lemma_scatter_gathered(vs, ids, vals, lanes - 1);
        assert(vs.update(ids[lanes - 1] as int, vals[lanes - 1]) =~= vs);
    }
}

/// The bodies of a batch: no body appears twice among the first and second
/// bodies of all lanes.
pub open spec fn bodies_disjoint(ids1: [usize; SIMD_WIDTH], ids2: [usize; SIMD_WIDTH]) -> bool {
    &&& lanes_distinct(ids1)
    &&& lanes_distinct(ids2)
    &&& forall|ii: int, jj: int|
        0 <= ii < SIMD_WIDTH && 0 <= jj < SIMD_WIDTH ==> #[trigger] ids1[ii] != #[trigger] ids2[jj]
}

/// Storing the velocities of a batch whose lanes hold disjoint pairs of bodies:
/// each body ends with the velocity of its lane, and every body outside the batch
/// keeps its own.
pub proof fn lemma_batch_scatter<R>(
    vs: Seq<SolverVel<R>>,
    ids1: [usize; SIMD_WIDTH],
    ids2: [usize; SIMD_WIDTH],
    vals1: [SolverVel<R>; SIMD_WIDTH],
    vals2: [SolverVel<R>; SIMD_WIDTH],
)
    requires
        lanes_below(ids1, vs.len() as int),
        lanes_below(ids2, vs.len() as int),
        bodies_disjoint(ids1, ids2),
    ensures
        ({
            let r = scattered(
                scattered(vs, ids1, vals1, SIMD_WIDTH as int),
                ids2,
                vals2,
                SIMD_WIDTH as int,
            );
            &&& r.len() == vs.len()
            &&& forall|ii: int|
                0 <= ii < SIMD_WIDTH ==> #[trigger] r[ids1[ii] as int] == vals1[ii]
                    && r[ids2[ii] as int] == vals2[ii]
            &&& forall|j: int|
                0 <= j < vs.len() && lanes_avoid(ids1, j) && lanes_avoid(ids2, j) ==> #[trigger] r[j]
                    == vs[j]
        }),
{
    let s1 = scattered(vs, ids1, vals1, SIMD_WIDTH as int);
    lemma_scattered_distinct(vs, ids1, vals1);
    lemma_scattered_distinct(s1, ids2, vals2);
    assert forall|ii: int| 0 <= ii < SIMD_WIDTH implies lanes_avoid(ids2, #[trigger] ids1[ii] as int) by {
        assert forall|jj: int| 0 <= jj < SIMD_WIDTH implies #[trigger] ids2[jj] != ids1[ii] by {
            assert(ids1[ii] != ids2[jj]);
        }
    }
}

pub(crate) fn scatter<R: Copy>(
    vs: &mut Vec<SolverVel<R>>,
    ids: [usize; SIMD_WIDTH],
    vals: [SolverVel<R>; SIMD_WIDTH],
)
    requires
        lanes_below(ids, old(vs)@.len() as int),
    ensures
        final(vs)@ == scattered(old(vs)@, ids, vals, SIMD_WIDTH as int),
{
    let mut ii: usize = 0;
    while ii < SIMD_WIDTH
        invariant
            ii <= SIMD_WIDTH,
            lanes_below(ids, old(vs)@.len() as int),
            vs@ == scattered(old(vs)@, ids, vals, ii as int),
        decreases SIMD_WIDTH - ii,
    {
        proof {
            lemma_scattered_len(old(vs)@, ids, vals, ii as int);
        }
        vs.set(ids[ii], vals[ii]);
        ii += 1;
    }
}

} // verus!
