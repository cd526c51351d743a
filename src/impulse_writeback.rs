use crate::two_body_constraint::{
    ContactData, ContactManifold, TwoBodyConstraintSimd, MAX_MANIFOLD_POINTS, SIMD_WIDTH,
};
use vstd::prelude::*;

verus! {

/// The contact points of each manifold of `ms`.
pub open spec fn manifold_points<R>(ms: Seq<ContactManifold<R>>) -> Seq<Seq<ContactData<R>>> {
    ms.map_values(|m: ContactManifold<R>| m.points@)
}

impl<R> TwoBodyConstraintSimd<R> {
    /// Point `k` of every lane designates an existing contact of its manifold.
    pub open spec fn targets_in(&self, ms: Seq<Seq<ContactData<R>>>) -> bool {
        &&& self.num_contacts <= MAX_MANIFOLD_POINTS
        &&& forall|ii: int| 0 <= ii < SIMD_WIDTH ==> #[trigger] self.manifold_id[ii] < ms.len()
        &&& forall|k: int, ii: int|
            0 <= k < self.num_contacts && 0 <= ii < SIMD_WIDTH ==> (#[trigger] self.manifold_contact_id[k][ii])
                < ms[#[trigger] self.manifold_id[ii] as int].len()
    }

    /// The impulses of point `k` in lane `ii`.
    pub open spec fn impulses_of(&self, k: int, ii: int) -> ContactData<R> {
        ContactData {
            impulse: self.elements[k].normal_part.impulse[ii],
            tangent_impulse: self.elements[k].tangent_part.impulse[ii],
        }
    }

    /// `ms` after the impulses of point `k` of lanes `0 .. lanes` are written, in
    /// lane order, to the contacts they came from.
    pub open spec fn written_lanes(
        &self,
        ms: Seq<Seq<ContactData<R>>>,
        k: int,
        lanes: int,
    ) -> Seq<Seq<ContactData<R>>>
        decreases lanes,
    {
        if lanes <= 0 {
            ms
        } else {
            let prev = self.written_lanes(ms, k, lanes - 1);
            let m = self.manifold_id[lanes - 1] as int;
            let c = self.manifold_contact_id[k][lanes - 1] as int;
            prev.update(m, prev[m].update(c, self.impulses_of(k, lanes - 1)))
        }
    }

    /// `ms` after the impulses of points `0 .. points`, in point order, are
    /// written to the contacts they came from.
    pub open spec fn written_points(&self, ms: Seq<Seq<ContactData<R>>>, points: int) -> Seq<
        Seq<ContactData<R>>,
    >
        decreases points,
    {
        if points <= 0 {
            ms
        } else {
            self.written_lanes(self.written_points(ms, points - 1), points - 1, SIMD_WIDTH as int)
        }
    }
}

impl<R> TwoBodyConstraintSimd<R> {
    /// Point `k` of lane `ii` came from contact `c` of manifold `m`.
    pub open spec fn hits(&self, k: int, ii: int, m: int, c: int) -> bool {
        self.manifold_id[ii] as int == m && self.manifold_contact_id[k][ii] as int == c
    }

    /// No two points in use, over all lanes, came from the same contact.
    pub open spec fn targets_distinct(&self) -> bool {
        forall|k1: int, ii1: int, k2: int, ii2: int|
            0 <= k1 < self.num_contacts && 0 <= k2 < self.num_contacts && 0 <= ii1 < SIMD_WIDTH && 0
                <= ii2 < SIMD_WIDTH && (k1 != k2 || ii1 != ii2) ==> !#[trigger] self.hits(
                k2,
                ii2,
                self.manifold_id[ii1] as int,
                #[trigger] self.manifold_contact_id[k1][ii1] as int,
            )
    }
}

proof fn lemma_written_lanes_values<R>(
    c: TwoBodyConstraintSimd<R>,
    ms: Seq<Seq<ContactData<R>>>,
    k: int,
    lanes: int,
)
    requires
        c.targets_in(ms),
        c.targets_distinct(),
        0 <= k < c.num_contacts,
        0 <= lanes <= SIMD_WIDTH,
    ensures
        forall|ii: int|
            0 <= ii < lanes ==> #[trigger] c.written_lanes(ms, k, lanes)[c.manifold_id[ii] as int][c.manifold_contact_id[k][ii] as int]
                == c.impulses_of(k, ii),
        forall|m: int, p: int|
            0 <= m < ms.len() && 0 <= p < ms[m].len() && (forall|ii: int|
                0 <= ii < lanes ==> !#[trigger] c.hits(k, ii, m, p)) ==> #[trigger] c.written_lanes(
                ms,
                k,
                lanes,
            )[m][p] == ms[m][p],
    decreases lanes,
{
    lemma_written_lanes_shape(c, ms, k, lanes);
    if lanes > 0 {
        lemma_written_lanes_values(c, ms, k, lanes - 1);
        lemma_written_lanes_shape(c, ms, k, lanes - 1);
        let last = lanes - 1;
        assert forall|ii: int| 0 <= ii < lanes implies #[trigger] c.written_lanes(ms, k, lanes)[c.manifold_id[
            ii
        ] as int][c.manifold_contact_id[k][ii] as int] == c.impulses_of(k, ii) by {
            if ii < last {
                assert(!c.hits(k, last, c.manifold_id[ii] as int, c.manifold_contact_id[k][ii] as int));
                assert(c.manifold_contact_id[k][ii] < ms[c.manifold_id[ii] as int].len());
            }
        }
        assert forall|m: int, p: int|
            0 <= m < ms.len() && 0 <= p < ms[m].len() && (forall|ii: int|
                0 <= ii < lanes ==> !#[trigger] c.hits(k, ii, m, p)) implies #[trigger] c.written_lanes(
            ms,
            k,
            lanes,
        )[m][p] == ms[m][p] by {
            assert(!c.hits(k, last, m, p));
            assert(forall|ii: int| 0 <= ii < last ==> !#[trigger] c.hits(k, ii, m, p));
        }
    }
}

proof fn lemma_written_points_values<R>(
    c: TwoBodyConstraintSimd<R>,
    ms: Seq<Seq<ContactData<R>>>,
    points: int,
)
    requires
        c.targets_in(ms),
        c.targets_distinct(),
        0 <= points <= c.num_contacts,
    ensures
        forall|k: int, ii: int|
            0 <= k < points && 0 <= ii < SIMD_WIDTH ==> #[trigger] c.written_points(ms, points)[c.manifold_id[
                ii
            ] as int][c.manifold_contact_id[k][ii] as int] == c.impulses_of(k, ii),
        forall|m: int, p: int|
            0 <= m < ms.len() && 0 <= p < ms[m].len() && (forall|k: int, ii: int|
                0 <= k < points && 0 <= ii < SIMD_WIDTH ==> !#[trigger] c.hits(k, ii, m, p))
                ==> #[trigger] c.written_points(ms, points)[m][p] == ms[m][p],
    decreases points,
{
    lemma_written_points_shape(c, ms, points);
    if points > 0 {
        let prev = c.written_points(ms, points - 1);
        let last = points - 1;
        lemma_written_points_values(c, ms, points - 1);
        lemma_written_points_shape(c, ms, points - 1);
        lemma_written_lanes_values(c, prev, last, SIMD_WIDTH as int);
        assert forall|k: int, ii: int| 0 <= k < points && 0 <= ii < SIMD_WIDTH implies #[trigger] c.written_points(
            ms,
            points,
        )[c.manifold_id[ii] as int][c.manifold_contact_id[k][ii] as int] == c.impulses_of(k, ii) by {
            if k < last {
                let m = c.manifold_id[ii] as int;
                let p = c.manifold_contact_id[k][ii] as int;
                assert(p < ms[m].len());
                assert forall|jj: int| 0 <= jj < SIMD_WIDTH implies !#[trigger] c.hits(last, jj, m, p) by {
                    assert(!c.hits(last, jj, c.manifold_id[ii] as int, c.manifold_contact_id[k][ii] as int));
                }
            }
        }
        assert forall|m: int, p: int|
            0 <= m < ms.len() && 0 <= p < ms[m].len() && (forall|k: int, ii: int|
                0 <= k < points && 0 <= ii < SIMD_WIDTH ==> !#[trigger] c.hits(k, ii, m, p)) implies #[trigger] c.written_points(
            ms,
            points,
        )[m][p] == ms[m][p] by {
            assert(forall|ii: int| 0 <= ii < SIMD_WIDTH ==> !#[trigger] c.hits(last, ii, m, p));
            assert(forall|k: int, ii: int|
                0 <= k < last && 0 <= ii < SIMD_WIDTH ==> !#[trigger] c.hits(k, ii, m, p));
        }
    }
}

/// Writing back the impulses of a constraint whose points in use all came from
/// distinct contacts: each such contact ends with the impulses of its point, and
/// every other contact keeps its own.
pub proof fn lemma_writeback_distinct<R>(c: TwoBodyConstraintSimd<R>, ms: Seq<Seq<ContactData<R>>>)
    requires
        c.targets_in(ms),
        c.targets_distinct(),
    ensures
        ({
            let r = c.written_points(ms, c.num_contacts as int);
            &&& r.len() == ms.len()
            &&& forall|m: int| 0 <= m < ms.len() ==> (#[trigger] r[m]).len() == ms[m].len()
            &&& forall|k: int, ii: int|
                0 <= k < c.num_contacts && 0 <= ii < SIMD_WIDTH ==> #[trigger] r[c.manifold_id[
                    ii
                ] as int][c.manifold_contact_id[k][ii] as int] == c.impulses_of(k, ii)
            &&& forall|m: int, p: int|
                0 <= m < ms.len() && 0 <= p < ms[m].len() && (forall|k: int, ii: int|
                    0 <= k < c.num_contacts && 0 <= ii < SIMD_WIDTH ==> !#[trigger] c.hits(
                        k,
                        ii,
                        m,
                        p,
                    )) ==> #[trigger] r[m][p] == ms[m][p]
        }),
{
    lemma_written_points_shape(c, ms, c.num_contacts as int);
    lemma_written_points_values(c, ms, c.num_contacts as int);
}

pub(crate) proof fn lemma_written_lanes_shape<R>(
    c: TwoBodyConstraintSimd<R>,
    ms: Seq<Seq<ContactData<R>>>,
    k: int,
    lanes: int,
)
    requires
        c.targets_in(ms),
        0 <= k < c.num_contacts,
        lanes <= SIMD_WIDTH,
    ensures
        c.written_lanes(ms, k, lanes).len() == ms.len(),
        forall|m: int|
            0 <= m < ms.len() ==> (#[trigger] c.written_lanes(ms, k, lanes)[m]).len() == ms[m].len(),
    decreases lanes,
{
    if lanes > 0 {
        lemma_written_lanes_shape(c, ms, k, lanes - 1);
    }
}

pub(crate) proof fn lemma_written_points_shape<R>(
    c: TwoBodyConstraintSimd<R>,
    ms: Seq<Seq<ContactData<R>>>,
    points: int,
)
    requires
        c.targets_in(ms),
        points <= c.num_contacts,
    ensures
        c.written_points(ms, points).len() == ms.len(),
        forall|m: int|
            0 <= m < ms.len() ==> (#[trigger] c.written_points(ms, points)[m]).len() == ms[m].len(),
        c.targets_in(c.written_points(ms, points)),
    decreases points,
{
    if points > 0 {
        lemma_written_points_shape(c, ms, points - 1);
        let prev = c.written_points(ms, points - 1);
        lemma_written_lanes_shape(c, prev, points - 1, SIMD_WIDTH as int);
    }
}

} // verus!
