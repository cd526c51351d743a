use crate::impulse_writeback::{
    lemma_written_lanes_shape, lemma_written_points_shape, manifold_points,
};
use crate::solver_vel::SolverVel;
use crate::velocity_lanes::{lanes_below, lemma_scattered_len, scatter, scattered};
use vstd::prelude::*;

verus! {

/// The number of contacts processed together, one per lane.
pub const SIMD_WIDTH: usize = 4;

/// The largest number of contact points of one manifold that one constraint holds.
pub const MAX_MANIFOLD_POINTS: usize = 2;

/// The impulses of one contact point of a manifold, as the solver reports them.
#[derive(Clone, Copy, Debug)]
pub struct ContactData<R> {
    /// The impulse along the contact normal.
    pub impulse: R,
    /// The impulse along each of the two friction directions.
    pub tangent_impulse: [R; 2],
}

/// The contact points of one manifold, in the order of their contact ids.
#[derive(Clone, Debug)]
pub struct ContactManifold<R> {
    pub points: Vec<ContactData<R>>,
}

/// The non-penetration row of one contact point, one value per lane.
#[derive(Clone, Copy, Debug)]
pub struct TwoBodyConstraintNormalPart<R> {
    /// The angular direction of the row on the first body, per axis and lane.
    pub gcross1: [[R; SIMD_WIDTH]; 3],
    /// The angular direction of the row on the second body, per axis and lane.
    pub gcross2: [[R; SIMD_WIDTH]; 3],
    /// The target velocity, stabilization bias included.
    pub rhs: [R; SIMD_WIDTH],
    /// The target velocity without stabilization bias.
    pub rhs_wo_bias: [R; SIMD_WIDTH],
    /// The impulse of the current substep.
    pub impulse: [R; SIMD_WIDTH],
    /// The impulse accumulated over the previous substeps of this step.
    pub total_impulse: [R; SIMD_WIDTH],
    /// The projected mass of the row.
    pub r: [R; SIMD_WIDTH],
}

/// The two friction rows of one contact point, one value per lane.
#[derive(Clone, Copy, Debug)]
pub struct TwoBodyConstraintTangentPart<R> {
    /// The angular direction of each row on the first body, per axis and lane.
    pub gcross1: [[[R; SIMD_WIDTH]; 3]; 2],
    /// The angular direction of each row on the second body, per axis and lane.
    pub gcross2: [[[R; SIMD_WIDTH]; 3]; 2],
    /// The target velocity of each row, bias included.
    pub rhs: [[R; SIMD_WIDTH]; 2],
    /// The target velocity of each row without bias.
    pub rhs_wo_bias: [[R; SIMD_WIDTH]; 2],
    /// The impulse of the current substep, per lane, along each friction direction.
    pub impulse: [[R; 2]; SIMD_WIDTH],
    /// The impulse accumulated over the previous substeps, per lane.
    pub total_impulse: [[R; 2]; SIMD_WIDTH],
    /// The entries of the symmetric 2x2 friction system: the two diagonal ones,
    /// then twice the off-diagonal one.
    pub r: [[R; SIMD_WIDTH]; 3],
}

/// The rows of one contact point.
#[derive(Clone, Copy, Debug)]
pub struct TwoBodyConstraintElement<R> {
    pub normal_part: TwoBodyConstraintNormalPart<R>,
    pub tangent_part: TwoBodyConstraintTangentPart<R>,
}

/// The contact constraints between `SIMD_WIDTH` pairs of bodies, solved together.
///
/// Lane `ii` holds one manifold: the bodies at `solver_vel1[ii]` and
/// `solver_vel2[ii]` of the solver's velocities, and the points
/// `manifold_contact_id[k][ii]` of manifold `manifold_id[ii]`.
#[derive(Clone, Copy, Debug)]
pub struct TwoBodyConstraintSimd<R> {
    /// The direction of the non-penetration force on the first body.
    pub dir1: [[R; SIMD_WIDTH]; 3],
    /// The first friction direction.
    pub tangent1: [[R; SIMD_WIDTH]; 3],
    pub elements: [TwoBodyConstraintElement<R>; MAX_MANIFOLD_POINTS],
    /// How many of `elements` are in use.
    pub num_contacts: u8,
    /// The inverse mass of the first body, per axis and lane.
    pub im1: [[R; SIMD_WIDTH]; 3],
    /// The inverse mass of the second body, per axis and lane.
    pub im2: [[R; SIMD_WIDTH]; 3],
    /// The softening factor of each lane; `None` means no softening (a factor of
    /// one).
    pub cfm_factor: [Option<R>; SIMD_WIDTH],
    /// The friction coefficient of each lane.
    pub limit: [R; SIMD_WIDTH],
    pub solver_vel1: [usize; SIMD_WIDTH],
    pub solver_vel2: [usize; SIMD_WIDTH],
    pub manifold_id: [usize; SIMD_WIDTH],
    pub manifold_contact_id: [[u8; SIMD_WIDTH]; MAX_MANIFOLD_POINTS],
}

/// `e` with its target velocities stripped of their stabilization bias.
pub open spec fn without_bias<R>(e: TwoBodyConstraintElement<R>) -> TwoBodyConstraintElement<R> {
    TwoBodyConstraintElement {
        normal_part: TwoBodyConstraintNormalPart { rhs: e.normal_part.rhs_wo_bias, ..e.normal_part },
        tangent_part: TwoBodyConstraintTangentPart {
            rhs: e.tangent_part.rhs_wo_bias,
            ..e.tangent_part
        },
    }
}

/// How the first `num_active_contacts` contacts of a manifold are shared among
/// constraints: constraint `j` takes the contacts from `r[j].0`, `r[j].1` of them,
/// in manifold order, `MAX_MANIFOLD_POINTS` at most.
pub fn contact_chunks(num_active_contacts: usize) -> (r: Vec<(usize, usize)>)
    ensures
        r@.len() * MAX_MANIFOLD_POINTS >= num_active_contacts,
        r@.len() * MAX_MANIFOLD_POINTS < num_active_contacts + MAX_MANIFOLD_POINTS,
        forall|j: int|
            0 <= j < r@.len() ==> #[trigger] r@[j] == (
                (j * MAX_MANIFOLD_POINTS) as usize,
                if num_active_contacts - j * MAX_MANIFOLD_POINTS < MAX_MANIFOLD_POINTS {
                    (num_active_contacts - j * MAX_MANIFOLD_POINTS) as usize
                } else {
                    MAX_MANIFOLD_POINTS
                },
            ),
{
    let mut r: Vec<(usize, usize)> = Vec::new();
    let mut l: usize = 0;
    while num_active_contacts - l > MAX_MANIFOLD_POINTS
        invariant
            l == r@.len() * MAX_MANIFOLD_POINTS,
            l <= num_active_contacts,
            forall|j: int|
                0 <= j < r@.len() ==> #[trigger] r@[j] == (
                    (j * MAX_MANIFOLD_POINTS) as usize,
                    if num_active_contacts - j * MAX_MANIFOLD_POINTS < MAX_MANIFOLD_POINTS {
                        (num_active_contacts - j * MAX_MANIFOLD_POINTS) as usize
                    } else {
                        MAX_MANIFOLD_POINTS
                    },
                ),
        decreases num_active_contacts - l,
    {
        r.push((l, MAX_MANIFOLD_POINTS));
        l = l + MAX_MANIFOLD_POINTS;
    }
    if l < num_active_contacts {
        r.push((l, num_active_contacts - l));
    }
    r
}

impl<R: Copy> TwoBodyConstraintSimd<R> {
    /// Removes the softening and the stabilization bias, so that the last solver
    /// passes only enforce velocity constraints.
    pub fn remove_cfm_and_bias_from_rhs(&mut self)
        ensures
            final(self).elements@ == old(self).elements@.map_values(
                |e: TwoBodyConstraintElement<R>| without_bias(e),
            ),
            forall|ii: int| 0 <= ii < SIMD_WIDTH ==> (#[trigger] final(self).cfm_factor[ii]).is_none(),
            final(self).dir1 == old(self).dir1,
            final(self).tangent1 == old(self).tangent1,
            final(self).num_contacts == old(self).num_contacts,
            final(self).im1 == old(self).im1,
            final(self).im2 == old(self).im2,
            final(self).limit == old(self).limit,
            final(self).solver_vel1 == old(self).solver_vel1,
            final(self).solver_vel2 == old(self).solver_vel2,
            final(self).manifold_id == old(self).manifold_id,
            final(self).manifold_contact_id == old(self).manifold_contact_id,
    {
        self.cfm_factor = [None, None, None, None];
        let mut k: usize = 0;
        while k < MAX_MANIFOLD_POINTS
            invariant
                k <= MAX_MANIFOLD_POINTS,
                forall|j: int|
                    0 <= j < k ==> #[trigger] self.elements@[j] == without_bias(
                        old(self).elements@[j],
                    ),
                forall|j: int|
                    k <= j < MAX_MANIFOLD_POINTS ==> #[trigger] self.elements@[j] == old(
                        self,
                    ).elements@[j],
                forall|ii: int| 0 <= ii < SIMD_WIDTH ==> (#[trigger] self.cfm_factor[ii]).is_none(),
                self.dir1 == old(self).dir1,
                self.tangent1 == old(self).tangent1,
                self.num_contacts == old(self).num_contacts,
                self.im1 == old(self).im1,
                self.im2 == old(self).im2,
                self.limit == old(self).limit,
                self.solver_vel1 == old(self).solver_vel1,
                self.solver_vel2 == old(self).solver_vel2,
                self.manifold_id == old(self).manifold_id,
                self.manifold_contact_id == old(self).manifold_contact_id,
            decreases MAX_MANIFOLD_POINTS - k,
        {
            let mut e = self.elements[k];
            e.normal_part.rhs = e.normal_part.rhs_wo_bias;
            e.tangent_part.rhs = e.tangent_part.rhs_wo_bias;
            self.elements[k] = e;
            k += 1;
        }
        assert(self.elements@ =~= old(self).elements@.map_values(
            |e: TwoBodyConstraintElement<R>| without_bias(e),
        ));
    }

    /// The velocities of the first and of the second body of each lane.
    pub fn gather_solver_vels(&self, solver_vels: &Vec<SolverVel<R>>) -> (r: (
        [SolverVel<R>; SIMD_WIDTH],
        [SolverVel<R>; SIMD_WIDTH],
    ))
        requires
            lanes_below(self.solver_vel1, solver_vels@.len() as int),
            lanes_below(self.solver_vel2, solver_vels@.len() as int),
        ensures
            forall|ii: int|
                0 <= ii < SIMD_WIDTH ==> #[trigger] r.0[ii] == solver_vels@[self.solver_vel1[ii] as int]
                    && r.1[ii] == solver_vels@[self.solver_vel2[ii] as int],
    {
        let ids1 = self.solver_vel1;
        let ids2 = self.solver_vel2;
        let vels1 = [
            solver_vels[ids1[0]],
            solver_vels[ids1[1]],
            solver_vels[ids1[2]],
            solver_vels[ids1[3]],
        ];
        let vels2 = [
            solver_vels[ids2[0]],
            solver_vels[ids2[1]],
            solver_vels[ids2[2]],
            solver_vels[ids2[3]],
        ];
        (vels1, vels2)
    }

    /// Stores the velocities of the first bodies of all lanes, then those of the
    /// second bodies, in lane order.
    pub fn scatter_solver_vels(
        &self,
        solver_vels: &mut Vec<SolverVel<R>>,
        vels1: [SolverVel<R>; SIMD_WIDTH],
        vels2: [SolverVel<R>; SIMD_WIDTH],
    )
        requires
            lanes_below(self.solver_vel1, old(solver_vels)@.len() as int),
            lanes_below(self.solver_vel2, old(solver_vels)@.len() as int),
        ensures
            final(solver_vels)@ == scattered(
                scattered(old(solver_vels)@, self.solver_vel1, vels1, SIMD_WIDTH as int),
                self.solver_vel2,
                vels2,
                SIMD_WIDTH as int,
            ),
    {
        proof {
            lemma_scattered_len(solver_vels@, self.solver_vel1, vels1, SIMD_WIDTH as int);
        }
        scatter(solver_vels, self.solver_vel1, vels1);
        scatter(solver_vels, self.solver_vel2, vels2);
    }

    /// Sets the softening of each lane: none in a lane that holds a fast contact,
    /// `cfm_factor` in the others.
    pub fn set_cfm_factor(&mut self, is_fast_contact: [bool; SIMD_WIDTH], cfm_factor: R)
        ensures
            forall|ii: int|
                0 <= ii < SIMD_WIDTH ==> #[trigger] final(self).cfm_factor[ii] == if is_fast_contact[ii] {
                    None
                } else {
                    Some(cfm_factor)
                },
            *final(self) == (TwoBodyConstraintSimd { cfm_factor: final(self).cfm_factor, ..*old(self) }),
    {
        let mut ii: usize = 0;
        while ii < SIMD_WIDTH
            invariant
                ii <= SIMD_WIDTH,
                forall|j: int|
                    0 <= j < ii ==> #[trigger] self.cfm_factor[j] == if is_fast_contact[j] {
                        None
                    } else {
                        Some(cfm_factor)
                    },
                *self == (TwoBodyConstraintSimd { cfm_factor: self.cfm_factor, ..*old(self) }),
            decreases SIMD_WIDTH - ii,
        {
            if is_fast_contact[ii] {
                self.cfm_factor[ii] = None;
            } else {
                self.cfm_factor[ii] = Some(cfm_factor);
            }
            ii += 1;
        }
    }

    /// Copies the impulses of every point in use, in every lane, into the contact
    /// of its manifold that the point came from.
    pub fn writeback_impulses(&self, manifolds_all: &mut Vec<ContactManifold<R>>)
        requires
            self.targets_in(manifold_points(old(manifolds_all)@)),
        ensures
            final(manifolds_all)@.len() == old(manifolds_all)@.len(),
            manifold_points(final(manifolds_all)@) == self.written_points(
                manifold_points(old(manifolds_all)@),
                self.num_contacts as int,
            ),
    {
        let ghost ms0 = manifold_points(manifolds_all@);
        let n = self.num_contacts as usize;
        let mut k: usize = 0;
        while k < n
            invariant
                n == self.num_contacts,
                k <= n,
                self.targets_in(ms0),
                manifolds_all@.len() == ms0.len(),
                manifold_points(manifolds_all@) == self.written_points(ms0, k as int),
            decreases n - k,
        {
            proof {
                lemma_written_points_shape(*self, ms0, k as int);
            }
            let ghost start = manifold_points(manifolds_all@);
            let mut ii: usize = 0;
            while ii < SIMD_WIDTH
                invariant
                    k < n,
                    n == self.num_contacts,
                    ii <= SIMD_WIDTH,
                    self.targets_in(start),
                    start.len() == ms0.len(),
                    manifolds_all@.len() == ms0.len(),
                    manifold_points(manifolds_all@) == self.written_lanes(start, k as int, ii as int),
                decreases SIMD_WIDTH - ii,
            {
                proof {
                    lemma_written_lanes_shape(*self, start, k as int, ii as int);
                }
                let m = self.manifold_id[ii];
                let contact_id = self.manifold_contact_id[k][ii] as usize;
                let data = ContactData {
                    impulse: self.elements[k].normal_part.impulse[ii],
                    tangent_impulse: self.elements[k].tangent_part.impulse[ii],
                };
                proof {
                    let mi = self.manifold_id[ii as int] as int;
                    assert(self.manifold_contact_id[k as int][ii as int] < start[mi].len());
                    assert(manifold_points(manifolds_all@)[m as int]
                        == manifolds_all@[m as int].points@);
                }
                manifolds_all[m].points.set(contact_id, data);
                proof {
                    assert(manifold_points(manifolds_all@) =~= self.written_lanes(
                        start,
                        k as int,
                        ii + 1,
                    ));
                }
                ii += 1;
            }
            k += 1;
        }
    }
}

} // verus!
