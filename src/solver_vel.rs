use vstd::prelude::*;

verus! {

/// The number of velocity components of a body: three linear, three angular.
pub const SPATIAL_DIM: usize = 6;

/// The velocity of one body as the solver sees it.
#[derive(Clone, Copy, Debug)]
pub struct SolverVel<R> {
    /// The linear velocity.
    pub linear: [R; 3],
    /// The angular velocity, multiplied by the inverse square root of the
    /// angular inertia.
    pub angular: [R; 3],
}

impl<R: Copy> SolverVel<R> {
    /// A velocity whose six components are all `R`'s default value.
    pub fn zero() -> (r: Self)
        where
            R: Default,
        ensures
            call_ensures(R::default, (), r.linear[0]),
            forall|i: int| 0 <= i < 3 ==> #[trigger] r.linear[i] == r.linear[0],
            forall|i: int| 0 <= i < 3 ==> #[trigger] r.angular[i] == r.linear[0],
    {
        let z = R::default();
        SolverVel { linear: [z, z, z], angular: [z, z, z] }
    }

    /// The six components, linear ones first.
    pub fn as_slice(&self) -> (r: [R; SPATIAL_DIM])
        ensures
            r@ == self.linear@ + self.angular@,
    {
        let r = [
            self.linear[0],
            self.linear[1],
            self.linear[2],
            self.angular[0],
            self.angular[1],
            self.angular[2],
        ];
        assert(r@ =~= self.linear@ + self.angular@);
        r
    }

    /// The velocity whose six components, linear ones first, are `s`.
    pub fn from_slice(s: [R; SPATIAL_DIM]) -> (r: Self)
        ensures
            r.linear@ + r.angular@ == s@,
    {
        let r = SolverVel { linear: [s[0], s[1], s[2]], angular: [s[3], s[4], s[5]] };
        assert(r.linear@ + r.angular@ =~= s@);
        r
    }
}

} // verus!
