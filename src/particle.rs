use vstd::prelude::*;

verus! {

/// One point mass: its mass and four vectors of the same dimension.
pub struct Particle<T> {
    pub mass: T,
    pub position: Vec<T>,
    pub velocity: Vec<T>,
    pub force: Vec<T>,
    pub force_old: Vec<T>,
}

impl<T> Particle<T> {
    /// The number of spatial components of the particle.
    pub open spec fn dim(&self) -> nat {
        self.position@.len()
    }

    /// Position, velocity, force and old force all have the same length.
    pub open spec fn wf(&self) -> bool {
        &&& self.velocity@.len() == self.dim()
        &&& self.force@.len() == self.dim()
        &&& self.force_old@.len() == self.dim()
    }

    /// `self` is `before` with the force of `before` saved as the old force.
    pub open spec fn stored_from(&self, before: Particle<T>) -> bool {
        &&& self.mass == before.mass
        &&& self.position@ == before.position@
        &&& self.velocity@ == before.velocity@
        &&& self.force@ == before.force@
        &&& self.force_old@ == before.force@
    }

    /// `self` is `before` with every force component set to `zero`.
    pub open spec fn cleared_from(&self, before: Particle<T>, zero: T) -> bool {
        &&& self.mass == before.mass
        &&& self.position@ == before.position@
        &&& self.velocity@ == before.velocity@
        &&& self.force_old@ == before.force_old@
        &&& self.force@.len() == before.force@.len()
        &&& forall|d: int| 0 <= d < self.force@.len() ==> self.force@[d] == zero
    }

    /// The dimension of the particle, when all four vectors agree on it.
    pub fn dimension(&self) -> (r: Option<usize>)
        ensures
            r is Some <==> self.wf(),
            r matches Some(d) ==> d == self.dim(),
    {
        let d = self.position.len();
        if self.velocity.len() == d && self.force.len() == d && self.force_old.len() == d {
            Some(d)
        } else {
            None
        }
    }
}

impl<T: Copy> Particle<T> {
    /// A particle of dimension 2 whose mass and vectors are all `zero`. Its mass
    /// and vectors are to be set before it takes part in a simulation.
    pub fn new(zero: T) -> (r: Particle<T>)
        ensures
            r.mass == zero,
            r.position@ == seq![zero, zero],
            r.velocity@ == seq![zero, zero],
            r.force@ == seq![zero, zero],
            r.force_old@ == seq![zero, zero],
            r.wf(),
    {
        let r = Particle {
            mass: zero,
            position: vec![zero, zero],
            velocity: vec![zero, zero],
            force: vec![zero, zero],
            force_old: vec![zero, zero],
        };
        assert(r.position@ =~= seq![zero, zero]);
        assert(r.velocity@ =~= seq![zero, zero]);
        assert(r.force@ =~= seq![zero, zero]);
        assert(r.force_old@ =~= seq![zero, zero]);
        r
    }

    /// Copies the force into the old force, component by component.
    pub fn store_old_force(&mut self)
        requires
            old(self).wf(),
        ensures
            final(self).stored_from(*old(self)),
            final(self).wf(),
    {
        let n = self.force.len();
        for d in 0..n
            invariant
                n == self.force@.len(),
                self.force_old@.len() == n,
                self.mass == old(self).mass,
                self.position == old(self).position,
                self.velocity == old(self).velocity,
                self.force == old(self).force,
                forall|k: int| 0 <= k < d ==> self.force_old@[k] == self.force@[k],
        {
            let f = self.force[d];
            self.force_old.set(d, f);
        }
        assert(self.force_old@ =~= self.force@);
    }

    /// Sets every force component to `zero`.
    pub fn clear_force(&mut self, zero: T)
        ensures
            final(self).cleared_from(*old(self), zero),
            old(self).wf() ==> final(self).wf(),
    {
        let n = self.force.len();
        for d in 0..n
            invariant
                n == old(self).force@.len(),
                self.force@.len() == n,
                self.mass == old(self).mass,
                self.position == old(self).position,
                self.velocity == old(self).velocity,
                self.force_old == old(self).force_old,
                forall|k: int| 0 <= k < d ==> self.force@[k] == zero,
        {
            self.force.set(d, zero);
        }
    }
}

/// Storing the old force is idempotent: a second store, with no change of the
/// force in between, leaves the particle as the first store left it.
pub proof fn lemma_store_old_force_idempotent<T>(p0: Particle<T>, p1: Particle<T>, p2: Particle<T>)
    requires
        p1.stored_from(p0),
        p2.stored_from(p1),
    ensures
        p2.mass == p1.mass,
        p2.position@ == p1.position@,
        p2.velocity@ == p1.velocity@,
        p2.force@ == p1.force@,
        p2.force_old@ == p1.force_old@,
{
}

} // verus!
