use crate::particle::Particle;
use vstd::prelude::*;

verus! {

/// An ordered collection of particles. The order is the order of insertion and
/// fixes the order in which pairwise contributions are accumulated.
pub struct Grid<T> {
    pub particles: Vec<Particle<T>>,
}

/// The first particle whose vectors disagree with each other or with the
/// dimension of the first particle of the grid.
#[derive(Clone, Copy, Debug, PartialEq, Eq, Structural)]
pub struct DimensionMismatch {
    pub particle: usize,
}

/// Particle `p` is well formed and has dimension `d`.
pub open spec fn fits<T>(p: Particle<T>, d: nat) -> bool {
    p.wf() && p.dim() == d
}

impl<T> Grid<T> {
    /// The dimension that every particle must have: that of the first one.
    pub open spec fn dim(&self) -> nat {
        if self.particles@.len() == 0 {
            0
        } else {
            self.particles@[0].dim()
        }
    }

    /// Every particle is well formed and all share one dimension.
    pub open spec fn wf(&self) -> bool {
        forall|i: int| 0 <= i < self.particles@.len() ==> fits(#[trigger] self.particles@[i], self.dim())
    }

    /// `i` is the first particle that does not fit the grid's dimension.
    pub open spec fn first_mismatch(&self, i: int) -> bool {
        &&& 0 <= i < self.particles@.len()
        &&& !fits(self.particles@[i], self.dim())
        &&& forall|k: int| 0 <= k < i ==> fits(#[trigger] self.particles@[k], self.dim())
    }

    /// Checks the dimension invariant, naming the first particle that breaks it.
    pub fn check_dimensions(&self) -> (r: Result<(), DimensionMismatch>)
        ensures
            r is Ok <==> self.wf(),
            r matches Err(e) ==> self.first_mismatch(e.particle as int),
    {
        let n = self.particles.len();
        if n == 0 {
            return Ok(());
        }
        let d = self.particles[0].position.len();
        for i in 0..n
            invariant
                n == self.particles@.len(),
                n > 0,
                d == self.dim(),
                forall|k: int| 0 <= k < i ==> fits(#[trigger] self.particles@[k], self.dim()),
        {
            let fits_here = match self.particles[i].dimension() {
                Some(di) => di == d,
                None => false,
            };
            if !fits_here {
                return Err(DimensionMismatch { particle: i });
            }
        }
        Ok(())
    }
}

impl<T: Copy> Grid<T> {
    /// Saves every particle's force as its old force.
    pub fn store_old_forces(&mut self)
        requires
            old(self).wf(),
        ensures
            final(self).particles@.len() == old(self).particles@.len(),
            forall|i: int|
                0 <= i < old(self).particles@.len() ==> (#[trigger] final(self).particles@[i]).stored_from(
                    old(self).particles@[i],
                ),
            final(self).wf(),
    {
        let n = self.particles.len();
        for i in 0..n
            invariant
                n == old(self).particles@.len(),
                self.particles@.len() == n,
                self.dim() == old(self).dim(),
                forall|k: int| 0 <= k < i ==> (#[trigger] self.particles@[k]).stored_from(old(self).particles@[k]),
                forall|k: int| i <= k < n ==> #[trigger] self.particles@[k] == old(self).particles@[k],
                forall|k: int| 0 <= k < n ==> fits(#[trigger] self.particles@[k], old(self).dim()),
        {
            self.particles[i].store_old_force();
        }
    }

    /// Sets every force component of every particle to `zero`: the first of the
    /// two phases of a force recomputation.
    pub fn clear_forces(&mut self, zero: T)
        ensures
            final(self).particles@.len() == old(self).particles@.len(),
            forall|i: int|
                0 <= i < old(self).particles@.len() ==> (#[trigger] final(self).particles@[i]).cleared_from(
                    old(self).particles@[i],
                    zero,
                ),
            old(self).wf() ==> final(self).wf(),
    {
        let n = self.particles.len();
        for i in 0..n
            invariant
                n == old(self).particles@.len(),
                self.particles@.len() == n,
                self.dim() == old(self).dim(),
                forall|k: int| 0 <= k < i ==> (#[trigger] self.particles@[k]).cleared_from(old(self).particles@[k], zero),
                forall|k: int| i <= k < n ==> #[trigger] self.particles@[k] == old(self).particles@[k],
                old(self).wf() ==> forall|k: int| 0 <= k < n ==> fits(#[trigger] self.particles@[k], old(self).dim()),
        {
            self.particles[i].clear_force(zero);
        }
    }
}

/// The ordered pairs `(i, j)`, `j < upto`, `j != i`, in increasing `j`.
pub open spec fn pair_row(i: nat, upto: nat) -> Seq<(usize, usize)>
    decreases upto,
{
    if upto == 0 {
        Seq::empty()
    } else {
        let j = (upto - 1) as nat;
        let before = pair_row(i, j);
        if j != i {
            before.push((i as usize, j as usize))
        } else {
            before
        }
    }
}

/// The ordered pairs of distinct indices below `n` whose first index is below
/// `rows`, row by row.
pub open spec fn pairs_upto(n: nat, rows: nat) -> Seq<(usize, usize)>
    decreases rows,
{
    if rows == 0 {
        Seq::empty()
    } else {
        pairs_upto(n, (rows - 1) as nat) + pair_row((rows - 1) as nat, n)
    }
}

/// Every ordered pair of distinct particle indices below `n`, in the order of a
/// double loop over `i` then `j`.
pub open spec fn interaction_order(n: nat) -> Seq<(usize, usize)> {
    pairs_upto(n, n)
}

proof fn lemma_pair_row_members(i: nat, upto: nat)
    requires
        i <= usize::MAX,
        upto <= usize::MAX + 1,
    ensures
        forall|k: int|
            0 <= k < pair_row(i, upto).len() ==> {
                let p = #[trigger] pair_row(i, upto)[k];
                p.0 == i && p.1 < upto && p.1 != p.0
            },
    decreases upto,
{
    if upto > 0 {
        let j = (upto - 1) as nat;
        lemma_pair_row_members(i, j);
        let before = pair_row(i, j);
        assert forall|k: int| 0 <= k < pair_row(i, upto).len() implies {
            let p = #[trigger] pair_row(i, upto)[k];
            p.0 == i && p.1 < upto && p.1 != p.0
        } by {
            if k < before.len() {
                assert(pair_row(i, upto)[k] == before[k]);
            }
        }
    }
}

proof fn lemma_pair_row_contains(i: nat, upto: nat, j: nat)
    requires
        j < upto,
        j != i,
        i <= usize::MAX,
        upto <= usize::MAX + 1,
    ensures
        pair_row(i, upto).contains((i as usize, j as usize)),
    decreases upto,
{
    let before = pair_row(i, (upto - 1) as nat);
    if j == upto - 1 {
        assert(pair_row(i, upto).last() == (i as usize, j as usize));
    } else {
        lemma_pair_row_contains(i, (upto - 1) as nat, j);
        let k = choose|k: int| 0 <= k < before.len() && before[k] == (i as usize, j as usize);
        assert(pair_row(i, upto)[k] == (i as usize, j as usize));
    }
}

proof fn lemma_pairs_upto_members(n: nat, rows: nat)
    requires
        n <= usize::MAX + 1,
        rows <= n,
    ensures
        forall|k: int|
            0 <= k < pairs_upto(n, rows).len() ==> {
                let p = #[trigger] pairs_upto(n, rows)[k];
                p.0 < rows && p.1 < n && p.0 != p.1
            },
    decreases rows,
{
    if rows > 0 {
        let r = (rows - 1) as nat;
        lemma_pairs_upto_members(n, r);
        lemma_pair_row_members(r, n);
        let a = pairs_upto(n, r);
        let b = pair_row(r, n);
        assert forall|k: int| 0 <= k < pairs_upto(n, rows).len() implies {
            let p = #[trigger] pairs_upto(n, rows)[k];
            p.0 < rows && p.1 < n && p.0 != p.1
        } by {
            if k < a.len() {
                assert(pairs_upto(n, rows)[k] == a[k]);
            } else {
                assert(pairs_upto(n, rows)[k] == b[k - a.len()]);
            }
        }
    }
}

proof fn lemma_pairs_upto_contains(n: nat, rows: nat, i: nat, j: nat)
    requires
        n <= usize::MAX + 1,
        rows <= n,
        i < rows,
        j < n,
        i != j,
    ensures
        pairs_upto(n, rows).contains((i as usize, j as usize)),
    decreases rows,
{
    let r = (rows - 1) as nat;
    let a = pairs_upto(n, r);
    let b = pair_row(r, n);
    if i == r {
        lemma_pair_row_contains(r, n, j);
        let k = choose|k: int| 0 <= k < b.len() && b[k] == (i as usize, j as usize);
        assert(pairs_upto(n, rows)[a.len() + k] == (i as usize, j as usize));
    } else {
        lemma_pairs_upto_contains(n, r, i, j);
        let k = choose|k: int| 0 <= k < a.len() && a[k] == (i as usize, j as usize);
        assert(pairs_upto(n, rows)[k] == (i as usize, j as usize));
    }
}

/// No particle interacts with itself: every pair of the interaction order holds
/// two distinct indices of the grid.
pub proof fn lemma_no_self_interaction(n: nat)
    requires
        n <= usize::MAX + 1,
    ensures
        forall|k: int|
            0 <= k < interaction_order(n).len() ==> {
                let p = #[trigger] interaction_order(n)[k];
                p.0 != p.1 && p.0 < n && p.1 < n
            },
{
    lemma_pairs_upto_members(n, n);
}

/// Every ordered pair of distinct particles is visited: both directions of each
/// pair contribute, each to the force of its first particle.
pub proof fn lemma_every_pair_interacts(n: nat, i: nat, j: nat)
    requires
        n <= usize::MAX + 1,
        i < n,
        j < n,
        i != j,
    ensures
        interaction_order(n).contains((i as usize, j as usize)),
        interaction_order(n).contains((j as usize, i as usize)),
{
    lemma_pairs_upto_contains(n, n, i, j);
    lemma_pairs_upto_contains(n, n, j, i);
}

/// An empty grid or a grid of one particle has no interaction at all, so a
/// force recomputation leaves the forces as the clearing phase set them.
pub proof fn lemma_no_interaction_below_two(n: nat)
    requires
        n <= 1,
    ensures
        interaction_order(n).len() == 0,
{
    if n == 1 {
        assert(pair_row(0, 0).len() == 0);
        assert(pair_row(0, 1).len() == 0);
        assert(pairs_upto(1, 0).len() == 0);
    }
}

/// The order in which pairwise contributions are accumulated into the forces of
/// a grid of `n` particles: `(i, j)` adds the pull of particle `j` to the force
/// of particle `i`.
pub fn interaction_pairs(n: usize) -> (r: Vec<(usize, usize)>)
    ensures
        r@ == interaction_order(n as nat),
{
    let mut r: Vec<(usize, usize)> = Vec::new();
    for i in 0..n
        invariant
            r@ == pairs_upto(n as nat, i as nat),
    {
        let ghost start = r@;
        for j in 0..n
            invariant
                r@ == start + pair_row(i as nat, j as nat),
        {
            if i != j {
                r.push((i, j));
            }
            assert(r@ =~= start + pair_row(i as nat, (j + 1) as nat));
        }
    }
    r
}

} // verus!
