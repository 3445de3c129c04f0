use crate::grid::Grid;
use vstd::prelude::*;

verus! {

/// A grid together with the fixed time step and the end time of its run.
pub struct Simulation<T> {
    pub grid: Grid<T>,
    pub delta_t: T,
    pub t_end: T,
}

/// The operations of a run. A run recomputes the forces once, then repeats a
/// velocity-Verlet step for as long as the current time is before the end time.
#[derive(Clone, Copy, Debug, PartialEq, Eq, Structural)]
pub enum Phase {
    /// Forces made consistent with the loaded positions, once before any step.
    InitialForces,
    /// Every force saved as the old force.
    StoreOldForces,
    /// Positions advanced with the current force.
    UpdatePositions,
    /// Forces recomputed at the new positions.
    UpdateForces,
    /// Velocities advanced with the mean of old and new force.
    UpdateVelocities,
    /// Current time advanced by one time step.
    AdvanceTime,
    /// The current time has reached the end time.
    Finished,
}

/// The operation that follows `done`. `before_end` is whether the current
/// time is still before the end time; it is consulted only after the initial
/// force computation and after the time has been advanced.
pub open spec fn phase_after(done: Phase, before_end: bool) -> Phase {
    match done {
        Phase::InitialForces | Phase::AdvanceTime => if before_end {
            Phase::StoreOldForces
        } else {
            Phase::Finished
        },
        Phase::StoreOldForces => Phase::UpdatePositions,
        Phase::UpdatePositions => Phase::UpdateForces,
        Phase::UpdateForces => Phase::UpdateVelocities,
        Phase::UpdateVelocities => Phase::AdvanceTime,
        Phase::Finished => Phase::Finished,
    }
}

/// The phase `k` operations after `start`, where `tests[i]` is the answer of
/// the time test at the `i`-th operation.
pub open spec fn phase_at(start: Phase, tests: Seq<bool>, k: nat) -> Phase
    decreases k,
{
    if k == 0 {
        start
    } else {
        let prev = phase_at(start, tests, (k - 1) as nat);
        phase_after(prev, tests[k - 1])
    }
}

/// The first operation of every run.
pub fn first_phase() -> (r: Phase)
    ensures
        r == Phase::InitialForces,
{
    Phase::InitialForces
}

/// The operation to perform after `done`, given whether the current time is
/// still before the end time.
pub fn next_phase(done: Phase, before_end: bool) -> (r: Phase)
    ensures
        r == phase_after(done, before_end),
{
    match done {
        Phase::InitialForces | Phase::AdvanceTime => {
            if before_end {
                Phase::StoreOldForces
            } else {
                Phase::Finished
            }
        },
        Phase::StoreOldForces => Phase::UpdatePositions,
        Phase::UpdatePositions => Phase::UpdateForces,
        Phase::UpdateForces => Phase::UpdateVelocities,
        Phase::UpdateVelocities => Phase::AdvanceTime,
        Phase::Finished => Phase::Finished,
    }
}

/// A run whose end time is already reached when it starts performs no step:
/// after the initial force computation it is finished, and it stays finished,
/// so the particles keep the state they were loaded with.
pub proof fn lemma_no_step_at_end(tests: Seq<bool>, k: nat)
    requires
        tests.len() >= 1,
        !tests[0],
        1 <= k,
    ensures
        phase_at(Phase::InitialForces, tests, k) == Phase::Finished,
    decreases k,
{
    if k > 1 {
        lemma_no_step_at_end(tests, (k - 1) as nat);
    } else {
        assert(phase_at(Phase::InitialForces, tests, 0) == Phase::InitialForces);
    }
}

/// Each step runs in velocity-Verlet order: from a point where the time test
/// passes, the next five operations save the old forces, advance positions,
/// recompute forces, advance velocities and advance the time, whatever the
/// time test would say in between.
pub proof fn lemma_step_order(start: Phase, tests: Seq<bool>)
    requires
        start == Phase::InitialForces || start == Phase::AdvanceTime,
        tests.len() >= 5,
        tests[0],
    ensures
        phase_at(start, tests, 1) == Phase::StoreOldForces,
        phase_at(start, tests, 2) == Phase::UpdatePositions,
        phase_at(start, tests, 3) == Phase::UpdateForces,
        phase_at(start, tests, 4) == Phase::UpdateVelocities,
        phase_at(start, tests, 5) == Phase::AdvanceTime,
{
    reveal_with_fuel(phase_at, 6);
}

} // verus!
