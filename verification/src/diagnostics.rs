//! How long the contact phases of the solver took.

use crate::schedule::Phase;
use vstd::prelude::*;

verus! {

/// The counters of the solver, in nanoseconds.
#[derive(Clone, Copy, Debug, PartialEq, Eq, Structural)]
pub struct SolverDiagnostics {
    /// Time spent on warm starts.
    pub warm_start: u64,
    /// Time spent on biased solves.
    pub solve_constraints: u64,
    /// Time spent on relaxation.
    pub relax_velocities: u64,
    /// Time spent on restitution.
    pub apply_restitution: u64,
    /// Time spent on storing impulses.
    pub store_impulses: u64,
}

/// The counters that the solver keeps.
#[derive(Clone, Copy, Debug, PartialEq, Eq, Structural)]
pub enum Timer {
    WarmStart,
    SolveConstraints,
    RelaxVelocities,
    ApplyRestitution,
    StoreImpulses,
}

/// The counter that the time of `phase` goes to, if it is timed.
pub open spec fn timer_of(phase: Phase) -> Option<Timer> {
    match phase {
        Phase::WarmStart => Some(Timer::WarmStart),
        Phase::SolveBiased => Some(Timer::SolveConstraints),
        Phase::Relax => Some(Timer::RelaxVelocities),
        Phase::Restitution => Some(Timer::ApplyRestitution),
        Phase::StoreContactImpulses => Some(Timer::StoreImpulses),
        _ => None,
    }
}

/// The counter that the time of `phase` goes to, if it is timed.
pub fn timer_for(phase: Phase) -> (timer: Option<Timer>)
    ensures
        timer == timer_of(phase),
{
    match phase {
        Phase::WarmStart => Some(Timer::WarmStart),
        Phase::SolveBiased => Some(Timer::SolveConstraints),
        Phase::Relax => Some(Timer::RelaxVelocities),
        Phase::Restitution => Some(Timer::ApplyRestitution),
        Phase::StoreContactImpulses => Some(Timer::StoreImpulses),
        _ => None,
    }
}

impl SolverDiagnostics {
    /// What the given counter has reached.
    pub open spec fn value(&self, timer: Timer) -> u64 {
        match timer {
            Timer::WarmStart => self.warm_start,
            Timer::SolveConstraints => self.solve_constraints,
            Timer::RelaxVelocities => self.relax_velocities,
            Timer::ApplyRestitution => self.apply_restitution,
            Timer::StoreImpulses => self.store_impulses,
        }
    }

    /// Whether `nanos` more fit into the counter of `phase`. They always fit
    /// for a phase that is not timed.
    pub open spec fn fits(&self, phase: Phase, nanos: u64) -> bool {
        match timer_of(phase) {
            Some(timer) => self.value(timer) + nanos <= u64::MAX,
            None => true,
        }
    }

    /// All counters at zero.
    pub fn new() -> (diagnostics: SolverDiagnostics)
        ensures
            forall|timer: Timer| diagnostics.value(timer) == 0,
    {
        SolverDiagnostics {
            warm_start: 0,
            solve_constraints: 0,
            relax_velocities: 0,
            apply_restitution: 0,
            store_impulses: 0,
        }
    }

    /// What the given counter has reached.
    pub fn get(&self, timer: Timer) -> (nanos: u64)
        ensures
            nanos == self.value(timer),
    {
        match timer {
            Timer::WarmStart => self.warm_start,
            Timer::SolveConstraints => self.solve_constraints,
            Timer::RelaxVelocities => self.relax_velocities,
            Timer::ApplyRestitution => self.apply_restitution,
            Timer::StoreImpulses => self.store_impulses,
        }
    }

    /// Whether `nanos` more fit into the counter of `phase`.
    pub fn can_record(&self, phase: Phase, nanos: u64) -> (r: bool)
        ensures
            r == self.fits(phase, nanos),
    {
        match timer_for(phase) {
            Some(timer) => nanos <= u64::MAX - self.get(timer),
            None => true,
        }
    }

    /// Adds the `nanos` that `phase` took to its counter. The time of a
    /// phase that is not timed is dropped.
    pub fn record(&mut self, phase: Phase, nanos: u64)
        requires
            old(self).fits(phase, nanos),
        ensures
            forall|timer: Timer|
                final(self).value(timer) == if timer_of(phase) == Some(timer) {
                    old(self).value(timer) + nanos
                } else {
                    old(self).value(timer) as int
                },
    {
        match timer_for(phase) {
            Some(Timer::WarmStart) => {
                self.warm_start = self.warm_start + nanos;
            },
            Some(Timer::SolveConstraints) => {
                self.solve_constraints = self.solve_constraints + nanos;
            },
            Some(Timer::RelaxVelocities) => {
                self.relax_velocities = self.relax_velocities + nanos;
            },
            Some(Timer::ApplyRestitution) => {
                self.apply_restitution = self.apply_restitution + nanos;
            },
            Some(Timer::StoreImpulses) => {
                self.store_impulses = self.store_impulses + nanos;
            },
            None => {},
        }
    }
}

} // verus!
