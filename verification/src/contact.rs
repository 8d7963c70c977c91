//! Contact constraints, and which records each solver pass hands to the
//! numeric kernel.
//!
//! A pass over the constraints (warm start, biased solve, relaxation,
//! restitution) works on two bodies per constraint. A body without a solver
//! body is stood in for by a dummy at rest, and what the kernel does to the
//! dummy is thrown away; a body that relative dominance favours keeps its
//! solver body but is given the inertia of the dummy, which is zero.

use crate::body::RigidBodyKind;
use crate::body::SolverBodies;
use crate::scalar::ScalarBits;
use crate::scalar::ZERO;
use crate::softness::softness_for;
use crate::softness::softness_kind;
use crate::softness::SoftnessKind;
use vstd::prelude::*;

verus! {

/// The impulses that one contact point keeps from step to step.
#[derive(Clone, Copy, Debug, PartialEq, Eq, Structural)]
pub struct ContactImpulse {
    /// The impulse along the contact normal.
    pub normal: ScalarBits,
    /// The friction impulse along the first tangent.
    pub tangent_x: ScalarBits,
    /// The friction impulse along the second tangent.
    pub tangent_y: ScalarBits,
}

impl ContactImpulse {
    /// No impulse at all.
    pub open spec fn zero() -> ContactImpulse {
        ContactImpulse { normal: ZERO, tangent_x: ZERO, tangent_y: ZERO }
    }
}

/// The friction impulse of a contact point, along its two tangents.
#[derive(Clone, Copy, Debug, PartialEq, Eq, Structural)]
pub struct TangentImpulse {
    /// The impulse along the first tangent.
    pub x: ScalarBits,
    /// The impulse along the second tangent.
    pub y: ScalarBits,
}

/// The impulses that a constraint has accumulated at one contact point.
#[derive(Clone, Copy, Debug, PartialEq, Eq)]
pub struct ConstraintPoint {
    /// The accumulated impulse along the normal.
    pub normal_impulse: ScalarBits,
    /// The accumulated friction impulse, where the point has a friction
    /// part.
    pub tangent_impulse: Option<TangentImpulse>,
}

impl ConstraintPoint {
    /// What the point hands on to the next step: its normal impulse, and
    /// its friction impulse or zero where it has no friction part.
    pub open spec fn kept(&self) -> ContactImpulse {
        match self.tangent_impulse {
            Some(tangent) => ContactImpulse {
                normal: self.normal_impulse,
                tangent_x: tangent.x,
                tangent_y: tangent.y,
            },
            None => ContactImpulse {
                normal: self.normal_impulse,
                tangent_x: ZERO,
                tangent_y: ZERO,
            },
        }
    }

    /// What the point hands on to the next step.
    pub fn kept_impulse(&self) -> (impulse: ContactImpulse)
        ensures
            impulse == self.kept(),
    {
        match self.tangent_impulse {
            Some(tangent) => ContactImpulse {
                normal: self.normal_impulse,
                tangent_x: tangent.x,
                tangent_y: tangent.y,
            },
            None => ContactImpulse {
                normal: self.normal_impulse,
                tangent_x: ZERO,
                tangent_y: ZERO,
            },
        }
    }

    /// A point that starts a step from the impulses kept for it.
    pub fn warm(impulse: ContactImpulse, has_friction: bool) -> (point: ConstraintPoint)
        ensures
            point.normal_impulse == impulse.normal,
            has_friction ==> point.tangent_impulse == Some(
                TangentImpulse { x: impulse.tangent_x, y: impulse.tangent_y },
            ),
            !has_friction ==> point.tangent_impulse is None,
    {
        ConstraintPoint {
            normal_impulse: impulse.normal,
            tangent_impulse: if has_friction {
                Some(TangentImpulse { x: impulse.tangent_x, y: impulse.tangent_y })
            } else {
                None
            },
        }
    }
}

/// The dominance of a body; a body without one has dominance 0.
pub open spec fn dominance_of(dominance: Option<i8>) -> int {
    match dominance {
        Some(d) => d as int,
        None => 0,
    }
}

/// What a contact constraint reads of one of its bodies when it is made.
#[derive(Clone, Copy, Debug, PartialEq, Eq)]
pub struct ContactBody {
    /// The identity of the body.
    pub entity: u64,
    /// The kind of the body.
    pub kind: RigidBodyKind,
    /// The dominance of the body, if it was given one.
    pub dominance: Option<i8>,
}

/// The constraint of one contact manifold, as far as the order of the solve
/// and the bookkeeping of impulses read it.
#[derive(Clone, Debug, PartialEq, Eq)]
pub struct ContactConstraint {
    /// The first body.
    pub body1: u64,
    /// The second body.
    pub body2: u64,
    /// The collider of the first body.
    pub collider1: u64,
    /// The collider of the second body.
    pub collider2: u64,
    /// The place of the manifold among the manifolds of the collider pair.
    pub manifold_index: usize,
    /// The dominance of the first body minus that of the second.
    pub relative_dominance: i16,
    /// The softness coefficients that the contact uses.
    pub softness: SoftnessKind,
    /// Whether the contact bounces: its restitution coefficient is above
    /// zero.
    pub restitution: bool,
    /// The contact points, in the order of the points of the manifold.
    pub points: Vec<ConstraintPoint>,
}

/// Which record the numeric kernel is handed for a body.
#[derive(Clone, Copy, Debug, PartialEq, Eq, Structural)]
pub enum Record {
    /// The record of the body itself.
    Own,
    /// The shared dummy: a body at rest with zero inverse mass and zero
    /// inverse inertia, whose changes are thrown away.
    Dummy,
}

impl Record {
    /// The value that the record names: `own` for the record of the body
    /// itself, `dummy` for the shared dummy.
    pub fn pick<T>(self, own: T, dummy: T) -> (picked: T)
        ensures
            picked == match self {
                Record::Own => own,
                Record::Dummy => dummy,
            },
    {
        match self {
            Record::Own => own,
            Record::Dummy => dummy,
        }
    }
}

/// Which body of a constraint or joint is meant.
#[derive(Clone, Copy, Debug, PartialEq, Eq, Structural)]
pub enum Side {
    First,
    Second,
}

/// The records that a pass hands to the kernel for one constraint.
#[derive(Clone, Copy, Debug, PartialEq, Eq, Structural)]
pub struct ContactBodies {
    /// The velocity state of the first body.
    pub body1: Record,
    /// The inverse mass and inertia of the first body.
    pub inertia1: Record,
    /// The velocity state of the second body.
    pub body2: Record,
    /// The inverse mass and inertia of the second body.
    pub inertia2: Record,
}

/// The records for a constraint whose bodies were found or not among the
/// solver bodies.
///
/// A body that was not found is the dummy in both respects. A body that was
/// found keeps its velocity state; it keeps its inertia unless the relative
/// dominance is on its side, in which case it is solved as immovable.
pub open spec fn contact_bodies(
    found1: bool,
    found2: bool,
    relative_dominance: int,
) -> ContactBodies {
    ContactBodies {
        body1: if found1 {
            Record::Own
        } else {
            Record::Dummy
        },
        inertia1: if found1 && relative_dominance <= 0 {
            Record::Own
        } else {
            Record::Dummy
        },
        body2: if found2 {
            Record::Own
        } else {
            Record::Dummy
        },
        inertia2: if found2 && relative_dominance >= 0 {
            Record::Own
        } else {
            Record::Dummy
        },
    }
}

/// How often restitution is applied to a constraint with `points` contact
/// points: as often as configured where several points share the bounce,
/// once otherwise.
pub open spec fn restitution_iterations(points: nat, configured: usize) -> usize {
    if points > 1 {
        configured
    } else {
        1
    }
}

/// What the restitution pass does for one constraint that bounces.
#[derive(Clone, Copy, Debug, PartialEq, Eq, Structural)]
pub struct RestitutionSolve {
    /// The records handed to the kernel.
    pub bodies: ContactBodies,
    /// How many times the kernel is run on the constraint.
    pub iterations: usize,
}

impl ContactConstraint {
    /// A constraint has at least one contact point, and its two bodies are
    /// not the same.
    pub open spec fn wf(&self) -> bool {
        &&& self.points@.len() >= 1
        &&& self.body1 != self.body2
    }

    /// Whether the constraint has at least one contact point and two
    /// different bodies.
    pub fn is_well_formed(&self) -> (r: bool)
        ensures
            r == self.wf(),
    {
        self.points.len() >= 1 && self.body1 != self.body2
    }

    /// The constraint between `body1` and `body2` for the manifold at
    /// `manifold_index` of the pair of `collider1` and `collider2`.
    ///
    /// The relative dominance is that of `body1` minus that of `body2`; the
    /// softness is the dynamic one only where both are dynamic.
    pub fn new(
        body1: ContactBody,
        body2: ContactBody,
        collider1: u64,
        collider2: u64,
        manifold_index: usize,
        restitution: bool,
        points: Vec<ConstraintPoint>,
    ) -> (constraint: ContactConstraint)
        requires
            points@.len() >= 1,
            body1.entity != body2.entity,
        ensures
            constraint.wf(),
            constraint.body1 == body1.entity,
            constraint.body2 == body2.entity,
            constraint.collider1 == collider1,
            constraint.collider2 == collider2,
            constraint.manifold_index == manifold_index,
            constraint.relative_dominance == dominance_of(body1.dominance) - dominance_of(
                body2.dominance,
            ),
            constraint.softness == softness_for(body1.kind, body2.kind),
            constraint.restitution == restitution,
            constraint.points@ == points@,
    {
        let dominance1: i16 = match body1.dominance {
            Some(d) => d as i16,
            None => 0,
        };
        let dominance2: i16 = match body2.dominance {
            Some(d) => d as i16,
            None => 0,
        };
        let softness = softness_kind(body1.kind, body2.kind);
        ContactConstraint {
            body1: body1.entity,
            body2: body2.entity,
            collider1,
            collider2,
            manifold_index,
            relative_dominance: dominance1 - dominance2,
            softness,
            restitution,
            points,
        }
    }

    /// Whether the body on `side`, of the given kind and asleep or not,
    /// weighs in with a finite mass when the effective masses of the
    /// constraint are prepared: it does if it is dynamic and awake and
    /// relative dominance does not favour it. Any other body counts as
    /// infinitely heavy.
    pub open spec fn has_finite_mass(&self, side: Side, kind: RigidBodyKind, sleeping: bool) -> bool {
        &&& kind == RigidBodyKind::Dynamic
        &&& !sleeping
        &&& match side {
            Side::First => self.relative_dominance <= 0,
            Side::Second => self.relative_dominance >= 0,
        }
    }

    /// Whether the body on `side` weighs in with a finite mass when the
    /// effective masses of the constraint are prepared.
    pub fn counts_mass(&self, side: Side, kind: RigidBodyKind, sleeping: bool) -> (r: bool)
        ensures
            r == self.has_finite_mass(side, kind, sleeping),
    {
        kind.is_dynamic() && !sleeping && match side {
            Side::First => self.relative_dominance <= 0,
            Side::Second => self.relative_dominance >= 0,
        }
    }

    /// The records that a pass hands to the kernel for this constraint,
    /// given which bodies have a solver body.
    pub open spec fn bodies_among(&self, solver_bodies: Set<u64>) -> ContactBodies {
        contact_bodies(
            solver_bodies.contains(self.body1),
            solver_bodies.contains(self.body2),
            self.relative_dominance as int,
        )
    }

    /// What the restitution pass does for this constraint: nothing where
    /// the contact does not bounce.
    pub open spec fn restitution_among(
        &self,
        solver_bodies: Set<u64>,
        configured: usize,
    ) -> Option<RestitutionSolve> {
        if self.restitution {
            Some(
                RestitutionSolve {
                    bodies: self.bodies_among(solver_bodies),
                    iterations: restitution_iterations(self.points@.len(), configured),
                },
            )
        } else {
            None
        }
    }

    /// The records that a pass hands to the kernel for this constraint.
    pub fn resolve_bodies(&self, solver_bodies: &SolverBodies) -> (bodies: ContactBodies)
        ensures
            bodies == self.bodies_among(solver_bodies@),
    {
        let found1 = solver_bodies.contains(self.body1);
        let found2 = solver_bodies.contains(self.body2);
        ContactBodies {
            body1: if found1 {
                Record::Own
            } else {
                Record::Dummy
            },
            inertia1: if found1 && self.relative_dominance <= 0 {
                Record::Own
            } else {
                Record::Dummy
            },
            body2: if found2 {
                Record::Own
            } else {
                Record::Dummy
            },
            inertia2: if found2 && self.relative_dominance >= 0 {
                Record::Own
            } else {
                Record::Dummy
            },
        }
    }

    /// What the restitution pass does for this constraint, with
    /// `configured` iterations asked for contacts of several points.
    pub fn resolve_restitution(&self, solver_bodies: &SolverBodies, configured: usize) -> (solve:
        Option<RestitutionSolve>)
        ensures
            solve == self.restitution_among(solver_bodies@, configured),
    {
        if !self.restitution {
            return None;
        }
        let bodies = self.resolve_bodies(solver_bodies);
        let iterations: usize = if self.points.len() > 1 {
            configured
        } else {
            1
        };
        Some(RestitutionSolve { bodies, iterations })
    }
}

/// The contact constraints of a step, in the order in which they are
/// solved.
#[derive(Clone, Debug, PartialEq, Eq)]
pub struct ContactConstraints(pub Vec<ContactConstraint>);

impl ContactConstraints {
    /// Every constraint is well formed.
    pub open spec fn wf(&self) -> bool {
        forall|i: int| 0 <= i < self.0@.len() ==> (#[trigger] self.0@[i]).wf()
    }

    /// Whether every constraint is well formed.
    pub fn is_well_formed(&self) -> (r: bool)
        ensures
            r == self.wf(),
    {
        let mut i: usize = 0;
        while i < self.0.len()
            invariant
                i <= self.0@.len(),
                forall|j: int| 0 <= j < i ==> (#[trigger] self.0@[j]).wf(),
            decreases self.0@.len() - i,
        {
            if !self.0[i].is_well_formed() {
                return false;
            }
            i = i + 1;
        }
        true
    }

    /// What a warm start, a biased solve or a relaxation hands to the
    /// kernel: for each constraint, in order, the records of its bodies.
    pub fn plan_pass(&self, solver_bodies: &SolverBodies) -> (plan: Vec<ContactBodies>)
        requires
            self.wf(),
        ensures
            plan@.len() == self.0@.len(),
            forall|i: int|
                0 <= i < self.0@.len() ==> #[trigger] plan@[i] == self.0@[i].bodies_among(
                    solver_bodies@,
                ),
    {
        let mut plan: Vec<ContactBodies> = Vec::new();
        let mut i: usize = 0;
        while i < self.0.len()
            invariant
                i <= self.0@.len(),
                plan@.len() == i,
                forall|j: int|
                    0 <= j < i ==> #[trigger] plan@[j] == self.0@[j].bodies_among(solver_bodies@),
            decreases self.0@.len() - i,
        {
            let bodies = self.0[i].resolve_bodies(solver_bodies);
            plan.push(bodies);
            i = i + 1;
        }
        plan
    }

    /// What the restitution pass does: for each constraint, in order,
    /// nothing where the contact does not bounce, else the records of its
    /// bodies and the number of iterations.
    pub fn plan_restitution(&self, solver_bodies: &SolverBodies, configured: usize) -> (plan: Vec<
        Option<RestitutionSolve>,
    >)
        requires
            self.wf(),
        ensures
            plan@.len() == self.0@.len(),
            forall|i: int|
                0 <= i < self.0@.len() ==> #[trigger] plan@[i] == self.0@[i].restitution_among(
                    solver_bodies@,
                    configured,
                ),
    {
        let mut plan: Vec<Option<RestitutionSolve>> = Vec::new();
        let mut i: usize = 0;
        while i < self.0.len()
            invariant
                i <= self.0@.len(),
                plan@.len() == i,
                forall|j: int|
                    0 <= j < i ==> #[trigger] plan@[j] == self.0@[j].restitution_among(
                        solver_bodies@,
                        configured,
                    ),
            decreases self.0@.len() - i,
        {
            let solve = self.0[i].resolve_restitution(solver_bodies, configured);
            plan.push(solve);
            i = i + 1;
        }
        plan
    }
}

/// A body that relative dominance favours is solved with the inertia of
/// the dummy, whether or not it has a solver body; with no dominance either
/// way, each body that has a solver body is solved with its own inertia.
pub proof fn law_dominant_body_is_immovable(found1: bool, found2: bool, relative_dominance: int)
    ensures
        relative_dominance > 0 ==> contact_bodies(found1, found2, relative_dominance).inertia1
            == Record::Dummy,
        relative_dominance < 0 ==> contact_bodies(found1, found2, relative_dominance).inertia2
            == Record::Dummy,
        relative_dominance >= 0 && found2 ==> contact_bodies(
            found1,
            found2,
            relative_dominance,
        ).inertia2 == Record::Own,
        relative_dominance <= 0 && found1 ==> contact_bodies(
            found1,
            found2,
            relative_dominance,
        ).inertia1 == Record::Own,
{
}

/// A body without a solver body is stood in for by the dummy, in velocity
/// and in inertia: no pass reads or writes anything of it.
pub proof fn law_absent_body_is_dummy(found1: bool, found2: bool, relative_dominance: int)
    ensures
        !found1 ==> {
            let bodies = contact_bodies(found1, found2, relative_dominance);
            bodies.body1 == Record::Dummy && bodies.inertia1 == Record::Dummy
        },
        !found2 ==> {
            let bodies = contact_bodies(found1, found2, relative_dominance);
            bodies.body2 == Record::Dummy && bodies.inertia2 == Record::Dummy
        },
        found1 ==> contact_bodies(found1, found2, relative_dominance).body1 == Record::Own,
        found2 ==> contact_bodies(found1, found2, relative_dominance).body2 == Record::Own,
{
}

/// Of two bodies that both have a solver body, at least one is solved
/// with its own inertia: dominance takes the inertia of one side at most.
pub proof fn law_dominance_takes_one_side(found1: bool, found2: bool, relative_dominance: int)
    requires
        found1,
        found2,
    ensures
        contact_bodies(found1, found2, relative_dominance).inertia1 == Record::Own
            || contact_bodies(found1, found2, relative_dominance).inertia2 == Record::Own,
{
}

} // verus!
