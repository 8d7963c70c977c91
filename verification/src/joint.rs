//! Which of the two bodies of a joint the position solve and the velocity
//! damping may change.

use crate::body::RigidBodyKind;
use vstd::prelude::*;

verus! {

/// What the damping rule reads of one body of a joint.
#[derive(Clone, Copy, Debug, PartialEq, Eq)]
pub struct JointBody {
    /// The kind of the rigid body.
    pub kind: RigidBodyKind,
    /// The dominance of the body, if it was given one.
    pub dominance: Option<i8>,
}

impl JointBody {
    /// Whether the body is dynamic.
    pub open spec fn is_dynamic(&self) -> bool {
        self.kind == RigidBodyKind::Dynamic
    }

    /// The dominance of the body; a body without one has dominance 0.
    pub open spec fn effective_dominance(&self) -> int {
        match self.dominance {
            Some(d) => d as int,
            None => 0,
        }
    }

    /// The dominance of the body; a body without one has dominance 0.
    pub fn dominance_or_default(&self) -> (d: i8)
        ensures
            d == self.effective_dominance(),
    {
        match self.dominance {
            Some(d) => d,
            None => 0,
        }
    }
}

/// Which bodies of a joint take the correction of the position solve.
#[derive(Clone, Copy, Debug, PartialEq, Eq, Structural)]
pub struct JointCorrection {
    /// Body 1 takes the correction, scaled by its inverse mass and
    /// inertia.
    pub body1: bool,
    /// Body 2 takes the correction with the opposite sign, scaled by its
    /// inverse mass and inertia.
    pub body2: bool,
}

impl JointCorrection {
    /// Whether the joint is solved at all: it is not where neither body
    /// would move.
    pub open spec fn solves(&self) -> bool {
        self.body1 || self.body2
    }

    /// Whether the joint is solved at all.
    pub fn is_solved(&self) -> (r: bool)
        ensures
            r == self.solves(),
    {
        self.body1 || self.body2
    }
}

/// The position solve moves the dynamic bodies of a joint and no other: a
/// body that is not dynamic counts with zero inverse mass and inertia.
pub open spec fn joint_correction_rule(kind1: RigidBodyKind, kind2: RigidBodyKind) -> JointCorrection {
    JointCorrection {
        body1: kind1 == RigidBodyKind::Dynamic,
        body2: kind2 == RigidBodyKind::Dynamic,
    }
}

/// Decides which bodies of a joint the position solve moves.
pub fn joint_correction(kind1: RigidBodyKind, kind2: RigidBodyKind) -> (correction: JointCorrection)
    ensures
        correction == joint_correction_rule(kind1, kind2),
{
    JointCorrection { body1: kind1.is_dynamic(), body2: kind2.is_dynamic() }
}

/// The position solve of a joint never moves a body that is not dynamic,
/// and a joint between two such bodies is not solved.
pub proof fn law_joint_solve_spares_non_dynamic(kind1: RigidBodyKind, kind2: RigidBodyKind)
    ensures
        kind1 != RigidBodyKind::Dynamic ==> !joint_correction_rule(kind1, kind2).body1,
        kind2 != RigidBodyKind::Dynamic ==> !joint_correction_rule(kind1, kind2).body2,
        joint_correction_rule(kind1, kind2).solves() == (kind1 == RigidBodyKind::Dynamic || kind2
            == RigidBodyKind::Dynamic),
{
}

/// What the damping of one joint does to its two bodies.
#[derive(Clone, Copy, Debug, PartialEq, Eq, Structural)]
pub struct JointDamping {
    /// Body 1 takes the angular correction.
    pub angular1: bool,
    /// Body 2 takes the angular correction, with the opposite sign.
    pub angular2: bool,
    /// The inverse mass of body 1 counts toward the shared weight; else it
    /// counts as zero.
    pub weighted1: bool,
    /// The inverse mass of body 2 counts toward the shared weight; else it
    /// counts as zero.
    pub weighted2: bool,
    /// Body 1 takes the linear correction.
    pub linear1: bool,
    /// Body 2 takes the linear correction, with the opposite sign.
    pub linear2: bool,
}

/// Whether the damping of a joint may change the velocities of `body`,
/// jointed to `other`: it may where `body` is dynamic and `other` is not,
/// or is dynamic with at least the dominance of `body`. A body is not
/// pushed by one of lower dominance.
pub open spec fn damping_reaches(body: JointBody, other: JointBody) -> bool {
    body.is_dynamic() && (!other.is_dynamic() || body.effective_dominance()
        <= other.effective_dominance())
}

/// The damping rule: only a dynamic body is changed or weighs in, and of two
/// dynamic bodies the one with the higher dominance is not pushed, neither
/// in its linear nor in its angular velocity.
pub open spec fn joint_damping_rule(body1: JointBody, body2: JointBody) -> JointDamping {
    JointDamping {
        angular1: damping_reaches(body1, body2),
        angular2: damping_reaches(body2, body1),
        weighted1: body1.is_dynamic(),
        weighted2: body2.is_dynamic(),
        linear1: damping_reaches(body1, body2),
        linear2: damping_reaches(body2, body1),
    }
}

/// Decides what the velocity damping of a joint between `body1` and `body2`
/// may change.
///
/// The caller computes the corrections: the angular one from the difference
/// of the angular velocities, the linear one from the difference of the
/// linear velocities divided by the shared weight, and skips the linear part
/// when that weight is too small to divide by.
pub fn joint_damping(body1: JointBody, body2: JointBody) -> (plan: JointDamping)
    ensures
        plan == joint_damping_rule(body1, body2),
{
    let dynamic1 = body1.kind.is_dynamic();
    let dynamic2 = body2.kind.is_dynamic();
    let dominance1 = body1.dominance_or_default();
    let dominance2 = body2.dominance_or_default();
    let reaches1 = dynamic1 && (!dynamic2 || dominance1 <= dominance2);
    let reaches2 = dynamic2 && (!dynamic1 || dominance2 <= dominance1);
    JointDamping {
        angular1: reaches1,
        angular2: reaches2,
        weighted1: dynamic1,
        weighted2: dynamic2,
        linear1: reaches1,
        linear2: reaches2,
    }
}

/// Joint damping never changes a body that is not dynamic, and such a body
/// adds nothing to the shared weight.
pub proof fn law_damping_spares_non_dynamic(body1: JointBody, body2: JointBody)
    ensures
        !body1.is_dynamic() ==> {
            let plan = joint_damping_rule(body1, body2);
            !plan.angular1 && !plan.linear1 && !plan.weighted1
        },
        !body2.is_dynamic() ==> {
            let plan = joint_damping_rule(body1, body2);
            !plan.angular2 && !plan.linear2 && !plan.weighted2
        },
{
}

/// Between two dynamic bodies, the one with the higher dominance is not
/// pushed by the other, neither in its linear nor in its angular velocity;
/// with equal dominance both are changed, and one of the two always is.
pub proof fn law_damping_respects_dominance(body1: JointBody, body2: JointBody)
    requires
        body1.is_dynamic(),
        body2.is_dynamic(),
    ensures
        joint_damping_rule(body1, body2).linear1 == (body1.effective_dominance()
            <= body2.effective_dominance()),
        joint_damping_rule(body1, body2).angular1 == (body1.effective_dominance()
            <= body2.effective_dominance()),
        joint_damping_rule(body1, body2).linear2 == (body2.effective_dominance()
            <= body1.effective_dominance()),
        joint_damping_rule(body1, body2).angular2 == (body2.effective_dominance()
            <= body1.effective_dominance()),
        joint_damping_rule(body1, body2).linear1 || joint_damping_rule(body1, body2).linear2,
        joint_damping_rule(body1, body2).angular1 || joint_damping_rule(body1, body2).angular2,
{
}

/// A dynamic body jointed to a body that is not dynamic takes the whole
/// correction, linear and angular, whatever the dominances.
pub proof fn law_damping_against_fixed_body(body1: JointBody, body2: JointBody)
    ensures
        body1.is_dynamic() && !body2.is_dynamic() ==> joint_damping_rule(body1, body2).linear1
            && joint_damping_rule(body1, body2).angular1,
        body2.is_dynamic() && !body1.is_dynamic() ==> joint_damping_rule(body1, body2).linear2
            && joint_damping_rule(body1, body2).angular2,
{
}

} // verus!
