//! What a solve may write back to a body.
//!
//! The numeric kernel works on copies and proposes new values; the rules
//! here decide, component by component, which of them reach the body. A
//! body that a solve may not move keeps what it had, bit for bit, whatever
//! the kernel proposed.

use crate::body::Axis;
use crate::body::LockedAxes;
use crate::body::SolverBodyFlags;
use crate::body::RigidBodyKind;
use crate::contact::contact_bodies;
use crate::contact::ContactBodies;
use crate::contact::Record;
use crate::contact::Side;
use crate::joint::joint_correction_rule;
use crate::joint::joint_damping_rule;
use crate::joint::JointBody;
use crate::joint::JointCorrection;
use crate::joint::JointDamping;
use crate::scalar::ScalarBits;
use vstd::prelude::*;

verus! {

/// A vector of three scalars.
#[derive(Clone, Copy, Debug, PartialEq, Eq, Structural)]
pub struct Vector3 {
    pub x: ScalarBits,
    pub y: ScalarBits,
    pub z: ScalarBits,
}

impl Vector3 {
    /// The component along `axis`.
    pub open spec fn at(&self, axis: Axis) -> ScalarBits {
        match axis {
            Axis::X => self.x,
            Axis::Y => self.y,
            Axis::Z => self.z,
        }
    }

    /// The component along `axis`.
    pub fn get(&self, axis: Axis) -> (component: ScalarBits)
        ensures
            component == self.at(axis),
    {
        match axis {
            Axis::X => self.x,
            Axis::Y => self.y,
            Axis::Z => self.z,
        }
    }
}

/// A rotation as the four scalars of a quaternion.
#[derive(Clone, Copy, Debug, PartialEq, Eq, Structural)]
pub struct Rotation {
    pub x: ScalarBits,
    pub y: ScalarBits,
    pub z: ScalarBits,
    pub w: ScalarBits,
}

/// The velocities of a solver body, in the world frame.
#[derive(Clone, Copy, Debug, PartialEq, Eq, Structural)]
pub struct BodyVelocity {
    pub linear: Vector3,
    pub angular: Vector3,
}

/// How far a solver body has moved and turned since the start of the step.
#[derive(Clone, Copy, Debug, PartialEq, Eq, Structural)]
pub struct BodyDeltas {
    pub position: Vector3,
    pub rotation: Rotation,
}

/// The velocities of a body after a solve: a component is taken from
/// `proposed` where its part of the velocity is open to the solve and its
/// axis is not locked, and stays as in `before` otherwise.
pub open spec fn committed_velocity(
    before: BodyVelocity,
    proposed: BodyVelocity,
    linear_open: bool,
    angular_open: bool,
    locked: LockedAxes,
) -> BodyVelocity {
    BodyVelocity {
        linear: Vector3 {
            x: if linear_open && !locked.translation_locked(Axis::X) {
                proposed.linear.x
            } else {
                before.linear.x
            },
            y: if linear_open && !locked.translation_locked(Axis::Y) {
                proposed.linear.y
            } else {
                before.linear.y
            },
            z: if linear_open && !locked.translation_locked(Axis::Z) {
                proposed.linear.z
            } else {
                before.linear.z
            },
        },
        angular: Vector3 {
            x: if angular_open && !locked.rotation_locked(Axis::X) {
                proposed.angular.x
            } else {
                before.angular.x
            },
            y: if angular_open && !locked.rotation_locked(Axis::Y) {
                proposed.angular.y
            } else {
                before.angular.y
            },
            z: if angular_open && !locked.rotation_locked(Axis::Z) {
                proposed.angular.z
            } else {
                before.angular.z
            },
        },
    }
}

/// The deltas of a body after a position solve: the position delta is
/// taken from `proposed` along every axis that is not locked and the
/// rotation delta as a whole, where the body is open to the solve;
/// everything stays as in `before` otherwise.
pub open spec fn committed_deltas(
    before: BodyDeltas,
    proposed: BodyDeltas,
    open: bool,
    locked: LockedAxes,
) -> BodyDeltas {
    BodyDeltas {
        position: Vector3 {
            x: if open && !locked.translation_locked(Axis::X) {
                proposed.position.x
            } else {
                before.position.x
            },
            y: if open && !locked.translation_locked(Axis::Y) {
                proposed.position.y
            } else {
                before.position.y
            },
            z: if open && !locked.translation_locked(Axis::Z) {
                proposed.position.z
            } else {
                before.position.z
            },
        },
        rotation: if open {
            proposed.rotation
        } else {
            before.rotation
        },
    }
}

/// Takes from `proposed` the components that are open, and from `before`
/// the others.
fn merge(before: Vector3, proposed: Vector3, open_x: bool, open_y: bool, open_z: bool) -> (merged:
    Vector3)
    ensures
        merged.x == if open_x {
            proposed.x
        } else {
            before.x
        },
        merged.y == if open_y {
            proposed.y
        } else {
            before.y
        },
        merged.z == if open_z {
            proposed.z
        } else {
            before.z
        },
{
    Vector3 {
        x: if open_x {
            proposed.x
        } else {
            before.x
        },
        y: if open_y {
            proposed.y
        } else {
            before.y
        },
        z: if open_z {
            proposed.z
        } else {
            before.z
        },
    }
}

/// Decides what of the velocities that a kernel proposes reaches the body.
pub fn commit_velocity(
    before: BodyVelocity,
    proposed: BodyVelocity,
    linear_open: bool,
    angular_open: bool,
    locked: LockedAxes,
) -> (after: BodyVelocity)
    ensures
        after == committed_velocity(before, proposed, linear_open, angular_open, locked),
{
    BodyVelocity {
        linear: merge(
            before.linear,
            proposed.linear,
            linear_open && !locked.is_translation_locked(Axis::X),
            linear_open && !locked.is_translation_locked(Axis::Y),
            linear_open && !locked.is_translation_locked(Axis::Z),
        ),
        angular: merge(
            before.angular,
            proposed.angular,
            angular_open && !locked.is_rotation_locked(Axis::X),
            angular_open && !locked.is_rotation_locked(Axis::Y),
            angular_open && !locked.is_rotation_locked(Axis::Z),
        ),
    }
}

/// Decides what of the deltas that a position solve proposes reaches the
/// body.
pub fn commit_deltas(before: BodyDeltas, proposed: BodyDeltas, open: bool, locked: LockedAxes) -> (after:
    BodyDeltas)
    ensures
        after == committed_deltas(before, proposed, open, locked),
{
    BodyDeltas {
        position: merge(
            before.position,
            proposed.position,
            open && !locked.is_translation_locked(Axis::X),
            open && !locked.is_translation_locked(Axis::Y),
            open && !locked.is_translation_locked(Axis::Z),
        ),
        rotation: if open {
            proposed.rotation
        } else {
            before.rotation
        },
    }
}

/// The part of the velocities of a body that a projection derives from
/// what the joints did to its deltas.
#[derive(Clone, Copy, Debug, PartialEq, Eq, Structural)]
pub enum VelocityPart {
    /// The linear velocity, from the position delta.
    Linear,
    /// The angular velocity, from the rotation delta.
    Angular,
}

/// Decides what reaches a body of the velocities that the projection of
/// `part` proposes for it: the part in question, along or about every axis
/// that is not locked, where the body is not kinematic; the other part and
/// a kinematic body stay as they were.
pub fn commit_projection(
    flags: SolverBodyFlags,
    part: VelocityPart,
    before: BodyVelocity,
    proposed: BodyVelocity,
) -> (after: BodyVelocity)
    ensures
        after == committed_velocity(
            before,
            proposed,
            part == VelocityPart::Linear && !flags.kinematic(),
            part == VelocityPart::Angular && !flags.kinematic(),
            flags.locked(),
        ),
{
    let open = !flags.is_kinematic();
    let (linear_open, angular_open) = match part {
        VelocityPart::Linear => (open, false),
        VelocityPart::Angular => (false, open),
    };
    commit_velocity(before, proposed, linear_open, angular_open, flags.locked_axes())
}

impl ContactBodies {
    /// Whether a contact pass may move the body on `side`: it has a solver
    /// body of its own, is solved with its own inertia, and is not
    /// kinematic.
    pub open spec fn movable(&self, side: Side, flags: SolverBodyFlags) -> bool {
        match side {
            Side::First => self.body1 == Record::Own && self.inertia1 == Record::Own
                && !flags.kinematic(),
            Side::Second => self.body2 == Record::Own && self.inertia2 == Record::Own
                && !flags.kinematic(),
        }
    }

    /// Whether a contact pass may move the body on `side`, whose flags are
    /// `flags`.
    pub fn is_movable(&self, side: Side, flags: SolverBodyFlags) -> (r: bool)
        ensures
            r == self.movable(side, flags),
    {
        let own = match side {
            Side::First => match (self.body1, self.inertia1) {
                (Record::Own, Record::Own) => true,
                _ => false,
            },
            Side::Second => match (self.body2, self.inertia2) {
                (Record::Own, Record::Own) => true,
                _ => false,
            },
        };
        own && !flags.is_kinematic()
    }

    /// What a contact pass writes back to the body on `side`, given the
    /// velocities that the kernel proposes for it.
    pub fn commit(
        &self,
        side: Side,
        flags: SolverBodyFlags,
        before: BodyVelocity,
        proposed: BodyVelocity,
    ) -> (after: BodyVelocity)
        ensures
            after == committed_velocity(
                before,
                proposed,
                self.movable(side, flags),
                self.movable(side, flags),
                flags.locked(),
            ),
    {
        let open = self.is_movable(side, flags);
        commit_velocity(before, proposed, open, open, flags.locked_axes())
    }
}

impl JointCorrection {
    /// Whether the position solve moves the body on `side`.
    pub open spec fn moves(&self, side: Side) -> bool {
        match side {
            Side::First => self.body1,
            Side::Second => self.body2,
        }
    }

    /// What the position solve of a joint writes back to the body on
    /// `side`, given the deltas that the kernel proposes for it.
    pub fn commit(&self, side: Side, locked: LockedAxes, before: BodyDeltas, proposed: BodyDeltas) -> (after:
        BodyDeltas)
        ensures
            after == committed_deltas(before, proposed, self.moves(side), locked),
    {
        let open = match side {
            Side::First => self.body1,
            Side::Second => self.body2,
        };
        commit_deltas(before, proposed, open, locked)
    }
}

impl JointDamping {
    /// Whether the damping changes the linear velocity of the body on
    /// `side`.
    pub open spec fn linear(&self, side: Side) -> bool {
        match side {
            Side::First => self.linear1,
            Side::Second => self.linear2,
        }
    }

    /// Whether the damping changes the angular velocity of the body on
    /// `side`.
    pub open spec fn angular(&self, side: Side) -> bool {
        match side {
            Side::First => self.angular1,
            Side::Second => self.angular2,
        }
    }

    /// What the damping of a joint writes back to the body on `side`,
    /// given the velocities that the kernel proposes for it.
    pub fn commit(
        &self,
        side: Side,
        locked: LockedAxes,
        before: BodyVelocity,
        proposed: BodyVelocity,
    ) -> (after: BodyVelocity)
        ensures
            after == committed_velocity(
                before,
                proposed,
                self.linear(side),
                self.angular(side),
                locked,
            ),
    {
        let (linear_open, angular_open) = match side {
            Side::First => (self.linear1, self.angular1),
            Side::Second => (self.linear2, self.angular2),
        };
        commit_velocity(before, proposed, linear_open, angular_open, locked)
    }
}

/// What a contact pass writes back to a body that is not dynamic is what
/// the body had, bit for bit, whatever the kernel proposes: so for a
/// kinematic body, and so for a body without a solver body.
pub proof fn law_contact_spares_non_dynamic(
    found1: bool,
    found2: bool,
    relative_dominance: int,
    side: Side,
    flags: SolverBodyFlags,
    before: BodyVelocity,
    proposed: BodyVelocity,
)
    requires
        flags.kinematic() || (side == Side::First && !found1) || (side == Side::Second && !found2),
    ensures
        !contact_bodies(found1, found2, relative_dominance).movable(side, flags),
        committed_velocity(
            before,
            proposed,
            contact_bodies(found1, found2, relative_dominance).movable(side, flags),
            contact_bodies(found1, found2, relative_dominance).movable(side, flags),
            flags.locked(),
        ) == before,
{
}

/// Dominance: what a contact pass writes back to the body that relative
/// dominance favours is what the body had, bit for bit, whatever the
/// kernel proposes: so for the first body where relative dominance is
/// above zero, and for the second where it is below.
pub proof fn law_contact_spares_dominant_body(
    found1: bool,
    found2: bool,
    relative_dominance: int,
    side: Side,
    flags: SolverBodyFlags,
    before: BodyVelocity,
    proposed: BodyVelocity,
)
    requires
        (side == Side::First && relative_dominance > 0) || (side == Side::Second
            && relative_dominance < 0),
    ensures
        committed_velocity(
            before,
            proposed,
            contact_bodies(found1, found2, relative_dominance).movable(side, flags),
            contact_bodies(found1, found2, relative_dominance).movable(side, flags),
            flags.locked(),
        ) == before,
{
}

/// A dynamic body with a solver body that dominance does not favour is
/// written back what the kernel proposes, along and about every axis that
/// is not locked.
pub proof fn law_contact_moves_free_body(
    found1: bool,
    found2: bool,
    relative_dominance: int,
    side: Side,
    flags: SolverBodyFlags,
    before: BodyVelocity,
    proposed: BodyVelocity,
    axis: Axis,
)
    requires
        !flags.kinematic(),
        side == Side::First ==> found1 && relative_dominance <= 0,
        side == Side::Second ==> found2 && relative_dominance >= 0,
    ensures
        contact_bodies(found1, found2, relative_dominance).movable(side, flags),
        !flags.locked().translation_locked(axis) ==> committed_velocity(
            before,
            proposed,
            true,
            true,
            flags.locked(),
        ).linear.at(axis) == proposed.linear.at(axis),
        !flags.locked().rotation_locked(axis) ==> committed_velocity(
            before,
            proposed,
            true,
            true,
            flags.locked(),
        ).angular.at(axis) == proposed.angular.at(axis),
{
}

/// Nothing that is written back changes the velocity along or about a
/// locked axis, nor the position delta along one.
pub proof fn law_locked_axis_is_kept(
    locked: LockedAxes,
    axis: Axis,
    linear_open: bool,
    angular_open: bool,
    before: BodyVelocity,
    proposed: BodyVelocity,
    deltas_before: BodyDeltas,
    deltas_proposed: BodyDeltas,
)
    ensures
        locked.translation_locked(axis) ==> committed_velocity(
            before,
            proposed,
            linear_open,
            angular_open,
            locked,
        ).linear.at(axis) == before.linear.at(axis),
        locked.rotation_locked(axis) ==> committed_velocity(
            before,
            proposed,
            linear_open,
            angular_open,
            locked,
        ).angular.at(axis) == before.angular.at(axis),
        locked.translation_locked(axis) ==> committed_deltas(
            deltas_before,
            deltas_proposed,
            linear_open,
            locked,
        ).position.at(axis) == deltas_before.position.at(axis),
{
}

/// What the position solve of a joint writes back to a body that is not
/// dynamic is what the body had, bit for bit.
pub proof fn law_joint_solve_spares_non_dynamic_body(
    kind1: RigidBodyKind,
    kind2: RigidBodyKind,
    side: Side,
    locked: LockedAxes,
    before: BodyDeltas,
    proposed: BodyDeltas,
)
    requires
        side == Side::First ==> kind1 != RigidBodyKind::Dynamic,
        side == Side::Second ==> kind2 != RigidBodyKind::Dynamic,
    ensures
        committed_deltas(
            before,
            proposed,
            joint_correction_rule(kind1, kind2).moves(side),
            locked,
        ) == before,
{
}

/// What the damping of a joint writes back to a body that is not dynamic
/// is what the body had, bit for bit; and so it is, between two dynamic
/// bodies, for the one with the higher dominance: its linear and its
/// angular velocity stay as they were, whatever the kernel proposes.
pub proof fn law_joint_damping_spares(
    body1: JointBody,
    body2: JointBody,
    locked: LockedAxes,
    before: BodyVelocity,
    proposed: BodyVelocity,
)
    ensures
        !body1.is_dynamic() ==> committed_velocity(
            before,
            proposed,
            joint_damping_rule(body1, body2).linear(Side::First),
            joint_damping_rule(body1, body2).angular(Side::First),
            locked,
        ) == before,
        !body2.is_dynamic() ==> committed_velocity(
            before,
            proposed,
            joint_damping_rule(body1, body2).linear(Side::Second),
            joint_damping_rule(body1, body2).angular(Side::Second),
            locked,
        ) == before,
        body2.is_dynamic() && body1.effective_dominance() > body2.effective_dominance()
            ==> committed_velocity(
            before,
            proposed,
            joint_damping_rule(body1, body2).linear(Side::First),
            joint_damping_rule(body1, body2).angular(Side::First),
            locked,
        ) == before,
        body1.is_dynamic() && body2.effective_dominance() > body1.effective_dominance()
            ==> committed_velocity(
            before,
            proposed,
            joint_damping_rule(body1, body2).linear(Side::Second),
            joint_damping_rule(body1, body2).angular(Side::Second),
            locked,
        ) == before,
{
}

/// The damping of a joint writes back what the kernel proposes, along and
/// about every axis that is not locked, to a dynamic body whose partner is
/// not dynamic or has at least its dominance.
pub proof fn law_joint_damping_reaches(
    body1: JointBody,
    body2: JointBody,
    locked: LockedAxes,
    before: BodyVelocity,
    proposed: BodyVelocity,
    axis: Axis,
)
    requires
        body1.is_dynamic(),
        !body2.is_dynamic() || body1.effective_dominance() <= body2.effective_dominance(),
    ensures
        !locked.translation_locked(axis) ==> committed_velocity(
            before,
            proposed,
            joint_damping_rule(body1, body2).linear(Side::First),
            joint_damping_rule(body1, body2).angular(Side::First),
            locked,
        ).linear.at(axis) == proposed.linear.at(axis),
        !locked.rotation_locked(axis) ==> committed_velocity(
            before,
            proposed,
            joint_damping_rule(body1, body2).linear(Side::First),
            joint_damping_rule(body1, body2).angular(Side::First),
            locked,
        ).angular.at(axis) == proposed.angular.at(axis),
{
}

/// What the projection of velocities writes back to a kinematic body is
/// what the body had, bit for bit; to any body it writes back the part
/// that it does not derive as that part was.
pub proof fn law_projection_spares(
    flags: SolverBodyFlags,
    before: BodyVelocity,
    proposed: BodyVelocity,
)
    ensures
        flags.kinematic() ==> committed_velocity(
            before,
            proposed,
            true && !flags.kinematic(),
            false,
            flags.locked(),
        ) == before,
        flags.kinematic() ==> committed_velocity(
            before,
            proposed,
            false,
            true && !flags.kinematic(),
            flags.locked(),
        ) == before,
        committed_velocity(
            before,
            proposed,
            !flags.kinematic(),
            false,
            flags.locked(),
        ).angular == before.angular,
        committed_velocity(
            before,
            proposed,
            false,
            !flags.kinematic(),
            flags.locked(),
        ).linear == before.linear,
{
}

} // verus!
