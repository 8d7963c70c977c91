//! Which softness coefficients a contact uses, and when the coefficients
//! have to be computed anew.

use crate::body::RigidBodyKind;
use crate::scalar::ScalarBits;
use vstd::prelude::*;

verus! {

/// Which of the two sets of softness coefficients a contact uses.
#[derive(Clone, Copy, Debug, PartialEq, Eq, Structural)]
pub enum SoftnessKind {
    /// Both bodies are dynamic.
    Dynamic,
    /// At least one body is static or kinematic: the contact is stiffer.
    NonDynamic,
}

/// The softness of a contact between bodies of the given kinds: the
/// dynamic one only where both bodies are dynamic.
pub open spec fn softness_for(kind1: RigidBodyKind, kind2: RigidBodyKind) -> SoftnessKind {
    if kind1 == RigidBodyKind::Dynamic && kind2 == RigidBodyKind::Dynamic {
        SoftnessKind::Dynamic
    } else {
        SoftnessKind::NonDynamic
    }
}

/// The softness of a contact between bodies of the given kinds.
pub fn softness_kind(kind1: RigidBodyKind, kind2: RigidBodyKind) -> (kind: SoftnessKind)
    ensures
        kind == softness_for(kind1, kind2),
{
    if kind1.is_dynamic() && kind2.is_dynamic() {
        SoftnessKind::Dynamic
    } else {
        SoftnessKind::NonDynamic
    }
}

/// The coefficients of a soft constraint.
#[derive(Clone, Copy, Debug, PartialEq, Eq, Structural)]
pub struct SoftnessCoefficients {
    /// How much of the position error is turned into bias velocity.
    pub bias_coefficient: ScalarBits,
    /// How much of the accumulated impulse the soft subtraction takes back.
    pub mass_coefficient: ScalarBits,
    /// By how much the effective mass is scaled.
    pub impulse_scale: ScalarBits,
}

/// The softness coefficients of contacts: one set for contacts between
/// dynamic bodies, one for contacts with a static or kinematic body.
#[derive(Clone, Copy, Debug, PartialEq, Eq, Structural)]
pub struct ContactSoftnessCoefficients {
    /// The coefficients of contacts between two dynamic bodies.
    pub dynamic: SoftnessCoefficients,
    /// The coefficients of contacts with a static or kinematic body.
    pub non_dynamic: SoftnessCoefficients,
}

impl ContactSoftnessCoefficients {
    /// The coefficients of the given kind.
    pub open spec fn of(&self, kind: SoftnessKind) -> SoftnessCoefficients {
        match kind {
            SoftnessKind::Dynamic => self.dynamic,
            SoftnessKind::NonDynamic => self.non_dynamic,
        }
    }

    /// The coefficients of the given kind.
    pub fn select(&self, kind: SoftnessKind) -> (coefficients: SoftnessCoefficients)
        ensures
            coefficients == self.of(kind),
    {
        match kind {
            SoftnessKind::Dynamic => self.dynamic,
            SoftnessKind::NonDynamic => self.non_dynamic,
        }
    }

    /// The coefficients of a contact between bodies of the given kinds.
    pub fn for_bodies(&self, kind1: RigidBodyKind, kind2: RigidBodyKind) -> (coefficients:
        SoftnessCoefficients)
        ensures
            coefficients == self.of(softness_for(kind1, kind2)),
    {
        self.select(softness_kind(kind1, kind2))
    }
}

/// What the softness coefficients were computed from, and whether each has
/// changed since.
#[derive(Clone, Copy, Debug, PartialEq, Eq, Structural)]
pub struct SoftnessInputs {
    /// The solver configuration has changed.
    pub config_changed: bool,
    /// The time step of the physics has changed.
    pub physics_time_changed: bool,
    /// The time step of a substep has changed.
    pub substep_time_changed: bool,
}

impl SoftnessInputs {
    /// The coefficients are stale as soon as one of their inputs has
    /// changed.
    pub open spec fn stale(&self) -> bool {
        self.config_changed || self.physics_time_changed || self.substep_time_changed
    }

    /// Whether the coefficients have to be computed anew.
    pub fn needs_update(&self) -> (r: bool)
        ensures
            r == self.stale(),
    {
        self.config_changed || self.physics_time_changed || self.substep_time_changed
    }
}

/// A contact has the dynamic softness exactly when neither body is static
/// or kinematic; which body comes first makes no difference.
pub proof fn law_softness_by_kinds(kind1: RigidBodyKind, kind2: RigidBodyKind)
    ensures
        softness_for(kind1, kind2) == softness_for(kind2, kind1),
        (softness_for(kind1, kind2) == SoftnessKind::Dynamic) == (kind1 == RigidBodyKind::Dynamic
            && kind2 == RigidBodyKind::Dynamic),
{
}

} // verus!
