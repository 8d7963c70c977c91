//! Rigid-body kinds and the rule that decides which bodies the solver tracks.

use std::collections::HashSet;
use vstd::prelude::*;

verus! {

broadcast use vstd::std_specs::hash::group_hash_axioms;

/// How a rigid body takes part in the simulation.
#[derive(Clone, Copy, Debug, PartialEq, Eq, Structural)]
pub enum RigidBodyKind {
    /// Never moves.
    Static,
    /// Moves along a user-given velocity and is not pushed by anything.
    Kinematic,
    /// Moved by forces, contacts and joints.
    Dynamic,
}

impl RigidBodyKind {
    /// Whether the solver may change the velocity of a body of this kind.
    pub fn is_dynamic(&self) -> (r: bool)
        ensures
            r == (*self == RigidBodyKind::Dynamic),
    {
        match self {
            RigidBodyKind::Dynamic => true,
            _ => false,
        }
    }
}

/// One of the three axes of space.
#[derive(Clone, Copy, Debug, PartialEq, Eq, Structural)]
pub enum Axis {
    X,
    Y,
    Z,
}

/// The bit that locks translation along `axis`.
pub open spec fn translation_bit(axis: Axis) -> u8 {
    match axis {
        Axis::X => 0b100_000,
        Axis::Y => 0b010_000,
        Axis::Z => 0b001_000,
    }
}

/// The bit that locks rotation about `axis`.
pub open spec fn rotation_bit(axis: Axis) -> u8 {
    match axis {
        Axis::X => 0b000_100,
        Axis::Y => 0b000_010,
        Axis::Z => 0b000_001,
    }
}

/// The axes along which a body may not translate and about which it may
/// not rotate, as a mask of six bits.
#[derive(Clone, Copy, Debug, PartialEq, Eq, Structural)]
pub struct LockedAxes {
    bits: u8,
}

impl LockedAxes {
    /// The mask.
    pub closed spec fn bits(&self) -> u8 {
        self.bits
    }

    /// Whether translation along `axis` is locked.
    pub open spec fn translation_locked(&self, axis: Axis) -> bool {
        self.bits() & translation_bit(axis) != 0
    }

    /// Whether rotation about `axis` is locked.
    pub open spec fn rotation_locked(&self, axis: Axis) -> bool {
        self.bits() & rotation_bit(axis) != 0
    }

    /// Whether the inverse mass keeps its share along `axis`: it does
    /// unless translation along the axis is locked.
    pub open spec fn keeps_inverse_mass(&self, axis: Axis) -> bool {
        !self.translation_locked(axis)
    }

    /// Whether the world-frame inverse inertia keeps its entry at `row` and
    /// `column`: it does unless rotation about either axis is locked.
    pub open spec fn keeps_inertia_entry(&self, row: Axis, column: Axis) -> bool {
        !self.rotation_locked(row) && !self.rotation_locked(column)
    }

    /// Nothing is locked.
    pub fn new() -> (axes: LockedAxes)
        ensures
            axes.bits() == 0,
            forall|axis: Axis| !axes.translation_locked(axis) && !axes.rotation_locked(axis),
    {
        proof {
            assert(forall|b: u8| 0u8 & b == 0) by (bit_vector);
        }
        LockedAxes { bits: 0 }
    }

    /// The locks that the six low bits of `bits` stand for.
    pub fn from_bits(bits: u8) -> (axes: LockedAxes)
        ensures
            axes.bits() == bits & 0b111_111,
            forall|axis: Axis|
                axes.translation_locked(axis) == (bits & translation_bit(axis) != 0),
            forall|axis: Axis| axes.rotation_locked(axis) == (bits & rotation_bit(axis) != 0),
    {
        proof {
            assert(forall|x: u8, b: u8| b & 0b111_111 == b ==> (x & 0b111_111) & b == x & b)
                by (bit_vector);
            assert(forall|axis: Axis|
                #![auto]
                translation_bit(axis) & 0b111_111 == translation_bit(axis)
                    && rotation_bit(axis) & 0b111_111 == rotation_bit(axis)) by {
                assert(0b100_000u8 & 0b111_111 == 0b100_000 && 0b010_000u8 & 0b111_111 == 0b010_000
                    && 0b001_000u8 & 0b111_111 == 0b001_000 && 0b000_100u8 & 0b111_111 == 0b000_100
                    && 0b000_010u8 & 0b111_111 == 0b000_010 && 0b000_001u8 & 0b111_111
                    == 0b000_001) by (bit_vector);
            }
        }
        LockedAxes { bits: bits & 0b111_111 }
    }

    /// The mask.
    pub fn to_bits(&self) -> (bits: u8)
        ensures
            bits == self.bits(),
    {
        self.bits
    }

    /// These locks and, on top, translation along `axis`.
    pub fn lock_translation(self, axis: Axis) -> (axes: LockedAxes)
        ensures
            axes.bits() == self.bits() | translation_bit(axis),
            forall|other: Axis|
                axes.translation_locked(other) == (other == axis || self.translation_locked(other)),
            forall|other: Axis| axes.rotation_locked(other) == self.rotation_locked(other),
    {
        let bit: u8 = match axis {
            Axis::X => 0b100_000,
            Axis::Y => 0b010_000,
            Axis::Z => 0b001_000,
        };
        proof {
            lemma_lock_bits(self.bits, bit);
        }
        LockedAxes { bits: self.bits | bit }
    }

    /// These locks and, on top, rotation about `axis`.
    pub fn lock_rotation(self, axis: Axis) -> (axes: LockedAxes)
        ensures
            axes.bits() == self.bits() | rotation_bit(axis),
            forall|other: Axis| axes.translation_locked(other) == self.translation_locked(other),
            forall|other: Axis|
                axes.rotation_locked(other) == (other == axis || self.rotation_locked(other)),
    {
        let bit: u8 = match axis {
            Axis::X => 0b000_100,
            Axis::Y => 0b000_010,
            Axis::Z => 0b000_001,
        };
        proof {
            lemma_lock_bits(self.bits, bit);
        }
        LockedAxes { bits: self.bits | bit }
    }

    /// Whether translation along `axis` is locked.
    pub fn is_translation_locked(&self, axis: Axis) -> (r: bool)
        ensures
            r == self.translation_locked(axis),
    {
        let bit: u8 = match axis {
            Axis::X => 0b100_000,
            Axis::Y => 0b010_000,
            Axis::Z => 0b001_000,
        };
        self.bits & bit != 0
    }

    /// Whether rotation about `axis` is locked.
    pub fn is_rotation_locked(&self, axis: Axis) -> (r: bool)
        ensures
            r == self.rotation_locked(axis),
    {
        let bit: u8 = match axis {
            Axis::X => 0b000_100,
            Axis::Y => 0b000_010,
            Axis::Z => 0b000_001,
        };
        self.bits & bit != 0
    }

    /// Whether the inverse mass keeps its share along `axis` when the
    /// inertia of a substep is prepared.
    pub fn inverse_mass_kept(&self, axis: Axis) -> (r: bool)
        ensures
            r == self.keeps_inverse_mass(axis),
    {
        !self.is_translation_locked(axis)
    }

    /// Whether the world-frame inverse inertia keeps its entry at `row`
    /// and `column` when the inertia of a substep is prepared; a dropped
    /// entry is set to zero.
    pub fn inertia_entry_kept(&self, row: Axis, column: Axis) -> (r: bool)
        ensures
            r == self.keeps_inertia_entry(row, column),
    {
        !self.is_rotation_locked(row) && !self.is_rotation_locked(column)
    }
}

/// Setting one bit of a mask sets that bit and leaves every other single
/// bit as it was.
proof fn lemma_lock_bits(x: u8, bit: u8)
    requires
        bit == 0b100_000 || bit == 0b010_000 || bit == 0b001_000 || bit == 0b000_100 || bit
            == 0b000_010 || bit == 0b000_001,
    ensures
        (x | bit) & bit != 0,
        forall|other: u8|
            #![auto]
            (other == 0b100_000 || other == 0b010_000 || other == 0b001_000 || other == 0b000_100
                || other == 0b000_010 || other == 0b000_001) && other != bit ==> ((x | bit)
                & other) == (x & other),
{
    assert((x | bit) & bit != 0) by (bit_vector)
        requires
            bit == 0b100_000 || bit == 0b010_000 || bit == 0b001_000 || bit == 0b000_100 || bit
                == 0b000_010 || bit == 0b000_001,
    ;
    assert forall|other: u8|
        #![auto]
        (other == 0b100_000 || other == 0b010_000 || other == 0b001_000 || other == 0b000_100
            || other == 0b000_010 || other == 0b000_001) && other != bit implies ((x | bit)
        & other) == (x & other) by {
        assert(((x | bit) & other) == (x & other)) by (bit_vector)
            requires
                bit == 0b100_000 || bit == 0b010_000 || bit == 0b001_000 || bit == 0b000_100
                    || bit == 0b000_010 || bit == 0b000_001,
                other == 0b100_000 || other == 0b010_000 || other == 0b001_000 || other
                    == 0b000_100 || other == 0b000_010 || other == 0b000_001,
                other != bit,
        ;
    }
}

/// Where rotation about an axis is locked, no entry of its row and of its
/// column of the inverse inertia is kept; where translation along an axis
/// is locked, the inverse mass along it is not kept. What is not locked is
/// kept.
pub proof fn law_locked_axis_is_cleared(axes: LockedAxes, axis: Axis)
    ensures
        axes.rotation_locked(axis) ==> forall|other: Axis|
            !axes.keeps_inertia_entry(axis, other) && !axes.keeps_inertia_entry(other, axis),
        axes.translation_locked(axis) ==> !axes.keeps_inverse_mass(axis),
        !axes.rotation_locked(axis) ==> axes.keeps_inertia_entry(axis, axis),
        !axes.translation_locked(axis) ==> axes.keeps_inverse_mass(axis),
{
}

/// The bit of the flags of a solver body that marks a kinematic body.
pub const KINEMATIC_FLAG: u32 = 0b1_000_000;

/// The flags of a solver body: the locked axes in the six low bits, as in
/// [`LockedAxes`], and above them whether the body is kinematic.
#[derive(Clone, Copy, Debug, PartialEq, Eq, Structural)]
pub struct SolverBodyFlags {
    bits: u32,
}

impl SolverBodyFlags {
    /// The flags as one word.
    pub closed spec fn bits(&self) -> u32 {
        self.bits
    }

    /// The locked axes that the flags hold.
    pub closed spec fn locked(&self) -> LockedAxes {
        LockedAxes { bits: (self.bits & 0b111_111) as u8 }
    }

    /// Whether the flags mark a kinematic body.
    pub open spec fn kinematic(&self) -> bool {
        self.bits() & KINEMATIC_FLAG != 0
    }

    /// The flags of a body with the given locked axes that is kinematic or
    /// not.
    pub fn new(locked_axes: LockedAxes, kinematic: bool) -> (flags: SolverBodyFlags)
        ensures
            flags.kinematic() == kinematic,
            flags.locked().bits() == locked_axes.bits() & 0b111_111,
            forall|axis: Axis|
                flags.locked().translation_locked(axis) == locked_axes.translation_locked(axis),
            forall|axis: Axis|
                flags.locked().rotation_locked(axis) == locked_axes.rotation_locked(axis),
    {
        let low: u32 = (locked_axes.to_bits() & 0b111_111) as u32;
        let high: u32 = if kinematic {
            KINEMATIC_FLAG
        } else {
            0
        };
        proof {
            let x = locked_axes.bits();
            assert(((x & 0b111_111) as u32 | high) & 0b1_000_000u32 != 0 <==> high != 0)
                by (bit_vector)
                requires
                    high == 0b1_000_000u32 || high == 0,
            ;
            assert((((x & 0b111_111) as u32 | high) & 0b111_111) as u8 == x & 0b111_111)
                by (bit_vector)
                requires
                    high == 0b1_000_000u32 || high == 0,
            ;
            assert forall|axis: Axis|
                #![auto]
                ((x & 0b111_111) & translation_bit(axis) != 0) == (x & translation_bit(axis) != 0)
                    && ((x & 0b111_111) & rotation_bit(axis) != 0) == (x & rotation_bit(axis)
                    != 0) by {
                lemma_low_bits_keep_lock(x, translation_bit(axis));
                lemma_low_bits_keep_lock(x, rotation_bit(axis));
            }
        }
        SolverBodyFlags { bits: low | high }
    }

    /// The locked axes of the body.
    pub fn locked_axes(&self) -> (axes: LockedAxes)
        ensures
            axes == self.locked(),
    {
        let low: u8 = (self.bits & 0b111_111) as u8;
        proof {
            let y = self.bits;
            assert(((y & 0b111_111) as u8) & 0b111_111 == (y & 0b111_111) as u8) by (bit_vector);
        }
        LockedAxes::from_bits(low)
    }

    /// Whether the body is kinematic.
    pub fn is_kinematic(&self) -> (r: bool)
        ensures
            r == self.kinematic(),
    {
        self.bits & KINEMATIC_FLAG != 0
    }

    /// Whether the body has a finite mass and inertia of its own when the
    /// inertia of a substep is prepared: it has unless it is kinematic. A
    /// kinematic body is prepared with zero inverse mass and zero inverse
    /// inertia.
    pub open spec fn has_finite_mass(&self) -> bool {
        !self.kinematic()
    }

    /// Whether the body has a finite mass and inertia of its own when the
    /// inertia of a substep is prepared.
    pub fn counts_mass(&self) -> (r: bool)
        ensures
            r == self.has_finite_mass(),
    {
        !self.is_kinematic()
    }
}

/// The six low bits of a mask hold each lock as the mask does.
proof fn lemma_low_bits_keep_lock(x: u8, bit: u8)
    requires
        bit == 0b100_000 || bit == 0b010_000 || bit == 0b001_000 || bit == 0b000_100 || bit
            == 0b000_010 || bit == 0b000_001,
    ensures
        ((x & 0b111_111) & bit != 0) == (x & bit != 0),
{
    assert(((x & 0b111_111) & bit != 0) == (x & bit != 0)) by (bit_vector)
        requires
            bit == 0b100_000 || bit == 0b010_000 || bit == 0b001_000 || bit == 0b000_100 || bit
                == 0b000_010 || bit == 0b000_001,
    ;
}

/// What the solver reads of a rigid body when it decides whether to track
/// it.
#[derive(Clone, Copy, Debug, PartialEq, Eq, Structural)]
pub struct BodyState {
    /// The identity of the body.
    pub entity: u64,
    /// The kind of the body.
    pub kind: RigidBodyKind,
    /// Whether the body is asleep.
    pub sleeping: bool,
}

impl BodyState {
    /// A body takes part in the solve when it is awake and dynamic or
    /// kinematic.
    pub open spec fn eligible(&self) -> bool {
        !self.sleeping && self.kind != RigidBodyKind::Static
    }

    /// Whether the body takes part in the solve.
    pub fn is_eligible(&self) -> (r: bool)
        ensures
            r == self.eligible(),
    {
        !self.sleeping && match self.kind {
            RigidBodyKind::Static => false,
            _ => true,
        }
    }
}

/// What preparing the solver bodies does for one rigid body.
#[derive(Clone, Copy, Debug, PartialEq, Eq, Structural)]
pub enum SolverBodyChange {
    /// The body takes part and had no solver body: one is created from its
    /// state.
    Create,
    /// The body takes part and has a solver body: it is refreshed.
    Refresh,
    /// The body no longer takes part: its solver body is dropped.
    Remove,
    /// The body does not take part and has no solver body.
    Skip,
}

/// What happens to the solver body of a rigid body, given whether it takes
/// part and whether it has a solver body.
pub open spec fn solver_body_change(eligible: bool, present: bool) -> SolverBodyChange {
    if eligible {
        if present {
            SolverBodyChange::Refresh
        } else {
            SolverBodyChange::Create
        }
    } else {
        if present {
            SolverBodyChange::Remove
        } else {
            SolverBodyChange::Skip
        }
    }
}

/// The entities of the bodies in `bodies` that take part in the solve.
pub open spec fn eligible_entities(bodies: Seq<BodyState>) -> Set<u64> {
    Set::new(
        |entity: u64|
            exists|i: int|
                0 <= i < bodies.len() && (#[trigger] bodies[i]).entity == entity
                    && bodies[i].eligible(),
    )
}

/// The set of bodies that have a solver body.
pub struct SolverBodies {
    members: HashSet<u64>,
}

impl View for SolverBodies {
    type V = Set<u64>;

    closed spec fn view(&self) -> Set<u64> {
        self.members@
    }
}

impl SolverBodies {
    /// The empty set: no body has a solver body.
    pub fn new() -> (bodies: SolverBodies)
        ensures
            bodies@ == Set::<u64>::empty(),
    {
        SolverBodies { members: HashSet::new() }
    }

    /// Whether `entity` has a solver body.
    pub fn contains(&self, entity: u64) -> (r: bool)
        ensures
            r == self@.contains(entity),
    {
        self.members.contains(&entity)
    }

    /// Brings the set in line with the rigid bodies as they are now, and
    /// says for each of them, in order, what becomes of its solver body.
    ///
    /// Afterwards exactly the bodies of `bodies` that take part in the solve
    /// have a solver body.
    pub fn prepare(&mut self, bodies: &Vec<BodyState>) -> (changes: Vec<SolverBodyChange>)
        ensures
            final(self)@ == eligible_entities(bodies@),
            changes@.len() == bodies@.len(),
            forall|i: int|
                0 <= i < bodies@.len() ==> #[trigger] changes@[i] == solver_body_change(
                    bodies@[i].eligible(),
                    old(self)@.contains(bodies@[i].entity),
                ),
    {
        let mut next: HashSet<u64> = HashSet::new();
        let mut changes: Vec<SolverBodyChange> = Vec::new();
        let mut i: usize = 0;
        while i < bodies.len()
            invariant
                i <= bodies@.len(),
                self@ == old(self)@,
                next@ == eligible_entities(bodies@.take(i as int)),
                changes@.len() == i,
                forall|j: int|
                    0 <= j < i ==> #[trigger] changes@[j] == solver_body_change(
                        bodies@[j].eligible(),
                        old(self)@.contains(bodies@[j].entity),
                    ),
            decreases bodies@.len() - i,
        {
            let body = bodies[i];
            let eligible = body.is_eligible();
            let present = self.members.contains(&body.entity);
            let change = if eligible {
                next.insert(body.entity);
                if present {
                    SolverBodyChange::Refresh
                } else {
                    SolverBodyChange::Create
                }
            } else {
                if present {
                    SolverBodyChange::Remove
                } else {
                    SolverBodyChange::Skip
                }
            };
            changes.push(change);
            proof {
                lemma_eligible_entities_step(bodies@, i as int);
            }
            i = i + 1;
        }
        proof {
            assert(bodies@.take(bodies@.len() as int) =~= bodies@);
        }
        self.members = next;
        changes
    }
}

/// Taking one more body into account adds its entity if it takes part, and
/// changes nothing otherwise.
proof fn lemma_eligible_entities_step(bodies: Seq<BodyState>, i: int)
    requires
        0 <= i < bodies.len(),
    ensures
        eligible_entities(bodies.take(i + 1)) == if bodies[i].eligible() {
            eligible_entities(bodies.take(i)).insert(bodies[i].entity)
        } else {
            eligible_entities(bodies.take(i))
        },
{
    let before = bodies.take(i);
    let after = bodies.take(i + 1);
    let expected = if bodies[i].eligible() {
        eligible_entities(before).insert(bodies[i].entity)
    } else {
        eligible_entities(before)
    };
    assert forall|entity: u64| eligible_entities(after).contains(entity) implies expected.contains(
        entity,
    ) by {
        let j = choose|j: int|
            0 <= j < after.len() && (#[trigger] after[j]).entity == entity && after[j].eligible();
        if j < i {
            assert(before[j].entity == entity && before[j].eligible());
        }
    }
    assert forall|entity: u64| expected.contains(entity) implies eligible_entities(after).contains(
        entity,
    ) by {
        if bodies[i].eligible() && entity == bodies[i].entity {
            assert(after[i].entity == entity && after[i].eligible());
        } else {
            let j = choose|j: int|
                0 <= j < before.len() && (#[trigger] before[j]).entity == entity
                    && before[j].eligible();
            assert(after[j].entity == entity && after[j].eligible());
        }
    }
    assert(eligible_entities(after) =~= expected);
}

} // verus!
