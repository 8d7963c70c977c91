//! The order in which the phases of one physics step run.
//!
//! A step is a fixed prologue, a fixed block of phases repeated once per
//! substep, and a fixed epilogue. [`SolverLoop`] hands the phases out one at
//! a time; the caller performs each phase and asks for the next.

use vstd::prelude::*;

verus! {

/// The joint families that the position-based joint solver knows.
#[derive(Clone, Copy, Debug, PartialEq, Eq, Structural)]
pub enum JointKind {
    Fixed,
    Revolute,
    Spherical,
    Prismatic,
    Distance,
}

/// One phase of a physics step.
#[derive(Clone, Copy, Debug, PartialEq, Eq, Structural)]
pub enum Phase {
    /// Recompute the contact softness coefficients if their inputs changed.
    UpdateContactSoftness,
    /// Build the contact constraints from the manifolds of the narrow phase.
    PrepareContacts,
    /// Create, refresh and drop solver bodies.
    PrepareSolverBodies,
    /// Prepare the joints of one family.
    PrepareJoints(JointKind),
    /// Bring the inverse inertia of every solver body into the world frame.
    PrepareInertia,
    /// Integrate external forces into velocities.
    IntegrateVelocities,
    /// Apply the impulses kept from the previous step or substep.
    WarmStart,
    /// Solve the contacts with the position bias.
    SolveBiased,
    /// Integrate velocities into position and rotation deltas.
    IntegratePositions,
    /// Solve the contacts again without bias.
    Relax,
    /// Remember the position and rotation deltas before the joints move them.
    StorePreSolveDeltas,
    /// Solve the joints of one family in position space.
    SolveJoints(JointKind),
    /// Derive linear velocities from what the joints did to positions.
    ProjectLinearVelocity,
    /// Derive angular velocities from what the joints did to rotations.
    ProjectAngularVelocity,
    /// Apply the velocity damping of the joints of one family.
    JointDamping(JointKind),
    /// Add the bounce of contacts with restitution.
    Restitution,
    /// Write the solver bodies back to the rigid bodies.
    Finalize,
    /// Keep the contact impulses for the warm start of the next step.
    StoreContactImpulses,
}

/// Number of phases before the first substep.
pub const PROLOGUE_LEN: u64 = 8;

/// Number of phases in one substep.
pub const SUBSTEP_LEN: u64 = 19;

/// Number of phases after the last substep.
pub const EPILOGUE_LEN: u64 = 3;

/// The phases that run once, before the substeps.
pub open spec fn prologue_phases() -> Seq<Phase> {
    seq![
        Phase::UpdateContactSoftness,
        Phase::PrepareContacts,
        Phase::PrepareSolverBodies,
        Phase::PrepareJoints(JointKind::Fixed),
        Phase::PrepareJoints(JointKind::Revolute),
        Phase::PrepareJoints(JointKind::Prismatic),
        Phase::PrepareJoints(JointKind::Distance),
        Phase::PrepareJoints(JointKind::Spherical),
    ]
}

/// The phases of one substep.
pub open spec fn substep_phases() -> Seq<Phase> {
    seq![
        Phase::PrepareInertia,
        Phase::IntegrateVelocities,
        Phase::WarmStart,
        Phase::SolveBiased,
        Phase::IntegratePositions,
        Phase::Relax,
        Phase::StorePreSolveDeltas,
        Phase::SolveJoints(JointKind::Fixed),
        Phase::SolveJoints(JointKind::Revolute),
        Phase::SolveJoints(JointKind::Spherical),
        Phase::SolveJoints(JointKind::Prismatic),
        Phase::SolveJoints(JointKind::Distance),
        Phase::ProjectLinearVelocity,
        Phase::ProjectAngularVelocity,
        Phase::JointDamping(JointKind::Fixed),
        Phase::JointDamping(JointKind::Revolute),
        Phase::JointDamping(JointKind::Spherical),
        Phase::JointDamping(JointKind::Prismatic),
        Phase::JointDamping(JointKind::Distance),
    ]
}

/// The phases that run once, after the substeps.
pub open spec fn epilogue_phases() -> Seq<Phase> {
    seq![Phase::Restitution, Phase::Finalize, Phase::StoreContactImpulses]
}

/// The substep block repeated `substeps` times.
pub open spec fn repeated_substeps(substeps: nat) -> Seq<Phase>
    decreases substeps,
{
    if substeps == 0 {
        Seq::empty()
    } else {
        repeated_substeps((substeps - 1) as nat) + substep_phases()
    }
}

/// Every phase of a step with `substeps` substeps, in the order in which
/// they run.
pub open spec fn step_phases(substeps: nat) -> Seq<Phase> {
    prologue_phases() + repeated_substeps(substeps) + epilogue_phases()
}

/// Whether both phases occur in `s` and every `first` stands before every
/// `second`.
pub open spec fn runs_before(s: Seq<Phase>, first: Phase, second: Phase) -> bool {
    &&& s.contains(first)
    &&& s.contains(second)
    &&& forall|i: int, j: int|
        0 <= i < s.len() && 0 <= j < s.len() && s[i] == first && s[j] == second ==> i < j
}

/// Where a step with `substeps` substeps keeps the first phase of substep
/// `k`.
pub open spec fn substep_start(k: nat) -> int {
    PROLOGUE_LEN + SUBSTEP_LEN * k
}

/// The phase at place `j` of the prologue.
fn prologue_phase(j: u64) -> (phase: Phase)
    requires
        j < PROLOGUE_LEN,
    ensures
        phase == prologue_phases()[j as int],
{
    match j {
        0 => Phase::UpdateContactSoftness,
        1 => Phase::PrepareContacts,
        2 => Phase::PrepareSolverBodies,
        3 => Phase::PrepareJoints(JointKind::Fixed),
        4 => Phase::PrepareJoints(JointKind::Revolute),
        5 => Phase::PrepareJoints(JointKind::Prismatic),
        6 => Phase::PrepareJoints(JointKind::Distance),
        _ => Phase::PrepareJoints(JointKind::Spherical),
    }
}

/// The phase at place `j` of a substep.
fn substep_phase(j: u64) -> (phase: Phase)
    requires
        j < SUBSTEP_LEN,
    ensures
        phase == substep_phases()[j as int],
{
    match j {
        0 => Phase::PrepareInertia,
        1 => Phase::IntegrateVelocities,
        2 => Phase::WarmStart,
        3 => Phase::SolveBiased,
        4 => Phase::IntegratePositions,
        5 => Phase::Relax,
        6 => Phase::StorePreSolveDeltas,
        7 => Phase::SolveJoints(JointKind::Fixed),
        8 => Phase::SolveJoints(JointKind::Revolute),
        9 => Phase::SolveJoints(JointKind::Spherical),
        10 => Phase::SolveJoints(JointKind::Prismatic),
        11 => Phase::SolveJoints(JointKind::Distance),
        12 => Phase::ProjectLinearVelocity,
        13 => Phase::ProjectAngularVelocity,
        14 => Phase::JointDamping(JointKind::Fixed),
        15 => Phase::JointDamping(JointKind::Revolute),
        16 => Phase::JointDamping(JointKind::Spherical),
        17 => Phase::JointDamping(JointKind::Prismatic),
        _ => Phase::JointDamping(JointKind::Distance),
    }
}

/// The phase at place `j` of the epilogue.
fn epilogue_phase(j: u64) -> (phase: Phase)
    requires
        j < EPILOGUE_LEN,
    ensures
        phase == epilogue_phases()[j as int],
{
    match j {
        0 => Phase::Restitution,
        1 => Phase::Finalize,
        _ => Phase::StoreContactImpulses,
    }
}

/// The repeated block has `SUBSTEP_LEN` phases per substep.
pub proof fn lemma_repeated_len(substeps: nat)
    ensures
        repeated_substeps(substeps).len() == SUBSTEP_LEN * substeps,
    decreases substeps,
{
    if substeps > 0 {
        lemma_repeated_len((substeps - 1) as nat);
    }
}

/// Place `j` of substep `k` of the repeated block holds place `j` of the
/// substep block.
pub proof fn lemma_repeated_substeps(substeps: nat, k: nat, j: int)
    requires
        k < substeps,
        0 <= j < SUBSTEP_LEN,
    ensures
        repeated_substeps(substeps)[SUBSTEP_LEN * k + j] == substep_phases()[j],
    decreases substeps,
{
    lemma_repeated_len(substeps);
    lemma_repeated_len((substeps - 1) as nat);
    if k < substeps - 1 {
        lemma_repeated_substeps((substeps - 1) as nat, k, j);
    }
}

/// What stands at each place of a step: the prologue, then the substep
/// block once per substep, then the epilogue.
pub proof fn lemma_step_layout(substeps: nat)
    ensures
        step_phases(substeps).len() == PROLOGUE_LEN + SUBSTEP_LEN * substeps + EPILOGUE_LEN,
        forall|i: int|
            0 <= i < PROLOGUE_LEN ==> #[trigger] step_phases(substeps)[i] == prologue_phases()[i],
        forall|k: nat, j: int|
            k < substeps && 0 <= j < SUBSTEP_LEN ==> #[trigger] step_phases(substeps)[substep_start(
                k,
            ) + j] == substep_phases()[j],
        forall|i: int|
            0 <= i < EPILOGUE_LEN ==> #[trigger] step_phases(substeps)[substep_start(substeps) + i]
                == epilogue_phases()[i],
{
    lemma_repeated_len(substeps);
    let pre = prologue_phases();
    let mid = repeated_substeps(substeps);
    let post = epilogue_phases();
    assert forall|k: nat, j: int| k < substeps && 0 <= j < SUBSTEP_LEN implies #[trigger] step_phases(
        substeps,
    )[substep_start(k) + j] == substep_phases()[j] by {
        lemma_repeated_substeps(substeps, k, j);
        assert(SUBSTEP_LEN * k + j < SUBSTEP_LEN * substeps) by (nonlinear_arith)
            requires
                k < substeps,
                0 <= j < SUBSTEP_LEN,
        ;
        assert((pre + mid + post)[substep_start(k) + j] == mid[SUBSTEP_LEN * k + j]);
    }
    assert forall|i: int| 0 <= i < EPILOGUE_LEN implies #[trigger] step_phases(
        substeps,
    )[substep_start(substeps) + i] == epilogue_phases()[i] by {
        assert((pre + mid + post)[substep_start(substeps) + i] == post[i]);
    }
}

/// The order in which the joint families are solved and damped.
pub open spec fn joint_order() -> Seq<JointKind> {
    seq![
        JointKind::Fixed,
        JointKind::Revolute,
        JointKind::Spherical,
        JointKind::Prismatic,
        JointKind::Distance,
    ]
}

/// Every place of a step lies in the prologue, in one substep, or in the
/// epilogue.
proof fn lemma_step_place(substeps: nat, i: int)
    requires
        0 <= i < step_phases(substeps).len(),
    ensures
        i < PROLOGUE_LEN ==> step_phases(substeps)[i] == prologue_phases()[i],
        PROLOGUE_LEN <= i < substep_start(substeps) ==> {
            let k = (i - PROLOGUE_LEN) / (SUBSTEP_LEN as int);
            let j = (i - PROLOGUE_LEN) % (SUBSTEP_LEN as int);
            &&& 0 <= k < substeps
            &&& 0 <= j < SUBSTEP_LEN
            &&& i == substep_start(k as nat) + j
            &&& step_phases(substeps)[i] == substep_phases()[j]
        },
        substep_start(substeps) <= i ==> {
            &&& i - substep_start(substeps) < EPILOGUE_LEN
            &&& step_phases(substeps)[i] == epilogue_phases()[i - substep_start(substeps)]
        },
{
    lemma_step_layout(substeps);
    if PROLOGUE_LEN <= i < substep_start(substeps) {
        let k = (i - PROLOGUE_LEN) / (SUBSTEP_LEN as int);
        let j = (i - PROLOGUE_LEN) % (SUBSTEP_LEN as int);
        assert(0 <= k < substeps) by (nonlinear_arith)
            requires
                k == (i - 8) / 19,
                8 <= i < 8 + 19 * substeps,
        ;
        assert(step_phases(substeps)[substep_start(k as nat) + j] == substep_phases()[j]);
    } else if substep_start(substeps) <= i {
        let e = i - substep_start(substeps);
        assert(step_phases(substeps)[substep_start(substeps) + e] == epilogue_phases()[e]);
    }
}

/// A step begins with the prologue: the softness coefficients, the contact
/// constraints, the solver bodies and the joints are prepared before the
/// first substep, each once.
pub proof fn law_prologue_first(substeps: nat)
    ensures
        step_phases(substeps).subrange(0, PROLOGUE_LEN as int) == prologue_phases(),
{
    lemma_step_layout(substeps);
    assert(step_phases(substeps).subrange(0, PROLOGUE_LEN as int) =~= prologue_phases());
}

/// Every substep of a step runs the same block of phases, in the same
/// order.
pub proof fn law_substeps_alike(substeps: nat, k: nat)
    requires
        k < substeps,
    ensures
        substep_start(k + 1) <= step_phases(substeps).len(),
        step_phases(substeps).subrange(substep_start(k), substep_start(k + 1)) == substep_phases(),
{
    lemma_step_layout(substeps);
    assert(substep_start(k + 1) <= substep_start(substeps)) by (nonlinear_arith)
        requires
            k < substeps,
    ;
    let block = step_phases(substeps).subrange(substep_start(k), substep_start(k + 1));
    assert forall|j: int| 0 <= j < SUBSTEP_LEN implies block[j] == substep_phases()[j] by {
        assert(step_phases(substeps)[substep_start(k) + j] == substep_phases()[j]);
    }
    assert(block =~= substep_phases());
}

/// An order of two phases within the substep block holds in every substep
/// of a step: wherever the second phase stands in a substep, the first
/// stands before it in the same substep.
pub proof fn law_order_holds_in_every_substep(
    substeps: nat,
    first: Phase,
    second: Phase,
    k: nat,
    j: int,
)
    requires
        runs_before(substep_phases(), first, second),
        k < substeps,
        0 <= j < SUBSTEP_LEN,
        step_phases(substeps)[substep_start(k) + j] == second,
    ensures
        exists|i: int|
            0 <= i < j && #[trigger] step_phases(substeps)[substep_start(k) + i] == first,
{
    lemma_step_layout(substeps);
    let block = substep_phases();
    assert(block[j] == second);
    let i = choose|i: int| 0 <= i < block.len() && block[i] == first;
    assert(i < j);
    assert(step_phases(substeps)[substep_start(k) + i] == first);
}

/// Within a substep: velocities are integrated before the warm start, the
/// warm start comes before the biased solve, the biased solve before the
/// integration of positions, and that before the relaxation.
pub proof fn law_contact_phase_order()
    ensures
        runs_before(substep_phases(), Phase::PrepareInertia, Phase::IntegrateVelocities),
        runs_before(substep_phases(), Phase::IntegrateVelocities, Phase::WarmStart),
        runs_before(substep_phases(), Phase::WarmStart, Phase::SolveBiased),
        runs_before(substep_phases(), Phase::SolveBiased, Phase::IntegratePositions),
        runs_before(substep_phases(), Phase::IntegratePositions, Phase::Relax),
{
    let s = substep_phases();
    assert(s[0] == Phase::PrepareInertia);
    assert(s[1] == Phase::IntegrateVelocities);
    assert(s[2] == Phase::WarmStart);
    assert(s[3] == Phase::SolveBiased);
    assert(s[4] == Phase::IntegratePositions);
    assert(s[5] == Phase::Relax);
}

/// Within a substep, for every joint family: the relaxation and the
/// snapshot of the deltas come before the joint solve, the joint solve
/// before the projection of velocities, and the projection before the
/// joint damping.
pub proof fn law_joint_phase_order(kind: JointKind)
    ensures
        runs_before(substep_phases(), Phase::Relax, Phase::SolveJoints(kind)),
        runs_before(substep_phases(), Phase::StorePreSolveDeltas, Phase::SolveJoints(kind)),
        runs_before(substep_phases(), Phase::SolveJoints(kind), Phase::ProjectLinearVelocity),
        runs_before(substep_phases(), Phase::ProjectLinearVelocity, Phase::ProjectAngularVelocity),
        runs_before(substep_phases(), Phase::ProjectAngularVelocity, Phase::JointDamping(kind)),
{
    let s = substep_phases();
    assert(s[5] == Phase::Relax);
    assert(s[6] == Phase::StorePreSolveDeltas);
    assert(s[12] == Phase::ProjectLinearVelocity);
    assert(s[13] == Phase::ProjectAngularVelocity);
    match kind {
        JointKind::Fixed => {
            assert(s[7] == Phase::SolveJoints(kind));
            assert(s[14] == Phase::JointDamping(kind));
        },
        JointKind::Revolute => {
            assert(s[8] == Phase::SolveJoints(kind));
            assert(s[15] == Phase::JointDamping(kind));
        },
        JointKind::Spherical => {
            assert(s[9] == Phase::SolveJoints(kind));
            assert(s[16] == Phase::JointDamping(kind));
        },
        JointKind::Prismatic => {
            assert(s[10] == Phase::SolveJoints(kind));
            assert(s[17] == Phase::JointDamping(kind));
        },
        JointKind::Distance => {
            assert(s[11] == Phase::SolveJoints(kind));
            assert(s[18] == Phase::JointDamping(kind));
        },
    }
}

/// The joint families are solved, and damped, in one fixed order: fixed,
/// revolute, spherical, prismatic, distance.
pub proof fn law_joint_family_order(a: int, b: int)
    requires
        0 <= a < b < joint_order().len(),
    ensures
        runs_before(
            substep_phases(),
            Phase::SolveJoints(joint_order()[a]),
            Phase::SolveJoints(joint_order()[b]),
        ),
        runs_before(
            substep_phases(),
            Phase::JointDamping(joint_order()[a]),
            Phase::JointDamping(joint_order()[b]),
        ),
{
    let s = substep_phases();
    assert(s[7 + a] == Phase::SolveJoints(joint_order()[a]));
    assert(s[7 + b] == Phase::SolveJoints(joint_order()[b]));
    assert(s[14 + a] == Phase::JointDamping(joint_order()[a]));
    assert(s[14 + b] == Phase::JointDamping(joint_order()[b]));
}

/// Restitution is applied once per step, right after the last substep.
pub proof fn law_restitution_once_after_substeps(substeps: nat)
    ensures
        forall|i: int|
            0 <= i < step_phases(substeps).len() ==> (#[trigger] step_phases(substeps)[i]
                == Phase::Restitution <==> i == substep_start(substeps)),
{
    assert forall|i: int| 0 <= i < step_phases(substeps).len() implies (#[trigger] step_phases(
        substeps,
    )[i] == Phase::Restitution <==> i == substep_start(substeps)) by {
        lemma_step_place(substeps, i);
    }
}

/// The solver bodies are written back once per step, after restitution.
pub proof fn law_finalize_after_restitution(substeps: nat)
    ensures
        forall|i: int|
            0 <= i < step_phases(substeps).len() ==> (#[trigger] step_phases(substeps)[i]
                == Phase::Finalize <==> i == substep_start(substeps) + 1),
{
    assert forall|i: int| 0 <= i < step_phases(substeps).len() implies (#[trigger] step_phases(
        substeps,
    )[i] == Phase::Finalize <==> i == substep_start(substeps) + 1) by {
        lemma_step_place(substeps, i);
    }
}

/// Storing the contact impulses is the last phase of a step, and happens
/// nowhere else in it.
pub proof fn law_store_impulses_last(substeps: nat)
    ensures
        forall|i: int|
            0 <= i < step_phases(substeps).len() ==> (#[trigger] step_phases(substeps)[i]
                == Phase::StoreContactImpulses <==> i == step_phases(substeps).len() - 1),
{
    lemma_step_layout(substeps);
    assert forall|i: int| 0 <= i < step_phases(substeps).len() implies (#[trigger] step_phases(
        substeps,
    )[i] == Phase::StoreContactImpulses <==> i == step_phases(substeps).len() - 1) by {
        lemma_step_place(substeps, i);
    }
}

/// Walks the phases of one physics step.
///
/// The loop decides; the caller acts: it asks for the next phase, performs
/// it, and asks again until the step is over.
pub struct SolverLoop {
    substeps: u32,
    cursor: u64,
}

impl SolverLoop {
    /// The number of substeps of the step.
    pub closed spec fn substeps(&self) -> nat {
        self.substeps as nat
    }

    /// How many phases have been handed out.
    pub closed spec fn position(&self) -> nat {
        self.cursor as nat
    }

    /// A loop at the start of a step with `substeps` substeps.
    pub fn new(substeps: u32) -> (solver_loop: SolverLoop)
        ensures
            solver_loop.substeps() == substeps,
            solver_loop.position() == 0,
    {
        SolverLoop { substeps, cursor: 0 }
    }

    /// The number of substeps that this loop was made with.
    pub fn substep_count(&self) -> (n: u32)
        ensures
            n == self.substeps(),
    {
        self.substeps
    }

    /// The number of phases of the whole step.
    pub fn total_phases(&self) -> (n: u64)
        ensures
            n == step_phases(self.substeps()).len(),
    {
        proof {
            lemma_step_layout(self.substeps());
        }
        PROLOGUE_LEN + SUBSTEP_LEN * (self.substeps as u64) + EPILOGUE_LEN
    }

    /// The number of phases handed out so far.
    pub fn phases_done(&self) -> (n: u64)
        ensures
            n == self.position(),
    {
        self.cursor
    }

    /// Hands out the next phase of the step, or `None` once the step is
    /// over. After `None` the loop stays where it is.
    pub fn next_phase(&mut self) -> (next: Option<Phase>)
        ensures
            final(self).substeps() == old(self).substeps(),
            old(self).position() < step_phases(old(self).substeps()).len() ==> {
                &&& next == Some(step_phases(old(self).substeps())[old(self).position() as int])
                &&& final(self).position() == old(self).position() + 1
            },
            old(self).position() >= step_phases(old(self).substeps()).len() ==> {
                &&& next is None
                &&& final(self).position() == old(self).position()
            },
    {
        let n: u64 = self.substeps as u64;
        let c: u64 = self.cursor;
        let body_end: u64 = PROLOGUE_LEN + SUBSTEP_LEN * n;
        proof {
            lemma_step_layout(self.substeps());
        }
        let phase = if c < PROLOGUE_LEN {
            prologue_phase(c)
        } else if c < body_end {
            let offset: u64 = c - PROLOGUE_LEN;
            let k: u64 = offset / SUBSTEP_LEN;
            let j: u64 = offset % SUBSTEP_LEN;
            proof {
                assert(k < n) by (nonlinear_arith)
                    requires
                        k == offset / 19,
                        offset < 19 * n,
                ;
                assert(c == substep_start(k as nat) + j);
            }
            substep_phase(j)
        } else if c < body_end + EPILOGUE_LEN {
            proof {
                assert(c == substep_start(n as nat) + (c - body_end));
            }
            epilogue_phase(c - body_end)
        } else {
            return None;
        };
        self.cursor = c + 1;
        Some(phase)
    }
}

} // verus!
