//! Whole steps of a small world: the library decides the order of the
//! phases, the records of each pass and what reaches the bodies; the
//! arithmetic between those decisions is done here.

use bevy::math::Mat3;
use bevy::math::Quat;
use bevy::math::Vec3;
use solver_core::body::Axis;
use solver_core::body::BodyState;
use solver_core::body::LockedAxes;
use solver_core::body::RigidBodyKind;
use solver_core::body::SolverBodies;
use solver_core::body::SolverBodyChange;
use solver_core::body::SolverBodyFlags;
use solver_core::commit::commit_projection;
use solver_core::commit::commit_velocity;
use solver_core::commit::BodyDeltas;
use solver_core::commit::BodyVelocity;
use solver_core::commit::Rotation;
use solver_core::commit::VelocityPart;
use solver_core::commit::Vector3;
use solver_core::contact::ConstraintPoint;
use solver_core::contact::ContactBodies;
use solver_core::contact::ContactBody;
use solver_core::contact::ContactConstraint;
use solver_core::contact::ContactConstraints;
use solver_core::contact::Side;
use solver_core::contact::TangentImpulse;
use solver_core::graph::store_contact_impulses;
use solver_core::graph::ContactGraph;
use solver_core::graph::ManifoldKey;
use solver_core::joint::joint_correction;
use solver_core::joint::joint_damping;
use solver_core::joint::JointBody;
use solver_core::schedule::JointKind;
use solver_core::schedule::Phase;
use solver_core::schedule::SolverLoop;
use solver_core::softness::ContactSoftnessCoefficients;
use solver_core::softness::SoftnessCoefficients;
use solver_core::softness::SoftnessInputs;

const AXES: [Axis; 3] = [Axis::X, Axis::Y, Axis::Z];
const TANGENT_EPSILON: f32 = 1.0e-2;
const CONTACT_MARGIN: f32 = 0.005;

fn vector_bits(v: Vec3) -> Vector3 {
    Vector3 { x: v.x.to_bits(), y: v.y.to_bits(), z: v.z.to_bits() }
}

fn vector_from_bits(v: Vector3) -> Vec3 {
    Vec3::new(f32::from_bits(v.x), f32::from_bits(v.y), f32::from_bits(v.z))
}

fn rotation_bits(q: Quat) -> Rotation {
    Rotation { x: q.x.to_bits(), y: q.y.to_bits(), z: q.z.to_bits(), w: q.w.to_bits() }
}

fn rotation_from_bits(q: Rotation) -> Quat {
    Quat::from_xyzw(
        f32::from_bits(q.x),
        f32::from_bits(q.y),
        f32::from_bits(q.z),
        f32::from_bits(q.w),
    )
}

#[derive(Clone, Copy, Debug, PartialEq)]
struct Softness {
    bias_coefficient: f32,
    mass_coefficient: f32,
    impulse_scale: f32,
}

impl Softness {
    fn compute(damping_ratio: f32, frequency: f32, delta_secs: f32) -> Softness {
        let damping_ratio = damping_ratio.max(0.0);
        let frequency = frequency.max(0.0);
        if frequency == 0.0 {
            return Softness { bias_coefficient: 0.0, mass_coefficient: 0.0, impulse_scale: 1.0 };
        }
        let omega = 2.0 * core::f32::consts::PI * frequency;
        let a1 = 2.0 * damping_ratio + delta_secs * omega;
        let a2 = delta_secs * omega * a1;
        let a3 = 1.0 / (1.0 + a2);
        Softness {
            bias_coefficient: delta_secs * omega / a1,
            mass_coefficient: a3,
            impulse_scale: a2 * a3,
        }
    }

    fn to_bits(self) -> SoftnessCoefficients {
        SoftnessCoefficients {
            bias_coefficient: self.bias_coefficient.to_bits(),
            mass_coefficient: self.mass_coefficient.to_bits(),
            impulse_scale: self.impulse_scale.to_bits(),
        }
    }

    fn from_bits(bits: SoftnessCoefficients) -> Softness {
        Softness {
            bias_coefficient: f32::from_bits(bits.bias_coefficient),
            mass_coefficient: f32::from_bits(bits.mass_coefficient),
            impulse_scale: f32::from_bits(bits.impulse_scale),
        }
    }
}

#[derive(Clone, Copy, Debug, PartialEq)]
struct Inertia {
    inv_mass: Vec3,
    inv_angular: Mat3,
}

impl Inertia {
    fn dummy() -> Inertia {
        Inertia { inv_mass: Vec3::ZERO, inv_angular: Mat3::ZERO }
    }
}

#[derive(Clone, Copy, Debug, PartialEq)]
struct SolverBody {
    linear_velocity: Vec3,
    angular_velocity: Vec3,
    delta_position: Vec3,
    delta_rotation: Quat,
    flags: SolverBodyFlags,
}

impl SolverBody {
    fn dummy() -> SolverBody {
        SolverBody {
            linear_velocity: Vec3::ZERO,
            angular_velocity: Vec3::ZERO,
            delta_position: Vec3::ZERO,
            delta_rotation: Quat::IDENTITY,
            flags: SolverBodyFlags::new(LockedAxes::new(), false),
        }
    }

    fn velocity(&self) -> BodyVelocity {
        BodyVelocity {
            linear: vector_bits(self.linear_velocity),
            angular: vector_bits(self.angular_velocity),
        }
    }

    fn set_velocity(&mut self, velocity: BodyVelocity) {
        self.linear_velocity = vector_from_bits(velocity.linear);
        self.angular_velocity = vector_from_bits(velocity.angular);
    }

    fn deltas(&self) -> BodyDeltas {
        BodyDeltas {
            position: vector_bits(self.delta_position),
            rotation: rotation_bits(self.delta_rotation),
        }
    }

    fn set_deltas(&mut self, deltas: BodyDeltas) {
        self.delta_position = vector_from_bits(deltas.position);
        self.delta_rotation = rotation_from_bits(deltas.rotation);
    }
}

#[derive(Clone, Copy, Debug, PartialEq)]
enum Shape {
    Ground,
    Ball(f32),
    Block(Vec3),
}

#[derive(Clone, Debug)]
struct Body {
    kind: RigidBodyKind,
    shape: Shape,
    position: Vec3,
    rotation: Quat,
    linear_velocity: Vec3,
    angular_velocity: Vec3,
    mass: f32,
    dominance: Option<i8>,
    locked: LockedAxes,
    friction: f32,
    restitution: f32,
    sleeping: bool,
    solver: Option<SolverBody>,
    inertia: Inertia,
    pre_solve_delta_position: Vec3,
    pre_solve_delta_rotation: Quat,
}

impl Body {
    fn new(kind: RigidBodyKind, shape: Shape, position: Vec3) -> Body {
        Body {
            kind,
            shape,
            position,
            rotation: Quat::IDENTITY,
            linear_velocity: Vec3::ZERO,
            angular_velocity: Vec3::ZERO,
            mass: 1.0,
            dominance: None,
            locked: LockedAxes::new(),
            friction: 0.5,
            restitution: 0.0,
            sleeping: false,
            solver: None,
            inertia: Inertia::dummy(),
            pre_solve_delta_position: Vec3::ZERO,
            pre_solve_delta_rotation: Quat::IDENTITY,
        }
    }

    fn ground() -> Body {
        Body::new(RigidBodyKind::Static, Shape::Ground, Vec3::ZERO)
    }

    fn inverse_mass(&self) -> f32 {
        if self.mass > 0.0 {
            1.0 / self.mass
        } else {
            0.0
        }
    }

    fn local_inverse_inertia(&self) -> Mat3 {
        let diagonal = match self.shape {
            Shape::Ground => return Mat3::ZERO,
            Shape::Ball(radius) => Vec3::splat(0.4 * self.mass * radius * radius),
            Shape::Block(half) => {
                Vec3::new(
                    half.y * half.y + half.z * half.z,
                    half.x * half.x + half.z * half.z,
                    half.x * half.x + half.y * half.y,
                ) * (self.mass / 3.0)
            }
        };
        Mat3::from_diagonal(Vec3::ONE / diagonal)
    }

    fn effective_inertia(&self, rotation: Quat, movable: bool) -> Inertia {
        if !movable {
            return Inertia::dummy();
        }
        let frame = Mat3::from_quat(rotation);
        let world = frame * self.local_inverse_inertia() * frame.transpose();
        let mut columns = world.to_cols_array_2d();
        for (column, axis_of_column) in AXES.iter().enumerate() {
            for (row, axis_of_row) in AXES.iter().enumerate() {
                if !self.locked.inertia_entry_kept(*axis_of_row, *axis_of_column) {
                    columns[column][row] = 0.0;
                }
            }
        }
        let mut inv_mass = Vec3::splat(self.inverse_mass());
        for (index, axis) in AXES.iter().enumerate() {
            if !self.locked.inverse_mass_kept(*axis) {
                inv_mass[index] = 0.0;
            }
        }
        Inertia { inv_mass, inv_angular: Mat3::from_cols_array_2d(&columns) }
    }
}

#[derive(Clone, Copy, Debug, PartialEq)]
struct ManifoldPoint {
    feature_id: u32,
    local_anchor1: Vec3,
    local_anchor2: Vec3,
    penetration: f32,
}

#[derive(Clone, Debug, PartialEq)]
struct Manifold {
    body1: usize,
    body2: usize,
    normal: Vec3,
    friction: f32,
    restitution: f32,
    points: Vec<ManifoldPoint>,
}

#[derive(Clone, Copy, Debug, PartialEq)]
struct ContactPoint {
    anchor1: Vec3,
    anchor2: Vec3,
    initial_separation: f32,
    pre_solve_normal_speed: f32,
    normal_mass: f32,
    normal_impulse: f32,
    tangent_mass: Option<[f32; 2]>,
    tangent_impulse: [f32; 2],
}

impl ContactPoint {
    fn record(&self) -> ConstraintPoint {
        ConstraintPoint {
            normal_impulse: self.normal_impulse.to_bits(),
            tangent_impulse: self.tangent_mass.map(|_| TangentImpulse {
                x: self.tangent_impulse[0].to_bits(),
                y: self.tangent_impulse[1].to_bits(),
            }),
        }
    }
}

#[derive(Clone, Debug, PartialEq)]
struct ContactNumerics {
    body1: usize,
    body2: usize,
    normal: Vec3,
    friction: f32,
    restitution: f32,
    softness: Softness,
    tangents: [Vec3; 2],
    points: Vec<ContactPoint>,
}

fn velocity_at(body: &SolverBody, anchor: Vec3) -> Vec3 {
    body.linear_velocity + body.angular_velocity.cross(anchor)
}

fn effective_mass(
    inertia1: &Inertia,
    inertia2: &Inertia,
    anchor1: Vec3,
    anchor2: Vec3,
    direction: Vec3,
) -> f32 {
    let linear = (inertia1.inv_mass + inertia2.inv_mass).dot(direction * direction);
    let turn1 = (inertia1.inv_angular * anchor1.cross(direction)).cross(anchor1);
    let turn2 = (inertia2.inv_angular * anchor2.cross(direction)).cross(anchor2);
    let total = linear + direction.dot(turn1) + direction.dot(turn2);
    if total > f32::EPSILON {
        1.0 / total
    } else {
        0.0
    }
}

fn apply_impulse(
    body1: &mut SolverBody,
    body2: &mut SolverBody,
    inertia1: &Inertia,
    inertia2: &Inertia,
    anchor1: Vec3,
    anchor2: Vec3,
    impulse: Vec3,
) {
    body1.linear_velocity -= impulse * inertia1.inv_mass;
    body1.angular_velocity -= inertia1.inv_angular * anchor1.cross(impulse);
    body2.linear_velocity += impulse * inertia2.inv_mass;
    body2.angular_velocity += inertia2.inv_angular * anchor2.cross(impulse);
}

impl ContactNumerics {
    fn tangent_directions(&self, velocity1: Vec3, velocity2: Vec3) -> [Vec3; 2] {
        let relative = velocity2 - velocity1;
        let tangential = relative - self.normal * relative.dot(self.normal);
        if tangential.length_squared() > TANGENT_EPSILON * TANGENT_EPSILON {
            let first = tangential.normalize();
            [first, self.normal.cross(first)]
        } else {
            let (first, second) = self.normal.any_orthonormal_pair();
            [first, second]
        }
    }

    fn retarget(&mut self, tangents: [Vec3; 2]) {
        if tangents == self.tangents {
            return;
        }
        for point in &mut self.points {
            let kept = self.tangents[0] * point.tangent_impulse[0]
                + self.tangents[1] * point.tangent_impulse[1];
            point.tangent_impulse = [kept.dot(tangents[0]), kept.dot(tangents[1])];
        }
        self.tangents = tangents;
    }

    fn warm_start(
        &mut self,
        body1: &mut SolverBody,
        body2: &mut SolverBody,
        inertia1: &Inertia,
        inertia2: &Inertia,
        tangent_directions: [Vec3; 2],
        coefficient: f32,
    ) {
        self.retarget(tangent_directions);
        let normal = self.normal;
        for point in &mut self.points {
            let anchor1 = body1.delta_rotation * point.anchor1;
            let anchor2 = body2.delta_rotation * point.anchor2;
            point.normal_impulse *= coefficient;
            let mut impulse = normal * point.normal_impulse;
            if point.tangent_mass.is_some() {
                point.tangent_impulse[0] *= coefficient;
                point.tangent_impulse[1] *= coefficient;
                impulse += tangent_directions[0] * point.tangent_impulse[0]
                    + tangent_directions[1] * point.tangent_impulse[1];
            }
            apply_impulse(body1, body2, inertia1, inertia2, anchor1, anchor2, impulse);
        }
    }

    fn solve(
        &mut self,
        body1: &mut SolverBody,
        body2: &mut SolverBody,
        inertia1: &Inertia,
        inertia2: &Inertia,
        delta_secs: f32,
        use_bias: bool,
        max_overlap_solve_speed: f32,
    ) {
        let normal = self.normal;
        let friction = self.friction;
        let softness = self.softness;
        for point in &mut self.points {
            let anchor1 = body1.delta_rotation * point.anchor1;
            let anchor2 = body2.delta_rotation * point.anchor2;

            let moved = (body2.delta_position - body1.delta_position) + (anchor2 - point.anchor2)
                - (anchor1 - point.anchor1);
            let separation = point.initial_separation + moved.dot(normal);
            let (bias, mass_scale, taken_back) = if use_bias {
                (
                    softness.bias_coefficient
                        * (separation + max_overlap_solve_speed * delta_secs).min(0.0)
                        / delta_secs,
                    softness.impulse_scale,
                    softness.mass_coefficient,
                )
            } else {
                (0.0, 1.0, 0.0)
            };

            let relative = velocity_at(body2, anchor2) - velocity_at(body1, anchor1);
            let wanted = -(relative.dot(normal) + bias);
            let raw = point.normal_mass * mass_scale * wanted - taken_back * point.normal_impulse;
            let accumulated = (point.normal_impulse + raw).max(0.0);
            let applied = accumulated - point.normal_impulse;
            point.normal_impulse = accumulated;
            apply_impulse(body1, body2, inertia1, inertia2, anchor1, anchor2, normal * applied);
        }

        let tangents = self.tangent_directions(body1.linear_velocity, body2.linear_velocity);
        self.retarget(tangents);
        for point in &mut self.points {
            let Some(tangent_mass) = &mut point.tangent_mass else {
                continue;
            };
            let anchor1 = body1.delta_rotation * point.anchor1;
            let anchor2 = body2.delta_rotation * point.anchor2;
            let limit = friction * point.normal_impulse;
            for index in 0..2 {
                tangent_mass[index] =
                    effective_mass(inertia1, inertia2, anchor1, anchor2, tangents[index]);
                let relative = velocity_at(body2, anchor2) - velocity_at(body1, anchor1);
                let raw = -tangent_mass[index] * relative.dot(tangents[index]);

                let accumulated = (point.tangent_impulse[index] + raw).clamp(-limit, limit);
                let applied = accumulated - point.tangent_impulse[index];
                point.tangent_impulse[index] = accumulated;
                apply_impulse(
                    body1,
                    body2,
                    inertia1,
                    inertia2,
                    anchor1,
                    anchor2,
                    tangents[index] * applied,
                );
            }
        }
    }

    fn apply_restitution(
        &mut self,
        body1: &mut SolverBody,
        body2: &mut SolverBody,
        inertia1: &Inertia,
        inertia2: &Inertia,
        threshold: f32,
    ) {
        let normal = self.normal;
        let restitution = self.restitution;
        for point in &mut self.points {
            if point.pre_solve_normal_speed > -threshold {
                continue;
            }
            let anchor1 = body1.delta_rotation * point.anchor1;
            let anchor2 = body2.delta_rotation * point.anchor2;
            let raw = -restitution * point.pre_solve_normal_speed * point.normal_mass;
            let accumulated = (point.normal_impulse + raw).max(0.0);
            let applied = accumulated - point.normal_impulse;
            point.normal_impulse = accumulated;
            apply_impulse(body1, body2, inertia1, inertia2, anchor1, anchor2, normal * applied);
        }
    }
}

/// A joint that keeps the centers of two bodies at a fixed distance.
#[derive(Clone, Copy, Debug, PartialEq)]
struct Rod {
    body1: usize,
    body2: usize,
    rest_length: f32,
    compliance: f32,
    damping_linear: f32,
    damping_angular: f32,
    multiplier: f32,
}

#[derive(Clone, Copy, Debug, PartialEq)]
struct Config {
    contact_damping_ratio: f32,
    contact_frequency_factor: f32,
    max_overlap_solve_speed: f32,
    warm_start_coefficient: f32,
    restitution_threshold: f32,
    restitution_iterations: usize,
    length_unit: f32,
}

impl Default for Config {
    fn default() -> Config {
        Config {
            contact_damping_ratio: 10.0,
            contact_frequency_factor: 1.5,
            max_overlap_solve_speed: 4.0,
            warm_start_coefficient: 1.0,
            restitution_threshold: 1.0,
            restitution_iterations: 1,
            length_unit: 1.0,
        }
    }
}

/// What the passes of a step left behind, for the tests to look at.
#[derive(Clone, Debug, Default)]
struct Trace {
    /// The speed along the normal that the first biased solve of the step
    /// found at the first contact point, after the warm start.
    first_residual: Option<f32>,
    /// The smallest accumulated normal impulse seen after any solve pass.
    least_normal_impulse: f32,
    /// By how much the largest friction impulse seen after any solve pass
    /// went beyond the friction cone.
    worst_cone_excess: f32,
    /// The phases of the step, in the order in which they ran.
    phases: Vec<Phase>,
}

struct World {
    bodies: Vec<Body>,
    rods: Vec<Rod>,
    gravity: Vec3,
    delta_secs: f32,
    substeps: u32,
    config: Config,
    softness_stale: bool,
    softness: ContactSoftnessCoefficients,
    solver_bodies: SolverBodies,
    graph: ContactGraph,
    manifolds: Vec<Manifold>,
    records: ContactConstraints,
    numerics: Vec<ContactNumerics>,
    trace: Trace,
}

impl World {
    fn new(bodies: Vec<Body>) -> World {
        let zero = Softness { bias_coefficient: 0.0, mass_coefficient: 0.0, impulse_scale: 1.0 };
        World {
            bodies,
            rods: Vec::new(),
            gravity: Vec3::new(0.0, -9.81, 0.0),
            delta_secs: 1.0 / 60.0,
            substeps: 8,
            config: Config::default(),
            softness_stale: true,
            softness: ContactSoftnessCoefficients {
                dynamic: zero.to_bits(),
                non_dynamic: zero.to_bits(),
            },
            solver_bodies: SolverBodies::new(),
            graph: ContactGraph::new(),
            manifolds: Vec::new(),
            records: ContactConstraints(Vec::new()),
            numerics: Vec::new(),
            trace: Trace::default(),
        }
    }

    fn entity(index: usize) -> u64 {
        index as u64 + 1
    }

    fn collider(index: usize) -> u64 {
        index as u64 + 1001
    }

    fn substep_secs(&self) -> f32 {
        self.delta_secs / self.substeps as f32
    }

    fn run_for(&mut self, seconds: f32) {
        let steps = (seconds / self.delta_secs).round() as usize;
        for _ in 0..steps {
            self.step();
        }
    }

    fn step(&mut self) {
        self.trace = Trace { least_normal_impulse: f32::INFINITY, ..Trace::default() };
        let mut solver_loop = SolverLoop::new(self.substeps);
        while let Some(phase) = solver_loop.next_phase() {
            self.trace.phases.push(phase);
            self.run(phase);
        }
    }

    fn run(&mut self, phase: Phase) {
        match phase {
            Phase::UpdateContactSoftness => self.update_contact_softness(),
            Phase::PrepareContacts => self.prepare_contacts(),
            Phase::PrepareSolverBodies => self.prepare_solver_bodies(),
            Phase::PrepareJoints(JointKind::Distance) => {
                for rod in &mut self.rods {
                    rod.multiplier = 0.0;
                }
            }
            Phase::PrepareJoints(_) => {}
            Phase::PrepareInertia => self.prepare_inertia(),
            Phase::IntegrateVelocities => self.integrate_velocities(),
            Phase::WarmStart => self.warm_start(),
            Phase::SolveBiased => self.solve_contacts(true),
            Phase::IntegratePositions => self.integrate_positions(),
            Phase::Relax => self.solve_contacts(false),
            Phase::StorePreSolveDeltas => {
                for body in &mut self.bodies {
                    if let Some(solver) = &body.solver {
                        body.pre_solve_delta_position = solver.delta_position;
                        body.pre_solve_delta_rotation = solver.delta_rotation;
                    }
                }
            }
            Phase::SolveJoints(JointKind::Distance) => self.solve_rods(),
            Phase::SolveJoints(_) => {}
            Phase::ProjectLinearVelocity => self.project_linear_velocity(),
            Phase::ProjectAngularVelocity => self.project_angular_velocity(),
            Phase::JointDamping(JointKind::Distance) => self.damp_rods(),
            Phase::JointDamping(_) => {}
            Phase::Restitution => self.solve_restitution(),
            Phase::Finalize => self.finalize(),
            Phase::StoreContactImpulses => self.store_contact_impulses(),
        }
    }

    fn update_contact_softness(&mut self) {
        let inputs = SoftnessInputs {
            config_changed: self.softness_stale,
            physics_time_changed: false,
            substep_time_changed: false,
        };
        if inputs.needs_update() {
            let h = self.substep_secs();
            let max_hz = 1.0 / (self.delta_secs * 2.0);
            let hz = self.config.contact_frequency_factor * max_hz.min(0.25 / h);
            self.softness = ContactSoftnessCoefficients {
                dynamic: Softness::compute(self.config.contact_damping_ratio, hz, h).to_bits(),
                non_dynamic: Softness::compute(self.config.contact_damping_ratio, 2.0 * hz, h)
                    .to_bits(),
            };
            self.softness_stale = false;
        }
    }

    /// The contacts of balls and blocks with the ground and of blocks
    /// stacked on blocks; nothing else touches in these worlds.
    fn find_manifolds(&self) -> Vec<Manifold> {
        let mut manifolds = Vec::new();
        for (upper_index, upper) in self.bodies.iter().enumerate() {
            if upper.shape == Shape::Ground {
                continue;
            }
            for (lower_index, lower) in self.bodies.iter().enumerate() {
                if lower_index == upper_index {
                    continue;
                }
                let top = match lower.shape {
                    Shape::Ground => lower.position.y,
                    Shape::Block(half) if lower.position.y < upper.position.y => {
                        lower.position.y + half.y
                    }
                    _ => continue,
                };
                let mut points = Vec::new();
                match upper.shape {
                    Shape::Ball(radius) => {
                        let lowest = upper.position - Vec3::Y * radius;
                        points.push((0, lowest));
                    }
                    Shape::Block(half) => {
                        for corner in 0..8u32 {
                            let sign = Vec3::new(
                                if corner & 1 == 0 { -1.0 } else { 1.0 },
                                if corner & 2 == 0 { -1.0 } else { 1.0 },
                                if corner & 4 == 0 { -1.0 } else { 1.0 },
                            );
                            points.push((corner, upper.position + upper.rotation * (half * sign)));
                        }
                    }
                    Shape::Ground => {}
                }
                let within = |point: Vec3| match lower.shape {
                    Shape::Block(half) => {
                        (point.x - lower.position.x).abs() <= half.x + CONTACT_MARGIN
                            && (point.z - lower.position.z).abs() <= half.z + CONTACT_MARGIN
                    }
                    _ => true,
                };
                let mut touching: Vec<ManifoldPoint> = points
                    .into_iter()
                    .filter(|(_, point)| point.y - top <= CONTACT_MARGIN && within(*point))
                    .map(|(feature_id, point)| ManifoldPoint {
                        feature_id,
                        local_anchor1: upper.rotation.inverse() * (point - upper.position),
                        local_anchor2: lower.rotation.inverse()
                            * (Vec3::new(point.x, top, point.z) - lower.position),
                        penetration: top - point.y,
                    })
                    .collect();
                touching.truncate(4);
                if !touching.is_empty() {
                    manifolds.push(Manifold {
                        body1: upper_index,
                        body2: lower_index,
                        normal: -Vec3::Y,
                        friction: upper.friction.max(lower.friction),
                        restitution: upper.restitution.max(lower.restitution),
                        points: touching,
                    });
                }
            }
        }
        manifolds
    }

    fn prepare_contacts(&mut self) {
        self.manifolds = self.find_manifolds();
        let keys: Vec<ManifoldKey> = self
            .manifolds
            .iter()
            .map(|manifold| ManifoldKey {
                collider1: World::collider(manifold.body1),
                collider2: World::collider(manifold.body2),
                features: manifold.points.iter().map(|point| point.feature_id).collect(),
            })
            .collect();
        let places = self.graph.refresh(&keys);

        self.records.0.clear();
        self.numerics.clear();
        for ((manifold, key), place) in self.manifolds.iter().zip(keys.iter()).zip(places.iter()) {
            let body1 = &self.bodies[manifold.body1];
            let body2 = &self.bodies[manifold.body2];
            let kept = self.graph.manifold(key.collider1, key.collider2, *place).unwrap();
            let warm = kept.warm_points(manifold.friction > 0.0);
            let record = ContactConstraint::new(
                ContactBody {
                    entity: World::entity(manifold.body1),
                    kind: body1.kind,
                    dominance: body1.dominance,
                },
                ContactBody {
                    entity: World::entity(manifold.body2),
                    kind: body2.kind,
                    dominance: body2.dominance,
                },
                key.collider1,
                key.collider2,
                *place,
                manifold.restitution > 0.0,
                warm.clone(),
            );
            let inertia1 = body1.effective_inertia(
                body1.rotation,
                record.counts_mass(Side::First, body1.kind, body1.sleeping),
            );
            let inertia2 = body2.effective_inertia(
                body2.rotation,
                record.counts_mass(Side::Second, body2.kind, body2.sleeping),
            );
            let softness = Softness::from_bits(self.softness.select(record.softness));
            let normal = manifold.normal;
            let (tangent1, tangent2) = normal.any_orthonormal_pair();
            let tangents = [tangent1, tangent2];
            let points = manifold
                .points
                .iter()
                .zip(warm.iter())
                .map(|(point, warm_point)| {
                    let anchor1 = body1.rotation * point.local_anchor1;
                    let anchor2 = body2.rotation * point.local_anchor2;
                    let relative = (body2.linear_velocity + body2.angular_velocity.cross(anchor2))
                        - (body1.linear_velocity + body1.angular_velocity.cross(anchor1));
                    let mass_along = |direction: Vec3| {
                        effective_mass(&inertia1, &inertia2, anchor1, anchor2, direction)
                    };
                    ContactPoint {
                        anchor1,
                        anchor2,
                        initial_separation: (-point.penetration).min(CONTACT_MARGIN),
                        pre_solve_normal_speed: relative.dot(normal),
                        normal_mass: mass_along(normal),
                        normal_impulse: f32::from_bits(warm_point.normal_impulse),
                        tangent_mass: (manifold.friction > 0.0)
                            .then(|| [mass_along(tangent1), mass_along(tangent2)]),
                        tangent_impulse: warm_point
                            .tangent_impulse
                            .map_or([0.0, 0.0], |t| [f32::from_bits(t.x), f32::from_bits(t.y)]),
                    }
                })
                .collect();
            self.numerics.push(ContactNumerics {
                body1: manifold.body1,
                body2: manifold.body2,
                normal,
                friction: manifold.friction,
                restitution: manifold.restitution,
                softness,
                tangents,
                points,
            });
            self.records.0.push(record);
        }
    }

    fn prepare_solver_bodies(&mut self) {
        let states: Vec<BodyState> = self
            .bodies
            .iter()
            .enumerate()
            .map(|(index, body)| BodyState {
                entity: World::entity(index),
                kind: body.kind,
                sleeping: body.sleeping,
            })
            .collect();
        let changes = self.solver_bodies.prepare(&states);
        for (body, change) in self.bodies.iter_mut().zip(changes.iter()) {
            match change {
                SolverBodyChange::Create | SolverBodyChange::Refresh => {
                    body.solver = Some(SolverBody {
                        linear_velocity: body.linear_velocity,
                        angular_velocity: body.angular_velocity,
                        delta_position: Vec3::ZERO,
                        delta_rotation: Quat::IDENTITY,
                        flags: SolverBodyFlags::new(
                            body.locked,
                            body.kind == RigidBodyKind::Kinematic,
                        ),
                    });
                }
                SolverBodyChange::Remove | SolverBodyChange::Skip => body.solver = None,
            }
        }
    }

    fn prepare_inertia(&mut self) {
        for body in &mut self.bodies {
            if let Some(solver) = &body.solver {
                body.inertia = body.effective_inertia(
                    solver.delta_rotation * body.rotation,
                    solver.flags.counts_mass(),
                );
            }
        }
    }

    fn integrate_velocities(&mut self) {
        let h = self.substep_secs();
        for body in &mut self.bodies {
            if let Some(solver) = &mut body.solver {
                let proposed = BodyVelocity {
                    linear: vector_bits(solver.linear_velocity + self.gravity * h),
                    angular: vector_bits(solver.angular_velocity),
                };
                let open = solver.flags.counts_mass();
                let after = commit_velocity(
                    solver.velocity(),
                    proposed,
                    open,
                    open,
                    solver.flags.locked_axes(),
                );
                solver.set_velocity(after);
            }
        }
    }

    fn integrate_positions(&mut self) {
        let h = self.substep_secs();
        for body in &mut self.bodies {
            if let Some(solver) = &mut body.solver {
                solver.delta_position += solver.linear_velocity * h;
                solver.delta_rotation =
                    (Quat::from_scaled_axis(solver.angular_velocity * h) * solver.delta_rotation)
                        .normalize();
            }
        }
    }

    fn fetch(&self, indices: [usize; 2], chosen: &ContactBodies) -> (SolverBody, SolverBody, Inertia, Inertia) {
        let own = |index: usize| {
            let body = &self.bodies[index];
            (body.solver.unwrap_or(SolverBody::dummy()), body.inertia)
        };
        let (own1, own_inertia1) = own(indices[0]);
        let (own2, own_inertia2) = own(indices[1]);
        (
            chosen.body1.pick(own1, SolverBody::dummy()),
            chosen.body2.pick(own2, SolverBody::dummy()),
            chosen.inertia1.pick(own_inertia1, Inertia::dummy()),
            chosen.inertia2.pick(own_inertia2, Inertia::dummy()),
        )
    }

    fn write_back(&mut self, indices: [usize; 2], chosen: &ContactBodies, proposed: [SolverBody; 2]) {
        for (side, index, proposed) in
            [(Side::First, indices[0], proposed[0]), (Side::Second, indices[1], proposed[1])]
        {
            if let Some(solver) = &mut self.bodies[index].solver {
                let after =
                    chosen.commit(side, solver.flags, solver.velocity(), proposed.velocity());
                solver.set_velocity(after);
            }
        }
    }

    fn watch_impulses(&mut self) {
        for numerics in &self.numerics {
            for point in &numerics.points {
                self.trace.least_normal_impulse =
                    self.trace.least_normal_impulse.min(point.normal_impulse);
                if point.tangent_mass.is_some() {
                    let limit = numerics.friction * point.normal_impulse;
                    for impulse in point.tangent_impulse {
                        self.trace.worst_cone_excess =
                            self.trace.worst_cone_excess.max(impulse.abs() - limit);
                    }
                }
            }
        }
    }

    fn warm_start(&mut self) {
        assert!(self.records.is_well_formed());
        let plan = self.records.plan_pass(&self.solver_bodies);
        let coefficient = self.config.warm_start_coefficient.clamp(0.0, 1.0);
        for (place, chosen) in plan.iter().enumerate() {
            let indices = [self.numerics[place].body1, self.numerics[place].body2];
            let (mut body1, mut body2, inertia1, inertia2) = self.fetch(indices, chosen);
            let numerics = &mut self.numerics[place];
            let tangents = numerics.tangent_directions(body1.linear_velocity, body2.linear_velocity);
            numerics.warm_start(&mut body1, &mut body2, &inertia1, &inertia2, tangents, coefficient);
            self.write_back(indices, chosen, [body1, body2]);
        }
    }

    fn solve_contacts(&mut self, use_bias: bool) {
        assert!(self.records.is_well_formed());
        let h = self.substep_secs();
        let max_overlap_solve_speed = self.config.max_overlap_solve_speed * self.config.length_unit;
        let plan = self.records.plan_pass(&self.solver_bodies);
        for (place, chosen) in plan.iter().enumerate() {
            let indices = [self.numerics[place].body1, self.numerics[place].body2];
            let (mut body1, mut body2, inertia1, inertia2) = self.fetch(indices, chosen);
            let numerics = &mut self.numerics[place];
            if use_bias && self.trace.first_residual.is_none() {
                let point = &numerics.points[0];
                let relative = velocity_at(&body2, body2.delta_rotation * point.anchor2)
                    - velocity_at(&body1, body1.delta_rotation * point.anchor1);
                self.trace.first_residual = Some(relative.dot(numerics.normal));
            }
            numerics.solve(
                &mut body1,
                &mut body2,
                &inertia1,
                &inertia2,
                h,
                use_bias,
                max_overlap_solve_speed,
            );
            self.write_back(indices, chosen, [body1, body2]);
        }
        self.watch_impulses();
    }

    fn solve_restitution(&mut self) {
        assert!(self.records.is_well_formed());
        let threshold = self.config.restitution_threshold * self.config.length_unit;
        let plan = self.records.plan_restitution(&self.solver_bodies, self.config.restitution_iterations);
        for (place, solve) in plan.iter().enumerate() {
            let Some(solve) = solve else {
                continue;
            };
            let indices = [self.numerics[place].body1, self.numerics[place].body2];
            let (mut body1, mut body2, inertia1, inertia2) = self.fetch(indices, &solve.bodies);
            for _ in 0..solve.iterations {
                self.numerics[place].apply_restitution(
                    &mut body1,
                    &mut body2,
                    &inertia1,
                    &inertia2,
                    threshold,
                );
            }
            self.write_back(indices, &solve.bodies, [body1, body2]);
        }
        self.watch_impulses();
    }

    fn solve_rods(&mut self) {
        let h = self.substep_secs();
        for place in 0..self.rods.len() {
            let rod = self.rods[place];
            let correction =
                joint_correction(self.bodies[rod.body1].kind, self.bodies[rod.body2].kind);
            if !correction.is_solved() {
                continue;
            }
            let solver1 = self.bodies[rod.body1].solver.unwrap_or(SolverBody::dummy());
            let solver2 = self.bodies[rod.body2].solver.unwrap_or(SolverBody::dummy());
            let weight1 = if correction.body1 && self.bodies[rod.body1].solver.is_some() {
                self.bodies[rod.body1].inertia.inv_mass
            } else {
                Vec3::ZERO
            };
            let weight2 = if correction.body2 && self.bodies[rod.body2].solver.is_some() {
                self.bodies[rod.body2].inertia.inv_mass
            } else {
                Vec3::ZERO
            };

            let apart = (self.bodies[rod.body2].position + solver2.delta_position)
                - (self.bodies[rod.body1].position + solver1.delta_position);
            let distance = apart.length();
            if distance <= f32::EPSILON {
                continue;
            }
            let direction = apart / distance;
            let weights = (weight1 + weight2).dot(direction * direction);
            let scaled = rod.compliance / (h * h);
            if weights + scaled <= f32::EPSILON {
                continue;
            }
            let error = distance - rod.rest_length;
            let step = (-error - scaled * rod.multiplier) / (weights + scaled);
            self.rods[place].multiplier += step;
            let push = direction * step;

            let mut proposed1 = solver1;
            let mut proposed2 = solver2;
            proposed1.delta_position -= push * weight1;
            proposed2.delta_position += push * weight2;

            let after1 = correction.commit(
                Side::First,
                solver1.flags.locked_axes(),
                solver1.deltas(),
                proposed1.deltas(),
            );
            let after2 = correction.commit(
                Side::Second,
                solver2.flags.locked_axes(),
                solver2.deltas(),
                proposed2.deltas(),
            );
            if let Some(solver) = &mut self.bodies[rod.body1].solver {
                solver.set_deltas(after1);
            }
            if let Some(solver) = &mut self.bodies[rod.body2].solver {
                solver.set_deltas(after2);
            }
        }
    }

    fn project_linear_velocity(&mut self) {
        let h = self.substep_secs();
        for body in &mut self.bodies {
            if let Some(solver) = &mut body.solver {
                let linear = solver.linear_velocity
                    + (solver.delta_position - body.pre_solve_delta_position) / h;
                let proposed = BodyVelocity {
                    linear: vector_bits(linear),
                    angular: vector_bits(solver.angular_velocity),
                };
                let after = commit_projection(
                    solver.flags,
                    VelocityPart::Linear,
                    solver.velocity(),
                    proposed,
                );
                solver.set_velocity(after);
            }
        }
    }

    fn project_angular_velocity(&mut self) {
        let h = self.substep_secs();
        for body in &mut self.bodies {
            if let Some(solver) = &mut body.solver {
                let turn = solver.delta_rotation * body.pre_solve_delta_rotation.inverse();
                let mut angular = Vec3::new(turn.x, turn.y, turn.z) * (2.0 / h);
                if turn.w < 0.0 {
                    angular = -angular;
                }
                let proposed = BodyVelocity {
                    linear: vector_bits(solver.linear_velocity),
                    angular: vector_bits(solver.angular_velocity + angular),
                };
                let after = commit_projection(
                    solver.flags,
                    VelocityPart::Angular,
                    solver.velocity(),
                    proposed,
                );
                solver.set_velocity(after);
            }
        }
    }

    fn damp_rods(&mut self) {
        let h = self.substep_secs();
        for rod in self.rods.clone() {
            let solver1 = self.bodies[rod.body1].solver.unwrap_or(SolverBody::dummy());
            let solver2 = self.bodies[rod.body2].solver.unwrap_or(SolverBody::dummy());
            let body1 = &self.bodies[rod.body1];
            let body2 = &self.bodies[rod.body2];
            let plan = joint_damping(
                JointBody { kind: body1.kind, dominance: body1.dominance },
                JointBody { kind: body2.kind, dominance: body2.dominance },
            );

            let delta_omega = (solver2.angular_velocity - solver1.angular_velocity)
                * (rod.damping_angular * h).min(1.0);
            let delta_v = (solver2.linear_velocity - solver1.linear_velocity)
                * (rod.damping_linear * h).min(1.0);
            let w1 = if plan.weighted1 { body1.inverse_mass() } else { 0.0 };
            let w2 = if plan.weighted2 { body2.inverse_mass() } else { 0.0 };
            let (linear1, linear2) = if w1 + w2 <= f32::EPSILON {
                (solver1.linear_velocity, solver2.linear_velocity)
            } else {
                let p = delta_v / (w1 + w2);
                (
                    solver1.linear_velocity + p * body1.inverse_mass(),
                    solver2.linear_velocity - p * body2.inverse_mass(),
                )
            };
            let after1 = plan.commit(
                Side::First,
                solver1.flags.locked_axes(),
                solver1.velocity(),
                BodyVelocity {
                    linear: vector_bits(linear1),
                    angular: vector_bits(solver1.angular_velocity + delta_omega),
                },
            );
            let after2 = plan.commit(
                Side::Second,
                solver2.flags.locked_axes(),
                solver2.velocity(),
                BodyVelocity {
                    linear: vector_bits(linear2),
                    angular: vector_bits(solver2.angular_velocity - delta_omega),
                },
            );
            if let Some(solver) = &mut self.bodies[rod.body1].solver {
                solver.set_velocity(after1);
            }
            if let Some(solver) = &mut self.bodies[rod.body2].solver {
                solver.set_velocity(after2);
            }
        }
    }

    fn finalize(&mut self) {
        for body in &mut self.bodies {
            if let Some(solver) = &mut body.solver {
                body.position += solver.delta_position;
                body.rotation = (solver.delta_rotation * body.rotation).normalize();
                body.linear_velocity = solver.linear_velocity;
                body.angular_velocity = solver.angular_velocity;
                solver.delta_position = Vec3::ZERO;
                solver.delta_rotation = Quat::IDENTITY;
            }
        }
    }

    fn store_contact_impulses(&mut self) {
        for (record, numerics) in self.records.0.iter_mut().zip(self.numerics.iter()) {
            record.points = numerics.points.iter().map(|point| point.record()).collect();
        }
        assert!(self.graph.resolves_all(&self.records));
        store_contact_impulses(&self.records, &mut self.graph);
    }
}

fn unit_cube(position: Vec3) -> Body {
    Body::new(RigidBodyKind::Dynamic, Shape::Block(Vec3::splat(0.5)), position)
}

#[test]
fn box_on_ground() {
    let mut world = World::new(vec![Body::ground(), unit_cube(Vec3::new(0.0, 1.0, 0.0))]);
    world.run_for(2.0);
    let cube = &world.bodies[1];
    assert!((cube.position.y - 0.5).abs() < 1e-2);
    assert!(cube.linear_velocity.length() < 1e-2);
    assert!(cube.position.x.abs() < 1e-2);
    assert!(cube.position.z.abs() < 1e-2);
}

fn ball(position: Vec3) -> Body {
    Body::new(RigidBodyKind::Dynamic, Shape::Ball(0.5), position)
}

fn tilted_gravity(degrees: f32) -> Vec3 {
    let angle = degrees.to_radians();
    Vec3::new(angle.sin(), -angle.cos(), 0.0) * 9.81
}

fn slab_on_incline(degrees: f32) -> World {
    let mut ground = Body::ground();
    ground.friction = 0.6;
    let mut slab = Body::new(
        RigidBodyKind::Dynamic,
        Shape::Block(Vec3::new(0.5, 0.1, 0.5)),
        Vec3::new(0.0, 0.1, 0.0),
    );
    slab.friction = 0.6;
    let mut world = World::new(vec![ground, slab]);
    world.gravity = tilted_gravity(degrees);
    world
}

#[test]
fn a_step_runs_the_phases_in_order() {
    let mut world = World::new(vec![Body::ground(), unit_cube(Vec3::new(0.0, 0.5, 0.0))]);
    world.substeps = 3;
    world.step();
    let phases = &world.trace.phases;
    assert_eq!(phases.len() as u64, SolverLoop::new(3).total_phases());
    assert_eq!(phases[0], Phase::UpdateContactSoftness);
    assert_eq!(*phases.last().unwrap(), Phase::StoreContactImpulses);
    assert_eq!(phases.iter().filter(|phase| **phase == Phase::WarmStart).count(), 3);
    assert_eq!(phases.iter().filter(|phase| **phase == Phase::Restitution).count(), 1);
}

#[test]
fn stack_of_three_cubes() {
    let mut world = World::new(vec![
        Body::ground(),
        unit_cube(Vec3::new(0.0, 0.5, 0.0)),
        unit_cube(Vec3::new(0.0, 1.5, 0.0)),
        unit_cube(Vec3::new(0.0, 2.5, 0.0)),
    ]);
    world.run_for(2.0);
    for (index, height) in [(1, 0.5), (2, 1.5), (3, 2.5)] {
        let cube = &world.bodies[index];
        assert!((cube.position.y - height).abs() < 2e-2);
    }
    for (lower, upper) in [(1, 2), (2, 3)] {
        let across = world.bodies[upper].position - world.bodies[lower].position;
        assert!(Vec3::new(across.x, 0.0, across.z).length() < 1e-2);
    }
}

#[test]
fn perfect_bounce() {
    let mut ground = Body::ground();
    ground.restitution = 1.0;
    let mut dropped = ball(Vec3::new(0.0, 2.0, 0.0));
    dropped.restitution = 1.0;
    let mut world = World::new(vec![ground, dropped]);

    let mut bounced = false;
    let mut peak: f32 = 0.0;
    for _ in 0..240 {
        world.step();
        let height = world.bodies[1].position.y;
        let rising = world.bodies[1].linear_velocity.y > 0.0;
        if rising {
            bounced = true;
        }
        if bounced {
            if !rising {
                break;
            }
            peak = peak.max(height);
        }
    }
    assert!(bounced);
    assert!(peak >= 2.0 - 5e-2);
}

#[test]
fn friction_cone_holds_below_the_friction_angle() {
    let mut world = slab_on_incline(20.0);
    for _ in 0..300 {
        world.step();
        assert!(world.bodies[1].linear_velocity.length() < 1e-3);
    }
}

#[test]
fn friction_cone_slides_above_the_friction_angle() {
    let degrees: f32 = 40.0;
    let mut world = slab_on_incline(degrees);
    world.run_for(1.0);
    let angle = degrees.to_radians();
    let expected = 9.81 * (angle.sin() - 0.6 * angle.cos());
    let speed = world.bodies[1].linear_velocity.x;
    assert!((speed - expected).abs() < 0.05 * expected);
}

#[test]
fn distance_joint() {
    let mut world = World::new(vec![
        Body::new(RigidBodyKind::Dynamic, Shape::Ball(0.1), Vec3::new(-1.0, 0.0, 0.0)),
        Body::new(RigidBodyKind::Dynamic, Shape::Ball(0.1), Vec3::new(1.0, 0.0, 0.0)),
    ]);
    world.gravity = Vec3::ZERO;
    world.rods.push(Rod {
        body1: 0,
        body2: 1,
        rest_length: 1.0,
        compliance: 0.0,
        damping_linear: 1.0,
        damping_angular: 1.0,
        multiplier: 0.0,
    });
    world.run_for(0.5);
    let distance = (world.bodies[1].position - world.bodies[0].position).length();
    assert!((0.99..=1.01).contains(&distance));
}

#[test]
fn distance_joint_does_not_move_a_static_body() {
    let mut world = World::new(vec![
        Body::new(RigidBodyKind::Static, Shape::Ball(0.1), Vec3::new(-1.0, 0.0, 0.0)),
        Body::new(RigidBodyKind::Dynamic, Shape::Ball(0.1), Vec3::new(1.0, 0.0, 0.0)),
    ]);
    world.gravity = Vec3::ZERO;
    world.rods.push(Rod {
        body1: 0,
        body2: 1,
        rest_length: 1.0,
        compliance: 0.0,
        damping_linear: 1.0,
        damping_angular: 1.0,
        multiplier: 0.0,
    });
    world.run_for(0.5);
    assert_eq!(world.bodies[0].position, Vec3::new(-1.0, 0.0, 0.0));
    assert_eq!(world.bodies[0].linear_velocity, Vec3::ZERO);
    let distance = (world.bodies[1].position - world.bodies[0].position).length();
    assert!((0.99..=1.01).contains(&distance));
}

#[test]
fn dominance_override_in_a_step() {
    let mut upper = unit_cube(Vec3::new(0.0, 1.0, 0.0));
    upper.dominance = Some(10);
    upper.linear_velocity = Vec3::new(0.25, -1.0, 0.0);
    upper.angular_velocity = Vec3::new(0.0, 0.5, 0.0);
    let mut lower = unit_cube(Vec3::ZERO);
    lower.dominance = Some(0);
    let mut world = World::new(vec![upper, lower]);
    world.gravity = Vec3::ZERO;

    let before = world.bodies[0].clone();
    world.step();
    assert!(!world.numerics.is_empty());
    assert_eq!(world.records.0[0].relative_dominance, 10);
    let after = &world.bodies[0];
    assert_eq!(vector_bits(after.linear_velocity), vector_bits(before.linear_velocity));
    assert_eq!(vector_bits(after.angular_velocity), vector_bits(before.angular_velocity));
    assert!(world.bodies[1].linear_velocity.y < 0.0);
}

#[test]
fn kinematic_body_keeps_its_velocity() {
    let mut platform = Body::new(
        RigidBodyKind::Kinematic,
        Shape::Block(Vec3::new(2.0, 0.5, 2.0)),
        Vec3::ZERO,
    );
    platform.linear_velocity = Vec3::new(0.5, 0.0, 0.0);
    let rider = unit_cube(Vec3::new(0.0, 1.0, 0.0));
    let mut world = World::new(vec![platform, rider]);
    for step in 1..=60 {
        world.step();
        let platform = &world.bodies[0];
        assert_eq!(vector_bits(platform.linear_velocity), vector_bits(Vec3::new(0.5, 0.0, 0.0)));
        assert_eq!(vector_bits(platform.angular_velocity), vector_bits(Vec3::ZERO));
        assert!((platform.position.x - 0.5 * step as f32 / 60.0).abs() < 1e-4);
        assert_eq!(platform.position.y, 0.0);
    }
    assert!(!world.numerics.is_empty());
    assert!(world.bodies[1].linear_velocity.x > 0.4);
}

#[test]
fn locked_axis_keeps_its_velocity() {
    let mut world = slab_on_incline(40.0);
    world.bodies[1].locked = LockedAxes::new().lock_translation(Axis::X).lock_rotation(Axis::Z);
    for _ in 0..60 {
        world.step();
        let slab = &world.bodies[1];
        assert_eq!(slab.linear_velocity.x.to_bits(), 0.0f32.to_bits());
        assert_eq!(slab.angular_velocity.z.to_bits(), 0.0f32.to_bits());
        assert_eq!(slab.position.x, 0.0);
    }
}

#[test]
fn normal_impulses_stay_at_or_above_zero_and_friction_inside_the_cone() {
    let mut worlds = vec![
        World::new(vec![Body::ground(), unit_cube(Vec3::new(0.0, 1.0, 0.0))]),
        slab_on_incline(20.0),
        slab_on_incline(40.0),
    ];
    let mut bouncing = World::new(vec![Body::ground(), ball(Vec3::new(0.0, 2.0, 0.0))]);
    bouncing.bodies[0].restitution = 1.0;
    worlds.push(bouncing);
    for world in &mut worlds {
        for _ in 0..120 {
            world.step();
            if !world.numerics.is_empty() {
                assert!(world.trace.least_normal_impulse >= 0.0);
                assert!(world.trace.worst_cone_excess <= 0.0);
            }
        }
    }
}

#[test]
fn single_contact_reaches_the_analytic_impulse() {
    let mut world = World::new(vec![Body::ground(), ball(Vec3::new(0.0, 0.5, 0.0))]);
    world.config.warm_start_coefficient = 0.0;
    world.run_for(1.0);
    assert_eq!(world.numerics.len(), 1);
    assert_eq!(world.numerics[0].points.len(), 1);
    let analytic = 1.0 * 9.81 * world.substep_secs();
    let impulse = world.numerics[0].points[0].normal_impulse;
    assert!((impulse - analytic).abs() < 1e-2 * analytic);
    assert!(world.bodies[1].linear_velocity.length() < 1e-3);
}

#[test]
fn warm_start_reduces_the_first_residual() {
    let mut warm = World::new(vec![Body::ground(), ball(Vec3::new(0.0, 0.5, 0.0))]);
    let mut cold = World::new(vec![Body::ground(), ball(Vec3::new(0.0, 0.5, 0.0))]);
    cold.config.warm_start_coefficient = 0.0;
    warm.run_for(0.5);
    cold.run_for(0.5);
    let warm_residual = warm.trace.first_residual.unwrap().abs();
    let cold_residual = cold.trace.first_residual.unwrap().abs();
    assert!(cold_residual > 0.0);
    assert!(warm_residual < cold_residual);
}
