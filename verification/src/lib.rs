//! Decision layer of a substepped rigid-body constraint solver.
//!
//! The crate holds the discrete rules of the solver: in which order the
//! phases of a step run, which bodies have a solver body, which records a
//! contact or a joint hands to the numeric kernel, what of the kernel's
//! results reaches a body, and how contact impulses are carried from one
//! step to the next. The scalars that the kernels compute are moved around
//! as raw bit patterns and never interpreted here.

pub mod body;
pub mod commit;
pub mod contact;
pub mod diagnostics;
pub mod graph;
pub mod joint;
pub mod scalar;
pub mod schedule;
pub mod softness;

pub use body::SolverBodies;
pub use commit::commit_deltas;
pub use commit::commit_velocity;
pub use contact::ContactConstraint;
pub use contact::ContactConstraints;
pub use diagnostics::SolverDiagnostics;
pub use graph::store_contact_impulses;
pub use graph::ContactGraph;
pub use joint::joint_damping;
pub use schedule::Phase;
pub use schedule::SolverLoop;
pub use softness::ContactSoftnessCoefficients;
