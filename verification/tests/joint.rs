use solver_core::body::RigidBodyKind;
use solver_core::joint::joint_correction;
use solver_core::joint::joint_damping;
use solver_core::joint::JointBody;
use solver_core::joint::JointCorrection;
use solver_core::joint::JointDamping;

fn body(kind: RigidBodyKind, dominance: Option<i8>) -> JointBody {
    JointBody { kind, dominance }
}

#[test]
fn damping_between_equal_dynamic_bodies_changes_both() {
    let plan = joint_damping(
        body(RigidBodyKind::Dynamic, None),
        body(RigidBodyKind::Dynamic, None),
    );
    assert_eq!(
        plan,
        JointDamping {
            angular1: true,
            angular2: true,
            weighted1: true,
            weighted2: true,
            linear1: true,
            linear2: true,
        }
    );
}

#[test]
fn damping_does_not_push_the_dominant_body() {
    let plan = joint_damping(
        body(RigidBodyKind::Dynamic, Some(10)),
        body(RigidBodyKind::Dynamic, Some(0)),
    );
    assert_eq!(
        plan,
        JointDamping {
            angular1: false,
            angular2: true,
            weighted1: true,
            weighted2: true,
            linear1: false,
            linear2: true,
        }
    );

    let plan = joint_damping(
        body(RigidBodyKind::Dynamic, Some(-3)),
        body(RigidBodyKind::Dynamic, None),
    );
    assert_eq!(
        plan,
        JointDamping {
            angular1: true,
            angular2: false,
            weighted1: true,
            weighted2: true,
            linear1: true,
            linear2: false,
        }
    );
}

#[test]
fn missing_dominance_counts_as_zero() {
    assert_eq!(body(RigidBodyKind::Dynamic, None).dominance_or_default(), 0);
    assert_eq!(body(RigidBodyKind::Dynamic, Some(-128)).dominance_or_default(), -128);
    let with_zero = joint_damping(
        body(RigidBodyKind::Dynamic, Some(0)),
        body(RigidBodyKind::Dynamic, Some(1)),
    );
    let with_none = joint_damping(
        body(RigidBodyKind::Dynamic, None),
        body(RigidBodyKind::Dynamic, Some(1)),
    );
    assert_eq!(with_zero, with_none);
}

#[test]
fn damping_spares_static_and_kinematic_bodies() {
    for fixed in [RigidBodyKind::Static, RigidBodyKind::Kinematic] {
        let plan = joint_damping(body(fixed, Some(-5)), body(RigidBodyKind::Dynamic, Some(5)));
        assert_eq!(
            plan,
            JointDamping {
                angular1: false,
                angular2: true,
                weighted1: false,
                weighted2: true,
                linear1: false,
                linear2: true,
            }
        );
        let plan = joint_damping(body(RigidBodyKind::Dynamic, Some(100)), body(fixed, None));
        assert_eq!(
            plan,
            JointDamping {
                angular1: true,
                angular2: false,
                weighted1: true,
                weighted2: false,
                linear1: true,
                linear2: false,
            }
        );
    }
}

#[test]
fn damping_between_two_fixed_bodies_changes_nothing() {
    let plan = joint_damping(
        body(RigidBodyKind::Static, None),
        body(RigidBodyKind::Kinematic, Some(3)),
    );
    assert_eq!(
        plan,
        JointDamping {
            angular1: false,
            angular2: false,
            weighted1: false,
            weighted2: false,
            linear1: false,
            linear2: false,
        }
    );
}

#[test]
fn damping_at_the_ends_of_the_dominance_range() {
    let plan = joint_damping(
        body(RigidBodyKind::Dynamic, Some(i8::MAX)),
        body(RigidBodyKind::Dynamic, Some(i8::MIN)),
    );
    assert!(!plan.linear1 && plan.linear2);
    assert!(!plan.angular1 && plan.angular2);
    let plan = joint_damping(
        body(RigidBodyKind::Dynamic, Some(i8::MIN)),
        body(RigidBodyKind::Dynamic, Some(i8::MIN)),
    );
    assert!(plan.linear1 && plan.linear2);
    assert!(plan.angular1 && plan.angular2);
}

#[test]
fn position_solve_moves_dynamic_bodies_only() {
    assert_eq!(
        joint_correction(RigidBodyKind::Dynamic, RigidBodyKind::Dynamic),
        JointCorrection { body1: true, body2: true }
    );
    assert_eq!(
        joint_correction(RigidBodyKind::Static, RigidBodyKind::Dynamic),
        JointCorrection { body1: false, body2: true }
    );
    assert_eq!(
        joint_correction(RigidBodyKind::Dynamic, RigidBodyKind::Kinematic),
        JointCorrection { body1: true, body2: false }
    );
    let none = joint_correction(RigidBodyKind::Kinematic, RigidBodyKind::Static);
    assert_eq!(none, JointCorrection { body1: false, body2: false });
    assert!(!none.is_solved());
    assert!(joint_correction(RigidBodyKind::Static, RigidBodyKind::Dynamic).is_solved());
}
