use solver_core::body::RigidBodyKind;
use solver_core::softness::softness_kind;
use solver_core::softness::ContactSoftnessCoefficients;
use solver_core::softness::SoftnessCoefficients;
use solver_core::softness::SoftnessInputs;
use solver_core::softness::SoftnessKind;

fn coefficients() -> ContactSoftnessCoefficients {
    ContactSoftnessCoefficients {
        dynamic: SoftnessCoefficients {
            bias_coefficient: 0.25f32.to_bits(),
            mass_coefficient: 0.5f32.to_bits(),
            impulse_scale: 0.5f32.to_bits(),
        },
        non_dynamic: SoftnessCoefficients {
            bias_coefficient: 0.375f32.to_bits(),
            mass_coefficient: 0.75f32.to_bits(),
            impulse_scale: 0.25f32.to_bits(),
        },
    }
}

#[test]
fn softness_kind_for_all_pairs_of_kinds() {
    let kinds = [RigidBodyKind::Static, RigidBodyKind::Kinematic, RigidBodyKind::Dynamic];
    for kind1 in kinds {
        for kind2 in kinds {
            let expected = if kind1 == RigidBodyKind::Dynamic && kind2 == RigidBodyKind::Dynamic {
                SoftnessKind::Dynamic
            } else {
                SoftnessKind::NonDynamic
            };
            assert_eq!(softness_kind(kind1, kind2), expected);
            assert_eq!(softness_kind(kind1, kind2), softness_kind(kind2, kind1));
        }
    }
}

#[test]
fn select_picks_the_set_of_the_kind() {
    let all = coefficients();
    assert_eq!(all.select(SoftnessKind::Dynamic), all.dynamic);
    assert_eq!(all.select(SoftnessKind::NonDynamic), all.non_dynamic);
    assert_eq!(f32::from_bits(all.select(SoftnessKind::NonDynamic).mass_coefficient), 0.75);
}

#[test]
fn contacts_with_a_fixed_body_use_the_stiffer_set() {
    let all = coefficients();
    assert_eq!(all.for_bodies(RigidBodyKind::Dynamic, RigidBodyKind::Dynamic), all.dynamic);
    assert_eq!(all.for_bodies(RigidBodyKind::Dynamic, RigidBodyKind::Static), all.non_dynamic);
    assert_eq!(all.for_bodies(RigidBodyKind::Kinematic, RigidBodyKind::Dynamic), all.non_dynamic);
    assert_eq!(all.for_bodies(RigidBodyKind::Static, RigidBodyKind::Static), all.non_dynamic);
}

#[test]
fn coefficients_are_stale_when_any_input_changed() {
    for config_changed in [false, true] {
        for physics_time_changed in [false, true] {
            for substep_time_changed in [false, true] {
                let inputs = SoftnessInputs { config_changed, physics_time_changed, substep_time_changed };
                assert_eq!(
                    inputs.needs_update(),
                    config_changed || physics_time_changed || substep_time_changed
                );
            }
        }
    }
}
