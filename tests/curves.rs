use ark_ec::{AffineCurve, ProjectiveCurve, SWModelParameters, TEModelParameters};
use ark_ff::Field;
use native_boundary::curves::{
    compare_affine_type, compare_ed_parameters, compare_projective_type, compare_sw_parameters,
    BoundaryCurves, CurveParameters, CurveRegistry, CurveType, UnsupportedCurve,
};

fn assert_u8_try_from(p: BoundaryCurves) {
    let back = BoundaryCurves::try_from_u8(p.to_u8()).unwrap();
    assert_eq!(p, back);
}

fn affine_parameters<A: AffineCurve>(curve_type: CurveType) -> CurveParameters {
    CurveParameters {
        curve_type,
        base_characteristic: A::BaseField::characteristic().to_vec(),
        scalar_characteristic: A::ScalarField::characteristic().to_vec(),
        cofactor: A::COFACTOR.to_vec(),
    }
}

fn projective_parameters<G: ProjectiveCurve>(curve_type: CurveType) -> CurveParameters {
    CurveParameters {
        curve_type,
        base_characteristic: G::BaseField::characteristic().to_vec(),
        scalar_characteristic: G::ScalarField::characteristic().to_vec(),
        cofactor: G::COFACTOR.to_vec(),
    }
}

fn sw_parameters<P: SWModelParameters>() -> CurveParameters {
    CurveParameters {
        curve_type: CurveType::SW,
        base_characteristic: P::BaseField::characteristic().to_vec(),
        scalar_characteristic: P::ScalarField::characteristic().to_vec(),
        cofactor: P::COFACTOR.to_vec(),
    }
}

fn te_parameters<P: TEModelParameters>() -> CurveParameters {
    CurveParameters {
        curve_type: CurveType::ED,
        base_characteristic: P::BaseField::characteristic().to_vec(),
        scalar_characteristic: P::ScalarField::characteristic().to_vec(),
        cofactor: P::COFACTOR.to_vec(),
    }
}

#[test]
fn mod_test_from_u8() {
    assert_u8_try_from(BoundaryCurves::Pallas);
    assert_u8_try_from(BoundaryCurves::EdBls12_377);
    assert_u8_try_from(BoundaryCurves::MNT4_298G1);
    assert_u8_try_from(BoundaryCurves::MNT4_298G2);
}

#[test]
fn test_from_u8() {
    assert_u8_try_from(BoundaryCurves::Pallas);
    assert_u8_try_from(BoundaryCurves::EdBls12_377);
    assert_u8_try_from(BoundaryCurves::MNT4_298G1);
    assert_u8_try_from(BoundaryCurves::MNT4_298G2);
}

#[test]
fn curves_test_from_u8() {
    assert_u8_try_from(BoundaryCurves::Pallas);
    assert_u8_try_from(BoundaryCurves::EdBls12_377);
    assert_u8_try_from(BoundaryCurves::MNT4_298G1);
    assert_u8_try_from(BoundaryCurves::MNT4_298G2);
}

#[test]
fn tag_bytes_are_fixed_and_unknown_bytes_refused() {
    assert_eq!(BoundaryCurves::Pallas.to_u8(), 0);
    assert_eq!(BoundaryCurves::EdBls12_377.to_u8(), 1);
    assert_eq!(BoundaryCurves::MNT4_298G1.to_u8(), 2);
    assert_eq!(BoundaryCurves::MNT4_298G2.to_u8(), 3);
    assert_eq!(BoundaryCurves::try_from_u8(4), None);
    assert_eq!(BoundaryCurves::try_from_u8(255), None);
}

#[test]
fn test_from_affine() {
    let registry = CurveRegistry::supported();
    let from_affine = |p: CurveParameters| BoundaryCurves::try_from_affine(&registry, &p).unwrap();
    // pallas
    assert_eq!(
        from_affine(affine_parameters::<ark_pallas::Affine>(CurveType::SW)),
        BoundaryCurves::Pallas
    );
    // ed_on_bls12_377
    assert_eq!(
        from_affine(affine_parameters::<ark_ed_on_bls12_377::EdwardsAffine>(CurveType::ED)),
        BoundaryCurves::EdBls12_377
    );
    // mnt4_298
    assert_eq!(
        from_affine(affine_parameters::<ark_mnt4_298::G1Affine>(CurveType::SW)),
        BoundaryCurves::MNT4_298G1
    );
    assert_eq!(
        from_affine(affine_parameters::<ark_mnt4_298::G2Affine>(CurveType::SW)),
        BoundaryCurves::MNT4_298G2
    );
}

#[test]
fn projective_types_resolve_like_affine_ones() {
    let registry = CurveRegistry::supported();
    let from_projective = |p: CurveParameters| BoundaryCurves::try_from_projective(&registry, &p).unwrap();
    assert_eq!(
        from_projective(projective_parameters::<ark_pallas::Projective>(CurveType::SW)),
        BoundaryCurves::Pallas
    );
    assert_eq!(
        from_projective(projective_parameters::<ark_ed_on_bls12_377::EdwardsProjective>(
            CurveType::ED
        )),
        BoundaryCurves::EdBls12_377
    );
    assert_eq!(
        from_projective(projective_parameters::<ark_mnt4_298::G1Projective>(CurveType::SW)),
        BoundaryCurves::MNT4_298G1
    );
    assert_eq!(
        from_projective(projective_parameters::<ark_mnt4_298::G2Projective>(CurveType::SW)),
        BoundaryCurves::MNT4_298G2
    );
}

#[test]
fn mod_test_from_wrapped() {
    let registry = CurveRegistry::supported();
    let from_curve = |p: CurveParameters| BoundaryCurves::try_from_curve(&registry, &p).unwrap();
    // pallas
    assert_eq!(from_curve(affine_parameters::<ark_pallas::Affine>(CurveType::SW)), BoundaryCurves::Pallas);
    assert_eq!(
        from_curve(projective_parameters::<ark_pallas::Projective>(CurveType::SW)),
        BoundaryCurves::Pallas
    );
    // ed_on_bls12_377
    assert_eq!(
        from_curve(affine_parameters::<ark_ed_on_bls12_377::EdwardsAffine>(CurveType::ED)),
        BoundaryCurves::EdBls12_377
    );
    assert_eq!(
        from_curve(projective_parameters::<ark_ed_on_bls12_377::EdwardsProjective>(CurveType::ED)),
        BoundaryCurves::EdBls12_377
    );
    // mnt4_298
    assert_eq!(
        from_curve(affine_parameters::<ark_mnt4_298::G1Affine>(CurveType::SW)),
        BoundaryCurves::MNT4_298G1
    );
    assert_eq!(
        from_curve(projective_parameters::<ark_mnt4_298::G1Projective>(CurveType::SW)),
        BoundaryCurves::MNT4_298G1
    );
    assert_eq!(
        from_curve(affine_parameters::<ark_mnt4_298::G2Affine>(CurveType::SW)),
        BoundaryCurves::MNT4_298G2
    );
    assert_eq!(
        from_curve(projective_parameters::<ark_mnt4_298::G2Projective>(CurveType::SW)),
        BoundaryCurves::MNT4_298G2
    );
}

#[test]
fn curves_test_from_wrapped() {
    let registry = CurveRegistry::supported();
    let from_curve = |p: CurveParameters| BoundaryCurves::try_from_curve(&registry, &p).unwrap();
    assert_eq!(from_curve(affine_parameters::<ark_pallas::Affine>(CurveType::SW)), BoundaryCurves::Pallas);
    assert_eq!(
        from_curve(projective_parameters::<ark_pallas::Projective>(CurveType::SW)),
        BoundaryCurves::Pallas
    );
    // mnt4_298
    assert_eq!(
        from_curve(affine_parameters::<ark_mnt4_298::G1Affine>(CurveType::SW)),
        BoundaryCurves::MNT4_298G1
    );
    assert_eq!(
        from_curve(projective_parameters::<ark_mnt4_298::G2Projective>(CurveType::SW)),
        BoundaryCurves::MNT4_298G2
    );
}

#[test]
fn every_registered_group_resolves_to_its_tag() {
    let registry = CurveRegistry::supported();
    assert!(registry.is_injective());
    assert_eq!(registry.entries.len(), 4);
    for entry in registry.entries.iter() {
        assert_eq!(BoundaryCurves::try_from_curve(&registry, &entry.parameters), Ok(entry.tag));
        assert_eq!(BoundaryCurves::try_from_affine(&registry, &entry.parameters), Ok(entry.tag));
    }
    assert_eq!(registry.entries[0].parameters, sw_parameters::<ark_pallas::PallasParameters>());
    assert_eq!(registry.entries[1].parameters, sw_parameters::<ark_mnt4_298::g1::Parameters>());
    assert_eq!(registry.entries[2].parameters, sw_parameters::<ark_mnt4_298::g2::Parameters>());
    assert_eq!(
        registry.entries[3].parameters,
        te_parameters::<ark_ed_on_bls12_377::EdwardsParameters>()
    );
}

#[test]
fn unregistered_group_is_unsupported() {
    let registry = CurveRegistry::supported();
    let mut other = sw_parameters::<ark_pallas::PallasParameters>();
    other.cofactor = vec![8];
    assert_eq!(BoundaryCurves::try_from_curve(&registry, &other), Err(UnsupportedCurve));
    assert_eq!(BoundaryCurves::try_from_affine(&registry, &other), Err(UnsupportedCurve));
    assert_eq!(BoundaryCurves::try_from_projective(&registry, &other), Err(UnsupportedCurve));
    let mut empty = other.clone();
    empty.base_characteristic = vec![];
    assert_eq!(BoundaryCurves::try_from_curve(&registry, &empty), Err(UnsupportedCurve));
}

#[test]
fn model_is_taken_into_account_only_by_try_from_curve() {
    let registry = CurveRegistry::supported();
    // Pallas invariants under the other model.
    let mut p = sw_parameters::<ark_pallas::PallasParameters>();
    p.curve_type = CurveType::ED;
    assert_eq!(BoundaryCurves::try_from_curve(&registry, &p), Err(UnsupportedCurve));
    assert_eq!(BoundaryCurves::try_from_affine(&registry, &p), Ok(BoundaryCurves::Pallas));
}

#[test]
fn comparisons_follow_invariants_and_model() {
    let pallas = sw_parameters::<ark_pallas::PallasParameters>();
    let g1 = sw_parameters::<ark_mnt4_298::g1::Parameters>();
    let g2 = sw_parameters::<ark_mnt4_298::g2::Parameters>();
    let ed = te_parameters::<ark_ed_on_bls12_377::EdwardsParameters>();
    assert!(compare_affine_type(&pallas, &pallas));
    assert!(compare_projective_type(&g1, &g1));
    assert!(!compare_affine_type(&g1, &g2));
    assert!(compare_sw_parameters(&g2, &g2));
    assert!(!compare_sw_parameters(&ed, &ed));
    assert!(compare_ed_parameters(&ed, &ed));
    assert!(!compare_ed_parameters(&pallas, &pallas));
    assert!(!compare_sw_parameters(&pallas, &g1));
}
