use ark_ec::{AffineCurve, ProjectiveCurve};
use ark_serialize::CanonicalSerialize;
use ark_std::{test_rng, UniformRand};
use native_boundary::codec::GroupAffine;
use native_boundary::curves::BoundaryCurves;

fn affine<A: CanonicalSerialize>(a: &A) -> GroupAffine {
    let mut v = Vec::new();
    a.serialize_uncompressed(&mut v).unwrap();
    GroupAffine::new(v)
}

#[test]
fn pallas_test_generator() {
    let generator = affine(&ark_pallas::Affine::prime_subgroup_generator());
    assert!(generator.is_on_curve(BoundaryCurves::Pallas));
    assert!(generator.is_in_correct_subgroup_assuming_on_curve(BoundaryCurves::Pallas));
}

#[test]
fn ed_on_bls12_377_test_generator() {
    let generator = affine(&ark_ed_on_bls12_377::EdwardsAffine::prime_subgroup_generator());
    assert!(generator.is_on_curve(BoundaryCurves::EdBls12_377));
    assert!(generator.is_in_correct_subgroup_assuming_on_curve(BoundaryCurves::EdBls12_377));
}

#[test]
fn test_g1_generator() {
    let generator = affine(&ark_mnt4_298::G1Affine::prime_subgroup_generator());
    assert!(generator.is_on_curve(BoundaryCurves::MNT4_298G1));
    assert!(generator.is_in_correct_subgroup_assuming_on_curve(BoundaryCurves::MNT4_298G1));
}

#[test]
fn test_g2_generator() {
    let generator = affine(&ark_mnt4_298::G2Affine::prime_subgroup_generator());
    assert!(generator.is_on_curve(BoundaryCurves::MNT4_298G2));
    assert!(generator.is_in_correct_subgroup_assuming_on_curve(BoundaryCurves::MNT4_298G2));
}

#[test]
fn off_curve_and_unreadable_encodings_are_refused() {
    let mut rng = test_rng();
    let p = ark_pallas::Projective::rand(&mut rng).into_affine();
    let mut bad = p;
    bad.y = bad.x;
    assert!(!affine(&bad).is_on_curve(BoundaryCurves::Pallas));
    assert!(affine(&p).is_on_curve(BoundaryCurves::Pallas));
    assert!(!GroupAffine::new(vec![0xffu8; 65]).is_on_curve(BoundaryCurves::Pallas));
    assert!(!GroupAffine::new(vec![]).is_in_correct_subgroup_assuming_on_curve(BoundaryCurves::Pallas));
    // Pallas bytes are no MNT4 point.
    assert!(!affine(&p).is_on_curve(BoundaryCurves::MNT4_298G1));
}
