use ark_ec::msm::VariableBaseMSM as ArkVariableBaseMSM;
use ark_ec::short_weierstrass_jacobian::{GroupAffine as SwAffine, GroupProjective as SwProjective};
use ark_ec::twisted_edwards_extended::GroupProjective as TeProjective;
use ark_ec::{AffineCurve, ProjectiveCurve, SWModelParameters, TEModelParameters};
use ark_ff::{PrimeField, Zero};
use ark_serialize::{CanonicalDeserialize, CanonicalSerialize};
use ark_std::{test_rng, UniformRand};
use native_boundary::arith::{local_batch_normalization, local_msm};
use native_boundary::boundary::{
    Boundary, CallId, CurveGroup, GroupForm, HostError, NativeBoundary,
};
use native_boundary::codec::{serialize_projectives, GroupAffine, GroupProjective};
use native_boundary::curves::BoundaryCurves;
use native_boundary::dispatch::{complete_bn, complete_msm, BoundaryError, VariableBaseMSM};
use native_boundary::handler::{dummy_host_export_call, DummyBoundary, SimpleNativeCallHandler};

const SAMPLES: usize = 1 << 10;

fn enc<T: CanonicalSerialize>(t: &T) -> Vec<u8> {
    let mut v = Vec::new();
    t.serialize_uncompressed(&mut v).unwrap();
    v
}

fn dec<T: CanonicalDeserialize>(b: &[u8]) -> T {
    T::deserialize_uncompressed(b).unwrap()
}

fn sw_point<P: SWModelParameters>(p: &SwProjective<P>) -> GroupProjective {
    GroupProjective::new(vec![enc(&p.x), enc(&p.y), enc(&p.z)])
}

fn sw_back<P: SWModelParameters>(p: &GroupProjective) -> SwProjective<P> {
    SwProjective::new(dec(&p.coords[0]), dec(&p.coords[1]), dec(&p.coords[2]))
}

fn te_point<P: TEModelParameters>(p: &TeProjective<P>) -> GroupProjective {
    GroupProjective::new(vec![enc(&p.x), enc(&p.y), enc(&p.t), enc(&p.z)])
}

fn te_back<P: TEModelParameters>(p: &GroupProjective) -> TeProjective<P> {
    TeProjective::new(
        dec(&p.coords[0]),
        dec(&p.coords[1]),
        dec(&p.coords[2]),
        dec(&p.coords[3]),
    )
}

/// An arkworks group and its place in the library.
trait Curve: AffineCurve {
    const TAG: BoundaryCurves;
    fn to_lib(p: &Self::Projective) -> GroupProjective;
    fn from_lib(p: &GroupProjective) -> Self::Projective;
}

impl Curve for ark_pallas::Affine {
    const TAG: BoundaryCurves = BoundaryCurves::Pallas;
    fn to_lib(p: &Self::Projective) -> GroupProjective {
        sw_point(p)
    }
    fn from_lib(p: &GroupProjective) -> Self::Projective {
        sw_back(p)
    }
}

impl Curve for ark_ed_on_bls12_377::EdwardsAffine {
    const TAG: BoundaryCurves = BoundaryCurves::EdBls12_377;
    fn to_lib(p: &Self::Projective) -> GroupProjective {
        te_point(p)
    }
    fn from_lib(p: &GroupProjective) -> Self::Projective {
        te_back(p)
    }
}

impl Curve for SwAffine<ark_mnt4_298::g1::Parameters> {
    const TAG: BoundaryCurves = BoundaryCurves::MNT4_298G1;
    fn to_lib(p: &Self::Projective) -> GroupProjective {
        sw_point(p)
    }
    fn from_lib(p: &GroupProjective) -> Self::Projective {
        sw_back(p)
    }
}

impl Curve for SwAffine<ark_mnt4_298::g2::Parameters> {
    const TAG: BoundaryCurves = BoundaryCurves::MNT4_298G2;
    fn to_lib(p: &Self::Projective) -> GroupProjective {
        sw_point(p)
    }
    fn from_lib(p: &GroupProjective) -> Self::Projective {
        sw_back(p)
    }
}

fn affine_group<G: Curve>(wrapped: bool) -> CurveGroup {
    CurveGroup { curve: G::TAG, form: GroupForm::Affine, wrapped }
}

fn projective_group<G: Curve>(wrapped: bool) -> CurveGroup {
    CurveGroup { curve: G::TAG, form: GroupForm::Projective, wrapped }
}

fn bases_of<G: Curve>(g: &[G]) -> Vec<GroupAffine> {
    g.iter().map(|a| GroupAffine::new(enc(a))).collect()
}

fn scalars_of<B: CanonicalSerialize>(v: &[B]) -> Vec<Vec<u8>> {
    v.iter().map(|s| enc(s)).collect()
}

/// A delegate that always reports the same failure.
struct FailingBoundary(HostError);

impl NativeBoundary for FailingBoundary {
    fn call(&self, _: CallId, _: Vec<Vec<u8>>, _: Vec<u8>) -> Result<Vec<Vec<u8>>, HostError> {
        Err(self.0)
    }
}

/// A delegate that answers with fixed buffers.
struct FixedBoundary(Vec<Vec<u8>>);

impl NativeBoundary for FixedBoundary {
    fn call(&self, _: CallId, _: Vec<Vec<u8>>, _: Vec<u8>) -> Result<Vec<Vec<u8>>, HostError> {
        Ok(self.0.clone())
    }
}

fn var_base_msm<G: Curve>(wrapped: bool) {
    let mut rng = test_rng();
    let v = (0..SAMPLES - 1)
        .map(|_| G::ScalarField::rand(&mut rng).into_repr())
        .collect::<Vec<_>>();
    let g = (0..SAMPLES)
        .map(|_| G::Projective::rand(&mut rng))
        .collect::<Vec<_>>();
    let g = <G::Projective as ProjectiveCurve>::batch_normalization_into_affine(&g);

    // set DummyBoundary and disable fallback
    let group = affine_group::<G>(wrapped);
    let mut boundary = Boundary::new();
    boundary.set_native_boundary(group, Some(DummyBoundary));
    boundary.set_native_fallback(group, false);

    let wasm_call = ArkVariableBaseMSM::multi_scalar_mul(g.as_slice(), v.as_slice());
    let bases = bases_of(&g);
    let scalars = scalars_of(&v);
    // Unequal lengths are a caller error here, where the arithmetic library
    // would drop the extra base.
    assert_eq!(
        VariableBaseMSM::multi_scalar_mul(&boundary, group, &bases, &scalars),
        Err(BoundaryError::LengthMismatch)
    );
    let native_call =
        VariableBaseMSM::multi_scalar_mul(&boundary, group, &bases[..SAMPLES - 1].to_vec(), &scalars)
            .unwrap();

    assert_eq!(G::from_lib(&native_call).into_affine(), wasm_call.into_affine());
}

#[test]
fn test_msm_vb() {
    // non-wrapped
    var_base_msm::<ark_pallas::Affine>(false);

    // non-pairing curves
    var_base_msm::<ark_pallas::Affine>(true);
    var_base_msm::<ark_ed_on_bls12_377::EdwardsAffine>(true);
    // pairing curves
    var_base_msm::<SwAffine<ark_mnt4_298::g1::Parameters>>(true);
    var_base_msm::<SwAffine<ark_mnt4_298::g2::Parameters>>(true);
}

fn batch_normalization_helper<G: Curve>() {
    // set DummyBoundary and disable fallback
    let wrapped = projective_group::<G>(true);
    let inner = projective_group::<G>(false);
    let mut boundary = Boundary::new();
    boundary.set_native_boundary(wrapped, Some(DummyBoundary));
    boundary.set_native_fallback(wrapped, false);
    boundary.set_native_boundary(inner, Some(DummyBoundary));
    boundary.set_native_fallback(inner, false);

    let mut rng = test_rng();
    let mut g = (0..SAMPLES).map(|_| G::Projective::rand(&mut rng)).collect::<Vec<_>>();
    let wg = (0..SAMPLES).map(|_| G::Projective::rand(&mut rng)).collect::<Vec<_>>();
    G::Projective::batch_normalization(&mut g);
    let mut lib: Vec<GroupProjective> = wg.iter().map(G::to_lib).collect();
    GroupProjective::batch_normalization(&boundary, wrapped, &mut lib).unwrap();

    let mut expected = wg.clone();
    G::Projective::batch_normalization(&mut expected);
    assert_eq!(lib.len(), SAMPLES);
    for (out, (e, input)) in lib.iter().zip(expected.iter().zip(wg.iter())) {
        assert_eq!(out, &G::to_lib(e));
        assert!(G::from_lib(out).is_normalized());
        assert_eq!(&G::from_lib(out), input);
    }
    assert!(g.iter().all(|p| p.is_normalized()));
}

#[test]
fn test_batch_normalization() {
    batch_normalization_helper::<ark_pallas::Affine>();
    batch_normalization_helper::<ark_ed_on_bls12_377::EdwardsAffine>();
    batch_normalization_helper::<SwAffine<ark_mnt4_298::g1::Parameters>>();
    batch_normalization_helper::<SwAffine<ark_mnt4_298::g2::Parameters>>();
}

#[test]
fn delegate_and_fallback_agree_on_msm() {
    let mut rng = test_rng();
    let v = (0..SAMPLES)
        .map(|_| ark_pallas::Fr::rand(&mut rng).into_repr())
        .collect::<Vec<_>>();
    let g = (0..SAMPLES)
        .map(|_| ark_pallas::Projective::rand(&mut rng))
        .collect::<Vec<_>>();
    let g = ark_pallas::Projective::batch_normalization_into_affine(&g);
    let bases = bases_of(&g);
    let scalars = scalars_of(&v);
    let group = affine_group::<ark_pallas::Affine>(false);

    let mut delegated = Boundary::new();
    delegated.set_native_boundary(group, Some(DummyBoundary));
    let mut local: Boundary<DummyBoundary> = Boundary::new();
    local.set_native_fallback(group, true);

    let via_delegate = VariableBaseMSM::multi_scalar_mul(&delegated, group, &bases, &scalars).unwrap();
    let via_fallback = VariableBaseMSM::multi_scalar_mul(&local, group, &bases, &scalars).unwrap();
    assert_eq!(via_delegate, via_fallback);
    assert_eq!(Some(via_fallback.clone()), local_msm(BoundaryCurves::Pallas, &bases, &scalars));
    assert_eq!(
        sw_back::<ark_pallas::PallasParameters>(&via_fallback),
        ArkVariableBaseMSM::multi_scalar_mul(&g, &v)
    );
}

#[test]
fn loopback_doubles_the_generator() {
    let generator = ark_pallas::Affine::prime_subgroup_generator();
    let bases = vec![GroupAffine::new(enc(&generator))];
    let scalars = vec![enc(&ark_pallas::Fr::from(2u64).into_repr())];
    let group = affine_group::<ark_pallas::Affine>(false);

    let mut delegated = Boundary::new();
    delegated.set_native_boundary(group, Some(DummyBoundary));
    let mut local: Boundary<DummyBoundary> = Boundary::new();
    local.set_native_fallback(group, true);

    let via_delegate = VariableBaseMSM::multi_scalar_mul(&delegated, group, &bases, &scalars).unwrap();
    let via_fallback = VariableBaseMSM::multi_scalar_mul(&local, group, &bases, &scalars).unwrap();
    let doubled = generator.into_projective().double();
    let a = sw_back::<ark_pallas::PallasParameters>(&via_delegate).into_affine();
    let b = sw_back::<ark_pallas::PallasParameters>(&via_fallback).into_affine();
    assert_eq!(a, doubled.into_affine());
    assert_eq!(b, doubled.into_affine());
    let mut ca = Vec::new();
    let mut cb = Vec::new();
    a.serialize(&mut ca).unwrap();
    b.serialize(&mut cb).unwrap();
    assert_eq!(ca, cb);
}

#[test]
fn no_delegate_and_no_fallback_fails_without_effect() {
    let boundary: Boundary<DummyBoundary> = Boundary::new();
    let mut rng = test_rng();
    let points: Vec<_> = (0..4).map(|_| sw_point(&ark_pallas::Projective::rand(&mut rng))).collect();
    let mut v = points.clone();
    assert_eq!(
        GroupProjective::batch_normalization(&boundary, projective_group::<ark_pallas::Affine>(true), &mut v),
        Err(BoundaryError::NoDelegateConfigured)
    );
    assert_eq!(v, points);
    let bases = vec![GroupAffine::new(enc(&ark_pallas::Affine::prime_subgroup_generator()))];
    let scalars = vec![enc(&ark_pallas::Fr::from(3u64).into_repr())];
    assert_eq!(
        VariableBaseMSM::multi_scalar_mul(&boundary, affine_group::<ark_pallas::Affine>(false), &bases, &scalars),
        Err(BoundaryError::NoDelegateConfigured)
    );
    // Even inputs that would be refused give the configuration error.
    assert_eq!(
        VariableBaseMSM::multi_scalar_mul(&boundary, affine_group::<ark_pallas::Affine>(false), &bases, &vec![]),
        Err(BoundaryError::NoDelegateConfigured)
    );
}

#[test]
fn fallback_matches_direct_computation() {
    let mut boundary: Boundary<DummyBoundary> = Boundary::new();
    let group = projective_group::<SwAffine<ark_mnt4_298::g1::Parameters>>(true);
    boundary.set_native_fallback(group, true);
    let mut rng = test_rng();
    let points: Vec<_> = (0..8).map(|_| ark_mnt4_298::G1Projective::rand(&mut rng)).collect();
    let mut v: Vec<_> = points.iter().map(sw_point).collect();
    let direct = local_batch_normalization(BoundaryCurves::MNT4_298G1, &v).unwrap();
    GroupProjective::batch_normalization(&boundary, group, &mut v).unwrap();
    assert_eq!(v, direct);
    let mut expected = points.clone();
    ark_mnt4_298::G1Projective::batch_normalization(&mut expected);
    assert_eq!(v, expected.iter().map(sw_point).collect::<Vec<_>>());
}

#[test]
fn host_error_surfaces_even_with_fallback() {
    let mut boundary = Boundary::new();
    let affine = affine_group::<ark_pallas::Affine>(false);
    let projective = projective_group::<ark_pallas::Affine>(true);
    for g in [affine, projective] {
        boundary.set_native_boundary(g, Some(FailingBoundary(HostError::Failed)));
        boundary.set_native_fallback(g, true);
    }
    let bases = vec![GroupAffine::new(enc(&ark_pallas::Affine::prime_subgroup_generator()))];
    let scalars = vec![enc(&ark_pallas::Fr::from(5u64).into_repr())];
    assert_eq!(
        VariableBaseMSM::multi_scalar_mul(&boundary, affine, &bases, &scalars),
        Err(BoundaryError::Host(HostError::Failed))
    );
    let mut rng = test_rng();
    let points: Vec<_> = (0..3).map(|_| sw_point(&ark_pallas::Projective::rand(&mut rng))).collect();
    let mut v = points.clone();
    assert_eq!(
        GroupProjective::batch_normalization(&boundary, projective, &mut v),
        Err(BoundaryError::Host(HostError::Failed))
    );
    assert_eq!(v, points);
}

#[test]
fn empty_batch_and_identity_normalize() {
    let mut boundary = Boundary::new();
    let group = projective_group::<ark_ed_on_bls12_377::EdwardsAffine>(true);
    boundary.set_native_boundary(group, Some(DummyBoundary));
    let mut empty: Vec<GroupProjective> = vec![];
    GroupProjective::batch_normalization(&boundary, group, &mut empty).unwrap();
    assert!(empty.is_empty());
    let zero = ark_ed_on_bls12_377::EdwardsProjective::zero();
    let mut v = vec![te_point(&zero)];
    GroupProjective::batch_normalization(&boundary, group, &mut v).unwrap();
    assert_eq!(te_back::<ark_ed_on_bls12_377::EdwardsParameters>(&v[0]), zero);
}

#[test]
fn malformed_points_are_refused_before_any_call() {
    let mut boundary = Boundary::new();
    let group = projective_group::<ark_pallas::Affine>(false);
    boundary.set_native_boundary(group, Some(FailingBoundary(HostError::Failed)));
    let mut v = vec![GroupProjective::new(vec![vec![0u8; 32], vec![0u8; 32]])];
    assert_eq!(
        GroupProjective::batch_normalization(&boundary, group, &mut v),
        Err(BoundaryError::Codec(native_boundary::codec::CodecError::WrongWidth))
    );
    let affine = affine_group::<ark_pallas::Affine>(false);
    boundary.set_native_boundary(affine, Some(FailingBoundary(HostError::Failed)));
    let bases = vec![GroupAffine::new(vec![0u8; 10])];
    let scalars = vec![vec![0u8; 32]];
    assert_eq!(
        VariableBaseMSM::multi_scalar_mul(&boundary, affine, &bases, &scalars),
        Err(BoundaryError::Codec(native_boundary::codec::CodecError::WrongWidth))
    );
}

#[test]
fn invalid_encodings_are_refused_by_the_arithmetic() {
    let group = affine_group::<ark_pallas::Affine>(false);
    // All ones is no field element, so no point either.
    let bases = vec![GroupAffine::new(vec![0xffu8; 65])];
    let scalars = vec![vec![0u8; 32]];
    let mut local: Boundary<DummyBoundary> = Boundary::new();
    local.set_native_fallback(group, true);
    assert_eq!(
        VariableBaseMSM::multi_scalar_mul(&local, group, &bases, &scalars),
        Err(BoundaryError::InvalidInput)
    );
    let mut delegated = Boundary::new();
    delegated.set_native_boundary(group, Some(DummyBoundary));
    assert_eq!(
        VariableBaseMSM::multi_scalar_mul(&delegated, group, &bases, &scalars),
        Err(BoundaryError::Host(HostError::InvalidInput))
    );
}

#[test]
fn answers_of_the_wrong_shape_are_codec_errors() {
    let c = BoundaryCurves::Pallas;
    assert_eq!(complete_msm(c, Ok(vec![])), Err(BoundaryError::Codec(native_boundary::codec::CodecError::WrongCount)));
    assert_eq!(
        complete_msm(c, Ok(vec![vec![0u8; 95]])),
        Err(BoundaryError::Codec(native_boundary::codec::CodecError::Truncated))
    );
    assert_eq!(
        complete_msm(c, Ok(vec![vec![0u8; 192]])),
        Err(BoundaryError::Codec(native_boundary::codec::CodecError::WrongCount))
    );
    assert_eq!(complete_msm(c, Err(HostError::Unsupported)), Err(BoundaryError::Host(HostError::Unsupported)));
    let p = complete_msm(c, Ok(vec![vec![5u8; 96]])).unwrap();
    assert_eq!(p.coords, vec![vec![5u8; 32]; 3]);
    assert_eq!(
        complete_bn(c, 2, Ok(vec![vec![0u8; 96]])),
        Err(BoundaryError::Codec(native_boundary::codec::CodecError::WrongCount))
    );
    let group = affine_group::<ark_pallas::Affine>(false);
    let mut boundary = Boundary::new();
    boundary.set_native_boundary(group, Some(FixedBoundary(vec![vec![1u8; 96], vec![]])));
    let bases = vec![GroupAffine::new(enc(&ark_pallas::Affine::prime_subgroup_generator()))];
    let scalars = vec![vec![0u8; 32]];
    assert_eq!(
        VariableBaseMSM::multi_scalar_mul(&boundary, group, &bases, &scalars),
        Err(BoundaryError::Codec(native_boundary::codec::CodecError::WrongCount))
    );
}

#[test]
fn host_refuses_unknown_requests() {
    let handler = SimpleNativeCallHandler;
    assert_eq!(handler.handle_call(CallId::VBMul, vec![vec![], vec![]], vec![]), Err(HostError::UnknownCurve));
    assert_eq!(handler.handle_call(CallId::VBMul, vec![vec![], vec![]], vec![4]), Err(HostError::UnknownCurve));
    assert_eq!(handler.handle_call(CallId::FBMul, vec![], vec![0]), Err(HostError::Unsupported));
    assert_eq!(handler.handle_call(CallId::VBMul, vec![vec![]], vec![0]), Err(HostError::MalformedArguments));
    assert_eq!(handler.handle_call(CallId::ProjBN, vec![], vec![0]), Err(HostError::MalformedArguments));
    assert_eq!(
        handler.handle_call(CallId::VBMul, vec![vec![0u8; 65], vec![]], vec![0]),
        Err(HostError::MalformedArguments)
    );
    assert_eq!(
        handler.handle_call(CallId::ProjBN, vec![vec![0u8; 97]], vec![0]),
        Err(HostError::MalformedArguments)
    );
    assert_eq!(dummy_host_export_call(7, vec![], vec![0]), Err(HostError::UnknownCall));
    // An empty multiplication is the identity.
    let out = handler.handle_call(CallId::VBMul, vec![vec![], vec![]], vec![0]).unwrap();
    assert_eq!(out.len(), 1);
    let p: GroupProjective =
        GroupProjective::noncanonical_deserialize_uncompressed_unchecked(&out[0], BoundaryCurves::Pallas)
            .unwrap();
    assert!(sw_back::<ark_pallas::PallasParameters>(&p).is_zero());
}

#[test]
fn host_normalizes_in_order() {
    let handler = SimpleNativeCallHandler;
    let mut rng = test_rng();
    let points: Vec<_> = (0..6).map(|_| ark_mnt4_298::G2Projective::rand(&mut rng)).collect();
    let lib: Vec<_> = points.iter().map(sw_point).collect();
    let buf = serialize_projectives(&lib, BoundaryCurves::MNT4_298G2).unwrap();
    let out = handler.handle_batch_normalization(BoundaryCurves::MNT4_298G2, &buf).unwrap();
    let mut expected = points.clone();
    ark_mnt4_298::G2Projective::batch_normalization(&mut expected);
    let expected_lib: Vec<_> = expected.iter().map(sw_point).collect();
    assert_eq!(out, serialize_projectives(&expected_lib, BoundaryCurves::MNT4_298G2).unwrap());
    assert_ne!(out, buf);
}
