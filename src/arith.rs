use crate::codec::{
    affines_view, bytes_view, projective_wf, GroupAffine, GroupProjective,
};
use crate::curves::BoundaryCurves;
use ark_ec::msm::VariableBaseMSM as ArkVariableBaseMSM;
use ark_ec::ProjectiveCurve;
use ark_ff::{BigInteger256, BigInteger320};
use ark_ed_on_bls12_377::{
    EdwardsAffine as EdAffine, EdwardsProjective as EdProjective, Fq as EdFq,
};
use ark_mnt4_298::{
    Fq as Mnt4Fq, Fq2 as Mnt4Fq2, G1Affine as Mnt4G1Affine, G1Projective as Mnt4G1Projective,
    G2Affine as Mnt4G2Affine, G2Projective as Mnt4G2Projective,
};
use ark_pallas::{Affine as PallasAffine, Fq as PallasFq, Projective as PallasProjective};
use ark_serialize::{CanonicalDeserialize, CanonicalSerialize};
use vstd::prelude::*;

verus! {

// The group arithmetic itself belongs to arkworks. Each group's
// multi-scalar multiplication and batch normalization is reached through one
// wrapper, which reads the library's encodings into arkworks values, makes
// the call, and writes the coordinates of the result back. What comes out is
// named, not described: it is a function of the encodings handed in.
/// A point as its coordinates, if there is one.
pub open spec fn opt_point_view(r: Option<GroupProjective>) -> Option<Seq<Seq<u8>>> {
    match r {
        Some(p) => Some(p@),
        None => None,
    }
}

/// The multi-scalar multiplication of Pallas, on encodings.
pub uninterp spec fn pallas_msm(bases: Seq<Seq<u8>>, scalars: Seq<Seq<u8>>) -> Option<Seq<Seq<u8>>>;

/// The normalized form of a projective point of Pallas, on encodings.
pub uninterp spec fn pallas_normalized(p: Seq<Seq<u8>>) -> Option<Seq<Seq<u8>>>;

/// Relies on ark_ec's `VariableBaseMSM::multi_scalar_mul` over Pallas: bases
/// read with `deserialize_uncompressed`, which refuses points off the curve or
/// its subgroup, scalars read as `BigInteger256`, and the result's coordinates written
/// with `serialize_uncompressed`, each of the base field's width.
#[verifier::external_body]
fn pallas_msm_call(bases: &Vec<GroupAffine>, scalars: &Vec<Vec<u8>>) -> (r: Option<GroupProjective>)
    ensures
        opt_point_view(r) == pallas_msm(affines_view(bases@), bytes_view(scalars@)),
        r matches Some(p) ==> projective_wf(p@, BoundaryCurves::Pallas),
{
    let b: Option<Vec<PallasAffine>> =
        bases.iter().map(|x| CanonicalDeserialize::deserialize_uncompressed(&x.encoding[..]).ok()).collect();
    let s: Option<Vec<BigInteger256>> =
        scalars.iter().map(|x| CanonicalDeserialize::deserialize_uncompressed(&x[..]).ok()).collect();
    let p = ArkVariableBaseMSM::multi_scalar_mul(&b?, &s?);
    let enc = |f: &PallasFq| {
        let mut v = Vec::new();
        f.serialize_uncompressed(&mut v).ok().map(|_| v)
    };
    Some(GroupProjective { coords: vec![enc(&p.x)?, enc(&p.y)?, enc(&p.z)?] })
}

/// Relies on ark_ec's `ProjectiveCurve::batch_normalization` over Pallas:
/// it keeps the number and order of the points, and turns each into its
/// normalized form by itself, whatever stands beside it. A point's coordinates
/// are read in model order, as a tuple, with `deserialize_uncompressed`, which
/// refuses a non-element; each is written with `serialize_uncompressed`, of
/// the base field's width.
#[verifier::external_body]
fn pallas_batch_normalization(points: &Vec<GroupProjective>) -> (r: Option<Vec<GroupProjective>>)
    requires
        forall|i: int| 0 <= i < points@.len() ==> projective_wf(#[trigger] points@[i]@, BoundaryCurves::Pallas),
    ensures
        r is Some <==> forall|i: int| 0 <= i < points@.len() ==> pallas_normalized(#[trigger] points@[i]@) is Some,
        r matches Some(out) ==> out@.len() == points@.len() && forall|i: int| 0 <= i < points@.len()
            ==> pallas_normalized(points@[i]@) == Some(#[trigger] out@[i]@) && projective_wf(out@[i]@, BoundaryCurves::Pallas),
{
    let mut v = Vec::new();
    for p in points.iter() {
        let (x, y, z) = CanonicalDeserialize::deserialize_uncompressed(&p.coords.concat()[..]).ok()?;
        v.push(PallasProjective::new(x, y, z));
    }
    ProjectiveCurve::batch_normalization(&mut v);
    let enc = |f: &PallasFq| {
        let mut b = Vec::new();
        f.serialize_uncompressed(&mut b).ok().map(|_| b)
    };
    v.iter().map(|q| Some(GroupProjective { coords: [q.x, q.y, q.z].iter().map(enc).collect::<Option<_>>()? })).collect()
}

/// The multi-scalar multiplication of the Edwards curve on BLS12-377, on encodings.
pub uninterp spec fn ed_on_bls12_377_msm(bases: Seq<Seq<u8>>, scalars: Seq<Seq<u8>>) -> Option<Seq<Seq<u8>>>;

/// The normalized form of a projective point of the Edwards curve on BLS12-377, on encodings.
pub uninterp spec fn ed_on_bls12_377_normalized(p: Seq<Seq<u8>>) -> Option<Seq<Seq<u8>>>;

/// Relies on ark_ec's `VariableBaseMSM::multi_scalar_mul` over the Edwards curve on BLS12-377: bases
/// read with `deserialize_uncompressed`, which refuses points off the curve or
/// its subgroup, scalars read as `BigInteger256`, and the result's coordinates written
/// with `serialize_uncompressed`, each of the base field's width.
#[verifier::external_body]
fn ed_on_bls12_377_msm_call(bases: &Vec<GroupAffine>, scalars: &Vec<Vec<u8>>) -> (r: Option<GroupProjective>)
    ensures
        opt_point_view(r) == ed_on_bls12_377_msm(affines_view(bases@), bytes_view(scalars@)),
        r matches Some(p) ==> projective_wf(p@, BoundaryCurves::EdBls12_377),
{
    let b: Option<Vec<EdAffine>> =
        bases.iter().map(|x| CanonicalDeserialize::deserialize_uncompressed(&x.encoding[..]).ok()).collect();
    let s: Option<Vec<BigInteger256>> =
        scalars.iter().map(|x| CanonicalDeserialize::deserialize_uncompressed(&x[..]).ok()).collect();
    let p = ArkVariableBaseMSM::multi_scalar_mul(&b?, &s?);
    let enc = |f: &EdFq| {
        let mut v = Vec::new();
        f.serialize_uncompressed(&mut v).ok().map(|_| v)
    };
    Some(GroupProjective { coords: vec![enc(&p.x)?, enc(&p.y)?, enc(&p.t)?, enc(&p.z)?] })
}

/// Relies on ark_ec's `ProjectiveCurve::batch_normalization` over the Edwards curve on BLS12-377:
/// it keeps the number and order of the points, and turns each into its
/// normalized form by itself, whatever stands beside it. A point's coordinates
/// are read in model order, as a tuple, with `deserialize_uncompressed`, which
/// refuses a non-element; each is written with `serialize_uncompressed`, of
/// the base field's width.
#[verifier::external_body]
fn ed_on_bls12_377_batch_normalization(points: &Vec<GroupProjective>) -> (r: Option<Vec<GroupProjective>>)
    requires
        forall|i: int| 0 <= i < points@.len() ==> projective_wf(#[trigger] points@[i]@, BoundaryCurves::EdBls12_377),
    ensures
        r is Some <==> forall|i: int| 0 <= i < points@.len() ==> ed_on_bls12_377_normalized(#[trigger] points@[i]@) is Some,
        r matches Some(out) ==> out@.len() == points@.len() && forall|i: int| 0 <= i < points@.len()
            ==> ed_on_bls12_377_normalized(points@[i]@) == Some(#[trigger] out@[i]@) && projective_wf(out@[i]@, BoundaryCurves::EdBls12_377),
{
    let mut v = Vec::new();
    for p in points.iter() {
        let (x, y, t, z) = CanonicalDeserialize::deserialize_uncompressed(&p.coords.concat()[..]).ok()?;
        v.push(EdProjective::new(x, y, t, z));
    }
    ProjectiveCurve::batch_normalization(&mut v);
    let enc = |f: &EdFq| {
        let mut b = Vec::new();
        f.serialize_uncompressed(&mut b).ok().map(|_| b)
    };
    v.iter().map(|q| Some(GroupProjective { coords: [q.x, q.y, q.t, q.z].iter().map(enc).collect::<Option<_>>()? })).collect()
}

/// The multi-scalar multiplication of MNT4-298 G1, on encodings.
pub uninterp spec fn mnt4_298_g1_msm(bases: Seq<Seq<u8>>, scalars: Seq<Seq<u8>>) -> Option<Seq<Seq<u8>>>;

/// The normalized form of a projective point of MNT4-298 G1, on encodings.
pub uninterp spec fn mnt4_298_g1_normalized(p: Seq<Seq<u8>>) -> Option<Seq<Seq<u8>>>;

/// Relies on ark_ec's `VariableBaseMSM::multi_scalar_mul` over MNT4-298 G1: bases
/// read with `deserialize_uncompressed`, which refuses points off the curve or
/// its subgroup, scalars read as `BigInteger320`, and the result's coordinates written
/// with `serialize_uncompressed`, each of the base field's width.
#[verifier::external_body]
fn mnt4_298_g1_msm_call(bases: &Vec<GroupAffine>, scalars: &Vec<Vec<u8>>) -> (r: Option<GroupProjective>)
    ensures
        opt_point_view(r) == mnt4_298_g1_msm(affines_view(bases@), bytes_view(scalars@)),
        r matches Some(p) ==> projective_wf(p@, BoundaryCurves::MNT4_298G1),
{
    let b: Option<Vec<Mnt4G1Affine>> =
        bases.iter().map(|x| CanonicalDeserialize::deserialize_uncompressed(&x.encoding[..]).ok()).collect();
    let s: Option<Vec<BigInteger320>> =
        scalars.iter().map(|x| CanonicalDeserialize::deserialize_uncompressed(&x[..]).ok()).collect();
    let p = ArkVariableBaseMSM::multi_scalar_mul(&b?, &s?);
    let enc = |f: &Mnt4Fq| {
        let mut v = Vec::new();
        f.serialize_uncompressed(&mut v).ok().map(|_| v)
    };
    Some(GroupProjective { coords: vec![enc(&p.x)?, enc(&p.y)?, enc(&p.z)?] })
}

/// Relies on ark_ec's `ProjectiveCurve::batch_normalization` over MNT4-298 G1:
/// it keeps the number and order of the points, and turns each into its
/// normalized form by itself, whatever stands beside it. A point's coordinates
/// are read in model order, as a tuple, with `deserialize_uncompressed`, which
/// refuses a non-element; each is written with `serialize_uncompressed`, of
/// the base field's width.
#[verifier::external_body]
fn mnt4_298_g1_batch_normalization(points: &Vec<GroupProjective>) -> (r: Option<Vec<GroupProjective>>)
    requires
        forall|i: int| 0 <= i < points@.len() ==> projective_wf(#[trigger] points@[i]@, BoundaryCurves::MNT4_298G1),
    ensures
        r is Some <==> forall|i: int| 0 <= i < points@.len() ==> mnt4_298_g1_normalized(#[trigger] points@[i]@) is Some,
        r matches Some(out) ==> out@.len() == points@.len() && forall|i: int| 0 <= i < points@.len()
            ==> mnt4_298_g1_normalized(points@[i]@) == Some(#[trigger] out@[i]@) && projective_wf(out@[i]@, BoundaryCurves::MNT4_298G1),
{
    let mut v = Vec::new();
    for p in points.iter() {
        let (x, y, z) = CanonicalDeserialize::deserialize_uncompressed(&p.coords.concat()[..]).ok()?;
        v.push(Mnt4G1Projective::new(x, y, z));
    }
    ProjectiveCurve::batch_normalization(&mut v);
    let enc = |f: &Mnt4Fq| {
        let mut b = Vec::new();
        f.serialize_uncompressed(&mut b).ok().map(|_| b)
    };
    v.iter().map(|q| Some(GroupProjective { coords: [q.x, q.y, q.z].iter().map(enc).collect::<Option<_>>()? })).collect()
}

/// The multi-scalar multiplication of MNT4-298 G2, on encodings.
pub uninterp spec fn mnt4_298_g2_msm(bases: Seq<Seq<u8>>, scalars: Seq<Seq<u8>>) -> Option<Seq<Seq<u8>>>;

/// The normalized form of a projective point of MNT4-298 G2, on encodings.
pub uninterp spec fn mnt4_298_g2_normalized(p: Seq<Seq<u8>>) -> Option<Seq<Seq<u8>>>;

/// Relies on ark_ec's `VariableBaseMSM::multi_scalar_mul` over MNT4-298 G2: bases
/// read with `deserialize_uncompressed`, which refuses points off the curve or
/// its subgroup, scalars read as `BigInteger320`, and the result's coordinates written
/// with `serialize_uncompressed`, each of the base field's width.
#[verifier::external_body]
fn mnt4_298_g2_msm_call(bases: &Vec<GroupAffine>, scalars: &Vec<Vec<u8>>) -> (r: Option<GroupProjective>)
    ensures
        opt_point_view(r) == mnt4_298_g2_msm(affines_view(bases@), bytes_view(scalars@)),
        r matches Some(p) ==> projective_wf(p@, BoundaryCurves::MNT4_298G2),
{
    let b: Option<Vec<Mnt4G2Affine>> =
        bases.iter().map(|x| CanonicalDeserialize::deserialize_uncompressed(&x.encoding[..]).ok()).collect();
    let s: Option<Vec<BigInteger320>> =
        scalars.iter().map(|x| CanonicalDeserialize::deserialize_uncompressed(&x[..]).ok()).collect();
    let p = ArkVariableBaseMSM::multi_scalar_mul(&b?, &s?);
    let enc = |f: &Mnt4Fq2| {
        let mut v = Vec::new();
        f.serialize_uncompressed(&mut v).ok().map(|_| v)
    };
    Some(GroupProjective { coords: vec![enc(&p.x)?, enc(&p.y)?, enc(&p.z)?] })
}

/// Relies on ark_ec's `ProjectiveCurve::batch_normalization` over MNT4-298 G2:
/// it keeps the number and order of the points, and turns each into its
/// normalized form by itself, whatever stands beside it. A point's coordinates
/// are read in model order, as a tuple, with `deserialize_uncompressed`, which
/// refuses a non-element; each is written with `serialize_uncompressed`, of
/// the base field's width.
#[verifier::external_body]
fn mnt4_298_g2_batch_normalization(points: &Vec<GroupProjective>) -> (r: Option<Vec<GroupProjective>>)
    requires
        forall|i: int| 0 <= i < points@.len() ==> projective_wf(#[trigger] points@[i]@, BoundaryCurves::MNT4_298G2),
    ensures
        r is Some <==> forall|i: int| 0 <= i < points@.len() ==> mnt4_298_g2_normalized(#[trigger] points@[i]@) is Some,
        r matches Some(out) ==> out@.len() == points@.len() && forall|i: int| 0 <= i < points@.len()
            ==> mnt4_298_g2_normalized(points@[i]@) == Some(#[trigger] out@[i]@) && projective_wf(out@[i]@, BoundaryCurves::MNT4_298G2),
{
    let mut v = Vec::new();
    for p in points.iter() {
        let (x, y, z) = CanonicalDeserialize::deserialize_uncompressed(&p.coords.concat()[..]).ok()?;
        v.push(Mnt4G2Projective::new(x, y, z));
    }
    ProjectiveCurve::batch_normalization(&mut v);
    let enc = |f: &Mnt4Fq2| {
        let mut b = Vec::new();
        f.serialize_uncompressed(&mut b).ok().map(|_| b)
    };
    v.iter().map(|q| Some(GroupProjective { coords: [q.x, q.y, q.z].iter().map(enc).collect::<Option<_>>()? })).collect()
}

/// The multi-scalar multiplication of group `c`, on encodings.
pub open spec fn spec_local_msm(
    c: BoundaryCurves,
    bases: Seq<Seq<u8>>,
    scalars: Seq<Seq<u8>>,
) -> Option<Seq<Seq<u8>>> {
    match c {
        BoundaryCurves::Pallas => pallas_msm(bases, scalars),
        BoundaryCurves::EdBls12_377 => ed_on_bls12_377_msm(bases, scalars),
        BoundaryCurves::MNT4_298G1 => mnt4_298_g1_msm(bases, scalars),
        BoundaryCurves::MNT4_298G2 => mnt4_298_g2_msm(bases, scalars),
    }
}

/// The normalized form of a projective point of group `c`, on encodings.
pub open spec fn spec_normalized(c: BoundaryCurves, p: Seq<Seq<u8>>) -> Option<Seq<Seq<u8>>> {
    match c {
        BoundaryCurves::Pallas => pallas_normalized(p),
        BoundaryCurves::EdBls12_377 => ed_on_bls12_377_normalized(p),
        BoundaryCurves::MNT4_298G1 => mnt4_298_g1_normalized(p),
        BoundaryCurves::MNT4_298G2 => mnt4_298_g2_normalized(p),
    }
}

/// The normalized form of every point, when each has one.
pub open spec fn spec_normalized_all(c: BoundaryCurves, ps: Seq<Seq<Seq<u8>>>) -> Option<
    Seq<Seq<Seq<u8>>>,
> {
    if forall|i: int| 0 <= i < ps.len() ==> #[trigger] spec_normalized(c, ps[i]) is Some {
        Some(ps.map_values(|p: Seq<Seq<u8>>| spec_normalized(c, p)->0))
    } else {
        None
    }
}

/// Sum of `scalars[i] * bases[i]` over group `c`, computed here; `None` when
/// an encoding is no point of the group's subgroup or no scalar.
pub fn local_msm(c: BoundaryCurves, bases: &Vec<GroupAffine>, scalars: &Vec<Vec<u8>>) -> (r: Option<
    GroupProjective,
>)
    ensures
        opt_point_view(r) == spec_local_msm(c, affines_view(bases@), bytes_view(scalars@)),
        r matches Some(p) ==> projective_wf(p@, c),
{
    match c {
        BoundaryCurves::Pallas => pallas_msm_call(bases, scalars),
        BoundaryCurves::EdBls12_377 => ed_on_bls12_377_msm_call(bases, scalars),
        BoundaryCurves::MNT4_298G1 => mnt4_298_g1_msm_call(bases, scalars),
        BoundaryCurves::MNT4_298G2 => mnt4_298_g2_msm_call(bases, scalars),
    }
}

/// The normalized form of each point of group `c`, in order, computed here;
/// `None` when a coordinate is no element of the base field.
pub fn local_batch_normalization(c: BoundaryCurves, points: &Vec<GroupProjective>) -> (r: Option<
    Vec<GroupProjective>,
>)
    requires
        forall|i: int| 0 <= i < points@.len() ==> projective_wf(#[trigger] points@[i]@, c),
    ensures
        r is Some <==> forall|i: int|
            0 <= i < points@.len() ==> spec_normalized(c, #[trigger] points@[i]@) is Some,
        r matches Some(out) ==> out@.len() == points@.len() && forall|i: int|
            0 <= i < points@.len() ==> spec_normalized(c, points@[i]@) == Some(#[trigger] out@[i]@)
                && projective_wf(out@[i]@, c),
{
    match c {
        BoundaryCurves::Pallas => pallas_batch_normalization(points),
        BoundaryCurves::EdBls12_377 => ed_on_bls12_377_batch_normalization(points),
        BoundaryCurves::MNT4_298G1 => mnt4_298_g1_batch_normalization(points),
        BoundaryCurves::MNT4_298G2 => mnt4_298_g2_batch_normalization(points),
    }
}

/// Whether an affine encoding of Pallas reads as a point on the curve.
pub uninterp spec fn pallas_on_curve(a: Seq<u8>) -> bool;

/// Whether an affine encoding of Pallas reads as a point of the prime-order
/// subgroup, when it is on the curve.
pub uninterp spec fn pallas_in_subgroup(a: Seq<u8>) -> bool;

/// Relies on ark_ec's `GroupAffine::is_on_curve` over Pallas, on the point
/// read with `deserialize_unchecked`; what reads as no point is on no curve.
#[verifier::external_body]
fn pallas_is_on_curve(a: &GroupAffine) -> (r: bool)
    ensures
        r == pallas_on_curve(a@),
{
    PallasAffine::deserialize_unchecked(&a.encoding[..]).map_or(false, |p| p.is_on_curve())
}

/// Relies on ark_ec's `GroupAffine::is_in_correct_subgroup_assuming_on_curve`
/// over Pallas, on the point read with `deserialize_unchecked`; what reads as
/// no point is in no subgroup.
#[verifier::external_body]
fn pallas_is_in_subgroup(a: &GroupAffine) -> (r: bool)
    ensures
        r == pallas_in_subgroup(a@),
{
    PallasAffine::deserialize_unchecked(&a.encoding[..]).map_or(false, |p| p.is_in_correct_subgroup_assuming_on_curve())
}

/// Whether an affine encoding of the Edwards curve on BLS12-377 reads as a point on the curve.
pub uninterp spec fn ed_on_bls12_377_on_curve(a: Seq<u8>) -> bool;

/// Whether an affine encoding of the Edwards curve on BLS12-377 reads as a point of the prime-order
/// subgroup, when it is on the curve.
pub uninterp spec fn ed_on_bls12_377_in_subgroup(a: Seq<u8>) -> bool;

/// Relies on ark_ec's `GroupAffine::is_on_curve` over the Edwards curve on BLS12-377, on the point
/// read with `deserialize_unchecked`; what reads as no point is on no curve.
#[verifier::external_body]
fn ed_on_bls12_377_is_on_curve(a: &GroupAffine) -> (r: bool)
    ensures
        r == ed_on_bls12_377_on_curve(a@),
{
    EdAffine::deserialize_unchecked(&a.encoding[..]).map_or(false, |p| p.is_on_curve())
}

/// Relies on ark_ec's `GroupAffine::is_in_correct_subgroup_assuming_on_curve`
/// over the Edwards curve on BLS12-377, on the point read with `deserialize_unchecked`; what reads as
/// no point is in no subgroup.
#[verifier::external_body]
fn ed_on_bls12_377_is_in_subgroup(a: &GroupAffine) -> (r: bool)
    ensures
        r == ed_on_bls12_377_in_subgroup(a@),
{
    EdAffine::deserialize_unchecked(&a.encoding[..]).map_or(false, |p| p.is_in_correct_subgroup_assuming_on_curve())
}

/// Whether an affine encoding of MNT4-298 G1 reads as a point on the curve.
pub uninterp spec fn mnt4_298_g1_on_curve(a: Seq<u8>) -> bool;

/// Whether an affine encoding of MNT4-298 G1 reads as a point of the prime-order
/// subgroup, when it is on the curve.
pub uninterp spec fn mnt4_298_g1_in_subgroup(a: Seq<u8>) -> bool;

/// Relies on ark_ec's `GroupAffine::is_on_curve` over MNT4-298 G1, on the point
/// read with `deserialize_unchecked`; what reads as no point is on no curve.
#[verifier::external_body]
fn mnt4_298_g1_is_on_curve(a: &GroupAffine) -> (r: bool)
    ensures
        r == mnt4_298_g1_on_curve(a@),
{
    Mnt4G1Affine::deserialize_unchecked(&a.encoding[..]).map_or(false, |p| p.is_on_curve())
}

/// Relies on ark_ec's `GroupAffine::is_in_correct_subgroup_assuming_on_curve`
/// over MNT4-298 G1, on the point read with `deserialize_unchecked`; what reads as
/// no point is in no subgroup.
#[verifier::external_body]
fn mnt4_298_g1_is_in_subgroup(a: &GroupAffine) -> (r: bool)
    ensures
        r == mnt4_298_g1_in_subgroup(a@),
{
    Mnt4G1Affine::deserialize_unchecked(&a.encoding[..]).map_or(false, |p| p.is_in_correct_subgroup_assuming_on_curve())
}

/// Whether an affine encoding of MNT4-298 G2 reads as a point on the curve.
pub uninterp spec fn mnt4_298_g2_on_curve(a: Seq<u8>) -> bool;

/// Whether an affine encoding of MNT4-298 G2 reads as a point of the prime-order
/// subgroup, when it is on the curve.
pub uninterp spec fn mnt4_298_g2_in_subgroup(a: Seq<u8>) -> bool;

/// Relies on ark_ec's `GroupAffine::is_on_curve` over MNT4-298 G2, on the point
/// read with `deserialize_unchecked`; what reads as no point is on no curve.
#[verifier::external_body]
fn mnt4_298_g2_is_on_curve(a: &GroupAffine) -> (r: bool)
    ensures
        r == mnt4_298_g2_on_curve(a@),
{
    Mnt4G2Affine::deserialize_unchecked(&a.encoding[..]).map_or(false, |p| p.is_on_curve())
}

/// Relies on ark_ec's `GroupAffine::is_in_correct_subgroup_assuming_on_curve`
/// over MNT4-298 G2, on the point read with `deserialize_unchecked`; what reads as
/// no point is in no subgroup.
#[verifier::external_body]
fn mnt4_298_g2_is_in_subgroup(a: &GroupAffine) -> (r: bool)
    ensures
        r == mnt4_298_g2_in_subgroup(a@),
{
    Mnt4G2Affine::deserialize_unchecked(&a.encoding[..]).map_or(false, |p| p.is_in_correct_subgroup_assuming_on_curve())
}

/// Whether an affine encoding of group `c` reads as a point on its curve.
pub open spec fn spec_on_curve(c: BoundaryCurves, a: Seq<u8>) -> bool {
    match c {
        BoundaryCurves::Pallas => pallas_on_curve(a),
        BoundaryCurves::EdBls12_377 => ed_on_bls12_377_on_curve(a),
        BoundaryCurves::MNT4_298G1 => mnt4_298_g1_on_curve(a),
        BoundaryCurves::MNT4_298G2 => mnt4_298_g2_on_curve(a),
    }
}

/// Whether an affine encoding of group `c` reads as a point of its
/// prime-order subgroup, when it is on the curve.
pub open spec fn spec_in_subgroup(c: BoundaryCurves, a: Seq<u8>) -> bool {
    match c {
        BoundaryCurves::Pallas => pallas_in_subgroup(a),
        BoundaryCurves::EdBls12_377 => ed_on_bls12_377_in_subgroup(a),
        BoundaryCurves::MNT4_298G1 => mnt4_298_g1_in_subgroup(a),
        BoundaryCurves::MNT4_298G2 => mnt4_298_g2_in_subgroup(a),
    }
}

impl GroupAffine {
    /// Whether the point lies on the curve of group `c`; an encoding that
    /// reads as no point does not.
    pub fn is_on_curve(&self, c: BoundaryCurves) -> (r: bool)
        ensures
            r == spec_on_curve(c, self@),
    {
        match c {
            BoundaryCurves::Pallas => pallas_is_on_curve(self),
            BoundaryCurves::EdBls12_377 => ed_on_bls12_377_is_on_curve(self),
            BoundaryCurves::MNT4_298G1 => mnt4_298_g1_is_on_curve(self),
            BoundaryCurves::MNT4_298G2 => mnt4_298_g2_is_on_curve(self),
        }
    }

    /// Whether the point, taken to be on the curve of group `c`, lies in its
    /// prime-order subgroup.
    pub fn is_in_correct_subgroup_assuming_on_curve(&self, c: BoundaryCurves) -> (r: bool)
        ensures
            r == spec_in_subgroup(c, self@),
    {
        match c {
            BoundaryCurves::Pallas => pallas_is_in_subgroup(self),
            BoundaryCurves::EdBls12_377 => ed_on_bls12_377_is_in_subgroup(self),
            BoundaryCurves::MNT4_298G1 => mnt4_298_g1_is_in_subgroup(self),
            BoundaryCurves::MNT4_298G2 => mnt4_298_g2_is_in_subgroup(self),
        }
    }
}

} // verus!
