use ark_ec::{SWModelParameters, TEModelParameters};
use ark_ff::Field;
use vstd::prelude::*;

verus! {

/// The curve groups that may cross the boundary. A tag travels as one byte.
#[allow(non_camel_case_types)]
#[derive(Debug, Clone, Copy, PartialEq, Eq, Structural)]
pub enum BoundaryCurves {
    Pallas,
    EdBls12_377,
    MNT4_298G1,
    MNT4_298G2,
}

impl BoundaryCurves {
    pub open spec fn spec_to_u8(self) -> u8 {
        match self {
            BoundaryCurves::Pallas => 0,
            BoundaryCurves::EdBls12_377 => 1,
            BoundaryCurves::MNT4_298G1 => 2,
            BoundaryCurves::MNT4_298G2 => 3,
        }
    }

    pub open spec fn spec_from_u8(b: u8) -> Option<BoundaryCurves> {
        if b == 0 {
            Some(BoundaryCurves::Pallas)
        } else if b == 1 {
            Some(BoundaryCurves::EdBls12_377)
        } else if b == 2 {
            Some(BoundaryCurves::MNT4_298G1)
        } else if b == 3 {
            Some(BoundaryCurves::MNT4_298G2)
        } else {
            None
        }
    }

    /// The byte that stands for this curve on the wire.
    pub fn to_u8(self) -> (r: u8)
        ensures
            r == self.spec_to_u8(),
            BoundaryCurves::spec_from_u8(r) == Some(self),
    {
        match self {
            BoundaryCurves::Pallas => 0,
            BoundaryCurves::EdBls12_377 => 1,
            BoundaryCurves::MNT4_298G1 => 2,
            BoundaryCurves::MNT4_298G2 => 3,
        }
    }

    /// Reads a curve tag from its byte; `None` for a byte that names no curve.
    pub fn try_from_u8(b: u8) -> (r: Option<BoundaryCurves>)
        ensures
            r == BoundaryCurves::spec_from_u8(b),
            r is Some <==> b < 4,
            r matches Some(c) ==> c.spec_to_u8() == b,
    {
        if b == 0 {
            Some(BoundaryCurves::Pallas)
        } else if b == 1 {
            Some(BoundaryCurves::EdBls12_377)
        } else if b == 2 {
            Some(BoundaryCurves::MNT4_298G1)
        } else if b == 3 {
            Some(BoundaryCurves::MNT4_298G2)
        } else {
            None
        }
    }
}

/// The coordinate model of a curve group.
#[derive(Debug, Clone, Copy, PartialEq, Eq, Structural)]
pub enum CurveType {
    /// Short Weierstrass, projective points in Jacobian coordinates (x, y, z).
    SW,
    /// Twisted Edwards, projective points in extended coordinates (x, y, t, z).
    ED,
}

/// The invariants by which a curve group is recognised: its coordinate model,
/// the characteristics of its base and scalar fields, and its cofactor, each
/// number as little-endian 64-bit limbs.
#[derive(Debug, Clone, PartialEq, Eq)]
pub struct CurveParameters {
    pub curve_type: CurveType,
    pub base_characteristic: Vec<u64>,
    pub scalar_characteristic: Vec<u64>,
    pub cofactor: Vec<u64>,
}

/// Two groups share all three numeric invariants.
pub open spec fn same_invariants(a: CurveParameters, b: CurveParameters) -> bool {
    &&& a.base_characteristic@ == b.base_characteristic@
    &&& a.scalar_characteristic@ == b.scalar_characteristic@
    &&& a.cofactor@ == b.cofactor@
}

fn limbs_equal(a: &Vec<u64>, b: &Vec<u64>) -> (r: bool)
    ensures
        r == (a@ == b@),
{
    if a.len() != b.len() {
        return false;
    }
    let mut i: usize = 0;
    while i < a.len()
        invariant
            a@.len() == b@.len(),
            0 <= i <= a@.len(),
            forall|j: int| 0 <= j < i ==> a@[j] == b@[j],
        decreases a@.len() - i,
    {
        if a[i] != b[i] {
            return false;
        }
        i = i + 1;
    }
    assert(a@ =~= b@);
    true
}

/// Compares two groups of any model by their invariants.
pub fn compare_affine_type(a: &CurveParameters, b: &CurveParameters) -> (r: bool)
    ensures
        r == same_invariants(*a, *b),
{
    limbs_equal(&a.base_characteristic, &b.base_characteristic) && limbs_equal(
        &a.scalar_characteristic,
        &b.scalar_characteristic,
    ) && limbs_equal(&a.cofactor, &b.cofactor)
}

/// Compares two groups of any model by their invariants; the affine and the
/// projective form of a group share them.
pub fn compare_projective_type(a: &CurveParameters, b: &CurveParameters) -> (r: bool)
    ensures
        r == same_invariants(*a, *b),
{
    compare_affine_type(a, b)
}

/// Compares two short Weierstrass groups; a group of another model never matches.
pub fn compare_sw_parameters(a: &CurveParameters, b: &CurveParameters) -> (r: bool)
    ensures
        r == (a.curve_type == CurveType::SW && b.curve_type == CurveType::SW && same_invariants(
            *a,
            *b,
        )),
{
    a.curve_type == CurveType::SW && b.curve_type == CurveType::SW && compare_affine_type(a, b)
}

/// Compares two twisted Edwards groups; a group of another model never matches.
pub fn compare_ed_parameters(a: &CurveParameters, b: &CurveParameters) -> (r: bool)
    ensures
        r == (a.curve_type == CurveType::ED && b.curve_type == CurveType::ED && same_invariants(
            *a,
            *b,
        )),
{
    a.curve_type == CurveType::ED && b.curve_type == CurveType::ED && compare_affine_type(a, b)
}

/// A group's invariants do not match any registered group.
#[derive(Debug, Clone, Copy, PartialEq, Eq, Structural)]
pub struct UnsupportedCurve;

/// A supported group: its tag and its invariants.
#[derive(Debug, Clone)]
pub struct RegisteredCurve {
    pub tag: BoundaryCurves,
    pub parameters: CurveParameters,
}

/// An entry matches a candidate when the invariants agree and, where the
/// model is taken into account, the models agree too.
pub open spec fn entry_matches(e: CurveParameters, p: CurveParameters, typed: bool) -> bool {
    same_invariants(e, p) && (!typed || e.curve_type == p.curve_type)
}

/// The tag of the first entry from position `i` on that matches `p`.
pub open spec fn resolve_from(
    entries: Seq<RegisteredCurve>,
    p: CurveParameters,
    typed: bool,
    i: int,
) -> Result<BoundaryCurves, UnsupportedCurve>
    decreases entries.len() - i,
{
    if 0 <= i < entries.len() {
        if entry_matches(entries[i].parameters, p, typed) {
            Ok(entries[i].tag)
        } else {
            resolve_from(entries, p, typed, i + 1)
        }
    } else {
        Err(UnsupportedCurve)
    }
}

/// The table of supported groups, in the order in which they are tried.
#[derive(Debug, Clone)]
pub struct CurveRegistry {
    pub entries: Vec<RegisteredCurve>,
}

/// Relies on ark_ff's `Field::characteristic` of the Pallas base and scalar
/// fields and on the `COFACTOR` of `ark_pallas::PallasParameters`.
#[verifier::external_body]
fn pallas_invariants() -> (r: (Vec<u64>, Vec<u64>, Vec<u64>)) {
    (
        ark_pallas::Fq::characteristic().to_vec(),
        ark_pallas::Fr::characteristic().to_vec(),
        <ark_pallas::PallasParameters as SWModelParameters>::COFACTOR.to_vec(),
    )
}

/// Relies on ark_ff's `Field::characteristic` of the MNT4-298 base and scalar
/// fields and on the `COFACTOR` of its G1 parameters.
#[verifier::external_body]
fn mnt4_298_g1_invariants() -> (r: (Vec<u64>, Vec<u64>, Vec<u64>)) {
    (
        ark_mnt4_298::Fq::characteristic().to_vec(),
        ark_mnt4_298::Fr::characteristic().to_vec(),
        <ark_mnt4_298::g1::Parameters as SWModelParameters>::COFACTOR.to_vec(),
    )
}

/// Relies on ark_ff's `Field::characteristic` of the MNT4-298 quadratic
/// extension and scalar fields and on the `COFACTOR` of its G2 parameters.
#[verifier::external_body]
fn mnt4_298_g2_invariants() -> (r: (Vec<u64>, Vec<u64>, Vec<u64>)) {
    (
        ark_mnt4_298::Fq2::characteristic().to_vec(),
        ark_mnt4_298::Fr::characteristic().to_vec(),
        <ark_mnt4_298::g2::Parameters as SWModelParameters>::COFACTOR.to_vec(),
    )
}

/// Relies on ark_ff's `Field::characteristic` of the base and scalar fields of
/// the Edwards curve on BLS12-377 and on the `COFACTOR` of its parameters.
#[verifier::external_body]
fn ed_on_bls12_377_invariants() -> (r: (Vec<u64>, Vec<u64>, Vec<u64>)) {
    (
        ark_ed_on_bls12_377::Fq::characteristic().to_vec(),
        ark_ed_on_bls12_377::Fr::characteristic().to_vec(),
        <ark_ed_on_bls12_377::EdwardsParameters as TEModelParameters>::COFACTOR.to_vec(),
    )
}

fn registered(
    tag: BoundaryCurves,
    curve_type: CurveType,
    invariants: (Vec<u64>, Vec<u64>, Vec<u64>),
) -> (r: RegisteredCurve)
    ensures
        r.tag == tag,
        r.parameters.curve_type == curve_type,
        r.parameters.base_characteristic@ == invariants.0@,
        r.parameters.scalar_characteristic@ == invariants.1@,
        r.parameters.cofactor@ == invariants.2@,
{
    let (base_characteristic, scalar_characteristic, cofactor) = invariants;
    RegisteredCurve {
        tag,
        parameters: CurveParameters { curve_type, base_characteristic, scalar_characteristic, cofactor },
    }
}

impl CurveRegistry {
    /// No two entries share all three invariants.
    pub open spec fn injective(&self) -> bool {
        forall|i: int, j: int|
            0 <= i < self.entries@.len() && 0 <= j < self.entries@.len() && i != j
                ==> !same_invariants(
                #[trigger] self.entries@[i].parameters,
                #[trigger] self.entries@[j].parameters,
            )
    }

    pub open spec fn spec_resolve(&self, p: CurveParameters, typed: bool) -> Result<
        BoundaryCurves,
        UnsupportedCurve,
    > {
        resolve_from(self.entries@, p, typed, 0)
    }

    /// The supported groups with the invariants that their arithmetic library
    /// gives them: Pallas, MNT4-298 G1 and G2, then the Edwards curve on
    /// BLS12-377.
    pub fn supported() -> (r: CurveRegistry)
        ensures
            r.entries@.len() == 4,
            r.entries@[0].tag == BoundaryCurves::Pallas,
            r.entries@[1].tag == BoundaryCurves::MNT4_298G1,
            r.entries@[2].tag == BoundaryCurves::MNT4_298G2,
            r.entries@[3].tag == BoundaryCurves::EdBls12_377,
            r.entries@[0].parameters.curve_type == CurveType::SW,
            r.entries@[1].parameters.curve_type == CurveType::SW,
            r.entries@[2].parameters.curve_type == CurveType::SW,
            r.entries@[3].parameters.curve_type == CurveType::ED,
    {
        let mut entries: Vec<RegisteredCurve> = Vec::new();
        entries.push(registered(BoundaryCurves::Pallas, CurveType::SW, pallas_invariants()));
        entries.push(
            registered(BoundaryCurves::MNT4_298G1, CurveType::SW, mnt4_298_g1_invariants()),
        );
        entries.push(
            registered(BoundaryCurves::MNT4_298G2, CurveType::SW, mnt4_298_g2_invariants()),
        );
        entries.push(
            registered(BoundaryCurves::EdBls12_377, CurveType::ED, ed_on_bls12_377_invariants()),
        );
        CurveRegistry { entries }
    }

    /// Checks that no two entries share all three invariants.
    pub fn is_injective(&self) -> (r: bool)
        ensures
            r == self.injective(),
    {
        let n = self.entries.len();
        let mut i: usize = 0;
        while i < n
            invariant
                n == self.entries@.len(),
                0 <= i <= n,
                forall|a: int, b: int|
                    0 <= a < i && 0 <= b < n && a != b ==> !same_invariants(
                        #[trigger] self.entries@[a].parameters,
                        #[trigger] self.entries@[b].parameters,
                    ),
            decreases n - i,
        {
            let mut j: usize = 0;
            while j < n
                invariant
                    n == self.entries@.len(),
                    0 <= i < n,
                    0 <= j <= n,
                    forall|a: int, b: int|
                        0 <= a < i && 0 <= b < n && a != b ==> !same_invariants(
                            #[trigger] self.entries@[a].parameters,
                            #[trigger] self.entries@[b].parameters,
                        ),
                    forall|b: int|
                        0 <= b < j && b != i ==> !same_invariants(
                            self.entries@[i as int].parameters,
                            #[trigger] self.entries@[b].parameters,
                        ),
                decreases n - j,
            {
                if j != i && compare_affine_type(
                    &self.entries[i].parameters,
                    &self.entries[j].parameters,
                ) {
                    return false;
                }
                j = j + 1;
            }
            i = i + 1;
        }
        true
    }

    fn resolve(&self, p: &CurveParameters, typed: bool) -> (r: Result<
        BoundaryCurves,
        UnsupportedCurve,
    >)
        ensures
            r == self.spec_resolve(*p, typed),
    {
        let mut i: usize = 0;
        while i < self.entries.len()
            invariant
                0 <= i <= self.entries@.len(),
                resolve_from(self.entries@, *p, typed, 0) == resolve_from(
                    self.entries@,
                    *p,
                    typed,
                    i as int,
                ),
            decreases self.entries@.len() - i,
        {
            let e = &self.entries[i];
            let model_ok = !typed || e.parameters.curve_type == p.curve_type;
            if model_ok && compare_affine_type(&e.parameters, p) {
                return Ok(e.tag);
            }
            i = i + 1;
        }
        Err(UnsupportedCurve)
    }
}

impl BoundaryCurves {
    /// The tag of a group in the registry, found by its model and invariants: a short
    /// Weierstrass group is compared with the short Weierstrass entries only,
    /// a twisted Edwards group with the twisted Edwards ones.
    pub fn try_from_curve(registry: &CurveRegistry, p: &CurveParameters) -> (r: Result<
        BoundaryCurves,
        UnsupportedCurve,
    >)
        ensures
            r == registry.spec_resolve(*p, true),
            r is Ok <==> exists|i: int|
                0 <= i < registry.entries@.len() && #[trigger] entry_matches(
                    registry.entries@[i].parameters,
                    *p,
                    true,
                ),
    {
        proof {
            lemma_resolve_ok_iff(registry.entries@, *p, true, 0);
        }
        registry.resolve(p, true)
    }

    /// The tag of an affine group, found by its invariants alone.
    pub fn try_from_affine(registry: &CurveRegistry, p: &CurveParameters) -> (r: Result<
        BoundaryCurves,
        UnsupportedCurve,
    >)
        ensures
            r == registry.spec_resolve(*p, false),
            r is Ok <==> exists|i: int|
                0 <= i < registry.entries@.len() && #[trigger] entry_matches(
                    registry.entries@[i].parameters,
                    *p,
                    false,
                ),
    {
        proof {
            lemma_resolve_ok_iff(registry.entries@, *p, false, 0);
        }
        registry.resolve(p, false)
    }

    /// The tag of a projective group, found by its invariants alone.
    pub fn try_from_projective(registry: &CurveRegistry, p: &CurveParameters) -> (r: Result<
        BoundaryCurves,
        UnsupportedCurve,
    >)
        ensures
            r == registry.spec_resolve(*p, false),
            r is Ok <==> exists|i: int|
                0 <= i < registry.entries@.len() && #[trigger] entry_matches(
                    registry.entries@[i].parameters,
                    *p,
                    false,
                ),
    {
        BoundaryCurves::try_from_affine(registry, p)
    }
}

proof fn lemma_resolve_ok_iff(entries: Seq<RegisteredCurve>, p: CurveParameters, typed: bool, k: int)
    requires
        0 <= k <= entries.len(),
    ensures
        resolve_from(entries, p, typed, k) is Ok <==> exists|i: int|
            k <= i < entries.len() && #[trigger] entry_matches(entries[i].parameters, p, typed),
    decreases entries.len() - k,
{
    if k < entries.len() {
        lemma_resolve_ok_iff(entries, p, typed, k + 1);
        if !entry_matches(entries[k].parameters, p, typed) {
            assert forall|i: int|
                k <= i < entries.len() && #[trigger] entry_matches(
                    entries[i].parameters,
                    p,
                    typed,
                ) implies k + 1 <= i by {}
        }
    }
}

proof fn lemma_resolve_skips(
    entries: Seq<RegisteredCurve>,
    p: CurveParameters,
    typed: bool,
    k: int,
    i: int,
)
    requires
        0 <= k <= i < entries.len(),
        forall|j: int| k <= j < i ==> !#[trigger] entry_matches(entries[j].parameters, p, typed),
    ensures
        resolve_from(entries, p, typed, k) == resolve_from(entries, p, typed, i),
    decreases i - k,
{
    if k < i {
        lemma_resolve_skips(entries, p, typed, k + 1, i);
    }
}

/// Each registered group resolves to its own tag, with or without taking the
/// model into account, as long as no two entries share all invariants; and a
/// group whose invariants match no entry is unsupported.
pub proof fn lemma_registered_resolves(reg: CurveRegistry, i: int, other: CurveParameters)
    requires
        reg.injective(),
        0 <= i < reg.entries@.len(),
    ensures
        reg.spec_resolve(reg.entries@[i].parameters, true) == Ok::<BoundaryCurves, UnsupportedCurve>(reg.entries@[i].tag),
        reg.spec_resolve(reg.entries@[i].parameters, false) == Ok::<BoundaryCurves, UnsupportedCurve>(reg.entries@[i].tag),
        (forall|j: int| 0 <= j < reg.entries@.len() ==> !same_invariants(#[trigger] reg.entries@[j].parameters, other))
            ==> reg.spec_resolve(other, true) == Err::<BoundaryCurves, UnsupportedCurve>(UnsupportedCurve)
            && reg.spec_resolve(other, false) == Err::<BoundaryCurves, UnsupportedCurve>(UnsupportedCurve),
{
    let p = reg.entries@[i].parameters;
    assert forall|j: int| 0 <= j < i implies !#[trigger] entry_matches(reg.entries@[j].parameters, p, true) by {
        assert(!same_invariants(reg.entries@[j].parameters, reg.entries@[i].parameters));
    }
    assert forall|j: int| 0 <= j < i implies !#[trigger] entry_matches(reg.entries@[j].parameters, p, false) by {
        assert(!same_invariants(reg.entries@[j].parameters, reg.entries@[i].parameters));
    }
    lemma_resolve_skips(reg.entries@, p, true, 0, i);
    lemma_resolve_skips(reg.entries@, p, false, 0, i);
    lemma_resolve_ok_iff(reg.entries@, other, true, 0);
    lemma_resolve_ok_iff(reg.entries@, other, false, 0);
    if forall|j: int|
        0 <= j < reg.entries@.len() ==> !same_invariants(
            #[trigger] reg.entries@[j].parameters,
            other,
        ) {
        assert forall|j: int, typed: bool|
            0 <= j < reg.entries@.len() implies !#[trigger] entry_matches(
                reg.entries@[j].parameters,
                other,
                typed,
            ) by {
            assert(!same_invariants(reg.entries@[j].parameters, other));
        }
        lemma_resolve_err_is_unsupported(reg.entries@, other, true, 0);
        lemma_resolve_err_is_unsupported(reg.entries@, other, false, 0);
    }
}

proof fn lemma_resolve_err_is_unsupported(
    entries: Seq<RegisteredCurve>,
    p: CurveParameters,
    typed: bool,
    k: int,
)
    ensures
        resolve_from(entries, p, typed, k) is Err ==> resolve_from(entries, p, typed, k)
            == Err::<BoundaryCurves, UnsupportedCurve>(UnsupportedCurve),
    decreases entries.len() - k,
{
    if 0 <= k < entries.len() {
        lemma_resolve_err_is_unsupported(entries, p, typed, k + 1);
    }
}

} // verus!
