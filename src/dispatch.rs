use crate::arith::{
    local_batch_normalization, local_msm, spec_local_msm, spec_normalized, spec_normalized_all,
};
use crate::boundary::{answer_view, Boundary, CallId, CurveGroup, HostError, NativeBoundary};
use crate::codec::{
    affines_view, bytes_view, decode_projectives, deserialize_projectives, encode_projectives,
    points_view, projective_wf, serialize_affines, serialize_projectives, serialize_scalars,
    spec_affine_bytes, spec_coord_bytes, spec_coord_count, spec_model_of, spec_projective_bytes,
    spec_scalar_bytes, uniform, CodecError, GroupAffine, GroupProjective, affine_bytes,
    coord_bytes, coord_count, model_of, scalar_bytes, encode_projective,
    lemma_chunks_flatten, lemma_round_trip,
};
use crate::curves::BoundaryCurves;
use crate::handler::spec_handle_call;
use vstd::arithmetic::div_mod::{lemma_div_by_multiple, lemma_mod_multiples_basic};
use vstd::prelude::*;

verus! {

/// Why a delegated operation did not complete.
#[derive(Debug, Clone, Copy, PartialEq, Eq, Structural)]
pub enum BoundaryError {
    /// A buffer could not be encoded or decoded.
    Codec(CodecError),
    /// No delegate is installed and local computation is not allowed.
    NoDelegateConfigured,
    /// The delegate reported a failure; it is handed on as it came.
    Host(HostError),
    /// There are not as many scalars as bases.
    LengthMismatch,
    /// The local arithmetic refused an input.
    InvalidInput,
}

pub open spec fn point_result_view(r: Result<GroupProjective, BoundaryError>) -> Result<
    Seq<Seq<u8>>,
    BoundaryError,
> {
    match r {
        Ok(p) => Ok(p@),
        Err(e) => Err(e),
    }
}

pub open spec fn points_result_view(r: Result<Vec<GroupProjective>, BoundaryError>) -> Result<
    Seq<Seq<Seq<u8>>>,
    BoundaryError,
> {
    match r {
        Ok(ps) => Ok(points_view(ps@)),
        Err(e) => Err(e),
    }
}

/// The points after an in-place operation, or its error.
pub open spec fn in_place_outcome(r: Result<(), BoundaryError>, v: Seq<GroupProjective>) -> Result<
    Seq<Seq<Seq<u8>>>,
    BoundaryError,
> {
    match r {
        Ok(_) => Ok(points_view(v)),
        Err(e) => Err(e),
    }
}

/// The check made on the inputs of a multi-scalar multiplication over group
/// `c`: as many scalars as bases, each of its group's width.
pub open spec fn spec_msm_inputs(c: BoundaryCurves, bases: Seq<Seq<u8>>, scalars: Seq<Seq<u8>>) -> Result<
    (),
    BoundaryError,
> {
    if bases.len() != scalars.len() {
        Err(BoundaryError::LengthMismatch)
    } else if !uniform(bases, spec_affine_bytes(c)) || !uniform(scalars, spec_scalar_bytes(c)) {
        Err(BoundaryError::Codec(CodecError::WrongWidth))
    } else {
        Ok(())
    }
}

/// The buffers of a multi-scalar multiplication request: the bases end to
/// end, then the scalars end to end.
pub open spec fn spec_msm_args(bases: Seq<Seq<u8>>, scalars: Seq<Seq<u8>>) -> Seq<Seq<u8>> {
    seq![bases.flatten(), scalars.flatten()]
}

/// The curve tag bytes of a request over group `c`.
pub open spec fn spec_tag_bytes(c: BoundaryCurves) -> Seq<u8> {
    seq![c.spec_to_u8()]
}

/// What the guest makes of the delegate's answer to a multi-scalar
/// multiplication: one buffer that holds exactly one point.
pub open spec fn spec_complete_msm(c: BoundaryCurves, resp: Result<Seq<Seq<u8>>, HostError>) -> Result<
    Seq<Seq<u8>>,
    BoundaryError,
> {
    match resp {
        Err(e) => Err(BoundaryError::Host(e)),
        Ok(bufs) => if bufs.len() != 1 {
            Err(BoundaryError::Codec(CodecError::WrongCount))
        } else if bufs[0].len() % spec_projective_bytes(c) != 0 {
            Err(BoundaryError::Codec(CodecError::Truncated))
        } else if decode_projectives(bufs[0], c).len() != 1 {
            Err(BoundaryError::Codec(CodecError::WrongCount))
        } else {
            Ok(decode_projectives(bufs[0], c)[0])
        },
    }
}

/// The multi-scalar multiplication computed here.
pub open spec fn spec_fallback_msm(c: BoundaryCurves, bases: Seq<Seq<u8>>, scalars: Seq<Seq<u8>>) -> Result<
    Seq<Seq<u8>>,
    BoundaryError,
> {
    match spec_local_msm(c, bases, scalars) {
        Some(p) => Ok(p),
        None => Err(BoundaryError::InvalidInput),
    }
}

/// A multi-scalar multiplication computed here, after the input check.
pub open spec fn spec_checked_fallback_msm(
    c: BoundaryCurves,
    bases: Seq<Seq<u8>>,
    scalars: Seq<Seq<u8>>,
) -> Result<Seq<Seq<u8>>, BoundaryError> {
    match spec_msm_inputs(c, bases, scalars) {
        Err(e) => Err(e),
        Ok(_) => spec_fallback_msm(c, bases, scalars),
    }
}

/// The check made on the points of a batch normalization: each has its
/// group's shape.
pub open spec fn spec_bn_inputs(c: BoundaryCurves, ps: Seq<Seq<Seq<u8>>>) -> Result<
    (),
    BoundaryError,
> {
    if forall|i: int| 0 <= i < ps.len() ==> projective_wf(#[trigger] ps[i], c) {
        Ok(())
    } else {
        Err(BoundaryError::Codec(CodecError::WrongWidth))
    }
}

/// What the guest makes of the delegate's answer to a batch normalization of
/// `n` points: one buffer that holds exactly `n` points.
pub open spec fn spec_complete_bn(
    c: BoundaryCurves,
    n: nat,
    resp: Result<Seq<Seq<u8>>, HostError>,
) -> Result<Seq<Seq<Seq<u8>>>, BoundaryError> {
    match resp {
        Err(e) => Err(BoundaryError::Host(e)),
        Ok(bufs) => if bufs.len() != 1 {
            Err(BoundaryError::Codec(CodecError::WrongCount))
        } else if bufs[0].len() % spec_projective_bytes(c) != 0 {
            Err(BoundaryError::Codec(CodecError::Truncated))
        } else if decode_projectives(bufs[0], c).len() != n {
            Err(BoundaryError::Codec(CodecError::WrongCount))
        } else {
            Ok(decode_projectives(bufs[0], c))
        },
    }
}

/// A batch normalization computed here, after the input check.
pub open spec fn spec_checked_fallback_bn(c: BoundaryCurves, ps: Seq<Seq<Seq<u8>>>) -> Result<
    Seq<Seq<Seq<u8>>>,
    BoundaryError,
> {
    match spec_bn_inputs(c, ps) {
        Err(e) => Err(e),
        Ok(_) => spec_fallback_bn(c, ps),
    }
}

/// The batch normalization computed here.
pub open spec fn spec_fallback_bn(c: BoundaryCurves, ps: Seq<Seq<Seq<u8>>>) -> Result<
    Seq<Seq<Seq<u8>>>,
    BoundaryError,
> {
    match spec_normalized_all(c, ps) {
        Some(qs) => Ok(qs),
        None => Err(BoundaryError::InvalidInput),
    }
}

fn check_msm_inputs(c: BoundaryCurves, bases: &Vec<GroupAffine>, scalars: &Vec<Vec<u8>>) -> (r: Result<
    (),
    BoundaryError,
>)
    ensures
        r == spec_msm_inputs(c, affines_view(bases@), bytes_view(scalars@)),
{
    if bases.len() != scalars.len() {
        return Err(BoundaryError::LengthMismatch);
    }
    let aw = affine_bytes(c);
    let sw = scalar_bytes(c);
    let mut i: usize = 0;
    while i < bases.len()
        invariant
            aw == spec_affine_bytes(c),
            sw == spec_scalar_bytes(c),
            bases@.len() == scalars@.len(),
            0 <= i <= bases@.len(),
            forall|j: int| 0 <= j < i ==> #[trigger] bases@[j]@.len() == aw,
            forall|j: int| 0 <= j < i ==> #[trigger] scalars@[j]@.len() == sw,
        decreases bases@.len() - i,
    {
        if bases[i].encoding.len() != aw || scalars[i].len() != sw {
            proof {
                assert(affines_view(bases@)[i as int] == bases@[i as int]@);
                assert(bytes_view(scalars@)[i as int] == scalars@[i as int]@);
            }
            return Err(BoundaryError::Codec(CodecError::WrongWidth));
        }
        i = i + 1;
    }
    assert(uniform(affines_view(bases@), spec_affine_bytes(c)));
    assert(uniform(bytes_view(scalars@), spec_scalar_bytes(c)));
    Ok(())
}

fn check_points(c: BoundaryCurves, v: &Vec<GroupProjective>) -> (r: Result<(), BoundaryError>)
    ensures
        r == spec_bn_inputs(c, points_view(v@)),
{
    let count = coord_count(model_of(c));
    let w = coord_bytes(c);
    let mut i: usize = 0;
    while i < v.len()
        invariant
            count == spec_coord_count(spec_model_of(c)),
            w == spec_coord_bytes(c),
            0 <= i <= v@.len(),
            forall|j: int| 0 <= j < i ==> projective_wf(#[trigger] v@[j]@, c),
        decreases v@.len() - i,
    {
        let p = &v[i];
        if p.coords.len() != count {
            proof {
                assert(points_view(v@)[i as int] == v@[i as int]@);
            }
            return Err(BoundaryError::Codec(CodecError::WrongWidth));
        }
        let mut j: usize = 0;
        while j < count
            invariant
                0 <= i < v@.len(),
                *p == v@[i as int],
                w == spec_coord_bytes(c),
                count == p.coords@.len(),
                0 <= j <= count,
                forall|k: int| 0 <= k < j ==> #[trigger] p.coords@[k]@.len() == w,
            decreases count - j,
        {
            if p.coords[j].len() != w {
                proof {
                    assert(p@[j as int].len() != w);
                    assert(points_view(v@)[i as int] == v@[i as int]@);
                }
                return Err(BoundaryError::Codec(CodecError::WrongWidth));
            }
            j = j + 1;
        }
        assert(projective_wf(p@, c));
        i = i + 1;
    }
    assert forall|j: int| 0 <= j < points_view(v@).len() implies projective_wf(
        #[trigger] points_view(v@)[j],
        c,
    ) by {
        assert(points_view(v@)[j] == v@[j]@);
    }
    Ok(())
}

/// Reads the delegate's answer to a multi-scalar multiplication over `c`.
pub fn complete_msm(c: BoundaryCurves, resp: Result<Vec<Vec<u8>>, HostError>) -> (r: Result<
    GroupProjective,
    BoundaryError,
>)
    ensures
        point_result_view(r) == spec_complete_msm(c, answer_view(resp)),
{
    match resp {
        Err(e) => Err(BoundaryError::Host(e)),
        Ok(bufs) => {
            if bufs.len() != 1 {
                return Err(BoundaryError::Codec(CodecError::WrongCount));
            }
            match deserialize_projectives(&bufs[0], c) {
                Err(e) => Err(BoundaryError::Codec(e)),
                Ok(ps) => {
                    if ps.len() != 1 {
                        return Err(BoundaryError::Codec(CodecError::WrongCount));
                    }
                    let mut ps = ps;
                    match ps.pop() {
                        Some(p) => Ok(p),
                        None => Err(BoundaryError::Codec(CodecError::WrongCount)),
                    }
                },
            }
        },
    }
}

/// Reads the delegate's answer to a batch normalization of `n` points over
/// `c`.
pub fn complete_bn(c: BoundaryCurves, n: usize, resp: Result<Vec<Vec<u8>>, HostError>) -> (r: Result<
    Vec<GroupProjective>,
    BoundaryError,
>)
    ensures
        points_result_view(r) == spec_complete_bn(c, n as nat, answer_view(resp)),
{
    match resp {
        Err(e) => Err(BoundaryError::Host(e)),
        Ok(bufs) => {
            if bufs.len() != 1 {
                return Err(BoundaryError::Codec(CodecError::WrongCount));
            }
            match deserialize_projectives(&bufs[0], c) {
                Err(e) => Err(BoundaryError::Codec(e)),
                Ok(ps) => {
                    if ps.len() != n {
                        return Err(BoundaryError::Codec(CodecError::WrongCount));
                    }
                    Ok(ps)
                },
            }
        },
    }
}

/// Multi-scalar multiplication over variable bases, delegated when it can be.
pub struct VariableBaseMSM;

impl VariableBaseMSM {
    /// The sum of `scalars[i] * bases[i]` over the group of `g`. With a
    /// delegate installed for `g`, the inputs are encoded and sent to it, and
    /// its answer is read back; a failure it reports is handed on, never
    /// replaced by local computation. With none, the sum is computed here if
    /// `g` allows it, and otherwise the call fails with nothing done.
    pub fn multi_scalar_mul<D: NativeBoundary>(
        boundary: &Boundary<D>,
        g: CurveGroup,
        bases: &Vec<GroupAffine>,
        scalars: &Vec<Vec<u8>>,
    ) -> (r: Result<GroupProjective, BoundaryError>)
        requires
            boundary.wf(),
            bases@.len() * spec_affine_bytes(g.curve) <= usize::MAX,
            scalars@.len() * spec_scalar_bytes(g.curve) <= usize::MAX,
        ensures
            boundary.delegate_of(g) is None && !boundary.fallback_of(g) ==> r == Err::<
                GroupProjective,
                BoundaryError,
            >(BoundaryError::NoDelegateConfigured),
            boundary.delegate_of(g) is None && boundary.fallback_of(g) ==> point_result_view(r)
                == spec_checked_fallback_msm(g.curve, affines_view(bases@), bytes_view(scalars@)),
            boundary.delegate_of(g) is Some ==> (spec_msm_inputs(
                g.curve,
                affines_view(bases@),
                bytes_view(scalars@),
            ) matches Err(e) ==> r == Err::<GroupProjective, BoundaryError>(e)),
            boundary.delegate_of(g) matches Some(d) ==> (spec_msm_inputs(
                g.curve,
                affines_view(bases@),
                bytes_view(scalars@),
            ) is Ok ==> exists|resp: Result<Seq<Seq<u8>>, HostError>|
                #[trigger] d.answers(
                    CallId::VBMul,
                    spec_msm_args(affines_view(bases@), bytes_view(scalars@)),
                    spec_tag_bytes(g.curve),
                    resp,
                ) && point_result_view(r) == spec_complete_msm(g.curve, resp)),
    {
        let c = g.curve;
        match boundary.get_native_boundary(g) {
            Some(nb) => {
                match check_msm_inputs(c, bases, scalars) {
                    Err(e) => {
                        return Err(e);
                    },
                    Ok(_) => {},
                }
                let sbases = match serialize_affines(bases, c) {
                    Ok(b) => b,
                    Err(e) => {
                        return Err(BoundaryError::Codec(e));
                    },
                };
                let sscalars = match serialize_scalars(scalars, c) {
                    Ok(s) => s,
                    Err(e) => {
                        return Err(BoundaryError::Codec(e));
                    },
                };
                let mut args: Vec<Vec<u8>> = Vec::new();
                args.push(sbases);
                args.push(sscalars);
                let mut cp: Vec<u8> = Vec::new();
                cp.push(c.to_u8());
                assert(bytes_view(args@) =~= spec_msm_args(
                    affines_view(bases@),
                    bytes_view(scalars@),
                ));
                assert(cp@ =~= spec_tag_bytes(c));
                let resp = nb.call(CallId::VBMul, args, cp);
                let ghost rv = answer_view(resp);
                let result = complete_msm(c, resp);
                assert(nb.answers(
                    CallId::VBMul,
                    spec_msm_args(affines_view(bases@), bytes_view(scalars@)),
                    spec_tag_bytes(c),
                    rv,
                ));
                assert(boundary.delegate_of(g) == Some(*nb));
                assert(point_result_view(result) == spec_complete_msm(c, rv));
                let ghost d = boundary.delegate_of(g)->0;
                assert(d.answers(
                    CallId::VBMul,
                    spec_msm_args(affines_view(bases@), bytes_view(scalars@)),
                    spec_tag_bytes(c),
                    rv,
                ));
                assert(exists|resp: Result<Seq<Seq<u8>>, HostError>|
                    #[trigger] d.answers(
                        CallId::VBMul,
                        spec_msm_args(affines_view(bases@), bytes_view(scalars@)),
                        spec_tag_bytes(g.curve),
                        resp,
                    ) && point_result_view(result) == spec_complete_msm(g.curve, resp));
                result
            },
            None => {
                if !boundary.get_native_fallback(g) {
                    return Err(BoundaryError::NoDelegateConfigured);
                }
                match check_msm_inputs(c, bases, scalars) {
                    Err(e) => {
                        return Err(e);
                    },
                    Ok(_) => {},
                }
                match local_msm(c, bases, scalars) {
                    Some(p) => Ok(p),
                    None => Err(BoundaryError::InvalidInput),
                }
            },
        }
    }
}

impl GroupProjective {
    /// Normalizes the points of the group of `g` in place, keeping their
    /// number and order. With a delegate installed for `g`, the points are
    /// encoded and sent to it and its answer is read back; a failure it
    /// reports is handed on, never replaced by local computation. With none,
    /// they are normalized here if `g` allows it, and otherwise the call fails.
    /// A call that fails leaves the points as they were.
    pub fn batch_normalization<D: NativeBoundary>(
        boundary: &Boundary<D>,
        g: CurveGroup,
        v: &mut Vec<GroupProjective>,
    ) -> (r: Result<(), BoundaryError>)
        requires
            boundary.wf(),
            old(v)@.len() * spec_projective_bytes(g.curve) <= usize::MAX,
        ensures
            r is Err ==> final(v)@ == old(v)@,
            boundary.delegate_of(g) is None && !boundary.fallback_of(g) ==> r == Err::<
                (),
                BoundaryError,
            >(BoundaryError::NoDelegateConfigured),
            boundary.delegate_of(g) is None && boundary.fallback_of(g) ==> in_place_outcome(
                r,
                final(v)@,
            ) == spec_checked_fallback_bn(g.curve, points_view(old(v)@)),
            boundary.delegate_of(g) is Some ==> (spec_bn_inputs(g.curve, points_view(old(v)@)) matches Err(
                e,
            ) ==> r == Err::<(), BoundaryError>(e)),
            boundary.delegate_of(g) matches Some(d) ==> (spec_bn_inputs(
                g.curve,
                points_view(old(v)@),
            ) is Ok ==> exists|resp: Result<Seq<Seq<u8>>, HostError>|
                #[trigger] d.answers(
                    CallId::ProjBN,
                    seq![encode_projectives(points_view(old(v)@))],
                    spec_tag_bytes(g.curve),
                    resp,
                ) && in_place_outcome(r, final(v)@) == spec_complete_bn(
                    g.curve,
                    old(v)@.len(),
                    resp,
                )),
    {
        let c = g.curve;
        match boundary.get_native_boundary(g) {
            Some(nb) => {
                let buf = match serialize_projectives(v, c) {
                    Ok(b) => b,
                    Err(e) => {
                        proof {
                            assert(spec_bn_inputs(c, points_view(v@)) is Err) by {
                                if spec_bn_inputs(c, points_view(v@)) is Ok {
                                    assert forall|i: int| 0 <= i < v@.len() implies projective_wf(
                                        #[trigger] v@[i]@,
                                        c,
                                    ) by {
                                        assert(points_view(v@)[i] == v@[i]@);
                                    }
                                }
                            }
                        }
                        return Err(BoundaryError::Codec(e));
                    },
                };
                proof {
                    assert(spec_bn_inputs(c, points_view(v@)) is Ok) by {
                        assert forall|i: int| 0 <= i < points_view(v@).len() implies projective_wf(
                            #[trigger] points_view(v@)[i],
                            c,
                        ) by {
                            assert(points_view(v@)[i] == v@[i]@);
                        }
                    }
                }
                let mut args: Vec<Vec<u8>> = Vec::new();
                args.push(buf);
                let mut cp: Vec<u8> = Vec::new();
                cp.push(c.to_u8());
                assert(bytes_view(args@) =~= seq![encode_projectives(points_view(v@))]);
                assert(cp@ =~= spec_tag_bytes(c));
                let resp = nb.call(CallId::ProjBN, args, cp);
                let ghost rv = answer_view(resp);
                assert(nb.answers(
                    CallId::ProjBN,
                    seq![encode_projectives(points_view(v@))],
                    spec_tag_bytes(c),
                    rv,
                ));
                assert(boundary.delegate_of(g) == Some(*nb));
                let ghost n = v@.len();
                let ghost ps0 = points_view(v@);
                let ghost d = boundary.delegate_of(g)->0;
                assert(d.answers(CallId::ProjBN, seq![encode_projectives(ps0)], spec_tag_bytes(c), rv));
                let result = match complete_bn(c, v.len(), resp) {
                    Ok(ps) => {
                        *v = ps;
                        Ok(())
                    },
                    Err(e) => Err(e),
                };
                assert(in_place_outcome(result, v@) == spec_complete_bn(c, n, rv));
                assert(exists|resp: Result<Seq<Seq<u8>>, HostError>|
                    #[trigger] d.answers(CallId::ProjBN, seq![encode_projectives(ps0)], spec_tag_bytes(c), resp)
                        && in_place_outcome(result, v@) == spec_complete_bn(c, n, resp));
                result
            },
            None => {
                if !boundary.get_native_fallback(g) {
                    return Err(BoundaryError::NoDelegateConfigured);
                }
                match check_points(c, v) {
                    Err(e) => {
                        return Err(e);
                    },
                    Ok(_) => {},
                }
                proof {
                    assert forall|i: int| 0 <= i < v@.len() implies projective_wf(
                        #[trigger] v@[i]@,
                        c,
                    ) by {
                        assert(points_view(v@)[i] == v@[i]@);
                    }
                }
                let ghost ps = points_view(v@);
                match local_batch_normalization(c, v) {
                    Some(out) => {
                        proof {
                            assert forall|i: int| 0 <= i < ps.len() implies spec_normalized(
                                c,
                                #[trigger] ps[i],
                            ) is Some by {
                                assert(ps[i] == v@[i]@);
                            }
                            assert(points_view(out@) =~= spec_normalized_all(c, ps)->0);
                        }
                        *v = out;
                        Ok(())
                    },
                    None => {
                        proof {
                            let i = choose|i: int|
                                0 <= i < v@.len() && !(spec_normalized(
                                    c,
                                    #[trigger] v@[i]@,
                                ) is Some);
                            assert(ps[i] == v@[i]@);
                        }
                        Err(BoundaryError::InvalidInput)
                    },
                }
            },
        }
    }
}

/// Items of width `w` put end to end fill a whole number of items.
proof fn lemma_uniform_flatten_len(s: Seq<Seq<u8>>, w: nat)
    requires
        w > 0,
        uniform(s, w),
    ensures
        s.flatten().len() == s.len() * w,
        s.flatten().len() % w == 0,
        s.flatten().len() / w == s.len(),
{
    lemma_chunks_flatten(s, w);
    lemma_mod_multiples_basic(s.len() as int, w as int);
    lemma_div_by_multiple(s.len() as int, w as int);
}

/// A buffer that holds the encoding of one point of `c` reads back as that
/// point, and as no other number of points.
proof fn lemma_single_point(c: BoundaryCurves, p: Seq<Seq<u8>>)
    requires
        projective_wf(p, c),
    ensures
        encode_projective(p).len() % spec_projective_bytes(c) == 0,
        decode_projectives(encode_projective(p), c).len() == 1,
        decode_projectives(encode_projective(p), c)[0] == p,
{
    let size = spec_projective_bytes(c);
    lemma_round_trip(p, seq![p], Seq::empty(), Seq::empty(), c);
    let ps = seq![p];
    assert(ps.map_values(|q: Seq<Seq<u8>>| encode_projective(q)) =~= seq![encode_projective(p)]);
    assert(seq![encode_projective(p)].flatten() == encode_projective(p));
    assert(encode_projectives(ps) == encode_projective(p));
    lemma_mod_multiples_basic(1, size as int);
}

/// A delegate that answers as the host handler does gives what local
/// computation gives: the same point when the local multi-scalar
/// multiplication succeeds, and the host's report of an invalid input when it
/// does not.
pub proof fn lemma_loopback_msm_matches_fallback(
    c: BoundaryCurves,
    bases: Seq<Seq<u8>>,
    scalars: Seq<Seq<u8>>,
)
    requires
        spec_msm_inputs(c, bases, scalars) is Ok,
        spec_local_msm(c, bases, scalars) matches Some(p) ==> projective_wf(p, c),
    ensures
        spec_complete_msm(
            c,
            spec_handle_call(CallId::VBMul, spec_msm_args(bases, scalars), spec_tag_bytes(c)),
        ) == match spec_fallback_msm(c, bases, scalars) {
            Ok(p) => Ok(p),
            Err(_) => Err(BoundaryError::Host(HostError::InvalidInput)),
        },
{
    let ab = spec_affine_bytes(c);
    let sb = spec_scalar_bytes(c);
    lemma_uniform_flatten_len(bases, ab);
    lemma_uniform_flatten_len(scalars, sb);
    lemma_chunks_flatten(bases, ab);
    lemma_chunks_flatten(scalars, sb);
    assert(BoundaryCurves::spec_from_u8(c.spec_to_u8()) == Some(c));
    let args = spec_msm_args(bases, scalars);
    assert(args[0] == bases.flatten());
    assert(args[1] == scalars.flatten());
    match spec_local_msm(c, bases, scalars) {
        Some(p) => {
            lemma_single_point(c, p);
        },
        None => {},
    }
}

/// Batch normalization keeps the number and the order of the points: the
/// i-th point out is the normalized form of the i-th point in. So it is when
/// computed here, and a delegate that answers as the host handler does gives
/// the same points, or the host's report of an invalid input where local
/// computation fails.
pub proof fn lemma_batch_normalization_keeps_order(c: BoundaryCurves, ps: Seq<Seq<Seq<u8>>>)
    requires
        spec_bn_inputs(c, ps) is Ok,
        forall|i: int|
            0 <= i < ps.len() ==> (spec_normalized(c, #[trigger] ps[i]) matches Some(q)
                ==> projective_wf(q, c)),
    ensures
        spec_fallback_bn(c, ps) matches Ok(qs) ==> qs.len() == ps.len() && forall|i: int|
            0 <= i < ps.len() ==> spec_normalized(c, ps[i]) == Some(#[trigger] qs[i]),
        spec_complete_bn(
            c,
            ps.len(),
            spec_handle_call(CallId::ProjBN, seq![encode_projectives(ps)], spec_tag_bytes(c)),
        ) == match spec_fallback_bn(c, ps) {
            Ok(qs) => Ok(qs),
            Err(_) => Err(BoundaryError::Host(HostError::InvalidInput)),
        },
{
    let size = spec_projective_bytes(c);
    assert(forall|i: int| 0 <= i < ps.len() ==> projective_wf(#[trigger] ps[i], c));
    lemma_round_trip(Seq::empty(), ps, Seq::empty(), Seq::empty(), c);
    lemma_mod_multiples_basic(ps.len() as int, size as int);
    assert(BoundaryCurves::spec_from_u8(c.spec_to_u8()) == Some(c));
    assert(seq![encode_projectives(ps)][0] == encode_projectives(ps));
    match spec_normalized_all(c, ps) {
        Some(qs) => {
            assert forall|i: int| 0 <= i < qs.len() implies projective_wf(#[trigger] qs[i], c) by {
                assert(spec_normalized(c, ps[i]) is Some);
            }
            assert forall|i: int| 0 <= i < ps.len() implies spec_normalized(c, ps[i]) == Some(
                #[trigger] qs[i],
            ) by {
                assert(spec_normalized(c, ps[i]) is Some);
            }
            lemma_round_trip(Seq::empty(), qs, Seq::empty(), Seq::empty(), c);
            lemma_mod_multiples_basic(qs.len() as int, size as int);
            lemma_div_by_multiple(qs.len() as int, size as int);
        },
        None => {},
    }
}

/// A failure that the delegate reports comes out as it came, for either
/// operation: the guest never turns it into local computation.
pub proof fn lemma_host_error_surfaces(c: BoundaryCurves, n: nat, e: HostError)
    ensures
        spec_complete_msm(c, Err(e)) == Err::<Seq<Seq<u8>>, BoundaryError>(BoundaryError::Host(e)),
        spec_complete_bn(c, n, Err(e)) == Err::<Seq<Seq<Seq<u8>>>, BoundaryError>(
            BoundaryError::Host(e),
        ),
{
}

} // verus!
