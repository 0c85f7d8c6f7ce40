use crate::arith::{
    local_batch_normalization, local_msm, spec_local_msm, spec_normalized, spec_normalized_all,
};
use crate::boundary::{answer_view, CallId, HostError, NativeBoundary};
use crate::codec::{
    bytes_view, chunks, decode_projectives, deserialize_affines, deserialize_projectives,
    deserialize_scalars, encode_projective, encode_projectives, lemma_round_trip, points_view,
    serialize_projectives, spec_affine_bytes, spec_projective_bytes, spec_scalar_bytes,
};
use crate::curves::BoundaryCurves;
use vstd::arithmetic::div_mod::lemma_fundamental_div_mod;
use vstd::prelude::*;

verus! {

/// What the host answers to a multi-scalar multiplication over group `c`,
/// given the encoded bases and the encoded scalars.
pub open spec fn spec_handle_vb_msm(c: BoundaryCurves, sbases: Seq<u8>, sscalars: Seq<u8>) -> Result<
    Seq<u8>,
    HostError,
> {
    if sbases.len() % spec_affine_bytes(c) != 0 || sscalars.len() % spec_scalar_bytes(c) != 0 {
        Err(HostError::MalformedArguments)
    } else if chunks(sbases, spec_affine_bytes(c)).len() != chunks(
        sscalars,
        spec_scalar_bytes(c),
    ).len() {
        Err(HostError::MalformedArguments)
    } else {
        match spec_local_msm(c, chunks(sbases, spec_affine_bytes(c)), chunks(sscalars, spec_scalar_bytes(c))) {
            Some(p) => Ok(encode_projective(p)),
            None => Err(HostError::InvalidInput),
        }
    }
}

/// What the host answers to a batch normalization over group `c`, given the
/// encoded points.
pub open spec fn spec_handle_bn(c: BoundaryCurves, v: Seq<u8>) -> Result<Seq<u8>, HostError> {
    if v.len() % spec_projective_bytes(c) != 0 {
        Err(HostError::MalformedArguments)
    } else {
        match spec_normalized_all(c, decode_projectives(v, c)) {
            Some(qs) => Ok(encode_projectives(qs)),
            None => Err(HostError::InvalidInput),
        }
    }
}

/// What the host answers to a request: the curve is read from the first tag
/// byte, then the operation takes its buffers.
pub open spec fn spec_handle_call(id: CallId, args: Seq<Seq<u8>>, cp: Seq<u8>) -> Result<
    Seq<Seq<u8>>,
    HostError,
> {
    if cp.len() == 0 || BoundaryCurves::spec_from_u8(cp[0]) is None {
        Err(HostError::UnknownCurve)
    } else {
        let c = BoundaryCurves::spec_from_u8(cp[0])->0;
        match id {
            CallId::VBMul => if args.len() != 2 {
                Err(HostError::MalformedArguments)
            } else {
                match spec_handle_vb_msm(c, args[0], args[1]) {
                    Ok(b) => Ok(seq![b]),
                    Err(e) => Err(e),
                }
            },
            CallId::ProjBN => if args.len() != 1 {
                Err(HostError::MalformedArguments)
            } else {
                match spec_handle_bn(c, args[0]) {
                    Ok(b) => Ok(seq![b]),
                    Err(e) => Err(e),
                }
            },
            CallId::FBMul => Err(HostError::Unsupported),
        }
    }
}

/// What the exported host entry answers to an operation byte.
pub open spec fn spec_host_export_call(id: u8, args: Seq<Seq<u8>>, cp: Seq<u8>) -> Result<
    Seq<Seq<u8>>,
    HostError,
> {
    match CallId::spec_from_u8(id) {
        Some(call) => spec_handle_call(call, args, cp),
        None => Err(HostError::UnknownCall),
    }
}

/// The host side: reads a request, computes with the group arithmetic, and
/// writes the answer.
#[derive(Debug, Clone, Copy)]
pub struct SimpleNativeCallHandler;

impl SimpleNativeCallHandler {
    /// Reads the bases and scalars of group `c`, multiplies and sums them, and
    /// writes the resulting projective point.
    pub fn handle_vb_multi_scalar_mul(
        &self,
        c: BoundaryCurves,
        sbases: &Vec<u8>,
        sscalars: &Vec<u8>,
    ) -> (r: Result<Vec<u8>, HostError>)
        ensures
            match r {
                Ok(b) => spec_handle_vb_msm(c, sbases@, sscalars@) == Ok::<Seq<u8>, HostError>(b@),
                Err(e) => spec_handle_vb_msm(c, sbases@, sscalars@) == Err::<Seq<u8>, HostError>(e),
            },
    {
        let bases = match deserialize_affines(sbases, c) {
            Ok(b) => b,
            Err(_) => {
                return Err(HostError::MalformedArguments);
            },
        };
        let scalars = match deserialize_scalars(sscalars, c) {
            Ok(s) => s,
            Err(_) => {
                return Err(HostError::MalformedArguments);
            },
        };
        if bases.len() != scalars.len() {
            return Err(HostError::MalformedArguments);
        }
        match local_msm(c, &bases, &scalars) {
            Some(p) => {
                proof {
                    lemma_round_trip(p@, Seq::empty(), Seq::empty(), Seq::empty(), c);
                }
                let mut out: Vec<u8> = Vec::new();
                p.noncanonical_serialize_uncompressed_unchecked(&mut out);
                assert(out@ =~= encode_projective(p@));
                Ok(out)
            },
            None => Err(HostError::InvalidInput),
        }
    }

    /// Reads the points of group `c`, normalizes them, and writes them back in
    /// the same order.
    pub fn handle_batch_normalization(&self, c: BoundaryCurves, v: &Vec<u8>) -> (r: Result<
        Vec<u8>,
        HostError,
    >)
        ensures
            match r {
                Ok(b) => spec_handle_bn(c, v@) == Ok::<Seq<u8>, HostError>(b@),
                Err(e) => spec_handle_bn(c, v@) == Err::<Seq<u8>, HostError>(e),
            },
    {
        let vlen = v.len();
        let points = match deserialize_projectives(v, c) {
            Ok(p) => p,
            Err(_) => {
                return Err(HostError::MalformedArguments);
            },
        };
        let ghost ps = decode_projectives(v@, c);
        match local_batch_normalization(c, &points) {
            Some(normalized) => {
                proof {
                    lemma_chunks_count(v@, spec_projective_bytes(c));
                    assert(points@.len() == ps.len());
                    assert forall|i: int| 0 <= i < ps.len() implies #[trigger] spec_normalized(
                        c,
                        ps[i],
                    ) is Some by {
                        assert(ps[i] == points@[i]@);
                    }
                    assert(points_view(normalized@) =~= spec_normalized_all(c, ps)->0);
                    lemma_fundamental_div_mod(v@.len() as int, spec_projective_bytes(c) as int);
                    assert(normalized@.len() * spec_projective_bytes(c) == v@.len()) by (nonlinear_arith)
                        requires
                            normalized@.len() == v@.len() / spec_projective_bytes(c),
                            v@.len() == spec_projective_bytes(c) * (v@.len() / spec_projective_bytes(c)) + 0,
                    ;
                    assert(v@.len() == vlen);
                }
                match serialize_projectives(&normalized, c) {
                    Ok(out) => Ok(out),
                    Err(_) => Err(HostError::InvalidInput),
                }
            },
            None => {
                proof {
                    let i = choose|i: int|
                        0 <= i < points@.len() && !(spec_normalized(c, #[trigger] points@[i]@) is Some);
                    assert(ps[i] == points@[i]@);
                }
                Err(HostError::InvalidInput)
            },
        }
    }

    /// Answers a request: finds the curve by its tag byte, checks the
    /// buffers, and carries out the operation; the reserved fixed-base
    /// multiplication is not offered.
    pub fn handle_call(&self, id: CallId, args: Vec<Vec<u8>>, cp: Vec<u8>) -> (r: Result<
        Vec<Vec<u8>>,
        HostError,
    >)
        ensures
            answer_view(r) == spec_handle_call(id, bytes_view(args@), cp@),
    {
        if cp.len() == 0 {
            return Err(HostError::UnknownCurve);
        }
        let c = match BoundaryCurves::try_from_u8(cp[0]) {
            Some(c) => c,
            None => {
                return Err(HostError::UnknownCurve);
            },
        };
        let ghost a = bytes_view(args@);
        match id {
            CallId::VBMul => {
                if args.len() != 2 {
                    return Err(HostError::MalformedArguments);
                }
                match self.handle_vb_multi_scalar_mul(c, &args[0], &args[1]) {
                    Ok(b) => {
                        let mut out: Vec<Vec<u8>> = Vec::new();
                        out.push(b);
                        assert(bytes_view(out@) =~= seq![out@[0]@]);
                        Ok(out)
                    },
                    Err(e) => Err(e),
                }
            },
            CallId::ProjBN => {
                if args.len() != 1 {
                    return Err(HostError::MalformedArguments);
                }
                match self.handle_batch_normalization(c, &args[0]) {
                    Ok(b) => {
                        let mut out: Vec<Vec<u8>> = Vec::new();
                        out.push(b);
                        assert(bytes_view(out@) =~= seq![out@[0]@]);
                        Ok(out)
                    },
                    Err(e) => Err(e),
                }
            },
            CallId::FBMul => Err(HostError::Unsupported),
        }
    }
}

proof fn lemma_chunks_count(b: Seq<u8>, w: nat)
    requires
        w > 0,
    ensures
        chunks(b, w).len() == b.len() / w,
{
}

/// The host entry as it is exported: the operation arrives as its byte.
pub fn dummy_host_export_call(id: u8, args: Vec<Vec<u8>>, cp: Vec<u8>) -> (r: Result<
    Vec<Vec<u8>>,
    HostError,
>)
    ensures
        answer_view(r) == spec_host_export_call(id, bytes_view(args@), cp@),
{
    match CallId::try_from_u8(id) {
        Some(call) => SimpleNativeCallHandler.handle_call(call, args, cp),
        None => Err(HostError::UnknownCall),
    }
}

/// A delegate that answers in the same process, through the host entry: it
/// exercises the encoding, the call protocol and the choice of curve without
/// a host.
#[derive(Debug, Clone, Copy)]
pub struct DummyBoundary;

impl NativeBoundary for DummyBoundary {
    open spec fn answers(
        &self,
        id: CallId,
        args: Seq<Seq<u8>>,
        cp: Seq<u8>,
        r: Result<Seq<Seq<u8>>, HostError>,
    ) -> bool {
        r == spec_handle_call(id, args, cp)
    }

    fn call(&self, id: CallId, args: Vec<Vec<u8>>, cp: Vec<u8>) -> (r: Result<
        Vec<Vec<u8>>,
        HostError,
    >) {
        dummy_host_export_call(id.to_u8(), args, cp)
    }
}

} // verus!
