use crate::codec::bytes_view;
use crate::curves::BoundaryCurves;
use vstd::prelude::*;

verus! {

/// The operations that may be delegated. An operation travels as one byte.
#[derive(Debug, Clone, Copy, PartialEq, Eq, Structural)]
pub enum CallId {
    /// Multi-scalar multiplication over variable bases.
    VBMul,
    /// Multi-scalar multiplication over fixed bases; reserved.
    FBMul,
    /// Batch normalization of projective points.
    ProjBN,
}

impl CallId {
    pub open spec fn spec_to_u8(self) -> u8 {
        match self {
            CallId::VBMul => 0,
            CallId::FBMul => 1,
            CallId::ProjBN => 2,
        }
    }

    pub open spec fn spec_from_u8(b: u8) -> Option<CallId> {
        if b == 0 {
            Some(CallId::VBMul)
        } else if b == 1 {
            Some(CallId::FBMul)
        } else if b == 2 {
            Some(CallId::ProjBN)
        } else {
            None
        }
    }

    /// The byte that stands for this operation on the wire.
    pub fn to_u8(self) -> (r: u8)
        ensures
            r == self.spec_to_u8(),
            CallId::spec_from_u8(r) == Some(self),
    {
        match self {
            CallId::VBMul => 0,
            CallId::FBMul => 1,
            CallId::ProjBN => 2,
        }
    }

    /// Reads an operation from its byte; `None` for a byte that names none.
    pub fn try_from_u8(b: u8) -> (r: Option<CallId>)
        ensures
            r == CallId::spec_from_u8(b),
            r is Some <==> b < 3,
            r matches Some(id) ==> id.spec_to_u8() == b,
    {
        if b == 0 {
            Some(CallId::VBMul)
        } else if b == 1 {
            Some(CallId::FBMul)
        } else if b == 2 {
            Some(CallId::ProjBN)
        } else {
            None
        }
    }
}

/// A failure reported by the host side of the boundary.
#[derive(Debug, Clone, Copy, PartialEq, Eq, Structural)]
pub enum HostError {
    /// The operation byte names no operation.
    UnknownCall,
    /// The curve byte names no supported group.
    UnknownCurve,
    /// The operation is known but not offered.
    Unsupported,
    /// The buffers are not those the operation takes.
    MalformedArguments,
    /// The arithmetic refused an input: an encoding that is no element.
    InvalidInput,
    /// Any other failure of the host.
    Failed,
}

/// A host answer with its buffers viewed as byte sequences.
pub open spec fn answer_view(r: Result<Vec<Vec<u8>>, HostError>) -> Result<Seq<Seq<u8>>, HostError> {
    match r {
        Ok(v) => Ok(bytes_view(v@)),
        Err(e) => Err(e),
    }
}

/// A delegate that carries calls to the host.
pub trait NativeBoundary {
    /// Which answers the delegate may give to a request: the operation, the
    /// buffers, and the curve tag bytes. Unless a delegate says more, any.
    open spec fn answers(
        &self,
        id: CallId,
        args: Seq<Seq<u8>>,
        cp: Seq<u8>,
        r: Result<Seq<Seq<u8>>, HostError>,
    ) -> bool {
        true
    }

    /// Sends a request to the host and hands back its answer.
    fn call(&self, id: CallId, args: Vec<Vec<u8>>, cp: Vec<u8>) -> (r: Result<
        Vec<Vec<u8>>,
        HostError,
    >)
        ensures
            self.answers(id, bytes_view(args@), cp@, answer_view(r)),
    ;
}

/// The form of a group's points.
#[derive(Debug, Clone, Copy, PartialEq, Eq, Structural)]
pub enum GroupForm {
    Affine,
    Projective,
}

/// A curve-group type that has a slot of its own: the group, the form of its
/// points, and whether it is the wrapper type around the group, which is
/// configured apart from the group itself.
#[derive(Debug, Clone, Copy, PartialEq, Eq, Structural)]
pub struct CurveGroup {
    pub curve: BoundaryCurves,
    pub form: GroupForm,
    pub wrapped: bool,
}

/// Number of slots: one for each group, form and wrapping.
pub const SLOT_COUNT: usize = 16;

impl CurveGroup {
    pub open spec fn spec_index(self) -> int {
        self.curve.spec_to_u8() * 4 + (if self.form == GroupForm::Projective {
            2int
        } else {
            0int
        }) + (if self.wrapped {
            1int
        } else {
            0int
        })
    }

    pub fn index(self) -> (r: usize)
        ensures
            r == self.spec_index(),
            r < SLOT_COUNT,
    {
        let form: usize = if self.form == GroupForm::Projective {
            2
        } else {
            0
        };
        let wrapped: usize = if self.wrapped {
            1
        } else {
            0
        };
        (self.curve.to_u8() as usize) * 4 + form + wrapped
    }
}

/// Two distinct curve-group types never share a slot.
pub proof fn lemma_slots_distinct(g: CurveGroup, h: CurveGroup)
    ensures
        g.spec_index() == h.spec_index() ==> g == h,
        0 <= g.spec_index() < SLOT_COUNT,
{
}

/// The configuration of every curve-group type: its delegate, if one is
/// installed, and whether local computation is allowed when none is.
pub struct Boundary<D> {
    delegates: Vec<Option<D>>,
    fallbacks: Vec<bool>,
}

impl<D> Boundary<D> {
    pub closed spec fn wf(&self) -> bool {
        self.delegates@.len() == SLOT_COUNT && self.fallbacks@.len() == SLOT_COUNT
    }

    /// The delegate installed for a curve-group type.
    pub closed spec fn delegate_of(&self, g: CurveGroup) -> Option<D> {
        self.delegates@[g.spec_index()]
    }

    /// Whether local computation is allowed for a curve-group type.
    pub closed spec fn fallback_of(&self, g: CurveGroup) -> bool {
        self.fallbacks@[g.spec_index()]
    }

    /// A configuration with no delegate and no fallback for any type.
    pub fn new() -> (r: Boundary<D>)
        ensures
            r.wf(),
            forall|g: CurveGroup| #[trigger] r.delegate_of(g) is None && !r.fallback_of(g),
    {
        let mut delegates: Vec<Option<D>> = Vec::new();
        let mut fallbacks: Vec<bool> = Vec::new();
        let mut i: usize = 0;
        while i < SLOT_COUNT
            invariant
                0 <= i <= SLOT_COUNT,
                delegates@.len() == i,
                fallbacks@.len() == i,
                forall|j: int| 0 <= j < i ==> #[trigger] delegates@[j] == None::<D>,
                forall|j: int| 0 <= j < i ==> !#[trigger] fallbacks@[j],
            decreases SLOT_COUNT - i,
        {
            delegates.push(None);
            fallbacks.push(false);
            i = i + 1;
        }
        let r = Boundary { delegates, fallbacks };
        assert forall|g: CurveGroup| #[trigger] r.delegate_of(g) is None && !r.fallback_of(g) by {
            lemma_slots_distinct(g, g);
        }
        r
    }

    /// Installs a delegate for one curve-group type, or removes it with
    /// `None`; every other setting stays.
    pub fn set_native_boundary(&mut self, g: CurveGroup, nb: Option<D>)
        requires
            old(self).wf(),
        ensures
            final(self).wf(),
            final(self).delegate_of(g) == nb,
            forall|h: CurveGroup| h != g ==> #[trigger] final(self).delegate_of(h) == old(self).delegate_of(h),
            forall|h: CurveGroup| #[trigger] final(self).fallback_of(h) == old(self).fallback_of(h),
    {
        let i = g.index();
        self.delegates.set(i, nb);
        proof {
            assert forall|h: CurveGroup| h != g implies #[trigger] final(self).delegate_of(h)
                == old(self).delegate_of(h) by {
                lemma_slots_distinct(g, h);
                lemma_slots_distinct(h, h);
            }
        }
    }

    /// Allows or forbids local computation for one curve-group type; every
    /// other setting stays.
    pub fn set_native_fallback(&mut self, g: CurveGroup, fall: bool)
        requires
            old(self).wf(),
        ensures
            final(self).wf(),
            final(self).fallback_of(g) == fall,
            forall|h: CurveGroup| h != g ==> #[trigger] final(self).fallback_of(h) == old(self).fallback_of(h),
            forall|h: CurveGroup| #[trigger] final(self).delegate_of(h) == old(self).delegate_of(h),
    {
        let i = g.index();
        self.fallbacks.set(i, fall);
        proof {
            assert forall|h: CurveGroup| h != g implies #[trigger] final(self).fallback_of(h)
                == old(self).fallback_of(h) by {
                lemma_slots_distinct(g, h);
                lemma_slots_distinct(h, h);
            }
        }
    }

    /// The delegate installed for a curve-group type.
    pub fn get_native_boundary(&self, g: CurveGroup) -> (r: Option<&D>)
        requires
            self.wf(),
        ensures
            r is Some <==> self.delegate_of(g) is Some,
            r matches Some(d) ==> self.delegate_of(g) == Some(*d),
    {
        let i = g.index();
        self.delegates[i].as_ref()
    }

    /// Whether local computation is allowed for a curve-group type.
    pub fn get_native_fallback(&self, g: CurveGroup) -> (r: bool)
        requires
            self.wf(),
        ensures
            r == self.fallback_of(g),
    {
        self.fallbacks[g.index()]
    }
}

} // verus!
