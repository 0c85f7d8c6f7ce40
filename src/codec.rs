use crate::curves::{BoundaryCurves, CurveType};
use vstd::arithmetic::div_mod::{lemma_div_by_multiple, lemma_fundamental_div_mod};
use vstd::prelude::*;

verus! {

// The wire layout of each supported group. A coordinate is one base-field
// element in its uncompressed encoding; an affine point is the group's own
// uncompressed encoding; a scalar is its integer's little-endian limbs.
/// The coordinate model of each supported group.
pub open spec fn spec_model_of(c: BoundaryCurves) -> CurveType {
    match c {
        BoundaryCurves::EdBls12_377 => CurveType::ED,
        _ => CurveType::SW,
    }
}

/// Coordinates of a projective point: (x, y, z), or (x, y, t, z) in extended
/// twisted Edwards form.
pub open spec fn spec_coord_count(t: CurveType) -> nat {
    match t {
        CurveType::SW => 3,
        CurveType::ED => 4,
    }
}

/// Bytes of one base-field element.
pub open spec fn spec_coord_bytes(c: BoundaryCurves) -> nat {
    match c {
        BoundaryCurves::Pallas => 32,
        BoundaryCurves::EdBls12_377 => 32,
        BoundaryCurves::MNT4_298G1 => 38,
        BoundaryCurves::MNT4_298G2 => 76,
    }
}

/// Bytes of one affine point.
pub open spec fn spec_affine_bytes(c: BoundaryCurves) -> nat {
    match c {
        BoundaryCurves::Pallas => 65,
        BoundaryCurves::EdBls12_377 => 64,
        BoundaryCurves::MNT4_298G1 => 76,
        BoundaryCurves::MNT4_298G2 => 152,
    }
}

/// Bytes of one scalar.
pub open spec fn spec_scalar_bytes(c: BoundaryCurves) -> nat {
    match c {
        BoundaryCurves::Pallas => 32,
        BoundaryCurves::EdBls12_377 => 32,
        BoundaryCurves::MNT4_298G1 => 40,
        BoundaryCurves::MNT4_298G2 => 40,
    }
}

/// Bytes of one projective point.
pub open spec fn spec_projective_bytes(c: BoundaryCurves) -> nat {
    spec_coord_count(spec_model_of(c)) * spec_coord_bytes(c)
}

pub fn model_of(c: BoundaryCurves) -> (r: CurveType)
    ensures
        r == spec_model_of(c),
{
    match c {
        BoundaryCurves::EdBls12_377 => CurveType::ED,
        _ => CurveType::SW,
    }
}

pub fn coord_count(t: CurveType) -> (r: usize)
    ensures
        r == spec_coord_count(t),
{
    match t {
        CurveType::SW => 3,
        CurveType::ED => 4,
    }
}

pub fn coord_bytes(c: BoundaryCurves) -> (r: usize)
    ensures
        r == spec_coord_bytes(c),
{
    match c {
        BoundaryCurves::Pallas => 32,
        BoundaryCurves::EdBls12_377 => 32,
        BoundaryCurves::MNT4_298G1 => 38,
        BoundaryCurves::MNT4_298G2 => 76,
    }
}

pub fn affine_bytes(c: BoundaryCurves) -> (r: usize)
    ensures
        r == spec_affine_bytes(c),
{
    match c {
        BoundaryCurves::Pallas => 65,
        BoundaryCurves::EdBls12_377 => 64,
        BoundaryCurves::MNT4_298G1 => 76,
        BoundaryCurves::MNT4_298G2 => 152,
    }
}

pub fn scalar_bytes(c: BoundaryCurves) -> (r: usize)
    ensures
        r == spec_scalar_bytes(c),
{
    match c {
        BoundaryCurves::Pallas => 32,
        BoundaryCurves::EdBls12_377 => 32,
        BoundaryCurves::MNT4_298G1 => 40,
        BoundaryCurves::MNT4_298G2 => 40,
    }
}

pub fn projective_bytes(c: BoundaryCurves) -> (r: usize)
    ensures
        r == spec_projective_bytes(c),
{
    coord_count(model_of(c)) * coord_bytes(c)
}

/// A decode that cannot be carried out.
#[derive(Debug, Clone, Copy, PartialEq, Eq, Structural)]
pub enum CodecError {
    /// Fewer bytes remain than a whole item needs.
    Truncated,
    /// The buffer holds whole items, but not as many as expected.
    WrongCount,
    /// An item to encode is not of its group's fixed width.
    WrongWidth,
}

pub open spec fn bytes_view(v: Seq<Vec<u8>>) -> Seq<Seq<u8>> {
    v.map_values(|b: Vec<u8>| b@)
}

/// Every item is exactly `w` bytes long.
pub open spec fn uniform(s: Seq<Seq<u8>>, w: nat) -> bool {
    forall|i: int| 0 <= i < s.len() ==> #[trigger] s[i].len() == w
}

/// A buffer cut into consecutive pieces of `w` bytes.
pub open spec fn chunks(b: Seq<u8>, w: nat) -> Seq<Seq<u8>> {
    Seq::new(b.len() / w, |k: int| b.subrange(k * w, k * w + w))
}

/// A projective point, as the encodings of its coordinates in model order.
#[derive(Debug, Clone, PartialEq, Eq)]
pub struct GroupProjective {
    pub coords: Vec<Vec<u8>>,
}

/// An affine point, as its group's uncompressed encoding.
#[derive(Debug, Clone, PartialEq, Eq)]
pub struct GroupAffine {
    pub encoding: Vec<u8>,
}

impl View for GroupProjective {
    type V = Seq<Seq<u8>>;

    open spec fn view(&self) -> Seq<Seq<u8>> {
        bytes_view(self.coords@)
    }
}

impl View for GroupAffine {
    type V = Seq<u8>;

    open spec fn view(&self) -> Seq<u8> {
        self.encoding@
    }
}

pub open spec fn points_view(ps: Seq<GroupProjective>) -> Seq<Seq<Seq<u8>>> {
    ps.map_values(|p: GroupProjective| p@)
}

pub open spec fn affines_view(ps: Seq<GroupAffine>) -> Seq<Seq<u8>> {
    ps.map_values(|p: GroupAffine| p@)
}

/// A point of group `c` in the library's form: as many coordinates as its
/// model has, each of the group's element width.
pub open spec fn projective_wf(p: Seq<Seq<u8>>, c: BoundaryCurves) -> bool {
    p.len() == spec_coord_count(spec_model_of(c)) && uniform(p, spec_coord_bytes(c))
}

pub open spec fn encode_projective(p: Seq<Seq<u8>>) -> Seq<u8> {
    p.flatten()
}

pub open spec fn encode_projectives(ps: Seq<Seq<Seq<u8>>>) -> Seq<u8> {
    ps.map_values(|p: Seq<Seq<u8>>| encode_projective(p)).flatten()
}

/// A point read from the encoding of exactly one point.
pub open spec fn decode_projective(b: Seq<u8>, c: BoundaryCurves) -> Seq<Seq<u8>> {
    chunks(b, spec_coord_bytes(c))
}

/// The points of a buffer that holds a whole number of them.
pub open spec fn decode_projectives(b: Seq<u8>, c: BoundaryCurves) -> Seq<Seq<Seq<u8>>> {
    chunks(b, spec_projective_bytes(c)).map_values(|p: Seq<u8>| decode_projective(p, c))
}

impl GroupProjective {
    pub fn new(coords: Vec<Vec<u8>>) -> (r: GroupProjective)
        ensures
            r.coords@ == coords@,
    {
        GroupProjective { coords }
    }

    /// Bytes of the encoding of a point of group `c`.
    pub fn noncanonical_serialized_size(c: BoundaryCurves) -> (r: usize)
        ensures
            r == spec_projective_bytes(c),
    {
        projective_bytes(c)
    }

    /// Appends the coordinates' encodings, in model order, with no check.
    pub fn noncanonical_serialize_uncompressed_unchecked(&self, out: &mut Vec<u8>)
        requires
            old(out)@.len() + self@.flatten().len() <= usize::MAX,
        ensures
            final(out)@ == old(out)@ + encode_projective(self@),
    {
        append_all(out, &self.coords);
    }

    /// Reads one point of group `c` from the front of `bytes`, with no check
    /// that it lies on the curve; fails when fewer bytes remain than a point
    /// needs, and never reads part of a point.
    pub fn noncanonical_deserialize_uncompressed_unchecked(
        bytes: &Vec<u8>,
        c: BoundaryCurves,
    ) -> (r: Result<GroupProjective, CodecError>)
        ensures
            r is Err <==> bytes@.len() < spec_projective_bytes(c),
            r is Err ==> r == Err::<GroupProjective, CodecError>(CodecError::Truncated),
            r matches Ok(p) ==> p@ == decode_projective(
                bytes@.subrange(0, spec_projective_bytes(c) as int),
                c,
            ) && projective_wf(p@, c),
    {
        let size = projective_bytes(c);
        if bytes.len() < size {
            return Err(CodecError::Truncated);
        }
        let front = copy_range(bytes, 0, size);
        let w = coord_bytes(c);
        proof {
            lemma_chunks_uniform(front@, w as nat);
            lemma_div_by_multiple(spec_coord_count(spec_model_of(c)) as int, w as int);
        }
        match chunk_bytes(&front, w) {
            Ok(coords) => Ok(GroupProjective { coords }),
            Err(e) => Err(e),
        }
    }
}

impl GroupAffine {
    pub fn new(encoding: Vec<u8>) -> (r: GroupAffine)
        ensures
            r.encoding@ == encoding@,
    {
        GroupAffine { encoding }
    }

    /// Bytes of the encoding of an affine point of group `c`.
    pub fn noncanonical_serialized_size(c: BoundaryCurves) -> (r: usize)
        ensures
            r == spec_affine_bytes(c),
    {
        affine_bytes(c)
    }

    /// Appends the point's encoding, with no check.
    pub fn noncanonical_serialize_uncompressed_unchecked(&self, out: &mut Vec<u8>)
        requires
            old(out)@.len() + self@.len() <= usize::MAX,
        ensures
            final(out)@ == old(out)@ + self@,
    {
        append_bytes(out, &self.encoding);
    }
}

fn append_bytes(out: &mut Vec<u8>, b: &Vec<u8>)
    requires
        old(out)@.len() + b@.len() <= usize::MAX,
    ensures
        final(out)@ == old(out)@ + b@,
{
    let ghost start = out@;
    let mut i: usize = 0;
    while i < b.len()
        invariant
            0 <= i <= b@.len(),
            out@ == start + b@.subrange(0, i as int),
        decreases b@.len() - i,
    {
        out.push(b[i]);
        i = i + 1;
        assert(out@ =~= start + b@.subrange(0, i as int));
    }
    assert(b@.subrange(0, b@.len() as int) =~= b@);
}

proof fn lemma_flatten_take_push(s: Seq<Seq<u8>>, i: int)
    requires
        0 <= i < s.len(),
    ensures
        s.take(i + 1).flatten() == s.take(i).flatten() + s[i],
{
    assert(s.take(i + 1) =~= s.take(i).push(s[i]));
    s.take(i).lemma_flatten_push(s[i]);
}

/// Appends the items one after the other.
fn append_all(out: &mut Vec<u8>, items: &Vec<Vec<u8>>)
    requires
        old(out)@.len() + bytes_view(items@).flatten().len() <= usize::MAX,
    ensures
        final(out)@ == old(out)@ + bytes_view(items@).flatten(),
{
    let ghost start = out@;
    let ghost s = bytes_view(items@);
    let mut i: usize = 0;
    while i < items.len()
        invariant
            s == bytes_view(items@),
            0 <= i <= items@.len(),
            out@ == start + s.take(i as int).flatten(),
            start.len() + s.flatten().len() <= usize::MAX,
        decreases items@.len() - i,
    {
        proof {
            lemma_flatten_take_push(s, i as int);
            lemma_flatten_take_len_le(s, i as int + 1);
        }
        append_bytes(out, &items[i]);
        i = i + 1;
        assert(out@ =~= start + s.take(i as int).flatten());
    }
    assert(s.take(items@.len() as int) =~= s);
}

proof fn lemma_flatten_take_len_le(s: Seq<Seq<u8>>, i: int)
    requires
        0 <= i <= s.len(),
    ensures
        s.take(i).flatten().len() <= s.flatten().len(),
    decreases s.len() - i,
{
    if i < s.len() {
        lemma_flatten_take_len_le(s, i + 1);
        lemma_flatten_take_push(s, i);
    } else {
        assert(s.take(i) =~= s);
    }
}

/// Copies `len` bytes from `start` on.
fn copy_range(buf: &Vec<u8>, start: usize, len: usize) -> (r: Vec<u8>)
    requires
        start + len <= buf@.len(),
    ensures
        r@ == buf@.subrange(start as int, start + len),
{
    let mut r: Vec<u8> = Vec::new();
    let blen = buf.len();
    let mut i: usize = 0;
    while i < len
        invariant
            blen == buf@.len(),
            start + len <= buf@.len(),
            0 <= i <= len,
            r@ == buf@.subrange(start as int, start + i),
        decreases len - i,
    {
        assert(start + i < buf@.len());
        r.push(buf[start + i]);
        i = i + 1;
        assert(r@ =~= buf@.subrange(start as int, start + i));
    }
    r
}

/// Cuts a buffer into items of `w` bytes; fails when the last one would be
/// short.
fn chunk_bytes(buf: &Vec<u8>, w: usize) -> (r: Result<Vec<Vec<u8>>, CodecError>)
    requires
        w > 0,
    ensures
        r is Err <==> buf@.len() % (w as nat) != 0,
        r is Err ==> r == Err::<Vec<Vec<u8>>, CodecError>(CodecError::Truncated),
        r matches Ok(v) ==> bytes_view(v@) == chunks(buf@, w as nat),
{
    if buf.len() % w != 0 {
        return Err(CodecError::Truncated);
    }
    let n = buf.len() / w;
    proof {
        lemma_fundamental_div_mod(buf@.len() as int, w as int);
        assert(n * w == w * n) by (nonlinear_arith);
    }
    let mut out: Vec<Vec<u8>> = Vec::new();
    let mut k: usize = 0;
    while k < n
        invariant
            w > 0,
            n == buf@.len() / (w as nat),
            n * w == buf@.len(),
            0 <= k <= n,
            buf@.len() <= usize::MAX,
            out@.len() == k,
            forall|j: int| 0 <= j < k ==> #[trigger] out@[j]@ == buf@.subrange(j * w, j * w + w),
        decreases n - k,
    {
        proof {
            assert(k * w + w <= n * w) by (nonlinear_arith)
                requires
                    k < n,
            ;
        }
        let piece = copy_range(buf, k * w, w);
        out.push(piece);
        k = k + 1;
    }
    assert(bytes_view(out@) =~= chunks(buf@, w as nat));
    Ok(out)
}

/// The items of a buffer of `n * w` bytes, cut every `w` bytes, are all `w`
/// bytes long and `n` in number.
proof fn lemma_chunks_uniform(b: Seq<u8>, w: nat)
    requires
        w > 0,
    ensures
        uniform(chunks(b, w), w),
        b.len() % w == 0 ==> chunks(b, w).len() * w == b.len(),
{
    lemma_fundamental_div_mod(b.len() as int, w as int);
    let q = b.len() / w;
    assert(q * w <= b.len()) by (nonlinear_arith)
        requires
            b.len() == w * q + b.len() % w,
            b.len() % w >= 0,
    ;
    assert(b.len() % w == 0 ==> q * w == b.len()) by (nonlinear_arith)
        requires
            b.len() == w * q + b.len() % w,
    ;
    assert forall|k: int| 0 <= k < chunks(b, w).len() implies #[trigger] chunks(
        b,
        w,
    )[k].len() == w by {
        assert(k * w + w <= q * w) by (nonlinear_arith)
            requires
                k < q,
        ;
    }
}

/// Items of one width, put end to end, lie at multiples of that width.
proof fn lemma_flatten_uniform(s: Seq<Seq<u8>>, w: nat)
    requires
        uniform(s, w),
    ensures
        s.flatten().len() == s.len() * w,
        forall|k: int|
            0 <= k < s.len() ==> s.flatten().subrange(k * w, k * w + w) == #[trigger] s[k],
    decreases s.len(),
{
    if s.len() > 0 {
        let rest = s.drop_first();
        assert(s[0].len() == w);
        lemma_flatten_uniform(rest, w);
        assert(s.flatten() == s[0] + rest.flatten());
        assert(s.len() * w == w + rest.len() * w) by (nonlinear_arith)
            requires
                s.len() == rest.len() + 1,
        ;
        assert(s.flatten().len() == s.len() * w);
        assert forall|k: int| 0 <= k < s.len() implies s.flatten().subrange(k * w, k * w + w)
            == #[trigger] s[k] by {
            if k == 0 {
                assert(s.flatten().subrange(0, w as int) =~= s[0]);
            } else {
                assert(k * w == w + (k - 1) * w) by (nonlinear_arith);
                assert((k - 1) * w + w <= rest.len() * w) by (nonlinear_arith)
                    requires
                        k - 1 < rest.len(),
                ;
                assert(s[k] == rest[k - 1]);
                assert(s.flatten().subrange(k * w, k * w + w) =~= rest.flatten().subrange(
                    (k - 1) * w,
                    (k - 1) * w + w,
                ));
            }
        }
    } else {
        assert(s.flatten().len() == 0);
        assert(s.len() * w == 0);
    }
}

/// Cutting items of one width, put end to end, gives them back.
pub proof fn lemma_chunks_flatten(s: Seq<Seq<u8>>, w: nat)
    requires
        w > 0,
        uniform(s, w),
    ensures
        s.flatten().len() == s.len() * w,
        chunks(s.flatten(), w) == s,
{
    lemma_flatten_uniform(s, w);
    lemma_div_by_multiple(s.len() as int, w as int);
    assert(chunks(s.flatten(), w) =~= s);
}

/// Puts items of width `w` end to end; fails when one has another width.
fn serialize_uniform(items: &Vec<Vec<u8>>, w: usize) -> (r: Result<Vec<u8>, CodecError>)
    requires
        items@.len() * w <= usize::MAX,
    ensures
        r is Ok <==> uniform(bytes_view(items@), w as nat),
        r is Err ==> r == Err::<Vec<u8>, CodecError>(CodecError::WrongWidth),
        r matches Ok(b) ==> b@ == bytes_view(items@).flatten(),
{
    let mut i: usize = 0;
    while i < items.len()
        invariant
            0 <= i <= items@.len(),
            forall|j: int| 0 <= j < i ==> #[trigger] items@[j]@.len() == w,
        decreases items@.len() - i,
    {
        if items[i].len() != w {
            assert(bytes_view(items@)[i as int].len() != w);
            return Err(CodecError::WrongWidth);
        }
        i = i + 1;
    }
    let ghost s = bytes_view(items@);
    proof {
        lemma_flatten_uniform(s, w as nat);
    }
    let mut out: Vec<u8> = Vec::new();
    append_all(&mut out, items);
    assert(out@ =~= s.flatten());
    Ok(out)
}

/// Puts the points of group `c` end to end; fails when one of them does not
/// have the group's shape.
pub fn serialize_projectives(points: &Vec<GroupProjective>, c: BoundaryCurves) -> (r: Result<
    Vec<u8>,
    CodecError,
>)
    requires
        points@.len() * spec_projective_bytes(c) <= usize::MAX,
    ensures
        r is Ok <==> forall|i: int|
            0 <= i < points@.len() ==> projective_wf(#[trigger] points@[i]@, c),
        r is Err ==> r == Err::<Vec<u8>, CodecError>(CodecError::WrongWidth),
        r matches Ok(b) ==> b@ == encode_projectives(points_view(points@)),
{
    let count = coord_count(model_of(c));
    let w = coord_bytes(c);
    let ghost ps = points_view(points@);
    let ghost size = spec_projective_bytes(c);
    let mut out: Vec<u8> = Vec::new();
    let mut i: usize = 0;
    while i < points.len()
        invariant
            ps == points_view(points@),
            size == count * w,
            size == spec_projective_bytes(c),
            count == spec_coord_count(spec_model_of(c)),
            w == spec_coord_bytes(c),
            points@.len() * size <= usize::MAX,
            0 <= i <= points@.len(),
            forall|j: int| 0 <= j < i ==> projective_wf(#[trigger] points@[j]@, c),
            out@ == encode_projectives(ps.take(i as int)),
            out@.len() == i * size,
        decreases points@.len() - i,
    {
        let p = &points[i];
        if p.coords.len() != count {
            assert(!projective_wf(points@[i as int]@, c));
            return Err(CodecError::WrongWidth);
        }
        let mut j: usize = 0;
        while j < count
            invariant
                0 <= i < points@.len(),
                *p == points@[i as int],
                w == spec_coord_bytes(c),
                count == spec_coord_count(spec_model_of(c)),
                count == p.coords@.len(),
                0 <= j <= count,
                forall|k: int| 0 <= k < j ==> #[trigger] p.coords@[k]@.len() == w,
            decreases count - j,
        {
            if p.coords[j].len() != w {
                assert(p@[j as int].len() != w);
                assert(!projective_wf(points@[i as int]@, c));
                return Err(CodecError::WrongWidth);
            }
            j = j + 1;
        }
        proof {
            assert(projective_wf(p@, c));
            lemma_flatten_uniform(p@, w as nat);
            let mapped = ps.map_values(|q: Seq<Seq<u8>>| encode_projective(q));
            assert(ps.take(i as int).map_values(|q: Seq<Seq<u8>>| encode_projective(q))
                =~= mapped.take(i as int));
            assert(ps.take(i as int + 1).map_values(|q: Seq<Seq<u8>>| encode_projective(q))
                =~= mapped.take(i as int + 1));
            lemma_flatten_take_push(mapped, i as int);
            assert(i * size + size <= points@.len() * size) by (nonlinear_arith)
                requires
                    i < points@.len(),
            ;
        }
        p.noncanonical_serialize_uncompressed_unchecked(&mut out);
        proof {
            assert((i + 1) * size == i * size + size) by (nonlinear_arith);
        }
        i = i + 1;
    }
    assert(ps.take(points@.len() as int) =~= ps);
    Ok(out)
}

/// Reads every point of group `c` from a buffer; fails when the last one
/// would be short.
pub fn deserialize_projectives(bytes: &Vec<u8>, c: BoundaryCurves) -> (r: Result<
    Vec<GroupProjective>,
    CodecError,
>)
    ensures
        r is Err <==> bytes@.len() % spec_projective_bytes(c) != 0,
        r is Err ==> r == Err::<Vec<GroupProjective>, CodecError>(CodecError::Truncated),
        r matches Ok(ps) ==> points_view(ps@) == decode_projectives(bytes@, c) && forall|i: int|
            0 <= i < ps@.len() ==> projective_wf(#[trigger] ps@[i]@, c),
{
    let size = projective_bytes(c);
    let w = coord_bytes(c);
    let pieces = match chunk_bytes(bytes, size) {
        Ok(pieces) => pieces,
        Err(e) => {
            return Err(e);
        },
    };
    let ghost target = decode_projectives(bytes@, c);
    proof {
        lemma_chunks_uniform(bytes@, size as nat);
    }
    let mut out: Vec<GroupProjective> = Vec::new();
    let mut i: usize = 0;
    while i < pieces.len()
        invariant
            size == spec_projective_bytes(c),
            w == spec_coord_bytes(c),
            bytes_view(pieces@) == chunks(bytes@, size as nat),
            uniform(chunks(bytes@, size as nat), size as nat),
            target == decode_projectives(bytes@, c),
            0 <= i <= pieces@.len(),
            out@.len() == i,
            forall|j: int| 0 <= j < i ==> #[trigger] out@[j]@ == target[j],
            forall|j: int| 0 <= j < i ==> projective_wf(#[trigger] out@[j]@, c),
        decreases pieces@.len() - i,
    {
        proof {
            assert(pieces@[i as int]@ == chunks(bytes@, size as nat)[i as int]);
            assert(pieces@[i as int]@.len() == size);
            lemma_fundamental_div_mod(size as int, w as int);
            lemma_div_by_multiple(spec_coord_count(spec_model_of(c)) as int, w as int);
            lemma_chunks_uniform(pieces@[i as int]@, w as nat);
        }
        match chunk_bytes(&pieces[i], w) {
            Ok(coords) => {
                out.push(GroupProjective { coords });
            },
            Err(e) => {
                return Err(e);
            },
        }
        i = i + 1;
    }
    assert(points_view(out@) =~= target);
    Ok(out)
}

/// Puts the affine points of group `c` end to end; fails when one is not of
/// the group's width.
pub fn serialize_affines(points: &Vec<GroupAffine>, c: BoundaryCurves) -> (r: Result<
    Vec<u8>,
    CodecError,
>)
    requires
        points@.len() * spec_affine_bytes(c) <= usize::MAX,
    ensures
        r is Ok <==> uniform(affines_view(points@), spec_affine_bytes(c)),
        r is Err ==> r == Err::<Vec<u8>, CodecError>(CodecError::WrongWidth),
        r matches Ok(b) ==> b@ == affines_view(points@).flatten(),
{
    let w = affine_bytes(c);
    let mut items: Vec<Vec<u8>> = Vec::new();
    let mut i: usize = 0;
    while i < points.len()
        invariant
            0 <= i <= points@.len(),
            items@.len() == i,
            forall|j: int| 0 <= j < i ==> #[trigger] items@[j]@ == points@[j]@,
        decreases points@.len() - i,
    {
        items.push(points[i].encoding.clone());
        i = i + 1;
    }
    assert(bytes_view(items@) =~= affines_view(points@));
    serialize_uniform(&items, w)
}

/// Reads every affine point of group `c` from a buffer; fails when the last
/// one would be short.
pub fn deserialize_affines(bytes: &Vec<u8>, c: BoundaryCurves) -> (r: Result<
    Vec<GroupAffine>,
    CodecError,
>)
    ensures
        r is Err <==> bytes@.len() % spec_affine_bytes(c) != 0,
        r is Err ==> r == Err::<Vec<GroupAffine>, CodecError>(CodecError::Truncated),
        r matches Ok(ps) ==> affines_view(ps@) == chunks(bytes@, spec_affine_bytes(c)),
{
    let pieces = match chunk_bytes(bytes, affine_bytes(c)) {
        Ok(pieces) => pieces,
        Err(e) => {
            return Err(e);
        },
    };
    let mut out: Vec<GroupAffine> = Vec::new();
    let mut i: usize = 0;
    while i < pieces.len()
        invariant
            0 <= i <= pieces@.len(),
            out@.len() == i,
            forall|j: int| 0 <= j < i ==> #[trigger] out@[j]@ == pieces@[j]@,
        decreases pieces@.len() - i,
    {
        out.push(GroupAffine { encoding: pieces[i].clone() });
        i = i + 1;
    }
    assert(affines_view(out@) =~= bytes_view(pieces@));
    Ok(out)
}

/// Puts the scalars of group `c` end to end; fails when one is not of the
/// group's width.
pub fn serialize_scalars(scalars: &Vec<Vec<u8>>, c: BoundaryCurves) -> (r: Result<
    Vec<u8>,
    CodecError,
>)
    requires
        scalars@.len() * spec_scalar_bytes(c) <= usize::MAX,
    ensures
        r is Ok <==> uniform(bytes_view(scalars@), spec_scalar_bytes(c)),
        r is Err ==> r == Err::<Vec<u8>, CodecError>(CodecError::WrongWidth),
        r matches Ok(b) ==> b@ == bytes_view(scalars@).flatten(),
{
    serialize_uniform(scalars, scalar_bytes(c))
}

/// Reads every scalar of group `c` from a buffer; fails when the last one
/// would be short.
pub fn deserialize_scalars(bytes: &Vec<u8>, c: BoundaryCurves) -> (r: Result<
    Vec<Vec<u8>>,
    CodecError,
>)
    ensures
        r is Err <==> bytes@.len() % spec_scalar_bytes(c) != 0,
        r is Err ==> r == Err::<Vec<Vec<u8>>, CodecError>(CodecError::Truncated),
        r matches Ok(s) ==> bytes_view(s@) == chunks(bytes@, spec_scalar_bytes(c)),
{
    chunk_bytes(bytes, scalar_bytes(c))
}

/// A point of any group, encoded and read back, is the same point; so is a
/// sequence of points, affine points, or scalars, each item of its group's
/// width, and the identity among them like any other.
pub proof fn lemma_round_trip(
    p: Seq<Seq<u8>>,
    ps: Seq<Seq<Seq<u8>>>,
    affines: Seq<Seq<u8>>,
    scalars: Seq<Seq<u8>>,
    c: BoundaryCurves,
)
    ensures
        projective_wf(p, c) ==> encode_projective(p).len() == spec_projective_bytes(c)
            && decode_projective(encode_projective(p), c) == p,
        (forall|i: int| 0 <= i < ps.len() ==> projective_wf(#[trigger] ps[i], c)) ==> (
        encode_projectives(ps).len() == ps.len() * spec_projective_bytes(c) && decode_projectives(
            encode_projectives(ps),
            c,
        ) == ps),
        uniform(affines, spec_affine_bytes(c)) ==> chunks(affines.flatten(), spec_affine_bytes(c))
            == affines,
        uniform(scalars, spec_scalar_bytes(c)) ==> chunks(scalars.flatten(), spec_scalar_bytes(c))
            == scalars,
{
    let w = spec_coord_bytes(c);
    let size = spec_projective_bytes(c);
    if projective_wf(p, c) {
        lemma_chunks_flatten(p, w);
    }
    if forall|i: int| 0 <= i < ps.len() ==> projective_wf(#[trigger] ps[i], c) {
        let mapped = ps.map_values(|q: Seq<Seq<u8>>| encode_projective(q));
        assert forall|i: int| 0 <= i < mapped.len() implies #[trigger] mapped[i].len() == size by {
            assert(projective_wf(ps[i], c));
            lemma_flatten_uniform(ps[i], w);
        }
        lemma_chunks_flatten(mapped, size);
        assert forall|i: int| 0 <= i < ps.len() implies decode_projective(
            #[trigger] mapped[i],
            c,
        ) == ps[i] by {
            assert(projective_wf(ps[i], c));
            lemma_chunks_flatten(ps[i], w);
        }
        assert(decode_projectives(encode_projectives(ps), c) =~= ps);
    }
    if uniform(affines, spec_affine_bytes(c)) {
        lemma_chunks_flatten(affines, spec_affine_bytes(c));
    }
    if uniform(scalars, spec_scalar_bytes(c)) {
        lemma_chunks_flatten(scalars, spec_scalar_bytes(c));
    }
}

} // verus!
