use vstd::prelude::*;
use crate::scalar::Scalar;
use curve25519_dalek::traits::VartimeMultiscalarMul;

verus! {

/// Names the outcome of `CompressedRistretto::decompress`: whether 32 bytes
/// are a valid canonical encoding of a group element.
pub uninterp spec fn point_ok(b: Seq<u8>) -> bool;

/// Names the result of `RistrettoPoint::vartime_multiscalar_mul` over
/// decompressed points, compressed again: the encoding of
/// `sum_i scalars[i] * points[i]`.
pub uninterp spec fn msm_of(scalars: Seq<nat>, points: Seq<Seq<u8>>) -> Seq<u8>;

/// Names the result of `RistrettoPoint::from_uniform_bytes`, compressed: the
/// encoding of the point derived from 64 uniform bytes.
pub uninterp spec fn point_from_uniform(b: Seq<u8>) -> Seq<u8>;

/// The canonical encoding of the group's identity element: 32 zero bytes.
pub open spec fn identity_enc() -> Seq<u8> {
    Seq::new(32nat, |i: int| 0u8)
}

/// A group element, held as its canonical 32-byte encoding.
#[derive(PartialEq, Eq)]
pub struct GroupElem {
    pub bytes: Vec<u8>,
}

impl GroupElem {
    /// The encoding is 32 bytes and decompresses successfully.
    pub open spec fn wf(&self) -> bool {
        self.bytes@.len() == 32 && point_ok(self.bytes@)
    }

    /// An independent copy of this group element.
    pub fn dup(&self) -> (r: GroupElem)
        ensures
            r.bytes@ == self.bytes@,
    {
        let r = GroupElem { bytes: self.bytes.clone() };
        proof {
            assert(r.bytes@ =~= self.bytes@);
        }
        r
    }
}

/// The field values denoted by a sequence of scalars.
pub open spec fn scalar_vals(s: Seq<Scalar>) -> Seq<nat> {
    s.map_values(|x: Scalar| x.v())
}

/// The encodings of a sequence of group elements.
pub open spec fn point_encs(p: Seq<GroupElem>) -> Seq<Seq<u8>> {
    p.map_values(|x: GroupElem| x.bytes@)
}

/// All scalars in a vector are well-formed.
pub open spec fn scalars_wf(s: Seq<Scalar>) -> bool {
    forall|i: int| 0 <= i < s.len() ==> s[i].wf()
}

/// All group elements in a vector are well-formed.
pub open spec fn points_wf(p: Seq<GroupElem>) -> bool {
    forall|i: int| 0 <= i < p.len() ==> p[i].wf()
}

/// Relies on `RistrettoPoint::vartime_multiscalar_mul` of curve25519-dalek,
/// together with compress/decompress round-tripping: the result is a function
/// of the scalar values and point encodings alone, and compressing always
/// yields a valid canonical encoding.
#[verifier::external_body]
pub(crate) fn msm(scalars: &Vec<Scalar>, points: &Vec<GroupElem>) -> (r: GroupElem)
    requires
        scalars@.len() == points@.len(),
        scalars_wf(scalars@),
        points_wf(points@),
    ensures
        r.wf(),
        r.bytes@ == msm_of(scalar_vals(scalars@), point_encs(points@)),
{
    let ss: Vec<curve25519_dalek::scalar::Scalar> = scalars
        .iter()
        .map(|s| curve25519_dalek::scalar::Scalar::from_bytes_mod_order(s.bytes.as_slice().try_into().unwrap()))
        .collect();
    let ps: Vec<curve25519_dalek::ristretto::RistrettoPoint> = points
        .iter()
        .map(|p| curve25519_dalek::ristretto::CompressedRistretto(p.bytes.as_slice().try_into().unwrap()).decompress().unwrap())
        .collect();
    let r = curve25519_dalek::ristretto::RistrettoPoint::vartime_multiscalar_mul(ss.iter(), ps.iter());
    GroupElem { bytes: r.compress().to_bytes().to_vec() }
}

/// Relies on `CompressedRistretto::decompress`: reports whether the 32 bytes
/// are a valid canonical encoding.
#[verifier::external_body]
pub(crate) fn point_check(b: &Vec<u8>) -> (r: bool)
    requires
        b@.len() == 32,
    ensures
        r == point_ok(b@),
{
    let arr: [u8; 32] = b.as_slice().try_into().unwrap();
    curve25519_dalek::ristretto::CompressedRistretto(arr).decompress().is_some()
}

/// Relies on `RistrettoPoint::from_uniform_bytes` of curve25519-dalek: a
/// deterministic function of the 64 input bytes, compressed to a valid
/// canonical encoding.
#[verifier::external_body]
pub(crate) fn point_from_uniform_bytes(b: &Vec<u8>) -> (r: GroupElem)
    requires
        b@.len() == 64,
    ensures
        r.wf(),
        r.bytes@ == point_from_uniform(b@),
{
    let arr: [u8; 64] = b.as_slice().try_into().unwrap();
    let p = curve25519_dalek::ristretto::RistrettoPoint::from_uniform_bytes(&arr);
    GroupElem { bytes: p.compress().to_bytes().to_vec() }
}

/// Builds a group element from checked bytes: succeeds exactly on valid
/// 32-byte encodings.
pub(crate) fn elem_from_bytes(b: Vec<u8>) -> (r: Option<GroupElem>)
    ensures
        r is Some <==> (b@.len() == 32 && point_ok(b@)),
        r matches Some(e) ==> e.wf() && e.bytes@ == b@,
{
    if b.len() != 32 {
        return None;
    }
    if point_check(&b) {
        Some(GroupElem { bytes: b })
    } else {
        None
    }
}

/// Whether this element is the identity, decided on the canonical encoding.
pub(crate) fn is_identity(p: &GroupElem) -> (r: bool)
    requires
        p.wf(),
    ensures
        r == (p.bytes@ == identity_enc()),
{
    let mut i: usize = 0;
    let mut zero: bool = true;
    while i < 32
        invariant
            0 <= i <= 32,
            p.wf(),
            zero <==> (forall|j: int| 0 <= j < i ==> p.bytes@[j] == 0u8),
        decreases 32 - i,
    {
        if p.bytes[i] != 0 {
            zero = false;
        }
        i = i + 1;
    }
    proof {
        if zero {
            assert(p.bytes@ =~= identity_enc());
        } else {
            assert(p.bytes@ != identity_enc()) by {
                if p.bytes@ == identity_enc() {
                    assert(forall|j: int| 0 <= j < 32 ==> p.bytes@[j] == 0u8);
                }
            }
        }
    }
    zero
}

} // verus!
