use vstd::prelude::*;
use crate::points::GroupElem;
use crate::scalar::{scalar_from_wide, Scalar};

verus! {

#[verifier::external_type_specification]
#[verifier::external_body]
pub struct ExTranscript(merlin::Transcript);

/// Relies on `merlin::Transcript::new`: a fresh transcript bound to the given
/// domain-separation label.
#[verifier::external_body]
pub fn transcript_new(label: &'static str) -> (t: merlin::Transcript) {
    merlin::Transcript::new(label.as_bytes())
}

/// Relies on `merlin::Transcript::append_message`: absorbs the labelled
/// message into the transcript state.
#[verifier::external_body]
pub(crate) fn transcript_append(t: &mut merlin::Transcript, label: &'static str, message: &Vec<u8>) {
    t.append_message(label.as_bytes(), message.as_slice());
}

/// Relies on `merlin::Transcript::challenge_bytes`: fills the requested 64
/// bytes deterministically from the transcript state. The state is opaque
/// here, so only the length is stated.
#[verifier::external_body]
pub(crate) fn transcript_challenge_64(t: &mut merlin::Transcript, label: &'static str) -> (r: Vec<u8>)
    ensures
        r@.len() == 64,
{
    let mut buf = [0u8; 64];
    t.challenge_bytes(label.as_bytes(), &mut buf);
    buf.to_vec()
}

/// Absorbs a labelled scalar, as its canonical 32-byte encoding.
pub(crate) fn append_scalar(t: &mut merlin::Transcript, label: &'static str, s: &Scalar)
    requires
        s.wf(),
{
    transcript_append(t, label, &s.bytes);
}

/// Absorbs a labelled group element, as its canonical 32-byte encoding.
pub(crate) fn append_point(t: &mut merlin::Transcript, label: &'static str, p: &GroupElem)
    requires
        p.wf(),
{
    transcript_append(t, label, &p.bytes);
}

/// Absorbs a labelled 64-bit integer, as 8 little-endian bytes.
pub(crate) fn append_u64(t: &mut merlin::Transcript, label: &'static str, x: u64) {
    let mut v: Vec<u8> = Vec::new();
    let mut k: usize = 0;
    while k < 8
        invariant
            0 <= k <= 8,
        decreases 8 - k,
    {
        v.push(((x >> (8 * k as u64)) & 0xff) as u8);
        k = k + 1;
    }
    transcript_append(t, label, &v);
}

/// Draws a labelled challenge scalar: 64 transcript bytes reduced modulo the
/// group order.
pub(crate) fn challenge_scalar(t: &mut merlin::Transcript, label: &'static str) -> (r: Scalar)
    ensures
        r.wf(),
{
    let b = transcript_challenge_64(t, label);
    scalar_from_wide(&b)
}

} // verus!
