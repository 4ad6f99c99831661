//! Zero-knowledge range proofs with logarithmic size, built from Pedersen
//! commitments, a Fiat-Shamir transcript, and a recursive inner-product
//! argument, together with a dealer/party protocol that lets several provers
//! aggregate their proofs into one. The group and hash primitives come from
//! outside crates behind narrow trusted contracts; everything above them is
//! verified.

use vstd::prelude::*;

pub mod aggregation;
pub mod dealer;
pub mod errors;
pub mod range_proof;
pub mod inner_product_proof;
pub mod messages;
pub mod party;
pub mod generators;
pub mod points;
pub mod util;
pub mod scalar;
pub mod transcript;

use crate::generators::{BulletproofGens, PedersenGens};
use crate::range_proof::RangeProof;
use crate::scalar::Scalar;
use crate::transcript::transcript_new;

verus! {

/// Proves that `value` fits in `n` bits and returns the proof in its
/// canonical serialized form, under the fixed proving label: the result is
/// the canonical serialization of some well-formed proof with exactly
/// `log2(n)` halving rounds, so it decodes successfully and has the byte
/// length the bit width dictates.
pub fn singleparty_create_proof_helper(n: usize, value: u64) -> (r: Vec<u8>)
    requires
        (n == 8 || n == 16 || n == 32 || n == 64),
        (value as nat) < vstd::arithmetic::power2::pow2(n as nat),
    ensures
        r@.len() == 32 * (9 + 2 * crate::util::log2(n as nat)),
        exists|p: RangeProof|
            p.wf() && p.ipp_proof.l_vec@.len() == crate::util::log2(n as nat) && r@
                == p.spec_bytes(),
{
    let pc_gens = PedersenGens::default();
    let bp_gens = BulletproofGens::new(64, 1);
    let mut transcript = transcript_new("test");
    let mut values: Vec<u64> = Vec::new();
    values.push(value);
    let mut blindings: Vec<Scalar> = Vec::new();
    blindings.push(Scalar::random());
    let prf = match RangeProof::prove_multiple(
        &bp_gens,
        &pc_gens,
        &mut transcript,
        &values,
        &blindings,
        n,
    ) {
        Ok(p) => p,
        Err(_) => {
            proof {
                assert(false);
            }
            return Vec::new();
        },
    };
    proof {
        assert(n * values@.len() == n);
    }
    let out = prf.to_bytes();
    proof {
        assert(prf.wf() && prf.ipp_proof.l_vec@.len() == crate::util::log2(n as nat) && out@
            == prf.spec_bytes());
    }
    out
}

/// Proves that `value` fits in `n` bits, serializes and deserializes the
/// proof, and verifies it against the value commitment under the same label;
/// reports whether every step succeeded. A true result can only come from a
/// well-formed decoded proof of `log2(n)` rounds whose combined verification
/// equation held for the challenges the transcript produced.
pub fn singleparty_create_and_verify_helper(n: usize, value: u64) -> (r: bool)
    requires
        (n == 8 || n == 16 || n == 32 || n == 64),
        (value as nat) < vstd::arithmetic::power2::pow2(n as nat),
    ensures
        r ==> exists|p: RangeProof, commitments: Seq<Seq<u8>>, cap: int, yv: nat, zv: nat, xv: nat, wv: nat, cv: nat, yiv: nat, usq: Seq<nat>, uisq: Seq<nat>, sv: Seq<nat>|
            p.wf() && p.ipp_proof.l_vec@.len() == crate::util::log2(n as nat)
                && commitments.len() == 1 && crate::range_proof::spec_verification_eq(
                p,
                commitments,
                cap,
                n as int,
                1,
                yv,
                zv,
                xv,
                wv,
                cv,
                yiv,
                usq,
                uisq,
                sv,
            ),
{
    let pc_gens = PedersenGens::default();
    let bp_gens = BulletproofGens::new(64, 8);
    let mut transcript = transcript_new("AggregatedRangeProofTest");
    let mut values: Vec<u64> = Vec::new();
    values.push(value);
    let blinding = Scalar::random();
    let mut blindings: Vec<Scalar> = Vec::new();
    blindings.push(blinding.dup());
    let prf = match RangeProof::prove_multiple(
        &bp_gens,
        &pc_gens,
        &mut transcript,
        &values,
        &blindings,
        n,
    ) {
        Ok(p) => p,
        Err(_) => {
            proof {
                assert(false);
            }
            return false;
        },
    };
    let proof_bytes = prf.to_bytes();

    let decoded = match RangeProof::from_bytes(&proof_bytes) {
        Ok(p) => p,
        Err(_) => {
            proof {
                prf.lemma_encode_parses();
                assert(false);
            }
            return false;
        },
    };
    let value_scalar = Scalar::from_u64(value);
    let commitment = pc_gens.commit(&value_scalar, &blinding);
    let mut value_commitments: Vec<crate::points::GroupElem> = Vec::new();
    value_commitments.push(commitment);
    let mut verify_transcript = transcript_new("AggregatedRangeProofTest");
    let outcome = decoded.verify_multiple(
        &bp_gens,
        &pc_gens,
        &mut verify_transcript,
        &value_commitments,
        n,
    );
    let ok = outcome.is_ok();
    proof {
        if ok {
            assert(n * value_commitments@.len() == n);
            let (yv, zv, xv, wv, cv, yiv, usq, uisq, sv) = choose|yv: nat, zv: nat, xv: nat, wv: nat, cv: nat, yiv: nat, usq: Seq<nat>, uisq: Seq<nat>, sv: Seq<nat>|
                crate::range_proof::spec_verification_eq(
                    decoded,
                    crate::points::point_encs(value_commitments@),
                    bp_gens.gens_capacity as int,
                    n as int,
                    value_commitments@.len() as int,
                    yv,
                    zv,
                    xv,
                    wv,
                    cv,
                    yiv,
                    usq,
                    uisq,
                    sv,
                );
            assert(crate::range_proof::spec_verification_eq(
                decoded,
                crate::points::point_encs(value_commitments@),
                bp_gens.gens_capacity as int,
                n as int,
                1,
                yv,
                zv,
                xv,
                wv,
                cv,
                yiv,
                usq,
                uisq,
                sv,
            ));
        }
    }
    ok
}

} // verus!
