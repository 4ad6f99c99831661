use rangeproofs::dealer::Dealer;
use rangeproofs::errors::{MPCError, ProofError};
use rangeproofs::party::Party;
use rangeproofs::generators::{BulletproofGens, PedersenGens};
use rangeproofs::points::GroupElem;
use rangeproofs::range_proof::RangeProof;
use rangeproofs::scalar::Scalar;
use rangeproofs::transcript::transcript_new;
use rangeproofs::{singleparty_create_and_verify_helper, singleparty_create_proof_helper};

fn prove_single(
    bp_gens: &BulletproofGens,
    pc_gens: &PedersenGens,
    label: &'static str,
    value: u64,
    blinding: &Scalar,
    n: usize,
) -> RangeProof {
    let mut transcript = transcript_new(label);
    let values = vec![value];
    let mut blindings = Vec::new();
    blindings.push(blinding.dup());
    RangeProof::prove_multiple(bp_gens, pc_gens, &mut transcript, &values, &blindings, n).unwrap()
}

fn verify_single(
    proof: &RangeProof,
    bp_gens: &BulletproofGens,
    pc_gens: &PedersenGens,
    label: &'static str,
    value: u64,
    blinding: &Scalar,
    n: usize,
) -> Result<(), ProofError> {
    let mut transcript = transcript_new(label);
    let commitment = pc_gens.commit(&Scalar::from_u64(value), blinding);
    let mut commitments = Vec::new();
    commitments.push(commitment);
    proof.verify_multiple(bp_gens, pc_gens, &mut transcript, &commitments, n)
}

#[test]
fn prove_then_verify_all_bitsizes() {
    let pc_gens = PedersenGens::default();
    let bp_gens = BulletproofGens::new(64, 1);
    for &n in &[8usize, 16, 32, 64] {
        let value = (n as u64) * 3 + 1;
        let blinding = Scalar::random();
        let proof = prove_single(&bp_gens, &pc_gens, "test", value, &blinding, n);
        assert!(verify_single(&proof, &bp_gens, &pc_gens, "test", value, &blinding, n).is_ok());
    }
}

#[test]
fn prove_then_verify_edge_values() {
    let pc_gens = PedersenGens::default();
    let bp_gens = BulletproofGens::new(64, 1);
    for &n in &[8usize, 16, 32] {
        for &value in &[0u64, 1, (1u64 << n) - 1] {
            let blinding = Scalar::random();
            let proof = prove_single(&bp_gens, &pc_gens, "test", value, &blinding, n);
            assert!(
                verify_single(&proof, &bp_gens, &pc_gens, "test", value, &blinding, n).is_ok()
            );
        }
    }
    let blinding = Scalar::random();
    let proof = prove_single(&bp_gens, &pc_gens, "test", u64::MAX, &blinding, 64);
    assert!(verify_single(&proof, &bp_gens, &pc_gens, "test", u64::MAX, &blinding, 64).is_ok());
}

#[test]
fn helper_round_trips() {
    assert!(singleparty_create_and_verify_helper(32, 42));
    assert!(singleparty_create_and_verify_helper(8, 255));
}

#[test]
fn proving_fails_for_out_of_range_value() {
    let pc_gens = PedersenGens::default();
    let bp_gens = BulletproofGens::new(64, 1);
    for &(n, value) in &[(8usize, 256u64), (8, 300), (16, 65536), (32, 1u64 << 32)] {
        let mut transcript = transcript_new("test");
        let values = vec![value];
        let mut blindings = Vec::new();
        blindings.push(Scalar::random());
        let r = RangeProof::prove_multiple(
            &bp_gens,
            &pc_gens,
            &mut transcript,
            &values,
            &blindings,
            n,
        );
        assert!(matches!(r, Err(ProofError::ValueOutOfRange)));
    }
}

#[test]
fn round_trip() {
    let pc_gens = PedersenGens::default();
    let bp_gens = BulletproofGens::new(64, 1);
    let blinding = Scalar::random();
    let proof = prove_single(&bp_gens, &pc_gens, "test", 42, &blinding, 32);
    let bytes = proof.to_bytes();
    assert_eq!(bytes.len(), 32 * (9 + 2 * 5));
    let decoded = RangeProof::from_bytes(&bytes).unwrap();
    assert!(decoded == proof);
    assert_eq!(decoded.to_bytes(), bytes);
}

#[test]
fn decode_rejects_malformed_input() {
    assert!(matches!(
        RangeProof::from_bytes(&Vec::new()),
        Err(ProofError::FormatError)
    ));
    let short = vec![0u8; 100];
    assert!(matches!(
        RangeProof::from_bytes(&short),
        Err(ProofError::FormatError)
    ));
    let ragged = vec![0u8; 289];
    assert!(matches!(
        RangeProof::from_bytes(&ragged),
        Err(ProofError::FormatError)
    ));
    let pc_gens = PedersenGens::default();
    let bp_gens = BulletproofGens::new(64, 1);
    let blinding = Scalar::random();
    let proof = prove_single(&bp_gens, &pc_gens, "test", 7, &blinding, 8);
    let mut bytes = proof.to_bytes();
    bytes.truncate(bytes.len() - 1);
    assert!(RangeProof::from_bytes(&bytes).is_err());
}

#[test]
fn tamper_t_x_detected() {
    let pc_gens = PedersenGens::default();
    let bp_gens = BulletproofGens::new(64, 1);
    let blinding = Scalar::random();
    let proof = prove_single(&bp_gens, &pc_gens, "test", 42, &blinding, 32);
    let bytes = proof.to_bytes();
    // The t_x scalar occupies bytes 128..160 of the canonical layout.
    for i in 128..160 {
        let mut tampered = bytes.clone();
        tampered[i] ^= 1;
        let accepted = match RangeProof::from_bytes(&tampered) {
            Err(_) => false,
            Ok(p) => verify_single(&p, &bp_gens, &pc_gens, "test", 42, &blinding, 32).is_ok(),
        };
        assert!(!accepted, "tampered byte {} was accepted", i);
    }
}

#[test]
fn wrong_domain_label_fails() {
    let pc_gens = PedersenGens::default();
    let bp_gens = BulletproofGens::new(64, 1);
    let blinding = Scalar::random();
    let proof = prove_single(&bp_gens, &pc_gens, "test", 42, &blinding, 32);
    let r = verify_single(&proof, &bp_gens, &pc_gens, "another domain", 42, &blinding, 32);
    assert!(matches!(r, Err(ProofError::VerificationError)));
}

fn run_aggregation(
    bp_gens: &BulletproofGens,
    pc_gens: &PedersenGens,
    values: &[u64],
    blindings: &[Scalar],
    n: usize,
    tamper_round2: Option<usize>,
) -> Result<RangeProof, MPCError> {
    let m = values.len();
    let mut dealer_transcript = transcript_new("AggregatedRangeProofTest");
    let d1 = Dealer::new(bp_gens, pc_gens, &mut dealer_transcript, n, m).unwrap();

    let mut parties1 = Vec::new();
    let mut bitcoms = Vec::new();
    for j in 0..m {
        let p0 = Party::new(bp_gens, pc_gens, values[j], blindings[j].dup(), n).unwrap();
        let (p1, bc) = p0.assign_position(j).unwrap();
        parties1.push(p1);
        bitcoms.push(bc);
    }
    let (d2, bit_ch) = d1.receive_bit_commitments(&mut dealer_transcript, bitcoms).unwrap();

    let mut parties2 = Vec::new();
    let mut polycoms = Vec::new();
    for p1 in parties1 {
        let (p2, pcm) = p1.apply_challenge(&bit_ch);
        parties2.push(p2);
        polycoms.push(pcm);
    }
    if let Some(bad) = tamper_round2 {
        // Swap this party's first coefficient commitment for its second:
        // still a valid point, but inconsistent with its own opening.
        let other = polycoms[bad].t2_j.dup();
        polycoms[bad].t1_j = other;
    }
    let (d3, poly_ch) = d2.receive_poly_commitments(&mut dealer_transcript, polycoms).unwrap();

    let mut shares = Vec::new();
    for p2 in parties2 {
        shares.push(p2.apply_challenge(&poly_ch));
    }
    d3.receive_proof_shares(&mut dealer_transcript, shares)
}

#[test]
fn aggregated_proof_verifies() {
    let pc_gens = PedersenGens::default();
    let bp_gens = BulletproofGens::new(64, 4);
    let values = [10u64, 20, 30, 250];
    let n = 8usize;
    let blindings: Vec<Scalar> = (0..4).map(|_| Scalar::random()).collect();
    let proof = run_aggregation(&bp_gens, &pc_gens, &values, &blindings, n, None).unwrap();

    let commitments: Vec<GroupElem> = values
        .iter()
        .zip(blindings.iter())
        .map(|(&v, b)| pc_gens.commit(&Scalar::from_u64(v), b))
        .collect();
    let mut vt = transcript_new("AggregatedRangeProofTest");
    assert!(proof.verify_multiple(&bp_gens, &pc_gens, &mut vt, &commitments, n).is_ok());

    // The aggregated proof over n*m = 32 bits has the same size as a
    // single-party proof of 32 bits: size depends only on n*m.
    let single_gens = BulletproofGens::new(64, 1);
    let blinding = Scalar::random();
    let single = prove_single(&single_gens, &pc_gens, "test", 42, &blinding, 32);
    assert_eq!(proof.to_bytes().len(), single.to_bytes().len());
}

#[test]
fn faulty_party_detected() {
    let pc_gens = PedersenGens::default();
    let bp_gens = BulletproofGens::new(64, 2);
    let values = [5u64, 9];
    let n = 8usize;
    let blindings: Vec<Scalar> = (0..2).map(|_| Scalar::random()).collect();

    let r = run_aggregation(&bp_gens, &pc_gens, &values, &blindings, n, Some(1));
    match r {
        Err(MPCError::MalformedProofShares { bad_shares }) => {
            assert_eq!(bad_shares, vec![1usize]);
        },
        other => panic!("expected a malformed-share error, got {:?}", other.is_ok()),
    }

    // With the same inputs and no tampering, the aggregation succeeds.
    let proof = run_aggregation(&bp_gens, &pc_gens, &values, &blindings, n, None).unwrap();
    let commitments: Vec<GroupElem> = values
        .iter()
        .zip(blindings.iter())
        .map(|(&v, b)| pc_gens.commit(&Scalar::from_u64(v), b))
        .collect();
    let mut vt = transcript_new("AggregatedRangeProofTest");
    assert!(proof.verify_multiple(&bp_gens, &pc_gens, &mut vt, &commitments, n).is_ok());
}

#[test]
fn proof_size_is_deterministic_content_is_not() {
    let bytes1 = singleparty_create_proof_helper(32, 42);
    let bytes2 = singleparty_create_proof_helper(32, 42);
    assert_eq!(bytes1.len(), bytes2.len());
    assert_eq!(bytes1.len(), 32 * (9 + 2 * 5));
    // Fresh blinding randomness makes the contents differ.
    assert!(bytes1 != bytes2);
}

#[test]
fn precondition_errors_are_exact() {
    let pc_gens = PedersenGens::default();
    let bp_gens = BulletproofGens::new(64, 4);

    let mut t = transcript_new("test");
    let values = vec![1u64];
    let mut blindings = Vec::new();
    blindings.push(Scalar::random());
    blindings.push(Scalar::random());
    let r = RangeProof::prove_multiple(&bp_gens, &pc_gens, &mut t, &values, &blindings, 8);
    assert!(matches!(r, Err(ProofError::WrongNumBlindingFactors)));

    let mut t = transcript_new("test");
    let values = vec![1u64];
    let mut blindings = Vec::new();
    blindings.push(Scalar::random());
    let r = RangeProof::prove_multiple(&bp_gens, &pc_gens, &mut t, &values, &blindings, 10);
    assert!(matches!(r, Err(ProofError::InvalidBitsize)));

    let mut t = transcript_new("test");
    let values = vec![1u64, 2, 3];
    let mut blindings = Vec::new();
    for _ in 0..3 {
        blindings.push(Scalar::random());
    }
    let r = RangeProof::prove_multiple(&bp_gens, &pc_gens, &mut t, &values, &blindings, 8);
    assert!(matches!(r, Err(ProofError::InvalidAggregation)));

    let small_gens = BulletproofGens::new(32, 1);
    let mut t = transcript_new("test");
    let values = vec![1u64];
    let mut blindings = Vec::new();
    blindings.push(Scalar::random());
    let r = RangeProof::prove_multiple(&small_gens, &pc_gens, &mut t, &values, &blindings, 64);
    assert!(matches!(r, Err(ProofError::InvalidGeneratorsLength)));
}

#[test]
fn dealer_rejects_wrong_message_counts() {
    let pc_gens = PedersenGens::default();
    let bp_gens = BulletproofGens::new(64, 2);
    let mut t = transcript_new("test");
    let d1 = Dealer::new(&bp_gens, &pc_gens, &mut t, 8, 2).unwrap();
    let p0 = Party::new(&bp_gens, &pc_gens, 1, Scalar::random(), 8).unwrap();
    let (_p1, bc) = p0.assign_position(0).unwrap();
    let mut bitcoms = Vec::new();
    bitcoms.push(bc);
    let r = d1.receive_bit_commitments(&mut t, bitcoms);
    assert!(matches!(r, Err(MPCError::WrongNumBitCommitments)));
}

#[test]
fn dealer_rejects_bad_parameters() {
    let pc_gens = PedersenGens::default();
    let bp_gens = BulletproofGens::new(64, 2);
    let mut t = transcript_new("test");
    assert!(matches!(
        Dealer::new(&bp_gens, &pc_gens, &mut t, 9, 2),
        Err(MPCError::InvalidBitsize)
    ));
    let mut t = transcript_new("test");
    assert!(matches!(
        Dealer::new(&bp_gens, &pc_gens, &mut t, 8, 3),
        Err(MPCError::InvalidAggregation)
    ));
    let mut t = transcript_new("test");
    assert!(matches!(
        Dealer::new(&bp_gens, &pc_gens, &mut t, 8, 4),
        Err(MPCError::InvalidGeneratorsLength)
    ));
}

#[test]
fn generator_shares_and_flat_indexing() {
    let small = BulletproofGens::new(16, 2);
    let large = BulletproofGens::new(16, 4);
    // Generators depend only on the flat index, never on the party capacity.
    for i in 0..32 {
        assert_eq!(small.g_vec[i].bytes, large.g_vec[i].bytes);
        assert_eq!(small.h_vec[i].bytes, large.h_vec[i].bytes);
    }
    assert!(small.share(0).is_ok());
    assert!(small.share(1).is_ok());
    assert!(matches!(
        small.share(2),
        Err(ProofError::InvalidGeneratorsLength)
    ));
}

#[test]
fn scalar_encoding_basics() {
    let five = Scalar::from_u64(5);
    assert_eq!(five.bytes.len(), 32);
    assert_eq!(five.bytes[0], 5);
    for i in 1..32 {
        assert_eq!(five.bytes[i], 0);
    }
    let r = Scalar::random();
    assert_eq!(r.bytes.len(), 32);
}

#[test]
fn wrong_commitment_fails() {
    let pc_gens = PedersenGens::default();
    let bp_gens = BulletproofGens::new(64, 1);
    let blinding = Scalar::random();
    let proof = prove_single(&bp_gens, &pc_gens, "test", 42, &blinding, 32);
    // A commitment to a different value must be rejected.
    let r = verify_single(&proof, &bp_gens, &pc_gens, "test", 43, &blinding, 32);
    assert!(matches!(r, Err(ProofError::VerificationError)));
    // So must a commitment under a different blinding.
    let other_blinding = Scalar::random();
    let r = verify_single(&proof, &bp_gens, &pc_gens, "test", 42, &other_blinding, 32);
    assert!(matches!(r, Err(ProofError::VerificationError)));
}

#[test]
fn verify_rejects_bad_parameters() {
    let pc_gens = PedersenGens::default();
    let bp_gens = BulletproofGens::new(64, 1);
    let blinding = Scalar::random();
    let proof = prove_single(&bp_gens, &pc_gens, "test", 42, &blinding, 32);
    let commitment = pc_gens.commit(&Scalar::from_u64(42), &blinding);
    let commitments = vec![commitment];
    let mut t = transcript_new("test");
    let r = proof.verify_multiple(&bp_gens, &pc_gens, &mut t, &commitments, 10);
    assert!(matches!(r, Err(ProofError::InvalidBitsize)));
    // A proof for 32 bits does not verify at a different width.
    let mut t = transcript_new("test");
    let r = proof.verify_multiple(&bp_gens, &pc_gens, &mut t, &commitments, 16);
    assert!(matches!(r, Err(ProofError::VerificationError)));
}
