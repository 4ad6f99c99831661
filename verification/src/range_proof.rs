use vstd::prelude::*;
use crate::dealer::Dealer;
use crate::errors::ProofError;
use crate::messages::{BitCommitment, PolyCommitment, ProofShare};
use crate::party::{Party, PartyAwaitingBitChallenge, PartyAwaitingPolyChallenge};
use crate::generators::{BulletproofGens, PedersenGens};
use crate::inner_product_proof::InnerProductProof;
use crate::generators::{fam_g, fam_h, fam_pedersen_b, fam_pedersen_b_blinding, gen_enc};
use crate::points::{
    elem_from_bytes, is_identity, msm_of, point_encs, point_ok, points_wf, scalar_vals, scalars_wf,
    GroupElem,
};
use crate::points::identity_enc;
use crate::scalar::{
    group_order, le_nat, sadd, smul, spow, ssub, scalar_add, scalar_from_canonical, scalar_invert,
    scalar_mul, scalar_sub, Scalar,
};
use crate::transcript::{append_point, append_scalar, append_u64, challenge_scalar};
use crate::util::{powers, sum_pows, sum_scalars, is_pow2, log2, check_pow2, compute_log2, in_range};

verus! {

/// The concatenation of the canonical encodings of a point sequence.
pub open spec fn concat_encs(s: Seq<GroupElem>) -> Seq<u8>
    decreases s.len(),
{
    if s.len() == 0 {
        Seq::empty()
    } else {
        concat_encs(s.drop_last()) + s.last().bytes@
    }
}

/// The length of a concatenation of 32-byte encodings.
pub proof fn lemma_concat_encs_len(s: Seq<GroupElem>)
    requires
        forall|i: int| 0 <= i < s.len() ==> (#[trigger] s[i]).bytes@.len() == 32,
    ensures
        concat_encs(s).len() == 32 * s.len(),
    decreases s.len(),
{
    if s.len() > 0 {
        lemma_concat_encs_len(s.drop_last());
    }
}

/// An aggregated range proof: the commitments, the polynomial opening, and
/// the closing inner-product argument.
#[derive(PartialEq, Eq)]
pub struct RangeProof {
    pub a_commit: GroupElem,
    pub s_commit: GroupElem,
    pub t_1: GroupElem,
    pub t_2: GroupElem,
    pub t_x: Scalar,
    pub t_x_blinding: Scalar,
    pub e_blinding: Scalar,
    pub ipp_proof: InnerProductProof,
}

impl RangeProof {
    pub open spec fn wf(&self) -> bool {
        &&& self.a_commit.wf()
        &&& self.s_commit.wf()
        &&& self.t_1.wf()
        &&& self.t_2.wf()
        &&& self.t_x.wf()
        &&& self.t_x_blinding.wf()
        &&& self.e_blinding.wf()
        &&& self.ipp_proof.wf()
    }

    /// The canonical serialized form: the concatenation
    /// `A || S || T_1 || T_2 || t_x || t_x_blinding || e_blinding
    ///  || L_0..L_{k-1} || R_0..R_{k-1} || a || b`
    /// of canonical 32-byte encodings.
    pub open spec fn spec_bytes(&self) -> Seq<u8> {
        self.a_commit.bytes@ + self.s_commit.bytes@ + self.t_1.bytes@ + self.t_2.bytes@
            + self.t_x.bytes@ + self.t_x_blinding.bytes@ + self.e_blinding.bytes@ + concat_encs(
            self.ipp_proof.l_vec@,
        ) + concat_encs(self.ipp_proof.r_vec@) + self.ipp_proof.a.bytes@ + self.ipp_proof.b.bytes@
    }

    /// The serialized size is a function of the round count alone.
    pub proof fn lemma_serialized_size(&self)
        requires
            self.wf(),
        ensures
            self.spec_bytes().len() == 32 * (9 + 2 * self.ipp_proof.l_vec@.len()),
    {
        lemma_concat_encs_len(self.ipp_proof.l_vec@);
        lemma_concat_encs_len(self.ipp_proof.r_vec@);
    }
}

/// Two well-formed proofs with the same number of halving rounds serialize
/// to the same number of bytes: the size depends only on `n * m`, never on
/// the proof contents or on how many parties produced it.
pub proof fn lemma_size_depends_only_on_rounds(p1: &RangeProof, p2: &RangeProof)
    requires
        p1.wf(),
        p2.wf(),
        p1.ipp_proof.l_vec@.len() == p2.ipp_proof.l_vec@.len(),
    ensures
        p1.spec_bytes().len() == p2.spec_bytes().len(),
{
    p1.lemma_serialized_size();
    p2.lemma_serialized_size();
}


/// Whether the proving inputs satisfy every precondition: matching lengths,
/// a supported bit width, a power-of-two party count within the generator
/// capacities, and every value below `2^n`.
pub open spec fn prove_params_ok(
    bp_gens: BulletproofGens,
    values: Seq<u64>,
    blindings_len: int,
    n: int,
) -> bool {
    &&& values.len() == blindings_len
    &&& (n == 8 || n == 16 || n == 32 || n == 64)
    &&& is_pow2(values.len() as nat)
    &&& n <= bp_gens.gens_capacity
    &&& values.len() <= bp_gens.party_capacity
    &&& forall|j: int| 0 <= j < values.len()
        ==> ((#[trigger] values[j]) as nat) < vstd::arithmetic::power2::pow2(n as nat)
}

impl RangeProof {
    /// Proves that each committed value lies in `[0, 2^n)`, producing one
    /// aggregated proof. Succeeds exactly when the preconditions hold: the
    /// protocol itself is run between local parties and a local dealer whose
    /// shares need no audit, so nothing else can fail.
    pub fn prove_multiple(
        bp_gens: &BulletproofGens,
        pc_gens: &PedersenGens,
        transcript: &mut merlin::Transcript,
        values: &Vec<u64>,
        blindings: &Vec<Scalar>,
        n: usize,
    ) -> (r: Result<RangeProof, ProofError>)
        requires
            bp_gens.wf(),
            pc_gens.wf(),
            scalars_wf(blindings@),
        ensures
            r is Ok <==> prove_params_ok(*bp_gens, values@, blindings@.len() as int, n as int),
            r matches Ok(p) ==> p.wf() && p.ipp_proof.l_vec@.len() == log2(
                (n * values@.len()) as nat,
            ),
            values@.len() != blindings@.len() ==> r == Err::<RangeProof, ProofError>(
                ProofError::WrongNumBlindingFactors,
            ),
            (values@.len() == blindings@.len() && !(n == 8 || n == 16 || n == 32 || n == 64))
                ==> r == Err::<RangeProof, ProofError>(ProofError::InvalidBitsize),
            (values@.len() == blindings@.len() && (n == 8 || n == 16 || n == 32 || n == 64)
                && !is_pow2(values@.len() as nat)) ==> r == Err::<RangeProof, ProofError>(
                ProofError::InvalidAggregation,
            ),
            (values@.len() == blindings@.len() && (n == 8 || n == 16 || n == 32 || n == 64)
                && is_pow2(values@.len() as nat) && !(n <= bp_gens.gens_capacity
                && values@.len() <= bp_gens.party_capacity)) ==> r == Err::<
                RangeProof,
                ProofError,
            >(ProofError::InvalidGeneratorsLength),
            (values@.len() == blindings@.len() && (n == 8 || n == 16 || n == 32 || n == 64)
                && is_pow2(values@.len() as nat) && n <= bp_gens.gens_capacity
                && values@.len() <= bp_gens.party_capacity && !(forall|j: int|
                0 <= j < values@.len() ==> ((#[trigger] values@[j]) as nat)
                    < vstd::arithmetic::power2::pow2(n as nat))) ==> r == Err::<
                RangeProof,
                ProofError,
            >(ProofError::ValueOutOfRange),
    {
        let m = values.len();
        if blindings.len() != m {
            return Err(ProofError::WrongNumBlindingFactors);
        }
        if !(n == 8 || n == 16 || n == 32 || n == 64) {
            return Err(ProofError::InvalidBitsize);
        }
        if !check_pow2(m) {
            return Err(ProofError::InvalidAggregation);
        }
        if !(n <= bp_gens.gens_capacity && m <= bp_gens.party_capacity) {
            return Err(ProofError::InvalidGeneratorsLength);
        }
        let mut j: usize = 0;
        while j < m
            invariant
                0 <= j <= m,
                n <= 64,
                values@.len() == m,
                blindings@.len() == m,
                (n == 8 || n == 16 || n == 32 || n == 64),
                is_pow2(m as nat),
                n <= bp_gens.gens_capacity,
                m <= bp_gens.party_capacity,
                forall|k: int| 0 <= k < j ==> ((#[trigger] values@[k]) as nat)
                    < vstd::arithmetic::power2::pow2(n as nat),
            decreases m - j,
        {
            if !in_range(values[j], n) {
                return Err(ProofError::ValueOutOfRange);
            }
            j = j + 1;
        }

        let d1 = match Dealer::new(bp_gens, pc_gens, transcript, n, m) {
            Ok(d) => d,
            Err(_) => {
                proof {
                    assert(false);
                }
                return Err(ProofError::ProvingError);
            },
        };

        let mut parties1: Vec<PartyAwaitingBitChallenge> = Vec::new();
        let mut bitcoms: Vec<BitCommitment> = Vec::new();
        j = 0;
        while j < m
            invariant
                0 <= j <= m,
                bp_gens.wf(),
                pc_gens.wf(),
                scalars_wf(blindings@),
                values@.len() == m,
                blindings@.len() == m,
                (n == 8 || n == 16 || n == 32 || n == 64),
                n <= bp_gens.gens_capacity,
                m <= bp_gens.party_capacity,
                parties1@.len() == j,
                bitcoms@.len() == j,
                forall|k: int| 0 <= k < j ==> (#[trigger] parties1@[k]).wf()
                    && parties1@[k].n == n,
                forall|k: int| 0 <= k < j ==> (#[trigger] bitcoms@[k]).wf(),
            decreases m - j,
        {
            let p0 = match Party::new(bp_gens, pc_gens, values[j], blindings[j].dup(), n) {
                Ok(p) => p,
                Err(_) => {
                    proof {
                        assert(false);
                    }
                    return Err(ProofError::ProvingError);
                },
            };
            let (p1, bc) = match p0.assign_position(j) {
                Ok(x) => x,
                Err(_) => {
                    proof {
                        assert(false);
                    }
                    return Err(ProofError::ProvingError);
                },
            };
            parties1.push(p1);
            bitcoms.push(bc);
            j = j + 1;
        }

        let (d2, bit_ch) = match d1.receive_bit_commitments(transcript, bitcoms) {
            Ok(x) => x,
            Err(_) => {
                proof {
                    assert(false);
                }
                return Err(ProofError::ProvingError);
            },
        };

        let mut parties2: Vec<PartyAwaitingPolyChallenge> = Vec::new();
        let mut polycoms: Vec<PolyCommitment> = Vec::new();
        j = 0;
        while j < m
            invariant
                0 <= j <= m,
                bit_ch.wf(),
                parties1@.len() == m - j,
                forall|k: int| 0 <= k < m - j ==> (#[trigger] parties1@[k]).wf()
                    && parties1@[k].n == n,
                parties2@.len() == j,
                polycoms@.len() == j,
                forall|k: int| 0 <= k < j ==> (#[trigger] parties2@[k]).wf()
                    && parties2@[k].n == n,
                forall|k: int| 0 <= k < j ==> (#[trigger] polycoms@[k]).wf(),
            decreases m - j,
        {
            let p1 = parties1.remove(0);
            let (p2, pcm) = p1.apply_challenge(&bit_ch);
            parties2.push(p2);
            polycoms.push(pcm);
            j = j + 1;
        }

        let (d3, poly_ch) = match d2.receive_poly_commitments(transcript, polycoms) {
            Ok(x) => x,
            Err(_) => {
                proof {
                    assert(false);
                }
                return Err(ProofError::ProvingError);
            },
        };

        let mut shares: Vec<ProofShare> = Vec::new();
        j = 0;
        while j < m
            invariant
                0 <= j <= m,
                poly_ch.wf(),
                parties2@.len() == m - j,
                forall|k: int| 0 <= k < m - j ==> (#[trigger] parties2@[k]).wf()
                    && parties2@[k].n == n,
                shares@.len() == j,
                forall|k: int| 0 <= k < j ==> (#[trigger] shares@[k]).wf()
                    && shares@[k].l_vec@.len() == n && shares@[k].r_vec@.len() == n,
            decreases m - j,
        {
            let p2 = parties2.remove(0);
            let sh = p2.apply_challenge(&poly_ch);
            shares.push(sh);
            j = j + 1;
        }

        let proof_obj = d3.receive_trusted_shares(transcript, shares);
        Ok(proof_obj)
    }
}


/// Appends all of `b` to `out`.
fn push_bytes(out: &mut Vec<u8>, b: &Vec<u8>)
    ensures
        final(out)@ == old(out)@ + b@,
{
    let mut i: usize = 0;
    while i < b.len()
        invariant
            0 <= i <= b@.len(),
            out@ =~= old(out)@ + b@.take(i as int),
        decreases b@.len() - i,
    {
        out.push(b[i]);
        proof {
            assert(out@ =~= old(out)@ + b@.take(i + 1));
        }
        i = i + 1;
    }
    proof {
        assert(b@.take(b@.len() as int) =~= b@);
    }
}

/// Copies the 32 bytes of `b` starting at `off`.
fn read_chunk(b: &Vec<u8>, off: usize) -> (r: Vec<u8>)
    requires
        off + 32 <= b@.len(),
    ensures
        r@ == b@.subrange(off as int, off + 32),
{
    let blen = b.len();
    let mut out: Vec<u8> = Vec::new();
    let mut i: usize = 0;
    while i < 32
        invariant
            0 <= i <= 32,
            off + 32 <= blen,
            blen == b@.len(),
            out@ =~= b@.subrange(off as int, off + i),
        decreases 32 - i,
    {
        out.push(b[off + i]);
        proof {
            assert(out@ =~= b@.subrange(off as int, off + i + 1));
        }
        i = i + 1;
    }
    out
}

/// Whether a byte string is a well-formed serialized range proof: the right
/// shape, every point chunk a valid encoding, every scalar chunk canonical.
pub open spec fn parses(b: Seq<u8>) -> bool {
    let k = (b.len() - 288) / 64;
    &&& b.len() >= 288
    &&& (b.len() - 288) % 64 == 0
    &&& point_ok(b.subrange(0, 32))
    &&& point_ok(b.subrange(32, 64))
    &&& point_ok(b.subrange(64, 96))
    &&& point_ok(b.subrange(96, 128))
    &&& le_nat(b.subrange(128, 160)) < group_order()
    &&& le_nat(b.subrange(160, 192)) < group_order()
    &&& le_nat(b.subrange(192, 224)) < group_order()
    &&& (forall|r: int| 0 <= r < 2 * k ==> point_ok(
        #[trigger] b.subrange(224 + 32 * r, 256 + 32 * r),
    ))
    &&& le_nat(b.subrange(b.len() - 64, b.len() - 32)) < group_order()
    &&& le_nat(b.subrange(b.len() - 32, b.len() as int)) < group_order()
}

impl RangeProof {
    /// Serializes the proof in its canonical layout.
    pub fn to_bytes(&self) -> (r: Vec<u8>)
        requires
            self.wf(),
        ensures
            r@ == self.spec_bytes(),
            r@.len() == 32 * (9 + 2 * self.ipp_proof.l_vec@.len()),
    {
        let mut out: Vec<u8> = Vec::new();
        push_bytes(&mut out, &self.a_commit.bytes);
        push_bytes(&mut out, &self.s_commit.bytes);
        push_bytes(&mut out, &self.t_1.bytes);
        push_bytes(&mut out, &self.t_2.bytes);
        push_bytes(&mut out, &self.t_x.bytes);
        push_bytes(&mut out, &self.t_x_blinding.bytes);
        push_bytes(&mut out, &self.e_blinding.bytes);
        let ghost prefix7 = out@;
        let k = self.ipp_proof.l_vec.len();
        let mut i: usize = 0;
        while i < k
            invariant
                0 <= i <= k,
                self.wf(),
                k == self.ipp_proof.l_vec@.len(),
                out@ =~= prefix7 + concat_encs(self.ipp_proof.l_vec@.take(i as int)),
            decreases k - i,
        {
            push_bytes(&mut out, &self.ipp_proof.l_vec[i].bytes);
            proof {
                assert(self.ipp_proof.l_vec@.take(i + 1).drop_last() =~= self.ipp_proof.l_vec@.take(
                    i as int,
                ));
                assert(out@ =~= prefix7 + concat_encs(self.ipp_proof.l_vec@.take(i + 1)));
            }
            i = i + 1;
        }
        proof {
            assert(self.ipp_proof.l_vec@.take(k as int) =~= self.ipp_proof.l_vec@);
        }
        let ghost prefix8 = out@;
        i = 0;
        while i < k
            invariant
                0 <= i <= k,
                self.wf(),
                k == self.ipp_proof.r_vec@.len(),
                out@ =~= prefix8 + concat_encs(self.ipp_proof.r_vec@.take(i as int)),
            decreases k - i,
        {
            push_bytes(&mut out, &self.ipp_proof.r_vec[i].bytes);
            proof {
                assert(self.ipp_proof.r_vec@.take(i + 1).drop_last() =~= self.ipp_proof.r_vec@.take(
                    i as int,
                ));
                assert(out@ =~= prefix8 + concat_encs(self.ipp_proof.r_vec@.take(i + 1)));
            }
            i = i + 1;
        }
        proof {
            assert(self.ipp_proof.r_vec@.take(k as int) =~= self.ipp_proof.r_vec@);
        }
        push_bytes(&mut out, &self.ipp_proof.a.bytes);
        push_bytes(&mut out, &self.ipp_proof.b.bytes);
        proof {
            assert(out@ =~= self.spec_bytes());
            self.lemma_serialized_size();
        }
        out
    }

    /// Deserializes a proof from its canonical layout, accepting exactly the
    /// well-formed encodings and rejecting everything else with a format
    /// error distinct from verification failure.
    pub fn from_bytes(slice: &Vec<u8>) -> (r: Result<RangeProof, ProofError>)
        ensures
            r is Ok <==> parses(slice@),
            r is Err ==> r == Err::<RangeProof, ProofError>(ProofError::FormatError),
            r matches Ok(p) ==> {
                let k = (slice@.len() - 288) / 64;
                &&& p.wf()
                &&& p.a_commit.bytes@ == slice@.subrange(0, 32)
                &&& p.s_commit.bytes@ == slice@.subrange(32, 64)
                &&& p.t_1.bytes@ == slice@.subrange(64, 96)
                &&& p.t_2.bytes@ == slice@.subrange(96, 128)
                &&& p.t_x.bytes@ == slice@.subrange(128, 160)
                &&& p.t_x_blinding.bytes@ == slice@.subrange(160, 192)
                &&& p.e_blinding.bytes@ == slice@.subrange(192, 224)
                &&& p.ipp_proof.l_vec@.len() == k
                &&& p.ipp_proof.r_vec@.len() == k
                &&& (forall|q: int| 0 <= q < k ==> (#[trigger] p.ipp_proof.l_vec@[q]).bytes@
                    == slice@.subrange(224 + 32 * q, 256 + 32 * q))
                &&& (forall|q: int| 0 <= q < k ==> (#[trigger] p.ipp_proof.r_vec@[q]).bytes@
                    == slice@.subrange(224 + 32 * (k + q), 256 + 32 * (k + q)))
                &&& p.ipp_proof.a.bytes@ == slice@.subrange(
                    slice@.len() - 64,
                    slice@.len() - 32,
                )
                &&& p.ipp_proof.b.bytes@ == slice@.subrange(
                    slice@.len() - 32,
                    slice@.len() as int,
                )
            },
    {
        let len = slice.len();
        if len < 288 {
            return Err(ProofError::FormatError);
        }
        if (len - 288) % 64 != 0 {
            return Err(ProofError::FormatError);
        }
        let k = (len - 288) / 64;
        proof {
            vstd::arithmetic::div_mod::lemma_fundamental_div_mod((len - 288) as int, 64);
        }
        let a_commit = match elem_from_bytes(read_chunk(slice, 0)) {
            Some(e) => e,
            None => {
                return Err(ProofError::FormatError);
            },
        };
        let s_commit = match elem_from_bytes(read_chunk(slice, 32)) {
            Some(e) => e,
            None => {
                return Err(ProofError::FormatError);
            },
        };
        let t_1 = match elem_from_bytes(read_chunk(slice, 64)) {
            Some(e) => e,
            None => {
                return Err(ProofError::FormatError);
            },
        };
        let t_2 = match elem_from_bytes(read_chunk(slice, 96)) {
            Some(e) => e,
            None => {
                return Err(ProofError::FormatError);
            },
        };
        let t_x_bytes = read_chunk(slice, 128);
        let t_x = match scalar_from_canonical(&t_x_bytes) {
            Some(s) => s,
            None => {
                return Err(ProofError::FormatError);
            },
        };
        let t_x_blinding_bytes = read_chunk(slice, 160);
        let t_x_blinding = match scalar_from_canonical(&t_x_blinding_bytes) {
            Some(s) => s,
            None => {
                return Err(ProofError::FormatError);
            },
        };
        let e_blinding_bytes = read_chunk(slice, 192);
        let e_blinding = match scalar_from_canonical(&e_blinding_bytes) {
            Some(s) => s,
            None => {
                return Err(ProofError::FormatError);
            },
        };
        let mut l_vec: Vec<GroupElem> = Vec::new();
        let mut q: usize = 0;
        while q < k
            invariant
                0 <= q <= k,
                len == slice@.len(),
                len >= 288,
                k == (len - 288) / 64,
                (len - 288) % 64 == 0,
                len == 288 + 64 * k,
                l_vec@.len() == q,
                points_wf(l_vec@),
                forall|t: int| 0 <= t < q ==> (#[trigger] l_vec@[t]).bytes@ == slice@.subrange(
                    224 + 32 * t,
                    256 + 32 * t,
                ),
            decreases k - q,
        {
            let chunk = read_chunk(slice, 224 + 32 * q);
            let e = match elem_from_bytes(chunk) {
                Some(e) => e,
                None => {
                    proof {
                        assert(!point_ok(slice@.subrange(
                            224 + 32 * (q as int),
                            256 + 32 * (q as int),
                        )));
                        assert(!parses(slice@));
                    }
                    return Err(ProofError::FormatError);
                },
            };
            l_vec.push(e);
            q = q + 1;
        }
        let mut r_vec: Vec<GroupElem> = Vec::new();
        q = 0;
        while q < k
            invariant
                0 <= q <= k,
                len == slice@.len(),
                len >= 288,
                k == (len - 288) / 64,
                (len - 288) % 64 == 0,
                len == 288 + 64 * k,
                r_vec@.len() == q,
                points_wf(r_vec@),
                forall|t: int| 0 <= t < q ==> (#[trigger] r_vec@[t]).bytes@ == slice@.subrange(
                    224 + 32 * (k + t),
                    256 + 32 * (k + t),
                ),
            decreases k - q,
        {
            let chunk = read_chunk(slice, 224 + 32 * k + 32 * q);
            let e = match elem_from_bytes(chunk) {
                Some(e) => e,
                None => {
                    proof {
                        assert(!point_ok(slice@.subrange(
                            224 + 32 * ((k + q) as int),
                            256 + 32 * ((k + q) as int),
                        )));
                        assert(!parses(slice@));
                    }
                    return Err(ProofError::FormatError);
                },
            };
            r_vec.push(e);
            q = q + 1;
        }
        let ipp_a_bytes = read_chunk(slice, len - 64);
        let ipp_a = match scalar_from_canonical(&ipp_a_bytes) {
            Some(s) => s,
            None => {
                return Err(ProofError::FormatError);
            },
        };
        let ipp_b_bytes = read_chunk(slice, len - 32);
        let ipp_b = match scalar_from_canonical(&ipp_b_bytes) {
            Some(s) => s,
            None => {
                return Err(ProofError::FormatError);
            },
        };
        proof {
            assert forall|t: int| 0 <= t < 2 * (k as int) implies point_ok(
                #[trigger] slice@.subrange(224 + 32 * t, 256 + 32 * t),
            ) by {
                if t < k {
                    assert(l_vec@[t].bytes@ == slice@.subrange(224 + 32 * t, 256 + 32 * t));
                } else {
                    assert(r_vec@[t - k].bytes@ == slice@.subrange(224 + 32 * t, 256 + 32 * t));
                }
            }
        }
        Ok(RangeProof {
            a_commit,
            s_commit,
            t_1,
            t_2,
            t_x,
            t_x_blinding,
            e_blinding,
            ipp_proof: InnerProductProof { l_vec, r_vec, a: ipp_a, b: ipp_b },
        })
    }
}



/// The expected constant coefficient `delta(y, z)` of the aggregated
/// constraint polynomial, summed over all parties.
pub open spec fn spec_delta(nn: int, m: int, y: nat, z: nat) -> nat {
    let zz = smul(z, z);
    ssub(
        smul(ssub(z, zz), sum_pows(y, (nn * m) as nat)),
        smul(smul(smul(z, zz), sum_pows(z, m as nat)), sum_pows(2, nn as nat)),
    )
}

/// The coefficient the verifier applies to the `i`-th `G` generator.
pub open spec fn spec_g_coeff(a: nat, z: nat, s: Seq<nat>, i: int) -> nat {
    ssub(ssub(0, z), smul(a, s[i]))
}

/// The coefficient the verifier applies to the `i`-th `H` generator.
pub open spec fn spec_h_coeff(b: nat, z: nat, y_inv: nat, nn: int, nm: int, s: Seq<nat>, i: int) -> nat {
    let zz = smul(z, z);
    sadd(
        z,
        smul(
            spow(y_inv, i as nat),
            ssub(
                smul(smul(zz, spow(z, (i / nn) as nat)), spow(2, (i % nn) as nat)),
                smul(b, s[nm - 1 - i]),
            ),
        ),
    )
}

/// The coefficient the verifier applies to party `j`'s value commitment.
pub open spec fn spec_v_coeff(c: nat, z: nat, j: int) -> nat {
    smul(c, smul(smul(z, z), spow(z, j as nat)))
}

/// The full scalar sequence of the combined verification equation, in the
/// order `[1, x, c*x, c*x^2, B_blinding, B, G.., H.., V.., (L,R)..]`.
pub open spec fn spec_mega_scalars(
    p: RangeProof,
    nn: int,
    m: int,
    y: nat,
    z: nat,
    x: nat,
    w: nat,
    c: nat,
    y_inv: nat,
    u_sq: Seq<nat>,
    u_inv_sq: Seq<nat>,
    s: Seq<nat>,
) -> Seq<nat> {
    let nm = nn * m;
    let k = u_sq.len() as int;
    seq![
        1nat,
        x,
        smul(c, x),
        smul(smul(c, x), x),
        ssub(0, sadd(p.e_blinding.v(), smul(c, p.t_x_blinding.v()))),
        sadd(
            smul(w, ssub(p.t_x.v(), smul(p.ipp_proof.a.v(), p.ipp_proof.b.v()))),
            smul(c, ssub(spec_delta(nn, m, y, z), p.t_x.v())),
        ),
    ] + Seq::new(nm as nat, |i: int| spec_g_coeff(p.ipp_proof.a.v(), z, s, i)) + Seq::new(
        nm as nat,
        |i: int| spec_h_coeff(p.ipp_proof.b.v(), z, y_inv, nn, nm, s, i),
    ) + Seq::new(m as nat, |j: int| spec_v_coeff(c, z, j)) + Seq::new(
        (2 * k) as nat,
        |t: int| if t % 2 == 0 { u_sq[t / 2] } else { u_inv_sq[t / 2] },
    )
}

/// The generator encoding the verifier uses at flat slot `i`: the share
/// partition sends slot `i` to generator `(i / n) * gens_capacity + i % n`.
pub open spec fn spec_gen_at(fam: u8, cap: int, nn: int, i: int) -> Seq<u8> {
    gen_enc(fam, ((i / nn) * cap + (i % nn)) as u64)
}

/// The full point sequence of the combined verification equation, aligned
/// with `spec_mega_scalars`.
pub open spec fn spec_mega_points(
    p: RangeProof,
    commitments: Seq<Seq<u8>>,
    cap: int,
    nn: int,
    m: int,
) -> Seq<Seq<u8>> {
    let nm = nn * m;
    let k = p.ipp_proof.l_vec@.len() as int;
    seq![
        p.a_commit.bytes@,
        p.s_commit.bytes@,
        p.t_1.bytes@,
        p.t_2.bytes@,
        gen_enc(fam_pedersen_b_blinding(), 0),
        gen_enc(fam_pedersen_b(), 0),
    ] + Seq::new(nm as nat, |i: int| spec_gen_at(fam_g(), cap, nn, i)) + Seq::new(
        nm as nat,
        |i: int| spec_gen_at(fam_h(), cap, nn, i),
    ) + commitments + Seq::new(
        (2 * k) as nat,
        |t: int| if t % 2 == 0 { p.ipp_proof.l_vec@[t / 2].bytes@ } else {
            p.ipp_proof.r_vec@[t / 2].bytes@
        },
    )
}

/// Whether the combined verification equation holds: the single multiscalar
/// multiplication over all terms yields the identity.
pub open spec fn spec_verification_eq(
    p: RangeProof,
    commitments: Seq<Seq<u8>>,
    cap: int,
    nn: int,
    m: int,
    y: nat,
    z: nat,
    x: nat,
    w: nat,
    c: nat,
    y_inv: nat,
    u_sq: Seq<nat>,
    u_inv_sq: Seq<nat>,
    s: Seq<nat>,
) -> bool {
    msm_of(
        spec_mega_scalars(p, nn, m, y, z, x, w, c, y_inv, u_sq, u_inv_sq, s),
        spec_mega_points(p, commitments, cap, nn, m),
    ) == identity_enc()
}

impl RangeProof {
    /// Verifies the proof against `m` value commitments at bit width `n` by
    /// replaying the proving transcript and checking one combined
    /// multiscalar-multiplication equation against the identity. Broken
    /// preconditions are reported exactly; past them, the challenges drawn
    /// from the opaque transcript decide between acceptance and a bare
    /// `VerificationError`, and nothing more is disclosed about which
    /// constraint failed.
    pub fn verify_multiple(
        &self,
        bp_gens: &BulletproofGens,
        pc_gens: &PedersenGens,
        transcript: &mut merlin::Transcript,
        value_commitments: &Vec<GroupElem>,
        n: usize,
    ) -> (r: Result<(), ProofError>)
        requires
            self.wf(),
            bp_gens.wf(),
            pc_gens.wf(),
            points_wf(value_commitments@),
        ensures
            !(n == 8 || n == 16 || n == 32 || n == 64) ==> r == Err::<(), ProofError>(
                ProofError::InvalidBitsize,
            ),
            ((n == 8 || n == 16 || n == 32 || n == 64) && !is_pow2(value_commitments@.len() as nat))
                ==> r == Err::<(), ProofError>(ProofError::InvalidAggregation),
            ((n == 8 || n == 16 || n == 32 || n == 64) && is_pow2(value_commitments@.len() as nat)
                && !(n <= bp_gens.gens_capacity && value_commitments@.len()
                <= bp_gens.party_capacity)) ==> r == Err::<(), ProofError>(
                ProofError::InvalidGeneratorsLength,
            ),
            r is Err ==> (r == Err::<(), ProofError>(ProofError::InvalidBitsize) || r == Err::<
                (),
                ProofError,
            >(ProofError::InvalidAggregation) || r == Err::<(), ProofError>(
                ProofError::InvalidGeneratorsLength,
            ) || r == Err::<(), ProofError>(ProofError::VerificationError)),
            r is Ok ==> ((n == 8 || n == 16 || n == 32 || n == 64) && is_pow2(
                value_commitments@.len() as nat,
            ) && self.ipp_proof.l_vec@.len() == log2((n * value_commitments@.len()) as nat)),
            r is Ok ==> exists|yv: nat, zv: nat, xv: nat, wv: nat, cv: nat, yiv: nat, usq: Seq<
                nat,
            >, uisq: Seq<nat>, sv: Seq<nat>|
                spec_verification_eq(
                    *self,
                    point_encs(value_commitments@),
                    bp_gens.gens_capacity as int,
                    n as int,
                    value_commitments@.len() as int,
                    yv,
                    zv,
                    xv,
                    wv,
                    cv,
                    yiv,
                    usq,
                    uisq,
                    sv,
                ),
    {
        let m = value_commitments.len();
        if !(n == 8 || n == 16 || n == 32 || n == 64) {
            return Err(ProofError::InvalidBitsize);
        }
        if !check_pow2(m) {
            return Err(ProofError::InvalidAggregation);
        }
        if !(n <= bp_gens.gens_capacity && m <= bp_gens.party_capacity) {
            return Err(ProofError::InvalidGeneratorsLength);
        }
        let total = bp_gens.g_vec.len();
        proof {
            let c = bp_gens.gens_capacity as int;
            let p = bp_gens.party_capacity as int;
            assert(n * m <= c * p) by (nonlinear_arith)
                requires
                    0 <= n <= c,
                    0 <= m <= p,
            ;
        }
        let nm = n * m;
        let k = compute_log2(nm);
        if k >= 64 {
            return Err(ProofError::VerificationError);
        }
        if self.ipp_proof.l_vec.len() != k {
            return Err(ProofError::VerificationError);
        }

        // Replay the proving transcript in the exact absorption order.
        append_u64(transcript, "dom-sep rangeproof n", n as u64);
        append_u64(transcript, "dom-sep rangeproof m", m as u64);
        let mut j: usize = 0;
        while j < m
            invariant
                0 <= j <= m,
                value_commitments@.len() == m,
                points_wf(value_commitments@),
            decreases m - j,
        {
            append_point(transcript, "V", &value_commitments[j]);
            j = j + 1;
        }
        append_point(transcript, "A", &self.a_commit);
        append_point(transcript, "S", &self.s_commit);
        let y = challenge_scalar(transcript, "y");
        let z = challenge_scalar(transcript, "z");
        append_point(transcript, "T_1", &self.t_1);
        append_point(transcript, "T_2", &self.t_2);
        let x = challenge_scalar(transcript, "x");
        append_scalar(transcript, "t_x", &self.t_x);
        append_scalar(transcript, "t_x_blinding", &self.t_x_blinding);
        append_scalar(transcript, "e_blinding", &self.e_blinding);
        let w = challenge_scalar(transcript, "w");

        let mut u_sq: Vec<Scalar> = Vec::new();
        let mut u_inv_sq: Vec<Scalar> = Vec::new();
        let mut allinv = Scalar::from_u64(1);
        j = 0;
        while j < k
            invariant
                0 <= j <= k,
                self.wf(),
                k == self.ipp_proof.l_vec@.len(),
                k == self.ipp_proof.r_vec@.len(),
                u_sq@.len() == j,
                u_inv_sq@.len() == j,
                scalars_wf(u_sq@),
                scalars_wf(u_inv_sq@),
                allinv.wf(),
            decreases k - j,
        {
            append_point(transcript, "ipp L", &self.ipp_proof.l_vec[j]);
            append_point(transcript, "ipp R", &self.ipp_proof.r_vec[j]);
            let u = challenge_scalar(transcript, "ipp u");
            let u_inv = scalar_invert(&u);
            u_sq.push(scalar_mul(&u, &u));
            u_inv_sq.push(scalar_mul(&u_inv, &u_inv));
            allinv = scalar_mul(&allinv, &u_inv);
            j = j + 1;
        }
        let c_chal = challenge_scalar(transcript, "c");

        // The verification scalars of the inner-product argument.
        let mut s_vec: Vec<Scalar> = Vec::new();
        let mut idx: usize = 0;
        while idx < nm
            invariant
                0 <= idx <= nm,
                allinv.wf(),
                s_vec@.len() == idx,
                scalars_wf(s_vec@),
            decreases nm - idx,
        {
            s_vec.push(allinv.dup());
            idx = idx + 1;
        }
        j = 0;
        while j < k
            invariant
                0 <= j <= k,
                k < 64,
                s_vec@.len() == nm,
                scalars_wf(s_vec@),
                u_sq@.len() == k,
                scalars_wf(u_sq@),
            decreases k - j,
        {
            let shift = (k - 1 - j) as u64;
            idx = 0;
            while idx < nm
                invariant
                    0 <= idx <= nm,
                    j < k,
                    shift < 64,
                    s_vec@.len() == nm,
                    scalars_wf(s_vec@),
                    u_sq@.len() == k,
                    scalars_wf(u_sq@),
                decreases nm - idx,
            {
                if ((idx as u64) >> shift) & 1 == 1 {
                    let t = scalar_mul(&s_vec[idx], &u_sq[j]);
                    s_vec.set(idx, t);
                }
                idx = idx + 1;
            }
            j = j + 1;
        }

        let y_inv = scalar_invert(&y);
        let ok = self.check_verification_equation(
            bp_gens,
            pc_gens,
            value_commitments,
            n,
            &y,
            &z,
            &x,
            &w,
            &c_chal,
            &y_inv,
            &u_sq,
            &u_inv_sq,
            &s_vec,
        );
        if ok {
            proof {
                assert(spec_verification_eq(
                    *self,
                    point_encs(value_commitments@),
                    bp_gens.gens_capacity as int,
                    n as int,
                    value_commitments@.len() as int,
                    y.v(),
                    z.v(),
                    x.v(),
                    w.v(),
                    c_chal.v(),
                    y_inv.v(),
                    scalar_vals(u_sq@),
                    scalar_vals(u_inv_sq@),
                    scalar_vals(s_vec@),
                ));
            }
            Ok(())
        } else {
            Err(ProofError::VerificationError)
        }
    }

    /// Decides the combined verification equation for the given challenge
    /// data: returns exactly whether the single multiscalar multiplication
    /// over every term of the aggregated range-proof check yields the
    /// identity. The challenges, the inverse of `y`, and the inner-product
    /// verification scalars are arguments, so the accept/reject decision is
    /// pinned for every value the opaque transcript could hand back.
    #[verifier::rlimit(100)]
    #[verifier::spinoff_prover]
    pub fn check_verification_equation(
        &self,
        bp_gens: &BulletproofGens,
        pc_gens: &PedersenGens,
        value_commitments: &Vec<GroupElem>,
        n: usize,
        y: &Scalar,
        z: &Scalar,
        x: &Scalar,
        w: &Scalar,
        c: &Scalar,
        y_inv: &Scalar,
        u_sq: &Vec<Scalar>,
        u_inv_sq: &Vec<Scalar>,
        s_vec: &Vec<Scalar>,
    ) -> (r: bool)
        requires
            self.wf(),
            bp_gens.wf(),
            pc_gens.wf(),
            points_wf(value_commitments@),
            1 <= n <= bp_gens.gens_capacity,
            value_commitments@.len() <= bp_gens.party_capacity,
            y.wf(),
            z.wf(),
            x.wf(),
            w.wf(),
            c.wf(),
            y_inv.wf(),
            scalars_wf(u_sq@),
            scalars_wf(u_inv_sq@),
            scalars_wf(s_vec@),
            u_sq@.len() == self.ipp_proof.l_vec@.len(),
            u_inv_sq@.len() == self.ipp_proof.l_vec@.len(),
            s_vec@.len() == n * value_commitments@.len(),
        ensures
            r == spec_verification_eq(
                *self,
                point_encs(value_commitments@),
                bp_gens.gens_capacity as int,
                n as int,
                value_commitments@.len() as int,
                y.v(),
                z.v(),
                x.v(),
                w.v(),
                c.v(),
                y_inv.v(),
                scalar_vals(u_sq@),
                scalar_vals(u_inv_sq@),
                scalar_vals(s_vec@),
            ),
    {
        let m = value_commitments.len();
        let k = self.ipp_proof.l_vec.len();
        let total = bp_gens.g_vec.len();
        proof {
            let cc = bp_gens.gens_capacity as int;
            let pp = bp_gens.party_capacity as int;
            assert(n * m <= cc * pp) by (nonlinear_arith)
                requires
                    0 <= n <= cc,
                    0 <= m <= pp,
            ;
        }
        let nm = n * m;
        let ghost sc_target = spec_mega_scalars(
            *self,
            n as int,
            m as int,
            y.v(),
            z.v(),
            x.v(),
            w.v(),
            c.v(),
            y_inv.v(),
            scalar_vals(u_sq@),
            scalar_vals(u_inv_sq@),
            scalar_vals(s_vec@),
        );
        let ghost pt_target = spec_mega_points(
            *self,
            point_encs(value_commitments@),
            bp_gens.gens_capacity as int,
            n as int,
            m as int,
        );

        let zero = Scalar::from_u64(0);
        let one = Scalar::from_u64(1);
        let zz = scalar_mul(z, z);
        let minus_z = scalar_sub(&zero, z);
        let ypows = powers(y, nm);
        let sum_y = sum_scalars(&ypows);
        let two = Scalar::from_u64(2);
        let exp2 = powers(&two, n);
        let sum_2 = sum_scalars(&exp2);
        let zpows = powers(z, m);
        let sum_z = sum_scalars(&zpows);
        let z3_sum = scalar_mul(&scalar_mul(z, &zz), &sum_z);
        let delta = scalar_sub(
            &scalar_mul(&scalar_sub(z, &zz), &sum_y),
            &scalar_mul(&z3_sum, &sum_2),
        );
        proof {
            assert(delta.v() == spec_delta(n as int, m as int, y.v(), z.v()));
        }
        let yinvpows = powers(y_inv, nm);
        proof {
            assert forall|q: int| 0 <= q < m implies (#[trigger] zpows@[q]).v() == spow(
                z.v(),
                q as nat,
            ) by {
                assert(scalar_vals(zpows@)[q] == zpows@[q].v());
            }
            assert forall|q: int| 0 <= q < n implies (#[trigger] exp2@[q]).v() == spow(
                2,
                q as nat,
            ) by {
                assert(scalar_vals(exp2@)[q] == exp2@[q].v());
            }
            assert forall|q: int| 0 <= q < nm implies (#[trigger] yinvpows@[q]).v() == spow(
                y_inv.v(),
                q as nat,
            ) by {
                assert(scalar_vals(yinvpows@)[q] == yinvpows@[q].v());
            }
        }

        let ab = scalar_mul(&self.ipp_proof.a, &self.ipp_proof.b);
        let b_coeff = scalar_add(
            &scalar_mul(w, &scalar_sub(&self.t_x, &ab)),
            &scalar_mul(c, &scalar_sub(&delta, &self.t_x)),
        );
        let bb_coeff = scalar_sub(
            &zero,
            &scalar_add(&self.e_blinding, &scalar_mul(c, &self.t_x_blinding)),
        );
        let cx = scalar_mul(c, x);
        let cxx = scalar_mul(&cx, x);

        let mut mega_scalars: Vec<Scalar> = Vec::new();
        mega_scalars.push(one.dup());
        mega_scalars.push(x.dup());
        mega_scalars.push(cx);
        mega_scalars.push(cxx);
        mega_scalars.push(bb_coeff);
        mega_scalars.push(b_coeff);
        proof {
            assert(scalar_vals(mega_scalars@) =~= sc_target.take(6));
        }
        let mut idx: usize = 0;
        while idx < nm
            invariant
                0 <= idx <= nm,
                self.wf(),
                z.wf(),
                minus_z.wf(),
                minus_z.v() == ssub(0, z.v()),
                nm == n * value_commitments@.len(),
                s_vec@.len() == nm,
                scalars_wf(s_vec@),
                sc_target.len() == 6 + 2 * nm + value_commitments@.len()
                    + 2 * self.ipp_proof.l_vec@.len(),
                forall|q: int| 6 <= q < 6 + nm ==> #[trigger] sc_target[q] == spec_g_coeff(
                    self.ipp_proof.a.v(),
                    z.v(),
                    scalar_vals(s_vec@),
                    q - 6,
                ),
                mega_scalars@.len() == 6 + idx,
                scalars_wf(mega_scalars@),
                scalar_vals(mega_scalars@) =~= sc_target.take(6 + idx),
            decreases nm - idx,
        {
            mega_scalars.push(scalar_sub(&minus_z, &scalar_mul(&self.ipp_proof.a, &s_vec[idx])));
            proof {
                assert(scalar_vals(mega_scalars@) =~= sc_target.take(6 + idx + 1));
            }
            idx = idx + 1;
        }
        let mut j: usize = 0;
        while j < m
            invariant
                0 <= j <= m,
                self.wf(),
                z.wf(),
                y_inv.wf(),
                zz.wf(),
                zz.v() == smul(z.v(), z.v()),
                m == value_commitments@.len(),
                nm == n * m,
                n >= 1,
                s_vec@.len() == nm,
                scalars_wf(s_vec@),
                zpows@.len() == m,
                scalars_wf(zpows@),
                forall|q: int| 0 <= q < m ==> (#[trigger] zpows@[q]).v() == spow(z.v(), q as nat),
                exp2@.len() == n,
                scalars_wf(exp2@),
                forall|q: int| 0 <= q < n ==> (#[trigger] exp2@[q]).v() == spow(2, q as nat),
                yinvpows@.len() == nm,
                scalars_wf(yinvpows@),
                forall|q: int| 0 <= q < nm ==> (#[trigger] yinvpows@[q]).v() == spow(
                    y_inv.v(),
                    q as nat,
                ),
                sc_target.len() == 6 + 2 * nm + m + 2 * self.ipp_proof.l_vec@.len(),
                forall|q: int| 6 + nm <= q < 6 + 2 * nm ==> #[trigger] sc_target[q]
                    == spec_h_coeff(
                    self.ipp_proof.b.v(),
                    z.v(),
                    y_inv.v(),
                    n as int,
                    nm as int,
                    scalar_vals(s_vec@),
                    q - 6 - nm,
                ),
                mega_scalars@.len() == 6 + nm + j * n,
                scalars_wf(mega_scalars@),
                scalar_vals(mega_scalars@) =~= sc_target.take(6 + nm + j * n),
            decreases m - j,
        {
            let zzzj = scalar_mul(&zz, &zpows[j]);
            proof {
                assert(j * n + n == (j + 1) * n && (j + 1) * n <= m * n && m * n == n * m)
                    by (nonlinear_arith)
                    requires
                        0 <= j < m,
                        n >= 1,
                ;
            }
            let mut i: usize = 0;
            while i < n
                invariant
                    0 <= i <= n,
                    0 <= j < m,
                    self.wf(),
                    z.wf(),
                    y_inv.wf(),
                    zzzj.wf(),
                    zzzj.v() == smul(smul(z.v(), z.v()), spow(z.v(), j as nat)),
                    m == value_commitments@.len(),
                    nm == n * m,
                    n >= 1,
                    j * n + n <= nm,
                    s_vec@.len() == nm,
                    scalars_wf(s_vec@),
                    exp2@.len() == n,
                    scalars_wf(exp2@),
                    forall|q: int| 0 <= q < n ==> (#[trigger] exp2@[q]).v() == spow(2, q as nat),
                    yinvpows@.len() == nm,
                    scalars_wf(yinvpows@),
                    forall|q: int| 0 <= q < nm ==> (#[trigger] yinvpows@[q]).v() == spow(
                        y_inv.v(),
                        q as nat,
                    ),
                    sc_target.len() == 6 + 2 * nm + m + 2 * self.ipp_proof.l_vec@.len(),
                    forall|q: int| 6 + nm <= q < 6 + 2 * nm ==> #[trigger] sc_target[q]
                        == spec_h_coeff(
                        self.ipp_proof.b.v(),
                        z.v(),
                        y_inv.v(),
                        n as int,
                        nm as int,
                        scalar_vals(s_vec@),
                        q - 6 - nm,
                    ),
                    mega_scalars@.len() == 6 + nm + j * n + i,
                    scalars_wf(mega_scalars@),
                    scalar_vals(mega_scalars@) =~= sc_target.take(6 + nm + j * n + i),
                decreases n - i,
            {
                let pos = j * n + i;
                let h_coeff = scalar_add(
                    z,
                    &scalar_mul(
                        &yinvpows[pos],
                        &scalar_sub(
                            &scalar_mul(&zzzj, &exp2[i]),
                            &scalar_mul(&self.ipp_proof.b, &s_vec[nm - 1 - pos]),
                        ),
                    ),
                );
                mega_scalars.push(h_coeff);
                proof {
                    vstd::arithmetic::div_mod::lemma_fundamental_div_mod_converse(
                        pos as int,
                        n as int,
                        j as int,
                        i as int,
                    );
                    assert(sc_target[6 + nm + pos] == spec_h_coeff(
                        self.ipp_proof.b.v(),
                        z.v(),
                        y_inv.v(),
                        n as int,
                        nm as int,
                        scalar_vals(s_vec@),
                        pos as int,
                    ));
                    assert(scalar_vals(mega_scalars@) =~= sc_target.take(6 + nm + pos + 1));
                }
                i = i + 1;
            }
            j = j + 1;
        }
        proof {
            assert(m * n == n * m) by (nonlinear_arith);
        }
        j = 0;
        while j < m
            invariant
                0 <= j <= m,
                c.wf(),
                z.wf(),
                zz.wf(),
                zz.v() == smul(z.v(), z.v()),
                m == value_commitments@.len(),
                nm == n * m,
                zpows@.len() == m,
                scalars_wf(zpows@),
                forall|q: int| 0 <= q < m ==> (#[trigger] zpows@[q]).v() == spow(z.v(), q as nat),
                sc_target.len() == 6 + 2 * nm + m + 2 * self.ipp_proof.l_vec@.len(),
                forall|q: int| 6 + 2 * nm <= q < 6 + 2 * nm + m ==> #[trigger] sc_target[q]
                    == spec_v_coeff(c.v(), z.v(), q - 6 - 2 * nm),
                mega_scalars@.len() == 6 + 2 * nm + j,
                scalars_wf(mega_scalars@),
                scalar_vals(mega_scalars@) =~= sc_target.take(6 + 2 * nm + j),
            decreases m - j,
        {
            mega_scalars.push(scalar_mul(c, &scalar_mul(&zz, &zpows[j])));
            proof {
                assert(scalar_vals(mega_scalars@) =~= sc_target.take(6 + 2 * nm + j + 1));
            }
            j = j + 1;
        }
        j = 0;
        while j < k
            invariant
                0 <= j <= k,
                k == self.ipp_proof.l_vec@.len(),
                m == value_commitments@.len(),
                nm == n * m,
                u_sq@.len() == k,
                u_inv_sq@.len() == k,
                scalars_wf(u_sq@),
                scalars_wf(u_inv_sq@),
                sc_target.len() == 6 + 2 * nm + m + 2 * k,
                forall|q: int| 6 + 2 * nm + m <= q < 6 + 2 * nm + m + 2 * k
                    ==> #[trigger] sc_target[q] == (if (q - 6 - 2 * nm - m) % 2 == 0 {
                    scalar_vals(u_sq@)[(q - 6 - 2 * nm - m) / 2]
                } else {
                    scalar_vals(u_inv_sq@)[(q - 6 - 2 * nm - m) / 2]
                }),
                mega_scalars@.len() == 6 + 2 * nm + m + 2 * j,
                scalars_wf(mega_scalars@),
                scalar_vals(mega_scalars@) =~= sc_target.take(6 + 2 * nm + m + 2 * j),
            decreases k - j,
        {
            mega_scalars.push(u_sq[j].dup());
            proof {
                assert((2 * j) % 2 == 0 && (2 * j) / 2 == j as int);
                assert(sc_target[6 + 2 * nm + m + 2 * j] == scalar_vals(u_sq@)[j as int]);
                assert(scalar_vals(mega_scalars@) =~= sc_target.take(6 + 2 * nm + m + 2 * j + 1));
            }
            mega_scalars.push(u_inv_sq[j].dup());
            proof {
                assert((2 * j + 1) % 2 == 1 && (2 * j + 1) / 2 == j as int);
                assert(sc_target[6 + 2 * nm + m + 2 * j + 1] == scalar_vals(u_inv_sq@)[j as int]);
                assert(scalar_vals(mega_scalars@) =~= sc_target.take(6 + 2 * nm + m + 2 * j + 2));
            }
            j = j + 1;
        }
        proof {
            assert(scalar_vals(mega_scalars@) =~= sc_target);
        }

        let mut mega_points: Vec<GroupElem> = Vec::new();
        mega_points.push(self.a_commit.dup());
        mega_points.push(self.s_commit.dup());
        mega_points.push(self.t_1.dup());
        mega_points.push(self.t_2.dup());
        mega_points.push(pc_gens.b_blinding.dup());
        mega_points.push(pc_gens.b.dup());
        proof {
            assert(point_encs(mega_points@) =~= pt_target.take(6));
        }
        j = 0;
        while j < m
            invariant
                0 <= j <= m,
                bp_gens.wf(),
                1 <= n <= bp_gens.gens_capacity,
                m == value_commitments@.len(),
                m <= bp_gens.party_capacity,
                nm == n * m,
                total == bp_gens.g_vec@.len(),
                total == bp_gens.h_vec@.len(),
                pt_target.len() == 6 + 2 * nm + m + 2 * self.ipp_proof.l_vec@.len(),
                forall|q: int| 6 <= q < 6 + nm ==> #[trigger] pt_target[q] == spec_gen_at(
                    fam_g(),
                    bp_gens.gens_capacity as int,
                    n as int,
                    q - 6,
                ),
                mega_points@.len() == 6 + j * n,
                points_wf(mega_points@),
                point_encs(mega_points@) =~= pt_target.take(6 + j * n),
            decreases m - j,
        {
            proof {
                let cc = bp_gens.gens_capacity as int;
                let pp = bp_gens.party_capacity as int;
                assert((j + 1) * cc <= pp * cc && pp * cc == cc * pp) by (nonlinear_arith)
                    requires
                        0 <= j < pp,
                        cc >= 0,
                ;
                assert(j * cc <= (j + 1) * cc && j * cc + cc == (j + 1) * cc) by (nonlinear_arith)
                    requires
                        cc >= 0,
                        j >= 0,
                ;
                assert(j * n + n == (j + 1) * n && (j + 1) * n <= m * n && m * n == n * m)
                    by (nonlinear_arith)
                    requires
                        0 <= j < m,
                        n >= 1,
                ;
            }
            let base = j * bp_gens.gens_capacity;
            let mut i: usize = 0;
            while i < n
                invariant
                    0 <= i <= n,
                    0 <= j < m,
                    bp_gens.wf(),
                    1 <= n <= bp_gens.gens_capacity,
                    m == value_commitments@.len(),
                    nm == n * m,
                    j * n + n <= nm,
                    base == j * bp_gens.gens_capacity,
                    base + bp_gens.gens_capacity <= total,
                    total == bp_gens.g_vec@.len(),
                    pt_target.len() == 6 + 2 * nm + m + 2 * self.ipp_proof.l_vec@.len(),
                    forall|q: int| 6 <= q < 6 + nm ==> #[trigger] pt_target[q] == spec_gen_at(
                        fam_g(),
                        bp_gens.gens_capacity as int,
                        n as int,
                        q - 6,
                    ),
                    mega_points@.len() == 6 + j * n + i,
                    points_wf(mega_points@),
                    point_encs(mega_points@) =~= pt_target.take(6 + j * n + i),
                decreases n - i,
            {
                let pos = j * n + i;
                mega_points.push(bp_gens.g_vec[base + i].dup());
                proof {
                    vstd::arithmetic::div_mod::lemma_fundamental_div_mod_converse(
                        pos as int,
                        n as int,
                        j as int,
                        i as int,
                    );
                    assert(pt_target[6 + pos] == gen_enc(
                        fam_g(),
                        ((pos as int / n as int) * bp_gens.gens_capacity + (pos as int % n as int)) as u64,
                    ));
                    assert(point_encs(mega_points@) =~= pt_target.take(6 + pos + 1));
                }
                i = i + 1;
            }
            j = j + 1;
        }
        j = 0;
        while j < m
            invariant
                0 <= j <= m,
                bp_gens.wf(),
                1 <= n <= bp_gens.gens_capacity,
                m == value_commitments@.len(),
                m <= bp_gens.party_capacity,
                nm == n * m,
                total == bp_gens.g_vec@.len(),
                total == bp_gens.h_vec@.len(),
                pt_target.len() == 6 + 2 * nm + m + 2 * self.ipp_proof.l_vec@.len(),
                forall|q: int| 6 + nm <= q < 6 + 2 * nm ==> #[trigger] pt_target[q] == spec_gen_at(
                    fam_h(),
                    bp_gens.gens_capacity as int,
                    n as int,
                    q - 6 - nm,
                ),
                mega_points@.len() == 6 + nm + j * n,
                points_wf(mega_points@),
                point_encs(mega_points@) =~= pt_target.take(6 + nm + j * n),
            decreases m - j,
        {
            proof {
                let cc = bp_gens.gens_capacity as int;
                let pp = bp_gens.party_capacity as int;
                assert((j + 1) * cc <= pp * cc && pp * cc == cc * pp) by (nonlinear_arith)
                    requires
                        0 <= j < pp,
                        cc >= 0,
                ;
                assert(j * cc <= (j + 1) * cc && j * cc + cc == (j + 1) * cc) by (nonlinear_arith)
                    requires
                        cc >= 0,
                        j >= 0,
                ;
                assert(j * n + n == (j + 1) * n && (j + 1) * n <= m * n && m * n == n * m)
                    by (nonlinear_arith)
                    requires
                        0 <= j < m,
                        n >= 1,
                ;
            }
            let base = j * bp_gens.gens_capacity;
            let mut i: usize = 0;
            while i < n
                invariant
                    0 <= i <= n,
                    0 <= j < m,
                    bp_gens.wf(),
                    1 <= n <= bp_gens.gens_capacity,
                    m == value_commitments@.len(),
                    nm == n * m,
                    j * n + n <= nm,
                    base == j * bp_gens.gens_capacity,
                    base + bp_gens.gens_capacity <= total,
                    total == bp_gens.h_vec@.len(),
                    pt_target.len() == 6 + 2 * nm + m + 2 * self.ipp_proof.l_vec@.len(),
                    forall|q: int| 6 + nm <= q < 6 + 2 * nm ==> #[trigger] pt_target[q]
                        == spec_gen_at(
                        fam_h(),
                        bp_gens.gens_capacity as int,
                        n as int,
                        q - 6 - nm,
                    ),
                    mega_points@.len() == 6 + nm + j * n + i,
                    points_wf(mega_points@),
                    point_encs(mega_points@) =~= pt_target.take(6 + nm + j * n + i),
                decreases n - i,
            {
                let pos = j * n + i;
                mega_points.push(bp_gens.h_vec[base + i].dup());
                proof {
                    vstd::arithmetic::div_mod::lemma_fundamental_div_mod_converse(
                        pos as int,
                        n as int,
                        j as int,
                        i as int,
                    );
                    assert(pt_target[6 + nm + pos] == gen_enc(
                        fam_h(),
                        ((pos as int / n as int) * bp_gens.gens_capacity + (pos as int % n as int)) as u64,
                    ));
                    assert(point_encs(mega_points@) =~= pt_target.take(6 + nm + pos + 1));
                }
                i = i + 1;
            }
            j = j + 1;
        }
        proof {
            assert(m * n == n * m) by (nonlinear_arith);
        }
        j = 0;
        while j < m
            invariant
                0 <= j <= m,
                m == value_commitments@.len(),
                points_wf(value_commitments@),
                nm == n * m,
                pt_target.len() == 6 + 2 * nm + m + 2 * self.ipp_proof.l_vec@.len(),
                forall|q: int| 6 + 2 * nm <= q < 6 + 2 * nm + m ==> #[trigger] pt_target[q]
                    == point_encs(value_commitments@)[q - 6 - 2 * nm],
                mega_points@.len() == 6 + 2 * nm + j,
                points_wf(mega_points@),
                point_encs(mega_points@) =~= pt_target.take(6 + 2 * nm + j),
            decreases m - j,
        {
            mega_points.push(value_commitments[j].dup());
            proof {
                assert(point_encs(mega_points@) =~= pt_target.take(6 + 2 * nm + j + 1));
            }
            j = j + 1;
        }
        j = 0;
        while j < k
            invariant
                0 <= j <= k,
                self.wf(),
                k == self.ipp_proof.l_vec@.len(),
                k == self.ipp_proof.r_vec@.len(),
                m == value_commitments@.len(),
                nm == n * m,
                pt_target.len() == 6 + 2 * nm + m + 2 * k,
                forall|q: int| 6 + 2 * nm + m <= q < 6 + 2 * nm + m + 2 * k
                    ==> #[trigger] pt_target[q] == (if (q - 6 - 2 * nm - m) % 2 == 0 {
                    self.ipp_proof.l_vec@[(q - 6 - 2 * nm - m) / 2].bytes@
                } else {
                    self.ipp_proof.r_vec@[(q - 6 - 2 * nm - m) / 2].bytes@
                }),
                mega_points@.len() == 6 + 2 * nm + m + 2 * j,
                points_wf(mega_points@),
                point_encs(mega_points@) =~= pt_target.take(6 + 2 * nm + m + 2 * j),
            decreases k - j,
        {
            mega_points.push(self.ipp_proof.l_vec[j].dup());
            proof {
                assert((2 * j) % 2 == 0 && (2 * j) / 2 == j as int);
                assert(pt_target[6 + 2 * nm + m + 2 * j] == self.ipp_proof.l_vec@[j as int].bytes@);
                assert(point_encs(mega_points@) =~= pt_target.take(6 + 2 * nm + m + 2 * j + 1));
            }
            mega_points.push(self.ipp_proof.r_vec[j].dup());
            proof {
                assert((2 * j + 1) % 2 == 1 && (2 * j + 1) / 2 == j as int);
                assert(pt_target[6 + 2 * nm + m + 2 * j + 1] == self.ipp_proof.r_vec@[j as int].bytes@);
                assert(point_encs(mega_points@) =~= pt_target.take(6 + 2 * nm + m + 2 * j + 2));
            }
            j = j + 1;
        }
        proof {
            assert(point_encs(mega_points@) =~= pt_target);
        }

        let mega = crate::points::msm(&mega_scalars, &mega_points);
        is_identity(&mega)
    }
}


/// Each 32-byte encoding in a concatenation stands at its own offset.
pub proof fn lemma_concat_encs_index(s: Seq<GroupElem>, r: int)
    requires
        forall|i: int| 0 <= i < s.len() ==> (#[trigger] s[i]).bytes@.len() == 32,
        0 <= r < s.len(),
    ensures
        concat_encs(s).subrange(32 * r, 32 * r + 32) == s[r].bytes@,
    decreases s.len(),
{
    lemma_concat_encs_len(s);
    lemma_concat_encs_len(s.drop_last());
    if r == s.len() - 1 {
        assert(concat_encs(s).subrange(32 * r, 32 * r + 32) =~= s[r].bytes@);
    } else {
        lemma_concat_encs_index(s.drop_last(), r);
        assert(concat_encs(s).subrange(32 * r, 32 * r + 32) =~= concat_encs(
            s.drop_last(),
        ).subrange(32 * r, 32 * r + 32));
    }
}

impl RangeProof {
    /// Each component of a well-formed proof stands at its fixed offset of
    /// the canonical serialization.
    pub proof fn lemma_spec_bytes_chunks(&self)
        requires
            self.wf(),
        ensures
            ({
                let b = self.spec_bytes();
                let k = self.ipp_proof.l_vec@.len() as int;
                &&& b.len() == 288 + 64 * k
                &&& b.subrange(0, 32) == self.a_commit.bytes@
                &&& b.subrange(32, 64) == self.s_commit.bytes@
                &&& b.subrange(64, 96) == self.t_1.bytes@
                &&& b.subrange(96, 128) == self.t_2.bytes@
                &&& b.subrange(128, 160) == self.t_x.bytes@
                &&& b.subrange(160, 192) == self.t_x_blinding.bytes@
                &&& b.subrange(192, 224) == self.e_blinding.bytes@
                &&& (forall|i: int| 0 <= i < k ==> #[trigger] b.subrange(
                    224 + 32 * i,
                    256 + 32 * i,
                ) == self.ipp_proof.l_vec@[i].bytes@)
                &&& (forall|i: int| 0 <= i < k ==> #[trigger] b.subrange(
                    224 + 32 * (k + i),
                    256 + 32 * (k + i),
                ) == self.ipp_proof.r_vec@[i].bytes@)
                &&& b.subrange(b.len() - 64, b.len() - 32) == self.ipp_proof.a.bytes@
                &&& b.subrange(b.len() - 32, b.len() as int) == self.ipp_proof.b.bytes@
            }),
    {
        let b = self.spec_bytes();
        let k = self.ipp_proof.l_vec@.len() as int;
        let cl = concat_encs(self.ipp_proof.l_vec@);
        let cr = concat_encs(self.ipp_proof.r_vec@);
        lemma_concat_encs_len(self.ipp_proof.l_vec@);
        lemma_concat_encs_len(self.ipp_proof.r_vec@);
        self.lemma_serialized_size();
        assert(b.subrange(0, 32) =~= self.a_commit.bytes@);
        assert(b.subrange(32, 64) =~= self.s_commit.bytes@);
        assert(b.subrange(64, 96) =~= self.t_1.bytes@);
        assert(b.subrange(96, 128) =~= self.t_2.bytes@);
        assert(b.subrange(128, 160) =~= self.t_x.bytes@);
        assert(b.subrange(160, 192) =~= self.t_x_blinding.bytes@);
        assert(b.subrange(192, 224) =~= self.e_blinding.bytes@);
        assert forall|i: int| 0 <= i < k implies #[trigger] b.subrange(
            224 + 32 * i,
            256 + 32 * i,
        ) == self.ipp_proof.l_vec@[i].bytes@ by {
            lemma_concat_encs_index(self.ipp_proof.l_vec@, i);
            assert(b.subrange(224 + 32 * i, 256 + 32 * i) =~= cl.subrange(32 * i, 32 * i + 32));
        }
        assert forall|i: int| 0 <= i < k implies #[trigger] b.subrange(
            224 + 32 * (k + i),
            256 + 32 * (k + i),
        ) == self.ipp_proof.r_vec@[i].bytes@ by {
            lemma_concat_encs_index(self.ipp_proof.r_vec@, i);
            assert(b.subrange(224 + 32 * (k + i), 256 + 32 * (k + i)) =~= cr.subrange(
                32 * i,
                32 * i + 32,
            ));
        }
        assert(b.subrange(b.len() - 64, b.len() - 32) =~= self.ipp_proof.a.bytes@);
        assert(b.subrange(b.len() - 32, b.len() as int) =~= self.ipp_proof.b.bytes@);
    }

    /// Law, encoding side of the round trip: the serialization of any
    /// well-formed proof is accepted by the decoder.
    pub proof fn lemma_encode_parses(&self)
        requires
            self.wf(),
        ensures
            parses(self.spec_bytes()),
    {
        let b = self.spec_bytes();
        let k = self.ipp_proof.l_vec@.len() as int;
        self.lemma_spec_bytes_chunks();
        assert((b.len() - 288) % 64 == 0 && (b.len() - 288) / 64 == k) by (nonlinear_arith)
            requires
                b.len() == 288 + 64 * k,
                k >= 0,
        ;
        assert forall|r: int| 0 <= r < 2 * k implies point_ok(
            #[trigger] b.subrange(224 + 32 * r, 256 + 32 * r),
        ) by {
            if r < k {
                assert(b.subrange(224 + 32 * r, 256 + 32 * r)
                    == self.ipp_proof.l_vec@[r].bytes@);
            } else {
                assert(b.subrange(224 + 32 * (k + (r - k)), 256 + 32 * (k + (r - k)))
                    == self.ipp_proof.r_vec@[r - k].bytes@);
                assert(224 + 32 * (k + (r - k)) == 224 + 32 * r);
            }
        }
    }

    /// Law, uniqueness side of the round trip: the canonical encoding is
    /// injective, so decoding a serialized proof returns a proof whose every
    /// component equals the original's. Together with `lemma_encode_parses`
    /// and the decoder's contract, decode after encode is the identity.
    pub proof fn lemma_codec_round_trip(&self, other: &RangeProof)
        requires
            self.wf(),
            other.wf(),
            self.spec_bytes() == other.spec_bytes(),
        ensures
            self.a_commit.bytes@ == other.a_commit.bytes@,
            self.s_commit.bytes@ == other.s_commit.bytes@,
            self.t_1.bytes@ == other.t_1.bytes@,
            self.t_2.bytes@ == other.t_2.bytes@,
            self.t_x.bytes@ == other.t_x.bytes@,
            self.t_x_blinding.bytes@ == other.t_x_blinding.bytes@,
            self.e_blinding.bytes@ == other.e_blinding.bytes@,
            self.ipp_proof.l_vec@.len() == other.ipp_proof.l_vec@.len(),
            forall|i: int| 0 <= i < self.ipp_proof.l_vec@.len()
                ==> (#[trigger] self.ipp_proof.l_vec@[i]).bytes@
                == other.ipp_proof.l_vec@[i].bytes@,
            forall|i: int| 0 <= i < self.ipp_proof.r_vec@.len()
                ==> (#[trigger] self.ipp_proof.r_vec@[i]).bytes@
                == other.ipp_proof.r_vec@[i].bytes@,
            self.ipp_proof.a.bytes@ == other.ipp_proof.a.bytes@,
            self.ipp_proof.b.bytes@ == other.ipp_proof.b.bytes@,
    {
        self.lemma_spec_bytes_chunks();
        other.lemma_spec_bytes_chunks();
        let k = self.ipp_proof.l_vec@.len() as int;
        assert forall|i: int| 0 <= i < k implies (#[trigger] self.ipp_proof.l_vec@[i]).bytes@
            == other.ipp_proof.l_vec@[i].bytes@ by {
            assert(self.spec_bytes().subrange(224 + 32 * i, 256 + 32 * i)
                == self.ipp_proof.l_vec@[i].bytes@);
            assert(other.spec_bytes().subrange(224 + 32 * i, 256 + 32 * i)
                == other.ipp_proof.l_vec@[i].bytes@);
        }
        assert forall|i: int| 0 <= i < k implies (#[trigger] self.ipp_proof.r_vec@[i]).bytes@
            == other.ipp_proof.r_vec@[i].bytes@ by {
            assert(self.spec_bytes().subrange(224 + 32 * (k + i), 256 + 32 * (k + i))
                == self.ipp_proof.r_vec@[i].bytes@);
            assert(other.spec_bytes().subrange(224 + 32 * (k + i), 256 + 32 * (k + i))
                == other.ipp_proof.r_vec@[i].bytes@);
        }
    }
}

} // verus!
