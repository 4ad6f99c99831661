use vstd::prelude::*;
use crate::errors::MPCError;
use crate::generators::{fam_g, fam_h, fam_pedersen_b, fam_pedersen_b_blinding, gen_enc, BulletproofGens, PedersenGens};
use crate::inner_product_proof::InnerProductProof;
use crate::messages::{BitChallenge, BitCommitment, PolyChallenge, PolyCommitment, ProofShare};
use crate::points::{identity_enc, is_identity, msm, points_wf, scalar_vals, scalars_wf, GroupElem};
use crate::range_proof::RangeProof;
use crate::scalar::{sadd, smul, spow, ssub, scalar_add, scalar_eq, scalar_invert, scalar_mul, scalar_sub, Scalar};
use crate::transcript::{append_point, append_scalar, append_u64, challenge_scalar};
use crate::points::msm_of;
use crate::util::{
    extend_scalars, inner_product, ip, is_pow2, log2, check_pow2, lemma_pow2_mul, msm1, ones_seq,
    powers, slice_scalars, ssum, sum_points, sum_pows, sum_scalars,
};

verus! {

/// Whether the dealer parameters are acceptable: a supported bit width, a
/// power-of-two party count, and generators large enough for both.
pub open spec fn dealer_params_ok(bp_gens: BulletproofGens, n: int, m: int) -> bool {
    &&& (n == 8 || n == 16 || n == 32 || n == 64)
    &&& is_pow2(m as nat)
    &&& n <= bp_gens.gens_capacity
    &&& m <= bp_gens.party_capacity
}

/// The dealer role of the aggregation protocol: coordinates the rounds,
/// audits the parties' shares, and assembles the final proof. It never sees
/// a party's secret value or blinding.
pub struct Dealer {}

impl Dealer {
    /// Starts an aggregation for `m` parties at bit width `n`, absorbing the
    /// protocol parameters into the transcript.
    pub fn new<'a>(
        bp_gens: &'a BulletproofGens,
        pc_gens: &'a PedersenGens,
        transcript: &mut merlin::Transcript,
        n: usize,
        m: usize,
    ) -> (r: Result<DealerAwaitingBitCommitments<'a>, MPCError>)
        requires
            bp_gens.wf(),
            pc_gens.wf(),
        ensures
            r is Ok <==> dealer_params_ok(*bp_gens, n as int, m as int),
            !(n == 8 || n == 16 || n == 32 || n == 64)
                ==> r == Err::<DealerAwaitingBitCommitments<'a>, MPCError>(
                MPCError::InvalidBitsize,
            ),
            ((n == 8 || n == 16 || n == 32 || n == 64) && !is_pow2(m as nat))
                ==> r == Err::<DealerAwaitingBitCommitments<'a>, MPCError>(
                MPCError::InvalidAggregation,
            ),
            ((n == 8 || n == 16 || n == 32 || n == 64) && is_pow2(m as nat)
                && !(n <= bp_gens.gens_capacity && m <= bp_gens.party_capacity))
                ==> r == Err::<DealerAwaitingBitCommitments<'a>, MPCError>(
                MPCError::InvalidGeneratorsLength,
            ),
            r matches Ok(d) ==> d.wf() && d.n == n && d.m == m,
    {
        if !(n == 8 || n == 16 || n == 32 || n == 64) {
            return Err(MPCError::InvalidBitsize);
        }
        if !check_pow2(m) {
            return Err(MPCError::InvalidAggregation);
        }
        if !(n <= bp_gens.gens_capacity && m <= bp_gens.party_capacity) {
            return Err(MPCError::InvalidGeneratorsLength);
        }
        append_u64(transcript, "dom-sep rangeproof n", n as u64);
        append_u64(transcript, "dom-sep rangeproof m", m as u64);
        Ok(DealerAwaitingBitCommitments { bp_gens, pc_gens, n, m })
    }
}

/// A dealer waiting for the parties' round-one commitments.
pub struct DealerAwaitingBitCommitments<'a> {
    pub bp_gens: &'a BulletproofGens,
    pub pc_gens: &'a PedersenGens,
    pub n: usize,
    pub m: usize,
}

impl<'a> DealerAwaitingBitCommitments<'a> {
    pub open spec fn wf(&self) -> bool {
        &&& self.bp_gens.wf()
        &&& self.pc_gens.wf()
        &&& dealer_params_ok(*self.bp_gens, self.n as int, self.m as int)
    }

    /// Absorbs the value commitments and the merged `A`, `S` into the
    /// transcript and draws the `y`, `z` challenges.
    pub fn receive_bit_commitments(
        self,
        transcript: &mut merlin::Transcript,
        bit_commitments: Vec<BitCommitment>,
    ) -> (r: Result<(DealerAwaitingPolyCommitments<'a>, BitChallenge), MPCError>)
        requires
            self.wf(),
            forall|j: int| 0 <= j < bit_commitments@.len()
                ==> (#[trigger] bit_commitments@[j]).wf(),
        ensures
            r is Ok <==> bit_commitments@.len() == self.m,
            r is Err ==> r == Err::<(DealerAwaitingPolyCommitments<'a>, BitChallenge), MPCError>(
                MPCError::WrongNumBitCommitments,
            ),
            r matches Ok((d, ch)) ==> d.wf() && ch.wf() && d.n == self.n && d.m == self.m
                && d.y.bytes@ == ch.y.bytes@ && d.z.bytes@ == ch.z.bytes@
                && d.a_commit.bytes@ == msm_of(
                ones_seq(self.m as nat),
                Seq::new(self.m as nat, |j: int| bit_commitments@[j].a_j.bytes@),
            ) && d.s_commit.bytes@ == msm_of(
                ones_seq(self.m as nat),
                Seq::new(self.m as nat, |j: int| bit_commitments@[j].s_j.bytes@),
            ),
    {
        if bit_commitments.len() != self.m {
            return Err(MPCError::WrongNumBitCommitments);
        }
        let m = self.m;
        let mut j: usize = 0;
        while j < m
            invariant
                0 <= j <= m,
                bit_commitments@.len() == m,
                forall|k: int| 0 <= k < m ==> (#[trigger] bit_commitments@[k]).wf(),
            decreases m - j,
        {
            append_point(transcript, "V", &bit_commitments[j].v_j);
            j = j + 1;
        }
        let mut a_pts: Vec<GroupElem> = Vec::new();
        let mut s_pts: Vec<GroupElem> = Vec::new();
        j = 0;
        while j < m
            invariant
                0 <= j <= m,
                bit_commitments@.len() == m,
                forall|k: int| 0 <= k < m ==> (#[trigger] bit_commitments@[k]).wf(),
                a_pts@.len() == j,
                s_pts@.len() == j,
                points_wf(a_pts@),
                points_wf(s_pts@),
                forall|k: int| 0 <= k < j ==> (#[trigger] a_pts@[k]).bytes@
                    == bit_commitments@[k].a_j.bytes@,
                forall|k: int| 0 <= k < j ==> (#[trigger] s_pts@[k]).bytes@
                    == bit_commitments@[k].s_j.bytes@,
            decreases m - j,
        {
            a_pts.push(bit_commitments[j].a_j.dup());
            s_pts.push(bit_commitments[j].s_j.dup());
            j = j + 1;
        }
        proof {
            assert(crate::points::point_encs(a_pts@) =~= Seq::new(
                m as nat,
                |jj: int| bit_commitments@[jj].a_j.bytes@,
            ));
            assert(crate::points::point_encs(s_pts@) =~= Seq::new(
                m as nat,
                |jj: int| bit_commitments@[jj].s_j.bytes@,
            ));
        }
        let a = sum_points(&a_pts);
        let s = sum_points(&s_pts);
        append_point(transcript, "A", &a);
        append_point(transcript, "S", &s);
        let y = challenge_scalar(transcript, "y");
        let z = challenge_scalar(transcript, "z");
        let next = DealerAwaitingPolyCommitments {
            bp_gens: self.bp_gens,
            pc_gens: self.pc_gens,
            n: self.n,
            m: self.m,
            bit_commitments,
            y: y.dup(),
            z: z.dup(),
            a_commit: a,
            s_commit: s,
        };
        Ok((next, BitChallenge { y, z }))
    }
}

/// A dealer waiting for the parties' round-two polynomial commitments.
pub struct DealerAwaitingPolyCommitments<'a> {
    pub bp_gens: &'a BulletproofGens,
    pub pc_gens: &'a PedersenGens,
    pub n: usize,
    pub m: usize,
    pub bit_commitments: Vec<BitCommitment>,
    pub y: Scalar,
    pub z: Scalar,
    pub a_commit: GroupElem,
    pub s_commit: GroupElem,
}

impl<'a> DealerAwaitingPolyCommitments<'a> {
    pub open spec fn wf(&self) -> bool {
        &&& self.bp_gens.wf()
        &&& self.pc_gens.wf()
        &&& dealer_params_ok(*self.bp_gens, self.n as int, self.m as int)
        &&& self.bit_commitments@.len() == self.m
        &&& forall|j: int| 0 <= j < self.m ==> (#[trigger] self.bit_commitments@[j]).wf()
        &&& self.y.wf()
        &&& self.z.wf()
        &&& self.a_commit.wf()
        &&& self.s_commit.wf()
    }

    /// Absorbs the merged `T_1`, `T_2` into the transcript and draws the `x`
    /// challenge.
    pub fn receive_poly_commitments(
        self,
        transcript: &mut merlin::Transcript,
        poly_commitments: Vec<PolyCommitment>,
    ) -> (r: Result<(DealerAwaitingProofShares<'a>, PolyChallenge), MPCError>)
        requires
            self.wf(),
            forall|j: int| 0 <= j < poly_commitments@.len()
                ==> (#[trigger] poly_commitments@[j]).wf(),
        ensures
            r is Ok <==> poly_commitments@.len() == self.m,
            r is Err ==> r == Err::<(DealerAwaitingProofShares<'a>, PolyChallenge), MPCError>(
                MPCError::WrongNumPolyCommitments,
            ),
            r matches Ok((d, ch)) ==> d.wf() && ch.wf() && d.n == self.n && d.m == self.m
                && d.x.bytes@ == ch.x.bytes@ && d.t_1.bytes@ == msm_of(
                ones_seq(self.m as nat),
                Seq::new(self.m as nat, |j: int| poly_commitments@[j].t1_j.bytes@),
            ) && d.t_2.bytes@ == msm_of(
                ones_seq(self.m as nat),
                Seq::new(self.m as nat, |j: int| poly_commitments@[j].t2_j.bytes@),
            ),
    {
        if poly_commitments.len() != self.m {
            return Err(MPCError::WrongNumPolyCommitments);
        }
        let m = self.m;
        let mut t1_pts: Vec<GroupElem> = Vec::new();
        let mut t2_pts: Vec<GroupElem> = Vec::new();
        let mut j: usize = 0;
        while j < m
            invariant
                0 <= j <= m,
                poly_commitments@.len() == m,
                forall|k: int| 0 <= k < m ==> (#[trigger] poly_commitments@[k]).wf(),
                t1_pts@.len() == j,
                t2_pts@.len() == j,
                points_wf(t1_pts@),
                points_wf(t2_pts@),
                forall|k: int| 0 <= k < j ==> (#[trigger] t1_pts@[k]).bytes@
                    == poly_commitments@[k].t1_j.bytes@,
                forall|k: int| 0 <= k < j ==> (#[trigger] t2_pts@[k]).bytes@
                    == poly_commitments@[k].t2_j.bytes@,
            decreases m - j,
        {
            t1_pts.push(poly_commitments[j].t1_j.dup());
            t2_pts.push(poly_commitments[j].t2_j.dup());
            j = j + 1;
        }
        proof {
            assert(crate::points::point_encs(t1_pts@) =~= Seq::new(
                m as nat,
                |jj: int| poly_commitments@[jj].t1_j.bytes@,
            ));
            assert(crate::points::point_encs(t2_pts@) =~= Seq::new(
                m as nat,
                |jj: int| poly_commitments@[jj].t2_j.bytes@,
            ));
        }
        let t_1 = sum_points(&t1_pts);
        let t_2 = sum_points(&t2_pts);
        append_point(transcript, "T_1", &t_1);
        append_point(transcript, "T_2", &t_2);
        let x = challenge_scalar(transcript, "x");
        let next = DealerAwaitingProofShares {
            bp_gens: self.bp_gens,
            pc_gens: self.pc_gens,
            n: self.n,
            m: self.m,
            bit_commitments: self.bit_commitments,
            poly_commitments,
            y: self.y,
            z: self.z,
            x: x.dup(),
            a_commit: self.a_commit,
            s_commit: self.s_commit,
            t_1,
            t_2,
        };
        Ok((next, PolyChallenge { x }))
    }
}

/// A dealer waiting for the parties' round-three proof shares.
pub struct DealerAwaitingProofShares<'a> {
    pub bp_gens: &'a BulletproofGens,
    pub pc_gens: &'a PedersenGens,
    pub n: usize,
    pub m: usize,
    pub bit_commitments: Vec<BitCommitment>,
    pub poly_commitments: Vec<PolyCommitment>,
    pub y: Scalar,
    pub z: Scalar,
    pub x: Scalar,
    pub a_commit: GroupElem,
    pub s_commit: GroupElem,
    pub t_1: GroupElem,
    pub t_2: GroupElem,
}

impl<'a> DealerAwaitingProofShares<'a> {
    pub open spec fn wf(&self) -> bool {
        &&& self.bp_gens.wf()
        &&& self.pc_gens.wf()
        &&& dealer_params_ok(*self.bp_gens, self.n as int, self.m as int)
        &&& self.bit_commitments@.len() == self.m
        &&& forall|j: int| 0 <= j < self.m ==> (#[trigger] self.bit_commitments@[j]).wf()
        &&& self.poly_commitments@.len() == self.m
        &&& forall|j: int| 0 <= j < self.m ==> (#[trigger] self.poly_commitments@[j]).wf()
        &&& self.y.wf()
        &&& self.z.wf()
        &&& self.x.wf()
        &&& self.a_commit.wf()
        &&& self.s_commit.wf()
        &&& self.t_1.wf()
        &&& self.t_2.wf()
    }

    /// Whether every share is consistent with its party's commitments under
    /// this dealer's challenges and the given inverse of `y`.
    pub open spec fn all_shares_consistent(&self, proof_shares: Seq<ProofShare>, yi: nat) -> bool {
        forall|q: int| 0 <= q < self.m ==> spec_share_consistent(
            self.bit_commitments@[q],
            self.poly_commitments@[q],
            #[trigger] proof_shares[q],
            self.bp_gens.gens_capacity as int,
            self.n as int,
            q,
            self.y.v(),
            self.z.v(),
            self.x.v(),
            yi,
        )
    }

    /// Audits every party's share, reporting the indices of exactly the
    /// inconsistent parties rather than failing opaquely; on success, merges
    /// the shares, finishes the transcript, and compresses with one
    /// inner-product argument over the combined vectors. The witness `yi` is
    /// the computed inverse of the dealer's `y` challenge.
    pub fn receive_proof_shares(
        self,
        transcript: &mut merlin::Transcript,
        proof_shares: Vec<ProofShare>,
    ) -> (r: Result<RangeProof, MPCError>)
        requires
            self.wf(),
            forall|j: int| 0 <= j < proof_shares@.len() ==> (#[trigger] proof_shares@[j]).wf(),
        ensures
            proof_shares@.len() != self.m ==> r == Err::<RangeProof, MPCError>(
                MPCError::WrongNumProofShares,
            ),
            proof_shares@.len() == self.m ==> exists|yi: nat|
                {
                    &&& (self.y.v() != 0 ==> smul(yi, self.y.v()) == 1)
                    &&& (r is Ok <==> self.all_shares_consistent(proof_shares@, yi))
                    &&& (r matches Err(MPCError::MalformedProofShares { bad_shares })
                        ==> forall|q: int| 0 <= q < self.m ==> ((#[trigger] bad_shares@.contains(
                        q as usize,
                    )) <==> !spec_share_consistent(
                        self.bit_commitments@[q],
                        self.poly_commitments@[q],
                        proof_shares@[q],
                        self.bp_gens.gens_capacity as int,
                        self.n as int,
                        q,
                        self.y.v(),
                        self.z.v(),
                        self.x.v(),
                        yi,
                    )))
                },
            r matches Err(e) ==> (e == MPCError::WrongNumProofShares || (e matches
                MPCError::MalformedProofShares { bad_shares } && bad_shares@.len() >= 1
                && (forall|i: int| 0 <= i < bad_shares@.len()
                ==> (#[trigger] bad_shares@[i]) < self.m) && (forall|i: int, l: int|
                0 <= i < l < bad_shares@.len() ==> bad_shares@[i] < bad_shares@[l]))),
            r matches Ok(rp) ==> rp.wf() && rp.ipp_proof.l_vec@.len() == log2(
                (self.n * self.m) as nat,
            ),
    {
        if proof_shares.len() != self.m {
            return Err(MPCError::WrongNumProofShares);
        }
        let n = self.n;
        let m = self.m;
        let total = self.bp_gens.g_vec.len();
        proof {
            let c = self.bp_gens.gens_capacity as int;
            let p = self.bp_gens.party_capacity as int;
            assert(n * m <= c * p) by (nonlinear_arith)
                requires
                    0 <= n <= c,
                    0 <= m <= p,
            ;
        }
        let nm = n * m;

        // Audit each share against that party's commitments.
        let y_inv = scalar_invert(&self.y);
        let mut bad_shares: Vec<usize> = Vec::new();
        let mut j: usize = 0;
        while j < m
            invariant
                0 <= j <= m,
                self.wf(),
                y_inv.wf(),
                self.y.v() != 0 ==> smul(y_inv.v(), self.y.v()) == 1,
                n == self.n,
                m == self.m,
                proof_shares@.len() == m,
                forall|k: int| 0 <= k < m ==> (#[trigger] proof_shares@[k]).wf(),
                bad_shares@.len() == 0 ==> forall|k: int| 0 <= k < j
                    ==> (#[trigger] proof_shares@[k]).l_vec@.len() == n
                    && proof_shares@[k].r_vec@.len() == n,
                forall|i: int| 0 <= i < bad_shares@.len() ==> (#[trigger] bad_shares@[i]) < j,
                forall|i: int, l: int| 0 <= i < l < bad_shares@.len()
                    ==> bad_shares@[i] < bad_shares@[l],
                forall|q: int| 0 <= q < j ==> ((#[trigger] bad_shares@.contains(q as usize))
                    <==> !spec_share_consistent(
                    self.bit_commitments@[q],
                    self.poly_commitments@[q],
                    proof_shares@[q],
                    self.bp_gens.gens_capacity as int,
                    self.n as int,
                    q,
                    self.y.v(),
                    self.z.v(),
                    self.x.v(),
                    y_inv.v(),
                )),
            decreases m - j,
        {
            let ghost old_bad = bad_shares@;
            let ok = audit_share(
                self.bp_gens,
                self.pc_gens,
                n,
                j,
                &self.y,
                &self.z,
                &self.x,
                &y_inv,
                &self.bit_commitments[j],
                &self.poly_commitments[j],
                &proof_shares[j],
            );
            if !ok {
                bad_shares.push(j);
            }
            proof {
                assert forall|q: int| 0 <= q < j + 1 implies ((#[trigger] bad_shares@.contains(
                    q as usize,
                )) <==> !spec_share_consistent(
                    self.bit_commitments@[q],
                    self.poly_commitments@[q],
                    proof_shares@[q],
                    self.bp_gens.gens_capacity as int,
                    self.n as int,
                    q,
                    self.y.v(),
                    self.z.v(),
                    self.x.v(),
                    y_inv.v(),
                )) by {
                    if q < j {
                        assert(old_bad.contains(q as usize) <==> bad_shares@.contains(
                            q as usize,
                        )) by {
                            if old_bad.contains(q as usize) {
                                let t = choose|t: int|
                                    0 <= t < old_bad.len() && old_bad[t] == q as usize;
                                assert(bad_shares@[t] == q as usize);
                            }
                            if bad_shares@.contains(q as usize) {
                                let t = choose|t: int|
                                    0 <= t < bad_shares@.len() && bad_shares@[t] == q as usize;
                                if t < old_bad.len() {
                                    assert(old_bad[t] == q as usize);
                                }
                            }
                        }
                    } else {
                        if !ok {
                            assert(bad_shares@[bad_shares@.len() - 1] == j);
                        } else {
                            if bad_shares@.contains(q as usize) {
                                let t = choose|t: int|
                                    0 <= t < bad_shares@.len() && bad_shares@[t] == q as usize;
                                assert(bad_shares@[t] < j);
                            }
                        }
                    }
                }
            }
            j = j + 1;
        }
        if bad_shares.len() > 0 {
            proof {
                let q0u = bad_shares@[0];
                let q0 = q0u as int;
                assert(bad_shares@.contains(q0u)) by {
                    assert(bad_shares@[0] == q0u);
                }
                assert(q0 as usize == q0u);
                assert(bad_shares@.contains(q0 as usize));
                assert(!spec_share_consistent(
                    self.bit_commitments@[q0],
                    self.poly_commitments@[q0],
                    proof_shares@[q0],
                    self.bp_gens.gens_capacity as int,
                    self.n as int,
                    q0,
                    self.y.v(),
                    self.z.v(),
                    self.x.v(),
                    y_inv.v(),
                ));
                assert(!self.all_shares_consistent(proof_shares@, y_inv.v()));
            }
            return Err(MPCError::MalformedProofShares { bad_shares });
        }
        proof {
            assert forall|q: int| 0 <= q < m implies spec_share_consistent(
                self.bit_commitments@[q],
                self.poly_commitments@[q],
                #[trigger] proof_shares@[q],
                self.bp_gens.gens_capacity as int,
                self.n as int,
                q,
                self.y.v(),
                self.z.v(),
                self.x.v(),
                y_inv.v(),
            ) by {
                assert(!bad_shares@.contains(q as usize));
            }
            assert(self.all_shares_consistent(proof_shares@, y_inv.v()));
        }
        Ok(self.assemble(transcript, proof_shares))
    }

    /// Merges shares that are already trusted (for instance because all the
    /// parties run locally inside one proving call), skipping the audit;
    /// always yields a proof.
    pub fn receive_trusted_shares(
        self,
        transcript: &mut merlin::Transcript,
        proof_shares: Vec<ProofShare>,
    ) -> (r: RangeProof)
        requires
            self.wf(),
            proof_shares@.len() == self.m,
            forall|j: int| 0 <= j < proof_shares@.len() ==> (#[trigger] proof_shares@[j]).wf()
                && proof_shares@[j].l_vec@.len() == self.n
                && proof_shares@[j].r_vec@.len() == self.n,
        ensures
            r.wf(),
            r.ipp_proof.l_vec@.len() == log2((self.n * self.m) as nat),
            r.a_commit.bytes@ == self.a_commit.bytes@,
            r.s_commit.bytes@ == self.s_commit.bytes@,
            r.t_1.bytes@ == self.t_1.bytes@,
            r.t_2.bytes@ == self.t_2.bytes@,
            r.t_x.v() == ssum(Seq::new(self.m as nat, |j: int| proof_shares@[j].t_x.v())),
            r.t_x_blinding.v() == ssum(
                Seq::new(self.m as nat, |j: int| proof_shares@[j].t_x_blinding.v()),
            ),
            r.e_blinding.v() == ssum(
                Seq::new(self.m as nat, |j: int| proof_shares@[j].e_blinding.v()),
            ),
    {
        self.assemble(transcript, proof_shares)
    }

    /// Merges the scalar openings, finishes the transcript, and runs the
    /// closing inner-product argument over the concatenated vectors.
    fn assemble(
        self,
        transcript: &mut merlin::Transcript,
        proof_shares: Vec<ProofShare>,
    ) -> (r: RangeProof)
        requires
            self.wf(),
            proof_shares@.len() == self.m,
            forall|j: int| 0 <= j < proof_shares@.len() ==> (#[trigger] proof_shares@[j]).wf()
                && proof_shares@[j].l_vec@.len() == self.n
                && proof_shares@[j].r_vec@.len() == self.n,
        ensures
            r.wf(),
            r.ipp_proof.l_vec@.len() == log2((self.n * self.m) as nat),
            r.a_commit.bytes@ == self.a_commit.bytes@,
            r.s_commit.bytes@ == self.s_commit.bytes@,
            r.t_1.bytes@ == self.t_1.bytes@,
            r.t_2.bytes@ == self.t_2.bytes@,
            r.t_x.v() == ssum(Seq::new(self.m as nat, |j: int| proof_shares@[j].t_x.v())),
            r.t_x_blinding.v() == ssum(
                Seq::new(self.m as nat, |j: int| proof_shares@[j].t_x_blinding.v()),
            ),
            r.e_blinding.v() == ssum(
                Seq::new(self.m as nat, |j: int| proof_shares@[j].e_blinding.v()),
            ),
    {
        let n = self.n;
        let m = self.m;
        let total = self.bp_gens.g_vec.len();
        proof {
            let c = self.bp_gens.gens_capacity as int;
            let p = self.bp_gens.party_capacity as int;
            assert(n * m <= c * p) by (nonlinear_arith)
                requires
                    0 <= n <= c,
                    0 <= m <= p,
            ;
        }
        let nm = n * m;

        // Merge the scalar openings.
        let mut t_x_parts: Vec<Scalar> = Vec::new();
        let mut t_x_blinding_parts: Vec<Scalar> = Vec::new();
        let mut e_blinding_parts: Vec<Scalar> = Vec::new();
        let mut j: usize = 0;
        while j < m
            invariant
                0 <= j <= m,
                proof_shares@.len() == m,
                forall|k: int| 0 <= k < m ==> (#[trigger] proof_shares@[k]).wf(),
                t_x_parts@.len() == j,
                t_x_blinding_parts@.len() == j,
                e_blinding_parts@.len() == j,
                scalars_wf(t_x_parts@),
                scalars_wf(t_x_blinding_parts@),
                scalars_wf(e_blinding_parts@),
                forall|k: int| 0 <= k < j ==> (#[trigger] t_x_parts@[k]).bytes@
                    == proof_shares@[k].t_x.bytes@,
                forall|k: int| 0 <= k < j ==> (#[trigger] t_x_blinding_parts@[k]).bytes@
                    == proof_shares@[k].t_x_blinding.bytes@,
                forall|k: int| 0 <= k < j ==> (#[trigger] e_blinding_parts@[k]).bytes@
                    == proof_shares@[k].e_blinding.bytes@,
            decreases m - j,
        {
            t_x_parts.push(proof_shares[j].t_x.dup());
            t_x_blinding_parts.push(proof_shares[j].t_x_blinding.dup());
            e_blinding_parts.push(proof_shares[j].e_blinding.dup());
            j = j + 1;
        }
        proof {
            assert(scalar_vals(t_x_parts@) =~= Seq::new(
                m as nat,
                |jj: int| proof_shares@[jj].t_x.v(),
            ));
            assert(scalar_vals(t_x_blinding_parts@) =~= Seq::new(
                m as nat,
                |jj: int| proof_shares@[jj].t_x_blinding.v(),
            ));
            assert(scalar_vals(e_blinding_parts@) =~= Seq::new(
                m as nat,
                |jj: int| proof_shares@[jj].e_blinding.v(),
            ));
        }
        let t_x = sum_scalars(&t_x_parts);
        let t_x_blinding = sum_scalars(&t_x_blinding_parts);
        let e_blinding = sum_scalars(&e_blinding_parts);

        append_scalar(transcript, "t_x", &t_x);
        append_scalar(transcript, "t_x_blinding", &t_x_blinding);
        append_scalar(transcript, "e_blinding", &e_blinding);
        let w = challenge_scalar(transcript, "w");
        let q = msm1(&w, &self.pc_gens.b);

        // Concatenate the parties' opening vectors.
        let mut l_all: Vec<Scalar> = Vec::new();
        let mut r_all: Vec<Scalar> = Vec::new();
        j = 0;
        while j < m
            invariant
                0 <= j <= m,
                self.wf(),
                n == self.n,
                m == self.m,
                proof_shares@.len() == m,
                forall|k: int| 0 <= k < m ==> (#[trigger] proof_shares@[k]).wf()
                    && (#[trigger] proof_shares@[k]).l_vec@.len() == n
                    && proof_shares@[k].r_vec@.len() == n,
                l_all@.len() == j * n,
                r_all@.len() == j * n,
                scalars_wf(l_all@),
                scalars_wf(r_all@),
            decreases m - j,
        {
            extend_scalars(&mut l_all, &proof_shares[j].l_vec);
            extend_scalars(&mut r_all, &proof_shares[j].r_vec);
            proof {
                assert(j * n + n == (j + 1) * n) by (nonlinear_arith);
            }
            j = j + 1;
        }

        // Gather the generator slices in party order and weight `H` by the
        // inverse powers of `y`.
        let mut g_all: Vec<GroupElem> = Vec::new();
        let mut h_all: Vec<GroupElem> = Vec::new();
        j = 0;
        while j < m
            invariant
                0 <= j <= m,
                self.wf(),
                n == self.n,
                m == self.m,
                total == self.bp_gens.g_vec@.len(),
                total == self.bp_gens.h_vec@.len(),
                g_all@.len() == j * n,
                h_all@.len() == j * n,
                points_wf(g_all@),
                points_wf(h_all@),
            decreases m - j,
        {
            proof {
                let c = self.bp_gens.gens_capacity as int;
                let p = self.bp_gens.party_capacity as int;
                assert((j + 1) * c <= p * c && p * c == c * p) by (nonlinear_arith)
                    requires
                        0 <= j < p,
                        c >= 0,
                ;
                assert(j * c <= (j + 1) * c && j * c + c == (j + 1) * c) by (nonlinear_arith)
                    requires
                        c >= 0,
                        j >= 0,
                ;
                assert(j * n + n == (j + 1) * n) by (nonlinear_arith);
            }
            let base = j * self.bp_gens.gens_capacity;
            let mut i: usize = 0;
            while i < n
                invariant
                    0 <= i <= n,
                    self.wf(),
                    n == self.n,
                    base == j * self.bp_gens.gens_capacity,
                    base + self.bp_gens.gens_capacity <= total,
                    n <= self.bp_gens.gens_capacity,
                    total == self.bp_gens.g_vec@.len(),
                    total == self.bp_gens.h_vec@.len(),
                    g_all@.len() == j * n + i,
                    h_all@.len() == j * n + i,
                    points_wf(g_all@),
                    points_wf(h_all@),
                decreases n - i,
            {
                g_all.push(self.bp_gens.g_vec[base + i].dup());
                h_all.push(self.bp_gens.h_vec[base + i].dup());
                i = i + 1;
            }
            j = j + 1;
        }

        proof {
            assert(m * n == n * m) by (nonlinear_arith);
        }
        let y_inv = scalar_invert(&self.y);
        let yipows = powers(&y_inv, nm);
        let mut h_prime: Vec<GroupElem> = Vec::new();
        let mut k: usize = 0;
        while k < nm
            invariant
                0 <= k <= nm,
                g_all@.len() == nm,
                h_all@.len() == nm,
                points_wf(h_all@),
                yipows@.len() == nm,
                scalars_wf(yipows@),
                h_prime@.len() == k,
                points_wf(h_prime@),
            decreases nm - k,
        {
            h_prime.push(msm1(&yipows[k], &h_all[k]));
            k = k + 1;
        }

        proof {
            assert(is_pow2(8nat) && is_pow2(16nat) && is_pow2(32nat) && is_pow2(64nat)) by {
                reveal_with_fuel(is_pow2, 8);
            }
            lemma_pow2_mul(n as nat, m as nat);
        }
        let ipp_proof = InnerProductProof::create(transcript, &q, g_all, h_prime, l_all, r_all);

        RangeProof {
            a_commit: self.a_commit,
            s_commit: self.s_commit,
            t_1: self.t_1,
            t_2: self.t_2,
            t_x,
            t_x_blinding,
            e_blinding,
            ipp_proof,
        }
    }
}

/// The expected constant coefficient `delta_j(y, z)` of party `j`'s slice of
/// the constraint polynomial.
pub open spec fn spec_delta_j(n: int, j: int, y: nat, z: nat) -> nat {
    let zz = smul(z, z);
    let zzzj = smul(zz, spow(z, j as nat));
    ssub(
        smul(ssub(z, zz), ssum(Seq::new(n as nat, |i: int| spow(y, (j * n + i) as nat)))),
        smul(smul(z, zzzj), sum_pows(2, n as nat)),
    )
}

/// The scalars of the audit check of a share's opened vectors against the
/// party's bit and blinding commitments.
pub open spec fn spec_audit_c2_scalars(
    share: ProofShare,
    n: int,
    j: int,
    z: nat,
    x: nat,
    yi: nat,
) -> Seq<nat> {
    let zzzj = smul(smul(z, z), spow(z, j as nat));
    seq![1nat, x, ssub(0, share.e_blinding.v())] + Seq::new(
        n as nat,
        |i: int| ssub(0, sadd(share.l_vec@[i].v(), z)),
    ) + Seq::new(
        n as nat,
        |i: int| ssub(
            z,
            smul(
                spow(yi, (j * n + i) as nat),
                ssub(share.r_vec@[i].v(), smul(zzzj, spow(2, i as nat))),
            ),
        ),
    )
}

/// The points of the audit check of a share's opened vectors.
pub open spec fn spec_audit_c2_points(bc: BitCommitment, cap: int, n: int, j: int) -> Seq<
    Seq<u8>,
> {
    seq![bc.a_j.bytes@, bc.s_j.bytes@, gen_enc(fam_pedersen_b_blinding(), 0)] + Seq::new(
        n as nat,
        |i: int| gen_enc(fam_g(), (j * cap + i) as u64),
    ) + Seq::new(n as nat, |i: int| gen_enc(fam_h(), (j * cap + i) as u64))
}

/// The scalars of the audit check of a share's polynomial opening against
/// the party's coefficient and value commitments.
pub open spec fn spec_audit_c3_scalars(
    share: ProofShare,
    n: int,
    j: int,
    y: nat,
    z: nat,
    x: nat,
) -> Seq<nat> {
    let zzzj = smul(smul(z, z), spow(z, j as nat));
    seq![
        ssub(share.t_x.v(), spec_delta_j(n, j, y, z)),
        share.t_x_blinding.v(),
        ssub(0, zzzj),
        ssub(0, x),
        ssub(0, smul(x, x)),
    ]
}

/// The points of the audit check of a share's polynomial opening.
pub open spec fn spec_audit_c3_points(bc: BitCommitment, poly: PolyCommitment) -> Seq<Seq<u8>> {
    seq![
        gen_enc(fam_pedersen_b(), 0),
        gen_enc(fam_pedersen_b_blinding(), 0),
        bc.v_j.bytes@,
        poly.t1_j.bytes@,
        poly.t2_j.bytes@,
    ]
}

/// Whether party `j`'s round-three share is consistent with its earlier
/// commitments under the challenges `y`, `z`, `x` (and the inverse `yi` of
/// `y`): the opened vectors have the right length, the claimed `t_x` is
/// their inner product, and both audit sums are the identity.
pub open spec fn spec_share_consistent(
    bc: BitCommitment,
    poly: PolyCommitment,
    share: ProofShare,
    cap: int,
    n: int,
    j: int,
    y: nat,
    z: nat,
    x: nat,
    yi: nat,
) -> bool {
    &&& share.l_vec@.len() == n
    &&& share.r_vec@.len() == n
    &&& share.t_x.v() == ip(scalar_vals(share.l_vec@), scalar_vals(share.r_vec@))
    &&& msm_of(spec_audit_c2_scalars(share, n, j, z, x, yi), spec_audit_c2_points(bc, cap, n, j))
        == identity_enc()
    &&& msm_of(spec_audit_c3_scalars(share, n, j, y, z, x), spec_audit_c3_points(bc, poly))
        == identity_enc()
}

/// Checks one party's round-three share against its earlier commitments,
/// deciding exactly the consistency predicate above. A failure implicates
/// exactly this party.
#[verifier::rlimit(60)]
fn audit_share(
    bp_gens: &BulletproofGens,
    pc_gens: &PedersenGens,
    n: usize,
    j: usize,
    y: &Scalar,
    z: &Scalar,
    x: &Scalar,
    y_inv: &Scalar,
    bc: &BitCommitment,
    poly: &PolyCommitment,
    share: &ProofShare,
) -> (r: bool)
    requires
        bp_gens.wf(),
        pc_gens.wf(),
        (n == 8 || n == 16 || n == 32 || n == 64),
        n <= bp_gens.gens_capacity,
        j < bp_gens.party_capacity,
        y.wf(),
        z.wf(),
        x.wf(),
        y_inv.wf(),
        bc.wf(),
        poly.wf(),
        share.wf(),
    ensures
        r == spec_share_consistent(
            *bc,
            *poly,
            *share,
            bp_gens.gens_capacity as int,
            n as int,
            j as int,
            y.v(),
            z.v(),
            x.v(),
            y_inv.v(),
        ),
{
    if share.l_vec.len() != n || share.r_vec.len() != n {
        return false;
    }
    let total = bp_gens.g_vec.len();
    proof {
        let c = bp_gens.gens_capacity as int;
        let p = bp_gens.party_capacity as int;
        assert((j + 1) * c <= p * c && p * c == c * p) by (nonlinear_arith)
            requires
                0 <= j < p,
                c >= 0,
        ;
        assert(j * c <= (j + 1) * c && j * c + c == (j + 1) * c) by (nonlinear_arith)
            requires
                c >= 0,
                j >= 0,
        ;
        assert((j + 1) * n <= (j + 1) * c) by (nonlinear_arith)
            requires
                n <= c,
                j + 1 >= 0,
        ;
        assert(j * n + n == (j + 1) * n) by (nonlinear_arith);
        assert(j + 1 <= j * n + n) by (nonlinear_arith)
            requires
                n >= 1,
                j >= 0,
        ;
    }
    let zero = Scalar::from_u64(0);
    let one = Scalar::from_u64(1);
    let off = j * n;
    let ghost c2s_target = spec_audit_c2_scalars(
        *share,
        n as int,
        j as int,
        z.v(),
        x.v(),
        y_inv.v(),
    );
    let ghost c2p_target = spec_audit_c2_points(
        *bc,
        bp_gens.gens_capacity as int,
        n as int,
        j as int,
    );

    // The scalar consistency of the share itself.
    let ip_val = inner_product(&share.l_vec, &share.r_vec);
    let c1 = scalar_eq(&share.t_x, &ip_val);

    let ypows = powers(y, off + n);
    let zpows = powers(z, j + 1);
    let zz = scalar_mul(z, z);
    let zz_zj = scalar_mul(&zz, &zpows[j]);
    let z3j = scalar_mul(z, &zz_zj);
    let two = Scalar::from_u64(2);
    let exp2 = powers(&two, n);
    proof {
        assert(scalar_vals(zpows@)[j as int] == zpows@[j as int].v());
        assert forall|q: int| 0 <= q < n implies (#[trigger] exp2@[q]).v() == spow(2, q as nat) by {
            assert(scalar_vals(exp2@)[q] == exp2@[q].v());
        }
        assert forall|q: int| 0 <= q < off + n implies (#[trigger] ypows@[q]).v() == spow(
            y.v(),
            q as nat,
        ) by {
            assert(scalar_vals(ypows@)[q] == ypows@[q].v());
        }
    }

    // delta_j(y, z): the expected constant coefficient contribution.
    let y_off_slice = slice_scalars(&ypows, off, off + n);
    let sum_y = sum_scalars(&y_off_slice);
    let sum_2 = sum_scalars(&exp2);
    let delta = scalar_sub(
        &scalar_mul(&scalar_sub(z, &zz), &sum_y),
        &scalar_mul(&z3j, &sum_2),
    );
    proof {
        assert(scalar_vals(y_off_slice@) =~= Seq::new(
            n as nat,
            |i: int| spow(y.v(), (j * n + i) as nat),
        ));
        assert(scalar_vals(exp2@) =~= crate::util::pow_seq(2, n as nat));
        assert(delta.v() == spec_delta_j(n as int, j as int, y.v(), z.v()));
    }

    // Check the polynomial opening against T1_j, T2_j and V_j:
    // (t_x - delta)*B + t_x_blinding*B_blinding - zz*z^j*V_j - x*T1_j
    // - x^2*T2_j must be the identity.
    let xx = scalar_mul(x, x);
    let mut c3_scalars: Vec<Scalar> = Vec::new();
    c3_scalars.push(scalar_sub(&share.t_x, &delta));
    c3_scalars.push(share.t_x_blinding.dup());
    c3_scalars.push(scalar_sub(&zero, &zz_zj));
    c3_scalars.push(scalar_sub(&zero, x));
    c3_scalars.push(scalar_sub(&zero, &xx));
    let mut c3_points: Vec<GroupElem> = Vec::new();
    c3_points.push(pc_gens.b.dup());
    c3_points.push(pc_gens.b_blinding.dup());
    c3_points.push(bc.v_j.dup());
    c3_points.push(poly.t1_j.dup());
    c3_points.push(poly.t2_j.dup());
    proof {
        assert(scalar_vals(c3_scalars@) =~= spec_audit_c3_scalars(
            *share,
            n as int,
            j as int,
            y.v(),
            z.v(),
            x.v(),
        ));
        assert(crate::points::point_encs(c3_points@) =~= spec_audit_c3_points(*bc, *poly));
    }
    let c3_sum = msm(&c3_scalars, &c3_points);
    let c3 = is_identity(&c3_sum);

    // Check the opened vectors against A_j, S_j:
    // A_j + x*S_j - e_j*B_blinding - sum (l_i + z)*G_i
    // + sum (z - y^-(off+i)*(r_i - zz*z^j*2^i))*H_i must be the identity.
    let yinvpows = powers(y_inv, off + n);
    proof {
        assert forall|q: int| 0 <= q < off + n implies (#[trigger] yinvpows@[q]).v() == spow(
            y_inv.v(),
            q as nat,
        ) by {
            assert(scalar_vals(yinvpows@)[q] == yinvpows@[q].v());
        }
    }
    let mut c2_scalars: Vec<Scalar> = Vec::new();
    c2_scalars.push(one.dup());
    c2_scalars.push(x.dup());
    c2_scalars.push(scalar_sub(&zero, &share.e_blinding));
    proof {
        assert(scalar_vals(c2_scalars@) =~= c2s_target.take(3));
    }
    let mut i: usize = 0;
    while i < n
        invariant
            0 <= i <= n,
            share.wf(),
            share.l_vec@.len() == n,
            share.r_vec@.len() == n,
            zero.wf(),
            zero.v() == 0,
            z.wf(),
            off == j * n,
            c2s_target == spec_audit_c2_scalars(
                *share,
                n as int,
                j as int,
                z.v(),
                x.v(),
                y_inv.v(),
            ),
            c2s_target.len() == 3 + 2 * n,
            scalars_wf(c2_scalars@),
            c2_scalars@.len() == 3 + i,
            scalar_vals(c2_scalars@) =~= c2s_target.take(3 + i),
        decreases n - i,
    {
        c2_scalars.push(scalar_sub(&zero, &scalar_add(&share.l_vec[i], z)));
        proof {
            assert(scalar_vals(c2_scalars@) =~= c2s_target.take(3 + i + 1));
        }
        i = i + 1;
    }
    i = 0;
    while i < n
        invariant
            0 <= i <= n,
            share.wf(),
            share.l_vec@.len() == n,
            share.r_vec@.len() == n,
            zero.wf(),
            zero.v() == 0,
            z.wf(),
            zz_zj.wf(),
            zz_zj.v() == smul(smul(z.v(), z.v()), spow(z.v(), j as nat)),
            off == j * n,
            off + n <= usize::MAX,
            yinvpows@.len() == off + n,
            scalars_wf(yinvpows@),
            forall|q: int| 0 <= q < off + n ==> (#[trigger] yinvpows@[q]).v() == spow(
                y_inv.v(),
                q as nat,
            ),
            exp2@.len() == n,
            scalars_wf(exp2@),
            forall|q: int| 0 <= q < n ==> (#[trigger] exp2@[q]).v() == spow(2, q as nat),
            c2s_target == spec_audit_c2_scalars(
                *share,
                n as int,
                j as int,
                z.v(),
                x.v(),
                y_inv.v(),
            ),
            c2s_target.len() == 3 + 2 * n,
            scalars_wf(c2_scalars@),
            c2_scalars@.len() == 3 + n + i,
            scalar_vals(c2_scalars@) =~= c2s_target.take(3 + n + i),
        decreases n - i,
    {
        let weighted = scalar_mul(
            &yinvpows[off + i],
            &scalar_sub(&share.r_vec[i], &scalar_mul(&zz_zj, &exp2[i])),
        );
        c2_scalars.push(scalar_sub(z, &weighted));
        proof {
            assert(scalar_vals(c2_scalars@) =~= c2s_target.take(3 + n + i + 1));
        }
        i = i + 1;
    }
    let base = j * bp_gens.gens_capacity;
    let mut c2_points: Vec<GroupElem> = Vec::new();
    c2_points.push(bc.a_j.dup());
    c2_points.push(bc.s_j.dup());
    c2_points.push(pc_gens.b_blinding.dup());
    proof {
        assert(crate::points::point_encs(c2_points@) =~= c2p_target.take(3));
    }
    i = 0;
    while i < n
        invariant
            0 <= i <= n,
            bp_gens.wf(),
            n <= bp_gens.gens_capacity,
            base == j * bp_gens.gens_capacity,
            base + bp_gens.gens_capacity <= total,
            total == bp_gens.g_vec@.len(),
            c2p_target == spec_audit_c2_points(
                *bc,
                bp_gens.gens_capacity as int,
                n as int,
                j as int,
            ),
            c2p_target.len() == 3 + 2 * n,
            points_wf(c2_points@),
            c2_points@.len() == 3 + i,
            crate::points::point_encs(c2_points@) =~= c2p_target.take(3 + i),
        decreases n - i,
    {
        c2_points.push(bp_gens.g_vec[base + i].dup());
        proof {
            assert(crate::points::point_encs(c2_points@) =~= c2p_target.take(3 + i + 1));
        }
        i = i + 1;
    }
    i = 0;
    while i < n
        invariant
            0 <= i <= n,
            bp_gens.wf(),
            n <= bp_gens.gens_capacity,
            base == j * bp_gens.gens_capacity,
            base + bp_gens.gens_capacity <= total,
            total == bp_gens.h_vec@.len(),
            c2p_target == spec_audit_c2_points(
                *bc,
                bp_gens.gens_capacity as int,
                n as int,
                j as int,
            ),
            c2p_target.len() == 3 + 2 * n,
            points_wf(c2_points@),
            c2_points@.len() == 3 + n + i,
            crate::points::point_encs(c2_points@) =~= c2p_target.take(3 + n + i),
        decreases n - i,
    {
        c2_points.push(bp_gens.h_vec[base + i].dup());
        proof {
            assert(crate::points::point_encs(c2_points@) =~= c2p_target.take(3 + n + i + 1));
        }
        i = i + 1;
    }
    proof {
        assert(scalar_vals(c2_scalars@) =~= c2s_target);
        assert(crate::points::point_encs(c2_points@) =~= c2p_target);
    }
    let c2_sum = msm(&c2_scalars, &c2_points);
    let c2 = is_identity(&c2_sum);

    c1 && c2 && c3
}

} // verus!
