use vstd::prelude::*;
use crate::errors::MPCError;
use crate::generators::{fam_g, fam_h, fam_pedersen_b_blinding, gen_enc, BulletproofGens, PedersenGens};
use crate::messages::{BitChallenge, BitCommitment, PolyChallenge, PolyCommitment, ProofShare};
use crate::points::{msm_of, point_encs, points_wf, scalar_vals, scalars_wf, GroupElem};
use crate::scalar::{sadd, smul, spow, ssub, scalar_add, scalar_mul, scalar_sub, Scalar};
use crate::util::{bit_scalar, extend_scalars, inner_product, ip, powers, random_scalars, vbit};
use crate::points::msm;

verus! {

/// The point encodings a party's round-one commitments range over: its `G`
/// share, then its `H` share, then the blinding base.
pub open spec fn share_encs(bp: BulletproofGens, j: int, n: int) -> Seq<Seq<u8>> {
    Seq::new(n as nat, |i: int| gen_enc(fam_g(), (j * bp.gens_capacity + i) as u64)) + Seq::new(
        n as nat,
        |i: int| gen_enc(fam_h(), (j * bp.gens_capacity + i) as u64),
    ) + seq![gen_enc(fam_pedersen_b_blinding(), 0)]
}

/// The party role of the aggregation protocol: holds one secret value and
/// blinding, and advances through the rounds via the states below.
pub struct Party {}

impl Party {
    /// Starts a party session for one `(value, blinding)` pair.
    pub fn new<'a>(
        bp_gens: &'a BulletproofGens,
        pc_gens: &'a PedersenGens,
        v: u64,
        v_blinding: Scalar,
        n: usize,
    ) -> (r: Result<PartyAwaitingPosition<'a>, MPCError>)
        requires
            bp_gens.wf(),
            pc_gens.wf(),
            v_blinding.wf(),
        ensures
            r is Ok <==> ((n == 8 || n == 16 || n == 32 || n == 64)
                && n <= bp_gens.gens_capacity),
            r matches Ok(p) ==> p.wf() && p.n == n && p.v == v
                && p.v_blinding.bytes@ == v_blinding.bytes@ && p.bp_gens == bp_gens
                && p.pc_gens == pc_gens,
            !(n == 8 || n == 16 || n == 32 || n == 64)
                ==> r == Err::<PartyAwaitingPosition<'a>, MPCError>(MPCError::InvalidBitsize),
            ((n == 8 || n == 16 || n == 32 || n == 64) && n > bp_gens.gens_capacity)
                ==> r == Err::<PartyAwaitingPosition<'a>, MPCError>(
                MPCError::InvalidGeneratorsLength,
            ),
    {
        if !(n == 8 || n == 16 || n == 32 || n == 64) {
            return Err(MPCError::InvalidBitsize);
        }
        if bp_gens.gens_capacity < n {
            return Err(MPCError::InvalidGeneratorsLength);
        }
        Ok(PartyAwaitingPosition { bp_gens, pc_gens, n, v, v_blinding })
    }
}

/// A party that knows its secret but not yet its position in the aggregation.
pub struct PartyAwaitingPosition<'a> {
    pub bp_gens: &'a BulletproofGens,
    pub pc_gens: &'a PedersenGens,
    pub n: usize,
    pub v: u64,
    pub v_blinding: Scalar,
}

impl<'a> PartyAwaitingPosition<'a> {
    pub open spec fn wf(&self) -> bool {
        &&& self.bp_gens.wf()
        &&& self.pc_gens.wf()
        &&& self.v_blinding.wf()
        &&& (self.n == 8 || self.n == 16 || self.n == 32 || self.n == 64)
        &&& self.n <= self.bp_gens.gens_capacity
    }

    /// Takes the party's position `j`, commits to the value and to the bit
    /// vectors, and moves to the round-one state. The value commitment is
    /// pinned exactly; the bit commitments involve fresh randomness and are
    /// stated well-formed.
    pub fn assign_position(self, j: usize) -> (r: Result<
        (PartyAwaitingBitChallenge<'a>, BitCommitment),
        MPCError,
    >)
        requires
            self.wf(),
        ensures
            r is Ok <==> j < self.bp_gens.party_capacity,
            r is Err ==> r == Err::<(PartyAwaitingBitChallenge<'a>, BitCommitment), MPCError>(
                MPCError::InvalidGeneratorsLength,
            ),
            r matches Ok((p, bc)) ==> {
                &&& p.wf()
                &&& p.n == self.n
                &&& p.v == self.v
                &&& p.j == j
                &&& p.v_blinding.bytes@ == self.v_blinding.bytes@
                &&& bc.wf()
                &&& bc.v_j.bytes@ == msm_of(
                    seq![self.v as nat, self.v_blinding.v()],
                    seq![self.pc_gens.b.bytes@, self.pc_gens.b_blinding.bytes@],
                )
                &&& bc.a_j.bytes@ == msm_of(
                    Seq::new(self.n as nat, |i: int| vbit(self.v, i)) + Seq::new(
                        self.n as nat,
                        |i: int| ssub(vbit(self.v, i), 1),
                    ) + seq![p.a_blinding.v()],
                    share_encs(*self.bp_gens, j as int, self.n as int),
                )
                &&& bc.s_j.bytes@ == msm_of(
                    Seq::new(self.n as nat, |i: int| p.s_l@[i].v()) + Seq::new(
                        self.n as nat,
                        |i: int| p.s_r@[i].v(),
                    ) + seq![p.s_blinding.v()],
                    share_encs(*self.bp_gens, j as int, self.n as int),
                )
            },
    {
        if j >= self.bp_gens.party_capacity {
            return Err(MPCError::InvalidGeneratorsLength);
        }
        let n = self.n;
        let total = self.bp_gens.g_vec.len();
        proof {
            let c = self.bp_gens.gens_capacity as int;
            let p = self.bp_gens.party_capacity as int;
            assert((j + 1) * n <= p * c) by (nonlinear_arith)
                requires
                    j + 1 <= p,
                    n <= c,
                    0 <= j,
                    0 <= n,
            ;
            assert(p * c == c * p) by (nonlinear_arith);
            assert(j * n + n == (j + 1) * n) by (nonlinear_arith);
        }
        let v_scalar = Scalar::from_u64(self.v);
        let v_j = self.pc_gens.commit(&v_scalar, &self.v_blinding);

        let share = match self.bp_gens.share(j) {
            Ok(s) => s,
            Err(_) => { return Err(MPCError::InvalidGeneratorsLength) },
        };
        let mut gh: Vec<GroupElem> = Vec::new();
        let mut i: usize = 0;
        while i < n
            invariant
                0 <= i <= n,
                share.wf(),
                share.gens == self.bp_gens,
                share.share == j,
                n <= share.gens.gens_capacity,
                gh@.len() == i,
                points_wf(gh@),
                forall|k: int| 0 <= k < i ==> (#[trigger] gh@[k]).bytes@ == gen_enc(
                    fam_g(),
                    (j * self.bp_gens.gens_capacity + k) as u64,
                ),
            decreases n - i,
        {
            gh.push(share.g(i).dup());
            i = i + 1;
        }
        i = 0;
        while i < n
            invariant
                0 <= i <= n,
                share.wf(),
                share.gens == self.bp_gens,
                share.share == j,
                n <= share.gens.gens_capacity,
                gh@.len() == n + i,
                points_wf(gh@),
                forall|k: int| 0 <= k < n ==> (#[trigger] gh@[k]).bytes@ == gen_enc(
                    fam_g(),
                    (j * self.bp_gens.gens_capacity + k) as u64,
                ),
                forall|k: int| 0 <= k < i ==> (#[trigger] gh@[n + k]).bytes@ == gen_enc(
                    fam_h(),
                    (j * self.bp_gens.gens_capacity + k) as u64,
                ),
            decreases n - i,
        {
            gh.push(share.h(i).dup());
            i = i + 1;
        }
        let ghost gh2 = gh@;
        gh.push(self.pc_gens.b_blinding.dup());
        proof {
            assert(self.pc_gens.b_blinding.wf());
            assert(points_wf(gh@));
            let target = share_encs(*self.bp_gens, j as int, n as int);
            assert forall|k: int| 0 <= k < 2 * n + 1 implies #[trigger] point_encs(gh@)[k]
                == target[k] by {
                if k < n {
                    assert(gh@[k] == gh2[k]);
                    assert(gh2[k].bytes@ == gen_enc(
                        fam_g(),
                        (j * self.bp_gens.gens_capacity + k) as u64,
                    ));
                } else if k < 2 * n {
                    assert(gh@[k] == gh2[k]);
                    assert(gh2[n + (k - n)].bytes@ == gen_enc(
                        fam_h(),
                        (j * self.bp_gens.gens_capacity + (k - n)) as u64,
                    ));
                } else {
                    assert(gh@[k].bytes@ == gen_enc(fam_pedersen_b_blinding(), 0));
                }
            }
            assert(point_encs(gh@) =~= target);
        }

        // Bit commitment A_j: bits over G, bits-minus-one over H, plus the
        // blinding over B_blinding.
        let one = Scalar::from_u64(1);
        let a_blinding = Scalar::random();
        let mut a_scalars: Vec<Scalar> = Vec::new();
        i = 0;
        while i < n
            invariant
                0 <= i <= n,
                n <= 64,
                a_scalars@.len() == i,
                scalars_wf(a_scalars@),
                forall|k: int| 0 <= k < i ==> (#[trigger] a_scalars@[k]).v() == vbit(self.v, k),
            decreases n - i,
        {
            a_scalars.push(bit_scalar(self.v, i));
            i = i + 1;
        }
        let mut k: usize = 0;
        let mut ar_scalars: Vec<Scalar> = Vec::new();
        while k < n
            invariant
                0 <= k <= n,
                n <= 64,
                one.wf(),
                one.v() == 1,
                ar_scalars@.len() == k,
                scalars_wf(ar_scalars@),
                forall|t: int| 0 <= t < k ==> (#[trigger] ar_scalars@[t]).v() == ssub(
                    vbit(self.v, t),
                    1,
                ),
            decreases n - k,
        {
            let b = bit_scalar(self.v, k);
            ar_scalars.push(scalar_sub(&b, &one));
            k = k + 1;
        }
        let ghost bits0 = a_scalars@;
        extend_scalars(&mut a_scalars, &ar_scalars);
        let ghost withar = a_scalars@;
        a_scalars.push(a_blinding.dup());
        proof {
            let target = Seq::new(n as nat, |i: int| vbit(self.v, i)) + Seq::new(
                n as nat,
                |i: int| ssub(vbit(self.v, i), 1),
            ) + seq![a_blinding.v()];
            assert forall|k: int| 0 <= k < 2 * n + 1 implies #[trigger] scalar_vals(a_scalars@)[k]
                == target[k] by {
                if k < n {
                    assert(a_scalars@[k] == withar[k]);
                    assert(withar[k] == bits0[k]);
                } else if k < 2 * n {
                    assert(a_scalars@[k] == withar[k]);
                    assert(withar[n + (k - n)].bytes@ == ar_scalars@[k - n].bytes@);
                }
            }
            assert(scalar_vals(a_scalars@) =~= target);
        }
        let a_j = msm(&a_scalars, &gh);

        // Blinding commitment S_j over the same points, with fresh randomness.
        let s_blinding = Scalar::random();
        let s_l = random_scalars(n);
        let s_r = random_scalars(n);
        let mut s_scalars: Vec<Scalar> = Vec::new();
        extend_scalars(&mut s_scalars, &s_l);
        let ghost withsl = s_scalars@;
        extend_scalars(&mut s_scalars, &s_r);
        let ghost withsr = s_scalars@;
        s_scalars.push(s_blinding.dup());
        proof {
            let target = Seq::new(n as nat, |i: int| s_l@[i].v()) + Seq::new(
                n as nat,
                |i: int| s_r@[i].v(),
            ) + seq![s_blinding.v()];
            assert forall|k: int| 0 <= k < 2 * n + 1 implies #[trigger] scalar_vals(s_scalars@)[k]
                == target[k] by {
                if k < n {
                    assert(s_scalars@[k] == withsr[k]);
                    assert(withsr[k] == withsl[k]);
                    assert(withsl[0 + k].bytes@ == s_l@[k].bytes@);
                } else if k < 2 * n {
                    assert(s_scalars@[k] == withsr[k]);
                    assert(withsr[n + (k - n)].bytes@ == s_r@[k - n].bytes@);
                }
            }
            assert(scalar_vals(s_scalars@) =~= target);
        }
        let s_j = msm(&s_scalars, &gh);

        let next = PartyAwaitingBitChallenge {
            pc_gens: self.pc_gens,
            n,
            v: self.v,
            v_blinding: self.v_blinding,
            j,
            a_blinding,
            s_blinding,
            s_l,
            s_r,
        };
        Ok((next, BitCommitment { v_j, a_j, s_j }))
    }
}

/// A party that has sent its commitments and awaits the `y`, `z` challenges.
pub struct PartyAwaitingBitChallenge<'a> {
    pub pc_gens: &'a PedersenGens,
    pub n: usize,
    pub v: u64,
    pub v_blinding: Scalar,
    pub j: usize,
    pub a_blinding: Scalar,
    pub s_blinding: Scalar,
    pub s_l: Vec<Scalar>,
    pub s_r: Vec<Scalar>,
}

impl<'a> PartyAwaitingBitChallenge<'a> {
    pub open spec fn wf(&self) -> bool {
        &&& self.pc_gens.wf()
        &&& self.v_blinding.wf()
        &&& (self.n == 8 || self.n == 16 || self.n == 32 || self.n == 64)
        &&& self.a_blinding.wf()
        &&& self.s_blinding.wf()
        &&& self.s_l@.len() == self.n
        &&& self.s_r@.len() == self.n
        &&& scalars_wf(self.s_l@)
        &&& scalars_wf(self.s_r@)
        &&& self.j * self.n + self.n <= usize::MAX
    }

    /// The exponent of `y` used at this party's local index `i`.
    pub open spec fn y_off(&self, i: int) -> nat {
        (self.j * self.n + i) as nat
    }

    /// Applies `y`, `z`: builds the blinded polynomial vectors, commits to
    /// the nonconstant coefficients of `t(X) = <l(X), r(X)>`, and moves to
    /// the round-two state. Every vector entry and coefficient is pinned
    /// exactly; the commitments are pinned relative to the fresh blindings
    /// held in the new state.
    pub fn apply_challenge(self, vc: &BitChallenge) -> (r: (
        PartyAwaitingPolyChallenge,
        PolyCommitment,
    ))
        requires
            self.wf(),
            vc.wf(),
        ensures
            ({
                let (p, pc) = r;
                let y = vc.y.v();
                let z = vc.z.v();
                let zz_zj = smul(smul(z, z), spow(z, self.j as nat));
                &&& p.wf()
                &&& p.n == self.n
                &&& p.l_poly0@.len() == self.n
                &&& (forall|i: int| 0 <= i < self.n
                    ==> (#[trigger] p.l_poly0@[i]).v() == ssub(vbit(self.v, i), z))
                &&& (forall|i: int| 0 <= i < self.n
                    ==> (#[trigger] p.l_poly1@[i]).v() == self.s_l@[i].v())
                &&& (forall|i: int| 0 <= i < self.n
                    ==> (#[trigger] p.r_poly0@[i]).v() == sadd(
                    smul(spow(y, self.y_off(i)), sadd(ssub(vbit(self.v, i), 1), z)),
                    smul(zz_zj, spow(2, i as nat)),
                ))
                &&& (forall|i: int| 0 <= i < self.n
                    ==> (#[trigger] p.r_poly1@[i]).v() == smul(
                    spow(y, self.y_off(i)),
                    self.s_r@[i].v(),
                ))
                &&& p.t_0.v() == ip(scalar_vals(p.l_poly0@), scalar_vals(p.r_poly0@))
                &&& p.t_1.v() == sadd(
                    ip(scalar_vals(p.l_poly0@), scalar_vals(p.r_poly1@)),
                    ip(scalar_vals(p.l_poly1@), scalar_vals(p.r_poly0@)),
                )
                &&& p.t_2.v() == ip(scalar_vals(p.l_poly1@), scalar_vals(p.r_poly1@))
                &&& p.offset_zz.v() == zz_zj
                &&& p.v_blinding.bytes@ == self.v_blinding.bytes@
                &&& p.a_blinding.bytes@ == self.a_blinding.bytes@
                &&& p.s_blinding.bytes@ == self.s_blinding.bytes@
                &&& pc.wf()
                &&& pc.t1_j.bytes@ == msm_of(
                    seq![p.t_1.v(), p.t_1_blinding.v()],
                    seq![self.pc_gens.b.bytes@, self.pc_gens.b_blinding.bytes@],
                )
                &&& pc.t2_j.bytes@ == msm_of(
                    seq![p.t_2.v(), p.t_2_blinding.v()],
                    seq![self.pc_gens.b.bytes@, self.pc_gens.b_blinding.bytes@],
                )
            }),
    {
        let n = self.n;
        proof {
            assert(self.j + 1 <= self.j * self.n + self.n) by (nonlinear_arith)
                requires
                    self.n >= 1,
                    self.j >= 0,
            ;
        }
        let off = self.j * n;
        let ypows = powers(&vc.y, off + n);
        let zpows = powers(&vc.z, self.j + 1);
        let zz = scalar_mul(&vc.z, &vc.z);
        let zz_zj = scalar_mul(&zz, &zpows[self.j]);
        let two = Scalar::from_u64(2);
        let exp2 = powers(&two, n);
        let one = Scalar::from_u64(1);
        proof {
            assert forall|k: int| 0 <= k < off + n implies (#[trigger] ypows@[k]).v() == spow(
                vc.y.v(),
                k as nat,
            ) by {
                assert(scalar_vals(ypows@)[k] == ypows@[k].v());
            }
            assert forall|k: int| 0 <= k < n implies (#[trigger] exp2@[k]).v() == spow(
                2,
                k as nat,
            ) by {
                assert(scalar_vals(exp2@)[k] == exp2@[k].v());
            }
            assert(scalar_vals(zpows@)[self.j as int] == zpows@[self.j as int].v());
        }

        let mut l0: Vec<Scalar> = Vec::new();
        let mut l1: Vec<Scalar> = Vec::new();
        let mut r0: Vec<Scalar> = Vec::new();
        let mut r1: Vec<Scalar> = Vec::new();
        let mut i: usize = 0;
        while i < n
            invariant
                0 <= i <= n,
                n <= 64,
                off == self.j * self.n,
                n == self.n,
                self.wf(),
                vc.wf(),
                one.wf(),
                one.v() == 1,
                zz_zj.wf(),
                zz_zj.v() == smul(smul(vc.z.v(), vc.z.v()), spow(vc.z.v(), self.j as nat)),
                ypows@.len() == off + n,
                scalars_wf(ypows@),
                forall|k: int| 0 <= k < off + n ==> (#[trigger] ypows@[k]).v() == spow(
                    vc.y.v(),
                    k as nat,
                ),
                exp2@.len() == n,
                scalars_wf(exp2@),
                forall|k: int| 0 <= k < n ==> (#[trigger] exp2@[k]).v() == spow(2, k as nat),
                l0@.len() == i,
                l1@.len() == i,
                r0@.len() == i,
                r1@.len() == i,
                scalars_wf(l0@),
                scalars_wf(l1@),
                scalars_wf(r0@),
                scalars_wf(r1@),
                forall|k: int| 0 <= k < i ==> (#[trigger] l0@[k]).v() == ssub(
                    vbit(self.v, k),
                    vc.z.v(),
                ),
                forall|k: int| 0 <= k < i ==> (#[trigger] l1@[k]).v() == self.s_l@[k].v(),
                forall|k: int| 0 <= k < i ==> (#[trigger] r0@[k]).v() == sadd(
                    smul(spow(vc.y.v(), self.y_off(k)), sadd(ssub(vbit(self.v, k), 1), vc.z.v())),
                    smul(zz_zj.v(), spow(2, k as nat)),
                ),
                forall|k: int| 0 <= k < i ==> (#[trigger] r1@[k]).v() == smul(
                    spow(vc.y.v(), self.y_off(k)),
                    self.s_r@[k].v(),
                ),
            decreases n - i,
        {
            let b = bit_scalar(self.v, i);
            l0.push(scalar_sub(&b, &vc.z));
            l1.push(self.s_l[i].dup());
            let ar = scalar_sub(&b, &one);
            let t = scalar_mul(&ypows[off + i], &scalar_add(&ar, &vc.z));
            r0.push(scalar_add(&t, &scalar_mul(&zz_zj, &exp2[i])));
            r1.push(scalar_mul(&ypows[off + i], &self.s_r[i]));
            i = i + 1;
        }

        let t_0 = inner_product(&l0, &r0);
        let t_1a = inner_product(&l0, &r1);
        let t_1b = inner_product(&l1, &r0);
        let t_1 = scalar_add(&t_1a, &t_1b);
        let t_2 = inner_product(&l1, &r1);

        let t_1_blinding = Scalar::random();
        let t_2_blinding = Scalar::random();
        let t1_j = self.pc_gens.commit(&t_1, &t_1_blinding);
        let t2_j = self.pc_gens.commit(&t_2, &t_2_blinding);

        let next = PartyAwaitingPolyChallenge {
            v_blinding: self.v_blinding,
            a_blinding: self.a_blinding,
            s_blinding: self.s_blinding,
            offset_zz: zz_zj,
            n,
            l_poly0: l0,
            l_poly1: l1,
            r_poly0: r0,
            r_poly1: r1,
            t_0,
            t_1,
            t_2,
            t_1_blinding,
            t_2_blinding,
        };
        (next, PolyCommitment { t1_j, t2_j })
    }
}

/// A party that has sent its polynomial commitments and awaits `x`.
pub struct PartyAwaitingPolyChallenge {
    pub v_blinding: Scalar,
    pub a_blinding: Scalar,
    pub s_blinding: Scalar,
    pub offset_zz: Scalar,
    pub n: usize,
    pub l_poly0: Vec<Scalar>,
    pub l_poly1: Vec<Scalar>,
    pub r_poly0: Vec<Scalar>,
    pub r_poly1: Vec<Scalar>,
    pub t_0: Scalar,
    pub t_1: Scalar,
    pub t_2: Scalar,
    pub t_1_blinding: Scalar,
    pub t_2_blinding: Scalar,
}

impl PartyAwaitingPolyChallenge {
    pub open spec fn wf(&self) -> bool {
        &&& self.v_blinding.wf()
        &&& self.a_blinding.wf()
        &&& self.s_blinding.wf()
        &&& self.offset_zz.wf()
        &&& self.t_0.wf()
        &&& self.t_1.wf()
        &&& self.t_2.wf()
        &&& self.t_1_blinding.wf()
        &&& self.t_2_blinding.wf()
        &&& self.l_poly0@.len() == self.n
        &&& self.l_poly1@.len() == self.n
        &&& self.r_poly0@.len() == self.n
        &&& self.r_poly1@.len() == self.n
        &&& scalars_wf(self.l_poly0@)
        &&& scalars_wf(self.l_poly1@)
        &&& scalars_wf(self.r_poly0@)
        &&& scalars_wf(self.r_poly1@)
    }

    /// Applies `x`: evaluates the polynomial vectors and the blinding
    /// openings at `x`. Every output is pinned exactly.
    pub fn apply_challenge(self, pc: &PolyChallenge) -> (r: ProofShare)
        requires
            self.wf(),
            pc.wf(),
        ensures
            r.wf(),
            r.l_vec@.len() == self.n,
            r.r_vec@.len() == self.n,
            forall|i: int| 0 <= i < self.n ==> (#[trigger] r.l_vec@[i]).v() == sadd(
                self.l_poly0@[i].v(),
                smul(pc.x.v(), self.l_poly1@[i].v()),
            ),
            forall|i: int| 0 <= i < self.n ==> (#[trigger] r.r_vec@[i]).v() == sadd(
                self.r_poly0@[i].v(),
                smul(pc.x.v(), self.r_poly1@[i].v()),
            ),
            r.t_x.v() == sadd(
                self.t_0.v(),
                sadd(
                    smul(pc.x.v(), self.t_1.v()),
                    smul(smul(pc.x.v(), pc.x.v()), self.t_2.v()),
                ),
            ),
            r.t_x_blinding.v() == sadd(
                smul(self.offset_zz.v(), self.v_blinding.v()),
                sadd(
                    smul(pc.x.v(), self.t_1_blinding.v()),
                    smul(smul(pc.x.v(), pc.x.v()), self.t_2_blinding.v()),
                ),
            ),
            r.e_blinding.v() == sadd(self.a_blinding.v(), smul(pc.x.v(), self.s_blinding.v())),
    {
        let n = self.n;
        let x = &pc.x;
        let xx = scalar_mul(x, x);

        let mut l_vec: Vec<Scalar> = Vec::new();
        let mut r_vec: Vec<Scalar> = Vec::new();
        let mut i: usize = 0;
        while i < n
            invariant
                0 <= i <= n,
                self.wf(),
                pc.wf(),
                n == self.n,
                l_vec@.len() == i,
                r_vec@.len() == i,
                scalars_wf(l_vec@),
                scalars_wf(r_vec@),
                forall|k: int| 0 <= k < i ==> (#[trigger] l_vec@[k]).v() == sadd(
                    self.l_poly0@[k].v(),
                    smul(pc.x.v(), self.l_poly1@[k].v()),
                ),
                forall|k: int| 0 <= k < i ==> (#[trigger] r_vec@[k]).v() == sadd(
                    self.r_poly0@[k].v(),
                    smul(pc.x.v(), self.r_poly1@[k].v()),
                ),
            decreases n - i,
        {
            l_vec.push(scalar_add(&self.l_poly0[i], &scalar_mul(&pc.x, &self.l_poly1[i])));
            r_vec.push(scalar_add(&self.r_poly0[i], &scalar_mul(&pc.x, &self.r_poly1[i])));
            i = i + 1;
        }

        let t_x = scalar_add(
            &self.t_0,
            &scalar_add(&scalar_mul(x, &self.t_1), &scalar_mul(&xx, &self.t_2)),
        );
        let t_x_blinding = scalar_add(
            &scalar_mul(&self.offset_zz, &self.v_blinding),
            &scalar_add(
                &scalar_mul(x, &self.t_1_blinding),
                &scalar_mul(&xx, &self.t_2_blinding),
            ),
        );
        let e_blinding = scalar_add(&self.a_blinding, &scalar_mul(x, &self.s_blinding));

        ProofShare { t_x, t_x_blinding, e_blinding, l_vec, r_vec }
    }
}

} // verus!
