use vstd::prelude::*;
use crate::points::{msm_of, point_encs, points_wf, scalar_vals, scalars_wf, GroupElem};
use crate::points::msm;
use crate::scalar::{sadd, smul, scalar_invert, Scalar};
use crate::transcript::{append_point, challenge_scalar};
use crate::util::{
    extend_points, extend_scalars, fold_points, fold_scalars, inner_product, ip, is_pow2, log2,
    slice_points, slice_scalars,
};

verus! {

/// One fold of a value vector with a challenge pair: the low half scaled by
/// `u` plus the high half scaled by `ui`.
pub open spec fn spec_fold_once(av: Seq<nat>, u: nat, ui: nat) -> Seq<nat> {
    let h = av.len() as int / 2;
    Seq::new((av.len() / 2) as nat, |i: int| sadd(smul(u, av[i]), smul(ui, av[h + i])))
}

/// The value vector after folding with each challenge pair in turn.
pub open spec fn spec_fold_all(av: Seq<nat>, us: Seq<nat>, uis: Seq<nat>) -> Seq<nat>
    decreases us.len(),
{
    if us.len() == 0 {
        av
    } else {
        spec_fold_all(spec_fold_once(av, us[0], uis[0]), us.skip(1), uis.skip(1))
    }
}

/// Folding with one more challenge pair is one more fold at the end.
proof fn lemma_fold_all_snoc(av: Seq<nat>, us: Seq<nat>, uis: Seq<nat>, u: nat, ui: nat)
    requires
        us.len() == uis.len(),
    ensures
        spec_fold_all(av, us.push(u), uis.push(ui)) == spec_fold_once(
            spec_fold_all(av, us, uis),
            u,
            ui,
        ),
    decreases us.len(),
{
    reveal_with_fuel(spec_fold_all, 3);
    if us.len() == 0 {
        assert(us.push(u).skip(1) =~= Seq::<nat>::empty());
        assert(uis.push(ui).skip(1) =~= Seq::<nat>::empty());
        assert(us.push(u)[0] == u);
        assert(uis.push(ui)[0] == ui);
    } else {
        assert(us.push(u).skip(1) =~= us.skip(1).push(u));
        assert(uis.push(ui).skip(1) =~= uis.skip(1).push(ui));
        assert(us.push(u)[0] == us[0]);
        assert(uis.push(ui)[0] == uis[0]);
        lemma_fold_all_snoc(spec_fold_once(av, us[0], uis[0]), us.skip(1), uis.skip(1), u, ui);
        assert(spec_fold_all(av, us.push(u), uis.push(ui)) == spec_fold_all(
            spec_fold_once(av, us[0], uis[0]),
            us.skip(1).push(u),
            uis.skip(1).push(ui),
        ));
        assert(spec_fold_all(av, us, uis) == spec_fold_all(
            spec_fold_once(av, us[0], uis[0]),
            us.skip(1),
            uis.skip(1),
        ));
    }
}

/// The scalars of a round's left cross commitment: the low half of `a`, the
/// high half of `b`, and their inner product.
pub open spec fn spec_cross_l_scalars(av: Seq<nat>, bv: Seq<nat>) -> Seq<nat> {
    let h = av.len() as int / 2;
    av.take(h) + bv.skip(h) + seq![ip(av.take(h), bv.skip(h))]
}

/// The points of a round's left cross commitment: the high half of `G`, the
/// low half of `H`, and the combining base.
pub open spec fn spec_cross_l_points(ge: Seq<Seq<u8>>, he: Seq<Seq<u8>>, qe: Seq<u8>) -> Seq<
    Seq<u8>,
> {
    let h = ge.len() as int / 2;
    ge.skip(h) + he.take(h) + seq![qe]
}

/// The scalars of a round's right cross commitment.
pub open spec fn spec_cross_r_scalars(av: Seq<nat>, bv: Seq<nat>) -> Seq<nat> {
    let h = av.len() as int / 2;
    av.skip(h) + bv.take(h) + seq![ip(av.skip(h), bv.take(h))]
}

/// The points of a round's right cross commitment.
pub open spec fn spec_cross_r_points(ge: Seq<Seq<u8>>, he: Seq<Seq<u8>>, qe: Seq<u8>) -> Seq<
    Seq<u8>,
> {
    let h = ge.len() as int / 2;
    ge.take(h) + he.skip(h) + seq![qe]
}

/// The two cross commitments of one halving round, pinned exactly as
/// multiscalar multiplications of the current halves. They depend only on
/// the state before the challenge, so together with the exact contracts of
/// `fold_scalars` and `fold_points` every quantity a round produces is fixed
/// by a verified contract.
#[verifier::rlimit(30)]
fn ipp_cross_commitments(
    q: &GroupElem,
    g: &Vec<GroupElem>,
    h: &Vec<GroupElem>,
    a: &Vec<Scalar>,
    b: &Vec<Scalar>,
) -> (r: (GroupElem, GroupElem))
    requires
        q.wf(),
        points_wf(g@),
        points_wf(h@),
        scalars_wf(a@),
        scalars_wf(b@),
        g@.len() == a@.len(),
        h@.len() == a@.len(),
        b@.len() == a@.len(),
        a@.len() % 2 == 0,
        a@.len() >= 2,
    ensures
        ({
            let (l, rr) = r;
            &&& l.wf()
            &&& rr.wf()
            &&& l.bytes@ == msm_of(
                spec_cross_l_scalars(scalar_vals(a@), scalar_vals(b@)),
                spec_cross_l_points(point_encs(g@), point_encs(h@), q.bytes@),
            )
            &&& rr.bytes@ == msm_of(
                spec_cross_r_scalars(scalar_vals(a@), scalar_vals(b@)),
                spec_cross_r_points(point_encs(g@), point_encs(h@), q.bytes@),
            )
        }),
{
    let n = a.len();
    let half = n / 2;
    let a_lo = slice_scalars(a, 0, half);
    let a_hi = slice_scalars(a, half, n);
    let b_lo = slice_scalars(b, 0, half);
    let b_hi = slice_scalars(b, half, n);
    let g_lo = slice_points(g, 0, half);
    let g_hi = slice_points(g, half, n);
    let h_lo = slice_points(h, 0, half);
    let h_hi = slice_points(h, half, n);
    proof {
        assert(scalar_vals(a_lo@) =~= scalar_vals(a@).take(half as int));
        assert(scalar_vals(a_hi@) =~= scalar_vals(a@).skip(half as int));
        assert(scalar_vals(b_lo@) =~= scalar_vals(b@).take(half as int));
        assert(scalar_vals(b_hi@) =~= scalar_vals(b@).skip(half as int));
        assert(point_encs(g_lo@) =~= point_encs(g@).take(half as int));
        assert(point_encs(g_hi@) =~= point_encs(g@).skip(half as int));
        assert(point_encs(h_lo@) =~= point_encs(h@).take(half as int));
        assert(point_encs(h_hi@) =~= point_encs(h@).skip(half as int));
    }

    let c_l = inner_product(&a_lo, &b_hi);
    let c_r = inner_product(&a_hi, &b_lo);

    let mut l_scalars: Vec<Scalar> = Vec::new();
    extend_scalars(&mut l_scalars, &a_lo);
    let ghost ls1 = l_scalars@;
    extend_scalars(&mut l_scalars, &b_hi);
    let ghost ls2 = l_scalars@;
    l_scalars.push(c_l);
    let mut l_points: Vec<GroupElem> = Vec::new();
    extend_points(&mut l_points, &g_hi);
    let ghost lp1 = l_points@;
    extend_points(&mut l_points, &h_lo);
    let ghost lp2 = l_points@;
    l_points.push(q.dup());
    proof {
        assert forall|t: int| 0 <= t < 2 * half + 1 implies #[trigger] scalar_vals(l_scalars@)[t]
            == spec_cross_l_scalars(scalar_vals(a@), scalar_vals(b@))[t] by {
            if t < half {
                assert(l_scalars@[t] == ls2[t]);
                assert(ls2[t] == ls1[t]);
            } else if t < 2 * half {
                assert(l_scalars@[t] == ls2[t]);
                assert(ls2[ls1.len() + (t - half)].bytes@ == b_hi@[t - half].bytes@);
            }
        }
        assert(scalar_vals(l_scalars@) =~= spec_cross_l_scalars(
            scalar_vals(a@),
            scalar_vals(b@),
        ));
        assert forall|t: int| 0 <= t < 2 * half + 1 implies #[trigger] point_encs(l_points@)[t]
            == spec_cross_l_points(point_encs(g@), point_encs(h@), q.bytes@)[t] by {
            if t < half {
                assert(l_points@[t] == lp2[t]);
                assert(lp2[t] == lp1[t]);
            } else if t < 2 * half {
                assert(l_points@[t] == lp2[t]);
                assert(lp2[lp1.len() + (t - half)].bytes@ == h_lo@[t - half].bytes@);
            }
        }
        assert(point_encs(l_points@) =~= spec_cross_l_points(
            point_encs(g@),
            point_encs(h@),
            q.bytes@,
        ));
    }
    let l = msm(&l_scalars, &l_points);

    let mut r_scalars: Vec<Scalar> = Vec::new();
    extend_scalars(&mut r_scalars, &a_hi);
    let ghost rs1 = r_scalars@;
    extend_scalars(&mut r_scalars, &b_lo);
    let ghost rs2 = r_scalars@;
    r_scalars.push(c_r);
    let mut r_points: Vec<GroupElem> = Vec::new();
    extend_points(&mut r_points, &g_lo);
    let ghost rp1 = r_points@;
    extend_points(&mut r_points, &h_hi);
    let ghost rp2 = r_points@;
    r_points.push(q.dup());
    proof {
        assert forall|t: int| 0 <= t < 2 * half + 1 implies #[trigger] scalar_vals(r_scalars@)[t]
            == spec_cross_r_scalars(scalar_vals(a@), scalar_vals(b@))[t] by {
            if t < half {
                assert(r_scalars@[t] == rs2[t]);
                assert(rs2[t] == rs1[t]);
            } else if t < 2 * half {
                assert(r_scalars@[t] == rs2[t]);
                assert(rs2[rs1.len() + (t - half)].bytes@ == b_lo@[t - half].bytes@);
            }
        }
        assert(scalar_vals(r_scalars@) =~= spec_cross_r_scalars(
            scalar_vals(a@),
            scalar_vals(b@),
        ));
        assert forall|t: int| 0 <= t < 2 * half + 1 implies #[trigger] point_encs(r_points@)[t]
            == spec_cross_r_points(point_encs(g@), point_encs(h@), q.bytes@)[t] by {
            if t < half {
                assert(r_points@[t] == rp2[t]);
                assert(rp2[t] == rp1[t]);
            } else if t < 2 * half {
                assert(r_points@[t] == rp2[t]);
                assert(rp2[rp1.len() + (t - half)].bytes@ == h_hi@[t - half].bytes@);
            }
        }
        assert(point_encs(r_points@) =~= spec_cross_r_points(
            point_encs(g@),
            point_encs(h@),
            q.bytes@,
        ));
    }
    let rr = msm(&r_scalars, &r_points);

    (l, rr)
}

/// A proof that a committed pair of vectors has a claimed inner product,
/// holding one `(L, R)` pair per halving round and the two closing scalars.
#[derive(PartialEq, Eq)]
pub struct InnerProductProof {
    pub l_vec: Vec<GroupElem>,
    pub r_vec: Vec<GroupElem>,
    pub a: Scalar,
    pub b: Scalar,
}

impl InnerProductProof {
    pub open spec fn wf(&self) -> bool {
        &&& points_wf(self.l_vec@)
        &&& points_wf(self.r_vec@)
        &&& self.l_vec@.len() == self.r_vec@.len()
        &&& self.a.wf()
        &&& self.b.wf()
    }

    /// Builds the proof by recursive halving: each round commits to the two
    /// cross terms, draws a challenge from the transcript, and folds the
    /// vectors and generators. The number of rounds is exactly the base-two
    /// logarithm of the vector length; the challenges come from the opaque
    /// transcript, so the rounds' contents are stated well-formed.
    pub fn create(
        transcript: &mut merlin::Transcript,
        q: &GroupElem,
        g_vec: Vec<GroupElem>,
        h_vec: Vec<GroupElem>,
        a_vec: Vec<Scalar>,
        b_vec: Vec<Scalar>,
    ) -> (r: InnerProductProof)
        requires
            q.wf(),
            points_wf(g_vec@),
            points_wf(h_vec@),
            scalars_wf(a_vec@),
            scalars_wf(b_vec@),
            g_vec@.len() == a_vec@.len(),
            h_vec@.len() == a_vec@.len(),
            b_vec@.len() == a_vec@.len(),
            is_pow2(a_vec@.len()),
        ensures
            r.wf(),
            r.l_vec@.len() == log2(a_vec@.len()),
            exists|us: Seq<nat>, uis: Seq<nat>|
                us.len() == log2(a_vec@.len()) && uis.len() == us.len() && r.a.v()
                    == spec_fold_all(scalar_vals(a_vec@), us, uis)[0] && r.b.v()
                    == spec_fold_all(scalar_vals(b_vec@), uis, us)[0],
    {
        let mut g = g_vec;
        let mut h = h_vec;
        let mut a = a_vec;
        let mut b = b_vec;
        let mut l_out: Vec<GroupElem> = Vec::new();
        let mut r_out: Vec<GroupElem> = Vec::new();
        let mut n = a.len();
        let ghost mut us: Seq<nat> = Seq::empty();
        let ghost mut uis: Seq<nat> = Seq::empty();
        proof {
            assert(scalar_vals(a@) =~= spec_fold_all(scalar_vals(a_vec@), us, uis));
            assert(scalar_vals(b@) =~= spec_fold_all(scalar_vals(b_vec@), uis, us));
        }
        while n > 1
            invariant
                q.wf(),
                points_wf(g@),
                points_wf(h@),
                scalars_wf(a@),
                scalars_wf(b@),
                g@.len() == n,
                h@.len() == n,
                a@.len() == n,
                b@.len() == n,
                is_pow2(n as nat),
                points_wf(l_out@),
                points_wf(r_out@),
                l_out@.len() == r_out@.len(),
                l_out@.len() + log2(n as nat) == log2(a_vec@.len()),
                us.len() == l_out@.len(),
                uis.len() == l_out@.len(),
                scalar_vals(a@) == spec_fold_all(scalar_vals(a_vec@), us, uis),
                scalar_vals(b@) == spec_fold_all(scalar_vals(b_vec@), uis, us),
            decreases n,
        {
            let half = n / 2;
            proof {
                assert(n % 2 == 0 && is_pow2((n / 2) as nat));
                assert(log2(n as nat) == 1 + log2((n / 2) as nat));
            }
            let (l, rr) = ipp_cross_commitments(q, &g, &h, &a, &b);
            append_point(transcript, "ipp L", &l);
            append_point(transcript, "ipp R", &rr);
            let u = challenge_scalar(transcript, "ipp u");
            let u_inv = scalar_invert(&u);

            let ghost a_before = scalar_vals(a@);
            let ghost b_before = scalar_vals(b@);
            a = fold_scalars(&u, &u_inv, &a);
            b = fold_scalars(&u_inv, &u, &b);
            g = fold_points(&u_inv, &u, &g);
            h = fold_points(&u, &u_inv, &h);
            proof {
                lemma_fold_all_snoc(scalar_vals(a_vec@), us, uis, u.v(), u_inv.v());
                lemma_fold_all_snoc(scalar_vals(b_vec@), uis, us, u_inv.v(), u.v());
                assert(scalar_vals(a@) =~= spec_fold_once(a_before, u.v(), u_inv.v()));
                assert(scalar_vals(b@) =~= spec_fold_once(b_before, u_inv.v(), u.v()));
                us = us.push(u.v());
                uis = uis.push(u_inv.v());
            }

            l_out.push(l);
            r_out.push(rr);
            n = half;
        }
        let a0 = a[0].dup();
        let b0 = b[0].dup();
        proof {
            assert(a0.v() == spec_fold_all(scalar_vals(a_vec@), us, uis)[0]) by {
                assert(scalar_vals(a@)[0] == a@[0].v());
            }
            assert(b0.v() == spec_fold_all(scalar_vals(b_vec@), uis, us)[0]) by {
                assert(scalar_vals(b@)[0] == b@[0].v());
            }
        }
        InnerProductProof { l_vec: l_out, r_vec: r_out, a: a0, b: b0 }
    }
}

} // verus!
