use vstd::prelude::*;
use vstd::arithmetic::power2::pow2;
use vstd::arithmetic::div_mod::lemma_fundamental_div_mod;
use vstd::bits::lemma_u64_shr_is_div;
use crate::scalar::{sadd, smul, spow, scalar_add, scalar_mul, Scalar};
use crate::points::{msm, msm_of, point_encs, points_wf, scalar_vals, scalars_wf, GroupElem};

verus! {

/// Inner product of two value sequences in the scalar field.
pub open spec fn ip(a: Seq<nat>, b: Seq<nat>) -> nat
    decreases a.len(),
{
    if a.len() == 0 || b.len() == 0 {
        0
    } else {
        sadd(ip(a.drop_last(), b.drop_last()), smul(a.last(), b.last()))
    }
}

/// Sum of a value sequence in the scalar field.
pub open spec fn ssum(s: Seq<nat>) -> nat
    decreases s.len(),
{
    if s.len() == 0 {
        0
    } else {
        sadd(ssum(s.drop_last()), s.last())
    }
}

/// The first `n` powers of `b` in the scalar field.
pub open spec fn pow_seq(b: nat, n: nat) -> Seq<nat> {
    Seq::new(n, |i: int| spow(b, i as nat))
}

/// The sum `1 + b + ... + b^(n-1)` in the scalar field.
pub open spec fn sum_pows(b: nat, n: nat) -> nat {
    ssum(pow_seq(b, n))
}

/// Bit `i` of a 64-bit value.
pub open spec fn vbit(v: u64, i: int) -> nat {
    ((v >> i) & 1) as nat
}

/// A sequence of `n` ones.
pub open spec fn ones_seq(n: nat) -> Seq<nat> {
    Seq::new(n, |i: int| 1nat)
}

/// The scalar holding bit `i` of `v`.
pub(crate) fn bit_scalar(v: u64, i: usize) -> (r: Scalar)
    requires
        i < 64,
    ensures
        r.wf(),
        r.v() == vbit(v, i as int),
{
    let b: u64 = (v >> (i as u64)) & 1;
    Scalar::from_u64(b)
}

/// Whether `v` fits in `n` bits, decided without constructing `2^n`.
pub(crate) fn in_range(v: u64, n: usize) -> (r: bool)
    requires
        n <= 64,
    ensures
        r == ((v as nat) < pow2(n as nat)),
{
    if n == 64 {
        proof {
            vstd::arithmetic::power2::lemma2_to64();
            vstd::arithmetic::power2::lemma2_to64_rest();
        }
        true
    } else {
        let r = (v >> (n as u64)) == 0;
        proof {
            lemma_u64_shr_is_div(v, n as u64);
            vstd::bits::lemma_u64_pow2_no_overflow(n as nat);
            let d = pow2(n as nat) as int;
            let q = (v as int) / d;
            lemma_fundamental_div_mod(v as int, d);
            vstd::arithmetic::div_mod::lemma_mod_division_less_than_divisor(v as int, d);
            if q != 0 {
                vstd::arithmetic::div_mod::lemma_div_pos_is_pos(v as int, d);
                assert(d * q >= d) by (nonlinear_arith)
                    requires
                        q >= 1,
                        d > 0,
                ;
            }
        }
        r
    }
}

/// Inner product of two scalar vectors.
pub(crate) fn inner_product(a: &Vec<Scalar>, b: &Vec<Scalar>) -> (r: Scalar)
    requires
        a@.len() == b@.len(),
        scalars_wf(a@),
        scalars_wf(b@),
    ensures
        r.wf(),
        r.v() == ip(scalar_vals(a@), scalar_vals(b@)),
{
    let mut acc = Scalar::from_u64(0);
    let mut i: usize = 0;
    while i < a.len()
        invariant
            0 <= i <= a@.len(),
            a@.len() == b@.len(),
            scalars_wf(a@),
            scalars_wf(b@),
            acc.wf(),
            acc.v() == ip(scalar_vals(a@).take(i as int), scalar_vals(b@).take(i as int)),
        decreases a@.len() - i,
    {
        let t = scalar_mul(&a[i], &b[i]);
        acc = scalar_add(&acc, &t);
        proof {
            let av = scalar_vals(a@);
            let bv = scalar_vals(b@);
            assert(av.take(i + 1).drop_last() =~= av.take(i as int));
            assert(bv.take(i + 1).drop_last() =~= bv.take(i as int));
        }
        i = i + 1;
    }
    proof {
        assert(scalar_vals(a@).take(a@.len() as int) =~= scalar_vals(a@));
        assert(scalar_vals(b@).take(b@.len() as int) =~= scalar_vals(b@));
    }
    acc
}

/// Sum of a scalar vector.
pub(crate) fn sum_scalars(v: &Vec<Scalar>) -> (r: Scalar)
    requires
        scalars_wf(v@),
    ensures
        r.wf(),
        r.v() == ssum(scalar_vals(v@)),
{
    let mut acc = Scalar::from_u64(0);
    let mut i: usize = 0;
    while i < v.len()
        invariant
            0 <= i <= v@.len(),
            scalars_wf(v@),
            acc.wf(),
            acc.v() == ssum(scalar_vals(v@).take(i as int)),
        decreases v@.len() - i,
    {
        acc = scalar_add(&acc, &v[i]);
        proof {
            let sv = scalar_vals(v@);
            assert(sv.take(i + 1).drop_last() =~= sv.take(i as int));
        }
        i = i + 1;
    }
    proof {
        assert(scalar_vals(v@).take(v@.len() as int) =~= scalar_vals(v@));
    }
    acc
}

/// The first `n` powers of `x`: `1, x, x^2, ...`.
pub(crate) fn powers(x: &Scalar, n: usize) -> (r: Vec<Scalar>)
    requires
        x.wf(),
    ensures
        r@.len() == n,
        scalars_wf(r@),
        scalar_vals(r@) =~= pow_seq(x.v(), n as nat),
{
    let mut out: Vec<Scalar> = Vec::new();
    let mut cur = Scalar::from_u64(1);
    let mut i: usize = 0;
    while i < n
        invariant
            0 <= i <= n,
            x.wf(),
            cur.wf(),
            cur.v() == spow(x.v(), i as nat),
            out@.len() == i,
            scalars_wf(out@),
            forall|j: int| 0 <= j < i ==> out@[j].v() == spow(x.v(), j as nat),
        decreases n - i,
    {
        out.push(cur.dup());
        cur = scalar_mul(x, &cur);
        i = i + 1;
    }
    proof {
        assert(scalar_vals(out@) =~= pow_seq(x.v(), n as nat));
    }
    out
}

/// A vector of `n` scalars all equal to one.
pub(crate) fn ones(n: usize) -> (r: Vec<Scalar>)
    ensures
        r@.len() == n,
        scalars_wf(r@),
        scalar_vals(r@) =~= ones_seq(n as nat),
{
    let mut out: Vec<Scalar> = Vec::new();
    let mut i: usize = 0;
    while i < n
        invariant
            0 <= i <= n,
            out@.len() == i,
            scalars_wf(out@),
            forall|j: int| 0 <= j < i ==> out@[j].v() == 1nat,
        decreases n - i,
    {
        out.push(Scalar::from_u64(1));
        i = i + 1;
    }
    proof {
        assert(scalar_vals(out@) =~= ones_seq(n as nat));
    }
    out
}

/// A two-term multiscalar multiplication: `s1*p1 + s2*p2`.
pub(crate) fn msm2(s1: &Scalar, p1: &GroupElem, s2: &Scalar, p2: &GroupElem) -> (r: GroupElem)
    requires
        s1.wf(),
        s2.wf(),
        p1.wf(),
        p2.wf(),
    ensures
        r.wf(),
        r.bytes@ == msm_of(seq![s1.v(), s2.v()], seq![p1.bytes@, p2.bytes@]),
{
    let mut sv: Vec<Scalar> = Vec::new();
    sv.push(s1.dup());
    sv.push(s2.dup());
    let mut pv: Vec<GroupElem> = Vec::new();
    pv.push(p1.dup());
    pv.push(p2.dup());
    proof {
        assert(scalar_vals(sv@) =~= seq![s1.v(), s2.v()]);
        assert(point_encs(pv@) =~= seq![p1.bytes@, p2.bytes@]);
    }
    msm(&sv, &pv)
}

/// A one-term multiscalar multiplication: `s*p`.
pub(crate) fn msm1(s: &Scalar, p: &GroupElem) -> (r: GroupElem)
    requires
        s.wf(),
        p.wf(),
    ensures
        r.wf(),
        r.bytes@ == msm_of(seq![s.v()], seq![p.bytes@]),
{
    let mut sv: Vec<Scalar> = Vec::new();
    sv.push(s.dup());
    let mut pv: Vec<GroupElem> = Vec::new();
    pv.push(p.dup());
    proof {
        assert(scalar_vals(sv@) =~= seq![s.v()]);
        assert(point_encs(pv@) =~= seq![p.bytes@]);
    }
    msm(&sv, &pv)
}

/// The sum of a vector of group elements, as a multiscalar multiplication by
/// all-one coefficients.
pub(crate) fn sum_points(v: &Vec<GroupElem>) -> (r: GroupElem)
    requires
        points_wf(v@),
    ensures
        r.wf(),
        r.bytes@ == msm_of(ones_seq(v@.len()), point_encs(v@)),
{
    let o = ones(v.len());
    msm(&o, v)
}

/// Folds the two halves of a scalar vector: `out[i] = c1*v[i] + c2*v[h+i]`.
pub(crate) fn fold_scalars(c1: &Scalar, c2: &Scalar, v: &Vec<Scalar>) -> (r: Vec<Scalar>)
    requires
        c1.wf(),
        c2.wf(),
        scalars_wf(v@),
        v@.len() % 2 == 0,
    ensures
        r@.len() == v@.len() / 2,
        scalars_wf(r@),
        forall|i: int| 0 <= i < r@.len() ==> r@[i].v() == sadd(
            smul(c1.v(), v@[i].v()),
            smul(c2.v(), v@[v@.len() / 2 + i].v()),
        ),
{
    let len = v.len();
    let h = len / 2;
    let mut out: Vec<Scalar> = Vec::new();
    let mut i: usize = 0;
    while i < h
        invariant
            0 <= i <= h,
            len == v@.len(),
            h == v@.len() / 2,
            v@.len() % 2 == 0,
            c1.wf(),
            c2.wf(),
            scalars_wf(v@),
            out@.len() == i,
            scalars_wf(out@),
            forall|j: int| 0 <= j < i ==> out@[j].v() == sadd(
                smul(c1.v(), v@[j].v()),
                smul(c2.v(), v@[h + j].v()),
            ),
        decreases h - i,
    {
        let x = scalar_mul(c1, &v[i]);
        let y = scalar_mul(c2, &v[h + i]);
        out.push(scalar_add(&x, &y));
        i = i + 1;
    }
    out
}

/// Folds the two halves of a point vector: `out[i] = c1*v[i] + c2*v[h+i]`.
pub(crate) fn fold_points(c1: &Scalar, c2: &Scalar, v: &Vec<GroupElem>) -> (r: Vec<GroupElem>)
    requires
        c1.wf(),
        c2.wf(),
        points_wf(v@),
        v@.len() % 2 == 0,
    ensures
        r@.len() == v@.len() / 2,
        points_wf(r@),
        forall|i: int| 0 <= i < r@.len() ==> r@[i].bytes@ == msm_of(
            seq![c1.v(), c2.v()],
            seq![v@[i].bytes@, v@[v@.len() / 2 + i].bytes@],
        ),
{
    let len = v.len();
    let h = len / 2;
    let mut out: Vec<GroupElem> = Vec::new();
    let mut i: usize = 0;
    while i < h
        invariant
            0 <= i <= h,
            len == v@.len(),
            h == v@.len() / 2,
            v@.len() % 2 == 0,
            c1.wf(),
            c2.wf(),
            points_wf(v@),
            out@.len() == i,
            points_wf(out@),
            forall|j: int| 0 <= j < i ==> out@[j].bytes@ == msm_of(
                seq![c1.v(), c2.v()],
                seq![v@[j].bytes@, v@[h + j].bytes@],
            ),
        decreases h - i,
    {
        out.push(msm2(c1, &v[i], c2, &v[h + i]));
        i = i + 1;
    }
    out
}

/// Appends copies of all scalars in `src` to `dst`.
pub(crate) fn extend_scalars(dst: &mut Vec<Scalar>, src: &Vec<Scalar>)
    requires
        scalars_wf(old(dst)@),
        scalars_wf(src@),
    ensures
        final(dst)@.len() == old(dst)@.len() + src@.len(),
        scalars_wf(final(dst)@),
        forall|i: int| 0 <= i < old(dst)@.len() ==> final(dst)@[i] == old(dst)@[i],
        forall|i: int| 0 <= i < src@.len()
            ==> (#[trigger] final(dst)@[old(dst)@.len() + i]).bytes@ == src@[i].bytes@,
        forall|i: int| old(dst)@.len() <= i < final(dst)@.len()
            ==> (#[trigger] final(dst)@[i]).bytes@ == src@[i - old(dst)@.len()].bytes@,
{
    let mut i: usize = 0;
    while i < src.len()
        invariant
            0 <= i <= src@.len(),
            scalars_wf(src@),
            scalars_wf(dst@),
            dst@.len() == old(dst)@.len() + i,
            forall|j: int| 0 <= j < old(dst)@.len() ==> dst@[j] == old(dst)@[j],
            forall|j: int| 0 <= j < i
                ==> (#[trigger] dst@[old(dst)@.len() + j]).bytes@ == src@[j].bytes@,
        decreases src@.len() - i,
    {
        dst.push(src[i].dup());
        i = i + 1;
    }
    proof {
        assert forall|i: int| old(dst)@.len() <= i < dst@.len() implies (#[trigger] dst@[i]).bytes@
            == src@[i - old(dst)@.len()].bytes@ by {
            assert(dst@[old(dst)@.len() + (i - old(dst)@.len())].bytes@ == src@[i - old(
                dst,
            )@.len()].bytes@);
        }
    }
}

/// Appends copies of all points in `src` to `dst`.
pub(crate) fn extend_points(dst: &mut Vec<GroupElem>, src: &Vec<GroupElem>)
    requires
        points_wf(old(dst)@),
        points_wf(src@),
    ensures
        final(dst)@.len() == old(dst)@.len() + src@.len(),
        points_wf(final(dst)@),
        forall|i: int| 0 <= i < old(dst)@.len() ==> final(dst)@[i] == old(dst)@[i],
        forall|i: int| 0 <= i < src@.len()
            ==> (#[trigger] final(dst)@[old(dst)@.len() + i]).bytes@ == src@[i].bytes@,
        forall|i: int| old(dst)@.len() <= i < final(dst)@.len()
            ==> (#[trigger] final(dst)@[i]).bytes@ == src@[i - old(dst)@.len()].bytes@,
{
    let mut i: usize = 0;
    while i < src.len()
        invariant
            0 <= i <= src@.len(),
            points_wf(src@),
            points_wf(dst@),
            dst@.len() == old(dst)@.len() + i,
            forall|j: int| 0 <= j < old(dst)@.len() ==> dst@[j] == old(dst)@[j],
            forall|j: int| 0 <= j < i
                ==> (#[trigger] dst@[old(dst)@.len() + j]).bytes@ == src@[j].bytes@,
        decreases src@.len() - i,
    {
        dst.push(src[i].dup());
        i = i + 1;
    }
    proof {
        assert forall|i: int| old(dst)@.len() <= i < dst@.len() implies (#[trigger] dst@[i]).bytes@
            == src@[i - old(dst)@.len()].bytes@ by {
            assert(dst@[old(dst)@.len() + (i - old(dst)@.len())].bytes@ == src@[i - old(
                dst,
            )@.len()].bytes@);
        }
    }
}

/// A vector of `n` freshly sampled random scalars.
pub(crate) fn random_scalars(n: usize) -> (r: Vec<Scalar>)
    ensures
        r@.len() == n,
        scalars_wf(r@),
{
    let mut out: Vec<Scalar> = Vec::new();
    let mut i: usize = 0;
    while i < n
        invariant
            0 <= i <= n,
            out@.len() == i,
            scalars_wf(out@),
        decreases n - i,
    {
        out.push(Scalar::random());
        i = i + 1;
    }
    out
}

/// Copies `v[from..to]` into a fresh vector.
pub(crate) fn slice_scalars(v: &Vec<Scalar>, from: usize, to: usize) -> (r: Vec<Scalar>)
    requires
        from <= to <= v@.len(),
        scalars_wf(v@),
    ensures
        r@.len() == to - from,
        scalars_wf(r@),
        forall|i: int| 0 <= i < to - from ==> (#[trigger] r@[i]).bytes@ == v@[from + i].bytes@,
{
    let mut out: Vec<Scalar> = Vec::new();
    let mut i: usize = from;
    while i < to
        invariant
            from <= i <= to,
            to <= v@.len(),
            scalars_wf(v@),
            out@.len() == i - from,
            scalars_wf(out@),
            forall|j: int| 0 <= j < i - from ==> (#[trigger] out@[j]).bytes@ == v@[from + j].bytes@,
        decreases to - i,
    {
        out.push(v[i].dup());
        i = i + 1;
    }
    out
}

/// Copies `v[from..to]` into a fresh vector.
pub(crate) fn slice_points(v: &Vec<GroupElem>, from: usize, to: usize) -> (r: Vec<GroupElem>)
    requires
        from <= to <= v@.len(),
        points_wf(v@),
    ensures
        r@.len() == to - from,
        points_wf(r@),
        forall|i: int| 0 <= i < to - from ==> (#[trigger] r@[i]).bytes@ == v@[from + i].bytes@,
{
    let mut out: Vec<GroupElem> = Vec::new();
    let mut i: usize = from;
    while i < to
        invariant
            from <= i <= to,
            to <= v@.len(),
            points_wf(v@),
            out@.len() == i - from,
            points_wf(out@),
            forall|j: int| 0 <= j < i - from ==> (#[trigger] out@[j]).bytes@ == v@[from + j].bytes@,
        decreases to - i,
    {
        out.push(v[i].dup());
        i = i + 1;
    }
    out
}

/// A product of two powers of two is a power of two.
pub proof fn lemma_pow2_mul(a: nat, b: nat)
    requires
        is_pow2(a),
        is_pow2(b),
    ensures
        is_pow2(a * b),
    decreases b,
{
    if b == 1 {
        assert(a * 1 == a) by (nonlinear_arith);
    } else {
        let h = b / 2;
        lemma_pow2_mul(a, h);
        assert(b == 2 * h);
        assert(a * b == 2 * (a * h)) by (nonlinear_arith)
            requires
                b == 2 * h,
        ;
        assert((a * b) % 2 == 0 && (a * b) / 2 == a * h);
        assert(a * b >= 2) by (nonlinear_arith)
            requires
                a >= 1,
                b >= 2,
        ;
    }
}

/// Whether `x` is a power of two.
pub open spec fn is_pow2(x: nat) -> bool
    decreases x,
{
    if x == 0 {
        false
    } else if x == 1 {
        true
    } else {
        x % 2 == 0 && is_pow2(x / 2)
    }
}

/// Decides whether `x` is a power of two.
pub(crate) fn check_pow2(x: usize) -> (r: bool)
    ensures
        r == is_pow2(x as nat),
{
    if x == 0 {
        return false;
    }
    let mut y = x;
    while y > 1
        invariant
            y >= 1,
            is_pow2(x as nat) == is_pow2(y as nat),
        decreases y,
    {
        if y % 2 == 1 {
            return false;
        }
        y = y / 2;
    }
    true
}

/// The base-two logarithm of a power of two.
pub open spec fn log2(x: nat) -> nat
    decreases x,
{
    if x <= 1 {
        0
    } else {
        1 + log2(x / 2)
    }
}

/// The base-two logarithm is no larger than its argument.
pub proof fn lemma_log2_le(x: nat)
    ensures
        log2(x) <= x,
    decreases x,
{
    if x > 1 {
        lemma_log2_le(x / 2);
    }
}

/// Computes the base-two logarithm of a power of two.
pub(crate) fn compute_log2(x: usize) -> (r: usize)
    requires
        x >= 1,
    ensures
        r == log2(x as nat),
{
    let mut y = x;
    let mut k: usize = 0;
    while y > 1
        invariant
            y >= 1,
            k + log2(y as nat) == log2(x as nat),
            y <= x,
        decreases y,
    {
        y = y / 2;
        proof {
            lemma_log2_le(x as nat);
        }
        k = k + 1;
    }
    k
}

} // verus!
