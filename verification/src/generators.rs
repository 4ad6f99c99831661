use vstd::prelude::*;
use sha3::digest::{ExtendableOutput, Update, XofReader};
use crate::errors::ProofError;
use crate::points::{point_from_uniform, point_from_uniform_bytes, GroupElem};
use crate::scalar::Scalar;
use crate::util::msm2;
use crate::points::msm_of;

verus! {

/// Names the result of the `sha3::Shake256` extendable-output function read
/// at 64 bytes: a function of the input bytes alone.
pub uninterp spec fn shake256_64(input: Seq<u8>) -> Seq<u8>;

/// Relies on `sha3::Shake256`: absorbs the input and reads a 64-byte digest,
/// a deterministic function of the input bytes.
#[verifier::external_body]
pub(crate) fn shake256(input: &Vec<u8>) -> (r: Vec<u8>)
    ensures
        r@ == shake256_64(input@),
        r@.len() == 64,
{
    let mut h = sha3::Shake256::default();
    h.update(input.as_slice());
    let mut reader = h.finalize_xof();
    let mut out = vec![0u8; 64];
    reader.read(&mut out);
    out
}

/// The seed from which the generator at a flat index is derived: one family
/// byte followed by the index in little-endian order. The party count never
/// enters, so generator sets of different sizes agree on shared indices.
pub open spec fn derive_seed(family: u8, index: u64) -> Seq<u8> {
    seq![
        family,
        (index & 0xff) as u8,
        ((index >> 8) & 0xff) as u8,
        ((index >> 16) & 0xff) as u8,
        ((index >> 24) & 0xff) as u8,
        ((index >> 32) & 0xff) as u8,
        ((index >> 40) & 0xff) as u8,
        ((index >> 48) & 0xff) as u8,
        ((index >> 56) & 0xff) as u8,
    ]
}

/// The encoding of the generator for a family and flat index.
pub open spec fn gen_enc(family: u8, index: u64) -> Seq<u8> {
    point_from_uniform(shake256_64(derive_seed(family, index)))
}

/// Derives the generator point for a family and flat index.
fn derive_point(family: u8, index: u64) -> (r: GroupElem)
    ensures
        r.wf(),
        r.bytes@ == gen_enc(family, index),
{
    let mut seed: Vec<u8> = Vec::new();
    seed.push(family);
    seed.push((index & 0xff) as u8);
    seed.push(((index >> 8) & 0xff) as u8);
    seed.push(((index >> 16) & 0xff) as u8);
    seed.push(((index >> 24) & 0xff) as u8);
    seed.push(((index >> 32) & 0xff) as u8);
    seed.push(((index >> 40) & 0xff) as u8);
    seed.push(((index >> 48) & 0xff) as u8);
    seed.push(((index >> 56) & 0xff) as u8);
    proof {
        assert(seed@ =~= derive_seed(family, index));
    }
    let h = shake256(&seed);
    point_from_uniform_bytes(&h)
}

/// The family byte of the Pedersen value base.
pub open spec fn fam_pedersen_b() -> u8 {
    0x42
}

/// The family byte of the Pedersen blinding base.
pub open spec fn fam_pedersen_b_blinding() -> u8 {
    0x62
}

/// The family byte of the `G` generator vector.
pub open spec fn fam_g() -> u8 {
    0x47
}

/// The family byte of the `H` generator vector.
pub open spec fn fam_h() -> u8 {
    0x48
}

/// The two fixed Pedersen bases: `B` for values, `B_blinding` for blindings.
pub struct PedersenGens {
    pub b: GroupElem,
    pub b_blinding: GroupElem,
}

impl PedersenGens {
    /// The bases are the fixed, deterministically derived standard pair.
    pub open spec fn wf(&self) -> bool {
        &&& self.b.wf()
        &&& self.b_blinding.wf()
        &&& self.b.bytes@ == gen_enc(fam_pedersen_b(), 0)
        &&& self.b_blinding.bytes@ == gen_enc(fam_pedersen_b_blinding(), 0)
    }

    /// The standard base pair, derived deterministically; never fails.
    pub fn default() -> (r: PedersenGens)
        ensures
            r.wf(),
    {
        PedersenGens {
            b: derive_point(0x42, 0),
            b_blinding: derive_point(0x62, 0),
        }
    }

    /// The Pedersen commitment `value*B + blinding*B_blinding`.
    pub fn commit(&self, value: &Scalar, blinding: &Scalar) -> (r: GroupElem)
        requires
            self.wf(),
            value.wf(),
            blinding.wf(),
        ensures
            r.wf(),
            r.bytes@ == msm_of(
                seq![value.v(), blinding.v()],
                seq![self.b.bytes@, self.b_blinding.bytes@],
            ),
    {
        msm2(value, &self.b, blinding, &self.b_blinding)
    }
}

/// The generator vectors for the inner-product argument, partitioned into
/// contiguous per-party shares of `gens_capacity` points each.
pub struct BulletproofGens {
    pub gens_capacity: usize,
    pub party_capacity: usize,
    pub g_vec: Vec<GroupElem>,
    pub h_vec: Vec<GroupElem>,
}

impl BulletproofGens {
    /// Both families hold one deterministically derived point per flat index,
    /// depending only on that index and the family label.
    pub open spec fn wf(&self) -> bool {
        &&& self.g_vec@.len() == self.gens_capacity * self.party_capacity
        &&& self.h_vec@.len() == self.gens_capacity * self.party_capacity
        &&& forall|k: int| 0 <= k < self.g_vec@.len() ==> (#[trigger] self.g_vec@[k]).wf()
            && self.g_vec@[k].bytes@ == gen_enc(fam_g(), k as u64)
        &&& forall|k: int| 0 <= k < self.h_vec@.len() ==> (#[trigger] self.h_vec@[k]).wf()
            && self.h_vec@[k].bytes@ == gen_enc(fam_h(), k as u64)
    }

    /// Derives `gens_capacity * party_capacity` generators per family.
    pub fn new(gens_capacity: usize, party_capacity: usize) -> (r: BulletproofGens)
        requires
            gens_capacity * party_capacity <= usize::MAX,
        ensures
            r.wf(),
            r.gens_capacity == gens_capacity,
            r.party_capacity == party_capacity,
    {
        let total: usize = gens_capacity * party_capacity;
        let mut g_vec: Vec<GroupElem> = Vec::new();
        let mut h_vec: Vec<GroupElem> = Vec::new();
        let mut k: usize = 0;
        while k < total
            invariant
                0 <= k <= total,
                g_vec@.len() == k,
                h_vec@.len() == k,
                forall|j: int| 0 <= j < k ==> (#[trigger] g_vec@[j]).wf()
                    && g_vec@[j].bytes@ == gen_enc(fam_g(), j as u64),
                forall|j: int| 0 <= j < k ==> (#[trigger] h_vec@[j]).wf()
                    && h_vec@[j].bytes@ == gen_enc(fam_h(), j as u64),
            decreases total - k,
        {
            g_vec.push(derive_point(0x47, k as u64));
            h_vec.push(derive_point(0x48, k as u64));
            k = k + 1;
        }
        BulletproofGens { gens_capacity, party_capacity, g_vec, h_vec }
    }

    /// The view of the generators reserved for one party; fails on an
    /// out-of-range party index.
    pub fn share<'a>(&'a self, j: usize) -> (r: Result<BulletproofGensShare<'a>, ProofError>)
        requires
            self.wf(),
        ensures
            r is Ok <==> j < self.party_capacity,
            r matches Ok(s) ==> s.gens == self && s.share == j,
            r is Err ==> r == Err::<BulletproofGensShare<'a>, ProofError>(
                ProofError::InvalidGeneratorsLength,
            ),
    {
        if j < self.party_capacity {
            Ok(BulletproofGensShare { gens: self, share: j })
        } else {
            Err(ProofError::InvalidGeneratorsLength)
        }
    }
}

/// Generator sets of any sizes agree on every flat index they share: the
/// derivation depends only on the index and family, never on the capacities,
/// so proofs built from differently sized sets stay mutually verifiable.
pub proof fn lemma_generators_flat_index(g1: BulletproofGens, g2: BulletproofGens, k: int)
    requires
        g1.wf(),
        g2.wf(),
        0 <= k < g1.g_vec@.len(),
        k < g2.g_vec@.len(),
    ensures
        g1.g_vec@[k].bytes@ == g2.g_vec@[k].bytes@,
        g1.h_vec@[k].bytes@ == g2.h_vec@[k].bytes@,
{
}

/// A read-only view of the generator slice reserved for one party.
pub struct BulletproofGensShare<'a> {
    pub gens: &'a BulletproofGens,
    pub share: usize,
}

impl<'a> BulletproofGensShare<'a> {
    /// The underlying set is well-formed and the party index is in range.
    pub open spec fn wf(&self) -> bool {
        &&& self.gens.wf()
        &&& self.share < self.gens.party_capacity
    }

    /// The flat index of this share's `i`-th generator.
    pub open spec fn flat(&self, i: int) -> int {
        self.share * self.gens.gens_capacity + i
    }

    /// This share's `i`-th `G` generator.
    pub fn g(&self, i: usize) -> (r: &'a GroupElem)
        requires
            self.wf(),
            i < self.gens.gens_capacity,
        ensures
            r.wf(),
            r.bytes@ == gen_enc(fam_g(), self.flat(i as int) as u64),
    {
        let len = self.gens.g_vec.len();
        proof {
            lemma_share_flat_in_bounds(self, i as int);
        }
        &self.gens.g_vec[self.share * self.gens.gens_capacity + i]
    }

    /// This share's `i`-th `H` generator.
    pub fn h(&self, i: usize) -> (r: &'a GroupElem)
        requires
            self.wf(),
            i < self.gens.gens_capacity,
        ensures
            r.wf(),
            r.bytes@ == gen_enc(fam_h(), self.flat(i as int) as u64),
    {
        let len = self.gens.h_vec.len();
        proof {
            lemma_share_flat_in_bounds(self, i as int);
        }
        &self.gens.h_vec[self.share * self.gens.gens_capacity + i]
    }
}

/// A share's flat indices stay inside the generator vectors.
pub proof fn lemma_share_flat_in_bounds(s: &BulletproofGensShare, i: int)
    requires
        s.wf(),
        0 <= i < s.gens.gens_capacity,
    ensures
        0 <= s.flat(i) < s.gens.g_vec@.len(),
        s.flat(i) < s.gens.h_vec@.len(),
{
    let c = s.gens.gens_capacity as int;
    let p = s.gens.party_capacity as int;
    let j = s.share as int;
    assert(j * c + i < c * p) by (nonlinear_arith)
        requires
            0 <= i < c,
            0 <= j < p,
    ;
}

} // verus!
