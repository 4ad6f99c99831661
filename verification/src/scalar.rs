use vstd::prelude::*;
use vstd::arithmetic::power2::pow2;
use vstd::arithmetic::div_mod::lemma_mod_multiples_vanish;
use vstd::arithmetic::div_mod::lemma_small_mod;

verus! {

/// The order of the Ristretto group's scalar field: the prime
/// `2^252 + 27742317777372353535851937790883648493`.
pub open spec fn group_order() -> nat {
    pow2(252) + 27742317777372353535851937790883648493
}

/// The little-endian integer value of a byte sequence.
pub open spec fn le_nat(s: Seq<u8>) -> nat
    decreases s.len(),
{
    if s.len() == 0 {
        0
    } else {
        (s[0] as nat) + 256 * le_nat(s.subrange(1, s.len() as int))
    }
}

/// Addition in the scalar field.
pub open spec fn sadd(a: nat, b: nat) -> nat {
    (a + b) % group_order()
}

/// Subtraction in the scalar field.
pub open spec fn ssub(a: nat, b: nat) -> nat {
    (((a as int) - (b as int)) % (group_order() as int)) as nat
}

/// Multiplication in the scalar field.
pub open spec fn smul(a: nat, b: nat) -> nat {
    (a * b) % group_order()
}

/// Exponentiation in the scalar field.
pub open spec fn spow(b: nat, e: nat) -> nat
    decreases e,
{
    if e == 0 {
        1
    } else {
        smul(b, spow(b, (e - 1) as nat))
    }
}

/// An element of the scalar field, held as its canonical 32-byte
/// little-endian encoding.
#[derive(PartialEq, Eq)]
pub struct Scalar {
    pub bytes: Vec<u8>,
}

impl Scalar {
    /// The encoding is 32 bytes and denotes a reduced (canonical) value.
    pub open spec fn wf(&self) -> bool {
        self.bytes@.len() == 32 && le_nat(self.bytes@) < group_order()
    }

    /// The field element this scalar denotes.
    pub open spec fn v(&self) -> nat {
        le_nat(self.bytes@)
    }

    /// Relies on `curve25519_dalek::scalar::Scalar::from(u64)`: the canonical
    /// scalar with the given value, encoded little-endian.
    #[verifier::external_body]
    pub fn from_u64(x: u64) -> (r: Scalar)
        ensures
            r.wf(),
            r.v() == x as nat,
    {
        Scalar { bytes: curve25519_dalek::scalar::Scalar::from(x).to_bytes().to_vec() }
    }

    /// Relies on `curve25519_dalek::scalar::Scalar::random` seeded from
    /// `rand::thread_rng`: a random canonical scalar. The result depends on
    /// the generator's state, so nothing is promised beyond well-formedness.
    #[verifier::external_body]
    pub fn random() -> (r: Scalar)
        ensures
            r.wf(),
    {
        let mut rng = rand::thread_rng();
        Scalar { bytes: curve25519_dalek::scalar::Scalar::random(&mut rng).to_bytes().to_vec() }
    }

    /// An independent copy of this scalar.
    pub fn dup(&self) -> (r: Scalar)
        ensures
            r.bytes@ == self.bytes@,
    {
        let r = Scalar { bytes: self.bytes.clone() };
        proof {
            assert(r.bytes@ =~= self.bytes@);
        }
        r
    }
}

/// Relies on scalar addition of curve25519-dalek: the sum of two canonical
/// scalars, reduced modulo the group order.
#[verifier::external_body]
pub(crate) fn scalar_add(a: &Scalar, b: &Scalar) -> (r: Scalar)
    requires
        a.wf(),
        b.wf(),
    ensures
        r.wf(),
        r.v() == sadd(a.v(), b.v()),
{
    let x = curve25519_dalek::scalar::Scalar::from_bytes_mod_order(a.bytes.as_slice().try_into().unwrap());
    let y = curve25519_dalek::scalar::Scalar::from_bytes_mod_order(b.bytes.as_slice().try_into().unwrap());
    Scalar { bytes: (x + y).to_bytes().to_vec() }
}

/// Relies on scalar subtraction of curve25519-dalek: the difference of two
/// canonical scalars, reduced modulo the group order.
#[verifier::external_body]
pub(crate) fn scalar_sub(a: &Scalar, b: &Scalar) -> (r: Scalar)
    requires
        a.wf(),
        b.wf(),
    ensures
        r.wf(),
        r.v() == ssub(a.v(), b.v()),
{
    let x = curve25519_dalek::scalar::Scalar::from_bytes_mod_order(a.bytes.as_slice().try_into().unwrap());
    let y = curve25519_dalek::scalar::Scalar::from_bytes_mod_order(b.bytes.as_slice().try_into().unwrap());
    Scalar { bytes: (x - y).to_bytes().to_vec() }
}

/// Relies on scalar multiplication of curve25519-dalek: the product of two
/// canonical scalars, reduced modulo the group order.
#[verifier::external_body]
pub(crate) fn scalar_mul(a: &Scalar, b: &Scalar) -> (r: Scalar)
    requires
        a.wf(),
        b.wf(),
    ensures
        r.wf(),
        r.v() == smul(a.v(), b.v()),
{
    let x = curve25519_dalek::scalar::Scalar::from_bytes_mod_order(a.bytes.as_slice().try_into().unwrap());
    let y = curve25519_dalek::scalar::Scalar::from_bytes_mod_order(b.bytes.as_slice().try_into().unwrap());
    Scalar { bytes: (x * y).to_bytes().to_vec() }
}

/// Relies on `curve25519_dalek::scalar::Scalar::invert`: the multiplicative
/// inverse modulo the group order, for nonzero inputs.
#[verifier::external_body]
pub(crate) fn scalar_invert(a: &Scalar) -> (r: Scalar)
    requires
        a.wf(),
    ensures
        r.wf(),
        a.v() != 0 ==> smul(r.v(), a.v()) == 1,
{
    let x = curve25519_dalek::scalar::Scalar::from_bytes_mod_order(a.bytes.as_slice().try_into().unwrap());
    Scalar { bytes: x.invert().to_bytes().to_vec() }
}

/// Relies on `curve25519_dalek::scalar::Scalar::from_canonical_bytes`:
/// succeeds exactly when the 32 bytes encode a value below the group order,
/// and then denotes those very bytes.
#[verifier::external_body]
pub(crate) fn scalar_from_canonical(b: &Vec<u8>) -> (r: Option<Scalar>)
    requires
        b@.len() == 32,
    ensures
        r is Some <==> le_nat(b@) < group_order(),
        r matches Some(s) ==> s.bytes@ == b@,
{
    let arr: [u8; 32] = b.as_slice().try_into().unwrap();
    let ct = curve25519_dalek::scalar::Scalar::from_canonical_bytes(arr);
    let o: Option<curve25519_dalek::scalar::Scalar> = ct.into();
    o.map(|s| Scalar { bytes: s.to_bytes().to_vec() })
}

/// Relies on `curve25519_dalek::scalar::Scalar::from_bytes_mod_order_wide`:
/// reduces a 512-bit little-endian integer modulo the group order.
#[verifier::external_body]
pub(crate) fn scalar_from_wide(b: &Vec<u8>) -> (r: Scalar)
    requires
        b@.len() == 64,
    ensures
        r.wf(),
        r.v() == le_nat(b@) % group_order(),
{
    let arr: [u8; 64] = b.as_slice().try_into().unwrap();
    Scalar { bytes: curve25519_dalek::scalar::Scalar::from_bytes_mod_order_wide(&arr).to_bytes().to_vec() }
}

/// A byte sequence is determined by its little-endian value and its length.
pub proof fn lemma_le_nat_injective(s: Seq<u8>, t: Seq<u8>)
    requires
        s.len() == t.len(),
        le_nat(s) == le_nat(t),
    ensures
        s =~= t,
    decreases s.len(),
{
    if s.len() > 0 {
        let st = s.subrange(1, s.len() as int);
        let tt = t.subrange(1, t.len() as int);
        assert(le_nat(s) == (s[0] as nat) + 256 * le_nat(st));
        assert(le_nat(t) == (t[0] as nat) + 256 * le_nat(tt));
        lemma_mod_multiples_vanish(le_nat(st) as int, s[0] as int, 256);
        lemma_mod_multiples_vanish(le_nat(tt) as int, t[0] as int, 256);
        lemma_small_mod(s[0] as nat, 256);
        lemma_small_mod(t[0] as nat, 256);
        assert(le_nat(s) % 256 == s[0] as int);
        assert(le_nat(t) % 256 == t[0] as int);
        assert(s[0] == t[0]);
        assert(256 * le_nat(st) == 256 * le_nat(tt));
        lemma_le_nat_injective(st, tt);
        assert forall|i: int| 0 <= i < s.len() implies s[i] == t[i] by {
            if i > 0 {
                assert(s[i] == st[i - 1]);
                assert(t[i] == tt[i - 1]);
            }
        }
    }
}

/// Whether two scalars denote the same field element.
pub(crate) fn scalar_eq(a: &Scalar, b: &Scalar) -> (r: bool)
    requires
        a.wf(),
        b.wf(),
    ensures
        r == (a.v() == b.v()),
{
    let mut i: usize = 0;
    let mut eq: bool = true;
    while i < 32
        invariant
            0 <= i <= 32,
            a.wf(),
            b.wf(),
            eq <==> (forall|j: int| 0 <= j < i ==> a.bytes@[j] == b.bytes@[j]),
        decreases 32 - i,
    {
        if a.bytes[i] != b.bytes[i] {
            eq = false;
        }
        i = i + 1;
    }
    proof {
        if eq {
            assert(a.bytes@ =~= b.bytes@);
        } else {
            if a.v() == b.v() {
                lemma_le_nat_injective(a.bytes@, b.bytes@);
            }
        }
    }
    eq
}

} // verus!
