use vstd::prelude::*;
use crate::points::{scalars_wf, GroupElem};
use crate::scalar::Scalar;

verus! {

/// Round-one message from a party: its value commitment and its shares of
/// the bit and blinding commitments.
pub struct BitCommitment {
    pub v_j: GroupElem,
    pub a_j: GroupElem,
    pub s_j: GroupElem,
}

impl BitCommitment {
    pub open spec fn wf(&self) -> bool {
        self.v_j.wf() && self.a_j.wf() && self.s_j.wf()
    }
}

/// The challenges broadcast by the dealer after round one.
pub struct BitChallenge {
    pub y: Scalar,
    pub z: Scalar,
}

impl BitChallenge {
    pub open spec fn wf(&self) -> bool {
        self.y.wf() && self.z.wf()
    }
}

/// Round-two message from a party: its shares of the polynomial coefficient
/// commitments.
pub struct PolyCommitment {
    pub t1_j: GroupElem,
    pub t2_j: GroupElem,
}

impl PolyCommitment {
    pub open spec fn wf(&self) -> bool {
        self.t1_j.wf() && self.t2_j.wf()
    }
}

/// The challenge broadcast by the dealer after round two.
pub struct PolyChallenge {
    pub x: Scalar,
}

impl PolyChallenge {
    pub open spec fn wf(&self) -> bool {
        self.x.wf()
    }
}

/// Round-three message from a party: its opening of the combined polynomial
/// at the challenge point, together with the blinding shares.
pub struct ProofShare {
    pub t_x: Scalar,
    pub t_x_blinding: Scalar,
    pub e_blinding: Scalar,
    pub l_vec: Vec<Scalar>,
    pub r_vec: Vec<Scalar>,
}

impl ProofShare {
    pub open spec fn wf(&self) -> bool {
        &&& self.t_x.wf()
        &&& self.t_x_blinding.wf()
        &&& self.e_blinding.wf()
        &&& scalars_wf(self.l_vec@)
        &&& scalars_wf(self.r_vec@)
    }
}

} // verus!
