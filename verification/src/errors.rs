use vstd::prelude::*;

verus! {

/// A failure while constructing or checking a range proof.
#[derive(Clone, Copy, PartialEq, Eq, Structural, Debug)]
pub enum ProofError {
    /// The combined verification equation does not hold. Nothing more is
    /// reported, so that the reason for the mismatch is not leaked.
    VerificationError,
    /// A serialized proof is truncated or holds a non-canonical encoding;
    /// distinct from a verification failure.
    FormatError,
    /// The number of blinding factors does not match the number of values.
    WrongNumBlindingFactors,
    /// The bit width is not one of 8, 16, 32 or 64.
    InvalidBitsize,
    /// The number of aggregated values is not a power of two.
    InvalidAggregation,
    /// The generator set is too small for the requested width or party count.
    InvalidGeneratorsLength,
    /// A value does not lie below `2^n`; no proof is attempted for it.
    ValueOutOfRange,
    /// The internal aggregation run failed; surfaced only if a party or the
    /// dealer rejects, which the entry points rule out up front.
    ProvingError,
}

/// A failure of the multi-party aggregation protocol, attributable to a
/// specific round or party.
#[derive(PartialEq, Eq, Debug)]
pub enum MPCError {
    /// The bit width is not one of 8, 16, 32 or 64.
    InvalidBitsize,
    /// The number of parties is not a power of two.
    InvalidAggregation,
    /// The generator set is too small for the requested width or party count.
    InvalidGeneratorsLength,
    /// The dealer received the wrong number of round-one messages.
    WrongNumBitCommitments,
    /// The dealer received the wrong number of round-two messages.
    WrongNumPolyCommitments,
    /// The dealer received the wrong number of round-three messages.
    WrongNumProofShares,
    /// One or more proof shares were inconsistent; holds the indices of the
    /// offending parties.
    MalformedProofShares { bad_shares: Vec<usize> },
}

} // verus!
