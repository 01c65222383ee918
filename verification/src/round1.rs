//! What a participant produces in the first round.

use crate::identifier::{bytes_equal, copy_bytes};
use vstd::prelude::*;

verus! {

/// The two group elements a participant publishes for one ceremony, each by
/// its canonical encoding.
#[derive(Debug, PartialEq, Eq)]
pub struct SigningCommitments {
    pub hiding: Vec<u8>,
    pub binding: Vec<u8>,
}

/// Signing commitments as two byte sequences.
pub struct SigningCommitmentsView {
    pub hiding: Seq<u8>,
    pub binding: Seq<u8>,
}

impl View for SigningCommitments {
    type V = SigningCommitmentsView;

    open spec fn view(&self) -> SigningCommitmentsView {
        SigningCommitmentsView { hiding: self.hiding@, binding: self.binding@ }
    }
}

impl SigningCommitments {
    /// Commitments with the given encodings.
    pub fn new(hiding: Vec<u8>, binding: Vec<u8>) -> (c: SigningCommitments)
        ensures
            c@.hiding == hiding@,
            c@.binding == binding@,
    {
        SigningCommitments { hiding, binding }
    }

    /// A copy of these commitments.
    pub fn duplicate(&self) -> (c: SigningCommitments)
        ensures
            c@ == self@,
    {
        SigningCommitments { hiding: copy_bytes(&self.hiding), binding: copy_bytes(&self.binding) }
    }

    /// Whether both elements are byte for byte those of `other`.
    pub fn same(&self, other: &SigningCommitments) -> (r: bool)
        ensures
            r == (self@ == other@),
    {
        bytes_equal(&self.hiding, &other.hiding) && bytes_equal(&self.binding, &other.binding)
    }
}

/// The secret scalars behind a participant's commitments, in the encoding
/// of the signature scheme. They are good for one signature share.
pub struct SigningNonces {
    pub bytes: Vec<u8>,
}

impl View for SigningNonces {
    type V = Seq<u8>;

    open spec fn view(&self) -> Seq<u8> {
        self.bytes@
    }
}

} // verus!
