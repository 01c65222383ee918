//! What a participant produces in the second round.

use crate::identifier::copy_bytes;
use vstd::prelude::*;

verus! {

/// A participant's contribution to the signature: one scalar, by its
/// canonical encoding.
#[derive(Debug, PartialEq, Eq)]
pub struct SignatureShare {
    pub share: Vec<u8>,
}

impl View for SignatureShare {
    type V = Seq<u8>;

    open spec fn view(&self) -> Seq<u8> {
        self.share@
    }
}

impl SignatureShare {
    /// A share with the given encoding.
    pub fn new(share: Vec<u8>) -> (s: SignatureShare)
        ensures
            s@ == share@,
    {
        SignatureShare { share }
    }

    /// A copy of this share.
    pub fn duplicate(&self) -> (s: SignatureShare)
        ensures
            s@ == self@,
    {
        SignatureShare { share: copy_bytes(&self.share) }
    }
}

/// The aggregated signature: a group element followed by a scalar.
#[derive(Debug, PartialEq, Eq)]
pub struct Signature {
    pub bytes: Vec<u8>,
}

impl View for Signature {
    type V = Seq<u8>;

    open spec fn view(&self) -> Seq<u8> {
        self.bytes@
    }
}

} // verus!
