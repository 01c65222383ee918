//! The coordinator's description of one signing session.

use crate::identifier::{copy_bytes, Identifier};
use crate::identifier_map::IdentifierMap;
use crate::round1::{SigningCommitments, SigningCommitmentsView};
use vstd::prelude::*;

verus! {

/// The commitments of the signers of one session, under their identifiers,
/// and the message they are to sign.
#[derive(Debug, PartialEq, Eq)]
pub struct SigningPackage {
    pub signing_commitments: IdentifierMap<SigningCommitments>,
    pub message: Vec<u8>,
}

/// A signing package as a map and a byte sequence.
pub struct SigningPackageView {
    pub signing_commitments: Map<Seq<u8>, SigningCommitmentsView>,
    pub message: Seq<u8>,
}

impl View for SigningPackage {
    type V = SigningPackageView;

    open spec fn view(&self) -> SigningPackageView {
        SigningPackageView {
            signing_commitments: self.signing_commitments@,
            message: self.message@,
        }
    }
}

impl SigningPackage {
    /// The package of the given commitments for `message`.
    pub fn new(signing_commitments: IdentifierMap<SigningCommitments>, message: &Vec<u8>) -> (p:
        Self)
        ensures
            p@.signing_commitments == signing_commitments@,
            p@.message == message@,
            p.signing_commitments.spec_entries() == signing_commitments.spec_entries(),
    {
        SigningPackage { signing_commitments, message: copy_bytes(message) }
    }

    /// The commitments listed for `identifier`, if it is listed.
    pub fn signing_commitment(&self, identifier: &Identifier) -> (c: Option<&SigningCommitments>)
        ensures
            c is Some <==> self@.signing_commitments.dom().contains(identifier@),
            c matches Some(found) ==> found@ == self@.signing_commitments[identifier@],
    {
        self.signing_commitments.get(identifier)
    }
}

} // verus!
