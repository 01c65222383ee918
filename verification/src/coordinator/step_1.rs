//! The first round as the coordinator sees it: who takes part.

use crate::identifier_map::IdentifierMap;
use crate::keys::PublicKeyPackage;
use crate::round1::SigningCommitments;
use vstd::prelude::*;

verus! {

/// The signers of one ceremony with their commitments, and the public key
/// package of their group.
pub struct ParticipantsConfig {
    pub commitments: IdentifierMap<SigningCommitments>,
    pub pub_key_package: PublicKeyPackage,
}

} // verus!
