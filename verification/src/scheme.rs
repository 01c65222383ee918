//! The signature scheme behind the ceremony, for either suite.
//!
//! The functions here choose the suite's implementation and hand on what
//! it returns. What the scheme computes from its arguments alone is named,
//! not defined: the names say that equal inputs give equal results, and
//! nothing more. Of what it draws from the random source, the contracts
//! say what holds of every outcome: the widths of what comes back, and the
//! inputs for which nothing comes back.

pub mod ed25519;
pub mod ed448;

use crate::ciphersuite::Ciphersuite;
use crate::keys::{KeyPackage, KeyPackageView, SecretShare, SecretShareView};
use crate::reading::commitments_fit;
use crate::round1::{SigningCommitments, SigningNonces};
use crate::round2::{Signature, SignatureShare};
use crate::scheme::ed25519::{
    ed25519_identifier, ed25519_key_package, ed25519_key_package_from_share,
    ed25519_public_key_package, ed25519_secret_share, ed25519_signature, ed25519_signature_share,
};
use crate::scheme::ed448::{
    ed448_identifier, ed448_key_package, ed448_key_package_from_share, ed448_public_key_package,
    ed448_secret_share, ed448_signature, ed448_signature_share,
};
use vstd::prelude::*;

verus! {

#[verifier::external_type_specification]
#[verifier::external_body]
pub struct ExThreadRng(rand::rngs::ThreadRng);

/// An optional value by its view.
pub open spec fn viewed<T: View>(value: Option<T>) -> Option<T::V> {
    match value {
        Some(v) => Some(v@),
        None => None,
    }
}

/// Verifying shares with their identifiers, as byte sequences.
pub open spec fn raw_pairs_view(pairs: Seq<(Vec<u8>, Vec<u8>)>) -> Seq<(Seq<u8>, Seq<u8>)> {
    Seq::new(pairs.len(), |i: int| (pairs[i].0@, pairs[i].1@))
}

/// What was read of a public key package, as byte sequences.
pub open spec fn raw_package_view(raw: Option<(Vec<(Vec<u8>, Vec<u8>)>, Vec<u8>)>) -> Option<
    (Seq<(Seq<u8>, Seq<u8>)>, Seq<u8>),
> {
    match raw {
        Some(r) => Some((raw_pairs_view(r.0@), r.1@)),
        None => None,
    }
}

/// Whether a group of `max_signers` signers, of which `min_signers` make a
/// signature, can be dealt: there are two signers at least, it takes two
/// at least to sign, and it takes no more than there are.
pub open spec fn dealable(max_signers: u16, min_signers: u16) -> bool {
    2 <= min_signers <= max_signers
}

/// Whether bytes are the encoding of an identifier under `suite`.
pub open spec fn spec_is_identifier(suite: Ciphersuite, bytes: Seq<u8>) -> bool {
    match suite {
        Ciphersuite::Ed25519 => ed25519_identifier(bytes),
        Ciphersuite::Ed448 => ed448_identifier(bytes),
    }
}

/// The key package that a JSON text holds under `suite`, if it holds one.
pub open spec fn spec_key_package(suite: Ciphersuite, text: Seq<char>) -> Option<KeyPackageView> {
    match suite {
        Ciphersuite::Ed25519 => ed25519_key_package(text),
        Ciphersuite::Ed448 => ed448_key_package(text),
    }
}

/// The secret share that a JSON text holds under `suite`, if it holds one.
pub open spec fn spec_secret_share(suite: Ciphersuite, text: Seq<char>) -> Option<
    SecretShareView,
> {
    match suite {
        Ciphersuite::Ed25519 => ed25519_secret_share(text),
        Ciphersuite::Ed448 => ed448_secret_share(text),
    }
}

/// The key package that the secret share in a JSON text yields under
/// `suite`, if the text holds a share that agrees with its commitment.
pub open spec fn spec_key_package_from_share(suite: Ciphersuite, text: Seq<char>) -> Option<
    KeyPackageView,
> {
    match suite {
        Ciphersuite::Ed25519 => ed25519_key_package_from_share(text),
        Ciphersuite::Ed448 => ed448_key_package_from_share(text),
    }
}

/// The verifying shares and the verifying key of the public key package
/// that a JSON text holds under `suite`, if it holds one.
pub open spec fn spec_public_key_package(suite: Ciphersuite, text: Seq<char>) -> Option<
    (Seq<(Seq<u8>, Seq<u8>)>, Seq<u8>),
> {
    match suite {
        Ciphersuite::Ed25519 => ed25519_public_key_package(text),
        Ciphersuite::Ed448 => ed448_public_key_package(text),
    }
}

/// The signature share that the scheme computes under `suite`, if it
/// computes one.
pub open spec fn spec_signature_share(
    suite: Ciphersuite,
    package: Seq<u8>,
    nonces: Seq<u8>,
    key_package: Seq<u8>,
) -> Option<Seq<u8>> {
    match suite {
        Ciphersuite::Ed25519 => ed25519_signature_share(package, nonces, key_package),
        Ciphersuite::Ed448 => ed448_signature_share(package, nonces, key_package),
    }
}

/// The signature that the scheme aggregates under `suite`, if it yields
/// one.
pub open spec fn spec_signature(
    suite: Ciphersuite,
    package: Seq<u8>,
    shares: Seq<u8>,
    public: Seq<u8>,
) -> Option<Seq<u8>> {
    match suite {
        Ciphersuite::Ed25519 => ed25519_signature(package, shares, public),
        Ciphersuite::Ed448 => ed448_signature(package, shares, public),
    }
}

/// Whether `bytes` are the encoding of an identifier: the canonical
/// encoding of a scalar that is not zero.
pub(crate) fn is_identifier(suite: Ciphersuite, bytes: &[u8]) -> (valid: bool)
    ensures
        valid == spec_is_identifier(suite, bytes@),
        valid ==> bytes@.len() == suite.scalar_len(),
{
    match suite {
        Ciphersuite::Ed25519 => ed25519::is_identifier(bytes),
        Ciphersuite::Ed448 => ed448::is_identifier(bytes),
    }
}

/// Reads a key package from its JSON text.
pub(crate) fn parse_key_package(suite: Ciphersuite, text: &str) -> (package: Option<KeyPackage>)
    ensures
        viewed(package) == spec_key_package(suite, text@),
{
    match suite {
        Ciphersuite::Ed25519 => ed25519::parse_key_package(text),
        Ciphersuite::Ed448 => ed448::parse_key_package(text),
    }
}

/// Reads a secret share from its JSON text.
pub(crate) fn parse_secret_share(suite: Ciphersuite, text: &str) -> (share: Option<SecretShare>)
    ensures
        viewed(share) == spec_secret_share(suite, text@),
{
    match suite {
        Ciphersuite::Ed25519 => ed25519::parse_secret_share(text),
        Ciphersuite::Ed448 => ed448::parse_secret_share(text),
    }
}

/// Checks the secret share in a JSON text against its commitment and
/// derives the signer's key package from it.
pub(crate) fn key_package_from_share(suite: Ciphersuite, text: &str) -> (package: Option<
    KeyPackage,
>)
    ensures
        viewed(package) == spec_key_package_from_share(suite, text@),
{
    match suite {
        Ciphersuite::Ed25519 => ed25519::key_package_from_share(text),
        Ciphersuite::Ed448 => ed448::key_package_from_share(text),
    }
}

/// Reads the verifying shares and the verifying key of a public key package
/// from its JSON text.
pub(crate) fn parse_public_key_package(suite: Ciphersuite, text: &str) -> (package: Option<
    (Vec<(Vec<u8>, Vec<u8>)>, Vec<u8>),
>)
    ensures
        raw_package_view(package) == spec_public_key_package(suite, text@),
{
    match suite {
        Ciphersuite::Ed25519 => ed25519::parse_public_key_package(text),
        Ciphersuite::Ed448 => ed448::parse_public_key_package(text),
    }
}

/// Draws fresh nonces and the commitments to them for the signer whose key
/// package is given as JSON text. Whatever is drawn, the commitments have
/// the width of the suite.
pub(crate) fn commit(
    suite: Ciphersuite,
    key_package: &[u8],
    rng: &mut rand::rngs::ThreadRng,
) -> (drawn: Option<(SigningNonces, SigningCommitments)>)
    ensures
        drawn matches Some((_, commitments)) ==> commitments_fit(suite, commitments@),
{
    match suite {
        Ciphersuite::Ed25519 => ed25519::commit(key_package, rng),
        Ciphersuite::Ed448 => ed448::commit(key_package, rng),
    }
}

/// Computes a participant's signature share for the signing package and the
/// key package given as JSON text.
pub(crate) fn sign(
    suite: Ciphersuite,
    package: &[u8],
    nonces: &SigningNonces,
    key_package: &[u8],
) -> (share: Option<SignatureShare>)
    ensures
        viewed(share) == spec_signature_share(suite, package@, nonces@, key_package@),
{
    match suite {
        Ciphersuite::Ed25519 => ed25519::sign(package, nonces, key_package),
        Ciphersuite::Ed448 => ed448::sign(package, nonces, key_package),
    }
}

/// Aggregates the signature shares sent for a signing package, all given
/// as JSON text, into a signature.
pub(crate) fn aggregate(
    suite: Ciphersuite,
    package: &[u8],
    shares: &[u8],
    public: &[u8],
) -> (signature: Option<Signature>)
    ensures
        viewed(signature) == spec_signature(suite, package@, shares@, public@),
{
    match suite {
        Ciphersuite::Ed25519 => ed25519::aggregate(package, shares, public),
        Ciphersuite::Ed448 => ed448::aggregate(package, shares, public),
    }
}

/// Generates a key and splits it into shares, which come back as JSON
/// texts in identifier order with the JSON text of the public key package.
/// Nothing comes back for a group that cannot be dealt.
pub(crate) fn generate_with_dealer(
    suite: Ciphersuite,
    max_signers: u16,
    min_signers: u16,
    rng: &mut rand::rngs::ThreadRng,
) -> (dealt: Option<(Vec<String>, String)>)
    ensures
        !dealable(max_signers, min_signers) ==> dealt is None,
{
    match suite {
        Ciphersuite::Ed25519 => ed25519::generate_with_dealer(max_signers, min_signers, rng),
        Ciphersuite::Ed448 => ed448::generate_with_dealer(max_signers, min_signers, rng),
    }
}

/// Splits the key with the given encoding into shares, which come back as
/// `generate_with_dealer` gives them. Nothing comes back for a key that
/// has not the width of a scalar of the suite, nor for a group that cannot
/// be dealt.
pub(crate) fn split(
    suite: Ciphersuite,
    secret: &[u8],
    max_signers: u16,
    min_signers: u16,
    rng: &mut rand::rngs::ThreadRng,
) -> (dealt: Option<(Vec<String>, String)>)
    ensures
        secret@.len() != suite.scalar_len() ==> dealt is None,
        !dealable(max_signers, min_signers) ==> dealt is None,
{
    match suite {
        Ciphersuite::Ed25519 => ed25519::split(secret, max_signers, min_signers, rng),
        Ciphersuite::Ed448 => ed448::split(secret, max_signers, min_signers, rng),
    }
}

} // verus!
