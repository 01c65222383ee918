//! The signature scheme over Ed448, as `frost-ed448` provides it.
//!
//! Nothing in this file is proved. Each function converts its arguments,
//! makes one call into the scheme and converts the result; `None` stands
//! for a refusal at any of these steps. Where the outcome depends on the
//! arguments alone, the contract gives it a name and claims no more than
//! that: equal arguments, equal outcome. Where it depends on the random
//! source, the contract claims only what holds of every outcome.

use crate::identifier::Identifier;
use crate::keys::{KeyPackage, KeyPackageView, SecretShare, SecretShareView};
use crate::round1::{SigningCommitments, SigningNonces};
use crate::round2::{Signature, SignatureShare};
use crate::scheme::{raw_package_view, viewed};
use vstd::prelude::*;

verus! {

/// The key package that a text holds, where it is the JSON of one.
pub uninterp spec fn ed448_key_package(text: Seq<char>) -> Option<KeyPackageView>;

/// The secret share that a text holds, where it is the JSON of one.
pub uninterp spec fn ed448_secret_share(text: Seq<char>) -> Option<SecretShareView>;

/// The key package that the secret share in a text yields, where the text
/// is the JSON of a secret share that agrees with its commitment.
pub uninterp spec fn ed448_key_package_from_share(text: Seq<char>) -> Option<KeyPackageView>;

/// The verifying shares, in the order in which the package's map hands
/// them out, and the verifying key of the public key package that a text
/// holds, where it is the JSON of one.
pub uninterp spec fn ed448_public_key_package(text: Seq<char>) -> Option<
    (Seq<(Seq<u8>, Seq<u8>)>, Seq<u8>),
>;

/// The signature share that the scheme computes for a signing package from
/// a participant's nonces and key package, where it computes one.
pub uninterp spec fn ed448_signature_share(
    package: Seq<u8>,
    nonces: Seq<u8>,
    key_package: Seq<u8>,
) -> Option<Seq<u8>>;

/// The signature that the scheme aggregates from the shares sent for a
/// signing package, where it yields one.
pub uninterp spec fn ed448_signature(
    package: Seq<u8>,
    shares: Seq<u8>,
    public: Seq<u8>,
) -> Option<Seq<u8>>;

/// Whether bytes are the encoding of an identifier.
pub uninterp spec fn ed448_identifier(bytes: Seq<u8>) -> bool;

/// Whether `bytes` are the encoding of an identifier: the canonical
/// encoding, 57 bytes wide, of a scalar that is not zero.
///
/// Calls `frost_ed448::Identifier::deserialize`, which refuses any
/// input that is not 57 bytes long.
#[verifier::external_body]
pub(crate) fn is_identifier(bytes: &[u8]) -> (valid: bool)
    ensures
        valid == ed448_identifier(bytes@),
        valid ==> bytes@.len() == 57,
{
    frost_ed448::Identifier::deserialize(bytes).is_ok()
}

/// Reads a key package from its JSON text.
///
/// Calls `serde_json::from_str` for a `frost_ed448::keys::KeyPackage` and
/// takes each field of the result by its `serialize`.
#[verifier::external_body]
pub(crate) fn parse_key_package(text: &str) -> (package: Option<KeyPackage>)
    ensures
        viewed(package) == ed448_key_package(text@),
{
    let package: frost_ed448::keys::KeyPackage = serde_json::from_str(text).ok()?;
    Some(KeyPackage {
        identifier: Identifier { bytes: package.identifier().serialize() },
        signing_share: package.signing_share().serialize(),
        verifying_share: package.verifying_share().serialize().ok()?,
        verifying_key: package.verifying_key().serialize().ok()?,
        min_signers: *package.min_signers(),
    })
}

/// Reads a secret share from its JSON text.
///
/// Calls `serde_json::from_str` for a `frost_ed448::keys::SecretShare`
/// and takes each field of the result by its `serialize`.
#[verifier::external_body]
pub(crate) fn parse_secret_share(text: &str) -> (share: Option<SecretShare>)
    ensures
        viewed(share) == ed448_secret_share(text@),
{
    let share: frost_ed448::keys::SecretShare = serde_json::from_str(text).ok()?;
    Some(SecretShare {
        identifier: Identifier { bytes: share.identifier().serialize() },
        signing_share: share.signing_share().serialize(),
        commitment: share.commitment().serialize().ok()?,
    })
}

/// Checks the secret share in a JSON text against its commitment and
/// derives the signer's key package from it.
///
/// Calls `KeyPackage::try_from` on the `frost_ed448::keys::SecretShare`
/// that `serde_json::from_str` reads, and takes each field of the result
/// by its `serialize`.
#[verifier::external_body]
pub(crate) fn key_package_from_share(text: &str) -> (package: Option<KeyPackage>)
    ensures
        viewed(package) == ed448_key_package_from_share(text@),
{
    let share: frost_ed448::keys::SecretShare = serde_json::from_str(text).ok()?;
    let package = frost_ed448::keys::KeyPackage::try_from(share).ok()?;
    Some(KeyPackage {
        identifier: Identifier { bytes: package.identifier().serialize() },
        signing_share: package.signing_share().serialize(),
        verifying_share: package.verifying_share().serialize().ok()?,
        verifying_key: package.verifying_key().serialize().ok()?,
        min_signers: *package.min_signers(),
    })
}

/// Reads a public key package from its JSON text: the verifying shares with
/// their identifiers, in the order in which the package's map hands them
/// out, and the verifying key.
///
/// Calls `serde_json::from_str` for a
/// `frost_ed448::keys::PublicKeyPackage` and takes each identifier, share
/// and the key by its `serialize`.
#[verifier::external_body]
pub(crate) fn parse_public_key_package(text: &str) -> (package: Option<
    (Vec<(Vec<u8>, Vec<u8>)>, Vec<u8>),
>)
    ensures
        raw_package_view(package) == ed448_public_key_package(text@),
{
    let package: frost_ed448::keys::PublicKeyPackage = serde_json::from_str(text).ok()?;
    let mut shares = Vec::new();
    for (identifier, share) in package.verifying_shares() {
        shares.push((identifier.serialize(), share.serialize().ok()?));
    }
    Some((shares, package.verifying_key().serialize().ok()?))
}

/// Draws fresh nonces and the commitments to them for the signer whose key
/// package is given as JSON text. Which nonces and commitments come back
/// depends on the random source; whatever comes back, each of the two
/// commitments is 57 bytes wide.
///
/// Calls `frost_ed448::round1::commit` with the signing share of the
/// key package that `serde_json::from_slice` reads, and takes the nonces
/// and the two commitments by their `serialize`, which for a commitment
/// gives the fixed-width encoding of a group element.
#[verifier::external_body]
pub(crate) fn commit(key_package: &[u8], rng: &mut rand::rngs::ThreadRng) -> (drawn: Option<
    (SigningNonces, SigningCommitments),
>)
    ensures
        drawn matches Some((_, commitments)) ==> commitments.hiding@.len() == 57
            && commitments.binding@.len() == 57,
{
    let package: frost_ed448::keys::KeyPackage = serde_json::from_slice(key_package).ok()?;
    let (nonces, commitments) = frost_ed448::round1::commit(package.signing_share(), rng);
    Some((
        SigningNonces { bytes: nonces.serialize().ok()? },
        SigningCommitments {
            hiding: commitments.hiding().serialize().ok()?,
            binding: commitments.binding().serialize().ok()?,
        },
    ))
}

/// Computes a participant's signature share. The signing package and the
/// key package are given as JSON text, the nonces as the scheme encodes
/// them.
///
/// Calls `frost_ed448::round2::sign` on what `serde_json::from_slice`
/// reads of the two texts and `SigningNonces::deserialize` of the nonces,
/// and takes the share by its `serialize`.
#[verifier::external_body]
pub(crate) fn sign(package: &[u8], nonces: &SigningNonces, key_package: &[u8]) -> (share: Option<
    SignatureShare,
>)
    ensures
        viewed(share) == ed448_signature_share(package@, nonces@, key_package@),
{
    let package: frost_ed448::SigningPackage = serde_json::from_slice(package).ok()?;
    let nonces = frost_ed448::round1::SigningNonces::deserialize(&nonces.bytes).ok()?;
    let key_package: frost_ed448::keys::KeyPackage = serde_json::from_slice(key_package).ok()?;
    let share = frost_ed448::round2::sign(&package, &nonces, &key_package).ok()?;
    Some(SignatureShare { share: share.serialize() })
}

/// Aggregates signature shares into a signature. The signing package, the
/// shares under their identifiers and the public key package are given as
/// JSON text.
///
/// Calls `frost_ed448::aggregate` on what `serde_json::from_slice` reads
/// of the three texts, and takes the signature by its `serialize`.
#[verifier::external_body]
pub(crate) fn aggregate(package: &[u8], shares: &[u8], public: &[u8]) -> (signature: Option<
    Signature,
>)
    ensures
        viewed(signature) == ed448_signature(package@, shares@, public@),
{
    let package: frost_ed448::SigningPackage = serde_json::from_slice(package).ok()?;
    let shares: std::collections::BTreeMap<
        frost_ed448::Identifier,
        frost_ed448::round2::SignatureShare,
    > = serde_json::from_slice(shares).ok()?;
    let public: frost_ed448::keys::PublicKeyPackage = serde_json::from_slice(public).ok()?;
    let signature = frost_ed448::aggregate(&package, &shares, &public).ok()?;
    Some(Signature { bytes: signature.serialize().ok()? })
}

/// Generates a key and splits it into shares. The shares come back as JSON
/// texts in identifier order, followed by the JSON text of the public key
/// package. Which key material comes back depends on the random source;
/// none comes back for fewer than two signers, a threshold below two, or a
/// threshold above the number of signers.
///
/// Calls `frost_ed448::keys::generate_with_dealer` with the default
/// identifiers, which refuses such numbers before it makes any share, and
/// writes each share and the public key package with
/// `serde_json::to_string`.
#[verifier::external_body]
pub(crate) fn generate_with_dealer(
    max_signers: u16,
    min_signers: u16,
    rng: &mut rand::rngs::ThreadRng,
) -> (dealt: Option<(Vec<String>, String)>)
    ensures
        min_signers < 2 || max_signers < 2 || min_signers > max_signers ==> dealt is None,
{
    let identifiers = frost_ed448::keys::IdentifierList::Default;
    let (shares, public) = frost_ed448::keys::generate_with_dealer(
        max_signers,
        min_signers,
        identifiers,
        rng,
    ).ok()?;
    let mut texts = Vec::new();
    for share in shares.values() {
        texts.push(serde_json::to_string(share).ok()?);
    }
    Some((texts, serde_json::to_string(&public).ok()?))
}

/// Splits the key with the given encoding into shares, which come back as
/// `generate_with_dealer` gives them. Which shares come back depends on
/// the random source; none comes back for a key that is not 57 bytes wide,
/// for fewer than two signers, a threshold below two, or a threshold above
/// the number of signers.
///
/// Calls `frost_ed448::keys::split` with the default identifiers, which
/// refuses such numbers before it makes any share, on the key that
/// `frost_ed448::SigningKey::deserialize` reads, which refuses any input
/// that is not 57 bytes long, and writes each share and the public key
/// package with `serde_json::to_string`.
#[verifier::external_body]
pub(crate) fn split(
    secret: &[u8],
    max_signers: u16,
    min_signers: u16,
    rng: &mut rand::rngs::ThreadRng,
) -> (dealt: Option<(Vec<String>, String)>)
    ensures
        secret@.len() != 57 ==> dealt is None,
        min_signers < 2 || max_signers < 2 || min_signers > max_signers ==> dealt is None,
{
    let key = frost_ed448::SigningKey::deserialize(secret).ok()?;
    let identifiers = frost_ed448::keys::IdentifierList::Default;
    let (shares, public) = frost_ed448::keys::split(
        &key,
        max_signers,
        min_signers,
        identifiers,
        rng,
    ).ok()?;
    let mut texts = Vec::new();
    for share in shares.values() {
        texts.push(serde_json::to_string(share).ok()?);
    }
    Some((texts, serde_json::to_string(&public).ok()?))
}

} // verus!
