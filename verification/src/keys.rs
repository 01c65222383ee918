//! Key material: what each signer holds and what everyone knows.

use crate::ciphersuite::Ciphersuite;
use crate::identifier::{bytes_equal, Identifier};
use crate::identifier_map::{pairs_view, sorted, to_map, IdentifierMap};
use crate::scheme::{
    key_package_from_share, parse_key_package, parse_public_key_package, parse_secret_share,
    spec_key_package, spec_key_package_from_share, spec_public_key_package, spec_secret_share,
    viewed,
};
use vstd::prelude::*;

verus! {

/// The public material of a group: each signer's verifying share under its
/// identifier, and the group's verifying key. Every party holds the same.
#[derive(Debug, PartialEq, Eq)]
pub struct PublicKeyPackage {
    pub verifying_shares: IdentifierMap<Vec<u8>>,
    pub verifying_key: Vec<u8>,
}

/// A public key package as a map of byte sequences and a key.
pub struct PublicKeyPackageView {
    pub verifying_shares: Map<Seq<u8>, Seq<u8>>,
    pub verifying_key: Seq<u8>,
}

impl View for PublicKeyPackage {
    type V = PublicKeyPackageView;

    open spec fn view(&self) -> PublicKeyPackageView {
        PublicKeyPackageView {
            verifying_shares: self.verifying_shares@,
            verifying_key: self.verifying_key@,
        }
    }
}

impl PublicKeyPackage {
    /// A package of the given shares and key.
    pub fn new(verifying_shares: IdentifierMap<Vec<u8>>, verifying_key: Vec<u8>) -> (p: Self)
        ensures
            p@.verifying_shares == verifying_shares@,
            p@.verifying_key == verifying_key@,
            p.verifying_shares.spec_entries() == verifying_shares.spec_entries(),
    {
        PublicKeyPackage { verifying_shares, verifying_key }
    }

    /// The public key package that a JSON text holds: the one that the
    /// scheme reads from it, where its shares come in identifier order.
    pub open spec fn spec_parse(suite: Ciphersuite, text: Seq<char>) -> Option<
        PublicKeyPackageView,
    > {
        match spec_public_key_package(suite, text) {
            Some((shares, verifying_key)) if sorted(shares) => Some(
                PublicKeyPackageView { verifying_shares: to_map(shares), verifying_key },
            ),
            _ => None,
        }
    }

    /// Reads a public key package from its JSON text.
    pub fn parse(suite: Ciphersuite, text: &str) -> (package: Option<PublicKeyPackage>)
        ensures
            viewed(package) == Self::spec_parse(suite, text@),
            package matches Some(p) ==> spec_public_key_package(suite, text@) matches Some(
                (shares, _),
            ) && p.verifying_shares.spec_entries() == shares,
    {
        let (raw, verifying_key) = match parse_public_key_package(suite, text) {
            Some(read) => read,
            None => {
                return None;
            },
        };
        let ghost shares = crate::scheme::raw_pairs_view(raw@);
        let mut entries: Vec<(Identifier, Vec<u8>)> = Vec::new();
        for pair in it: raw
            invariant
                entries@.len() == it.index(),
                it.seq() == raw@,
                forall|i: int|
                    0 <= i < entries@.len() ==> (#[trigger] entries@[i]).0@ == raw@[i].0@
                        && entries@[i].1@ == raw@[i].1@,
        {
            entries.push((Identifier { bytes: pair.0 }, pair.1));
        }
        assert(pairs_view(entries@) =~= shares);
        match IdentifierMap::from_sorted(entries) {
            Some(verifying_shares) => Some(PublicKeyPackage { verifying_shares, verifying_key }),
            None => None,
        }
    }

    /// Whether `identifier` names a signer of this group.
    pub fn has_signer(&self, identifier: &Identifier) -> (known: bool)
        ensures
            known == self@.verifying_shares.dom().contains(identifier@),
    {
        self.verifying_shares.contains_key(identifier)
    }
}

/// The private material of one signer. It never leaves its owner, and it
/// does not show in debugging output.
#[derive(PartialEq, Eq)]
pub struct KeyPackage {
    pub identifier: Identifier,
    pub signing_share: Vec<u8>,
    pub verifying_share: Vec<u8>,
    pub verifying_key: Vec<u8>,
    pub min_signers: u16,
}

/// A key package as byte sequences.
pub struct KeyPackageView {
    pub identifier: Seq<u8>,
    pub signing_share: Seq<u8>,
    pub verifying_share: Seq<u8>,
    pub verifying_key: Seq<u8>,
    pub min_signers: u16,
}

impl View for KeyPackage {
    type V = KeyPackageView;

    open spec fn view(&self) -> KeyPackageView {
        KeyPackageView {
            identifier: self.identifier@,
            signing_share: self.signing_share@,
            verifying_share: self.verifying_share@,
            verifying_key: self.verifying_key@,
            min_signers: self.min_signers,
        }
    }
}

impl KeyPackageView {
    /// A key package agrees with a public key package when the verifying
    /// share listed there under its identifier is its own.
    pub open spec fn consistent_with(self, public: PublicKeyPackageView) -> bool {
        public.verifying_shares.dom().contains(self.identifier)
            && public.verifying_shares[self.identifier] == self.verifying_share
    }
}

impl KeyPackage {
    /// The key package that a JSON text holds. The text of a secret share
    /// stands for the key package that the share yields once it is checked
    /// against its commitment; a share that fails the check stands for
    /// none. Any other text stands for the key package that it is the JSON
    /// of.
    pub open spec fn spec_parse(suite: Ciphersuite, text: Seq<char>) -> Option<KeyPackageView> {
        if spec_secret_share(suite, text) is Some {
            spec_key_package_from_share(suite, text)
        } else {
            spec_key_package(suite, text)
        }
    }

    /// Reads a key package from the JSON text of a secret share or of a
    /// key package.
    pub fn parse(suite: Ciphersuite, text: &str) -> (package: Option<KeyPackage>)
        ensures
            viewed(package) == Self::spec_parse(suite, text@),
    {
        match parse_secret_share(suite, text) {
            Some(_) => key_package_from_share(suite, text),
            None => parse_key_package(suite, text),
        }
    }

    /// Whether this key package agrees with `public`.
    pub fn consistent_with(&self, public: &PublicKeyPackage) -> (r: bool)
        ensures
            r == self@.consistent_with(public@),
    {
        match public.verifying_shares.get(&self.identifier) {
            Some(share) => bytes_equal(share, &self.verifying_share),
            None => false,
        }
    }
}

/// What the dealer hands to one signer: its share of the secret and the
/// commitment that the share can be checked against. It does not show in
/// debugging output.
#[derive(PartialEq, Eq)]
pub struct SecretShare {
    pub identifier: Identifier,
    pub signing_share: Vec<u8>,
    pub commitment: Vec<Vec<u8>>,
}

/// A secret share as byte sequences.
pub struct SecretShareView {
    pub identifier: Seq<u8>,
    pub signing_share: Seq<u8>,
    pub commitment: Seq<Seq<u8>>,
}

impl View for SecretShare {
    type V = SecretShareView;

    open spec fn view(&self) -> SecretShareView {
        SecretShareView {
            identifier: self.identifier@,
            signing_share: self.signing_share@,
            commitment: Seq::new(self.commitment@.len(), |i: int| self.commitment@[i]@),
        }
    }
}

} // verus!
