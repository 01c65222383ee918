//! The trusted dealer: it makes the key material of a group.
//!
//! The dealer is no part of a ceremony. It runs once, before any, and hands
//! each signer its secret share and everyone the public key package.

use crate::ciphersuite::Ciphersuite;
use crate::error::{Error, ErrorView};
use crate::identifier::Identifier;
use crate::identifier_map::{pairs_view, sorted, IdentifierMap};
use crate::keys::{PublicKeyPackage, SecretShare, SecretShareView};
use crate::scheme::{
    dealable, generate_with_dealer, parse_secret_share, spec_secret_share, split,
};
use vstd::prelude::*;

verus! {

/// What the dealer is asked for.
#[derive(Debug, PartialEq, Eq)]
pub struct Config {
    /// The number of signers that a signature takes.
    pub min_signers: u16,
    /// The number of signers of the group.
    pub max_signers: u16,
    /// The encoding of the key to split, or nothing for a fresh key.
    pub secret: Vec<u8>,
}

/// What the scheme hands back for a group: the JSON text of each secret
/// share, and the JSON text of the public key package.
pub open spec fn dealt_view(dealt: Option<(Vec<String>, String)>) -> Option<
    (Seq<Seq<char>>, Seq<char>),
> {
    match dealt {
        Some((shares, public)) => Some((Seq::new(shares@.len(), |i: int| shares@[i]@), public@)),
        None => None,
    }
}

/// The secret shares that the texts hold, each under its identifier, where
/// every text holds one.
pub open spec fn shares_read(suite: Ciphersuite, texts: Seq<Seq<char>>) -> Option<
    Seq<(Seq<u8>, SecretShareView)>,
> {
    if forall|i: int| 0 <= i < texts.len() ==> spec_secret_share(suite, #[trigger] texts[i])
        is Some {
        Some(
            Seq::new(
                texts.len(),
                |i: int|
                    (spec_secret_share(suite, texts[i])->0.identifier, spec_secret_share(
                        suite,
                        texts[i],
                    )->0),
            ),
        )
    } else {
        None
    }
}

/// Whether key material is that of one group of `max_signers` signers: the
/// shares come in identifier order, each under its own identifier, there is
/// one for each signer, and the public key package lists the same signers.
pub open spec fn of_one_group(
    max_signers: u16,
    shares: Seq<(Seq<u8>, SecretShareView)>,
    public: Seq<(Seq<u8>, Seq<u8>)>,
) -> bool {
    &&& sorted(shares)
    &&& shares.len() == max_signers
    &&& public.len() == shares.len()
    &&& forall|i: int|
        0 <= i < shares.len() ==> (#[trigger] shares[i]).0 == public[i].0 && shares[i].0
            == shares[i].1.identifier
}

/// Takes in what the scheme handed back for a group. The key material is
/// accepted where every share and the public key package can be read and
/// they are those of one group of as many signers as were asked for.
pub fn deal(config: &Config, suite: Ciphersuite, dealt: Option<(Vec<String>, String)>) -> (group:
    Result<(IdentifierMap<SecretShare>, PublicKeyPackage), Error>)
    ensures
        match group {
            Ok((shares, public)) => {
                &&& dealt_view(dealt) matches Some((texts, public_text))
                &&& shares_read(suite, texts) == Some(shares.spec_entries())
                &&& PublicKeyPackage::spec_parse(suite, public_text) == Some(public@)
                &&& of_one_group(
                    config.max_signers,
                    shares.spec_entries(),
                    public.verifying_shares.spec_entries(),
                )
            },
            Err(e) => {
                &&& e@ == ErrorView::Crypto
                &&& dealt_view(dealt) matches Some((texts, public_text)) ==> !({
                    &&& shares_read(suite, texts) matches Some(shares)
                    &&& PublicKeyPackage::spec_parse(suite, public_text) matches Some(public)
                    &&& crate::scheme::spec_public_key_package(suite, public_text) matches Some(
                        (listed, _),
                    )
                    &&& of_one_group(config.max_signers, shares, listed)
                })
            },
        },
{
    let ghost given = dealt_view(dealt);
    let (texts, public_text) = match dealt {
        Some(d) => d,
        None => {
            return Err(Error::Crypto);
        },
    };
    let ghost lines = Seq::new(texts@.len(), |i: int| texts@[i]@);
    assert(given == Some((lines, public_text@)));
    let mut entries: Vec<(Identifier, SecretShare)> = Vec::new();
    let mut i: usize = 0;
    while i < texts.len()
        invariant
            i <= texts@.len(),
            lines == Seq::new(texts@.len(), |i: int| texts@[i]@),
            given == dealt_view(dealt),
            given == Some((lines, public_text@)),
            entries@.len() == i,
            forall|j: int|
                0 <= j < i ==> spec_secret_share(suite, lines[j]) == Some(
                    (#[trigger] entries@[j]).1@,
                ) && entries@[j].0@ == entries@[j].1@.identifier,
        decreases texts@.len() - i,
    {
        match parse_secret_share(suite, texts[i].as_str()) {
            Some(share) => {
                entries.push((share.identifier.duplicate(), share));
            },
            None => {
                assert(spec_secret_share(suite, lines[i as int]) is None);
                return Err(Error::Crypto);
            },
        }
        i = i + 1;
    }
    assert(shares_read(suite, lines) == Some(pairs_view(entries@))) by {
        assert forall|j: int| 0 <= j < lines.len() implies spec_secret_share(
            suite,
            #[trigger] lines[j],
        ) is Some by {
            assert(spec_secret_share(suite, lines[j]) == Some(entries@[j].1@));
        }
        assert forall|j: int| 0 <= j < lines.len() implies shares_read(suite, lines)->0[j]
            == pairs_view(entries@)[j] by {
            assert(spec_secret_share(suite, lines[j]) == Some(entries@[j].1@));
        }
        assert(shares_read(suite, lines)->0 =~= pairs_view(entries@));
    }
    if entries.len() != config.max_signers as usize {
        return Err(Error::Crypto);
    }
    let shares = match IdentifierMap::from_sorted(entries) {
        Some(map) => map,
        None => {
            return Err(Error::Crypto);
        },
    };
    let public = match PublicKeyPackage::parse(suite, public_text.as_str()) {
        Some(p) => p,
        None => {
            return Err(Error::Crypto);
        },
    };
    if public.verifying_shares.len() != shares.len() {
        return Err(Error::Crypto);
    }
    let ghost listed = public.verifying_shares.spec_entries();
    let mut k: usize = 0;
    while k < shares.len()
        invariant
            k <= shares.spec_entries().len(),
            given == dealt_view(dealt),
            given == Some((lines, public_text@)),
            shares_read(suite, lines) == Some(shares.spec_entries()),
            PublicKeyPackage::spec_parse(suite, public_text@) == Some(public@),
            crate::scheme::spec_public_key_package(suite, public_text@) matches Some((l, _))
                && l == listed,
            listed == public.verifying_shares.spec_entries(),
            sorted(shares.spec_entries()),
            shares.spec_entries().len() == config.max_signers,
            shares.spec_entries().len() == public.verifying_shares.spec_entries().len(),
            forall|j: int|
                0 <= j < k ==> (#[trigger] shares.spec_entries()[j]).0
                    == public.verifying_shares.spec_entries()[j].0,
        decreases shares.spec_entries().len() - k,
    {
        if !shares.key_at(k).same(public.verifying_shares.key_at(k)) {
            assert(shares.spec_entries()[k as int].0 != listed[k as int].0);
            return Err(Error::Crypto);
        }
        k = k + 1;
    }
    Ok((shares, public))
}

/// Makes the key material of a group: the secret share of each signer
/// under its identifier, and the public key package. A secret in the
/// configuration is split; without one a fresh key is generated and split.
/// A group that cannot be dealt is refused, and so is a secret that has not
/// the width of a scalar of the suite.
pub fn trusted_dealer(
    config: &Config,
    suite: Ciphersuite,
    rng: &mut rand::rngs::ThreadRng,
) -> (group: Result<(IdentifierMap<SecretShare>, PublicKeyPackage), Error>)
    ensures
        match group {
            Ok((shares, public)) => of_one_group(
                config.max_signers,
                shares.spec_entries(),
                public.verifying_shares.spec_entries(),
            ),
            Err(e) => e@ == ErrorView::Crypto,
        },
        !dealable(config.max_signers, config.min_signers) ==> group is Err,
        config.secret@.len() != 0 && config.secret@.len() != suite.scalar_len() ==> group
            is Err,
{
    let dealt = if config.secret.is_empty() {
        generate_with_dealer(suite, config.max_signers, config.min_signers, rng)
    } else {
        split(suite, config.secret.as_slice(), config.max_signers, config.min_signers, rng)
    };
    deal(config, suite, dealt)
}

} // verus!
