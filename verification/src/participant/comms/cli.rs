//! The console as a participant's transport.

use crate::ciphersuite::Ciphersuite;
use crate::error::{Error, ErrorView};
use crate::hexcodec::{hex_decode, hex_decoded, is_hex_text};
use crate::identifier::Identifier;
use crate::keys::PublicKeyPackage;
use crate::message::{decode_signing_package, decoded_package, MessageView};
use crate::participant::comms::Comms;
use crate::round1::SigningCommitments;
use crate::round2::SignatureShare;
use crate::scheme::{is_identifier, spec_is_identifier};
use crate::signing_package::{SigningPackage, SigningPackageView};
use crate::text::{trim, trimmed};
use vstd::prelude::*;
use vstd::string::StringSliceAdditionalSpecFns;
use vstd::utf8::encode_utf8;

verus! {

/// The console transport of a participant: a person carries each message
/// between the two programs.
pub struct CLIComms {}

/// What the console asks before it reads the signing package.
pub open spec fn package_prompt() -> Seq<u8> {
    "Enter the JSON-encoded SigningPackage:\n".spec_bytes()
}

impl CLIComms {
    /// A console transport.
    pub fn new() -> CLIComms {
        CLIComms {  }
    }

    /// What the console asks before it reads the signing package.
    pub fn prompt(&self) -> (text: &'static str)
        ensures
            text.spec_bytes() == package_prompt(),
    {
        "Enter the JSON-encoded SigningPackage:\n"
    }
}

impl Comms for CLIComms {
    open spec fn carried(suite: Ciphersuite, message: MessageView) -> Option<Seq<u8>> {
        None
    }

    open spec fn delivered(suite: Ciphersuite, input: Seq<char>) -> Result<
        SigningPackageView,
        ErrorView,
    > {
        decoded_package(suite, encode_utf8(trimmed(input)))
    }

    /// On the console nothing leaves by the transport: the person reads
    /// the commitments off the screen.
    fn send_commitments(
        &mut self,
        suite: Ciphersuite,
        _identifier: &Identifier,
        _commitments: &SigningCommitments,
    ) -> (record: Option<Vec<u8>>) {
        None
    }

    /// Reads the signing package out of the line that the console gave:
    /// the text of the package between leading and trailing white space.
    fn get_signing_package(
        &mut self,
        suite: Ciphersuite,
        input: &str,
        _commitments: &SigningCommitments,
        _identifier: &Identifier,
    ) -> (package: Result<SigningPackage, Error>) {
        decode_signing_package(suite, trim(input).as_bytes())
    }

    /// On the console nothing leaves by the transport: the person reads
    /// the share off the screen.
    fn send_signature_share(
        &mut self,
        suite: Ciphersuite,
        _identifier: &Identifier,
        _signature_share: &SignatureShare,
    ) -> (record: Result<Option<Vec<u8>>, Error>) {
        Ok(None)
    }
}

/// The identifier that a console line spells in hexadecimal digits between
/// its leading and trailing white space, where the digits spell the
/// encoding of one.
pub open spec fn spec_read_identifier(suite: Ciphersuite, line: Seq<char>) -> Option<Seq<u8>> {
    let digits = encode_utf8(trimmed(line));
    if is_hex_text(digits) && spec_is_identifier(suite, hex_decoded(digits)) {
        Some(hex_decoded(digits))
    } else {
        None
    }
}

/// Reads an identifier out of a line that the console gave.
pub fn read_identifier(suite: Ciphersuite, input: &str) -> (identifier: Result<Identifier, Error>)
    ensures
        match identifier {
            Ok(id) => spec_read_identifier(suite, input@) == Some(id@) && id@.len()
                == suite.scalar_len(),
            Err(e) => e@ == ErrorView::Decode && spec_read_identifier(suite, input@) is None,
        },
{
    let bytes = match hex_decode(trim(input).as_bytes()) {
        Some(bytes) => bytes,
        None => {
            return Err(Error::Decode);
        },
    };
    if is_identifier(suite, bytes.as_slice()) {
        Ok(Identifier { bytes })
    } else {
        Err(Error::Decode)
    }
}

/// Whether `key` is among `ids`.
pub open spec fn listed(ids: Seq<Identifier>, key: Seq<u8>) -> bool {
    exists|i: int| 0 <= i < ids.len() && (#[trigger] ids[i])@ == key
}

/// Whether a signer may join: it must be a signer of the group, and it must
/// not have joined already.
pub open spec fn spec_validate(
    id: Seq<u8>,
    signers: Set<Seq<u8>>,
    ids: Seq<Identifier>,
) -> Result<(), ErrorView> {
    if !signers.contains(id) {
        Err(ErrorView::UnknownSigner(id))
    } else if listed(ids, id) {
        Err(ErrorView::DuplicateSigner(id))
    } else {
        Ok(())
    }
}

/// Checks that `id` is a signer of the group of `key_package` and is not
/// among `id_list`, the signers that have joined.
pub fn validate(id: Identifier, key_package: &PublicKeyPackage, id_list: &[Identifier]) -> (verdict:
    Result<(), Error>)
    ensures
        crate::coordinator::verdict_view(verdict) == spec_validate(
            id@,
            key_package@.verifying_shares.dom(),
            id_list@,
        ),
{
    if !key_package.has_signer(&id) {
        return Err(Error::UnknownSigner(id));
    }
    let mut i: usize = 0;
    while i < id_list.len()
        invariant
            i <= id_list@.len(),
            key_package@.verifying_shares.dom().contains(id@),
            forall|j: int| 0 <= j < i ==> (#[trigger] id_list@[j])@ != id@,
        decreases id_list@.len() - i,
    {
        if id_list[i].same(&id) {
            assert(listed(id_list@, id@)) by {
                assert(id_list@[i as int]@ == id@);
            }
            return Err(Error::DuplicateSigner(id));
        }
        i = i + 1;
    }
    Ok(())
}

} // verus!
