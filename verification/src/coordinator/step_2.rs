//! The second round as the coordinator sees it: the signing package.

use crate::ciphersuite::Ciphersuite;
use crate::coordinator::args::{input_message, MessageInput};
use crate::error::{Error, ErrorView};
use crate::identifier_map::{lemma_entries_of, IdentifierMap};
use crate::message::package_text;
use crate::round1::SigningCommitments;
use crate::signing_package::SigningPackage;
use crate::wire::{push_text, write_signing_package};
use vstd::prelude::*;
use vstd::string::StringSliceAdditionalSpecFns;

verus! {

/// A message and the commitments of those who are to sign it.
pub struct CommitmentsConfig {
    pub message: Vec<u8>,
    pub signer_commitments: IdentifierMap<SigningCommitments>,
}

impl CommitmentsConfig {
    /// The signing package of these commitments for this message.
    pub fn signing_package(self) -> (package: SigningPackage)
        ensures
            package@.message == self.message@,
            package@.signing_commitments == self.signer_commitments@,
            package.signing_commitments.spec_entries() == self.signer_commitments.spec_entries(),
    {
        SigningPackage { signing_commitments: self.signer_commitments, message: self.message }
    }
}

/// Makes the signing package for the message that `input` stands for. A
/// console line that does not spell a message is refused.
pub fn request_message(
    input: &MessageInput,
    commitments: IdentifierMap<SigningCommitments>,
) -> (package: Result<SigningPackage, Error>)
    ensures
        match package {
            Ok(p) => {
                &&& input@.message() == Some(p@.message)
                &&& p@.signing_commitments == commitments@
                &&& p.signing_commitments.spec_entries() == commitments.spec_entries()
            },
            Err(e) => e@ == ErrorView::Config && input@.message() is None,
        },
{
    match input_message(input) {
        Some(message) => Ok(SigningPackage { signing_commitments: commitments, message }),
        None => Err(Error::Config),
    }
}

/// What the console shows of a signing package: a title, and the text of
/// the package on a line of its own.
pub open spec fn printed_package(suite: Ciphersuite, text: Seq<u8>) -> Seq<u8> {
    "Signing Package:\n".spec_bytes() + text + "\n".spec_bytes()
}

/// The text that shows `signing_package` on the console.
pub fn print_signing_package(suite: Ciphersuite, signing_package: &SigningPackage) -> (shown: Vec<
    u8,
>)
    ensures
        shown@ == printed_package(suite, package_text(suite, signing_package@)),
{
    let mut out: Vec<u8> = Vec::new();
    push_text(&mut out, "Signing Package:\n");
    write_signing_package(&mut out, suite, signing_package);
    push_text(&mut out, "\n");
    proof {
        use_type_invariant(&signing_package.signing_commitments);
        lemma_entries_of(signing_package.signing_commitments.spec_entries());
        assert(out@ =~= printed_package(suite, package_text(suite, signing_package@)));
    }
    out
}

/// Makes the signing package for the message that `input` stands for, and
/// the text that shows it on the console.
pub fn step_2(
    suite: Ciphersuite,
    input: &MessageInput,
    commitments: IdentifierMap<SigningCommitments>,
) -> (made: Result<(SigningPackage, Vec<u8>), Error>)
    ensures
        match made {
            Ok((p, shown)) => {
                &&& input@.message() == Some(p@.message)
                &&& p@.signing_commitments == commitments@
                &&& shown@ == printed_package(suite, package_text(suite, p@))
            },
            Err(e) => e@ == ErrorView::Config && input@.message() is None,
        },
{
    let signing_package = request_message(input, commitments)?;
    let shown = print_signing_package(suite, &signing_package);
    Ok((signing_package, shown))
}

} // verus!
