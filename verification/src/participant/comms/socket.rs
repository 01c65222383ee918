//! A socket as a participant's transport.

use crate::ciphersuite::Ciphersuite;
use crate::error::{Error, ErrorView};
use crate::identifier::Identifier;
use crate::message::{decode, decoded, encode_record, record_text, Message, MessageView};
use crate::participant::comms::Comms;
use crate::round1::SigningCommitments;
use crate::round2::SignatureShare;
use crate::signing_package::{SigningPackage, SigningPackageView};
use crate::text::{trim, trimmed};
use vstd::prelude::*;
use vstd::utf8::encode_utf8;

verus! {

/// The socket transport of a participant: every message travels as a
/// record, one on each line.
pub struct SocketComms {}

impl SocketComms {
    /// A socket transport.
    pub fn new() -> SocketComms {
        SocketComms {  }
    }
}

impl Comms for SocketComms {
    open spec fn carried(suite: Ciphersuite, message: MessageView) -> Option<Seq<u8>> {
        Some(record_text(suite, message))
    }

    open spec fn delivered(suite: Ciphersuite, input: Seq<char>) -> Result<
        SigningPackageView,
        ErrorView,
    > {
        match decoded(suite, encode_utf8(trimmed(input))) {
            Ok(MessageView::SigningPackage { signing_package }) => Ok(signing_package),
            Ok(_) => Err(ErrorView::UnexpectedMessage),
            Err(e) => Err(e),
        }
    }

    fn send_commitments(
        &mut self,
        suite: Ciphersuite,
        identifier: &Identifier,
        commitments: &SigningCommitments,
    ) -> (record: Option<Vec<u8>>) {
        let message = Message::IdentifiedCommitments {
            identifier: identifier.duplicate(),
            commitments: commitments.duplicate(),
        };
        Some(encode_record(suite, &message))
    }

    /// Reads the signing package out of a record: the message between
    /// leading and trailing white space must be one with a signing
    /// package.
    fn get_signing_package(
        &mut self,
        suite: Ciphersuite,
        input: &str,
        _commitments: &SigningCommitments,
        _identifier: &Identifier,
    ) -> (package: Result<SigningPackage, Error>) {
        match decode(suite, trim(input).as_bytes())? {
            Message::SigningPackage { signing_package } => Ok(signing_package),
            _ => Err(Error::UnexpectedMessage),
        }
    }

    fn send_signature_share(
        &mut self,
        suite: Ciphersuite,
        _identifier: &Identifier,
        signature_share: &SignatureShare,
    ) -> (record: Result<Option<Vec<u8>>, Error>) {
        let message = Message::SignatureShare(signature_share.duplicate());
        Ok(Some(encode_record(suite, &message)))
    }
}

} // verus!
