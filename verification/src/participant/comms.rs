//! How a participant talks to the coordinator.
//!
//! A transport says which records leave by it and how a delivered line is
//! read. On the console a person carries everything, so nothing leaves by
//! the transport and the line holds the signing package by itself; over a
//! socket every message travels as a record.

pub mod cli;
pub mod socket;

pub use crate::message::Message;

use crate::ciphersuite::Ciphersuite;
use crate::error::{Error, ErrorView};
use crate::identifier::Identifier;
use crate::message::{package_view, MessageView};
use crate::round1::SigningCommitments;
use crate::round2::SignatureShare;
use crate::signing_package::{SigningPackage, SigningPackageView};
use vstd::prelude::*;

verus! {

/// An optional record, by its view.
pub open spec fn record_option_view(record: Option<Vec<u8>>) -> Option<Seq<u8>> {
    match record {
        Some(r) => Some(r@),
        None => None,
    }
}

/// A transport of a participant.
pub trait Comms {
    /// The record by which a message leaves on this transport, where the
    /// transport carries it.
    spec fn carried(suite: Ciphersuite, message: MessageView) -> Option<Seq<u8>>;

    /// The signing package that a delivered line stands for on this
    /// transport.
    spec fn delivered(suite: Ciphersuite, input: Seq<char>) -> Result<
        SigningPackageView,
        ErrorView,
    >;

    /// The record by which the participant's commitments leave, if the
    /// transport carries them.
    fn send_commitments(
        &mut self,
        suite: Ciphersuite,
        identifier: &Identifier,
        commitments: &SigningCommitments,
    ) -> (record: Option<Vec<u8>>)
        ensures
            record_option_view(record) == Self::carried(
                suite,
                MessageView::IdentifiedCommitments {
                    identifier: identifier@,
                    commitments: commitments@,
                },
            ),
    ;

    /// Reads the signing package out of the line that the transport
    /// delivered.
    fn get_signing_package(
        &mut self,
        suite: Ciphersuite,
        input: &str,
        commitments: &SigningCommitments,
        identifier: &Identifier,
    ) -> (package: Result<SigningPackage, Error>)
        ensures
            package_view(package) == Self::delivered(suite, input@),
    ;

    /// The record by which the signature share leaves, if the transport
    /// carries it.
    fn send_signature_share(
        &mut self,
        suite: Ciphersuite,
        identifier: &Identifier,
        signature_share: &SignatureShare,
    ) -> (record: Result<Option<Vec<u8>>, Error>)
        ensures
            record matches Ok(r) && record_option_view(r) == Self::carried(
                suite,
                MessageView::SignatureShare(signature_share@),
            ),
    ;
}

} // verus!
