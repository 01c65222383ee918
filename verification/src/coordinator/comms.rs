//! How the coordinator talks to the participants.
//!
//! A transport hands the coordinator one record at a time. Whatever the
//! transport, a record either is refused and changes nothing, or is taken
//! as one message of the round.

pub mod cli;
pub mod socket;

pub use crate::message::Message;

use crate::coordinator::{Coordinator, CoordinatorView};
use crate::error::Error;
use crate::message::MessageView;
use vstd::prelude::*;

verus! {

/// Whether the step from `before` to `after` takes one message of the
/// first round in: the commitments of one participant.
pub open spec fn takes_commitments(before: CoordinatorView, after: CoordinatorView) -> bool {
    exists|message: MessageView|
        (#[trigger] before.round1_verdict(message)) is Ok && after == before.after_round1(message)
}

/// Whether the step from `before` to `after` takes one message of the
/// last round in: the signature share of one participant.
pub open spec fn takes_share(before: CoordinatorView, after: CoordinatorView) -> bool {
    exists|sender: Seq<u8>, message: MessageView|
        (#[trigger] before.round3_verdict(sender, message)) is Ok && after == before.after_round3(
            sender,
            message,
        )
}

/// A transport of the coordinator. It is given each record with the
/// connection that delivered it; a transport without connections takes no
/// notice of that.
pub trait Comms {
    /// What holds of the transport at every moment.
    spec fn ready(&self) -> bool;

    /// Takes one record of the first round. The record is refused, and the
    /// coordinator stays as it was, or it is taken as the commitments of
    /// one participant.
    fn get_signing_commitments(
        &mut self,
        coordinator: &mut Coordinator,
        connection: u64,
        line: &str,
    ) -> (verdict: Result<(), Error>)
        requires
            old(self).ready(),
            old(coordinator)@.wf(),
        ensures
            final(self).ready(),
            final(coordinator)@.wf(),
            verdict is Err ==> final(coordinator)@ == old(coordinator)@,
            verdict is Ok ==> takes_commitments(old(coordinator)@, final(coordinator)@),
    ;

    /// Issues the signing package, and returns what the transport is to
    /// put out: what the console shows, or the record that goes to every
    /// participant. Before the first round is complete and after the
    /// package was issued there is nothing to put out.
    fn send_signing_package(&mut self, coordinator: &mut Coordinator) -> (out: Result<
        Vec<u8>,
        Error,
    >)
        requires
            old(self).ready(),
            old(coordinator)@.wf(),
        ensures
            final(self).ready(),
            final(coordinator)@.wf(),
            final(coordinator)@ == old(coordinator)@.after_package(),
            out is Ok <==> old(coordinator)@.phase is BuildSigningPackage,
    ;

    /// Takes one record of the last round. The record is refused, and the
    /// coordinator stays as it was, or it is taken as the signature share
    /// of one participant.
    fn get_signature_shares(
        &mut self,
        coordinator: &mut Coordinator,
        connection: u64,
        line: &str,
    ) -> (verdict: Result<(), Error>)
        requires
            old(self).ready(),
            old(coordinator)@.wf(),
        ensures
            final(self).ready(),
            final(coordinator)@.wf(),
            verdict is Err ==> final(coordinator)@ == old(coordinator)@,
            verdict is Ok ==> takes_share(old(coordinator)@, final(coordinator)@),
    ;
}

} // verus!
