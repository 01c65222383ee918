//! The console as the coordinator's transport: a person pastes one record
//! on each line.

use crate::coordinator::comms::{takes_commitments, takes_share, Comms};
use crate::coordinator::step_2::{print_signing_package, printed_package};
use crate::coordinator::{verdict_view, Coordinator, CoordinatorView};
use crate::error::{Error, ErrorView};
use crate::identifier_map::entries_of;
use crate::message::{decode, decoded, package_text, MessageView};
use crate::text::{trim, trimmed};
use vstd::prelude::*;
use vstd::utf8::encode_utf8;

verus! {

/// The console transport of the coordinator.
pub struct CLIComms {}

/// The message that a pasted line stands for: the one that its text reads
/// as, between leading and trailing white space.
pub open spec fn pasted(coordinator: CoordinatorView, line: Seq<char>) -> Result<
    MessageView,
    ErrorView,
> {
    decoded(coordinator.suite, encode_utf8(trimmed(line)))
}

/// Whether a line pasted in the first round is taken, and why not.
pub open spec fn commitments_verdict(coordinator: CoordinatorView, line: Seq<char>) -> Result<
    (),
    ErrorView,
> {
    match pasted(coordinator, line) {
        Ok(message) => coordinator.round1_verdict(message),
        Err(e) => Err(e),
    }
}

/// The state after a line pasted in the first round.
pub open spec fn after_commitments(
    coordinator: CoordinatorView,
    line: Seq<char>,
) -> CoordinatorView {
    match pasted(coordinator, line) {
        Ok(message) => coordinator.after_round1(message),
        Err(_) => coordinator,
    }
}

/// The signer whose share the console asks for next: shares are pasted in
/// the identifier order of the signing package.
pub open spec fn next_signer(coordinator: CoordinatorView) -> Option<Seq<u8>> {
    if coordinator.shares.dom().len() < coordinator.commitments.dom().len() {
        Some(entries_of(coordinator.commitments)[coordinator.shares.dom().len() as int].0)
    } else {
        None
    }
}

/// Whether a line pasted in the last round is taken, and why not.
pub open spec fn share_verdict(coordinator: CoordinatorView, line: Seq<char>) -> Result<
    (),
    ErrorView,
> {
    match (pasted(coordinator, line), next_signer(coordinator)) {
        (Ok(message), Some(sender)) => coordinator.round3_verdict(sender, message),
        (Ok(_), None) => Err(ErrorView::UnexpectedMessage),
        (Err(e), _) => Err(e),
    }
}

/// The state after a line pasted in the last round.
pub open spec fn after_share(coordinator: CoordinatorView, line: Seq<char>) -> CoordinatorView {
    match (pasted(coordinator, line), next_signer(coordinator)) {
        (Ok(message), Some(sender)) => coordinator.after_round3(sender, message),
        _ => coordinator,
    }
}

impl CLIComms {
    /// A console transport.
    pub fn new() -> CLIComms {
        CLIComms {  }
    }
}

impl Comms for CLIComms {
    open spec fn ready(&self) -> bool {
        true
    }

    /// Takes one line pasted in the first round: a message with a
    /// participant's commitments.
    fn get_signing_commitments(
        &mut self,
        coordinator: &mut Coordinator,
        connection: u64,
        line: &str,
    ) -> (verdict: Result<(), Error>)
        ensures
            verdict_view(verdict) == commitments_verdict(old(coordinator)@, line@),
            final(coordinator)@ == after_commitments(old(coordinator)@, line@),
    {
        let message = decode(coordinator.suite(), trim(line).as_bytes())?;
        let ghost taken = message@;
        let verdict = coordinator.collect_round1(message);
        proof {
            if verdict is Ok {
                assert(old(coordinator)@.round1_verdict(taken) is Ok);
                assert(takes_commitments(old(coordinator)@, coordinator@));
            }
        }
        verdict
    }

    /// Issues the signing package and returns what the console shows of
    /// it: a title, and the text of the package on a line of its own.
    fn send_signing_package(&mut self, coordinator: &mut Coordinator) -> (out: Result<
        Vec<u8>,
        Error,
    >)
        ensures
            out matches Ok(shown) ==> shown@ == printed_package(
                old(coordinator)@.suite,
                package_text(old(coordinator)@.suite, old(coordinator)@.signing_package()),
            ),
            out matches Err(e) ==> e@ == ErrorView::UnexpectedMessage,
    {
        let shown = print_signing_package(coordinator.suite(), coordinator.signing_package());
        match coordinator.build_signing_package() {
            Ok(_) => Ok(shown),
            Err(e) => Err(e),
        }
    }

    /// Takes one line pasted in the last round: a message with the
    /// signature share of the signer whose turn it is.
    fn get_signature_shares(
        &mut self,
        coordinator: &mut Coordinator,
        connection: u64,
        line: &str,
    ) -> (verdict: Result<(), Error>)
        ensures
            verdict_view(verdict) == share_verdict(old(coordinator)@, line@),
            final(coordinator)@ == after_share(old(coordinator)@, line@),
    {
        let message = decode(coordinator.suite(), trim(line).as_bytes())?;
        let sender = match coordinator.signer_at(coordinator.shares_collected()) {
            Some(signer) => signer.duplicate(),
            None => {
                return Err(Error::UnexpectedMessage);
            },
        };
        let ghost taken = message@;
        let ghost from = sender@;
        let verdict = coordinator.collect_round3(sender, message);
        proof {
            if verdict is Ok {
                assert(old(coordinator)@.round3_verdict(from, taken) is Ok);
                assert(takes_share(old(coordinator)@, coordinator@));
            }
        }
        verdict
    }
}

} // verus!
