//! A participant's run through a ceremony, step by step. Between the steps
//! the program shows and sends what a step returned and reads what the
//! next step takes.

use crate::ciphersuite::Ciphersuite;
use crate::error::{Error, ErrorView};
use crate::message::{encode, message_text, Message, MessageView};
use crate::participant::args::{acceptable, Args, ProcessedArgs};
use crate::participant::comms::{record_option_view, Comms};
use crate::participant::{Participant, ParticipantView, RoundView};
use vstd::prelude::*;

verus! {

/// What a step of a participant puts out.
#[derive(Debug, PartialEq, Eq)]
pub struct Output {
    /// The text of the message that was produced, for the console.
    pub shown: Vec<u8>,
    /// The record that leaves by the transport, if the transport carries
    /// it.
    pub sent: Option<Vec<u8>>,
}

/// What a step puts out, as sequences.
pub struct OutputView {
    pub shown: Seq<u8>,
    pub sent: Option<Seq<u8>>,
}

impl View for Output {
    type V = OutputView;

    open spec fn view(&self) -> OutputView {
        OutputView { shown: self.shown@, sent: record_option_view(self.sent) }
    }
}

/// What goes out with a message on the transport `C`.
pub open spec fn put_out<C: Comms>(suite: Ciphersuite, message: MessageView) -> OutputView {
    OutputView { shown: message_text(suite, message), sent: C::carried(suite, message) }
}

/// Starts a participant from its arguments and the text read for its key
/// package: makes the arguments ready and runs the first round.
pub fn cli<C: Comms>(
    args: &Args,
    key_package: &str,
    comms: &mut C,
    rng: &mut rand::rngs::ThreadRng,
) -> (started: Result<(Participant, Output), Error>)
    ensures
        match started {
            Ok((participant, output)) => {
                &&& acceptable(args, key_package@)
                &&& participant@.round matches RoundView::AwaitPackage { commitments, .. }
                &&& output@ == put_out::<C>(
                    participant@.suite,
                    MessageView::IdentifiedCommitments {
                        identifier: participant@.key_package.identifier,
                        commitments,
                    },
                )
            },
            Err(e) => if acceptable(args, key_package@) {
                e@ == ErrorView::Crypto
            } else {
                e@ == ErrorView::Config
            },
        },
{
    let pargs = ProcessedArgs::new(args, key_package)?;
    cli_for_processed_args(pargs, comms, rng)
}

/// Runs the first round for a participant with the given arguments: draws
/// nonces and returns the participant, which keeps them, with what goes
/// out: its commitments.
pub fn cli_for_processed_args<C: Comms>(
    pargs: ProcessedArgs,
    comms: &mut C,
    rng: &mut rand::rngs::ThreadRng,
) -> (started: Result<(Participant, Output), Error>)
    ensures
        match started {
            Ok((participant, output)) => {
                &&& participant@.suite == pargs.ciphersuite
                &&& participant@.key_package == pargs.key_package@
                &&& participant@.round matches RoundView::AwaitPackage { commitments, .. }
                &&& output@ == put_out::<C>(
                    pargs.ciphersuite,
                    MessageView::IdentifiedCommitments {
                        identifier: pargs.key_package@.identifier,
                        commitments,
                    },
                )
            },
            Err(e) => e@ == ErrorView::Crypto,
        },
{
    let suite = pargs.ciphersuite;
    let mut participant = Participant::new(suite, pargs.key_package);
    let message = participant.commit(rng)?;
    let shown = encode(suite, &message);
    let sent = match &message {
        Message::IdentifiedCommitments { identifier, commitments } => comms.send_commitments(
            suite,
            identifier,
            commitments,
        ),
        _ => None,
    };
    Ok((participant, Output { shown, sent }))
}

/// What a step of the second round answers to a delivered line: what goes
/// out with the participant's reply to the signing package that the line
/// stands for on the transport `C`.
pub open spec fn answer<C: Comms>(participant: ParticipantView, line: Seq<char>) -> Result<
    OutputView,
    ErrorView,
> {
    if !(participant.round is AwaitPackage) {
        Err(ErrorView::UnexpectedMessage)
    } else {
        match C::delivered(participant.suite, line) {
            Ok(signing_package) => match participant.reply(
                MessageView::SigningPackage { signing_package },
            ) {
                Ok(reply) => Ok(put_out::<C>(participant.suite, reply)),
                Err(e) => Err(e),
            },
            Err(e) => Err(e),
        }
    }
}

/// The state after a delivered line: the state after the signing package
/// that the line stands for, and the state as it was where it stands for
/// none.
pub open spec fn after_line<C: Comms>(
    participant: ParticipantView,
    line: Seq<char>,
) -> ParticipantView {
    match C::delivered(participant.suite, line) {
        Ok(signing_package) => participant.after(MessageView::SigningPackage { signing_package }),
        Err(_) => participant,
    }
}

/// An output or an error, by its view.
pub open spec fn output_view(outcome: Result<Output, Error>) -> Result<OutputView, ErrorView> {
    match outcome {
        Ok(o) => Ok(o@),
        Err(e) => Err(e@),
    }
}

/// Runs the second round on the line that the transport delivered, and
/// returns what goes out: the signature share.
pub fn round_2<C: Comms>(participant: &mut Participant, comms: &mut C, line: &str) -> (output:
    Result<Output, Error>)
    ensures
        output_view(output) == answer::<C>(old(participant)@, line@),
        final(participant)@ == after_line::<C>(old(participant)@, line@),
{
    let suite = participant.suite();
    let package = match participant.commitments() {
        Some(commitments) => comms.get_signing_package(
            suite,
            line,
            commitments,
            &participant.key_package().identifier,
        )?,
        None => {
            return Err(Error::UnexpectedMessage);
        },
    };
    let reply = participant.receive(Message::SigningPackage { signing_package: package })?;
    let shown = encode(suite, &reply);
    let sent = match &reply {
        Message::SignatureShare(share) => comms.send_signature_share(
            suite,
            &participant.key_package().identifier,
            share,
        )?,
        _ => None,
    };
    Ok(Output { shown, sent })
}

} // verus!
