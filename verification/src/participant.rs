//! A participant: it commits in the first round and signs in the second.

pub mod args;
pub mod cli;
pub mod comms;

use crate::ciphersuite::Ciphersuite;
use crate::error::{Error, ErrorView};
use crate::identifier_map::lemma_entries_of;
use crate::keys::{KeyPackage, KeyPackageView};
use crate::message::{
    decoded, lemma_round_trip, message_text, package_text, reply_view, Message, MessageView,
};
use crate::reading::commitments_fit;
use crate::round1::{SigningCommitments, SigningCommitmentsView, SigningNonces};
use crate::scheme::{commit, sign, spec_signature_share};
use crate::signing_package::SigningPackageView;
use crate::wire::{encode_key_package, encode_signing_package, key_package_text};
use vstd::prelude::*;

verus! {

/// Where a participant stands in a ceremony.
#[derive(Clone, Copy, Debug, PartialEq, Eq, Structural)]
pub enum Phase {
    /// The key package is loaded; nothing has been sent.
    Commit,
    /// The commitments are sent; the signing package is awaited.
    AwaitPackage,
    /// The share was computed, or the scheme refused to compute it. The
    /// nonces are gone.
    Done,
}

/// What a participant holds in each phase. The nonces exist in one phase
/// only, and leaving it consumes them.
enum Round {
    Commit,
    AwaitPackage { nonces: SigningNonces, commitments: SigningCommitments },
    Done,
}

/// What a participant holds in each phase, as byte sequences.
pub enum RoundView {
    Commit,
    AwaitPackage { nonces: Seq<u8>, commitments: SigningCommitmentsView },
    Done,
}

/// One signer's part in one ceremony.
pub struct Participant {
    suite: Ciphersuite,
    key_package: KeyPackage,
    round: Round,
}

/// The state of a participant.
pub struct ParticipantView {
    pub suite: Ciphersuite,
    pub key_package: KeyPackageView,
    pub round: RoundView,
}

impl ParticipantView {
    /// The phase that the state stands for.
    pub open spec fn phase(self) -> Phase {
        match self.round {
            RoundView::Commit => Phase::Commit,
            RoundView::AwaitPackage { .. } => Phase::AwaitPackage,
            RoundView::Done => Phase::Done,
        }
    }

    /// Whether nonces can be reached from the state.
    pub open spec fn holds_nonces(self) -> bool {
        self.round is AwaitPackage
    }

    /// Whether a signing package lists this participant with the
    /// commitments it sent.
    pub open spec fn listed_in(self, package: SigningPackageView) -> bool {
        &&& self.round matches RoundView::AwaitPackage { commitments, .. }
        &&& package.signing_commitments.dom().contains(self.key_package.identifier)
        &&& package.signing_commitments[self.key_package.identifier] == commitments
    }

    /// Whether commitments can go on the wire under the participant's
    /// identifier: the identifier and the elements have the width of the
    /// suite.
    pub open spec fn can_send(self, commitments: SigningCommitmentsView) -> bool {
        &&& self.key_package.identifier.len() == self.suite.scalar_len()
        &&& commitments_fit(self.suite, commitments)
    }

    /// What the participant answers to the outcome of drawing nonces: its
    /// commitments under its identifier, once. Commitments that cannot go
    /// on the wire count as a failure of the scheme.
    pub open spec fn commitment_reply(
        self,
        drawn: Option<(Seq<u8>, SigningCommitmentsView)>,
    ) -> Result<MessageView, ErrorView> {
        if !(self.round is Commit) {
            Err(ErrorView::UnexpectedMessage)
        } else {
            match drawn {
                Some((_, commitments)) if self.can_send(commitments) => Ok(
                    MessageView::IdentifiedCommitments {
                        identifier: self.key_package.identifier,
                        commitments,
                    },
                ),
                _ => Err(ErrorView::Crypto),
            }
        }
    }

    /// The state after the outcome of drawing nonces was taken in.
    pub open spec fn after_commit(self, drawn: Option<(Seq<u8>, SigningCommitmentsView)>) -> Self {
        match drawn {
            Some((nonces, commitments)) if self.round is Commit && self.can_send(commitments) => {
                ParticipantView { round: RoundView::AwaitPackage { nonces, commitments }, ..self }
            },
            _ => self,
        }
    }

    /// What the participant answers to a message: its signature share for
    /// a signing package that lists it with its own commitments, and an
    /// error for anything else. A share that has not the width of the
    /// suite counts as a failure of the scheme.
    pub open spec fn reply(self, message: MessageView) -> Result<MessageView, ErrorView> {
        match (self.round, message) {
            (
                RoundView::AwaitPackage { nonces, .. },
                MessageView::SigningPackage { signing_package },
            ) => {
                if !self.listed_in(signing_package) {
                    Err(ErrorView::PackageMismatch)
                } else {
                    match spec_signature_share(
                        self.suite,
                        package_text(self.suite, signing_package),
                        nonces,
                        key_package_text(self.suite, self.key_package),
                    ) {
                        Some(share) if share.len() == self.suite.scalar_len() => Ok(
                            MessageView::SignatureShare(share),
                        ),
                        _ => Err(ErrorView::Crypto),
                    }
                }
            },
            _ => Err(ErrorView::UnexpectedMessage),
        }
    }

    /// Whether a message makes the participant use its nonces.
    pub open spec fn signs(self, message: MessageView) -> bool {
        &&& self.round is AwaitPackage
        &&& message matches MessageView::SigningPackage { signing_package }
        &&& self.listed_in(signing_package)
    }

    /// The state after a message: the nonces are gone if they were used,
    /// and nothing has changed if they were not.
    pub open spec fn after(self, message: MessageView) -> Self {
        if self.signs(message) {
            ParticipantView { round: RoundView::Done, ..self }
        } else {
            self
        }
    }
}

impl View for Participant {
    type V = ParticipantView;

    closed spec fn view(&self) -> ParticipantView {
        ParticipantView {
            suite: self.suite,
            key_package: self.key_package@,
            round: match self.round {
                Round::Commit => RoundView::Commit,
                Round::AwaitPackage { nonces, commitments } => RoundView::AwaitPackage {
                    nonces: nonces@,
                    commitments: commitments@,
                },
                Round::Done => RoundView::Done,
            },
        }
    }
}

/// What was drawn for a commitment, as byte sequences.
pub open spec fn drawn_view(drawn: Option<(SigningNonces, SigningCommitments)>) -> Option<
    (Seq<u8>, SigningCommitmentsView),
> {
    match drawn {
        Some((nonces, commitments)) => Some((nonces@, commitments@)),
        None => None,
    }
}

impl Participant {
    /// A participant that holds `key_package` and has sent nothing yet.
    pub fn new(suite: Ciphersuite, key_package: KeyPackage) -> (p: Participant)
        ensures
            p@ == (ParticipantView { suite, key_package: key_package@, round: RoundView::Commit }),
    {
        Participant { suite, key_package, round: Round::Commit }
    }

    /// The ciphersuite of the ceremony.
    pub fn suite(&self) -> (suite: Ciphersuite)
        ensures
            suite == self@.suite,
    {
        self.suite
    }

    /// The phase the participant is in.
    pub fn phase(&self) -> (phase: Phase)
        ensures
            phase == self@.phase(),
    {
        match &self.round {
            Round::Commit => Phase::Commit,
            Round::AwaitPackage { .. } => Phase::AwaitPackage,
            Round::Done => Phase::Done,
        }
    }

    /// Whether the participant holds nonces.
    pub fn holds_nonces(&self) -> (held: bool)
        ensures
            held == self@.holds_nonces(),
    {
        match &self.round {
            Round::AwaitPackage { .. } => true,
            _ => false,
        }
    }

    /// The commitments that the participant sent, while it awaits the
    /// signing package.
    pub fn commitments(&self) -> (sent: Option<&SigningCommitments>)
        ensures
            match sent {
                Some(c) => self@.round matches RoundView::AwaitPackage { commitments, .. }
                    && c@ == commitments,
                None => !(self@.round is AwaitPackage),
            },
    {
        match &self.round {
            Round::AwaitPackage { commitments, .. } => Some(commitments),
            _ => None,
        }
    }

    /// The key package of the participant.
    pub fn key_package(&self) -> (k: &KeyPackage)
        ensures
            k@ == self@.key_package,
    {
        &self.key_package
    }

    /// Takes in what was drawn for the first round and answers with the
    /// message for the coordinator. A participant commits once: in any
    /// other phase, and where nothing was drawn, the state stays as it is.
    pub fn commit_with(&mut self, drawn: Option<(SigningNonces, SigningCommitments)>) -> (reply:
        Result<Message, Error>)
        ensures
            reply_view(reply) == old(self)@.commitment_reply(drawn_view(drawn)),
            final(self)@ == old(self)@.after_commit(drawn_view(drawn)),
    {
        match &self.round {
            Round::Commit => {},
            _ => {
                return Err(Error::UnexpectedMessage);
            },
        }
        match drawn {
            Some((nonces, commitments)) => {
                if self.key_package.identifier.bytes.len() != self.suite.scalar_width()
                    || commitments.hiding.len() != self.suite.element_width()
                    || commitments.binding.len() != self.suite.element_width() {
                    return Err(Error::Crypto);
                }
                let sent = commitments.duplicate();
                self.round = Round::AwaitPackage { nonces, commitments };
                Ok(
                    Message::IdentifiedCommitments {
                        identifier: self.key_package.identifier.duplicate(),
                        commitments: sent,
                    },
                )
            },
            None => Err(Error::Crypto),
        }
    }

    /// Draws fresh nonces and answers with the commitments to them, under
    /// the participant's identifier. The nonces stay with the participant.
    pub fn commit(&mut self, rng: &mut rand::rngs::ThreadRng) -> (reply: Result<Message, Error>)
        ensures
            !(old(self)@.round is Commit) ==> reply_view(reply) == Err::<MessageView, ErrorView>(
                ErrorView::UnexpectedMessage,
            ) && final(self)@ == old(self)@,
            old(self)@.round is Commit ==> match reply {
                Ok(message) => {
                    &&& message@.fits(old(self)@.suite)
                    &&& message@ matches MessageView::IdentifiedCommitments {
                        identifier,
                        commitments,
                    }
                    &&& identifier == old(self)@.key_package.identifier
                    &&& final(self)@.round matches RoundView::AwaitPackage { commitments: kept, .. }
                    &&& kept == commitments
                    &&& final(self)@.suite == old(self)@.suite
                    &&& final(self)@.key_package == old(self)@.key_package
                },
                Err(e) => e@ == ErrorView::Crypto && final(self)@ == old(self)@,
            },
    {
        match &self.round {
            Round::Commit => {},
            _ => {
                return Err(Error::UnexpectedMessage);
            },
        }
        let key_text = encode_key_package(self.suite, &self.key_package);
        let drawn = commit(self.suite, key_text.as_slice(), rng);
        self.commit_with(drawn)
    }

    /// Takes a message from the coordinator. For a signing package that
    /// lists this participant with the commitments it sent, the answer is
    /// the signature share, and the nonces are used up whether or not the
    /// scheme yields one. Any other message is refused, and the state
    /// stays as it is.
    pub fn receive(&mut self, message: Message) -> (reply: Result<Message, Error>)
        ensures
            reply_view(reply) == old(self)@.reply(message@),
            final(self)@ == old(self)@.after(message@),
    {
        match message {
            Message::SigningPackage { signing_package } => {
                let listed = match &self.round {
                    Round::AwaitPackage { commitments, .. } => {
                        match signing_package.signing_commitment(&self.key_package.identifier) {
                            Some(found) => found.same(commitments),
                            None => false,
                        }
                    },
                    _ => {
                        return Err(Error::UnexpectedMessage);
                    },
                };
                if !listed {
                    return Err(Error::PackageMismatch);
                }
                let mut round = Round::Done;
                core::mem::swap(&mut self.round, &mut round);
                match round {
                    Round::AwaitPackage { nonces, commitments } => {
                        let package = encode_signing_package(self.suite, &signing_package);
                        let key_text = encode_key_package(self.suite, &self.key_package);
                        proof {
                            use_type_invariant(&signing_package.signing_commitments);
                            lemma_entries_of(signing_package.signing_commitments.spec_entries());
                        }
                        match sign(self.suite, package.as_slice(), &nonces, key_text.as_slice()) {
                            Some(share) => {
                                if share.share.len() == self.suite.scalar_width() {
                                    Ok(Message::SignatureShare(share))
                                } else {
                                    Err(Error::Crypto)
                                }
                            },
                            None => Err(Error::Crypto),
                        }
                    },
                    _ => Err(Error::UnexpectedMessage),
                }
            },
            _ => Err(Error::UnexpectedMessage),
        }
    }
}

/// A signing package that leaves the participant out, or lists other
/// commitments for it than the ones it sent, is refused as a mismatch. No
/// share comes out, and the participant stays as it was.
pub proof fn lemma_package_mismatch(p: ParticipantView, signing_package: SigningPackageView)
    requires
        p.round is AwaitPackage,
        !p.listed_in(signing_package),
    ensures
        p.reply(MessageView::SigningPackage { signing_package }) == Err::<MessageView, ErrorView>(
            ErrorView::PackageMismatch,
        ),
        p.after(MessageView::SigningPackage { signing_package }) == p,
{
}

/// Nonces are used once. Whenever a message is answered with a share, and
/// whenever the scheme was asked for one, the nonces are gone afterwards.
/// A participant without nonces answers no message with a share, and
/// receiving a message never gives it nonces.
pub proof fn lemma_nonces_used_once(p: ParticipantView, message: MessageView, next: MessageView)
    ensures
        p.reply(message) is Ok ==> p.signs(message),
        p.signs(message) ==> !p.after(message).holds_nonces(),
        p.signs(message) ==> p.after(message).reply(next) == Err::<MessageView, ErrorView>(
            ErrorView::UnexpectedMessage,
        ),
        !p.holds_nonces() ==> p.reply(message) == Err::<MessageView, ErrorView>(
            ErrorView::UnexpectedMessage,
        ) && !p.after(message).holds_nonces(),
{
}

/// What a participant sends reads back: the text of its commitments and
/// the text of its share stand for the messages they were written from.
pub proof fn lemma_replies_read_back(
    p: ParticipantView,
    drawn: Option<(Seq<u8>, SigningCommitmentsView)>,
    message: MessageView,
)
    ensures
        p.commitment_reply(drawn) matches Ok(sent) ==> sent.fits(p.suite) && decoded(
            p.suite,
            message_text(p.suite, sent),
        ) == Ok::<MessageView, ErrorView>(sent),
        p.reply(message) matches Ok(sent) ==> sent.fits(p.suite) && decoded(
            p.suite,
            message_text(p.suite, sent),
        ) == Ok::<MessageView, ErrorView>(sent),
{
    match p.commitment_reply(drawn) {
        Ok(sent) => lemma_round_trip(p.suite, sent),
        Err(_) => {},
    }
    match p.reply(message) {
        Ok(sent) => lemma_round_trip(p.suite, sent),
        Err(_) => {},
    }
}

/// A participant whose commitments the coordinator collected finds itself
/// in the signing package: a package that lists the participant with the
/// commitments it sent is no mismatch, whoever else is listed.
pub proof fn lemma_collected_is_listed(p: ParticipantView, signing_package: SigningPackageView)
    requires
        p.round matches RoundView::AwaitPackage { commitments, .. }
            && signing_package.signing_commitments.dom().contains(p.key_package.identifier)
            && signing_package.signing_commitments[p.key_package.identifier] == commitments,
    ensures
        p.listed_in(signing_package),
        p.signs(MessageView::SigningPackage { signing_package }),
        !(p.reply(MessageView::SigningPackage { signing_package }) matches Err(
            ErrorView::PackageMismatch,
        )),
{
}

} // verus!
