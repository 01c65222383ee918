//! The coordinator: it collects commitments, issues the signing package
//! and aggregates the shares.

pub mod args;
pub mod comms;
pub mod step_1;
pub mod step_2;
pub mod step_3;

use crate::ciphersuite::Ciphersuite;
use crate::coordinator::step_3::{aggregate_shares, aggregated, signature_view};
use crate::error::{Error, ErrorView};
use crate::identifier::Identifier;
use crate::identifier_map::{
    distinct_keys, entries_of, lemma_entries_of, lemma_sorted_lookup, lemma_to_map_len,
    lemma_to_map_permutation, lemma_to_map_push, listable, to_map, IdentifierMap,
};
use crate::keys::{PublicKeyPackage, PublicKeyPackageView};
use crate::message::{
    decoded, lemma_round_trip, message_text, package_fits, Message, MessageView,
};
use crate::reading::entry_fits;
use crate::round1::SigningCommitmentsView;
use crate::round2::{Signature, SignatureShare};
use crate::signing_package::{SigningPackage, SigningPackageView};
use crate::wire::{push_text, write_signing_package, CLOSE};
use vstd::prelude::*;

verus! {

/// Where the coordinator stands in a ceremony.
#[derive(Clone, Copy, Debug, PartialEq, Eq, Structural)]
pub enum Phase {
    /// Commitments are being collected.
    AwaitParticipants,
    /// Every signer has committed; the signing package is due.
    BuildSigningPackage,
    /// The signing package is out; shares are being collected.
    AwaitShares,
    /// Every signer has sent its share; the signature is due.
    Aggregate,
    /// The signature was produced.
    Done,
    /// The ceremony was given up.
    Abort,
}

/// The coordinator's part in one ceremony for one message.
pub struct Coordinator {
    suite: Ciphersuite,
    num_signers: u16,
    public_key_package: PublicKeyPackage,
    package: SigningPackage,
    phase: Phase,
    shares: IdentifierMap<SignatureShare>,
}

/// The state of the coordinator.
pub struct CoordinatorView {
    pub suite: Ciphersuite,
    pub num_signers: u16,
    pub public_key_package: PublicKeyPackageView,
    pub message: Seq<u8>,
    pub phase: Phase,
    pub commitments: Map<Seq<u8>, SigningCommitmentsView>,
    pub shares: Map<Seq<u8>, Seq<u8>>,
}

/// An outcome without a value, by its view.
pub open spec fn verdict_view(verdict: Result<(), Error>) -> Result<(), ErrorView> {
    match verdict {
        Ok(()) => Ok(()),
        Err(e) => Err(e@),
    }
}

impl CoordinatorView {
    /// What holds of the coordinator at every moment: only signers of the
    /// group have committed, only signers that committed have sent a share,
    /// what was collected has the width of the suite, and the phase says
    /// how many of each there are.
    pub open spec fn wf(self) -> bool {
        &&& self.commitments.dom().finite()
        &&& self.shares.dom().finite()
        &&& self.commitments.dom().subset_of(self.public_key_package.verifying_shares.dom())
        &&& self.shares.dom().subset_of(self.commitments.dom())
        &&& forall|k: Seq<u8>| #[trigger]
            self.commitments.dom().contains(k) ==> entry_fits(self.suite, (k, self.commitments[k]))
        &&& match self.phase {
            Phase::AwaitParticipants => {
                &&& self.commitments.dom().len() < self.num_signers
                &&& self.shares.dom().len() == 0
            },
            Phase::BuildSigningPackage => {
                &&& self.commitments.dom().len() == self.num_signers
                &&& self.shares.dom().len() == 0
            },
            Phase::AwaitShares => {
                &&& self.commitments.dom().len() == self.num_signers
                &&& self.shares.dom().len() < self.num_signers
            },
            Phase::Aggregate | Phase::Done => {
                &&& self.commitments.dom().len() == self.num_signers
                &&& self.shares.dom().len() == self.num_signers
            },
            Phase::Abort => true,
        }
    }

    /// The message that carries the signing package to the participants.
    pub open spec fn package_message(self) -> MessageView {
        MessageView::SigningPackage { signing_package: self.signing_package() }
    }

    /// The signing package that the collected commitments make.
    pub open spec fn signing_package(self) -> SigningPackageView {
        SigningPackageView { signing_commitments: self.commitments, message: self.message }
    }

    /// Whether a message of the first round is taken, and why not. The
    /// sender must be a signer of the group that has not committed yet,
    /// and what it sent must have the width of the suite.
    pub open spec fn round1_verdict(self, message: MessageView) -> Result<(), ErrorView> {
        match message {
            MessageView::IdentifiedCommitments { identifier, commitments } if self.phase
                is AwaitParticipants => {
                if !self.public_key_package.verifying_shares.dom().contains(identifier) {
                    Err(ErrorView::UnknownSigner(identifier))
                } else if self.commitments.dom().contains(identifier) {
                    Err(ErrorView::DuplicateSigner(identifier))
                } else if !entry_fits(self.suite, (identifier, commitments)) {
                    Err(ErrorView::Decode)
                } else {
                    Ok(())
                }
            },
            _ => Err(ErrorView::UnexpectedMessage),
        }
    }

    /// The state after a message of the first round: with the commitments
    /// added if the message was taken, and as before if it was refused.
    pub open spec fn after_round1(self, message: MessageView) -> Self {
        match message {
            MessageView::IdentifiedCommitments { identifier, commitments } if self.round1_verdict(
                message,
            ) is Ok => {
                let collected = self.commitments.insert(identifier, commitments);
                CoordinatorView {
                    commitments: collected,
                    phase: if collected.dom().len() == self.num_signers {
                        Phase::BuildSigningPackage
                    } else {
                        Phase::AwaitParticipants
                    },
                    ..self
                }
            },
            _ => self,
        }
    }

    /// The phase that follows the signing package.
    pub open spec fn after_package(self) -> Self {
        if self.phase is BuildSigningPackage {
            CoordinatorView {
                phase: if self.num_signers == 0 {
                    Phase::Aggregate
                } else {
                    Phase::AwaitShares
                },
                ..self
            }
        } else {
            self
        }
    }

    /// Whether a message of the last round is taken from `sender`, and why
    /// not.
    pub open spec fn round3_verdict(self, sender: Seq<u8>, message: MessageView) -> Result<
        (),
        ErrorView,
    > {
        match message {
            MessageView::SignatureShare(_) if self.phase is AwaitShares => {
                if !self.commitments.dom().contains(sender) {
                    Err(ErrorView::UnknownSigner(sender))
                } else if self.shares.dom().contains(sender) {
                    Err(ErrorView::DuplicateSigner(sender))
                } else {
                    Ok(())
                }
            },
            _ => Err(ErrorView::UnexpectedMessage),
        }
    }

    /// The state after a message of the last round.
    pub open spec fn after_round3(self, sender: Seq<u8>, message: MessageView) -> Self {
        match message {
            MessageView::SignatureShare(share) if self.round3_verdict(sender, message) is Ok => {
                let collected = self.shares.insert(sender, share);
                CoordinatorView {
                    shares: collected,
                    phase: if collected.dom().len() == self.num_signers {
                        Phase::Aggregate
                    } else {
                        Phase::AwaitShares
                    },
                    ..self
                }
            },
            _ => self,
        }
    }

    /// The state after commitments arrived one after the other, each as a
    /// message of the first round.
    pub open spec fn after_commitments(
        self,
        arrivals: Seq<(Seq<u8>, SigningCommitmentsView)>,
    ) -> Self
        decreases arrivals.len(),
    {
        if arrivals.len() == 0 {
            self
        } else {
            self.after_commitments(arrivals.drop_last()).after_round1(
                MessageView::IdentifiedCommitments {
                    identifier: arrivals.last().0,
                    commitments: arrivals.last().1,
                },
            )
        }
    }

    /// The state after shares arrived one after the other, each as a
    /// message of the last round from its sender.
    pub open spec fn after_shares(self, arrivals: Seq<(Seq<u8>, Seq<u8>)>) -> Self
        decreases arrivals.len(),
    {
        if arrivals.len() == 0 {
            self
        } else {
            self.after_shares(arrivals.drop_last()).after_round3(
                arrivals.last().0,
                MessageView::SignatureShare(arrivals.last().1),
            )
        }
    }

    /// What the end of the time for a round means: a timeout while the
    /// coordinator waits for commitments or for shares, nothing otherwise.
    pub open spec fn expiry(self) -> Result<(), ErrorView> {
        if self.phase is AwaitParticipants || self.phase is AwaitShares {
            Err(ErrorView::Timeout)
        } else {
            Ok(())
        }
    }

    /// What aggregation yields: the signature that the scheme computes
    /// from the signing package, the shares and the public key package.
    pub open spec fn aggregate_result(self) -> Result<Seq<u8>, ErrorView> {
        if !(self.phase is Aggregate) {
            Err(ErrorView::UnexpectedMessage)
        } else {
            aggregated(self.suite, self.signing_package(), self.shares, self.public_key_package)
        }
    }

    /// The state after aggregation: done with a signature, given up
    /// without one.
    pub open spec fn after_aggregate(self) -> Self {
        if self.phase is Aggregate {
            CoordinatorView {
                phase: if self.aggregate_result() is Ok {
                    Phase::Done
                } else {
                    Phase::Abort
                },
                ..self
            }
        } else {
            self
        }
    }
}

impl View for Coordinator {
    type V = CoordinatorView;

    closed spec fn view(&self) -> CoordinatorView {
        CoordinatorView {
            suite: self.suite,
            num_signers: self.num_signers,
            public_key_package: self.public_key_package@,
            message: self.package.message@,
            phase: self.phase,
            commitments: self.package.signing_commitments@,
            shares: self.shares@,
        }
    }
}

impl Coordinator {
    /// A coordinator that is to collect `num_signers` signers of the group
    /// of `public_key_package` for a signature on `message`.
    pub fn new(
        suite: Ciphersuite,
        public_key_package: PublicKeyPackage,
        message: Vec<u8>,
        num_signers: u16,
    ) -> (c: Coordinator)
        ensures
            c@.wf(),
            c@ == (CoordinatorView {
                suite,
                num_signers,
                public_key_package: public_key_package@,
                message: message@,
                phase: if num_signers == 0 {
                    Phase::BuildSigningPackage
                } else {
                    Phase::AwaitParticipants
                },
                commitments: Map::empty(),
                shares: Map::empty(),
            }),
    {
        let phase = if num_signers == 0 {
            Phase::BuildSigningPackage
        } else {
            Phase::AwaitParticipants
        };
        Coordinator {
            suite,
            num_signers,
            public_key_package,
            package: SigningPackage { signing_commitments: IdentifierMap::new(), message },
            phase,
            shares: IdentifierMap::new(),
        }
    }

    /// The phase the coordinator is in.
    pub fn phase(&self) -> (phase: Phase)
        ensures
            phase == self@.phase,
    {
        self.phase
    }

    /// The ciphersuite of the ceremony.
    pub fn suite(&self) -> (suite: Ciphersuite)
        ensures
            suite == self@.suite,
    {
        self.suite
    }

    /// The signing package as far as it is collected. It is complete once
    /// the first round is.
    pub fn signing_package(&self) -> (package: &SigningPackage)
        ensures
            package@ == self@.signing_package(),
    {
        &self.package
    }

    /// The number of signers that have committed.
    pub fn commitments_collected(&self) -> (n: usize)
        ensures
            n == self@.commitments.dom().len(),
    {
        self.package.signing_commitments.len()
    }

    /// The number of signers that have sent a share.
    pub fn shares_collected(&self) -> (n: usize)
        ensures
            n == self@.shares.dom().len(),
    {
        self.shares.len()
    }

    /// Whether `identifier` has committed.
    pub fn has_committed(&self, identifier: &Identifier) -> (r: bool)
        ensures
            r == self@.commitments.dom().contains(identifier@),
    {
        self.package.signing_commitments.contains_key(identifier)
    }

    /// The identifier of the signer at `index` among those that committed,
    /// in identifier order.
    pub fn signer_at(&self, index: usize) -> (signer: Option<&Identifier>)
        ensures
            signer is Some <==> index < self@.commitments.dom().len(),
            signer matches Some(id) ==> id@ == entries_of(self@.commitments)[index as int].0,
    {
        proof {
            use_type_invariant(&self.package.signing_commitments);
            lemma_entries_of(self.package.signing_commitments.spec_entries());
        }
        if index < self.package.signing_commitments.len() {
            Some(self.package.signing_commitments.key_at(index))
        } else {
            None
        }
    }

    /// Takes a message of the first round. Commitments of a signer of the
    /// group that has not committed yet are added, and with the last of
    /// them the round is complete. Anything else is refused, and the
    /// state stays as it is.
    pub fn collect_round1(&mut self, message: Message) -> (verdict: Result<(), Error>)
        requires
            old(self)@.wf(),
        ensures
            final(self)@.wf(),
            verdict_view(verdict) == old(self)@.round1_verdict(message@),
            final(self)@ == old(self)@.after_round1(message@),
    {
        match self.phase {
            Phase::AwaitParticipants => {},
            _ => {
                return Err(Error::UnexpectedMessage);
            },
        }
        match message {
            Message::IdentifiedCommitments { identifier, commitments } => {
                if !self.public_key_package.has_signer(&identifier) {
                    return Err(Error::UnknownSigner(identifier));
                }
                if self.package.signing_commitments.contains_key(&identifier) {
                    return Err(Error::DuplicateSigner(identifier));
                }
                if identifier.bytes.len() != self.suite.scalar_width() || commitments.hiding.len()
                    != self.suite.element_width() || commitments.binding.len()
                    != self.suite.element_width() {
                    return Err(Error::Decode);
                }
                self.package.signing_commitments.insert(identifier, commitments);
                let collected = self.package.signing_commitments.len();
                if collected == self.num_signers as usize {
                    self.phase = Phase::BuildSigningPackage;
                }
                Ok(())
            },
            _ => Err(Error::UnexpectedMessage),
        }
    }

    /// Issues the signing package: the text of the message that goes to
    /// every participant. Before the first round is complete and after the
    /// package was issued there is none.
    pub fn build_signing_package(&mut self) -> (text: Result<Vec<u8>, Error>)
        requires
            old(self)@.wf(),
        ensures
            final(self)@.wf(),
            final(self)@ == old(self)@.after_package(),
            match text {
                Ok(t) => {
                    &&& old(self)@.phase is BuildSigningPackage
                    &&& t@ == message_text(old(self)@.suite, old(self)@.package_message())
                    &&& decoded(old(self)@.suite, t@) == Ok::<MessageView, ErrorView>(
                        old(self)@.package_message(),
                    )
                },
                Err(e) => !(old(self)@.phase is BuildSigningPackage) && e@
                    == ErrorView::UnexpectedMessage,
            },
    {
        match self.phase {
            Phase::BuildSigningPackage => {},
            _ => {
                return Err(Error::UnexpectedMessage);
            },
        }
        let mut out: Vec<u8> = Vec::new();
        push_text(&mut out, "{\"SigningPackage\":{\"signing_package\":");
        write_signing_package(&mut out, self.suite, &self.package);
        out.push(CLOSE);
        out.push(CLOSE);
        proof {
            use_type_invariant(&self.package.signing_commitments);
            let entries = self.package.signing_commitments.spec_entries();
            lemma_entries_of(entries);
            assert(out@ =~= message_text(self@.suite, self@.package_message()));
            lemma_listed_fit(self@.suite, self@.signing_package());
            lemma_round_trip(self@.suite, self@.package_message());
        }
        self.phase = if self.num_signers == 0 {
            Phase::Aggregate
        } else {
            Phase::AwaitShares
        };
        Ok(out)
    }

    /// Takes a message of the last round from `sender`, the signer that
    /// the transport knows the message to come from. The share of a signer
    /// that committed and has sent none yet is added, and with the last of
    /// them the round is complete. Anything else is refused, and the state
    /// stays as it is.
    pub fn collect_round3(&mut self, sender: Identifier, message: Message) -> (verdict: Result<
        (),
        Error,
    >)
        requires
            old(self)@.wf(),
        ensures
            final(self)@.wf(),
            verdict_view(verdict) == old(self)@.round3_verdict(sender@, message@),
            final(self)@ == old(self)@.after_round3(sender@, message@),
    {
        match self.phase {
            Phase::AwaitShares => {},
            _ => {
                return Err(Error::UnexpectedMessage);
            },
        }
        match message {
            Message::SignatureShare(share) => {
                if !self.package.signing_commitments.contains_key(&sender) {
                    return Err(Error::UnknownSigner(sender));
                }
                if self.shares.contains_key(&sender) {
                    return Err(Error::DuplicateSigner(sender));
                }
                self.shares.insert(sender, share);
                let collected = self.shares.len();
                if collected == self.num_signers as usize {
                    self.phase = Phase::Aggregate;
                }
                Ok(())
            },
            _ => Err(Error::UnexpectedMessage),
        }
    }

    /// Aggregates the shares into the signature. Where the scheme refuses,
    /// the ceremony is given up: which share was at fault is not found out.
    /// Before every share is in there is nothing to aggregate, and the
    /// state stays as it is.
    pub fn aggregate(&mut self) -> (outcome: Result<Signature, Error>)
        requires
            old(self)@.wf(),
        ensures
            final(self)@.wf(),
            signature_view(outcome) == old(self)@.aggregate_result(),
            final(self)@ == old(self)@.after_aggregate(),
    {
        match self.phase {
            Phase::Aggregate => {},
            _ => {
                return Err(Error::UnexpectedMessage);
            },
        }
        match aggregate_shares(self.suite, &self.package, &self.shares, &self.public_key_package) {
            Ok(signature) => {
                self.phase = Phase::Done;
                Ok(signature)
            },
            Err(e) => {
                self.phase = Phase::Abort;
                Err(e)
            },
        }
    }

    /// Tells the coordinator that the time for the round it waits in is
    /// over. While it waits for commitments or for shares, the ceremony is
    /// given up and the answer is a timeout; in any other phase nothing
    /// happens.
    pub fn expire(&mut self) -> (verdict: Result<(), Error>)
        requires
            old(self)@.wf(),
        ensures
            final(self)@.wf(),
            verdict_view(verdict) == old(self)@.expiry(),
            final(self)@ == (if old(self)@.expiry() is Err {
                CoordinatorView { phase: Phase::Abort, ..old(self)@ }
            } else {
                old(self)@
            }),
    {
        match self.phase {
            Phase::AwaitParticipants | Phase::AwaitShares => {
                self.phase = Phase::Abort;
                Err(Error::Timeout)
            },
            _ => Ok(()),
        }
    }

    /// Gives the ceremony up.
    pub fn abort(&mut self)
        requires
            old(self)@.wf(),
        ensures
            final(self)@.wf(),
            final(self)@ == (CoordinatorView { phase: Phase::Abort, ..old(self)@ }),
    {
        self.phase = Phase::Abort;
    }
}

/// A signing package whose map can be listed fits the suite where every
/// one of its bindings does.
pub proof fn lemma_listed_fit(suite: Ciphersuite, package: SigningPackageView)
    requires
        listable(package.signing_commitments),
        forall|k: Seq<u8>| #[trigger]
            package.signing_commitments.dom().contains(k) ==> entry_fits(
                suite,
                (k, package.signing_commitments[k]),
            ),
    ensures
        package_fits(suite, package),
{
    let entries = entries_of(package.signing_commitments);
    assert forall|i: int| 0 <= i < entries.len() implies entry_fits(
        suite,
        #[trigger] entries[i],
    ) by {
        lemma_sorted_lookup(entries, i);
        assert(package.signing_commitments.dom().contains(entries[i].0));
    }
}

/// Commitments from signers of the group, no two from the same signer and
/// no more than the ceremony takes, are all collected, and the first round
/// is complete exactly when there are as many as the ceremony takes.
pub proof fn lemma_commitments_collected(
    c: CoordinatorView,
    arrivals: Seq<(Seq<u8>, SigningCommitmentsView)>,
)
    requires
        c.wf(),
        c.phase is AwaitParticipants,
        c.commitments == Map::<Seq<u8>, SigningCommitmentsView>::empty(),
        distinct_keys(arrivals),
        arrivals.len() <= c.num_signers,
        forall|i: int|
            0 <= i < arrivals.len() ==> c.public_key_package.verifying_shares.dom().contains(
                (#[trigger] arrivals[i]).0,
            ) && entry_fits(c.suite, arrivals[i]),
    ensures
        c.after_commitments(arrivals).wf(),
        c.after_commitments(arrivals) == (CoordinatorView {
            commitments: to_map(arrivals),
            phase: if arrivals.len() == c.num_signers {
                Phase::BuildSigningPackage
            } else {
                Phase::AwaitParticipants
            },
            ..c
        }),
    decreases arrivals.len(),
{
    if arrivals.len() == 0 {
        assert(to_map(arrivals) =~= Map::<Seq<u8>, SigningCommitmentsView>::empty());
    } else {
        let rest = arrivals.drop_last();
        let last = arrivals.last();
        assert(arrivals =~= rest.push((last.0, last.1)));
        lemma_to_map_push(rest, last.0, last.1);
        let signers = c.public_key_package.verifying_shares.dom();
        assert forall|i: int| 0 <= i < rest.len() implies signers.contains(
            (#[trigger] rest[i]).0,
        ) && entry_fits(c.suite, rest[i]) by {
            assert(rest[i] == arrivals[i]);
        }
        lemma_commitments_collected(c, rest);
        lemma_to_map_len(rest);
        lemma_to_map_len(arrivals);
        assert(signers.contains(arrivals[arrivals.len() - 1].0));
        assert(to_map(arrivals).dom() =~= to_map(rest).dom().insert(last.0));
    }
}

/// The first round does not depend on the order of arrival: the same
/// commitments, arriving in whatever order, leave the coordinator in the
/// same state, and so with the same signing package.
pub proof fn lemma_round1_order_independent(
    c: CoordinatorView,
    a: Seq<(Seq<u8>, SigningCommitmentsView)>,
    b: Seq<(Seq<u8>, SigningCommitmentsView)>,
)
    requires
        c.wf(),
        c.phase is AwaitParticipants,
        c.commitments == Map::<Seq<u8>, SigningCommitmentsView>::empty(),
        distinct_keys(a),
        distinct_keys(b),
        a.to_multiset() == b.to_multiset(),
        a.len() <= c.num_signers,
        forall|i: int|
            0 <= i < a.len() ==> c.public_key_package.verifying_shares.dom().contains(
                (#[trigger] a[i]).0,
            ) && entry_fits(c.suite, a[i]),
    ensures
        c.after_commitments(a) == c.after_commitments(b),
        c.after_commitments(a).signing_package() == c.after_commitments(b).signing_package(),
{
    lemma_to_map_permutation(a, b);
    let signers = c.public_key_package.verifying_shares.dom();
    assert forall|i: int| 0 <= i < b.len() implies signers.contains((#[trigger] b[i]).0)
        && entry_fits(c.suite, b[i]) by {
        vstd::seq_lib::to_multiset_contains(a, b[i]);
        vstd::seq_lib::to_multiset_contains(b, b[i]);
        assert(b.contains(b[i]));
        let j = choose|j: int| 0 <= j < a.len() && a[j] == b[i];
        assert(a[j] == b[i]);
    }
    lemma_commitments_collected(c, a);
    lemma_commitments_collected(c, b);
}

/// Shares from signers that committed, no two from the same signer and no
/// more than the ceremony takes, are all collected, and the last round is
/// complete exactly when there are as many as the ceremony takes.
pub proof fn lemma_shares_collected(c: CoordinatorView, arrivals: Seq<(Seq<u8>, Seq<u8>)>)
    requires
        c.wf(),
        c.phase is AwaitShares,
        c.shares == Map::<Seq<u8>, Seq<u8>>::empty(),
        distinct_keys(arrivals),
        arrivals.len() <= c.num_signers,
        forall|i: int|
            0 <= i < arrivals.len() ==> c.commitments.dom().contains((#[trigger] arrivals[i]).0),
    ensures
        c.after_shares(arrivals).wf(),
        c.after_shares(arrivals) == (CoordinatorView {
            shares: to_map(arrivals),
            phase: if arrivals.len() == c.num_signers {
                Phase::Aggregate
            } else {
                Phase::AwaitShares
            },
            ..c
        }),
    decreases arrivals.len(),
{
    if arrivals.len() == 0 {
        assert(to_map(arrivals) =~= Map::<Seq<u8>, Seq<u8>>::empty());
    } else {
        let rest = arrivals.drop_last();
        let last = arrivals.last();
        assert(arrivals =~= rest.push((last.0, last.1)));
        lemma_to_map_push(rest, last.0, last.1);
        assert forall|i: int| 0 <= i < rest.len() implies c.commitments.dom().contains(
            (#[trigger] rest[i]).0,
        ) by {
            assert(rest[i] == arrivals[i]);
        }
        lemma_shares_collected(c, rest);
        lemma_to_map_len(rest);
        lemma_to_map_len(arrivals);
        assert(c.commitments.dom().contains(arrivals[arrivals.len() - 1].0));
        assert(to_map(arrivals).dom() =~= to_map(rest).dom().insert(last.0));
    }
}

/// The last round does not depend on the order of arrival: the same
/// shares, arriving in whatever order, leave the coordinator in the same
/// state, and aggregation then yields the same signature, byte for byte.
pub proof fn lemma_round3_order_independent(
    c: CoordinatorView,
    a: Seq<(Seq<u8>, Seq<u8>)>,
    b: Seq<(Seq<u8>, Seq<u8>)>,
)
    requires
        c.wf(),
        c.phase is AwaitShares,
        c.shares == Map::<Seq<u8>, Seq<u8>>::empty(),
        distinct_keys(a),
        distinct_keys(b),
        a.to_multiset() == b.to_multiset(),
        a.len() <= c.num_signers,
        forall|i: int| 0 <= i < a.len() ==> c.commitments.dom().contains((#[trigger] a[i]).0),
    ensures
        c.after_shares(a) == c.after_shares(b),
        c.after_shares(a).aggregate_result() == c.after_shares(b).aggregate_result(),
{
    lemma_to_map_permutation(a, b);
    assert forall|i: int| 0 <= i < b.len() implies c.commitments.dom().contains(
        (#[trigger] b[i]).0,
    ) by {
        vstd::seq_lib::to_multiset_contains(a, b[i]);
        vstd::seq_lib::to_multiset_contains(b, b[i]);
        assert(b.contains(b[i]));
        let j = choose|j: int| 0 <= j < a.len() && a[j] == b[i];
        assert(a[j].0 == b[i].0);
    }
    lemma_shares_collected(c, a);
    lemma_shares_collected(c, b);
}

/// Commitments from a signer that has committed are refused as a
/// duplicate, and the coordinator stays as it was.
pub proof fn lemma_duplicate_rejected(
    c: CoordinatorView,
    identifier: Seq<u8>,
    commitments: SigningCommitmentsView,
)
    requires
        c.wf(),
        c.phase is AwaitParticipants,
        c.commitments.dom().contains(identifier),
    ensures
        c.round1_verdict(MessageView::IdentifiedCommitments { identifier, commitments }) == Err::<
            (),
            ErrorView,
        >(ErrorView::DuplicateSigner(identifier)),
        c.after_round1(MessageView::IdentifiedCommitments { identifier, commitments }) == c,
{
}

/// Commitments from an identifier that the public key package does not
/// list are refused as those of an unknown signer, and the coordinator
/// stays as it was.
pub proof fn lemma_unknown_rejected(
    c: CoordinatorView,
    identifier: Seq<u8>,
    commitments: SigningCommitmentsView,
)
    requires
        c.phase is AwaitParticipants,
        !c.public_key_package.verifying_shares.dom().contains(identifier),
    ensures
        c.round1_verdict(MessageView::IdentifiedCommitments { identifier, commitments }) == Err::<
            (),
            ErrorView,
        >(ErrorView::UnknownSigner(identifier)),
        c.after_round1(MessageView::IdentifiedCommitments { identifier, commitments }) == c,
{
}

/// A signature takes every signer: the scheme is asked for one only when
/// as many signers as the ceremony takes have committed and each of them
/// has sent its share, and a ceremony is done only then. With fewer, the
/// coordinator waits or has given up.
pub proof fn lemma_threshold(c: CoordinatorView)
    requires
        c.wf(),
    ensures
        (c.phase is Done || c.aggregate_result() is Ok) ==> {
            &&& c.commitments.dom().len() == c.num_signers
            &&& c.shares.dom() == c.commitments.dom()
        },
        c.commitments.dom().len() < c.num_signers ==> c.phase is AwaitParticipants || c.phase
            is Abort,
        c.shares.dom().len() < c.num_signers ==> !(c.phase is Done) && !(c.aggregate_result()
            is Ok),
{
    if c.phase is Done || c.phase is Aggregate {
        vstd::set_lib::lemma_subset_equality(c.shares.dom(), c.commitments.dom());
    }
}

} // verus!
