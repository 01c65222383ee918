//! Sockets as the coordinator's transport: which connection speaks for
//! which signer.

use crate::coordinator::comms::{takes_commitments, takes_share, Comms};
use crate::coordinator::{verdict_view, Coordinator, CoordinatorView, Phase};
use crate::error::{Error, ErrorView};
use crate::identifier::Identifier;
use crate::message::{decode, decoded, record_text, Message, MessageView, NEWLINE};
use crate::text::{trim, trimmed};
use vstd::prelude::*;
use vstd::utf8::encode_utf8;

verus! {

/// An open connection and the signer it speaks for, once it has said so.
pub struct Slot {
    connection: u64,
    identifier: Option<Identifier>,
}

/// A slot, with the identifier by its encoding.
pub struct SlotView {
    pub connection: u64,
    pub identifier: Option<Seq<u8>>,
}

impl View for Slot {
    type V = SlotView;

    closed spec fn view(&self) -> SlotView {
        SlotView {
            connection: self.connection,
            identifier: match self.identifier {
                Some(id) => Some(id@),
                None => None,
            },
        }
    }
}

/// The open connections of one ceremony, in the order they were accepted.
pub struct Sessions {
    limit: u16,
    slots: Vec<Slot>,
}

/// The open connections of one ceremony.
pub struct SessionsView {
    pub limit: u16,
    pub slots: Seq<SlotView>,
}

impl SessionsView {
    /// Whether `connection` is open.
    pub open spec fn is_open(self, connection: u64) -> bool {
        exists|i: int|
            0 <= i < self.slots.len() && (#[trigger] self.slots[i]).connection == connection
    }

    /// Whether `connection` is open and speaks for `identifier`.
    pub open spec fn speaks_for(self, connection: u64, identifier: Seq<u8>) -> bool {
        exists|i: int|
            0 <= i < self.slots.len() && #[trigger] self.slots[i] == (SlotView {
                connection,
                identifier: Some(identifier),
            })
    }

    /// Whether `connection` is open and has not said whom it speaks for.
    pub open spec fn is_unbound(self, connection: u64) -> bool {
        exists|i: int|
            0 <= i < self.slots.len() && #[trigger] self.slots[i] == (SlotView {
                connection,
                identifier: None,
            })
    }

    /// Whether some connection speaks for `identifier`.
    pub open spec fn has_signer(self, identifier: Seq<u8>) -> bool {
        exists|i: int|
            0 <= i < self.slots.len() && (#[trigger] self.slots[i]).identifier == Some(identifier)
    }

    /// What holds of the connections at every moment: there are no more
    /// than the limit, each is listed once, and no two speak for the same
    /// signer.
    pub open spec fn wf(self) -> bool {
        &&& self.slots.len() <= self.limit
        &&& distinct_connections(self.slots)
        &&& distinct_signers(self.slots)
    }
}

/// Slots of which no two are of the same connection.
pub open spec fn distinct_connections(slots: Seq<SlotView>) -> bool {
    forall|i: int, j: int|
        0 <= i < j < slots.len() ==> (#[trigger] slots[i]).connection
            != (#[trigger] slots[j]).connection
}

/// Slots of which no two speak for the same signer.
pub open spec fn distinct_signers(slots: Seq<SlotView>) -> bool {
    forall|i: int, j: int|
        0 <= i < j < slots.len() && (#[trigger] slots[i]).identifier is Some
            ==> slots[i].identifier != (#[trigger] slots[j]).identifier
}

/// Slots stay distinct when one of them is taken out.
proof fn lemma_remove_keeps_distinct(slots: Seq<SlotView>, at: int)
    requires
        distinct_connections(slots),
        distinct_signers(slots),
        0 <= at < slots.len(),
    ensures
        distinct_connections(slots.remove(at)),
        distinct_signers(slots.remove(at)),
        forall|i: int|
            0 <= i < slots.remove(at).len() ==> (#[trigger] slots.remove(at)[i]).connection
                != slots[at].connection,
{
    let after = slots.remove(at);
    assert forall|i: int| 0 <= i < after.len() implies (#[trigger] after[i]).connection
        != slots[at].connection by {
        let a = if i < at { i } else { i + 1 };
        assert(after[i] == slots[a]);
        if a < at {
            assert(slots[a].connection != slots[at].connection);
        } else {
            assert(slots[at].connection != slots[a].connection);
        }
    }
    assert forall|i: int, j: int| 0 <= i < j < after.len() implies (#[trigger] after[i]).connection
        != (#[trigger] after[j]).connection by {
        let a = if i < at { i } else { i + 1 };
        let b = if j < at { j } else { j + 1 };
        assert(after[i] == slots[a] && after[j] == slots[b]);
        assert(slots[a].connection != slots[b].connection);
    }
    assert forall|i: int, j: int|
        0 <= i < j < after.len() && (#[trigger] after[i]).identifier is Some
        implies after[i].identifier != (#[trigger] after[j]).identifier by {
        let a = if i < at { i } else { i + 1 };
        let b = if j < at { j } else { j + 1 };
        assert(after[i] == slots[a] && after[j] == slots[b]);
        assert(slots[a].identifier != slots[b].identifier);
    }
}

/// Slots stay distinct when a connection that spoke for nobody comes to
/// speak for a signer that nobody spoke for.
proof fn lemma_bind_keeps_distinct(slots: Seq<SlotView>, at: int, identifier: Seq<u8>)
    requires
        distinct_connections(slots),
        distinct_signers(slots),
        0 <= at < slots.len(),
        forall|i: int|
            0 <= i < slots.len() ==> (#[trigger] slots[i]).identifier != Some(identifier),
    ensures
        distinct_connections(
            slots.update(
                at,
                SlotView { connection: slots[at].connection, identifier: Some(identifier) },
            ),
        ),
        distinct_signers(
            slots.update(
                at,
                SlotView { connection: slots[at].connection, identifier: Some(identifier) },
            ),
        ),
{
    let after = slots.update(
        at,
        SlotView { connection: slots[at].connection, identifier: Some(identifier) },
    );
    assert forall|i: int, j: int| 0 <= i < j < after.len() implies (#[trigger] after[i]).connection
        != (#[trigger] after[j]).connection by {
        assert(slots[i].connection != slots[j].connection);
    }
    assert forall|i: int, j: int|
        0 <= i < j < after.len() && (#[trigger] after[i]).identifier is Some
        implies after[i].identifier != (#[trigger] after[j]).identifier by {
        if i == at {
            assert(slots[j].identifier != Some(identifier));
        } else if j == at {
            assert(slots[i].identifier != Some(identifier));
        } else {
            assert(slots[i].identifier != slots[j].identifier);
        }
    }
}

impl View for Sessions {
    type V = SessionsView;

    closed spec fn view(&self) -> SessionsView {
        SessionsView {
            limit: self.limit,
            slots: Seq::new(self.slots@.len(), |i: int| self.slots@[i]@),
        }
    }
}

impl Sessions {
    /// No connections, and room for `limit` of them.
    pub fn new(limit: u16) -> (s: Sessions)
        ensures
            s@.wf(),
            s@ == (SessionsView { limit, slots: Seq::empty() }),
    {
        let s = Sessions { limit, slots: Vec::new() };
        assert(s@.slots =~= Seq::<SlotView>::empty());
        s
    }

    /// The number of open connections.
    pub fn len(&self) -> (n: usize)
        ensures
            n == self@.slots.len(),
    {
        self.slots.len()
    }

    /// The connection at `index` in the order of acceptance.
    pub fn connection_at(&self, index: usize) -> (connection: Option<u64>)
        ensures
            match connection {
                Some(c) => index < self@.slots.len() && c == self@.slots[index as int].connection,
                None => index >= self@.slots.len(),
            },
    {
        if index < self.slots.len() {
            Some(self.slots[index].connection)
        } else {
            None
        }
    }

    /// The place of `connection` in the list, if it is open.
    fn position(&self, connection: u64) -> (at: Option<usize>)
        ensures
            match at {
                Some(i) => i < self@.slots.len() && self@.slots[i as int].connection == connection,
                None => !self@.is_open(connection),
            },
    {
        let mut i: usize = 0;
        while i < self.slots.len()
            invariant
                i <= self.slots@.len(),
                forall|j: int| 0 <= j < i ==> (#[trigger] self@.slots[j]).connection != connection,
            decreases self.slots@.len() - i,
        {
            if self.slots[i].connection == connection {
                return Some(i);
            }
            i = i + 1;
        }
        None
    }

    /// The place of the connection that speaks for `identifier`, if one
    /// does.
    fn signer_position(&self, identifier: &Identifier) -> (at: Option<usize>)
        ensures
            match at {
                Some(i) => i < self@.slots.len() && self@.slots[i as int].identifier == Some(
                    identifier@,
                ),
                None => !self@.has_signer(identifier@),
            },
    {
        let mut i: usize = 0;
        while i < self.slots.len()
            invariant
                i <= self.slots@.len(),
                forall|j: int|
                    0 <= j < i ==> (#[trigger] self@.slots[j]).identifier != Some(identifier@),
            decreases self.slots@.len() - i,
        {
            let found = match &self.slots[i].identifier {
                Some(id) => id.same(identifier),
                None => false,
            };
            if found {
                return Some(i);
            }
            i = i + 1;
        }
        None
    }

    /// Opens `connection`, unless it is open already or the ceremony has
    /// all the connections it takes. Says whether it did; a connection
    /// that is turned away leaves everything as it was.
    pub fn accept(&mut self, connection: u64) -> (accepted: bool)
        requires
            old(self)@.wf(),
        ensures
            final(self)@.wf(),
            accepted == (!old(self)@.is_open(connection)
                && old(self)@.slots.len() < old(self)@.limit),
            accepted ==> final(self)@ == (SessionsView {
                slots: old(self)@.slots.push(SlotView { connection, identifier: None }),
                ..old(self)@
            }),
            !accepted ==> final(self)@ == old(self)@,
    {
        if self.slots.len() >= self.limit as usize {
            return false;
        }
        if self.position(connection).is_some() {
            return false;
        }
        self.slots.push(Slot { connection, identifier: None });
        assert(self@.slots =~= old(self)@.slots.push(SlotView { connection, identifier: None }));
        true
    }

    /// The signer that `connection` speaks for, if it is open and has said
    /// so.
    pub fn identifier_of(&self, connection: u64) -> (identifier: Option<Identifier>)
        requires
            self@.wf(),
        ensures
            match identifier {
                Some(id) => self@.speaks_for(connection, id@),
                None => forall|id: Seq<u8>| !self@.speaks_for(connection, id),
            },
    {
        match self.position(connection) {
            Some(i) => match &self.slots[i].identifier {
                Some(id) => {
                    let found = id.duplicate();
                    assert(self@.slots[i as int] == (SlotView {
                        connection,
                        identifier: Some(found@),
                    }));
                    Some(found)
                },
                None => {
                    assert forall|id: Seq<u8>| !self@.speaks_for(connection, id) by {
                        if self@.speaks_for(connection, id) {
                            let j = choose|j: int|
                                0 <= j < self@.slots.len() && #[trigger] self@.slots[j] == (
                                SlotView { connection, identifier: Some(id) });
                            assert(self@.slots[i as int].connection == self@.slots[j].connection);
                        }
                    }
                    None
                },
            },
            None => None,
        }
    }

    /// The connection that speaks for `identifier`, if one does.
    pub fn connection_of(&self, identifier: &Identifier) -> (connection: Option<u64>)
        ensures
            match connection {
                Some(c) => self@.speaks_for(c, identifier@),
                None => !self@.has_signer(identifier@),
            },
    {
        match self.signer_position(identifier) {
            Some(i) => {
                let c = self.slots[i].connection;
                assert(self@.slots[i as int] == (SlotView {
                    connection: c,
                    identifier: Some(identifier@),
                }));
                Some(c)
            },
            None => None,
        }
    }

    /// Notes that `connection` speaks for `identifier`. A connection says
    /// so once: one that is not open, or has said so before, is refused as
    /// out of turn. A signer has one connection: a second one that claims
    /// it is refused as a duplicate. A refusal leaves everything as it was.
    pub fn bind(&mut self, connection: u64, identifier: Identifier) -> (verdict: Result<(), Error>)
        requires
            old(self)@.wf(),
        ensures
            final(self)@.wf(),
            final(self)@.limit == old(self)@.limit,
            match verdict {
                Ok(()) => {
                    &&& old(self)@.is_unbound(connection)
                    &&& !old(self)@.has_signer(identifier@)
                    &&& exists|i: int|
                        #![trigger old(self)@.slots[i]]
                        0 <= i < old(self)@.slots.len()
                            && old(self)@.slots[i].connection == connection
                            && final(self)@.slots == old(self)@.slots.update(
                            i,
                            SlotView { connection, identifier: Some(identifier@) },
                        )
                },
                Err(e) => {
                    &&& final(self)@ == old(self)@
                    &&& if old(self)@.is_unbound(connection) {
                        e@ == ErrorView::DuplicateSigner(identifier@) && old(self)@.has_signer(
                            identifier@,
                        )
                    } else {
                        e@ == ErrorView::UnexpectedMessage
                    }
                },
            },
    {
        let at = match self.position(connection) {
            Some(i) => i,
            None => {
                return Err(Error::UnexpectedMessage);
            },
        };
        if self.slots[at].identifier.is_some() {
            proof {
                if self@.is_unbound(connection) {
                    let j = choose|j: int|
                        0 <= j < self@.slots.len() && #[trigger] self@.slots[j] == (SlotView {
                            connection,
                            identifier: None,
                        });
                    assert(self@.slots[at as int].connection == self@.slots[j].connection);
                }
            }
            return Err(Error::UnexpectedMessage);
        }
        assert(self@.slots[at as int] == (SlotView { connection, identifier: None }));
        if self.signer_position(&identifier).is_some() {
            return Err(Error::DuplicateSigner(identifier));
        }
        let ghost id = identifier@;
        let ghost before = self@.slots;
        proof {
            assert forall|i: int| 0 <= i < before.len() implies (#[trigger] before[i]).identifier
                != Some(id) by {
                if before[i].identifier == Some(id) {
                    assert(self@.has_signer(id));
                }
            }
            lemma_bind_keeps_distinct(before, at as int, id);
        }
        self.slots.set(at, Slot { connection, identifier: Some(identifier) });
        assert(self@.slots =~= before.update(
            at as int,
            SlotView { connection, identifier: Some(id) },
        ));
        Ok(())
    }

    /// Closes `connection`. What it spoke for can be claimed anew, and the
    /// ceremony has room for another connection. Says whether the
    /// connection was open.
    pub fn close(&mut self, connection: u64) -> (closed: bool)
        requires
            old(self)@.wf(),
        ensures
            final(self)@.wf(),
            final(self)@.limit == old(self)@.limit,
            closed == old(self)@.is_open(connection),
            !final(self)@.is_open(connection),
            closed ==> exists|i: int|
                0 <= i < old(self)@.slots.len() && (#[trigger] old(self)@.slots[i]).connection
                    == connection && final(self)@.slots == old(self)@.slots.remove(i),
            !closed ==> final(self)@ == old(self)@,
    {
        let at = match self.position(connection) {
            Some(i) => i,
            None => {
                return false;
            },
        };
        let ghost before = self@.slots;
        proof {
            lemma_remove_keeps_distinct(before, at as int);
        }
        self.slots.remove(at);
        assert(self@.slots =~= before.remove(at as int));
        true
    }
}

/// The message that a record stands for: the one that its text reads as,
/// between leading and trailing white space.
pub open spec fn received(coordinator: CoordinatorView, line: Seq<char>) -> Result<
    MessageView,
    ErrorView,
> {
    decoded(coordinator.suite, encode_utf8(trimmed(line)))
}

/// Whether a record from `connection` is taken, and why not. Commitments
/// are taken from a connection that has sent none, for a signer that no
/// connection speaks for and that the coordinator takes. A share is taken
/// from a connection that has sent commitments, for the signer it speaks
/// for. Nothing else is taken.
pub open spec fn record_verdict(
    coordinator: CoordinatorView,
    sessions: SessionsView,
    connection: u64,
    line: Seq<char>,
) -> Result<(), ErrorView> {
    match received(coordinator, line) {
        Ok(MessageView::IdentifiedCommitments { identifier, commitments }) => {
            if !sessions.is_unbound(connection) {
                Err(ErrorView::UnexpectedMessage)
            } else if sessions.has_signer(identifier) {
                Err(ErrorView::DuplicateSigner(identifier))
            } else {
                coordinator.round1_verdict(
                    MessageView::IdentifiedCommitments { identifier, commitments },
                )
            }
        },
        Ok(MessageView::SignatureShare(share)) => {
            if exists|sender: Seq<u8>| sessions.speaks_for(connection, sender) {
                coordinator.round3_verdict(
                    choose|sender: Seq<u8>| sessions.speaks_for(connection, sender),
                    MessageView::SignatureShare(share),
                )
            } else {
                Err(ErrorView::UnexpectedMessage)
            }
        },
        Ok(MessageView::SigningPackage { .. }) => Err(ErrorView::UnexpectedMessage),
        Err(e) => Err(e),
    }
}

/// The coordinator after a record from `connection`: as the round leaves
/// it where the record was taken, as it was where the record was refused.
pub open spec fn coordinator_after(
    coordinator: CoordinatorView,
    sessions: SessionsView,
    connection: u64,
    line: Seq<char>,
) -> CoordinatorView {
    if record_verdict(coordinator, sessions, connection, line) is Ok {
        match received(coordinator, line) {
            Ok(MessageView::IdentifiedCommitments { identifier, commitments }) => {
                coordinator.after_round1(
                    MessageView::IdentifiedCommitments { identifier, commitments },
                )
            },
            Ok(MessageView::SignatureShare(share)) => coordinator.after_round3(
                choose|sender: Seq<u8>| sessions.speaks_for(connection, sender),
                MessageView::SignatureShare(share),
            ),
            _ => coordinator,
        }
    } else {
        coordinator
    }
}

/// In well-formed sessions a connection speaks for one signer at most.
pub proof fn lemma_speaks_for_one(sessions: SessionsView, connection: u64, a: Seq<u8>, b: Seq<u8>)
    requires
        sessions.wf(),
        sessions.speaks_for(connection, a),
        sessions.speaks_for(connection, b),
    ensures
        a == b,
{
    let i = choose|i: int|
        0 <= i < sessions.slots.len() && #[trigger] sessions.slots[i] == (SlotView {
            connection,
            identifier: Some(a),
        });
    let j = choose|j: int|
        0 <= j < sessions.slots.len() && #[trigger] sessions.slots[j] == (SlotView {
            connection,
            identifier: Some(b),
        });
    if i != j {
        assert(sessions.slots[i].connection == sessions.slots[j].connection);
    }
}

/// Takes one record from `connection`. Commitments bind the connection to
/// the signer they come from; a share counts for the signer that the
/// connection is bound to. A record that is refused leaves the coordinator
/// and the connections as they were: the transport may drop the
/// connection and go on.
pub fn receive(
    coordinator: &mut Coordinator,
    sessions: &mut Sessions,
    connection: u64,
    line: &str,
) -> (verdict: Result<(), Error>)
    requires
        old(coordinator)@.wf(),
        old(sessions)@.wf(),
    ensures
        final(coordinator)@.wf(),
        final(sessions)@.wf(),
        final(sessions)@.limit == old(sessions)@.limit,
        verdict_view(verdict) == record_verdict(
            old(coordinator)@,
            old(sessions)@,
            connection,
            line@,
        ),
        final(coordinator)@ == coordinator_after(
            old(coordinator)@,
            old(sessions)@,
            connection,
            line@,
        ),
        verdict is Err ==> final(sessions)@ == old(sessions)@,
        verdict is Ok ==> match received(old(coordinator)@, line@) {
            Ok(MessageView::IdentifiedCommitments { identifier, .. }) => {
                &&& final(sessions)@.speaks_for(connection, identifier)
                &&& final(sessions)@.slots.len() == old(sessions)@.slots.len()
            },
            _ => final(sessions)@ == old(sessions)@,
        },
{
    let message = decode(coordinator.suite(), trim(line).as_bytes())?;
    match message {
        Message::IdentifiedCommitments { identifier, commitments } => {
            let at = match sessions.position(connection) {
                Some(i) => i,
                None => {
                    return Err(Error::UnexpectedMessage);
                },
            };
            if sessions.slots[at].identifier.is_some() {
                proof {
                    if sessions@.is_unbound(connection) {
                        let j = choose|j: int|
                            0 <= j < sessions@.slots.len() && #[trigger] sessions@.slots[j] == (
                            SlotView { connection, identifier: None });
                        assert(sessions@.slots[at as int].connection
                            == sessions@.slots[j].connection);
                    }
                }
                return Err(Error::UnexpectedMessage);
            }
            assert(sessions@.slots[at as int] == (SlotView { connection, identifier: None }));
            if sessions.signer_position(&identifier).is_some() {
                return Err(Error::DuplicateSigner(identifier));
            }
            let signer = identifier.duplicate();
            coordinator.collect_round1(Message::IdentifiedCommitments { identifier, commitments })?;
            let ghost id = signer@;
            match sessions.bind(connection, signer) {
                Ok(()) => {
                    proof {
                        let before = old(sessions)@.slots;
                        let i = choose|i: int|
                            0 <= i < before.len() && (#[trigger] before[i]).connection
                                == connection && sessions@.slots == before.update(
                                i,
                                SlotView { connection, identifier: Some(id) },
                            );
                        assert(sessions@.slots[i] == (SlotView {
                            connection,
                            identifier: Some(id),
                        }));
                    }
                    Ok(())
                },
                Err(e) => Err(e),
            }
        },
        Message::SignatureShare(share) => {
            let sender = match sessions.identifier_of(connection) {
                Some(id) => id,
                None => {
                    return Err(Error::UnexpectedMessage);
                },
            };
            proof {
                let chosen = choose|s: Seq<u8>| sessions@.speaks_for(connection, s);
                lemma_speaks_for_one(sessions@, connection, sender@, chosen);
            }
            coordinator.collect_round3(sender, Message::SignatureShare(share))
        },
        Message::SigningPackage { .. } => Err(Error::UnexpectedMessage),
    }
}

/// Whether the end of `connection` ends the ceremony: it does where the
/// connection spoke for a signer and the ceremony is neither done nor
/// given up, since that signer's part can no longer arrive.
pub open spec fn loss_is_fatal(
    coordinator: CoordinatorView,
    sessions: SessionsView,
    connection: u64,
) -> bool {
    &&& exists|signer: Seq<u8>| sessions.speaks_for(connection, signer)
    &&& !(coordinator.phase is Done)
    &&& !(coordinator.phase is Abort)
}

/// Takes note that `connection` has ended. Its slot is freed. Where the
/// connection spoke for a signer of a ceremony that is under way, the
/// ceremony is given up and the answer is a transport error; the end of
/// any other connection changes nothing for the coordinator.
pub fn disconnected(
    coordinator: &mut Coordinator,
    sessions: &mut Sessions,
    connection: u64,
) -> (verdict: Result<(), Error>)
    requires
        old(coordinator)@.wf(),
        old(sessions)@.wf(),
    ensures
        final(coordinator)@.wf(),
        final(sessions)@.wf(),
        final(sessions)@.limit == old(sessions)@.limit,
        !final(sessions)@.is_open(connection),
        !old(sessions)@.is_open(connection) ==> final(sessions)@ == old(sessions)@,
        if loss_is_fatal(old(coordinator)@, old(sessions)@, connection) {
            &&& verdict matches Err(e)
            &&& e@ == ErrorView::Transport
            &&& final(coordinator)@ == (CoordinatorView {
                phase: Phase::Abort,
                ..old(coordinator)@
            })
        } else {
            verdict is Ok && final(coordinator)@ == old(coordinator)@
        },
{
    let bound = sessions.identifier_of(connection).is_some();
    sessions.close(connection);
    let under_way = match coordinator.phase() {
        Phase::Done | Phase::Abort => false,
        _ => true,
    };
    if bound && under_way {
        coordinator.abort();
        Err(Error::Transport)
    } else {
        Ok(())
    }
}

impl Comms for Sessions {
    open spec fn ready(&self) -> bool {
        self@.wf()
    }

    /// Takes one record of the first round from `connection`, as `receive`
    /// does while the coordinator awaits participants.
    fn get_signing_commitments(
        &mut self,
        coordinator: &mut Coordinator,
        connection: u64,
        line: &str,
    ) -> (verdict: Result<(), Error>)
        ensures
            final(self)@.limit == old(self)@.limit,
            verdict is Err ==> final(self)@ == old(self)@,
            verdict_view(verdict) == (if old(coordinator)@.phase is AwaitParticipants {
                record_verdict(old(coordinator)@, old(self)@, connection, line@)
            } else {
                Err(ErrorView::UnexpectedMessage)
            }),
    {
        match coordinator.phase() {
            Phase::AwaitParticipants => {},
            _ => {
                return Err(Error::UnexpectedMessage);
            },
        }
        let verdict = receive(coordinator, self, connection, line);
        proof {
            if verdict is Ok {
                let message = received(old(coordinator)@, line@)->Ok_0;
                assert(old(coordinator)@.round1_verdict(message) is Ok);
                assert(takes_commitments(old(coordinator)@, coordinator@));
            }
        }
        verdict
    }

    /// Issues the signing package and returns the record that goes to
    /// every participant.
    fn send_signing_package(&mut self, coordinator: &mut Coordinator) -> (out: Result<
        Vec<u8>,
        Error,
    >)
        ensures
            final(self)@ == old(self)@,
            out matches Ok(record) ==> record@ == record_text(
                old(coordinator)@.suite,
                old(coordinator)@.package_message(),
            ),
            out matches Err(e) ==> e@ == ErrorView::UnexpectedMessage,
    {
        match coordinator.build_signing_package() {
            Ok(text) => {
                let mut record = text;
                record.push(NEWLINE);
                Ok(record)
            },
            Err(e) => Err(e),
        }
    }

    /// Takes one record of the last round from `connection`, as `receive`
    /// does while the coordinator awaits shares.
    fn get_signature_shares(
        &mut self,
        coordinator: &mut Coordinator,
        connection: u64,
        line: &str,
    ) -> (verdict: Result<(), Error>)
        ensures
            final(self)@ == old(self)@,
            verdict_view(verdict) == (if old(coordinator)@.phase is AwaitShares {
                record_verdict(old(coordinator)@, old(self)@, connection, line@)
            } else {
                Err(ErrorView::UnexpectedMessage)
            }),
    {
        match coordinator.phase() {
            Phase::AwaitShares => {},
            _ => {
                return Err(Error::UnexpectedMessage);
            },
        }
        let verdict = receive(coordinator, self, connection, line);
        proof {
            if verdict is Ok {
                let message = received(old(coordinator)@, line@)->Ok_0;
                let sender = choose|sender: Seq<u8>| old(self)@.speaks_for(connection, sender);
                assert(old(coordinator)@.round3_verdict(sender, message) is Ok);
                assert(takes_share(old(coordinator)@, coordinator@));
            }
        }
        verdict
    }
}

} // verus!
