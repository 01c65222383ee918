//! The envelope: the one type of message that travels between the parties.

use crate::ciphersuite::Ciphersuite;
use crate::error::{Error, ErrorView};
use crate::hexcodec::lemma_hex_digits;
use crate::identifier::Identifier;
use crate::identifier_map::{entries_of, lemma_entries_of, listable, sorted, to_map, IdentifierMap};
use crate::reading::{
    binding_offset, commitments_at, commitments_fit, commitments_readable, entry_fits, has_at,
    hex_at, hex_readable, hiding_offset, lemma_ascii_width, lemma_commitments_at,
    lemma_entries_at_fit, lemma_has_at_split, lemma_hex_at, lemma_hex_at_len, lemma_package_at,
    lemma_share_at, map_offset, package_entries_at, package_message_at, package_readable,
    read_commitments, read_hex, read_package, read_share, share_at, share_offset, share_readable,
};
use crate::round1::{SigningCommitments, SigningCommitmentsView};
use crate::round2::SignatureShare;
use crate::signing_package::{SigningPackage, SigningPackageView};
use crate::wire::{
    commitments_text, encode_signing_package, entries_text, entry_text, header_text, map_text,
    push_quoted_hex, push_text, quoted_hex, share_text, signing_package_text, write_commitments,
    write_share, write_signing_package, CLOSE,
};
use vstd::prelude::*;
use vstd::string::StringSliceAdditionalSpecFns;

verus! {

/// A message of the signing protocol.
#[derive(Debug, PartialEq, Eq)]
pub enum Message {
    /// A participant's commitments for this ceremony, sent to the
    /// coordinator in the first round.
    IdentifiedCommitments { identifier: Identifier, commitments: SigningCommitments },
    /// The coordinator's signing package, sent to every participant in the
    /// second round.
    SigningPackage { signing_package: SigningPackage },
    /// A participant's signature share, sent to the coordinator in the
    /// second round.
    SignatureShare(SignatureShare),
}

/// A message as byte sequences.
pub enum MessageView {
    IdentifiedCommitments { identifier: Seq<u8>, commitments: SigningCommitmentsView },
    SigningPackage { signing_package: SigningPackageView },
    SignatureShare(Seq<u8>),
}

impl View for Message {
    type V = MessageView;

    open spec fn view(&self) -> MessageView {
        match self {
            Message::IdentifiedCommitments { identifier, commitments } => {
                MessageView::IdentifiedCommitments {
                    identifier: identifier@,
                    commitments: commitments@,
                }
            },
            Message::SigningPackage { signing_package } => MessageView::SigningPackage {
                signing_package: signing_package@,
            },
            Message::SignatureShare(share) => MessageView::SignatureShare(share@),
        }
    }
}

/// The text of a signing package, its commitments in identifier order.
pub open spec fn package_text(suite: Ciphersuite, package: SigningPackageView) -> Seq<u8> {
    signing_package_text(suite, entries_of(package.signing_commitments), package.message)
}

/// The text of a message: a JSON object with one field, named after the
/// kind of the message, that holds its content.
pub open spec fn message_text(suite: Ciphersuite, message: MessageView) -> Seq<u8> {
    match message {
        MessageView::IdentifiedCommitments { identifier, commitments } => {
            "{\"IdentifiedCommitments\":{\"identifier\":".spec_bytes() + quoted_hex(identifier)
                + ",\"commitments\":".spec_bytes() + commitments_text(suite, commitments)
                + seq![CLOSE, CLOSE]
        },
        MessageView::SigningPackage { signing_package } => {
            "{\"SigningPackage\":{\"signing_package\":".spec_bytes() + package_text(
                suite,
                signing_package,
            ) + seq![CLOSE, CLOSE]
        },
        MessageView::SignatureShare(share) => {
            "{\"SignatureShare\":".spec_bytes() + share_text(suite, share) + seq![CLOSE]
        },
    }
}

/// The text of `message`, as it goes on the wire without the newline that
/// ends its record.
pub fn encode(suite: Ciphersuite, message: &Message) -> (text: Vec<u8>)
    ensures
        text@ == message_text(suite, message@),
{
    let mut out: Vec<u8> = Vec::new();
    match message {
        Message::IdentifiedCommitments { identifier, commitments } => {
            push_text(&mut out, "{\"IdentifiedCommitments\":{\"identifier\":");
            push_quoted_hex(&mut out, identifier.bytes.as_slice());
            push_text(&mut out, ",\"commitments\":");
            write_commitments(&mut out, suite, commitments);
            out.push(CLOSE);
            out.push(CLOSE);
            assert(out@ =~= message_text(suite, message@));
        },
        Message::SigningPackage { signing_package } => {
            push_text(&mut out, "{\"SigningPackage\":{\"signing_package\":");
            write_signing_package(&mut out, suite, signing_package);
            out.push(CLOSE);
            out.push(CLOSE);
            proof {
                use_type_invariant(&signing_package.signing_commitments);
                lemma_entries_of(signing_package.signing_commitments.spec_entries());
                assert(out@ =~= message_text(suite, message@));
            }
        },
        Message::SignatureShare(share) => {
            push_text(&mut out, "{\"SignatureShare\":");
            write_share(&mut out, suite, share);
            out.push(CLOSE);
            assert(out@ =~= message_text(suite, message@));
        },
    }
    out
}

/// A message or an error, by its view.
pub open spec fn reply_view(reply: Result<Message, Error>) -> Result<MessageView, ErrorView> {
    match reply {
        Ok(m) => Ok(m@),
        Err(e) => Err(e@),
    }
}

/// A signing package or an error, by its view.
pub open spec fn package_view(outcome: Result<SigningPackage, Error>) -> Result<
    SigningPackageView,
    ErrorView,
> {
    match outcome {
        Ok(p) => Ok(p@),
        Err(e) => Err(e@),
    }
}

/// A signing package whose identifiers and elements have the width of the
/// suite.
pub open spec fn package_fits(suite: Ciphersuite, package: SigningPackageView) -> bool {
    &&& listable(package.signing_commitments)
    &&& forall|i: int|
        0 <= i < entries_of(package.signing_commitments).len() ==> entry_fits(
            suite,
            #[trigger] entries_of(package.signing_commitments)[i],
        )
}

impl MessageView {
    /// A message whose scalars and elements have the width of the suite.
    pub open spec fn fits(self, suite: Ciphersuite) -> bool {
        match self {
            MessageView::IdentifiedCommitments { identifier, commitments } => {
                identifier.len() == suite.scalar_len() && commitments_fit(suite, commitments)
            },
            MessageView::SigningPackage { signing_package } => package_fits(suite, signing_package),
            MessageView::SignatureShare(share) => share.len() == suite.scalar_len(),
        }
    }
}

/// The signing package that a text stands for: the one that is read from
/// it, where writing that one gives the text again.
pub open spec fn decoded_package(suite: Ciphersuite, s: Seq<u8>) -> Result<
    SigningPackageView,
    ErrorView,
> {
    let entries = package_entries_at(suite, s, 0);
    let message = package_message_at(suite, s, 0, s.len() as int);
    if package_readable(suite, s, 0, s.len() as int) && sorted(entries) && signing_package_text(
        suite,
        entries,
        message,
    ) == s {
        Ok(SigningPackageView { signing_commitments: to_map(entries), message })
    } else {
        Err(ErrorView::Decode)
    }
}

/// The text before the identifier of a message with commitments.
pub open spec fn commitments_tag() -> Seq<u8> {
    "{\"IdentifiedCommitments\":{\"identifier\":".spec_bytes()
}

/// The text before the content of a message with a signing package.
pub open spec fn package_tag() -> Seq<u8> {
    "{\"SigningPackage\":{\"signing_package\":".spec_bytes()
}

/// The text before the content of a message with a signature share.
pub open spec fn share_tag() -> Seq<u8> {
    "{\"SignatureShare\":".spec_bytes()
}

/// The place of the commitments in the text of a message with commitments.
pub open spec fn commitments_place(suite: Ciphersuite) -> int {
    (commitments_tag().len() + 2 * suite.scalar_len() + 2
        + ",\"commitments\":".spec_bytes().len()) as int
}

/// The message with commitments that is read from a text.
pub open spec fn commitments_message_at(suite: Ciphersuite, s: Seq<u8>) -> MessageView {
    MessageView::IdentifiedCommitments {
        identifier: hex_at(s, commitments_tag().len() as int, suite.scalar_len()),
        commitments: commitments_at(suite, s, commitments_place(suite)),
    }
}

/// The message with a signing package that is read from a text.
pub open spec fn package_message_from(suite: Ciphersuite, s: Seq<u8>) -> MessageView {
    MessageView::SigningPackage {
        signing_package: SigningPackageView {
            signing_commitments: to_map(package_entries_at(suite, s, package_tag().len() as int)),
            message: package_message_at(suite, s, package_tag().len() as int, s.len() - 2),
        },
    }
}

/// The message that a text stands for: the one that is read from it, where
/// writing that one gives the text again. A text that names no kind of
/// message, or another one than it holds, stands for none.
pub open spec fn decoded(suite: Ciphersuite, s: Seq<u8>) -> Result<MessageView, ErrorView> {
    if has_at(s, 0, commitments_tag()) {
        let m = commitments_message_at(suite, s);
        if hex_readable(s, commitments_tag().len() as int, suite.scalar_len())
            && commitments_readable(suite, s, commitments_place(suite)) && message_text(suite, m)
            == s {
            Ok(m)
        } else {
            Err(ErrorView::Decode)
        }
    } else if has_at(s, 0, package_tag()) {
        let m = package_message_from(suite, s);
        if package_readable(suite, s, package_tag().len() as int, s.len() - 2) && sorted(
            package_entries_at(suite, s, package_tag().len() as int),
        ) && message_text(suite, m) == s {
            Ok(m)
        } else {
            Err(ErrorView::Decode)
        }
    } else if has_at(s, 0, share_tag()) {
        let m = MessageView::SignatureShare(share_at(suite, s, share_tag().len() as int));
        if share_readable(suite, s, share_tag().len() as int) && message_text(suite, m) == s {
            Ok(m)
        } else {
            Err(ErrorView::Decode)
        }
    } else {
        Err(ErrorView::Decode)
    }
}

/// A text stands for no message but one that is written as that text.
pub proof fn lemma_decoded_sound(suite: Ciphersuite, s: Seq<u8>)
    ensures
        decoded(suite, s) matches Ok(m) ==> message_text(suite, m) == s,
        decoded(suite, s) matches Err(e) ==> e == ErrorView::Decode,
        decoded_package(suite, s) matches Ok(p) ==> package_text(suite, p) == s,
        decoded_package(suite, s) matches Err(e) ==> e == ErrorView::Decode,
{
    if decoded_package(suite, s) is Ok {
        lemma_entries_of(package_entries_at(suite, s, 0));
    }
}

/// A text stands for no message but one whose scalars and elements have
/// the width of the suite.
pub proof fn lemma_decoded_fits(suite: Ciphersuite, s: Seq<u8>)
    ensures
        decoded(suite, s) matches Ok(m) ==> m.fits(suite),
{
    if decoded(suite, s) is Ok {
        if has_at(s, 0, commitments_tag()) {
            let place = commitments_place(suite);
            lemma_hex_at_len(s, commitments_tag().len() as int, suite.scalar_len());
            lemma_hex_at_len(s, place + hiding_offset(suite), suite.element_len());
            lemma_hex_at_len(s, place + binding_offset(suite), suite.element_len());
        } else if has_at(s, 0, package_tag()) {
            let at = package_tag().len() as int;
            let entries = package_entries_at(suite, s, at);
            if s[at + map_offset(suite) + 1] != CLOSE {
                lemma_entries_at_fit(suite, s, at + map_offset(suite) + 1);
            }
            lemma_entries_of(entries);
        } else {
            lemma_hex_at_len(
                s,
                (share_tag().len() + share_offset(suite)) as int,
                suite.scalar_len(),
            );
        }
    }
}

/// The three kinds of message start differently.
pub proof fn lemma_tags_differ()
    ensures
        commitments_tag().len() == 39,
        package_tag().len() == 37,
        share_tag().len() == 18,
        ",\"commitments\":".spec_bytes().len() == 15,
        commitments_tag()[2] != package_tag()[2],
        commitments_tag()[2] != share_tag()[2],
        package_tag()[6] != share_tag()[6],
{
    reveal_strlit("{\"IdentifiedCommitments\":{\"identifier\":");
    reveal_strlit("{\"SigningPackage\":{\"signing_package\":");
    reveal_strlit("{\"SignatureShare\":");
    reveal_strlit(",\"commitments\":");
    lemma_ascii_width(",\"commitments\":");
    lemma_ascii_width("{\"IdentifiedCommitments\":{\"identifier\":");
    lemma_ascii_width("{\"SigningPackage\":{\"signing_package\":");
    lemma_ascii_width("{\"SignatureShare\":");
}

/// A text that starts with one part does not start with a part that
/// differs from it at some place.
pub proof fn lemma_starts_differ(s: Seq<u8>, a: Seq<u8>, b: Seq<u8>, i: int)
    requires
        has_at(s, 0, a + b),
        0 <= i < a.len(),
    ensures
        forall|other: Seq<u8>| i < other.len() && other[i] != a[i] ==> !has_at(s, 0, other),
{
    lemma_has_at_split(s, 0, a, b);
    assert(s.subrange(0, a.len() as int)[i] == a[i]);
    assert forall|other: Seq<u8>| i < other.len() && other[i] != a[i] implies !has_at(
        s,
        0,
        other,
    ) by {
        if has_at(s, 0, other) {
            assert(s.subrange(0, other.len() as int)[i] == other[i]);
        }
    }
}

/// Writing a signing package and reading the text gives the package again.
pub proof fn lemma_package_round_trip(suite: Ciphersuite, package: SigningPackageView)
    requires
        package_fits(suite, package),
    ensures
        decoded_package(suite, package_text(suite, package)) == Ok::<
            SigningPackageView,
            ErrorView,
        >(package),
{
    let s = package_text(suite, package);
    let es = entries_of(package.signing_commitments);
    assert(s.subrange(0, s.len() as int) =~= s);
    lemma_package_at(suite, s, 0, es, package.message);
}

/// A message with commitments reads back.
proof fn lemma_round_trip_commitments(
    suite: Ciphersuite,
    identifier: Seq<u8>,
    commitments: SigningCommitmentsView,
)
    requires
        identifier.len() == suite.scalar_len(),
        commitments_fit(suite, commitments),
    ensures
        decoded(
            suite,
            message_text(suite, MessageView::IdentifiedCommitments { identifier, commitments }),
        ) == Ok::<MessageView, ErrorView>(
            MessageView::IdentifiedCommitments { identifier, commitments },
        ),
{
    let message = MessageView::IdentifiedCommitments { identifier, commitments };
    let s = message_text(suite, message);
    let a = commitments_tag();
    let k = quoted_hex(identifier);
    let b = ",\"commitments\":".spec_bytes();
    let c = commitments_text(suite, commitments);
    let z = seq![CLOSE, CLOSE];
    assert(s.subrange(0, s.len() as int) =~= s);
    assert(s =~= a + (k + (b + (c + z))));
    lemma_has_at_split(s, 0, a, k + (b + (c + z)));
    lemma_has_at_split(s, a.len() as int, k, b + (c + z));
    lemma_hex_at(s, a.len() as int, identifier);
    lemma_has_at_split(s, (a.len() + k.len()) as int, b, c + z);
    lemma_has_at_split(s, (a.len() + k.len() + b.len()) as int, c, z);
    lemma_commitments_at(suite, s, (a.len() + k.len() + b.len()) as int, commitments);
    assert(commitments_place(suite) == a.len() + k.len() + b.len());
    assert(commitments_message_at(suite, s) == message);
}

/// A message with a signing package reads back.
proof fn lemma_round_trip_package(suite: Ciphersuite, signing_package: SigningPackageView)
    requires
        package_fits(suite, signing_package),
    ensures
        decoded(suite, message_text(suite, MessageView::SigningPackage { signing_package }))
            == Ok::<MessageView, ErrorView>(MessageView::SigningPackage { signing_package }),
{
    let message = MessageView::SigningPackage { signing_package };
    let s = message_text(suite, message);
    let a = package_tag();
    let p = package_text(suite, signing_package);
    let z = seq![CLOSE, CLOSE];
    let es = entries_of(signing_package.signing_commitments);
    lemma_tags_differ();
    assert(s.subrange(0, s.len() as int) =~= s);
    assert(s =~= a + (p + z));
    lemma_starts_differ(s, a, p + z, 2);
    assert(!has_at(s, 0, commitments_tag()));
    lemma_has_at_split(s, 0, a, p + z);
    lemma_has_at_split(s, a.len() as int, p, z);
    lemma_package_at(suite, s, a.len() as int, es, signing_package.message);
    assert(s.len() - 2 == a.len() + p.len());
    assert(package_message_from(suite, s) == message);
}

/// A message with a signature share reads back.
proof fn lemma_round_trip_share(suite: Ciphersuite, share: Seq<u8>)
    requires
        share.len() == suite.scalar_len(),
    ensures
        decoded(suite, message_text(suite, MessageView::SignatureShare(share))) == Ok::<
            MessageView,
            ErrorView,
        >(MessageView::SignatureShare(share)),
{
    let message = MessageView::SignatureShare(share);
    let s = message_text(suite, message);
    let a = share_tag();
    let t = share_text(suite, share);
    let z = seq![CLOSE];
    lemma_tags_differ();
    assert(s.subrange(0, s.len() as int) =~= s);
    assert(s =~= a + (t + z));
    lemma_starts_differ(s, a, t + z, 2);
    lemma_starts_differ(s, a, t + z, 6);
    assert(!has_at(s, 0, commitments_tag()));
    assert(!has_at(s, 0, package_tag()));
    lemma_has_at_split(s, 0, a, t + z);
    lemma_has_at_split(s, a.len() as int, t, z);
    lemma_share_at(suite, s, a.len() as int, share);
}

/// Writing a message and reading the text gives the message again.
pub proof fn lemma_round_trip(suite: Ciphersuite, message: MessageView)
    requires
        message.fits(suite),
    ensures
        decoded(suite, message_text(suite, message)) == Ok::<MessageView, ErrorView>(message),
{
    match message {
        MessageView::IdentifiedCommitments { identifier, commitments } => {
            lemma_round_trip_commitments(suite, identifier, commitments);
        },
        MessageView::SigningPackage { signing_package } => {
            lemma_round_trip_package(suite, signing_package);
        },
        MessageView::SignatureShare(share) => {
            lemma_round_trip_share(suite, share);
        },
    }
}

/// Whether `input` starts with `text`.
pub fn starts_with(input: &[u8], text: &str) -> (r: bool)
    ensures
        r == has_at(input@, 0, text.spec_bytes()),
{
    let t = text.as_bytes();
    if input.len() < t.len() {
        return false;
    }
    let mut i: usize = 0;
    while i < t.len()
        invariant
            t@ == text.spec_bytes(),
            t@.len() <= input@.len(),
            i <= t@.len(),
            forall|j: int| 0 <= j < i ==> input@[j] == t@[j],
        decreases t@.len() - i,
    {
        if input[i] != t[i] {
            assert(input@.subrange(0, t@.len() as int)[i as int] != t@[i as int]);
            return false;
        }
        i = i + 1;
    }
    assert(input@.subrange(0, t@.len() as int) =~= t@);
    true
}

/// Whether two byte strings are the same.
pub fn same_bytes(a: &[u8], b: &[u8]) -> (r: bool)
    ensures
        r == (a@ == b@),
{
    if a.len() != b.len() {
        return false;
    }
    let mut i: usize = 0;
    while i < a.len()
        invariant
            a@.len() == b@.len(),
            i <= a@.len(),
            forall|j: int| 0 <= j < i ==> a@[j] == b@[j],
        decreases a@.len() - i,
    {
        if a[i] != b[i] {
            return false;
        }
        i = i + 1;
    }
    assert(a@ =~= b@);
    true
}

/// Reads a signing package from its text. The text is taken only where it
/// is exactly what writing the package gives.
pub fn decode_signing_package(suite: Ciphersuite, input: &[u8]) -> (outcome: Result<
    SigningPackage,
    Error,
>)
    ensures
        package_view(outcome) == decoded_package(suite, input@),
{
    let (entries, message) = match read_package(suite, input, 0, input.len()) {
        Some(read) => read,
        None => {
            return Err(Error::Decode);
        },
    };
    let signing_commitments = match IdentifierMap::from_sorted(entries) {
        Some(map) => map,
        None => {
            return Err(Error::Decode);
        },
    };
    let package = SigningPackage { signing_commitments, message };
    let written = encode_signing_package(suite, &package);
    if same_bytes(written.as_slice(), input) {
        Ok(package)
    } else {
        Err(Error::Decode)
    }
}

/// Reads a message from one record of the wire, without the newline that
/// ends the record. The text is taken only where it is exactly what
/// writing the message gives: a record that names no kind of message, or
/// is longer, shorter or otherwise different, is refused.
pub fn decode(suite: Ciphersuite, input: &[u8]) -> (reply: Result<Message, Error>)
    ensures
        reply_view(reply) == decoded(suite, input@),
{
    proof {
        lemma_tags_differ();
    }
    let candidate = if starts_with(input, "{\"IdentifiedCommitments\":{\"identifier\":") {
        let at = "{\"IdentifiedCommitments\":{\"identifier\":".len();
        let n = suite.scalar_width();
        let identifier = match read_hex(input, at, n) {
            Some(bytes) => Identifier { bytes },
            None => {
                return Err(Error::Decode);
            },
        };
        let commitments = match read_commitments(
            suite,
            input,
            at + 2 * n + 2 + ",\"commitments\":".len(),
        ) {
            Some(c) => c,
            None => {
                return Err(Error::Decode);
            },
        };
        Message::IdentifiedCommitments { identifier, commitments }
    } else if starts_with(input, "{\"SigningPackage\":{\"signing_package\":") {
        let at = "{\"SigningPackage\":{\"signing_package\":".len();
        if input.len() < at + 2 {
            return Err(Error::Decode);
        }
        let (entries, message) = match read_package(suite, input, at, input.len() - 2) {
            Some(read) => read,
            None => {
                return Err(Error::Decode);
            },
        };
        let signing_commitments = match IdentifierMap::from_sorted(entries) {
            Some(map) => map,
            None => {
                return Err(Error::Decode);
            },
        };
        Message::SigningPackage { signing_package: SigningPackage { signing_commitments, message } }
    } else if starts_with(input, "{\"SignatureShare\":") {
        match read_share(suite, input, "{\"SignatureShare\":".len()) {
            Some(share) => Message::SignatureShare(share),
            None => {
                return Err(Error::Decode);
            },
        }
    } else {
        return Err(Error::Decode);
    };
    let written = encode(suite, &candidate);
    if same_bytes(written.as_slice(), input) {
        Ok(candidate)
    } else {
        Err(Error::Decode)
    }
}

/// The byte that ends a record.
pub const NEWLINE: u8 = 10;

/// A text without a newline.
pub open spec fn one_line(s: Seq<u8>) -> bool {
    forall|i: int| 0 <= i < s.len() ==> s[i] != NEWLINE
}

/// The record that carries a message on the wire: the text of the message
/// and a newline.
pub open spec fn record_text(suite: Ciphersuite, message: MessageView) -> Seq<u8> {
    message_text(suite, message).push(NEWLINE)
}

/// The record that carries `message` on the wire.
pub fn encode_record(suite: Ciphersuite, message: &Message) -> (record: Vec<u8>)
    ensures
        record@ == record_text(suite, message@),
{
    let mut record = encode(suite, message);
    record.push(NEWLINE);
    record
}

/// A string of hexadecimal digits holds no newline.
proof fn lemma_one_line_hex(bytes: Seq<u8>)
    ensures
        one_line(quoted_hex(bytes)),
{
    lemma_hex_digits(bytes);
}

/// The fixed pieces of the text hold no newline.
proof fn lemma_one_line_pieces()
    ensures
        one_line("{\"version\":0,\"ciphersuite\":\"".spec_bytes()),
        one_line("FROST-ED25519-SHA512-v1".spec_bytes()),
        one_line("FROST-ED448-SHAKE256-v1".spec_bytes()),
        one_line("\"}".spec_bytes()),
        one_line("{\"header\":".spec_bytes()),
        one_line(",\"hiding\":".spec_bytes()),
        one_line(",\"binding\":".spec_bytes()),
        one_line(",\"share\":".spec_bytes()),
        one_line(",\"signing_commitments\":".spec_bytes()),
        one_line(",\"message\":".spec_bytes()),
        one_line(",\"commitments\":".spec_bytes()),
        one_line(commitments_tag()),
        one_line(package_tag()),
        one_line(share_tag()),
{
    reveal_strlit("{\"version\":0,\"ciphersuite\":\"");
    reveal_strlit("FROST-ED25519-SHA512-v1");
    reveal_strlit("FROST-ED448-SHAKE256-v1");
    reveal_strlit("\"}");
    reveal_strlit("{\"header\":");
    reveal_strlit(",\"hiding\":");
    reveal_strlit(",\"binding\":");
    reveal_strlit(",\"share\":");
    reveal_strlit(",\"signing_commitments\":");
    reveal_strlit(",\"message\":");
    reveal_strlit(",\"commitments\":");
    reveal_strlit("{\"IdentifiedCommitments\":{\"identifier\":");
    reveal_strlit("{\"SigningPackage\":{\"signing_package\":");
    reveal_strlit("{\"SignatureShare\":");
    lemma_ascii_width("{\"version\":0,\"ciphersuite\":\"");
    lemma_ascii_width("FROST-ED25519-SHA512-v1");
    lemma_ascii_width("FROST-ED448-SHAKE256-v1");
    lemma_ascii_width("\"}");
    lemma_ascii_width("{\"header\":");
    lemma_ascii_width(",\"hiding\":");
    lemma_ascii_width(",\"binding\":");
    lemma_ascii_width(",\"share\":");
    lemma_ascii_width(",\"signing_commitments\":");
    lemma_ascii_width(",\"message\":");
    lemma_ascii_width(",\"commitments\":");
    lemma_ascii_width("{\"IdentifiedCommitments\":{\"identifier\":");
    lemma_ascii_width("{\"SigningPackage\":{\"signing_package\":");
    lemma_ascii_width("{\"SignatureShare\":");
}

/// The header holds no newline.
proof fn lemma_one_line_header(suite: Ciphersuite)
    ensures
        one_line(header_text(suite)),
{
    lemma_one_line_pieces();
}

/// The text of commitments holds no newline.
proof fn lemma_one_line_commitments(suite: Ciphersuite, c: SigningCommitmentsView)
    ensures
        one_line(commitments_text(suite, c)),
{
    lemma_one_line_pieces();
    lemma_one_line_header(suite);
    lemma_one_line_hex(c.hiding);
    lemma_one_line_hex(c.binding);
}

/// The text of the entries of a map of commitments holds no newline.
proof fn lemma_one_line_entries(suite: Ciphersuite, es: Seq<(Seq<u8>, SigningCommitmentsView)>)
    ensures
        one_line(entries_text::<SigningCommitments>(suite, es)),
    decreases es.len(),
{
    if es.len() > 0 {
        lemma_one_line_hex(es.last().0);
        lemma_one_line_commitments(suite, es.last().1);
        assert(one_line(entry_text::<SigningCommitments>(suite, es.last())));
        if es.len() > 1 {
            lemma_one_line_entries(suite, es.drop_last());
        } else {
            assert(es[0] == es.last());
        }
    }
}

/// The text of a message holds no newline, so that the newline after it
/// ends the record and nothing else does: one record, one line.
pub proof fn lemma_text_is_one_line(suite: Ciphersuite, message: MessageView)
    ensures
        one_line(message_text(suite, message)),
{
    lemma_one_line_pieces();
    match message {
        MessageView::IdentifiedCommitments { identifier, commitments } => {
            lemma_one_line_hex(identifier);
            lemma_one_line_commitments(suite, commitments);
        },
        MessageView::SigningPackage { signing_package } => {
            let es = entries_of(signing_package.signing_commitments);
            lemma_one_line_entries(suite, es);
            lemma_one_line_hex(signing_package.message);
            lemma_one_line_header(suite);
            assert(one_line(map_text::<SigningCommitments>(suite, es)));
            assert(one_line(package_text(suite, signing_package)));
        },
        MessageView::SignatureShare(share) => {
            lemma_one_line_hex(share);
            lemma_one_line_header(suite);
            assert(one_line(share_text(suite, share)));
        },
    }
}

} // verus!
