//! The text form of the values a ceremony exchanges.
//!
//! Every value is written as compact JSON: objects with their fields in a
//! fixed order, scalars and group elements as lower-case hexadecimal
//! strings, no white space. A map from identifiers is an object whose keys
//! are the identifiers, in identifier order.

use crate::ciphersuite::Ciphersuite;
use crate::hexcodec::{hex_encode, hex_encoded};
use crate::identifier_map::IdentifierMap;
use crate::keys::{
    KeyPackage, KeyPackageView, PublicKeyPackage, SecretShare, SecretShareView,
};
use crate::round1::{SigningCommitments, SigningCommitmentsView};
use crate::round2::SignatureShare;
use crate::signing_package::SigningPackage;
use vstd::prelude::*;
use vstd::string::StringSliceAdditionalSpecFns;

verus! {

/// A double quote.
pub const QUOTE: u8 = 34;

/// A comma.
pub const COMMA: u8 = 44;

/// A colon.
pub const COLON: u8 = 58;

/// An opening brace.
pub const OPEN: u8 = 123;

/// A closing brace.
pub const CLOSE: u8 = 125;

/// A byte string as a JSON string of hexadecimal digits.
pub open spec fn quoted_hex(bytes: Seq<u8>) -> Seq<u8> {
    seq![QUOTE] + hex_encoded(bytes) + seq![QUOTE]
}

/// The header that every structured value starts with: the format version
/// and the name of the suite.
pub open spec fn header_text(suite: Ciphersuite) -> Seq<u8> {
    "{\"version\":0,\"ciphersuite\":\"".spec_bytes() + suite.spec_id() + "\"}".spec_bytes()
}

/// The text of a participant's signing commitments.
pub open spec fn commitments_text(suite: Ciphersuite, c: SigningCommitmentsView) -> Seq<u8> {
    "{\"header\":".spec_bytes() + header_text(suite) + ",\"hiding\":".spec_bytes() + quoted_hex(
        c.hiding,
    ) + ",\"binding\":".spec_bytes() + quoted_hex(c.binding) + seq![CLOSE]
}

/// The text of a signature share.
pub open spec fn share_text(suite: Ciphersuite, share: Seq<u8>) -> Seq<u8> {
    "{\"header\":".spec_bytes() + header_text(suite) + ",\"share\":".spec_bytes() + quoted_hex(
        share,
    ) + seq![CLOSE]
}

/// A value that can stand in a map from identifiers.
pub trait MapValue: View {
    /// The text of a value.
    spec fn spec_text(suite: Ciphersuite, value: Self::V) -> Seq<u8>;

    /// Appends the text of this value to `out`.
    fn write(&self, suite: Ciphersuite, out: &mut Vec<u8>)
        ensures
            final(out)@ == old(out)@ + Self::spec_text(suite, self@),
    ;
}

impl MapValue for SigningCommitments {
    open spec fn spec_text(suite: Ciphersuite, value: SigningCommitmentsView) -> Seq<u8> {
        commitments_text(suite, value)
    }

    fn write(&self, suite: Ciphersuite, out: &mut Vec<u8>) {
        write_commitments(out, suite, self);
    }
}

impl MapValue for SignatureShare {
    open spec fn spec_text(suite: Ciphersuite, value: Seq<u8>) -> Seq<u8> {
        share_text(suite, value)
    }

    fn write(&self, suite: Ciphersuite, out: &mut Vec<u8>) {
        write_share(out, suite, self);
    }
}

impl MapValue for Vec<u8> {
    open spec fn spec_text(suite: Ciphersuite, value: Seq<u8>) -> Seq<u8> {
        quoted_hex(value)
    }

    fn write(&self, suite: Ciphersuite, out: &mut Vec<u8>) {
        push_quoted_hex(out, self.as_slice());
    }
}

/// One entry of a map: the identifier as a key, a colon, the value.
pub open spec fn entry_text<V: MapValue>(suite: Ciphersuite, entry: (Seq<u8>, V::V)) -> Seq<u8> {
    quoted_hex(entry.0) + seq![COLON] + V::spec_text(suite, entry.1)
}

/// The entries of a map, one after the other with commas between them.
pub open spec fn entries_text<V: MapValue>(
    suite: Ciphersuite,
    entries: Seq<(Seq<u8>, V::V)>,
) -> Seq<u8>
    decreases entries.len(),
{
    if entries.len() == 0 {
        Seq::empty()
    } else if entries.len() == 1 {
        entry_text::<V>(suite, entries[0])
    } else {
        entries_text::<V>(suite, entries.drop_last()) + seq![COMMA] + entry_text::<V>(
            suite,
            entries.last(),
        )
    }
}

/// A map from identifiers as a JSON object.
pub open spec fn map_text<V: MapValue>(suite: Ciphersuite, entries: Seq<(Seq<u8>, V::V)>) -> Seq<
    u8,
> {
    seq![OPEN] + entries_text::<V>(suite, entries) + seq![CLOSE]
}

/// The text of a signing package: its commitments in identifier order, then
/// the message.
pub open spec fn signing_package_text(
    suite: Ciphersuite,
    entries: Seq<(Seq<u8>, SigningCommitmentsView)>,
    message: Seq<u8>,
) -> Seq<u8> {
    "{\"header\":".spec_bytes() + header_text(suite) + ",\"signing_commitments\":".spec_bytes()
        + map_text::<SigningCommitments>(suite, entries) + ",\"message\":".spec_bytes()
        + quoted_hex(message) + seq![CLOSE]
}

/// The text of a public key package: the verifying shares in identifier
/// order, then the group's verifying key.
pub open spec fn public_key_package_text(
    suite: Ciphersuite,
    entries: Seq<(Seq<u8>, Seq<u8>)>,
    verifying_key: Seq<u8>,
) -> Seq<u8> {
    "{\"header\":".spec_bytes() + header_text(suite) + ",\"verifying_shares\":".spec_bytes()
        + map_text::<Vec<u8>>(suite, entries) + ",\"verifying_key\":".spec_bytes() + quoted_hex(
        verifying_key,
    ) + seq![CLOSE]
}

/// A number in decimal digits, without leading zeros.
pub open spec fn decimal_text(n: nat) -> Seq<u8>
    decreases n,
{
    if n < 10 {
        seq![(48 + n) as u8]
    } else {
        decimal_text(n / 10).push((48 + n % 10) as u8)
    }
}

/// The text of a key package.
pub open spec fn key_package_text(suite: Ciphersuite, k: KeyPackageView) -> Seq<u8> {
    "{\"header\":".spec_bytes() + header_text(suite) + ",\"identifier\":".spec_bytes()
        + quoted_hex(k.identifier) + ",\"signing_share\":".spec_bytes() + quoted_hex(
        k.signing_share,
    ) + ",\"verifying_share\":".spec_bytes() + quoted_hex(k.verifying_share)
        + ",\"verifying_key\":".spec_bytes() + quoted_hex(k.verifying_key)
        + ",\"min_signers\":".spec_bytes() + decimal_text(k.min_signers as nat) + seq![CLOSE]
}

/// Appends `n` in decimal digits to `out`.
pub fn push_decimal(out: &mut Vec<u8>, n: u16)
    ensures
        final(out)@ == old(out)@ + decimal_text(n as nat),
    decreases n,
{
    if n < 10 {
        out.push(48 + n as u8);
        assert(out@ =~= old(out)@ + decimal_text(n as nat));
    } else {
        push_decimal(out, n / 10);
        out.push(48 + (n % 10) as u8);
        assert(out@ =~= old(out)@ + decimal_text(n as nat));
    }
}

/// The text of `package`.
pub fn encode_key_package(suite: Ciphersuite, package: &KeyPackage) -> (text: Vec<u8>)
    ensures
        text@ == key_package_text(suite, package@),
{
    let mut out: Vec<u8> = Vec::new();
    push_text(&mut out, "{\"header\":");
    write_header(&mut out, suite);
    push_text(&mut out, ",\"identifier\":");
    push_quoted_hex(&mut out, package.identifier.bytes.as_slice());
    push_text(&mut out, ",\"signing_share\":");
    push_quoted_hex(&mut out, package.signing_share.as_slice());
    push_text(&mut out, ",\"verifying_share\":");
    push_quoted_hex(&mut out, package.verifying_share.as_slice());
    push_text(&mut out, ",\"verifying_key\":");
    push_quoted_hex(&mut out, package.verifying_key.as_slice());
    push_text(&mut out, ",\"min_signers\":");
    push_decimal(&mut out, package.min_signers);
    out.push(CLOSE);
    assert(out@ =~= key_package_text(suite, package@));
    out
}

/// An opening bracket.
pub const OPEN_LIST: u8 = 91;

/// A closing bracket.
pub const CLOSE_LIST: u8 = 93;

/// Byte strings as hexadecimal strings, one after the other with commas
/// between them.
pub open spec fn items_text(items: Seq<Seq<u8>>) -> Seq<u8>
    decreases items.len(),
{
    if items.len() == 0 {
        Seq::empty()
    } else if items.len() == 1 {
        quoted_hex(items[0])
    } else {
        items_text(items.drop_last()) + seq![COMMA] + quoted_hex(items.last())
    }
}

/// The text of a secret share: the identifier, the share, and the
/// commitment as a list of group elements.
pub open spec fn secret_share_text(suite: Ciphersuite, share: SecretShareView) -> Seq<u8> {
    "{\"header\":".spec_bytes() + header_text(suite) + ",\"identifier\":".spec_bytes()
        + quoted_hex(share.identifier) + ",\"signing_share\":".spec_bytes() + quoted_hex(
        share.signing_share,
    ) + ",\"commitment\":".spec_bytes() + seq![OPEN_LIST] + items_text(share.commitment) + seq![
        CLOSE_LIST,
        CLOSE,
    ]
}

/// The text of `share`.
pub fn encode_secret_share(suite: Ciphersuite, share: &SecretShare) -> (text: Vec<u8>)
    ensures
        text@ == secret_share_text(suite, share@),
{
    let mut out: Vec<u8> = Vec::new();
    push_text(&mut out, "{\"header\":");
    write_header(&mut out, suite);
    push_text(&mut out, ",\"identifier\":");
    push_quoted_hex(&mut out, share.identifier.bytes.as_slice());
    push_text(&mut out, ",\"signing_share\":");
    push_quoted_hex(&mut out, share.signing_share.as_slice());
    push_text(&mut out, ",\"commitment\":");
    out.push(OPEN_LIST);
    let ghost start = out@;
    let ghost items = share@.commitment;
    let mut i: usize = 0;
    assert(items.take(0) =~= Seq::<Seq<u8>>::empty());
    while i < share.commitment.len()
        invariant
            i <= share.commitment@.len(),
            items == share@.commitment,
            items.len() == share.commitment@.len(),
            out@ == start + items_text(items.take(i as int)),
        decreases share.commitment@.len() - i,
    {
        if i > 0 {
            out.push(COMMA);
        }
        push_quoted_hex(&mut out, share.commitment[i].as_slice());
        proof {
            let grown = items.take(i + 1);
            assert(grown.drop_last() =~= items.take(i as int));
            assert(grown.last() == share.commitment@[i as int]@);
            if i == 0 {
                assert(grown[0] == items[0]);
                assert(items_text(items.take(0)) =~= Seq::<u8>::empty());
            }
            assert(out@ =~= start + items_text(grown));
        }
        i = i + 1;
    }
    out.push(CLOSE_LIST);
    out.push(CLOSE);
    assert(items.take(items.len() as int) =~= items);
    assert(out@ =~= secret_share_text(suite, share@));
    out
}

/// Appends the bytes of `text` to `out`.
pub fn push_text(out: &mut Vec<u8>, text: &str)
    ensures
        final(out)@ == old(out)@ + text.spec_bytes(),
{
    push_bytes(out, text.as_bytes());
}

/// Appends `bytes` to `out`.
pub fn push_bytes(out: &mut Vec<u8>, bytes: &[u8])
    ensures
        final(out)@ == old(out)@ + bytes@,
{
    let mut i: usize = 0;
    while i < bytes.len()
        invariant
            i <= bytes@.len(),
            out@ == old(out)@ + bytes@.take(i as int),
        decreases bytes@.len() - i,
    {
        out.push(bytes[i]);
        assert(bytes@.take(i as int).push(bytes@[i as int]) =~= bytes@.take(i + 1));
        i = i + 1;
    }
    assert(bytes@.take(bytes@.len() as int) =~= bytes@);
}

/// Appends `bytes` to `out` as a JSON string of hexadecimal digits.
pub fn push_quoted_hex(out: &mut Vec<u8>, bytes: &[u8])
    ensures
        final(out)@ == old(out)@ + quoted_hex(bytes@),
{
    out.push(QUOTE);
    let digits = hex_encode(bytes);
    push_bytes(out, digits.as_slice());
    out.push(QUOTE);
    assert(out@ =~= old(out)@ + quoted_hex(bytes@));
}

/// Appends the header of `suite` to `out`.
pub fn write_header(out: &mut Vec<u8>, suite: Ciphersuite)
    ensures
        final(out)@ == old(out)@ + header_text(suite),
{
    push_text(out, "{\"version\":0,\"ciphersuite\":\"");
    push_text(out, suite.id());
    push_text(out, "\"}");
    assert(out@ =~= old(out)@ + header_text(suite));
}

/// Appends the text of `commitments` to `out`.
pub fn write_commitments(out: &mut Vec<u8>, suite: Ciphersuite, commitments: &SigningCommitments)
    ensures
        final(out)@ == old(out)@ + commitments_text(suite, commitments@),
{
    push_text(out, "{\"header\":");
    write_header(out, suite);
    push_text(out, ",\"hiding\":");
    push_quoted_hex(out, commitments.hiding.as_slice());
    push_text(out, ",\"binding\":");
    push_quoted_hex(out, commitments.binding.as_slice());
    out.push(CLOSE);
    assert(out@ =~= old(out)@ + commitments_text(suite, commitments@));
}

/// Appends the text of `share` to `out`.
pub fn write_share(out: &mut Vec<u8>, suite: Ciphersuite, share: &SignatureShare)
    ensures
        final(out)@ == old(out)@ + share_text(suite, share@),
{
    push_text(out, "{\"header\":");
    write_header(out, suite);
    push_text(out, ",\"share\":");
    push_quoted_hex(out, share.share.as_slice());
    out.push(CLOSE);
    assert(out@ =~= old(out)@ + share_text(suite, share@));
}

/// Appends `map` to `out` as a JSON object, the entries in identifier order.
pub fn write_map<V: MapValue>(out: &mut Vec<u8>, suite: Ciphersuite, map: &IdentifierMap<V>)
    ensures
        final(out)@ == old(out)@ + map_text::<V>(suite, map.spec_entries()),
{
    out.push(OPEN);
    let n = map.len();
    let ghost entries = map.spec_entries();
    let mut i: usize = 0;
    assert(entries.take(0) =~= Seq::<(Seq<u8>, V::V)>::empty());
    while i < n
        invariant
            i <= n,
            n == entries.len(),
            entries == map.spec_entries(),
            out@ == old(out)@ + seq![OPEN] + entries_text::<V>(suite, entries.take(i as int)),
        decreases n - i,
    {
        if i > 0 {
            out.push(COMMA);
        }
        push_quoted_hex(out, map.key_at(i).bytes.as_slice());
        out.push(COLON);
        map.value_at(i).write(suite, out);
        proof {
            let grown = entries.take(i + 1);
            assert(grown.drop_last() =~= entries.take(i as int));
            assert(grown.last() == entries[i as int]);
            if i == 0 {
                assert(grown[0] == entries[0]);
                assert(entries_text::<V>(suite, entries.take(0)) =~= Seq::<u8>::empty());
            }
            assert(out@ =~= old(out)@ + seq![OPEN] + entries_text::<V>(suite, grown));
        }
        i = i + 1;
    }
    out.push(CLOSE);
    assert(entries.take(n as int) =~= entries);
    assert(out@ =~= old(out)@ + map_text::<V>(suite, entries));
}

/// The text of `package`.
pub fn encode_signing_package(suite: Ciphersuite, package: &SigningPackage) -> (text: Vec<u8>)
    ensures
        text@ == signing_package_text(
            suite,
            package.signing_commitments.spec_entries(),
            package.message@,
        ),
{
    let mut out: Vec<u8> = Vec::new();
    write_signing_package(&mut out, suite, package);
    out
}

/// Appends the text of `package` to `out`.
pub fn write_signing_package(out: &mut Vec<u8>, suite: Ciphersuite, package: &SigningPackage)
    ensures
        final(out)@ == old(out)@ + signing_package_text(
            suite,
            package.signing_commitments.spec_entries(),
            package.message@,
        ),
{
    push_text(out, "{\"header\":");
    write_header(out, suite);
    push_text(out, ",\"signing_commitments\":");
    write_map(out, suite, &package.signing_commitments);
    push_text(out, ",\"message\":");
    push_quoted_hex(out, package.message.as_slice());
    out.push(CLOSE);
    assert(out@ =~= old(out)@ + signing_package_text(
        suite,
        package.signing_commitments.spec_entries(),
        package.message@,
    ));
}

/// The text of `package`.
pub fn encode_public_key_package(suite: Ciphersuite, package: &PublicKeyPackage) -> (text: Vec<u8>)
    ensures
        text@ == public_key_package_text(
            suite,
            package.verifying_shares.spec_entries(),
            package.verifying_key@,
        ),
{
    let mut out: Vec<u8> = Vec::new();
    push_text(&mut out, "{\"header\":");
    write_header(&mut out, suite);
    push_text(&mut out, ",\"verifying_shares\":");
    write_map(&mut out, suite, &package.verifying_shares);
    push_text(&mut out, ",\"verifying_key\":");
    push_quoted_hex(&mut out, package.verifying_key.as_slice());
    out.push(CLOSE);
    assert(out@ =~= public_key_package_text(
        suite,
        package.verifying_shares.spec_entries(),
        package.verifying_key@,
    ));
    out
}

/// The text of a map of signature shares.
pub fn encode_shares(suite: Ciphersuite, shares: &IdentifierMap<SignatureShare>) -> (text: Vec<u8>)
    ensures
        text@ == map_text::<SignatureShare>(suite, shares.spec_entries()),
{
    let mut out: Vec<u8> = Vec::new();
    write_map(&mut out, suite, shares);
    assert(out@ =~= map_text::<SignatureShare>(suite, shares.spec_entries()));
    out
}

} // verus!
