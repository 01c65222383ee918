//! Reading the text form back.
//!
//! The text of a value has its parts at places that the suite fixes, so a
//! value is read by taking the hexadecimal strings at those places. What
//! was read is a candidate only: whoever reads writes the candidate out
//! again and accepts it where the text is reproduced byte for byte.

use crate::ciphersuite::Ciphersuite;
use crate::hexcodec::{
    hex_decode, hex_decoded, hex_encoded, is_hex_text, lemma_hex_decoded_len,
    lemma_hex_round_trip,
};
use crate::identifier::Identifier;
use crate::round1::{SigningCommitments, SigningCommitmentsView};
use crate::round2::SignatureShare;
use crate::wire::{
    commitments_text, entries_text, entry_text, header_text, quoted_hex, share_text,
    signing_package_text, CLOSE, COLON, COMMA, OPEN, QUOTE,
};
use vstd::prelude::*;
use vstd::slice::slice_subrange;
use vstd::string::StringSliceAdditionalSpecFns;

verus! {

/// Whether `part` stands in `s` at position `at`.
pub open spec fn has_at(s: Seq<u8>, at: int, part: Seq<u8>) -> bool {
    &&& 0 <= at
    &&& at + part.len() <= s.len()
    &&& s.subrange(at, at + part.len()) == part
}

/// Where two parts stand one after the other, each stands at its place.
pub proof fn lemma_has_at_split(s: Seq<u8>, at: int, a: Seq<u8>, b: Seq<u8>)
    requires
        has_at(s, at, a + b),
    ensures
        has_at(s, at, a),
        has_at(s, at + a.len(), b),
{
    let whole = s.subrange(at, at + (a + b).len());
    assert(s.subrange(at, at + a.len()) =~= whole.subrange(0, a.len() as int));
    assert((a + b).subrange(0, a.len() as int) =~= a);
    assert(s.subrange(at + a.len(), at + a.len() + b.len()) =~= whole.subrange(
        a.len() as int,
        (a + b).len() as int,
    ));
    assert((a + b).subrange(a.len() as int, (a + b).len() as int) =~= b);
}

/// Whether a quoted hexadecimal string for `n` bytes can be taken at `at`.
pub open spec fn hex_readable(s: Seq<u8>, at: int, n: nat) -> bool {
    &&& 0 <= at
    &&& at + 2 * n + 2 <= s.len()
    &&& is_hex_text(s.subrange(at + 1, at + 1 + 2 * n))
}

/// The `n` bytes that the hexadecimal digits after position `at` stand for.
pub open spec fn hex_at(s: Seq<u8>, at: int, n: nat) -> Seq<u8> {
    hex_decoded(s.subrange(at + 1, at + 1 + 2 * n))
}

/// Where the quoted hexadecimal string of `x` stands, `x` is read.
pub proof fn lemma_hex_at(s: Seq<u8>, at: int, x: Seq<u8>)
    requires
        has_at(s, at, quoted_hex(x)),
    ensures
        hex_readable(s, at, x.len()),
        hex_at(s, at, x.len()) == x,
        quoted_hex(x).len() == 2 * x.len() + 2,
{
    lemma_hex_round_trip(x);
    let q = quoted_hex(x);
    let digits = hex_encoded(x);
    assert(q.len() == 2 * x.len() + 2);
    let taken = s.subrange(at + 1, at + 1 + 2 * x.len());
    assert(taken =~= digits) by {
        assert forall|i: int| 0 <= i < digits.len() implies taken[i] == digits[i] by {
            assert(s.subrange(at, at + q.len())[i + 1] == q[i + 1]);
        }
    }
}

/// What is read of a string for `n` bytes is `n` bytes long.
pub proof fn lemma_hex_at_len(s: Seq<u8>, at: int, n: nat)
    requires
        hex_readable(s, at, n),
    ensures
        hex_at(s, at, n).len() == n,
{
    lemma_hex_decoded_len(s.subrange(at + 1, at + 1 + 2 * n));
}

/// Takes the `n` bytes of the quoted hexadecimal string at `at`.
pub fn read_hex(input: &[u8], at: usize, n: usize) -> (bytes: Option<Vec<u8>>)
    requires
        2 * n + 2 <= usize::MAX,
    ensures
        bytes is Some <==> hex_readable(input@, at as int, n as nat),
        bytes matches Some(b) ==> b@ == hex_at(input@, at as int, n as nat),
{
    if at > input.len() || input.len() - at < 2 * n + 2 {
        return None;
    }
    hex_decode(slice_subrange(input, at + 1, at + 1 + 2 * n))
}

/// The width of the header of `suite`.
pub open spec fn header_width(suite: Ciphersuite) -> nat {
    "{\"version\":0,\"ciphersuite\":\"".spec_bytes().len() + suite.spec_id().len()
        + "\"}".spec_bytes().len()
}

/// The distance from the start of a participant's commitments to the
/// string that holds its hiding element.
pub open spec fn hiding_offset(suite: Ciphersuite) -> nat {
    "{\"header\":".spec_bytes().len() + header_width(suite) + ",\"hiding\":".spec_bytes().len()
}

/// The distance from the start of a participant's commitments to the
/// string that holds its binding element.
pub open spec fn binding_offset(suite: Ciphersuite) -> nat {
    hiding_offset(suite) + 2 * suite.element_len() + 2 + ",\"binding\":".spec_bytes().len()
}

/// The width of the text of a participant's commitments.
pub open spec fn commitments_width(suite: Ciphersuite) -> nat {
    binding_offset(suite) + 2 * suite.element_len() + 2 + 1
}

/// Commitments whose elements have the width of the suite.
pub open spec fn commitments_fit(suite: Ciphersuite, c: SigningCommitmentsView) -> bool {
    c.hiding.len() == suite.element_len() && c.binding.len() == suite.element_len()
}

/// Whether commitments can be taken at `at`.
pub open spec fn commitments_readable(suite: Ciphersuite, s: Seq<u8>, at: int) -> bool {
    &&& 0 <= at
    &&& at + commitments_width(suite) <= s.len()
    &&& hex_readable(s, at + hiding_offset(suite), suite.element_len())
    &&& hex_readable(s, at + binding_offset(suite), suite.element_len())
}

/// The commitments that the strings at their places after `at` stand for.
pub open spec fn commitments_at(suite: Ciphersuite, s: Seq<u8>, at: int) -> SigningCommitmentsView {
    SigningCommitmentsView {
        hiding: hex_at(s, at + hiding_offset(suite), suite.element_len()),
        binding: hex_at(s, at + binding_offset(suite), suite.element_len()),
    }
}

/// Where the text of commitments stands, the commitments are read.
pub proof fn lemma_commitments_at(
    suite: Ciphersuite,
    s: Seq<u8>,
    at: int,
    c: SigningCommitmentsView,
)
    requires
        has_at(s, at, commitments_text(suite, c)),
        commitments_fit(suite, c),
    ensures
        commitments_readable(suite, s, at),
        commitments_at(suite, s, at) == c,
        commitments_text(suite, c).len() == commitments_width(suite),
{
    let a = "{\"header\":".spec_bytes() + header_text(suite) + ",\"hiding\":".spec_bytes();
    let h = quoted_hex(c.hiding);
    let b = ",\"binding\":".spec_bytes();
    let g = quoted_hex(c.binding);
    let z = seq![CLOSE];
    lemma_hex_round_trip(c.hiding);
    lemma_hex_round_trip(c.binding);
    assert(commitments_text(suite, c) =~= (a + h) + (b + (g + z)));
    lemma_has_at_split(s, at, a + h, b + (g + z));
    lemma_has_at_split(s, at, a, h);
    lemma_has_at_split(s, at + (a + h).len(), b, g + z);
    lemma_has_at_split(s, at + (a + h).len() + b.len(), g, z);
    lemma_hex_at(s, at + a.len(), c.hiding);
    lemma_hex_at(s, at + (a + h).len() + b.len(), c.binding);
}

/// Takes the commitments whose text starts at `at`.
pub fn read_commitments(suite: Ciphersuite, input: &[u8], at: usize) -> (c: Option<
    SigningCommitments,
>)
    ensures
        c is Some <==> commitments_readable(suite, input@, at as int),
        c matches Some(v) ==> v@ == commitments_at(suite, input@, at as int),
{
    proof {
        lemma_literal_widths();
    }
    let e = suite.element_width();
    let hiding_at = "{\"header\":".len() + header_size(suite) + ",\"hiding\":".len();
    let binding_at = hiding_at + 2 * e + 2 + ",\"binding\":".len();
    let width = binding_at + 2 * e + 2 + 1;
    if at > input.len() || input.len() - at < width {
        return None;
    }
    match read_hex(input, at + hiding_at, e) {
        Some(hiding) => match read_hex(input, at + binding_at, e) {
            Some(binding) => Some(SigningCommitments { hiding, binding }),
            None => None,
        },
        None => None,
    }
}

/// The distance from the start of a signature share to the string that
/// holds its scalar.
pub open spec fn share_offset(suite: Ciphersuite) -> nat {
    "{\"header\":".spec_bytes().len() + header_width(suite) + ",\"share\":".spec_bytes().len()
}

/// The width of the text of a signature share.
pub open spec fn share_width(suite: Ciphersuite) -> nat {
    share_offset(suite) + 2 * suite.scalar_len() + 2 + 1
}

/// Whether a signature share can be taken at `at`.
pub open spec fn share_readable(suite: Ciphersuite, s: Seq<u8>, at: int) -> bool {
    &&& 0 <= at
    &&& at + share_width(suite) <= s.len()
    &&& hex_readable(s, at + share_offset(suite), suite.scalar_len())
}

/// The signature share that the string at its place after `at` stands for.
pub open spec fn share_at(suite: Ciphersuite, s: Seq<u8>, at: int) -> Seq<u8> {
    hex_at(s, at + share_offset(suite), suite.scalar_len())
}

/// Where the text of a signature share stands, the share is read.
pub proof fn lemma_share_at(suite: Ciphersuite, s: Seq<u8>, at: int, share: Seq<u8>)
    requires
        has_at(s, at, share_text(suite, share)),
        share.len() == suite.scalar_len(),
    ensures
        share_readable(suite, s, at),
        share_at(suite, s, at) == share,
        share_text(suite, share).len() == share_width(suite),
{
    let a = "{\"header\":".spec_bytes() + header_text(suite) + ",\"share\":".spec_bytes();
    let h = quoted_hex(share);
    let z = seq![CLOSE];
    lemma_hex_round_trip(share);
    assert(share_text(suite, share) =~= a + (h + z));
    lemma_has_at_split(s, at, a, h + z);
    lemma_has_at_split(s, at + a.len(), h, z);
    lemma_hex_at(s, at + a.len(), share);
}

/// Takes the signature share whose text starts at `at`.
pub fn read_share(suite: Ciphersuite, input: &[u8], at: usize) -> (share: Option<SignatureShare>)
    ensures
        share is Some <==> share_readable(suite, input@, at as int),
        share matches Some(v) ==> v@ == share_at(suite, input@, at as int),
{
    proof {
        lemma_literal_widths();
    }
    let n = suite.scalar_width();
    let share_at = "{\"header\":".len() + header_size(suite) + ",\"share\":".len();
    let width = share_at + 2 * n + 2 + 1;
    if at > input.len() || input.len() - at < width {
        return None;
    }
    match read_hex(input, at + share_at, n) {
        Some(share) => Some(SignatureShare { share }),
        None => None,
    }
}

/// The width of one entry of a map of commitments: the identifier as a
/// key, a colon, the commitments.
pub open spec fn entry_width(suite: Ciphersuite) -> nat {
    2 * suite.scalar_len() + 2 + 1 + commitments_width(suite)
}

/// An entry whose identifier and elements have the width of the suite.
pub open spec fn entry_fits(suite: Ciphersuite, entry: (Seq<u8>, SigningCommitmentsView)) -> bool {
    entry.0.len() == suite.scalar_len() && commitments_fit(suite, entry.1)
}

/// Whether one entry and the byte after it can be taken at `at`.
pub open spec fn entry_readable(suite: Ciphersuite, s: Seq<u8>, at: int) -> bool {
    &&& 0 <= at
    &&& at + entry_width(suite) < s.len()
    &&& hex_readable(s, at, suite.scalar_len())
    &&& commitments_readable(suite, s, at + 2 * suite.scalar_len() + 3)
}

/// The entry that the strings at their places after `at` stand for.
pub open spec fn entry_at(suite: Ciphersuite, s: Seq<u8>, at: int) -> (
    Seq<u8>,
    SigningCommitmentsView,
) {
    (
        hex_at(s, at, suite.scalar_len()),
        commitments_at(suite, s, at + 2 * suite.scalar_len() + 3),
    )
}

/// Whether the entries of a map can be taken one after the other from
/// `at`, up to the first that no comma follows.
pub open spec fn entries_readable(suite: Ciphersuite, s: Seq<u8>, at: int) -> bool
    decreases s.len() - at,
{
    if !entry_readable(suite, s, at) {
        false
    } else if s[at + entry_width(suite)] == COMMA {
        entries_readable(suite, s, at + entry_width(suite) + 1)
    } else {
        true
    }
}

/// The entries that stand one after the other from `at`.
pub open spec fn entries_at(suite: Ciphersuite, s: Seq<u8>, at: int) -> Seq<
    (Seq<u8>, SigningCommitmentsView),
>
    decreases s.len() - at,
{
    if !entry_readable(suite, s, at) {
        Seq::empty()
    } else if s[at + entry_width(suite)] == COMMA {
        seq![entry_at(suite, s, at)] + entries_at(suite, s, at + entry_width(suite) + 1)
    } else {
        seq![entry_at(suite, s, at)]
    }
}

/// The position behind the last of the entries that stand from `at`.
pub open spec fn entries_end(suite: Ciphersuite, s: Seq<u8>, at: int) -> int
    decreases s.len() - at,
{
    if !entry_readable(suite, s, at) {
        at
    } else if s[at + entry_width(suite)] == COMMA {
        entries_end(suite, s, at + entry_width(suite) + 1)
    } else {
        at + entry_width(suite)
    }
}

/// The text of two or more entries is the text of the first, a comma, and
/// the text of the others.
pub proof fn lemma_entries_front(suite: Ciphersuite, es: Seq<(Seq<u8>, SigningCommitmentsView)>)
    requires
        es.len() >= 2,
    ensures
        entries_text::<SigningCommitments>(suite, es) == entry_text::<SigningCommitments>(
            suite,
            es[0],
        ) + seq![COMMA] + entries_text::<SigningCommitments>(suite, es.drop_first()),
    decreases es.len(),
{
    let first = entry_text::<SigningCommitments>(suite, es[0]);
    let last = entry_text::<SigningCommitments>(suite, es.last());
    if es.len() == 2 {
        assert(es.drop_last().len() == 1);
        assert(es.drop_last()[0] == es[0]);
        assert(es.drop_first().len() == 1);
        assert(es.drop_first()[0] == es.last());
        assert(entries_text::<SigningCommitments>(suite, es.drop_last()) == first);
        assert(entries_text::<SigningCommitments>(suite, es.drop_first()) == last);
    } else {
        lemma_entries_front(suite, es.drop_last());
        assert(es.drop_last().drop_first() =~= es.drop_first().drop_last());
        assert(es.drop_last()[0] == es[0]);
        assert(es.drop_first().last() == es.last());
        let middle = entries_text::<SigningCommitments>(suite, es.drop_first().drop_last());
        assert(entries_text::<SigningCommitments>(suite, es) =~= (first + seq![COMMA] + middle)
            + seq![COMMA] + last);
        assert(entries_text::<SigningCommitments>(suite, es.drop_first()) =~= middle + seq![COMMA]
            + last);
        assert((first + seq![COMMA] + middle) + seq![COMMA] + last =~= first + seq![COMMA] + (
        middle + seq![COMMA] + last));
    }
}

/// Where the text of an entry stands, the entry is read.
pub proof fn lemma_entry_at(
    suite: Ciphersuite,
    s: Seq<u8>,
    at: int,
    entry: (Seq<u8>, SigningCommitmentsView),
)
    requires
        has_at(s, at, entry_text::<SigningCommitments>(suite, entry)),
        at + entry_text::<SigningCommitments>(suite, entry).len() < s.len(),
        entry_fits(suite, entry),
    ensures
        entry_readable(suite, s, at),
        entry_at(suite, s, at) == entry,
        entry_text::<SigningCommitments>(suite, entry).len() == entry_width(suite),
{
    let k = quoted_hex(entry.0);
    let c = commitments_text(suite, entry.1);
    assert(entry_text::<SigningCommitments>(suite, entry) =~= k + (seq![COLON] + c));
    lemma_has_at_split(s, at, k, seq![COLON] + c);
    lemma_has_at_split(s, at + k.len(), seq![COLON], c);
    lemma_hex_at(s, at, entry.0);
    lemma_commitments_at(suite, s, at + k.len() + 1, entry.1);
}

/// Where the text of one or more entries stands before a closing brace,
/// the entries are read, and reading ends at the brace.
pub proof fn lemma_entries_at(
    suite: Ciphersuite,
    s: Seq<u8>,
    at: int,
    es: Seq<(Seq<u8>, SigningCommitmentsView)>,
)
    requires
        es.len() > 0,
        has_at(s, at, entries_text::<SigningCommitments>(suite, es) + seq![CLOSE]),
        forall|i: int| 0 <= i < es.len() ==> entry_fits(suite, #[trigger] es[i]),
    ensures
        entries_readable(suite, s, at),
        entries_at(suite, s, at) == es,
        entries_end(suite, s, at) == at + entries_text::<SigningCommitments>(suite, es).len(),
    decreases es.len(),
{
    let text = entries_text::<SigningCommitments>(suite, es);
    let first = entry_text::<SigningCommitments>(suite, es[0]);
    lemma_has_at_split(s, at, text, seq![CLOSE]);
    assert(s[at + text.len()] == CLOSE) by {
        assert(s.subrange(at + text.len(), at + text.len() + 1)[0] == seq![CLOSE][0]);
    }
    if es.len() == 1 {
        lemma_entry_at(suite, s, at, es[0]);
        assert(entries_at(suite, s, at) =~= es);
    } else {
        lemma_entries_front(suite, es);
        let rest = entries_text::<SigningCommitments>(suite, es.drop_first());
        assert(text + seq![CLOSE] =~= first + (seq![COMMA] + (rest + seq![CLOSE])));
        lemma_has_at_split(s, at, first, seq![COMMA] + (rest + seq![CLOSE]));
        lemma_has_at_split(s, at + first.len(), seq![COMMA], rest + seq![CLOSE]);
        lemma_entry_at(suite, s, at, es[0]);
        assert(s[at + first.len()] == COMMA) by {
            assert(s.subrange(at + first.len(), at + first.len() + 1)[0] == seq![COMMA][0]);
        }
        assert forall|i: int| 0 <= i < es.drop_first().len() implies entry_fits(
            suite,
            #[trigger] es.drop_first()[i],
        ) by {
            assert(es.drop_first()[i] == es[i + 1]);
        }
        lemma_entries_at(suite, s, at + first.len() + 1, es.drop_first());
        assert(entries_at(suite, s, at) =~= es);
    }
}

/// Every entry that is read has the width of the suite.
pub proof fn lemma_entries_at_fit(suite: Ciphersuite, s: Seq<u8>, at: int)
    requires
        entries_readable(suite, s, at),
    ensures
        forall|i: int|
            0 <= i < entries_at(suite, s, at).len() ==> entry_fits(
                suite,
                #[trigger] entries_at(suite, s, at)[i],
            ),
    decreases s.len() - at,
{
    lemma_hex_at_len(s, at, suite.scalar_len());
    lemma_hex_at_len(
        s,
        at + 2 * suite.scalar_len() + 3 + hiding_offset(suite),
        suite.element_len(),
    );
    lemma_hex_at_len(
        s,
        at + 2 * suite.scalar_len() + 3 + binding_offset(suite),
        suite.element_len(),
    );
    assert(entry_fits(suite, entry_at(suite, s, at)));
    if s[at + entry_width(suite)] == COMMA {
        let next = at + entry_width(suite) + 1;
        lemma_entries_at_fit(suite, s, next);
        let rest = entries_at(suite, s, next);
        let all = entries_at(suite, s, at);
        assert(all =~= seq![entry_at(suite, s, at)] + rest);
        assert forall|i: int| 0 <= i < all.len() implies entry_fits(suite, #[trigger] all[i]) by {
            if i > 0 {
                assert(all[i] == rest[i - 1]);
            }
        }
    }
}

/// Identifiers with commitments, as byte sequences.
pub open spec fn entries_view(entries: Seq<(Identifier, SigningCommitments)>) -> Seq<
    (Seq<u8>, SigningCommitmentsView),
> {
    Seq::new(entries.len(), |i: int| (entries[i].0@, entries[i].1@))
}

/// Takes the entries that stand one after the other from `at`, and the
/// position behind the last of them.
pub fn read_entries(suite: Ciphersuite, input: &[u8], at: usize) -> (r: Option<
    (Vec<(Identifier, SigningCommitments)>, usize),
>)
    ensures
        r is Some <==> entries_readable(suite, input@, at as int),
        r matches Some((entries, end)) ==> {
            &&& entries_view(entries@) == entries_at(suite, input@, at as int)
            &&& end == entries_end(suite, input@, at as int)
            &&& end < input@.len()
        },
{
    proof {
        lemma_literal_widths();
    }
    let n = suite.scalar_width();
    let e = suite.element_width();
    let width = 2 * n + 2 + 1 + ("{\"header\":".len() + header_size(suite) + ",\"hiding\":".len()
        + 2 * e + 2 + ",\"binding\":".len() + 2 * e + 2 + 1);
    let mut entries: Vec<(Identifier, SigningCommitments)> = Vec::new();
    let mut cursor: usize = at;
    loop
        invariant
            width == entry_width(suite),
            n == suite.scalar_len(),
            width <= 1000,
            at <= cursor,
            entries_readable(suite, input@, at as int) == entries_readable(
                suite,
                input@,
                cursor as int,
            ),
            entries_at(suite, input@, at as int) == entries_view(entries@) + entries_at(
                suite,
                input@,
                cursor as int,
            ),
            entries_end(suite, input@, at as int) == entries_end(suite, input@, cursor as int),
        decreases input@.len() - cursor,
    {
        if cursor > input.len() || input.len() - cursor <= width {
            return None;
        }
        let identifier = match read_hex(input, cursor, n) {
            Some(bytes) => Identifier { bytes },
            None => {
                return None;
            },
        };
        let commitments = match read_commitments(suite, input, cursor + 2 * n + 3) {
            Some(c) => c,
            None => {
                return None;
            },
        };
        let ghost before = entries_view(entries@);
        let ghost entry = (identifier@, commitments@);
        entries.push((identifier, commitments));
        assert(entries_view(entries@) =~= before + seq![entry]);
        if input[cursor + width] == COMMA {
            proof {
                let rest = entries_at(suite, input@, cursor + width + 1);
                assert(before + (seq![entry] + rest) =~= (before + seq![entry]) + rest);
            }
            cursor = cursor + width + 1;
        } else {
            assert(before + seq![entry] =~= entries_view(entries@) + Seq::empty());
            assert(entries_at(suite, input@, at as int) =~= entries_view(entries@));
            return Some((entries, cursor + width));
        }
    }
}

/// The distance from the start of a signing package to the brace that
/// opens its map of commitments.
pub open spec fn map_offset(suite: Ciphersuite) -> nat {
    "{\"header\":".spec_bytes().len() + header_width(suite)
        + ",\"signing_commitments\":".spec_bytes().len()
}

/// The entries of the map of the signing package that starts at `at`.
pub open spec fn package_entries_at(suite: Ciphersuite, s: Seq<u8>, at: int) -> Seq<
    (Seq<u8>, SigningCommitmentsView),
> {
    if s[at + map_offset(suite) + 1] == CLOSE {
        Seq::empty()
    } else {
        entries_at(suite, s, at + map_offset(suite) + 1)
    }
}

/// The position of the brace that closes the map of the signing package
/// that starts at `at`.
pub open spec fn package_map_end(suite: Ciphersuite, s: Seq<u8>, at: int) -> int {
    if s[at + map_offset(suite) + 1] == CLOSE {
        at + map_offset(suite) + 1
    } else {
        entries_end(suite, s, at + map_offset(suite) + 1)
    }
}

/// The position of the string that holds the message of the signing
/// package that starts at `at`.
pub open spec fn package_message_start(suite: Ciphersuite, s: Seq<u8>, at: int) -> int {
    package_map_end(suite, s, at) + 1 + ",\"message\":".spec_bytes().len()
}

/// The length of the message of a signing package whose text starts at
/// `at` and ends before `stop`.
pub open spec fn package_message_len(suite: Ciphersuite, s: Seq<u8>, at: int, stop: int) -> nat {
    ((stop - package_message_start(suite, s, at) - 3) / 2) as nat
}

/// Whether a signing package can be taken between `at` and `stop`.
pub open spec fn package_readable(suite: Ciphersuite, s: Seq<u8>, at: int, stop: int) -> bool {
    &&& 0 <= at
    &&& stop <= s.len()
    &&& at + map_offset(suite) + 2 <= stop
    &&& s[at + map_offset(suite) + 1] == CLOSE || entries_readable(
        suite,
        s,
        at + map_offset(suite) + 1,
    )
    &&& package_message_start(suite, s, at) + 3 <= stop
    &&& (stop - package_message_start(suite, s, at) - 3) % 2 == 0
    &&& hex_readable(
        s,
        package_message_start(suite, s, at),
        package_message_len(suite, s, at, stop),
    )
}

/// The message of the signing package between `at` and `stop`.
pub open spec fn package_message_at(suite: Ciphersuite, s: Seq<u8>, at: int, stop: int) -> Seq<
    u8,
> {
    hex_at(s, package_message_start(suite, s, at), package_message_len(suite, s, at, stop))
}

/// The text of one or more entries starts with a double quote.
pub proof fn lemma_entries_start(
    suite: Ciphersuite,
    s: Seq<u8>,
    at: int,
    es: Seq<(Seq<u8>, SigningCommitmentsView)>,
)
    requires
        es.len() > 0,
        has_at(s, at, entries_text::<SigningCommitments>(suite, es) + seq![CLOSE]),
    ensures
        at < s.len(),
        s[at] == QUOTE,
{
    let text = entries_text::<SigningCommitments>(suite, es);
    let first = entry_text::<SigningCommitments>(suite, es[0]);
    let key = quoted_hex(es[0].0);
    let tail = seq![COLON] + commitments_text(suite, es[0].1);
    assert(first =~= key + tail);
    assert(key[0] == QUOTE);
    if es.len() == 1 {
        assert(text + seq![CLOSE] =~= key + (tail + seq![CLOSE]));
        lemma_has_at_split(s, at, key, tail + seq![CLOSE]);
    } else {
        lemma_entries_front(suite, es);
        let rest = entries_text::<SigningCommitments>(suite, es.drop_first());
        assert(text + seq![CLOSE] =~= key + (tail + seq![COMMA] + rest + seq![CLOSE]));
        lemma_has_at_split(s, at, key, tail + seq![COMMA] + rest + seq![CLOSE]);
    }
    assert(s.subrange(at, at + key.len())[0] == key[0]);
}

/// Where the text of a signing package stands, its entries and its message
/// are read.
pub proof fn lemma_package_at(
    suite: Ciphersuite,
    s: Seq<u8>,
    at: int,
    es: Seq<(Seq<u8>, SigningCommitmentsView)>,
    message: Seq<u8>,
)
    requires
        has_at(s, at, signing_package_text(suite, es, message)),
        forall|i: int| 0 <= i < es.len() ==> entry_fits(suite, #[trigger] es[i]),
    ensures
        package_readable(suite, s, at, at + signing_package_text(suite, es, message).len()),
        package_entries_at(suite, s, at) == es,
        package_message_at(suite, s, at, at + signing_package_text(suite, es, message).len())
            == message,
{
    let head = "{\"header\":".spec_bytes() + header_text(suite)
        + ",\"signing_commitments\":".spec_bytes();
    let body = entries_text::<SigningCommitments>(suite, es);
    let label = ",\"message\":".spec_bytes();
    let m = quoted_hex(message);
    let whole = signing_package_text(suite, es, message);
    let open = seq![OPEN];
    let close = seq![CLOSE];
    lemma_hex_round_trip(message);
    assert(whole =~= head + (open + ((body + close) + (label + (m + close)))));
    lemma_has_at_split(s, at, head, open + ((body + close) + (label + (m + close))));
    let a1 = at + head.len();
    lemma_has_at_split(s, a1, open, (body + close) + (label + (m + close)));
    let a2 = a1 + 1;
    lemma_has_at_split(s, a2, body + close, label + (m + close));
    let a3 = a2 + body.len() + 1;
    lemma_has_at_split(s, a3, label, m + close);
    let a4 = a3 + label.len();
    lemma_has_at_split(s, a4, m, close);
    lemma_hex_at(s, a4, message);
    assert(head.len() == map_offset(suite));
    if es.len() == 0 {
        assert(body =~= Seq::<u8>::empty());
        assert(s.subrange(a2, a2 + 1)[0] == (body + close)[0]);
        assert(package_entries_at(suite, s, at) =~= es);
    } else {
        lemma_entries_start(suite, s, a2, es);
        lemma_entries_at(suite, s, a2, es);
    }
    assert(package_map_end(suite, s, at) == a2 + body.len());
    assert(package_message_start(suite, s, at) == a4);
    let stop = at + whole.len();
    assert(stop == a4 + m.len() + 1);
    assert(stop - a4 - 3 == 2 * message.len());
}

/// Takes the entries and the message of the signing package whose text
/// stands between `at` and `stop`.
pub fn read_package(suite: Ciphersuite, input: &[u8], at: usize, stop: usize) -> (r: Option<
    (Vec<(Identifier, SigningCommitments)>, Vec<u8>),
>)
    ensures
        r is Some <==> package_readable(suite, input@, at as int, stop as int),
        r matches Some((entries, message)) ==> {
            &&& entries_view(entries@) == package_entries_at(suite, input@, at as int)
            &&& message@ == package_message_at(suite, input@, at as int, stop as int)
        },
{
    proof {
        lemma_literal_widths();
        lemma_more_literal_widths();
    }
    if stop > input.len() || at > stop {
        return None;
    }
    let offset = "{\"header\":".len() + header_size(suite) + ",\"signing_commitments\":".len();
    if stop - at < offset + 2 {
        return None;
    }
    let (entries, end) = if input[at + offset + 1] == CLOSE {
        (Vec::new(), at + offset + 1)
    } else {
        match read_entries(suite, input, at + offset + 1) {
            Some(read) => read,
            None => {
                return None;
            },
        }
    };
    assert(entries_view(entries@) =~= package_entries_at(suite, input@, at as int));
    let label = ",\"message\":".len();
    if end >= stop || stop - end < 1 + label + 3 {
        return None;
    }
    let start = end + 1 + label;
    if (stop - start - 3) % 2 != 0 {
        return None;
    }
    let n = (stop - start - 3) / 2;
    match read_hex(input, start, n) {
        Some(message) => Some((entries, message)),
        None => None,
    }
}

/// More text pieces of the format are short.
pub proof fn lemma_more_literal_widths()
    ensures
        ",\"signing_commitments\":".spec_bytes().len() == 23,
        ",\"message\":".spec_bytes().len() == 11,
{
    reveal_strlit(",\"signing_commitments\":");
    reveal_strlit(",\"message\":");
    lemma_ascii_width(",\"signing_commitments\":");
    lemma_ascii_width(",\"message\":");
}

/// The width of the header of `suite`.
pub fn header_size(suite: Ciphersuite) -> (n: usize)
    ensures
        n == header_width(suite),
        n <= 200,
{
    proof {
        lemma_literal_widths();
    }
    "{\"version\":0,\"ciphersuite\":\"".len() + suite.id().len() + "\"}".len()
}

/// The text pieces of the format are short.
pub proof fn lemma_literal_widths()
    ensures
        "{\"version\":0,\"ciphersuite\":\"".spec_bytes().len() == 28,
        "FROST-ED25519-SHA512-v1".spec_bytes().len() == 23,
        "FROST-ED448-SHAKE256-v1".spec_bytes().len() == 23,
        "\"}".spec_bytes().len() == 2,
        "{\"header\":".spec_bytes().len() == 10,
        ",\"hiding\":".spec_bytes().len() == 10,
        ",\"binding\":".spec_bytes().len() == 11,
        ",\"share\":".spec_bytes().len() == 9,
{
    reveal_strlit("{\"version\":0,\"ciphersuite\":\"");
    reveal_strlit("FROST-ED25519-SHA512-v1");
    reveal_strlit("FROST-ED448-SHAKE256-v1");
    reveal_strlit("\"}");
    reveal_strlit("{\"header\":");
    reveal_strlit(",\"hiding\":");
    reveal_strlit(",\"binding\":");
    reveal_strlit(",\"share\":");
    lemma_ascii_width("{\"version\":0,\"ciphersuite\":\"");
    lemma_ascii_width("FROST-ED25519-SHA512-v1");
    lemma_ascii_width("FROST-ED448-SHAKE256-v1");
    lemma_ascii_width("\"}");
    lemma_ascii_width("{\"header\":");
    lemma_ascii_width(",\"hiding\":");
    lemma_ascii_width(",\"binding\":");
    lemma_ascii_width(",\"share\":");
}

/// A text of ASCII characters has one byte for each character.
pub proof fn lemma_ascii_width(text: &str)
    requires
        text.is_ascii(),
    ensures
        text.spec_bytes().len() == text@.len(),
        forall|i: int| 0 <= i < text@.len() ==> text.spec_bytes()[i] == text@[i] as u8,
{
    vstd::utf8::is_ascii_chars_encode_utf8(text@);
}

} // verus!
