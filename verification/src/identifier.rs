//! Participant identifiers and their total order.

use vstd::prelude::*;

verus! {

/// A participant identifier, held as the canonical little-endian byte
/// encoding of a scalar.
#[derive(Debug, PartialEq, Eq, Hash)]
pub struct Identifier {
    pub bytes: Vec<u8>,
}

impl View for Identifier {
    type V = Seq<u8>;

    open spec fn view(&self) -> Seq<u8> {
        self.bytes@
    }
}

/// The order of identifiers: the order of the numbers that the encodings
/// stand for. The last byte is the most significant, so two encodings are
/// compared from their ends; when one runs out first, it is the smaller.
pub open spec fn precedes(a: Seq<u8>, b: Seq<u8>) -> bool
    decreases a.len(),
{
    if a.len() == 0 {
        b.len() > 0
    } else if b.len() == 0 {
        false
    } else if a.last() != b.last() {
        a.last() < b.last()
    } else {
        precedes(a.drop_last(), b.drop_last())
    }
}

/// No encoding precedes itself.
pub proof fn lemma_precedes_irreflexive(a: Seq<u8>)
    ensures
        !precedes(a, a),
    decreases a.len(),
{
    if a.len() > 0 {
        lemma_precedes_irreflexive(a.drop_last());
    }
}

/// Of two different encodings exactly one precedes the other.
pub proof fn lemma_precedes_total(a: Seq<u8>, b: Seq<u8>)
    ensures
        a != b ==> (precedes(a, b) || precedes(b, a)),
        !(precedes(a, b) && precedes(b, a)),
    decreases a.len(),
{
    if a.len() > 0 && b.len() > 0 && a.last() == b.last() {
        lemma_precedes_total(a.drop_last(), b.drop_last());
        if a.drop_last() == b.drop_last() {
            assert(a =~= a.drop_last().push(a.last()));
            assert(b =~= b.drop_last().push(b.last()));
        }
    } else if a.len() == 0 && b.len() == 0 {
        assert(a =~= b);
    }
}

/// The order is transitive.
pub proof fn lemma_precedes_transitive(a: Seq<u8>, b: Seq<u8>, c: Seq<u8>)
    requires
        precedes(a, b),
        precedes(b, c),
    ensures
        precedes(a, c),
    decreases a.len(),
{
    if a.len() > 0 && b.len() > 0 && c.len() > 0 {
        if a.last() == b.last() && b.last() == c.last() {
            lemma_precedes_transitive(a.drop_last(), b.drop_last(), c.drop_last());
        }
    }
}

impl Identifier {
    /// An identifier with the given encoding.
    pub fn new(bytes: Vec<u8>) -> (id: Identifier)
        ensures
            id@ == bytes@,
    {
        Identifier { bytes }
    }

    /// A copy of this identifier.
    pub fn duplicate(&self) -> (id: Identifier)
        ensures
            id@ == self@,
    {
        Identifier { bytes: copy_bytes(&self.bytes) }
    }

    /// Whether two identifiers have the same encoding.
    pub fn same(&self, other: &Identifier) -> (r: bool)
        ensures
            r == (self@ == other@),
    {
        bytes_equal(&self.bytes, &other.bytes)
    }

    /// Whether this identifier comes before `other` in the order.
    pub fn precedes(&self, other: &Identifier) -> (r: bool)
        ensures
            r == precedes(self@, other@),
    {
        let n: usize = self.bytes.len();
        let m: usize = other.bytes.len();
        let mut i: usize = 0;
        assert(self@.take(n as int) =~= self@);
        assert(other@.take(m as int) =~= other@);
        while i < n && i < m
            invariant
                n == self.bytes@.len(),
                m == other.bytes@.len(),
                i <= n,
                i <= m,
                precedes(self@, other@) == precedes(
                    self@.take(n - i),
                    other@.take(m - i),
                ),
            decreases n - i,
        {
            let x: u8 = self.bytes[n - 1 - i];
            let y: u8 = other.bytes[m - 1 - i];
            proof {
                let a = self@.take(n - i);
                let b = other@.take(m - i);
                assert(a.last() == x);
                assert(b.last() == y);
                assert(a.drop_last() =~= self@.take(n - i - 1));
                assert(b.drop_last() =~= other@.take(m - i - 1));
            }
            if x != y {
                return x < y;
            }
            i = i + 1;
        }
        i == n && i < m
    }
}

/// A copy of a byte vector.
pub fn copy_bytes(bytes: &Vec<u8>) -> (r: Vec<u8>)
    ensures
        r@ == bytes@,
{
    let mut out: Vec<u8> = Vec::new();
    let mut i: usize = 0;
    while i < bytes.len()
        invariant
            i <= bytes@.len(),
            out@ == bytes@.take(i as int),
        decreases bytes@.len() - i,
    {
        out.push(bytes[i]);
        assert(bytes@.take(i as int).push(bytes@[i as int]) =~= bytes@.take(i + 1));
        i = i + 1;
    }
    assert(bytes@.take(bytes@.len() as int) =~= bytes@);
    out
}

/// Whether two byte vectors hold the same bytes.
pub fn bytes_equal(a: &Vec<u8>, b: &Vec<u8>) -> (r: bool)
    ensures
        r == (a@ == b@),
{
    if a.len() != b.len() {
        return false;
    }
    let mut i: usize = 0;
    while i < a.len()
        invariant
            a@.len() == b@.len(),
            i <= a@.len(),
            forall|j: int| 0 <= j < i ==> a@[j] == b@[j],
        decreases a@.len() - i,
    {
        if a[i] != b[i] {
            return false;
        }
        i = i + 1;
    }
    assert(a@ =~= b@);
    true
}

} // verus!
