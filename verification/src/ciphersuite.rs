//! The two groups a ceremony can run over.

use vstd::prelude::*;
use vstd::string::StringSliceAdditionalSpecFns;

verus! {

/// The group and hash that fix every encoding of a ceremony.
#[derive(Clone, Copy, Debug, PartialEq, Eq, Structural)]
pub enum Ciphersuite {
    Ed25519,
    Ed448,
}

impl Ciphersuite {
    /// The width in bytes of an encoded scalar.
    pub open spec fn scalar_len(self) -> nat {
        match self {
            Ciphersuite::Ed25519 => 32,
            Ciphersuite::Ed448 => 57,
        }
    }

    /// The width in bytes of an encoded group element.
    pub open spec fn element_len(self) -> nat {
        match self {
            Ciphersuite::Ed25519 => 32,
            Ciphersuite::Ed448 => 57,
        }
    }

    /// The name that the encodings of this suite carry in their header.
    pub open spec fn spec_id(self) -> Seq<u8> {
        match self {
            Ciphersuite::Ed25519 => "FROST-ED25519-SHA512-v1".spec_bytes(),
            Ciphersuite::Ed448 => "FROST-ED448-SHAKE256-v1".spec_bytes(),
        }
    }

    /// The suite that a command-line name selects.
    pub open spec fn spec_from_name(name: Seq<char>) -> Option<Ciphersuite> {
        if name == "ed25519"@ {
            Some(Ciphersuite::Ed25519)
        } else if name == "ed448"@ {
            Some(Ciphersuite::Ed448)
        } else {
            None
        }
    }

    /// The suite named `name`: `ed25519` or `ed448`, and no other.
    pub fn from_name(name: &str) -> (suite: Option<Ciphersuite>)
        ensures
            suite == Self::spec_from_name(name@),
    {
        if text_equal(name, "ed25519") {
            Some(Ciphersuite::Ed25519)
        } else if text_equal(name, "ed448") {
            Some(Ciphersuite::Ed448)
        } else {
            None
        }
    }

    /// The width in bytes of an encoded scalar.
    pub fn scalar_width(self) -> (n: usize)
        ensures
            n == self.scalar_len(),
    {
        match self {
            Ciphersuite::Ed25519 => 32,
            Ciphersuite::Ed448 => 57,
        }
    }

    /// The width in bytes of an encoded group element.
    pub fn element_width(self) -> (n: usize)
        ensures
            n == self.element_len(),
    {
        match self {
            Ciphersuite::Ed25519 => 32,
            Ciphersuite::Ed448 => 57,
        }
    }

    /// The name that the encodings of this suite carry in their header.
    pub fn id(self) -> (name: &'static str)
        ensures
            name.spec_bytes() == self.spec_id(),
    {
        match self {
            Ciphersuite::Ed25519 => "FROST-ED25519-SHA512-v1",
            Ciphersuite::Ed448 => "FROST-ED448-SHAKE256-v1",
        }
    }
}

/// Whether two texts hold the same characters.
pub fn text_equal(a: &str, b: &str) -> (r: bool)
    ensures
        r == (a@ == b@),
{
    let x = a.as_bytes();
    let y = b.as_bytes();
    proof {
        vstd::utf8::encode_utf8_decode_utf8(a@);
        vstd::utf8::encode_utf8_decode_utf8(b@);
    }
    if x.len() != y.len() {
        return false;
    }
    let mut i: usize = 0;
    while i < x.len()
        invariant
            x@.len() == y@.len(),
            x@ == a.spec_bytes(),
            y@ == b.spec_bytes(),
            i <= x@.len(),
            forall|j: int| 0 <= j < i ==> x@[j] == y@[j],
        decreases x@.len() - i,
    {
        if x[i] != y[i] {
            return false;
        }
        i = i + 1;
    }
    assert(x@ =~= y@);
    true
}

} // verus!
