//! The last round as the coordinator sees it: the signature.

use crate::ciphersuite::Ciphersuite;
use crate::coordinator::args::{source, spec_source, Source};
use crate::coordinator::step_1::ParticipantsConfig;
use crate::error::{Error, ErrorView};
use crate::identifier::copy_bytes;
use crate::identifier_map::{entries_of, lemma_entries_of, IdentifierMap};
use crate::keys::{PublicKeyPackage, PublicKeyPackageView};
use crate::message::package_text;
use crate::round2::{Signature, SignatureShare};
use crate::scheme::{aggregate, spec_signature};
use crate::signing_package::{SigningPackage, SigningPackageView};
use crate::wire::{
    encode_public_key_package, encode_shares, encode_signing_package, map_text,
    public_key_package_text, push_quoted_hex, push_text, quoted_hex,
};
use vstd::prelude::*;
use vstd::string::StringSliceAdditionalSpecFns;

verus! {

/// What the scheme aggregates from the shares sent for a signing package:
/// a signature, or its refusal.
pub open spec fn aggregated(
    suite: Ciphersuite,
    package: SigningPackageView,
    shares: Map<Seq<u8>, Seq<u8>>,
    public: PublicKeyPackageView,
) -> Result<Seq<u8>, ErrorView> {
    match spec_signature(
        suite,
        package_text(suite, package),
        map_text::<SignatureShare>(suite, entries_of(shares)),
        public_key_package_text(suite, entries_of(public.verifying_shares), public.verifying_key),
    ) {
        Some(signature) => Ok(signature),
        None => Err(ErrorView::Crypto),
    }
}

/// A signature or an error, by its view.
pub open spec fn signature_view(outcome: Result<Signature, Error>) -> Result<Seq<u8>, ErrorView> {
    match outcome {
        Ok(s) => Ok(s@),
        Err(e) => Err(e@),
    }
}

/// Aggregates the shares sent for `signing_package` into the signature.
/// Where the scheme refuses, no signature comes out: which share was at
/// fault is not found out.
pub fn aggregate_shares(
    suite: Ciphersuite,
    signing_package: &SigningPackage,
    shares: &IdentifierMap<SignatureShare>,
    public_key_package: &PublicKeyPackage,
) -> (outcome: Result<Signature, Error>)
    ensures
        signature_view(outcome) == aggregated(
            suite,
            signing_package@,
            shares@,
            public_key_package@,
        ),
{
    let package = encode_signing_package(suite, signing_package);
    let sent = encode_shares(suite, shares);
    let public = encode_public_key_package(suite, public_key_package);
    proof {
        use_type_invariant(&signing_package.signing_commitments);
        use_type_invariant(shares);
        use_type_invariant(&public_key_package.verifying_shares);
        lemma_entries_of(signing_package.signing_commitments.spec_entries());
        lemma_entries_of(shares.spec_entries());
        lemma_entries_of(public_key_package.verifying_shares.spec_entries());
    }
    match aggregate(suite, package.as_slice(), sent.as_slice(), public.as_slice()) {
        Some(signature) => Ok(signature),
        None => Err(Error::Crypto),
    }
}

/// Aggregates the shares that the participants sent into the signature.
pub fn request_inputs_signature_shares(
    suite: Ciphersuite,
    participants: &ParticipantsConfig,
    signing_package: &SigningPackage,
    shares: &IdentifierMap<SignatureShare>,
) -> (outcome: Result<Signature, Error>)
    ensures
        signature_view(outcome) == aggregated(
            suite,
            signing_package@,
            shares@,
            participants.pub_key_package@,
        ),
{
    aggregate_shares(suite, signing_package, shares, &participants.pub_key_package)
}

/// Where a signature goes, and in what form.
#[derive(Debug, PartialEq, Eq)]
pub enum SignatureOutput {
    /// A line for the console.
    Console(Vec<u8>),
    /// The raw signature for the file at the path.
    File { path: String, bytes: Vec<u8> },
}

/// Where a signature goes, as sequences.
pub enum SignatureOutputView {
    Console(Seq<u8>),
    File { path: Seq<char>, bytes: Seq<u8> },
}

impl View for SignatureOutput {
    type V = SignatureOutputView;

    open spec fn view(&self) -> SignatureOutputView {
        match self {
            SignatureOutput::Console(line) => SignatureOutputView::Console(line@),
            SignatureOutput::File { path, bytes } => SignatureOutputView::File {
                path: path@,
                bytes: bytes@,
            },
        }
    }
}

/// The output of a signature for a sink argument: a titled line with the
/// signature as a string of hexadecimal digits where the argument names
/// the console, the raw signature for the file where it names one.
pub open spec fn spec_print_signature(sink: Seq<char>, signature: Seq<u8>) -> SignatureOutputView {
    match spec_source(sink) {
        Source::Console => SignatureOutputView::Console(
            "Group signature: ".spec_bytes() + quoted_hex(signature) + "\n".spec_bytes(),
        ),
        Source::File => SignatureOutputView::File { path: sink, bytes: signature },
    }
}

/// The output of `group_signature` for the sink argument `sink`.
pub fn print_signature(sink: &String, group_signature: &Signature) -> (output: SignatureOutput)
    ensures
        output@ == spec_print_signature(sink@, group_signature@),
{
    match source(sink.as_str()) {
        Source::Console => {
            let mut line: Vec<u8> = Vec::new();
            push_text(&mut line, "Group signature: ");
            push_quoted_hex(&mut line, group_signature.bytes.as_slice());
            push_text(&mut line, "\n");
            assert(line@ =~= "Group signature: ".spec_bytes() + quoted_hex(group_signature@)
                + "\n".spec_bytes());
            SignatureOutput::Console(line)
        },
        Source::File => SignatureOutput::File {
            path: sink.clone(),
            bytes: copy_bytes(&group_signature.bytes),
        },
    }
}

/// Aggregates the shares that the participants sent into the signature and
/// says where it goes.
pub fn step_3(
    suite: Ciphersuite,
    sink: &String,
    participants: &ParticipantsConfig,
    signing_package: &SigningPackage,
    shares: &IdentifierMap<SignatureShare>,
) -> (outcome: Result<(Signature, SignatureOutput), Error>)
    ensures
        match outcome {
            Ok((signature, output)) => {
                &&& aggregated(suite, signing_package@, shares@, participants.pub_key_package@)
                    == Ok::<Seq<u8>, ErrorView>(signature@)
                &&& output@ == spec_print_signature(sink@, signature@)
            },
            Err(e) => aggregated(suite, signing_package@, shares@, participants.pub_key_package@)
                == Err::<Seq<u8>, ErrorView>(e@),
        },
{
    let group_signature = request_inputs_signature_shares(
        suite,
        participants,
        signing_package,
        shares,
    )?;
    let output = print_signature(sink, &group_signature);
    Ok((group_signature, output))
}

} // verus!
