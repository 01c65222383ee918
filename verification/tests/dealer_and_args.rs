use frost_ceremony::ciphersuite::Ciphersuite;
use frost_ceremony::coordinator::args::{Args, Input, MessageInput, ProcessedArgs};
use frost_ceremony::coordinator::step_1::ParticipantsConfig;
use frost_ceremony::coordinator::step_2::{request_message, step_2, CommitmentsConfig};
use frost_ceremony::coordinator::step_3::{
    aggregate_shares, print_signature, request_inputs_signature_shares, step_3, SignatureOutput,
};
use frost_ceremony::error::Error;
use frost_ceremony::identifier::Identifier;
use frost_ceremony::identifier_map::IdentifierMap;
use frost_ceremony::keys::{KeyPackage, PublicKeyPackage};
use frost_ceremony::message::Message;
use frost_ceremony::participant::Participant;
use frost_ceremony::round1::SigningCommitments;
use frost_ceremony::round2::{Signature, SignatureShare};
use frost_ceremony::signing_package::SigningPackage;
use frost_ceremony::trusted_dealer::{deal, trusted_dealer, Config};
use frost_ceremony::wire::{encode_public_key_package, encode_secret_share};

fn numbered(n: u8, width: usize) -> Identifier {
    let mut bytes = vec![0u8; width];
    bytes[0] = n;
    Identifier::new(bytes)
}

#[test]
fn the_dealer_makes_a_share_for_every_signer() {
    let mut rng = rand::thread_rng();
    for (suite, width) in [(Ciphersuite::Ed25519, 32usize), (Ciphersuite::Ed448, 57usize)] {
        let config = Config { min_signers: 2, max_signers: 3, secret: Vec::new() };
        let (shares, public) = trusted_dealer(&config, suite, &mut rng).unwrap();
        assert_eq!(shares.len(), 3);
        assert_eq!(public.verifying_shares.len(), 3);
        assert_eq!(public.verifying_key.len(), width);
        for index in 0..3 {
            let expected = numbered(index as u8 + 1, width);
            assert_eq!(shares.key_at(index), &expected);
            assert_eq!(public.verifying_shares.key_at(index), &expected);
            let share = shares.value_at(index);
            assert_eq!(share.identifier, expected);
            assert_eq!(share.signing_share.len(), width);
            assert_eq!(share.commitment.len(), 2);
            assert!(public.has_signer(&expected));
        }
        assert!(!public.has_signer(&numbered(4, width)));
    }
}

#[test]
fn the_dealer_splits_a_given_secret() {
    let mut rng = rand::thread_rng();
    let mut secret = vec![0u8; 32];
    secret[0] = 42;
    let config = Config { min_signers: 2, max_signers: 2, secret: secret.clone() };
    let (_, public) = trusted_dealer(&config, Ciphersuite::Ed25519, &mut rng).unwrap();
    let (_, again) = trusted_dealer(&config, Ciphersuite::Ed25519, &mut rng).unwrap();
    assert_eq!(public.verifying_key, again.verifying_key);
    let key = frost_ed25519::SigningKey::deserialize(&secret).unwrap();
    let expected = frost_ed25519::VerifyingKey::from(key).serialize().unwrap();
    assert_eq!(public.verifying_key, expected);
    let fresh = Config { min_signers: 2, max_signers: 2, secret: Vec::new() };
    let (_, other) = trusted_dealer(&fresh, Ciphersuite::Ed25519, &mut rng).unwrap();
    assert_ne!(other.verifying_key, public.verifying_key);
}

#[test]
fn the_dealer_refuses_what_the_scheme_refuses() {
    let mut rng = rand::thread_rng();
    let few = Config { min_signers: 1, max_signers: 3, secret: Vec::new() };
    assert!(matches!(trusted_dealer(&few, Ciphersuite::Ed25519, &mut rng), Err(Error::Crypto)));
    let more = Config { min_signers: 4, max_signers: 3, secret: Vec::new() };
    assert!(matches!(trusted_dealer(&more, Ciphersuite::Ed25519, &mut rng), Err(Error::Crypto)));
    let bad_secret = Config { min_signers: 2, max_signers: 3, secret: vec![1, 2, 3] };
    assert!(matches!(
        trusted_dealer(&bad_secret, Ciphersuite::Ed25519, &mut rng),
        Err(Error::Crypto)
    ));
}

#[test]
fn key_material_that_is_not_of_one_group_is_refused() {
    let mut rng = rand::thread_rng();
    let suite = Ciphersuite::Ed25519;
    let config = Config { min_signers: 2, max_signers: 2, secret: Vec::new() };
    let (shares, public) = trusted_dealer(&config, suite, &mut rng).unwrap();
    let text = |index: usize| String::from_utf8(encode_secret_share(suite, shares.value_at(index))).unwrap();
    let public_text = String::from_utf8(encode_public_key_package(suite, &public)).unwrap();

    let whole = match deal(&config, suite, Some((vec![text(0), text(1)], public_text.clone()))) {
        Ok(group) => group,
        Err(error) => panic!("the key material of one group is accepted, not refused with {:?}", error),
    };
    assert!(whole.0 == shares);
    assert_eq!(whole.1, public);

    assert!(matches!(deal(&config, suite, None), Err(Error::Crypto)));
    assert!(matches!(
        deal(&config, suite, Some((vec![text(0)], public_text.clone()))),
        Err(Error::Crypto)
    ));
    assert!(matches!(
        deal(&config, suite, Some((vec![text(1), text(0)], public_text.clone()))),
        Err(Error::Crypto)
    ));
    assert!(matches!(
        deal(&config, suite, Some((vec![text(0), text(0)], public_text.clone()))),
        Err(Error::Crypto)
    ));
    assert!(matches!(
        deal(&config, suite, Some((vec![text(0), "{}".to_string()], public_text.clone()))),
        Err(Error::Crypto)
    ));
    assert!(matches!(
        deal(&config, suite, Some((vec![text(0), text(1)], "{}".to_string()))),
        Err(Error::Crypto)
    ));
    let three = Config { min_signers: 2, max_signers: 3, secret: Vec::new() };
    let (_, larger) = trusted_dealer(&three, suite, &mut rng).unwrap();
    let larger_text = String::from_utf8(encode_public_key_package(suite, &larger)).unwrap();
    assert!(matches!(
        deal(&config, suite, Some((vec![text(0), text(1)], larger_text))),
        Err(Error::Crypto)
    ));
    assert!(matches!(
        deal(&three, suite, Some((vec![text(0), text(1)], public_text))),
        Err(Error::Crypto)
    ));
}

#[test]
fn a_public_key_package_reads_back_from_its_text() {
    let mut rng = rand::thread_rng();
    for suite in [Ciphersuite::Ed25519, Ciphersuite::Ed448] {
        let config = Config { min_signers: 2, max_signers: 3, secret: Vec::new() };
        let (_, public) = trusted_dealer(&config, suite, &mut rng).unwrap();
        let text = String::from_utf8(encode_public_key_package(suite, &public)).unwrap();
        assert_eq!(PublicKeyPackage::parse(suite, &text), Some(public));
        assert_eq!(PublicKeyPackage::parse(suite, &text[1..]), None);
        assert_eq!(PublicKeyPackage::parse(suite, ""), None);
    }
}

#[test]
fn the_text_of_a_public_key_package_is_what_the_scheme_writes() {
    let mut rng = rand::thread_rng();
    let (_, theirs) = frost_ed25519::keys::generate_with_dealer(
        3,
        2,
        frost_ed25519::keys::IdentifierList::Default,
        &mut rng,
    )
    .unwrap();
    let text = serde_json::to_string(&theirs).unwrap();
    let ours = PublicKeyPackage::parse(Ciphersuite::Ed25519, &text).unwrap();
    assert_eq!(
        String::from_utf8(encode_public_key_package(Ciphersuite::Ed25519, &ours)).unwrap(),
        text
    );
    let spaced = serde_json::to_string_pretty(&theirs).unwrap();
    assert_eq!(PublicKeyPackage::parse(Ciphersuite::Ed25519, &spaced), Some(ours));
}

fn ready_group() -> (String, Config) {
    let mut rng = rand::thread_rng();
    let config = Config { min_signers: 2, max_signers: 3, secret: Vec::new() };
    let (_, public) = trusted_dealer(&config, Ciphersuite::Ed25519, &mut rng).unwrap();
    (String::from_utf8(encode_public_key_package(Ciphersuite::Ed25519, &public)).unwrap(), config)
}

fn plain_args() -> Args {
    Args {
        ciphersuite: "ed25519".to_string(),
        cli: true,
        num_signers: 0,
        public_key_package: "public-key-package.json".to_string(),
        message: Vec::new(),
        signature: "".to_string(),
        ip: "0.0.0.0".to_string(),
        port: 2744,
    }
}

#[test]
fn coordinator_arguments_are_made_ready() {
    let (public_text, _) = ready_group();
    let args = plain_args();
    let input = Input {
        num_signers: " 2\n".to_string(),
        public_key_package: public_text.clone(),
        messages: vec![MessageInput::Console("48656c6c6f\n".to_string())],
    };
    let ready = ProcessedArgs::new(&args, &input).unwrap();
    assert_eq!(ready.ciphersuite, Ciphersuite::Ed25519);
    assert!(ready.cli);
    assert_eq!(ready.num_signers, 2);
    assert_eq!(ready.public_key_package.verifying_shares.len(), 3);
    assert_eq!(ready.messages, vec![b"Hello".to_vec()]);
    assert_eq!(ready.signature, "");
    assert_eq!(ready.ip, "0.0.0.0");
    assert_eq!(ready.port, 2744);

    // A number of signers on the command line is not asked for again.
    let given = Args { num_signers: 3, ..plain_args() };
    let unasked = Input { num_signers: "garbage".to_string(), ..input };
    assert_eq!(ProcessedArgs::new(&given, &unasked).unwrap().num_signers, 3);
}

#[test]
fn coordinator_arguments_that_cannot_be_read_are_a_configuration_error() {
    let (public_text, _) = ready_group();
    let good = || Input {
        num_signers: "2".to_string(),
        public_key_package: public_text.clone(),
        messages: vec![MessageInput::Console("00".to_string())],
    };
    assert!(ProcessedArgs::new(&plain_args(), &good()).is_ok());
    let refused = |args: &Args, input: &Input| {
        matches!(ProcessedArgs::new(args, input), Err(Error::Config))
    };
    assert!(refused(&Args { ciphersuite: "secp256k1".to_string(), ..plain_args() }, &good()));
    assert!(refused(&Args { ciphersuite: "ed448".to_string(), ..plain_args() }, &good()));
    assert!(refused(&plain_args(), &Input { num_signers: "two".to_string(), ..good() }));
    assert!(refused(&plain_args(), &Input { num_signers: "".to_string(), ..good() }));
    assert!(refused(&plain_args(), &Input { num_signers: "70000".to_string(), ..good() }));
    assert!(refused(&plain_args(), &Input { public_key_package: "{}".to_string(), ..good() }));
    assert!(refused(
        &plain_args(),
        &Input { messages: vec![MessageInput::Console("0".to_string())], ..good() }
    ));
    assert!(refused(&plain_args(), &Input { messages: vec![], ..good() }));
}

#[test]
fn over_sockets_a_ceremony_signs_one_message() {
    let (public_text, _) = ready_group();
    let two = |console: bool| Args {
        cli: console,
        num_signers: 2,
        message: vec!["a.bin".to_string(), "b.bin".to_string()],
        ..plain_args()
    };
    let input = Input {
        num_signers: String::new(),
        public_key_package: public_text,
        messages: vec![MessageInput::File(vec![1]), MessageInput::File(vec![2])],
    };
    assert_eq!(ProcessedArgs::new(&two(true), &input).unwrap().messages, vec![vec![1], vec![2]]);
    assert!(matches!(ProcessedArgs::new(&two(false), &input), Err(Error::Config)));
}

#[test]
fn the_signing_package_is_made_from_the_message_that_was_read() {
    let mut commitments = IdentifierMap::new();
    assert!(commitments.insert(numbered(1, 32), SigningCommitments::new(vec![1; 32], vec![2; 32])));
    let config = CommitmentsConfig { message: b"Hello".to_vec(), signer_commitments: commitments };
    let package = request_message(
        &MessageInput::Console("48656c6c6f\n".to_string()),
        config.signer_commitments,
    )
    .unwrap();
    assert_eq!(package.message, config.message);
    assert_eq!(package.signing_commitments.len(), 1);

    let (from_file, shown) =
        step_2(Ciphersuite::Ed25519, &MessageInput::File(vec![0xff, 0x00]), IdentifierMap::new()).unwrap();
    assert_eq!(from_file, SigningPackage::new(IdentifierMap::new(), &vec![0xff, 0x00]));
    assert_eq!(
        String::from_utf8(shown).unwrap(),
        "Signing Package:\n{\"header\":{\"version\":0,\"ciphersuite\":\"FROST-ED25519-SHA512-v1\"},\"signing_commitments\":{},\"message\":\"ff00\"}\n"
    );
    assert!(matches!(
        step_2(Ciphersuite::Ed25519, &MessageInput::Console("f".to_string()), IdentifierMap::new()),
        Err(Error::Config)
    ));
}

#[test]
fn the_signature_goes_to_the_console_or_to_a_file() {
    let signature = Signature { bytes: vec![0x01, 0xab, 0xff] };
    let line = SignatureOutput::Console(b"Group signature: \"01abff\"\n".to_vec());
    assert_eq!(print_signature(&"".to_string(), &signature), line);
    assert_eq!(print_signature(&"-".to_string(), &signature), line);
    assert_eq!(
        print_signature(&"out/signature.bin".to_string(), &signature),
        SignatureOutput::File { path: "out/signature.bin".to_string(), bytes: vec![0x01, 0xab, 0xff] }
    );
}

#[test]
fn the_last_step_aggregates_and_shows_the_signature() {
    let mut rng = rand::thread_rng();
    let suite = Ciphersuite::Ed25519;
    let config = Config { min_signers: 2, max_signers: 2, secret: Vec::new() };
    let (secret_shares, public) = trusted_dealer(&config, suite, &mut rng).unwrap();
    let mut participants = Vec::new();
    let mut commitments = IdentifierMap::new();
    let mut copy = IdentifierMap::new();
    for index in 0..2 {
        let text = String::from_utf8(encode_secret_share(suite, secret_shares.value_at(index))).unwrap();
        let mut participant = Participant::new(suite, KeyPackage::parse(suite, &text).unwrap());
        match participant.commit(&mut rng).unwrap() {
            Message::IdentifiedCommitments { identifier, commitments: sent } => {
                assert!(copy.insert(identifier.duplicate(), sent.duplicate()));
                assert!(commitments.insert(identifier, sent));
            }
            other => panic!("expected commitments, not {:?}", other),
        }
        participants.push(participant);
    }
    let package = SigningPackage::new(commitments, &b"Hello".to_vec());
    let mut shares: IdentifierMap<SignatureShare> = IdentifierMap::new();
    for participant in participants.iter_mut() {
        let mut listed = IdentifierMap::new();
        for index in 0..copy.len() {
            listed.insert(copy.key_at(index).duplicate(), copy.value_at(index).duplicate());
        }
        let message = Message::SigningPackage {
            signing_package: SigningPackage::new(listed, &b"Hello".to_vec()),
        };
        match participant.receive(message).unwrap() {
            Message::SignatureShare(share) => {
                assert!(shares.insert(participant.key_package().identifier.duplicate(), share));
            }
            other => panic!("expected a share, not {:?}", other),
        }
    }
    let signature = aggregate_shares(suite, &package, &shares, &public).unwrap();
    assert_eq!(signature.bytes.len(), 64);
    let config = ParticipantsConfig { commitments: copy, pub_key_package: public };
    assert_eq!(
        request_inputs_signature_shares(suite, &config, &package, &shares),
        Ok(Signature { bytes: signature.bytes.clone() })
    );
    let (again, output) = step_3(suite, &"-".to_string(), &config, &package, &shares).unwrap();
    assert_eq!(again, signature);
    assert_eq!(
        output,
        SignatureOutput::Console(
            format!("Group signature: \"{}\"\n", hex::encode(&signature.bytes)).into_bytes()
        )
    );
    // Without one of the shares the scheme refuses.
    let mut fewer: IdentifierMap<SignatureShare> = IdentifierMap::new();
    assert!(fewer.insert(shares.key_at(0).duplicate(), shares.value_at(0).duplicate()));
    assert_eq!(
        step_3(suite, &"-".to_string(), &config, &package, &fewer),
        Err(Error::Crypto)
    );
}

#[test]
fn a_group_that_cannot_be_dealt_is_refused_under_either_suite() {
    let mut rng = rand::thread_rng();
    for suite in [Ciphersuite::Ed25519, Ciphersuite::Ed448] {
        for (min, max) in [(0u16, 0u16), (1, 1), (1, 2), (2, 1), (3, 2), (0, 5)] {
            let fresh = Config { min_signers: min, max_signers: max, secret: Vec::new() };
            assert!(matches!(trusted_dealer(&fresh, suite, &mut rng), Err(Error::Crypto)));
            let mut secret = vec![0u8; suite.scalar_width()];
            secret[0] = 7;
            let given = Config { min_signers: min, max_signers: max, secret };
            assert!(matches!(trusted_dealer(&given, suite, &mut rng), Err(Error::Crypto)));
        }
        let smallest = Config { min_signers: 2, max_signers: 2, secret: Vec::new() };
        assert!(trusted_dealer(&smallest, suite, &mut rng).is_ok());
    }
}

#[test]
fn a_secret_of_another_width_is_refused() {
    let mut rng = rand::thread_rng();
    let mut narrow = vec![0u8; 32];
    narrow[0] = 7;
    let mut wide = vec![0u8; 57];
    wide[0] = 7;
    let with = |secret: &Vec<u8>| Config { min_signers: 2, max_signers: 3, secret: secret.clone() };
    assert!(trusted_dealer(&with(&narrow), Ciphersuite::Ed25519, &mut rng).is_ok());
    assert!(trusted_dealer(&with(&wide), Ciphersuite::Ed448, &mut rng).is_ok());
    assert!(matches!(
        trusted_dealer(&with(&wide), Ciphersuite::Ed25519, &mut rng),
        Err(Error::Crypto)
    ));
    assert!(matches!(
        trusted_dealer(&with(&narrow), Ciphersuite::Ed448, &mut rng),
        Err(Error::Crypto)
    ));
    assert!(matches!(
        trusted_dealer(&with(&vec![7u8; 31]), Ciphersuite::Ed25519, &mut rng),
        Err(Error::Crypto)
    ));
    assert!(matches!(
        trusted_dealer(&with(&vec![1u8; 33]), Ciphersuite::Ed25519, &mut rng),
        Err(Error::Crypto)
    ));
}
