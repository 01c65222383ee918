use frost_ceremony::ciphersuite::Ciphersuite;
use frost_ceremony::error::Error;
use frost_ceremony::identifier::Identifier;
use frost_ceremony::identifier_map::IdentifierMap;
use frost_ceremony::keys::KeyPackage;
use frost_ceremony::message::{encode, Message};
use frost_ceremony::participant::args::{Args, ProcessedArgs};
use frost_ceremony::participant::cli::{cli, cli_for_processed_args, round_2};
use frost_ceremony::participant::cli::Output;
use frost_ceremony::participant::comms::cli::{read_identifier, validate, CLIComms};
use frost_ceremony::participant::comms::socket::SocketComms;
use frost_ceremony::participant::comms::Comms;
use frost_ceremony::participant::{Participant, Phase};
use frost_ceremony::round1::{SigningCommitments, SigningNonces};
use frost_ceremony::round2::SignatureShare;
use frost_ceremony::signing_package::SigningPackage;
use frost_ceremony::trusted_dealer::{trusted_dealer, Config};
use frost_ceremony::wire::{encode_key_package, encode_secret_share, encode_signing_package};

fn two_key_packages() -> (KeyPackage, KeyPackage) {
    let mut rng = rand::thread_rng();
    let config = Config { min_signers: 2, max_signers: 2, secret: Vec::new() };
    let (shares, _) = trusted_dealer(&config, Ciphersuite::Ed25519, &mut rng).unwrap();
    let text = |index: usize| {
        String::from_utf8(encode_secret_share(Ciphersuite::Ed25519, shares.value_at(index))).unwrap()
    };
    (
        KeyPackage::parse(Ciphersuite::Ed25519, &text(0)).unwrap(),
        KeyPackage::parse(Ciphersuite::Ed25519, &text(1)).unwrap(),
    )
}

fn copy_of(package: &KeyPackage) -> KeyPackage {
    KeyPackage {
        identifier: package.identifier.duplicate(),
        signing_share: package.signing_share.clone(),
        verifying_share: package.verifying_share.clone(),
        verifying_key: package.verifying_key.clone(),
        min_signers: package.min_signers,
    }
}

fn sent_by(message: &Message) -> (Identifier, SigningCommitments) {
    match message {
        Message::IdentifiedCommitments { identifier, commitments } => {
            (identifier.duplicate(), commitments.duplicate())
        }
        other => panic!("expected commitments, not {:?}", other),
    }
}

fn package_of(entries: Vec<(Identifier, SigningCommitments)>, message: &[u8]) -> SigningPackage {
    let mut map = IdentifierMap::new();
    for (identifier, commitments) in entries {
        assert!(map.insert(identifier, commitments));
    }
    SigningPackage::new(map, &message.to_vec())
}

#[test]
fn a_participant_commits_once() {
    let (first, _) = two_key_packages();
    let mut rng = rand::thread_rng();
    let mut participant = Participant::new(Ciphersuite::Ed25519, copy_of(&first));
    assert_eq!(participant.phase(), Phase::Commit);
    assert!(!participant.holds_nonces());
    assert_eq!(participant.suite(), Ciphersuite::Ed25519);
    let sent = participant.commit(&mut rng).unwrap();
    let (identifier, commitments) = sent_by(&sent);
    assert_eq!(identifier, first.identifier);
    assert_eq!(commitments.hiding.len(), 32);
    assert_eq!(commitments.binding.len(), 32);
    assert_eq!(participant.phase(), Phase::AwaitPackage);
    assert!(participant.holds_nonces());
    assert_eq!(participant.commit(&mut rng), Err(Error::UnexpectedMessage));
    assert_eq!(participant.phase(), Phase::AwaitPackage);
}

#[test]
fn each_commitment_is_fresh() {
    let (first, _) = two_key_packages();
    let mut rng = rand::thread_rng();
    let mut one = Participant::new(Ciphersuite::Ed25519, copy_of(&first));
    let mut other = Participant::new(Ciphersuite::Ed25519, copy_of(&first));
    assert_ne!(one.commit(&mut rng).unwrap(), other.commit(&mut rng).unwrap());
}

#[test]
fn what_was_drawn_is_what_is_sent() {
    let (first, _) = two_key_packages();
    let mut participant = Participant::new(Ciphersuite::Ed25519, copy_of(&first));
    assert_eq!(participant.commit_with(None), Err(Error::Crypto));
    assert_eq!(participant.phase(), Phase::Commit);
    let drawn = (
        SigningNonces { bytes: vec![1, 2, 3] },
        SigningCommitments::new(vec![4; 32], vec![5; 32]),
    );
    let sent = participant.commit_with(Some(drawn)).unwrap();
    assert_eq!(
        sent,
        Message::IdentifiedCommitments {
            identifier: first.identifier.duplicate(),
            commitments: SigningCommitments::new(vec![4; 32], vec![5; 32]),
        }
    );
    assert_eq!(participant.phase(), Phase::AwaitPackage);
    let again = (
        SigningNonces { bytes: vec![9] },
        SigningCommitments::new(vec![6; 32], vec![7; 32]),
    );
    assert_eq!(participant.commit_with(Some(again)), Err(Error::UnexpectedMessage));
}

#[test]
fn a_package_with_other_commitments_is_a_mismatch_and_no_share_comes_out() {
    let (first, second) = two_key_packages();
    let mut rng = rand::thread_rng();
    let mut participant = Participant::new(Ciphersuite::Ed25519, copy_of(&first));
    let mut other = Participant::new(Ciphersuite::Ed25519, copy_of(&second));
    let (own_id, own) = sent_by(&participant.commit(&mut rng).unwrap());
    let (other_id, theirs) = sent_by(&other.commit(&mut rng).unwrap());

    let mut changed = own.duplicate();
    changed.hiding[0] ^= 1;
    let wrong = package_of(
        vec![(own_id.duplicate(), changed), (other_id.duplicate(), theirs.duplicate())],
        b"Hello",
    );
    assert_eq!(
        participant.receive(Message::SigningPackage { signing_package: wrong }),
        Err(Error::PackageMismatch)
    );
    assert_eq!(participant.phase(), Phase::AwaitPackage);
    assert!(participant.holds_nonces());

    let without = package_of(vec![(other_id.duplicate(), theirs.duplicate())], b"Hello");
    assert_eq!(
        participant.receive(Message::SigningPackage { signing_package: without }),
        Err(Error::PackageMismatch)
    );
    assert!(participant.holds_nonces());

    let right = package_of(vec![(own_id, own), (other_id, theirs)], b"Hello");
    let reply = participant.receive(Message::SigningPackage { signing_package: right }).unwrap();
    assert!(matches!(reply, Message::SignatureShare(_)));
}

#[test]
fn nonces_are_gone_after_the_share_and_nothing_is_signed_twice() {
    let (first, second) = two_key_packages();
    let mut rng = rand::thread_rng();
    let mut participant = Participant::new(Ciphersuite::Ed25519, copy_of(&first));
    let mut other = Participant::new(Ciphersuite::Ed25519, copy_of(&second));
    let (own_id, own) = sent_by(&participant.commit(&mut rng).unwrap());
    let (other_id, theirs) = sent_by(&other.commit(&mut rng).unwrap());
    let package = || {
        package_of(
            vec![
                (own_id.duplicate(), own.duplicate()),
                (other_id.duplicate(), theirs.duplicate()),
            ],
            b"Hello",
        )
    };
    let reply = participant.receive(Message::SigningPackage { signing_package: package() }).unwrap();
    match reply {
        Message::SignatureShare(share) => assert_eq!(share.share.len(), 32),
        other => panic!("expected a share, not {:?}", other),
    }
    assert_eq!(participant.phase(), Phase::Done);
    assert!(!participant.holds_nonces());
    assert_eq!(
        participant.receive(Message::SigningPackage { signing_package: package() }),
        Err(Error::UnexpectedMessage)
    );
    assert_eq!(participant.commit(&mut rng), Err(Error::UnexpectedMessage));
    assert!(!participant.holds_nonces());
}

#[test]
fn nonces_are_gone_when_the_scheme_refuses_to_sign() {
    let (first, _) = two_key_packages();
    let mut rng = rand::thread_rng();
    let mut participant = Participant::new(Ciphersuite::Ed25519, copy_of(&first));
    let (own_id, own) = sent_by(&participant.commit(&mut rng).unwrap());
    // One signer is fewer than the key package asks for.
    let alone = package_of(vec![(own_id, own)], b"Hello");
    assert_eq!(
        participant.receive(Message::SigningPackage { signing_package: alone }),
        Err(Error::Crypto)
    );
    assert_eq!(participant.phase(), Phase::Done);
    assert!(!participant.holds_nonces());
}

#[test]
fn other_messages_are_unexpected_for_a_participant() {
    let (first, _) = two_key_packages();
    let mut rng = rand::thread_rng();
    let mut participant = Participant::new(Ciphersuite::Ed25519, copy_of(&first));
    let early = package_of(vec![], b"Hello");
    assert_eq!(
        participant.receive(Message::SigningPackage { signing_package: early }),
        Err(Error::UnexpectedMessage)
    );
    assert_eq!(participant.phase(), Phase::Commit);
    let sent = participant.commit(&mut rng).unwrap();
    assert_eq!(participant.receive(sent), Err(Error::UnexpectedMessage));
    assert_eq!(
        participant.receive(Message::SignatureShare(SignatureShare::new(vec![0; 32]))),
        Err(Error::UnexpectedMessage)
    );
    assert_eq!(participant.phase(), Phase::AwaitPackage);
    assert!(participant.holds_nonces());
}

#[test]
fn a_line_that_is_no_record_changes_nothing() {
    let (first, _) = two_key_packages();
    let mut rng = rand::thread_rng();
    let mut participant = Participant::new(Ciphersuite::Ed25519, copy_of(&first));
    participant.commit(&mut rng).unwrap();
    let mut socket = SocketComms::new();
    let mut console = CLIComms::new();
    assert_eq!(round_2(&mut participant, &mut socket, "{}\n"), Err(Error::Decode));
    assert_eq!(round_2(&mut participant, &mut console, "{}\n"), Err(Error::Decode));
    assert!(participant.holds_nonces());
    // On the console the line holds the package by itself, on a socket the message.
    let package = package_of(vec![], b"");
    let bare = String::from_utf8(encode_signing_package(Ciphersuite::Ed25519, &package)).unwrap();
    assert_eq!(round_2(&mut participant, &mut socket, &bare), Err(Error::Decode));
    assert_eq!(round_2(&mut participant, &mut console, &bare), Err(Error::PackageMismatch));
    let wrapped = String::from_utf8(encode(
        Ciphersuite::Ed25519,
        &Message::SigningPackage { signing_package: package },
    ))
    .unwrap();
    assert_eq!(round_2(&mut participant, &mut console, &wrapped), Err(Error::Decode));
    assert_eq!(round_2(&mut participant, &mut socket, &wrapped), Err(Error::PackageMismatch));
    assert!(participant.holds_nonces());
    // A record with another message is out of turn on a socket.
    let share = Message::SignatureShare(SignatureShare::new(vec![0; 32]));
    let other = String::from_utf8(encode(Ciphersuite::Ed25519, &share)).unwrap();
    assert_eq!(round_2(&mut participant, &mut socket, &other), Err(Error::UnexpectedMessage));
    assert_eq!(round_2(&mut participant, &mut console, &other), Err(Error::Decode));
    // Before the commitments are out no line is taken.
    let (first_again, _) = two_key_packages();
    let mut early = Participant::new(Ciphersuite::Ed25519, first_again);
    assert_eq!(round_2(&mut early, &mut socket, &wrapped), Err(Error::UnexpectedMessage));
    assert_eq!(round_2(&mut early, &mut console, "{}"), Err(Error::UnexpectedMessage));
}

#[test]
fn the_console_reads_a_signing_package_between_white_space() {
    let mut comms = CLIComms::new();
    assert_eq!(comms.prompt(), "Enter the JSON-encoded SigningPackage:\n");
    let package = package_of(
        vec![(Identifier::new(vec![1; 32]), SigningCommitments::new(vec![2; 32], vec![3; 32]))],
        b"Hello",
    );
    let text = String::from_utf8(encode_signing_package(Ciphersuite::Ed25519, &package)).unwrap();
    let unused = SigningCommitments::new(vec![], vec![]);
    let nobody = Identifier::new(vec![]);
    assert_eq!(
        comms.get_signing_package(Ciphersuite::Ed25519, &format!("  {}\r\n", text), &unused, &nobody),
        Ok(package)
    );
    assert_eq!(
        comms.get_signing_package(Ciphersuite::Ed25519, "\n", &unused, &nobody),
        Err(Error::Decode)
    );
    let share = SignatureShare::new(vec![1; 32]);
    assert_eq!(comms.send_signature_share(Ciphersuite::Ed25519, &nobody, &share), Ok(None));
    assert_eq!(comms.send_commitments(Ciphersuite::Ed25519, &nobody, &unused), None);

    let mut socket = SocketComms::new();
    let record = socket.send_signature_share(Ciphersuite::Ed25519, &nobody, &share).unwrap().unwrap();
    let mut expected = encode(Ciphersuite::Ed25519, &Message::SignatureShare(share));
    expected.push(b'\n');
    assert_eq!(record, expected);
    let one = Identifier::new(vec![1; 32]);
    let sent = SigningCommitments::new(vec![2; 32], vec![3; 32]);
    let record = socket.send_commitments(Ciphersuite::Ed25519, &one, &sent).unwrap();
    let message = Message::IdentifiedCommitments { identifier: one, commitments: sent };
    assert_eq!(
        frost_ceremony::message::decode(Ciphersuite::Ed25519, &record[..record.len() - 1]),
        Ok(message)
    );
}

#[test]
fn an_identifier_is_read_from_hexadecimal_digits() {
    let mut one = vec![0u8; 32];
    one[0] = 1;
    let line = format!(" {}\n", hex::encode(&one));
    assert_eq!(read_identifier(Ciphersuite::Ed25519, &line), Ok(Identifier::new(one.clone())));
    assert_eq!(read_identifier(Ciphersuite::Ed448, &line), Err(Error::Decode));
    let zero = hex::encode(vec![0u8; 32]);
    assert_eq!(read_identifier(Ciphersuite::Ed25519, &zero), Err(Error::Decode));
    let not_canonical = hex::encode(vec![0xffu8; 32]);
    assert_eq!(read_identifier(Ciphersuite::Ed25519, &not_canonical), Err(Error::Decode));
    assert_eq!(read_identifier(Ciphersuite::Ed25519, "01"), Err(Error::Decode));
    assert_eq!(read_identifier(Ciphersuite::Ed25519, "xyz"), Err(Error::Decode));
    let mut wide = vec![0u8; 57];
    wide[0] = 1;
    assert_eq!(
        read_identifier(Ciphersuite::Ed448, &hex::encode(&wide)),
        Ok(Identifier::new(wide))
    );
}

#[test]
fn a_signer_joins_once_and_only_if_the_group_has_it() {
    let mut rng = rand::thread_rng();
    let config = Config { min_signers: 2, max_signers: 3, secret: Vec::new() };
    let (shares, public) = trusted_dealer(&config, Ciphersuite::Ed25519, &mut rng).unwrap();
    let first = shares.key_at(0).duplicate();
    let second = shares.key_at(1).duplicate();
    let mut stranger = vec![0u8; 32];
    stranger[0] = 77;
    let stranger = Identifier::new(stranger);
    assert_eq!(validate(first.duplicate(), &public, &[]), Ok(()));
    assert_eq!(validate(first.duplicate(), &public, &[second.duplicate()]), Ok(()));
    assert_eq!(
        validate(first.duplicate(), &public, &[second.duplicate(), first.duplicate()]),
        Err(Error::DuplicateSigner(first.duplicate()))
    );
    assert_eq!(
        validate(stranger.duplicate(), &public, &[]),
        Err(Error::UnknownSigner(stranger.duplicate()))
    );
    assert_eq!(
        validate(stranger.duplicate(), &public, &[stranger.duplicate()]),
        Err(Error::UnknownSigner(stranger))
    );
}

#[test]
fn a_key_package_is_read_from_a_share_or_from_itself() {
    let mut rng = rand::thread_rng();
    let config = Config { min_signers: 2, max_signers: 2, secret: Vec::new() };
    let (shares, public) = trusted_dealer(&config, Ciphersuite::Ed25519, &mut rng).unwrap();
    let share = shares.value_at(0);
    let share_text = String::from_utf8(encode_secret_share(Ciphersuite::Ed25519, share)).unwrap();
    let from_share = KeyPackage::parse(Ciphersuite::Ed25519, &share_text).unwrap();
    assert_eq!(from_share.identifier, share.identifier);
    assert_eq!(from_share.signing_share, share.signing_share);
    assert_eq!(from_share.verifying_key, public.verifying_key);
    assert_eq!(from_share.min_signers, 2);
    assert!(from_share.consistent_with(&public));

    let own_text = String::from_utf8(encode_key_package(Ciphersuite::Ed25519, &from_share)).unwrap();
    assert!(own_text.ends_with(",\"min_signers\":2}"));
    let from_itself = KeyPackage::parse(Ciphersuite::Ed25519, &format!(" {} \n", own_text)).unwrap();
    assert!(from_itself == from_share);

    assert!(KeyPackage::parse(Ciphersuite::Ed448, &share_text).is_none());
    assert!(KeyPackage::parse(Ciphersuite::Ed25519, "{}").is_none());

    // A share that does not agree with its commitment yields no key package.
    let other = shares.value_at(1);
    let mut mixed = frost_ceremony::keys::SecretShare {
        identifier: share.identifier.duplicate(),
        signing_share: other.signing_share.clone(),
        commitment: share.commitment.clone(),
    };
    let mixed_text = String::from_utf8(encode_secret_share(Ciphersuite::Ed25519, &mixed)).unwrap();
    assert!(KeyPackage::parse(Ciphersuite::Ed25519, &mixed_text).is_none());
    mixed.signing_share = share.signing_share.clone();
    let mended = String::from_utf8(encode_secret_share(Ciphersuite::Ed25519, &mixed)).unwrap();
    assert!(KeyPackage::parse(Ciphersuite::Ed25519, &mended) == Some(from_share));
}

#[test]
fn a_key_package_agrees_with_the_public_key_package_of_its_group_only() {
    let mut rng = rand::thread_rng();
    let config = Config { min_signers: 2, max_signers: 2, secret: Vec::new() };
    let (shares, public) = trusted_dealer(&config, Ciphersuite::Ed25519, &mut rng).unwrap();
    let (_, other_public) = trusted_dealer(&config, Ciphersuite::Ed25519, &mut rng).unwrap();
    let text = String::from_utf8(encode_secret_share(Ciphersuite::Ed25519, shares.value_at(0))).unwrap();
    let mut package = KeyPackage::parse(Ciphersuite::Ed25519, &text).unwrap();
    assert!(package.consistent_with(&public));
    assert!(!package.consistent_with(&other_public));
    package.identifier = Identifier::new(vec![9; 32]);
    assert!(!package.consistent_with(&public));
}

#[test]
fn participant_arguments_are_made_ready() {
    let (first, _) = two_key_packages();
    let text = String::from_utf8(encode_key_package(Ciphersuite::Ed25519, &first)).unwrap();
    let args = Args {
        ciphersuite: "ed25519".to_string(),
        cli: true,
        key_package: "key-package-1.json".to_string(),
        ip: "10.0.0.1".to_string(),
        port: 2745,
    };
    let ready = ProcessedArgs::new(&args, &text).unwrap();
    assert_eq!(ready.ciphersuite, Ciphersuite::Ed25519);
    assert!(ready.cli);
    assert!(ready.key_package == first);
    assert_eq!(ready.ip, "10.0.0.1");
    assert_eq!(ready.port, 2745);

    let mut rng = rand::thread_rng();
    let (participant, output) = cli_for_processed_args(ready, &mut SocketComms::new(), &mut rng).unwrap();
    assert_eq!(participant.phase(), Phase::AwaitPackage);
    let sent = frost_ceremony::message::decode(Ciphersuite::Ed25519, &output.shown).unwrap();
    assert_eq!(sent_by(&sent).0, first.identifier);
    let mut record = output.shown.clone();
    record.push(b'\n');
    assert_eq!(output, Output { shown: output.shown.clone(), sent: Some(record) });

    let unknown = Args { ciphersuite: "p256".to_string(), ..Args::default() };
    assert!(matches!(ProcessedArgs::new(&unknown, &text), Err(Error::Config)));
    assert!(matches!(ProcessedArgs::new(&args, "no key package"), Err(Error::Config)));
    assert!(matches!(
        cli(&args, "no key package", &mut CLIComms::new(), &mut rng),
        Err(Error::Config)
    ));
    let wrong_suite = Args { ciphersuite: "ed448".to_string(), ..Args::default() };
    assert!(matches!(ProcessedArgs::new(&wrong_suite, &text), Err(Error::Config)));
}

#[test]
fn commitments_that_cannot_go_on_the_wire_are_not_sent() {
    let (first, _) = two_key_packages();
    let mut participant = Participant::new(Ciphersuite::Ed25519, copy_of(&first));
    let narrow = (
        SigningNonces { bytes: vec![1] },
        SigningCommitments::new(vec![4; 32], vec![5; 31]),
    );
    assert_eq!(participant.commit_with(Some(narrow)), Err(Error::Crypto));
    assert_eq!(participant.phase(), Phase::Commit);
    assert!(!participant.holds_nonces());
    let mut other_suite = Participant::new(Ciphersuite::Ed448, copy_of(&first));
    let fitting = (
        SigningNonces { bytes: vec![1] },
        SigningCommitments::new(vec![4; 57], vec![5; 57]),
    );
    assert_eq!(other_suite.commit_with(Some(fitting)), Err(Error::Crypto));
    assert_eq!(other_suite.phase(), Phase::Commit);
}

#[test]
fn a_record_ends_with_a_newline() {
    let message = Message::SignatureShare(SignatureShare::new(vec![3; 32]));
    let text = encode(Ciphersuite::Ed25519, &message);
    let record = frost_ceremony::message::encode_record(Ciphersuite::Ed25519, &message);
    assert_eq!(record[..record.len() - 1], text[..]);
    assert_eq!(record[record.len() - 1], b'\n');
    assert_eq!(record.iter().filter(|b| **b == b'\n').count(), 1);
}

#[test]
fn commitments_have_the_width_of_the_suite() {
    let mut rng = rand::thread_rng();
    for (suite, width) in [(Ciphersuite::Ed25519, 32usize), (Ciphersuite::Ed448, 57usize)] {
        let config = Config { min_signers: 2, max_signers: 2, secret: Vec::new() };
        let (shares, _) = trusted_dealer(&config, suite, &mut rng).unwrap();
        let text = String::from_utf8(encode_secret_share(suite, shares.value_at(0))).unwrap();
        let mut participant = Participant::new(suite, KeyPackage::parse(suite, &text).unwrap());
        let (_, commitments) = sent_by(&participant.commit(&mut rng).unwrap());
        assert_eq!(commitments.hiding.len(), width);
        assert_eq!(commitments.binding.len(), width);
    }
}
