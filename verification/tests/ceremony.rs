use frost_ceremony::ciphersuite::Ciphersuite;
use frost_ceremony::coordinator::args::{Args, Input, MessageInput, ProcessedArgs};
use frost_ceremony::coordinator::comms::cli::CLIComms;
use frost_ceremony::coordinator::comms::Comms;
use frost_ceremony::coordinator::comms::socket::Sessions;
use frost_ceremony::coordinator::step_3::{print_signature, SignatureOutput};
use frost_ceremony::coordinator::{Coordinator, Phase};
use frost_ceremony::error::Error;
use frost_ceremony::keys::{KeyPackage, PublicKeyPackage, SecretShare};
use frost_ceremony::participant::cli::{cli, round_2};
use frost_ceremony::participant::comms::socket::SocketComms;
use frost_ceremony::participant::Participant;
use frost_ceremony::round2::Signature;
use frost_ceremony::trusted_dealer::{trusted_dealer, Config};
use frost_ceremony::wire::{encode_public_key_package, encode_secret_share};

struct Group {
    suite: Ciphersuite,
    name: &'static str,
    shares: Vec<SecretShare>,
    public: PublicKeyPackage,
    public_text: String,
}

fn dealt(suite: Ciphersuite, name: &'static str, max: u16, min: u16) -> Group {
    let mut rng = rand::thread_rng();
    let config = Config { min_signers: min, max_signers: max, secret: Vec::new() };
    let (map, public) = trusted_dealer(&config, suite, &mut rng).unwrap();
    let mut shares = Vec::new();
    for index in 0..map.len() {
        let share = map.value_at(index);
        shares.push(SecretShare {
            identifier: share.identifier.duplicate(),
            signing_share: share.signing_share.clone(),
            commitment: share.commitment.clone(),
        });
    }
    let public_text = String::from_utf8(encode_public_key_package(suite, &public)).unwrap();
    Group { suite, name, shares, public, public_text }
}

fn share_text(group: &Group, index: usize) -> String {
    String::from_utf8(encode_secret_share(group.suite, &group.shares[index])).unwrap()
}

fn participant_args(group: &Group, console: bool) -> frost_ceremony::participant::args::Args {
    frost_ceremony::participant::args::Args {
        ciphersuite: group.name.to_string(),
        cli: console,
        key_package: "-".to_string(),
        ip: "127.0.0.1".to_string(),
        port: 2744,
    }
}

fn coordinator_args(group: &Group, console: bool, signature: &str) -> ProcessedArgs {
    let args = Args {
        ciphersuite: group.name.to_string(),
        cli: console,
        num_signers: 2,
        public_key_package: "public-key-package.json".to_string(),
        message: vec!["-".to_string()],
        signature: signature.to_string(),
        ip: "127.0.0.1".to_string(),
        port: 2744,
    };
    let input = Input {
        num_signers: String::new(),
        public_key_package: format!("{}\n", group.public_text),
        messages: vec![MessageInput::Console("48656c6c6f\n".to_string())],
    };
    ProcessedArgs::new(&args, &input).unwrap()
}

fn verifies_ed25519(group: &Group, message: &[u8], signature: &Signature) -> bool {
    let key = frost_ed25519::VerifyingKey::deserialize(&group.public.verifying_key).unwrap();
    match frost_ed25519::Signature::deserialize(&signature.bytes) {
        Ok(parsed) => key.verify(message, &parsed).is_ok(),
        Err(_) => false,
    }
}

fn verifies_ed448(group: &Group, message: &[u8], signature: &Signature) -> bool {
    let key = frost_ed448::VerifyingKey::deserialize(&group.public.verifying_key).unwrap();
    match frost_ed448::Signature::deserialize(&signature.bytes) {
        Ok(parsed) => key.verify(message, &parsed).is_ok(),
        Err(_) => false,
    }
}

fn over_the_console(group: &Group, signers: [usize; 2]) -> (Signature, SignatureOutput) {
    let pargs = coordinator_args(group, true, "");
    assert_eq!(pargs.num_signers, 2);
    assert_eq!(pargs.messages, vec![b"Hello".to_vec()]);
    let sink = pargs.signature.clone();
    let mut coordinator = Coordinator::new(
        pargs.ciphersuite,
        pargs.public_key_package,
        pargs.messages[0].clone(),
        pargs.num_signers,
    );
    let mut console = CLIComms::new();
    let mut rng = rand::thread_rng();
    let mut participants: Vec<Participant> = Vec::new();
    for index in signers {
        let mut screen = frost_ceremony::participant::comms::cli::CLIComms::new();
        let (participant, output) =
            cli(&participant_args(group, true), &share_text(group, index), &mut screen, &mut rng)
                .unwrap();
        assert_eq!(output.sent, None);
        let pasted = String::from_utf8(output.shown).unwrap() + "\n";
        console.get_signing_commitments(&mut coordinator, 0, &pasted).unwrap();
        participants.push(participant);
    }
    assert_eq!(coordinator.phase(), Phase::BuildSigningPackage);
    let shown = console.send_signing_package(&mut coordinator).unwrap();
    assert_eq!(coordinator.phase(), Phase::AwaitShares);
    let shown = String::from_utf8(shown).unwrap();
    let pasted = shown.strip_prefix("Signing Package:\n").unwrap().to_string();
    // Shares are asked for in identifier order.
    participants.sort_by(|a, b| {
        let a = &a.key_package().identifier;
        let b = &b.key_package().identifier;
        if a.precedes(b) {
            std::cmp::Ordering::Less
        } else if b.precedes(a) {
            std::cmp::Ordering::Greater
        } else {
            std::cmp::Ordering::Equal
        }
    });
    for participant in participants.iter_mut() {
        let mut screen = frost_ceremony::participant::comms::cli::CLIComms::new();
        let output = round_2(participant, &mut screen, &pasted).unwrap();
        assert!(!participant.holds_nonces());
        assert_eq!(output.sent, None);
        let line = String::from_utf8(output.shown).unwrap() + "\n";
        console.get_signature_shares(&mut coordinator, 0, &line).unwrap();
    }
    assert_eq!(coordinator.phase(), Phase::Aggregate);
    let signature = coordinator.aggregate().unwrap();
    assert_eq!(coordinator.phase(), Phase::Done);
    let output = print_signature(&sink, &signature);
    (signature, output)
}

#[test]
fn two_of_three_over_the_console_sign_hello() {
    let group = dealt(Ciphersuite::Ed25519, "ed25519", 3, 2);
    let (signature, output) = over_the_console(&group, [0, 1]);
    assert_eq!(signature.bytes.len(), 64);
    assert!(verifies_ed25519(&group, b"Hello", &signature));
    assert!(!verifies_ed25519(&group, b"hello", &signature));
    let expected = format!("Group signature: \"{}\"\n", hex::encode(&signature.bytes));
    assert_eq!(output, SignatureOutput::Console(expected.into_bytes()));
}

#[test]
fn any_two_of_three_can_sign() {
    let group = dealt(Ciphersuite::Ed25519, "ed25519", 3, 2);
    for signers in [[0, 2], [2, 1], [1, 0]] {
        let (signature, _) = over_the_console(&group, signers);
        assert!(verifies_ed25519(&group, b"Hello", &signature));
    }
}

#[test]
fn two_of_three_over_ed448_sign_hello() {
    let group = dealt(Ciphersuite::Ed448, "ed448", 3, 2);
    let (signature, _) = over_the_console(&group, [0, 1]);
    assert_eq!(signature.bytes.len(), 114);
    assert!(verifies_ed448(&group, b"Hello", &signature));
}

struct Socket {
    coordinator: Coordinator,
    sessions: Sessions,
    participants: Vec<(u64, Participant)>,
    sink: String,
}

fn connected(group: &Group, signers: [usize; 2]) -> Socket {
    let pargs = coordinator_args(group, false, "signature_out.bin");
    let sink = pargs.signature.clone();
    let mut coordinator = Coordinator::new(
        pargs.ciphersuite,
        pargs.public_key_package,
        pargs.messages[0].clone(),
        pargs.num_signers,
    );
    let mut sessions = Sessions::new(pargs.num_signers);
    let mut rng = rand::thread_rng();
    let mut participants = Vec::new();
    for (n, index) in signers.iter().enumerate() {
        let connection = 40 + n as u64;
        assert!(sessions.accept(connection));
        let (participant, output) = cli(
            &participant_args(group, false),
            &share_text(group, *index),
            &mut SocketComms::new(),
            &mut rng,
        )
        .unwrap();
        let line = String::from_utf8(output.sent.unwrap()).unwrap();
        assert!(line.ends_with('\n'));
        sessions.get_signing_commitments(&mut coordinator, connection, &line).unwrap();
        participants.push((connection, participant));
    }
    Socket { coordinator, sessions, participants, sink }
}

#[test]
fn two_of_three_over_sockets_write_a_signature_of_64_bytes() {
    let group = dealt(Ciphersuite::Ed25519, "ed25519", 3, 2);
    let mut socket = connected(&group, [1, 2]);
    assert!(!socket.sessions.accept(99));
    let broadcast = socket.sessions.send_signing_package(&mut socket.coordinator).unwrap();
    let broadcast = String::from_utf8(broadcast).unwrap();
    assert!(broadcast.ends_with('\n'));
    // The participants answer in the reverse order of their connecting.
    for (connection, participant) in socket.participants.iter_mut().rev() {
        let output = round_2(participant, &mut SocketComms::new(), &broadcast).unwrap();
        let line = String::from_utf8(output.sent.unwrap()).unwrap();
        socket.sessions.get_signature_shares(&mut socket.coordinator, *connection, &line).unwrap();
    }
    let signature = socket.coordinator.aggregate().unwrap();
    assert!(verifies_ed25519(&group, b"Hello", &signature));
    match print_signature(&socket.sink, &signature) {
        SignatureOutput::File { path, bytes } => {
            assert_eq!(path, "signature_out.bin");
            assert_eq!(bytes.len(), 64);
            assert_eq!(bytes, signature.bytes);
        }
        other => panic!("the signature goes to the file, not to {:?}", other),
    }
}

#[test]
fn a_share_changed_in_transit_makes_aggregation_fail() {
    let group = dealt(Ciphersuite::Ed25519, "ed25519", 3, 2);
    let mut socket = connected(&group, [0, 1]);
    let broadcast = socket.sessions.send_signing_package(&mut socket.coordinator).unwrap();
    let broadcast = String::from_utf8(broadcast).unwrap();
    let mut first = true;
    for (connection, participant) in socket.participants.iter_mut() {
        let output = round_2(participant, &mut SocketComms::new(), &broadcast).unwrap();
        let mut line = String::from_utf8(output.sent.unwrap()).unwrap();
        if first {
            // Flip one bit of the first byte of the share.
            let at = line.find("\"share\":\"").unwrap() + "\"share\":\"".len() + 1;
            let digit = line.as_bytes()[at];
            let flipped = if digit == b'0' { '1' } else { '0' };
            line.replace_range(at..at + 1, &flipped.to_string());
            first = false;
        }
        socket.sessions.get_signature_shares(&mut socket.coordinator, *connection, &line).unwrap();
    }
    assert_eq!(socket.coordinator.phase(), Phase::Aggregate);
    assert!(matches!(socket.coordinator.aggregate(), Err(Error::Crypto)));
    assert_eq!(socket.coordinator.phase(), Phase::Abort);
    assert_ne!(Error::Crypto.exit_code(), 0);
}

#[test]
fn the_signature_does_not_depend_on_the_order_of_the_shares() {
    let group = dealt(Ciphersuite::Ed25519, "ed25519", 3, 3);
    let mut rng = rand::thread_rng();
    let mut participants = Vec::new();
    let mut commitments = Vec::new();
    for index in 0..3 {
        let key_package = KeyPackage::parse(group.suite, &share_text(&group, index)).unwrap();
        let mut participant = Participant::new(group.suite, key_package);
        commitments.push(frost_ceremony::message::encode(
            group.suite,
            &participant.commit(&mut rng).unwrap(),
        ));
        participants.push(participant);
    }
    let public = || PublicKeyPackage::parse(group.suite, &group.public_text).unwrap();
    let mut first = Coordinator::new(group.suite, public(), b"Hello".to_vec(), 3);
    let mut second = Coordinator::new(group.suite, public(), b"Hello".to_vec(), 3);
    for index in [0usize, 1, 2] {
        let message = frost_ceremony::message::decode(group.suite, &commitments[index]).unwrap();
        first.collect_round1(message).unwrap();
    }
    for index in [2usize, 0, 1] {
        let message = frost_ceremony::message::decode(group.suite, &commitments[index]).unwrap();
        second.collect_round1(message).unwrap();
    }
    let broadcast = first.build_signing_package().unwrap();
    assert_eq!(second.build_signing_package().unwrap(), broadcast);
    let broadcast = String::from_utf8(broadcast).unwrap();
    let mut shares = Vec::new();
    for participant in participants.iter_mut() {
        shares.push(round_2(participant, &mut SocketComms::new(), &broadcast).unwrap().shown);
    }
    for index in [0usize, 1, 2] {
        let message = frost_ceremony::message::decode(group.suite, &shares[index]).unwrap();
        first
            .collect_round3(participants[index].key_package().identifier.duplicate(), message)
            .unwrap();
    }
    for index in [1usize, 2, 0] {
        let message = frost_ceremony::message::decode(group.suite, &shares[index]).unwrap();
        second
            .collect_round3(participants[index].key_package().identifier.duplicate(), message)
            .unwrap();
    }
    let one = first.aggregate().unwrap();
    let other = second.aggregate().unwrap();
    assert_eq!(one, other);
    assert!(verifies_ed25519(&group, b"Hello", &one));
}

#[test]
fn with_fewer_signers_than_asked_for_the_ceremony_does_not_complete() {
    let group = dealt(Ciphersuite::Ed25519, "ed25519", 3, 2);
    let mut rng = rand::thread_rng();
    let pargs = coordinator_args(&group, true, "-");
    let mut coordinator = Coordinator::new(
        pargs.ciphersuite,
        pargs.public_key_package,
        pargs.messages[0].clone(),
        pargs.num_signers,
    );
    let (_, output) = cli(
        &participant_args(&group, true),
        &share_text(&group, 0),
        &mut frost_ceremony::participant::comms::cli::CLIComms::new(),
        &mut rng,
    )
    .unwrap();
    let mut console = CLIComms::new();
    console
        .get_signing_commitments(&mut coordinator, 0, &String::from_utf8(output.shown).unwrap())
        .unwrap();
    assert_eq!(coordinator.phase(), Phase::AwaitParticipants);
    assert!(matches!(coordinator.build_signing_package(), Err(Error::UnexpectedMessage)));
    assert!(matches!(coordinator.aggregate(), Err(Error::UnexpectedMessage)));
    assert_eq!(coordinator.expire(), Err(Error::Timeout));
    assert!(matches!(coordinator.aggregate(), Err(Error::UnexpectedMessage)));
}
