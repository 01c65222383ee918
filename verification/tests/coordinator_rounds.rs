use frost_ceremony::ciphersuite::Ciphersuite;
use frost_ceremony::coordinator::{Coordinator, Phase};
use frost_ceremony::error::Error;
use frost_ceremony::identifier::Identifier;
use frost_ceremony::identifier_map::IdentifierMap;
use frost_ceremony::keys::PublicKeyPackage;
use frost_ceremony::message::{decode, Message};
use frost_ceremony::round1::SigningCommitments;
use frost_ceremony::round2::SignatureShare;
use frost_ceremony::signing_package::SigningPackage;

fn signer(n: u8) -> Identifier {
    let mut bytes = vec![0u8; 32];
    bytes[0] = n;
    Identifier::new(bytes)
}

fn group(of: &[u8]) -> PublicKeyPackage {
    let mut shares = IdentifierMap::new();
    for n in of {
        assert!(shares.insert(signer(*n), vec![*n; 32]));
    }
    PublicKeyPackage::new(shares, vec![0xee; 32])
}

fn commitments_of(n: u8) -> SigningCommitments {
    SigningCommitments::new(vec![n; 32], vec![n + 100; 32])
}

fn commits(n: u8) -> Message {
    Message::IdentifiedCommitments { identifier: signer(n), commitments: commitments_of(n) }
}

fn share_of(n: u8) -> Message {
    Message::SignatureShare(SignatureShare::new(vec![n + 50; 32]))
}

fn fresh(n: u16) -> Coordinator {
    Coordinator::new(Ciphersuite::Ed25519, group(&[1, 2, 3]), b"Hello".to_vec(), n)
}

#[test]
fn a_fresh_coordinator_awaits_participants() {
    let coordinator = fresh(2);
    assert_eq!(coordinator.phase(), Phase::AwaitParticipants);
    assert_eq!(coordinator.commitments_collected(), 0);
    assert_eq!(coordinator.shares_collected(), 0);
    assert_eq!(coordinator.suite(), Ciphersuite::Ed25519);
    assert_eq!(coordinator.signer_at(0), None);
}

#[test]
fn the_first_round_is_complete_with_the_last_signer() {
    let mut coordinator = fresh(2);
    assert_eq!(coordinator.collect_round1(commits(3)), Ok(()));
    assert_eq!(coordinator.phase(), Phase::AwaitParticipants);
    assert_eq!(coordinator.commitments_collected(), 1);
    assert!(coordinator.has_committed(&signer(3)));
    assert!(!coordinator.has_committed(&signer(1)));
    assert_eq!(coordinator.collect_round1(commits(1)), Ok(()));
    assert_eq!(coordinator.phase(), Phase::BuildSigningPackage);
    assert_eq!(coordinator.commitments_collected(), 2);
    assert_eq!(coordinator.signer_at(0), Some(&signer(1)));
    assert_eq!(coordinator.signer_at(1), Some(&signer(3)));
    assert_eq!(coordinator.signer_at(2), None);
}

#[test]
fn an_unknown_signer_is_refused_before_anything_changes() {
    let mut coordinator = fresh(2);
    assert_eq!(coordinator.collect_round1(commits(9)), Err(Error::UnknownSigner(signer(9))));
    assert_eq!(coordinator.phase(), Phase::AwaitParticipants);
    assert_eq!(coordinator.commitments_collected(), 0);
    assert!(!coordinator.has_committed(&signer(9)));
    assert_eq!(coordinator.collect_round1(commits(1)), Ok(()));
    assert_eq!(coordinator.collect_round1(commits(2)), Ok(()));
    assert_eq!(coordinator.phase(), Phase::BuildSigningPackage);
}

#[test]
fn a_duplicate_signer_is_refused_and_the_accumulator_stays() {
    let mut coordinator = fresh(3);
    assert_eq!(coordinator.collect_round1(commits(1)), Ok(()));
    let again = Message::IdentifiedCommitments {
        identifier: signer(1),
        commitments: SigningCommitments::new(vec![0xaa; 32], vec![0xbb; 32]),
    };
    assert_eq!(coordinator.collect_round1(again), Err(Error::DuplicateSigner(signer(1))));
    assert_eq!(coordinator.commitments_collected(), 1);
    assert_eq!(coordinator.phase(), Phase::AwaitParticipants);
    let mut kept = IdentifierMap::new();
    assert!(kept.insert(signer(1), commitments_of(1)));
    assert_eq!(coordinator.signing_package(), &SigningPackage::new(kept, &b"Hello".to_vec()));
}

#[test]
fn other_messages_are_unexpected_in_the_first_round() {
    let mut coordinator = fresh(2);
    assert_eq!(coordinator.collect_round1(share_of(1)), Err(Error::UnexpectedMessage));
    let package = Message::SigningPackage {
        signing_package: SigningPackage::new(IdentifierMap::new(), &vec![]),
    };
    assert_eq!(coordinator.collect_round1(package), Err(Error::UnexpectedMessage));
    assert_eq!(coordinator.collect_round3(signer(1), share_of(1)), Err(Error::UnexpectedMessage));
    assert!(matches!(coordinator.build_signing_package(), Err(Error::UnexpectedMessage)));
    assert!(matches!(coordinator.aggregate(), Err(Error::UnexpectedMessage)));
    assert_eq!(coordinator.phase(), Phase::AwaitParticipants);
    assert_eq!(coordinator.commitments_collected(), 0);
}

#[test]
fn commitments_after_the_first_round_are_unexpected() {
    let mut coordinator = fresh(1);
    assert_eq!(coordinator.collect_round1(commits(1)), Ok(()));
    assert_eq!(coordinator.phase(), Phase::BuildSigningPackage);
    assert_eq!(coordinator.collect_round1(commits(2)), Err(Error::UnexpectedMessage));
    assert_eq!(coordinator.commitments_collected(), 1);
}

#[test]
fn the_signing_package_is_issued_once() {
    let mut coordinator = fresh(2);
    coordinator.collect_round1(commits(2)).unwrap();
    coordinator.collect_round1(commits(1)).unwrap();
    let text = coordinator.build_signing_package().unwrap();
    assert_eq!(coordinator.phase(), Phase::AwaitShares);
    let mut listed = IdentifierMap::new();
    assert!(listed.insert(signer(1), commitments_of(1)));
    assert!(listed.insert(signer(2), commitments_of(2)));
    let expected = Message::SigningPackage {
        signing_package: SigningPackage::new(listed, &b"Hello".to_vec()),
    };
    assert_eq!(decode(Ciphersuite::Ed25519, &text), Ok(expected));
    assert!(matches!(coordinator.build_signing_package(), Err(Error::UnexpectedMessage)));
    assert_eq!(coordinator.phase(), Phase::AwaitShares);
}

#[test]
fn the_signing_package_does_not_depend_on_the_order_of_arrival() {
    let orders: [[u8; 3]; 6] = [[1, 2, 3], [1, 3, 2], [2, 1, 3], [2, 3, 1], [3, 1, 2], [3, 2, 1]];
    let mut texts = Vec::new();
    for order in orders {
        let mut coordinator = fresh(3);
        for n in order {
            coordinator.collect_round1(commits(n)).unwrap();
        }
        texts.push(coordinator.build_signing_package().unwrap());
    }
    for text in &texts {
        assert_eq!(text, &texts[0]);
    }
}

#[test]
fn shares_are_taken_from_signers_that_committed() {
    let mut coordinator = fresh(2);
    coordinator.collect_round1(commits(1)).unwrap();
    coordinator.collect_round1(commits(3)).unwrap();
    coordinator.build_signing_package().unwrap();
    assert_eq!(
        coordinator.collect_round3(signer(2), share_of(2)),
        Err(Error::UnknownSigner(signer(2)))
    );
    assert_eq!(coordinator.collect_round3(signer(3), commits(3)), Err(Error::UnexpectedMessage));
    assert_eq!(coordinator.collect_round3(signer(3), share_of(3)), Ok(()));
    assert_eq!(coordinator.shares_collected(), 1);
    assert_eq!(
        coordinator.collect_round3(signer(3), share_of(3)),
        Err(Error::DuplicateSigner(signer(3)))
    );
    assert_eq!(coordinator.shares_collected(), 1);
    assert_eq!(coordinator.phase(), Phase::AwaitShares);
    assert!(matches!(coordinator.aggregate(), Err(Error::UnexpectedMessage)));
    assert_eq!(coordinator.collect_round3(signer(1), share_of(1)), Ok(()));
    assert_eq!(coordinator.phase(), Phase::Aggregate);
    assert_eq!(coordinator.collect_round3(signer(1), share_of(1)), Err(Error::UnexpectedMessage));
}

#[test]
fn shares_that_the_scheme_refuses_end_the_ceremony() {
    let mut coordinator = fresh(2);
    coordinator.collect_round1(commits(1)).unwrap();
    coordinator.collect_round1(commits(2)).unwrap();
    coordinator.build_signing_package().unwrap();
    coordinator.collect_round3(signer(1), share_of(1)).unwrap();
    coordinator.collect_round3(signer(2), share_of(2)).unwrap();
    assert!(matches!(coordinator.aggregate(), Err(Error::Crypto)));
    assert_eq!(coordinator.phase(), Phase::Abort);
    assert!(matches!(coordinator.aggregate(), Err(Error::UnexpectedMessage)));
}

#[test]
fn a_ceremony_without_signers_goes_straight_to_aggregation() {
    let mut coordinator = fresh(0);
    assert_eq!(coordinator.phase(), Phase::BuildSigningPackage);
    assert_eq!(coordinator.collect_round1(commits(1)), Err(Error::UnexpectedMessage));
    coordinator.build_signing_package().unwrap();
    assert_eq!(coordinator.phase(), Phase::Aggregate);
    assert!(matches!(coordinator.aggregate(), Err(Error::Crypto)));
    assert_eq!(coordinator.phase(), Phase::Abort);
}

#[test]
fn waiting_ends_with_a_timeout() {
    let mut coordinator = fresh(2);
    assert_eq!(coordinator.expire(), Err(Error::Timeout));
    assert_eq!(coordinator.phase(), Phase::Abort);
    assert_eq!(coordinator.expire(), Ok(()));
    assert_eq!(coordinator.collect_round1(commits(1)), Err(Error::UnexpectedMessage));

    let mut coordinator = fresh(1);
    coordinator.collect_round1(commits(1)).unwrap();
    assert_eq!(coordinator.expire(), Ok(()));
    assert_eq!(coordinator.phase(), Phase::BuildSigningPackage);
    coordinator.build_signing_package().unwrap();
    assert_eq!(coordinator.expire(), Err(Error::Timeout));
    assert_eq!(coordinator.phase(), Phase::Abort);
}

#[test]
fn a_ceremony_can_be_given_up_at_any_time() {
    let mut coordinator = fresh(2);
    coordinator.collect_round1(commits(1)).unwrap();
    coordinator.abort();
    assert_eq!(coordinator.phase(), Phase::Abort);
    assert_eq!(coordinator.commitments_collected(), 1);
    assert_eq!(coordinator.collect_round1(commits(2)), Err(Error::UnexpectedMessage));
}

#[test]
fn commitments_that_have_not_the_width_of_the_suite_are_refused() {
    let mut coordinator = fresh(2);
    let narrow = Message::IdentifiedCommitments {
        identifier: signer(1),
        commitments: SigningCommitments::new(vec![1; 31], vec![2; 32]),
    };
    assert_eq!(coordinator.collect_round1(narrow), Err(Error::Decode));
    let wide = Message::IdentifiedCommitments {
        identifier: signer(1),
        commitments: SigningCommitments::new(vec![1; 32], vec![2; 57]),
    };
    assert_eq!(coordinator.collect_round1(wide), Err(Error::Decode));
    assert_eq!(coordinator.commitments_collected(), 0);
    assert_eq!(coordinator.collect_round1(commits(1)), Ok(()));
    // What the coordinator issues reads back whatever was collected.
    assert_eq!(coordinator.collect_round1(commits(2)), Ok(()));
    let text = coordinator.build_signing_package().unwrap();
    assert!(decode(Ciphersuite::Ed25519, &text).is_ok());
}
