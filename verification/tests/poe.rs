use chain_apps::origin::Origin;
use chain_apps::poe::{Poe, PoeError, PoeEvent};

const USER: u64 = 0;
const MAX_CLAIM_LENGTH: u8 = 64;
const BLOCK_NUMBER: u64 = 0;

fn new_registry() -> Poe {
    Poe::new(MAX_CLAIM_LENGTH)
}

#[test]
fn it_works_for_create_poe() {
    let mut poe = new_registry();
    let claim = vec![0, 1];
    assert_eq!(poe.create_claim(Origin::signed(1), claim.clone(), BLOCK_NUMBER), Ok(()));
    assert_eq!(poe.proofs(&claim), (1, BLOCK_NUMBER));
}

#[test]
fn claim_exist_test() {
    let mut poe = new_registry();
    let claim = vec![0, 1];
    let _ = poe.create_claim(Origin::signed(1), claim.clone(), BLOCK_NUMBER);
    let events_before = poe.events().len();
    assert_eq!(
        poe.create_claim(Origin::signed(2), claim.clone(), BLOCK_NUMBER),
        Err(PoeError::ProofAlreadyClaimed)
    );
    assert_eq!(poe.proofs(&claim), (1, BLOCK_NUMBER));
    assert_eq!(poe.events().len(), events_before);
}

#[test]
fn it_works_for_revoke_poe() {
    let mut poe = new_registry();
    let claim = vec![0, 1];
    let _ = poe.create_claim(Origin::signed(1), claim.clone(), BLOCK_NUMBER);
    assert_eq!(poe.revoke_claim(Origin::signed(1), claim.clone()), Ok(()));
}

#[test]
fn revoke_nonexist_poe() {
    let mut poe = new_registry();
    let claim = vec![0, 1];
    assert_eq!(poe.revoke_claim(Origin::signed(1), claim.clone()), Err(PoeError::NoSuchProof));
    assert!(poe.events().is_empty());
}

#[test]
fn auth_revoke_poe() {
    let mut poe = new_registry();
    let claim = vec![0, 1];
    let _ = poe.create_claim(Origin::signed(1), claim.clone(), BLOCK_NUMBER);
    assert_eq!(poe.revoke_claim(Origin::signed(2), claim.clone()), Err(PoeError::NotProofOwner));
    assert_eq!(poe.proofs(&claim), (1, BLOCK_NUMBER));
}

#[test]
fn transfer_poe_works() {
    let mut poe = new_registry();
    let claim = vec![0, 1];
    let _ = poe.create_claim(Origin::signed(1), claim.clone(), BLOCK_NUMBER);
    let _ = poe.transfer_claim(Origin::signed(1), claim.clone(), USER, BLOCK_NUMBER);
    assert_eq!(poe.revoke_claim(Origin::signed(1), claim.clone()), Err(PoeError::NotProofOwner));
}

#[test]
fn long_poe_should_not_work() {
    let mut poe = new_registry();
    let mut vec = vec![];
    let count: u64 = 65;
    let mut n = 0;
    while n < count {
        vec.push(1);
        n += 1;
    }
    assert_eq!(poe.create_claim(Origin::signed(1), vec, BLOCK_NUMBER), Err(PoeError::ClaimTooLong));
    assert!(poe.events().is_empty());
}

#[test]
fn claim_of_maximal_length_is_accepted() {
    let mut poe = new_registry();
    let claim = vec![7u8; 64];
    assert_eq!(poe.create_claim(Origin::signed(3), claim.clone(), 5), Ok(()));
    assert_eq!(poe.proofs(&claim), (3, 5));
}

#[test]
fn unsigned_calls_are_refused() {
    let mut poe = new_registry();
    let claim = vec![0, 1];
    assert_eq!(poe.create_claim(Origin::Unsigned, claim.clone(), 1), Err(PoeError::BadOrigin));
    assert_eq!(poe.create_claim(Origin::Root, claim.clone(), 1), Err(PoeError::BadOrigin));
    let _ = poe.create_claim(Origin::signed(1), claim.clone(), 1);
    assert_eq!(poe.revoke_claim(Origin::Root, claim.clone()), Err(PoeError::BadOrigin));
    assert_eq!(poe.transfer_claim(Origin::Unsigned, claim.clone(), 2, 1), Err(PoeError::BadOrigin));
}

#[test]
fn create_then_revoke_restores_claims() {
    let mut poe = new_registry();
    let claim = vec![9, 9, 9];
    let other = vec![1];
    let _ = poe.create_claim(Origin::signed(4), other.clone(), 1);
    assert_eq!(poe.create_claim(Origin::signed(1), claim.clone(), 2), Ok(()));
    assert_eq!(poe.revoke_claim(Origin::signed(1), claim.clone()), Ok(()));
    assert_eq!(poe.proofs(&claim), (0, 0));
    assert_eq!(poe.proofs(&other), (4, 1));
    // a revoked proof can be claimed again
    assert_eq!(poe.create_claim(Origin::signed(2), claim.clone(), 3), Ok(()));
    assert_eq!(poe.proofs(&claim), (2, 3));
}

#[test]
fn transfer_moves_claim_and_reports() {
    let mut poe = new_registry();
    let claim = vec![0, 1];
    let _ = poe.create_claim(Origin::signed(1), claim.clone(), 1);
    assert_eq!(poe.transfer_claim(Origin::signed(2), claim.clone(), 3, 2), Err(PoeError::NotProofOwner));
    assert_eq!(poe.transfer_claim(Origin::signed(1), vec![5], 3, 2), Err(PoeError::NoSuchProof));
    assert_eq!(poe.transfer_claim(Origin::signed(1), claim.clone(), 3, 7), Ok(()));
    assert_eq!(poe.proofs(&claim), (3, 7));
    assert_eq!(poe.revoke_claim(Origin::signed(3), claim.clone()), Ok(()));
    assert_eq!(
        poe.events().clone(),
        vec![
            PoeEvent::ClaimCreated(1, claim.clone()),
            PoeEvent::TransferClaim(claim.clone(), 3),
            PoeEvent::ClaimRevoked(3, claim.clone()),
        ]
    );
}
