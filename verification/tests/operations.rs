use poe::pallet::{Error, Event, Pallet};
use poe::registry::{Record, Registry};

#[test]
fn register_unregistered_succeeds_and_lookup_finds_caller() {
    let mut pallet = Pallet::new();
    let claim: Vec<u8> = vec![1, 2, 3];
    let r = pallet.create_claim(7, claim.clone(), 10);
    assert_eq!(r, Ok(Event::ClaimCreated(7, vec![1, 2, 3])));
    assert_eq!(pallet.proofs(&claim), Some(Record { owner: 7, registered_at: 10 }));
}

#[test]
fn register_twice_fails_with_already_exists_and_changes_nothing() {
    let mut pallet = Pallet::new();
    let claim: Vec<u8> = vec![5, 5];
    assert!(pallet.create_claim(1, claim.clone(), 3).is_ok());
    let r = pallet.create_claim(2, claim.clone(), 4);
    assert_eq!(r, Err(Error::AlreadyExists));
    assert_eq!(pallet.proofs(&claim), Some(Record { owner: 1, registered_at: 3 }));
}

#[test]
fn revoke_by_owner_removes_the_claim() {
    let mut pallet = Pallet::new();
    let claim: Vec<u8> = vec![9];
    assert!(pallet.create_claim(4, claim.clone(), 8).is_ok());
    let r = pallet.revoke_claim(4, claim.clone());
    assert_eq!(r, Ok(Event::ClaimRemoved(4, vec![9])));
    assert_eq!(pallet.proofs(&claim), None);
}

#[test]
fn revoke_by_non_owner_fails_with_not_owner_and_keeps_the_record() {
    let mut pallet = Pallet::new();
    let claim: Vec<u8> = vec![0, 1];
    assert!(pallet.create_claim(4, claim.clone(), 8).is_ok());
    let r = pallet.revoke_claim(5, claim.clone());
    assert_eq!(r, Err(Error::NotOwner));
    assert_eq!(pallet.proofs(&claim), Some(Record { owner: 4, registered_at: 8 }));
}

#[test]
fn transfer_by_owner_updates_owner_and_sequence_number() {
    let mut pallet = Pallet::new();
    let claim: Vec<u8> = vec![42];
    assert!(pallet.create_claim(1, claim.clone(), 5).is_ok());
    assert_eq!(pallet.proofs(&claim), Some(Record { owner: 1, registered_at: 5 }));
    let r = pallet.transfer_claim(1, claim.clone(), 2, 6);
    assert_eq!(r, Ok(Event::ClaimTransfer(vec![42], 1, 2)));
    assert_eq!(pallet.proofs(&claim), Some(Record { owner: 2, registered_at: 6 }));
}

#[test]
fn transfer_by_non_owner_fails_with_not_owner() {
    let mut pallet = Pallet::new();
    let claim: Vec<u8> = vec![42];
    assert!(pallet.create_claim(1, claim.clone(), 5).is_ok());
    let r = pallet.transfer_claim(3, claim.clone(), 2, 6);
    assert_eq!(r, Err(Error::NotOwner));
    assert_eq!(pallet.proofs(&claim), Some(Record { owner: 1, registered_at: 5 }));
}

#[test]
fn revoke_of_never_registered_fingerprint_fails_with_not_found() {
    let mut pallet = Pallet::new();
    let claim: Vec<u8> = vec![1, 2, 3, 4];
    let r = pallet.revoke_claim(1, claim.clone());
    assert_eq!(r, Err(Error::NotFound));
    assert_eq!(pallet.proofs(&claim), None);
}

#[test]
fn transfer_of_never_registered_fingerprint_fails_with_not_found() {
    let mut pallet = Pallet::new();
    let claim: Vec<u8> = vec![1, 2, 3, 4];
    let r = pallet.transfer_claim(1, claim.clone(), 2, 9);
    assert_eq!(r, Err(Error::NotFound));
    assert_eq!(pallet.proofs(&claim), None);
}

#[test]
fn empty_fingerprint_is_a_legal_key() {
    let mut pallet = Pallet::new();
    let claim: Vec<u8> = Vec::new();
    assert!(pallet.create_claim(1, claim.clone(), 1).is_ok());
    assert_eq!(pallet.proofs(&claim), Some(Record { owner: 1, registered_at: 1 }));
}

#[test]
fn scenario_register_transfer_revoke_reregister() {
    let alice: u64 = 1;
    let bob: u64 = 2;
    let carol: u64 = 3;
    let doc1: Vec<u8> = b"doc1".to_vec();

    let mut pallet = Pallet::new();
    assert!(pallet.create_claim(alice, doc1.clone(), 10).is_ok());
    assert_eq!(pallet.proofs(&doc1), Some(Record { owner: alice, registered_at: 10 }));

    assert!(pallet.transfer_claim(alice, doc1.clone(), bob, 20).is_ok());
    assert_eq!(pallet.proofs(&doc1), Some(Record { owner: bob, registered_at: 20 }));

    assert!(pallet.revoke_claim(bob, doc1.clone()).is_ok());
    assert_eq!(pallet.proofs(&doc1), None);

    assert!(pallet.create_claim(carol, doc1.clone(), 30).is_ok());
    assert_eq!(pallet.proofs(&doc1), Some(Record { owner: carol, registered_at: 30 }));
}

#[test]
fn scenario_revoke_never_registered_leaves_state_untouched() {
    let alice: u64 = 1;
    let doc1: Vec<u8> = b"doc1".to_vec();
    let other: Vec<u8> = b"doc2".to_vec();

    let mut pallet = Pallet::new();
    assert!(pallet.create_claim(alice, other.clone(), 1).is_ok());
    let r = pallet.revoke_claim(alice, doc1.clone());
    assert_eq!(r, Err(Error::NotFound));
    assert_eq!(pallet.proofs(&doc1), None);
    assert_eq!(pallet.proofs(&other), Some(Record { owner: alice, registered_at: 1 }));
}

#[test]
fn registry_update_of_absent_key_fails_and_changes_nothing() {
    let mut registry = Registry::new();
    let fp: Vec<u8> = vec![7];
    let r = registry.update(&fp, Record { owner: 1, registered_at: 1 });
    assert_eq!(r, Err(()));
    assert_eq!(registry.get(&fp), None);
}

#[test]
fn registry_update_of_present_key_replaces_the_record() {
    let mut registry = Registry::new();
    let fp: Vec<u8> = vec![7, 8];
    registry.insert(fp.clone(), Record { owner: 1, registered_at: 1 });
    let r = registry.update(&fp, Record { owner: 2, registered_at: 9 });
    assert_eq!(r, Ok(()));
    assert!(registry.contains(&fp));
    assert_eq!(registry.get(&fp), Some(Record { owner: 2, registered_at: 9 }));
}

#[test]
fn registry_remove_is_idempotent() {
    let mut registry = Registry::new();
    let fp: Vec<u8> = vec![3];
    registry.insert(fp.clone(), Record { owner: 1, registered_at: 1 });
    registry.remove(&fp);
    assert!(!registry.contains(&fp));
    registry.remove(&fp);
    assert!(!registry.contains(&fp));
}

#[test]
fn registry_keeps_other_keys_apart() {
    let mut registry = Registry::new();
    let a: Vec<u8> = vec![1];
    let b: Vec<u8> = vec![1, 0];
    registry.insert(a.clone(), Record { owner: 1, registered_at: 1 });
    registry.insert(b.clone(), Record { owner: 2, registered_at: 2 });
    registry.remove(&a);
    assert_eq!(registry.get(&a), None);
    assert_eq!(registry.get(&b), Some(Record { owner: 2, registered_at: 2 }));
}
