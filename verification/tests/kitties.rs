use std::collections::BTreeMap;

use chain_apps::hashing::random_value;
use chain_apps::kitties::{combine_dna, Kitties, Kitty, KittyError, KittyEvent};
use chain_apps::origin::Origin;

const NEW_KITTY_RESERVE: u64 = 5_000;

/// Free balances of a test runtime: accounts 1 to 3 are funded, account 9 is not.
struct Balances {
    free: BTreeMap<u64, u64>,
    reserved: BTreeMap<u64, u64>,
    asked: Vec<(u64, u64)>,
}

impl Balances {
    fn new() -> Self {
        let mut free = BTreeMap::new();
        free.insert(1, 100_000);
        free.insert(2, 100_000);
        free.insert(3, 100_000);
        free.insert(9, 10);
        Balances { free, reserved: BTreeMap::new(), asked: Vec::new() }
    }

    fn reserve(&mut self, who: u64, value: u64) -> bool {
        self.asked.push((who, value));
        let free = *self.free.get(&who).unwrap_or(&0);
        if free < value {
            return false;
        }
        self.free.insert(who, free - value);
        *self.reserved.entry(who).or_insert(0) += value;
        true
    }
}

struct Env {
    kitties: Kitties,
    balances: Balances,
    block: u8,
}

fn new_test_ext() -> Env {
    Env { kitties: Kitties::new(NEW_KITTY_RESERVE), balances: Balances::new(), block: 0 }
}

impl Env {
    fn run_to_block(&mut self, n: u8) {
        self.block = n;
    }

    fn seed(&self) -> [u8; 32] {
        [self.block; 32]
    }

    fn create(&mut self, origin: Origin) -> Result<(), KittyError> {
        let seed = self.seed();
        let balances = &mut self.balances;
        self.kitties.create(origin, seed, Some(1), |who, value| balances.reserve(who, value))
    }

    fn transfer(&mut self, origin: Origin, to: u64, kitty_id: u32) -> Result<(), KittyError> {
        self.kitties.transfer(origin, to, kitty_id)
    }

    fn breed(&mut self, origin: Origin, kitty_id_1: u32, kitty_id_2: u32) -> Result<(), KittyError> {
        let seed = self.seed();
        let balances = &mut self.balances;
        self.kitties.breed(origin, kitty_id_1, kitty_id_2, seed, Some(2), |who, value| balances.reserve(who, value))
    }

    fn count(&self) -> u32 {
        self.kitties.kitties_count()
    }
}

#[test]
fn owner_kitties_can_append_values() {
    let mut env = new_test_ext();
    env.run_to_block(10);
    assert_eq!(env.create(Origin::signed(1)), Ok(()));
    assert_eq!(*env.kitties.events().last().unwrap(), KittyEvent::Created(1u64, 0));
}

#[test]
fn owner_kitties_failed_when_no_enought_money() {
    let mut env = new_test_ext();
    env.run_to_block(10);
    assert_eq!(env.create(Origin::signed(9)), Err(KittyError::NotEnoughMoney));
    assert_eq!(env.count(), 0);
    assert!(env.kitties.events().is_empty());
}

#[test]
fn transfer_kitty_failed_when_no_exists() {
    let mut env = new_test_ext();
    assert_eq!(env.transfer(Origin::signed(1), 2, 0), Err(KittyError::InvalidKittyId));
    assert!(env.kitties.events().is_empty());
}

#[test]
fn transfer_kitty_failed_when_not_owner() {
    let mut env = new_test_ext();
    env.run_to_block(10);
    let _ = env.create(Origin::signed(1));
    assert_eq!(env.transfer(Origin::signed(2), 3, 0), Err(KittyError::NotKittyOwner));
    assert_eq!(env.kitties.kitty_owner(0), Some(1));
}

#[test]
fn breed_kitty_fail_when_same() {
    let mut env = new_test_ext();
    env.run_to_block(10);
    let _ = env.create(Origin::signed(1));
    assert_eq!(env.breed(Origin::signed(1), 0, 0), Err(KittyError::RequireDifferentParent));
    assert_eq!(env.count(), 1);
}

#[test]
fn breed_kitty_fail_when_not_exists() {
    let mut env = new_test_ext();
    assert_eq!(env.breed(Origin::signed(1), 0, 1), Err(KittyError::KittyNotExists));
    assert_eq!(env.count(), 0);
}

#[test]
fn breed_kitty_work_when_not_owner() {
    let mut env = new_test_ext();
    env.run_to_block(10);
    let _ = env.create(Origin::signed(1));
    let _ = env.create(Origin::signed(1));
    assert_eq!(env.breed(Origin::signed(2), 0, 1), Err(KittyError::NotKittyOwner));
    assert_eq!(env.count(), 2);
    assert_eq!(env.balances.asked.len(), 2);
}

#[test]
fn created_kitty_takes_hashed_dna_and_next_index() {
    let mut env = new_test_ext();
    env.run_to_block(3);
    assert_eq!(env.create(Origin::signed(2)), Ok(()));
    assert_eq!(env.create(Origin::signed(2)), Ok(()));
    assert_eq!(env.count(), 2);
    assert_eq!(env.kitties.kitties(0), Some(Kitty(random_value([3; 32], 2, Some(1)))));
    assert_eq!(env.kitties.kitty_owner(1), Some(2));
    assert_eq!(env.kitties.owned_kitties(2), vec![0, 1]);
    assert_eq!(env.kitties.owned_kitties_number(2), 2);
    assert_eq!(env.kitties.kitties(2), None);
    assert_eq!(*env.balances.reserved.get(&2).unwrap(), 2 * NEW_KITTY_RESERVE);
    assert_eq!(env.balances.asked, vec![(2, NEW_KITTY_RESERVE), (2, NEW_KITTY_RESERVE)]);
}

#[test]
fn owned_number_counts_own_kitties() {
    let mut env = new_test_ext();
    let _ = env.create(Origin::signed(1));
    let _ = env.create(Origin::signed(1));
    let _ = env.create(Origin::signed(3));
    assert_eq!(env.kitties.owned_kitties_number(3), 1);
    assert_eq!(env.kitties.owned_kitties_number(1), 2);
    assert_eq!(env.kitties.owned_kitties_number(2), 0);
}

#[test]
fn transfer_changes_owner_only() {
    let mut env = new_test_ext();
    let _ = env.create(Origin::signed(1));
    assert_eq!(env.transfer(Origin::signed(1), 1, 0), Err(KittyError::TransferToSelf));
    assert_eq!(env.transfer(Origin::Root, 2, 0), Err(KittyError::BadOrigin));
    assert_eq!(env.transfer(Origin::signed(1), 2, 0), Ok(()));
    assert_eq!(env.kitties.kitty_owner(0), Some(2));
    // the list of kitties its maker made stays as it was
    assert_eq!(env.kitties.owned_kitties(1), vec![0]);
    assert_eq!(*env.kitties.events().last().unwrap(), KittyEvent::Transferred(1, 2, 0));
}

#[test]
fn bred_kitty_mixes_parents_and_records_lineage() {
    let mut env = new_test_ext();
    env.run_to_block(4);
    let _ = env.create(Origin::signed(1));
    let _ = env.create(Origin::signed(1));
    assert_eq!(env.breed(Origin::signed(1), 0, 1), Ok(()));
    assert_eq!(env.breed(Origin::signed(1), 0, 1), Ok(()));
    let dna1 = env.kitties.kitties(0).unwrap().0;
    let dna2 = env.kitties.kitties(1).unwrap().0;
    let selector = random_value([4; 32], 1, Some(2));
    let mut expected = [0u8; 16];
    for i in 0..16 {
        expected[i] = (selector[i] & dna1[i]) | (!selector[i] & dna2[i]);
    }
    assert_eq!(env.kitties.kitties(2), Some(Kitty(expected)));
    assert_eq!(env.kitties.kitties(3), Some(Kitty(expected)));
    assert_eq!(env.kitties.kitty_parents(2), (0, 1));
    assert_eq!(env.kitties.kitty_children(0, 1), vec![2, 3]);
    assert_eq!(env.kitties.kitty_brother(2), Vec::<u32>::new());
    assert_eq!(env.kitties.kitty_brother(3), vec![2]);
    assert_eq!(env.kitties.kitty_object(0), vec![1, 1]);
    assert_eq!(env.kitties.kitty_owner(3), Some(1));
    assert_eq!(*env.kitties.events().last().unwrap(), KittyEvent::Created(1, 3));
    assert_eq!(env.kitties.kitty_parents(0), (0, 0));
}

#[test]
fn breed_without_deposit_keeps_lineage_but_no_kitty() {
    let mut env = new_test_ext();
    let _ = env.create(Origin::signed(1));
    let _ = env.create(Origin::signed(1));
    env.balances.free.insert(1, 0);
    assert_eq!(env.breed(Origin::signed(1), 0, 1), Err(KittyError::NotEnoughMoney));
    assert_eq!(env.count(), 2);
    assert_eq!(env.kitties.kitties(2), None);
    assert_eq!(env.kitties.kitty_parents(2), (0, 1));
    assert_eq!(env.kitties.kitty_children(0, 1), vec![2]);
    assert_eq!(env.kitties.events().len(), 2);
    assert_eq!(env.balances.asked.last(), Some(&(1, NEW_KITTY_RESERVE)));
}

#[test]
fn combine_dna_takes_bits_by_selector() {
    assert_eq!(combine_dna(0b1010_1010, 0b0101_0101, 0b1111_0000), 0b1010_0101);
    assert_eq!(combine_dna(0x12, 0x34, 0xff), 0x12);
    assert_eq!(combine_dna(0x12, 0x34, 0x00), 0x34);
    assert_eq!(combine_dna(0x5a, 0x5a, 0x3c), 0x5a);
}

#[test]
fn settle_reserve_needs_the_deposit() {
    let mut kitties = Kitties::new(1);
    let kitty = Kitty([1; 16]);
    assert_eq!(kitties.settle_reserve(7, 0, kitty, false), Err(KittyError::NotEnoughMoney));
    assert_eq!(kitties.kitties_count(), 0);
    assert_eq!(kitties.settle_reserve(7, 0, kitty, true), Ok(()));
    assert_eq!(kitties.kitties(0), Some(kitty));
    assert_eq!(kitties.kitty_owner(0), Some(7));
}

#[test]
fn record_lineage_combines_under_selector() {
    let mut kitties = Kitties::new(1);
    let a = Kitty([0xf0; 16]);
    let b = Kitty([0x0f; 16]);
    let child = kitties.record_lineage(0, 1, 2, &a, &b, &[0xcc; 16]);
    assert_eq!(child, Kitty([0xc3; 16]));
    assert_eq!(kitties.kitty_children(1, 2), vec![0]);
    assert_eq!(kitties.kitty_brother(0), Vec::<u32>::new());
    assert_eq!(kitties.kitty_object(1), vec![2]);
}

#[test]
fn next_kitty_id_is_the_count() {
    let mut env = new_test_ext();
    assert_eq!(env.kitties.next_kitty_id(), Ok(0));
    let _ = env.create(Origin::signed(3));
    assert_eq!(env.kitties.next_kitty_id(), Ok(1));
}

#[test]
fn settle_reserve_at_any_index() {
    let mut kitties = Kitties::new(1);
    let kitty = Kitty([2; 16]);
    assert_eq!(kitties.settle_reserve(4, 5, kitty, true), Ok(()));
    assert_eq!(kitties.kitties_count(), 6);
    assert_eq!(kitties.kitties(5), Some(kitty));
    assert_eq!(kitties.owned_kitties(4), vec![5]);
    assert_eq!(kitties.owned_kitties_number(4), 1);
}
