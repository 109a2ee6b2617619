use chain_apps::erc20::{Approval, Erc20, Erc20Event, Error, Transfer};

fn token() -> Erc20 {
    Erc20::new(1, b"BitCoin".to_vec(), b"BTC".to_vec(), 1_000, 18)
}

#[test]
fn new_token_gives_supply_to_creator() {
    let t = token();
    assert_eq!(t.name(), b"BitCoin".to_vec());
    assert_eq!(t.symbol(), b"BTC".to_vec());
    assert_eq!(t.decimals(), 18);
    assert_eq!(t.total_supply(), 1_000);
    assert_eq!(t.balance_of(1), 1_000);
    assert_eq!(t.balance_of(2), 0);
    assert_eq!(t.events().clone(), vec![Erc20Event::Transfer(Transfer { from: None, to: Some(1), value: 1_000 })]);
}

#[test]
fn transfer_moves_value() {
    let mut t = token();
    assert_eq!(t.transfer(1, 2, 300), Ok(()));
    assert_eq!(t.balance_of(1), 700);
    assert_eq!(t.balance_of(2), 300);
    assert_eq!(t.transfer(2, 3, 301), Err(Error::InsufficientBalance));
    assert_eq!(t.balance_of(2), 300);
    assert_eq!(t.balance_of(3), 0);
    assert_eq!(t.transfer(2, 2, 300), Ok(()));
    assert_eq!(t.balance_of(2), 300);
    assert_eq!(t.total_supply(), 1_000);
    // and back again
    assert_eq!(t.transfer(2, 1, 300), Ok(()));
    assert_eq!(t.balance_of(1), 1_000);
    assert_eq!(t.balance_of(2), 0);
}

#[test]
fn approve_sets_allowance() {
    let mut t = token();
    assert_eq!(t.allowance(1, 2), 0);
    assert_eq!(t.approve(1, 2, 50), Ok(()));
    assert_eq!(t.allowance(1, 2), 50);
    assert_eq!(t.approve(1, 2, 20), Ok(()));
    assert_eq!(t.allowance(1, 2), 20);
    assert_eq!(*t.events().last().unwrap(), Erc20Event::Approval(Approval { owner: 1, spender: 2, value: 20 }));
}

#[test]
fn transfer_from_spends_within_allowance() {
    let mut t = token();
    let _ = t.approve(1, 2, 100);
    assert_eq!(t.transfer_from(2, 1, 3, 101), Err(Error::InsufficientAllowance));
    assert_eq!(t.transfer_from(2, 1, 3, 60), Ok(()));
    assert_eq!(t.balance_of(1), 940);
    assert_eq!(t.balance_of(3), 60);
    assert_eq!(t.allowance(1, 2), 40);
    assert_eq!(t.allowance(1, 3), 0);
    // a second spend of the whole first allowance is refused
    assert_eq!(t.transfer_from(2, 1, 3, 60), Err(Error::InsufficientAllowance));
    assert_eq!(t.transfer_from(2, 1, 2, 40), Ok(()));
    assert_eq!(t.allowance(1, 2), 0);
    assert_eq!(t.balance_of(2), 40);
}

#[test]
fn transfer_from_needs_balance() {
    let mut t = token();
    let _ = t.transfer(1, 2, 10);
    let _ = t.approve(2, 3, 500);
    assert_eq!(t.transfer_from(3, 2, 4, 11), Err(Error::InsufficientBalance));
    assert_eq!(t.balance_of(2), 10);
    assert_eq!(t.allowance(2, 3), 500);
}

#[test]
fn issue_and_burn() {
    let mut t = token();
    assert_eq!(t.issue(2, 10), Err(Error::OnlyForCreator));
    assert_eq!(t.issue(1, 500), Ok(()));
    assert_eq!(t.total_supply(), 1_500);
    assert_eq!(t.balance_of(1), 1_500);
    assert_eq!(*t.events().last().unwrap(), Erc20Event::Transfer(Transfer { from: None, to: Some(1), value: 500 }));
    assert_eq!(t.burn(1, 500), Ok(()));
    assert_eq!(t.total_supply(), 1_000);
    assert_eq!(t.balance_of(1), 1_000);
    assert_eq!(*t.events().last().unwrap(), Erc20Event::Transfer(Transfer { from: Some(1), to: None, value: 500 }));
    assert_eq!(t.burn(2, 1), Err(Error::InsufficientBalance));
    assert_eq!(t.total_supply(), 1_000);
}
